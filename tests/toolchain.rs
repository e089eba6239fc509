use panamax::toolchain::{
    absent_artifacts, all_platforms, artifact_path, enabled_variants, keep_latest_for,
    pinned_versions, ArchiveVariant, ReleaseChannel,
};
use panamax::ConfigRustup;

fn cfg() -> ConfigRustup {
    ConfigRustup {
        sync: true,
        download_threads: 2,
        source: "https://static.rust-lang.org".to_string(),
        download_dev: Some(false),
        download_gz: None,
        download_xz: Some(true),
        platforms_unix: Some(vec!["x86_64-unknown-linux-gnu".to_string()]),
        platforms_windows: Some(vec!["x86_64-pc-windows-msvc".to_string()]),
        keep_latest_stables: Some(2),
        keep_latest_betas: None,
        keep_latest_nightlies: Some(5),
        pinned_rust_versions: Some(vec!["1.77".to_string()]),
    }
}

#[test]
fn variants_follow_toggles() {
    assert_eq!(enabled_variants(&cfg()), vec![ArchiveVariant::Base, ArchiveVariant::Xz]);
}

#[test]
fn platforms_unix_then_windows() {
    assert_eq!(
        all_platforms(&cfg()),
        vec!["x86_64-unknown-linux-gnu".to_string(), "x86_64-pc-windows-msvc".to_string()]
    );
}

#[test]
fn retention_per_channel() {
    assert_eq!(keep_latest_for(&cfg(), ReleaseChannel::Stable), Some(2));
    assert_eq!(keep_latest_for(&cfg(), ReleaseChannel::Beta), None);
    assert_eq!(keep_latest_for(&cfg(), ReleaseChannel::Nightly), Some(5));
    assert_eq!(pinned_versions(&cfg()), vec!["1.77".to_string()]);
}

#[test]
fn artifact_layout() {
    assert_eq!(
        artifact_path("x86_64-unknown-linux-gnu", ReleaseChannel::Stable, "1.80", ArchiveVariant::Xz),
        "dist/x86_64-unknown-linux-gnu/stable/1.80/xz"
    );
}

#[test]
fn present_artifacts_skipped() {
    let vars = vec![ArchiveVariant::Base, ArchiveVariant::Gz];
    let present = vec!["dist/p/beta/1.81/base".to_string()];
    assert_eq!(
        absent_artifacts("p", ReleaseChannel::Beta, "1.81", &vars, &present),
        vec!["dist/p/beta/1.81/gz".to_string()]
    );
}
