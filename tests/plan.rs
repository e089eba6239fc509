use panamax::layout::CrateLayout;
use panamax::plan::{
    after_audit, narrow_missing, next_crate_stage, plan_sync, plan_verify, rewrite_target,
    serve_settings, AuditOutcome, ChannelStep, CrateSyncStage, RewriteTarget, StepCounter,
};
use panamax::reconcile::MissingEntry;
use panamax::{Config, ConfigCrates, ConfigMirror, ConfigRustup, MirrorError};

fn crates(sync: bool, override_format: Option<bool>) -> ConfigCrates {
    ConfigCrates {
        sync,
        download_threads: 4,
        source: "https://crates.io/api/v1/crates".to_string(),
        source_index: "https://github.com/rust-lang/crates.io-index".to_string(),
        use_new_crates_format: override_format,
        base_url: None,
    }
}

fn rustup(sync: bool) -> ConfigRustup {
    ConfigRustup {
        sync,
        download_threads: 4,
        source: "https://static.rust-lang.org".to_string(),
        download_dev: None,
        download_gz: None,
        download_xz: Some(true),
        platforms_unix: None,
        platforms_windows: None,
        keep_latest_stables: None,
        keep_latest_betas: None,
        keep_latest_nightlies: None,
        pinned_rust_versions: None,
    }
}

fn config(contact: Option<&str>, r: Option<ConfigRustup>, c: Option<ConfigCrates>) -> Config {
    Config {
        mirror: ConfigMirror { retries: 3, contact: contact.map(|s| s.to_string()) },
        rustup: r,
        crates: c,
    }
}

#[test]
fn legacy_tree_stops_sync() {
    let cfg = config(None, Some(rustup(true)), Some(crates(true, None)));
    assert!(matches!(plan_sync(&cfg, CrateLayout::Legacy), Err(MirrorError::LegacyLayoutUnsupported)));
}

#[test]
fn legacy_tree_stops_verify() {
    let cfg = config(None, None, Some(crates(true, Some(false))));
    assert_eq!(plan_verify(&cfg, CrateLayout::Legacy, false, true), Err(MirrorError::LegacyLayoutUnsupported));
}

#[test]
fn legacy_tree_allowed_by_override_or_disabled_sync() {
    let cfg = config(None, None, Some(crates(true, Some(true))));
    assert!(plan_sync(&cfg, CrateLayout::Legacy).is_ok());
    let cfg = config(None, None, Some(crates(false, None)));
    assert!(plan_sync(&cfg, CrateLayout::Legacy).is_ok());
}

#[test]
fn sync_plan_channels() {
    let cfg = config(Some("ops@example.com"), Some(rustup(false)), Some(crates(true, None)));
    let p = plan_sync(&cfg, CrateLayout::Current).unwrap();
    assert_eq!(p.rustup, ChannelStep::Disabled);
    assert_eq!(p.crates, ChannelStep::Run);
    assert_eq!(p.identity.text, "Panamax/1.0.3 (ops@example.com)");
    let cfg = config(None, None, None);
    let p = plan_sync(&cfg, CrateLayout::Current).unwrap();
    assert_eq!(p.rustup, ChannelStep::Missing);
    assert_eq!(p.crates, ChannelStep::Missing);
}

#[test]
fn sync_refuses_bad_contact() {
    let cfg = config(Some("not a header \x00"), None, Some(crates(true, None)));
    assert!(matches!(plan_sync(&cfg, CrateLayout::Current), Err(MirrorError::InvalidIdentification)));
}

#[test]
fn dry_run_stays_at_audit() {
    let cfg = config(None, None, Some(crates(true, None)));
    let p = plan_verify(&cfg, CrateLayout::Current, true, false).unwrap();
    assert_eq!(p.total_steps, 1);
    assert!(!p.repair);
    assert_eq!(after_audit(&p, 3), AuditOutcome::ReportOnly);
    let counter = StepCounter::start(p.total_steps);
    assert_eq!(counter.current, counter.total);
}

#[test]
fn repair_run_has_two_steps() {
    let cfg = config(None, None, Some(crates(true, None)));
    let p = plan_verify(&cfg, CrateLayout::Current, false, false).unwrap();
    assert_eq!(p.total_steps, 2);
    assert_eq!(after_audit(&p, 2), AuditOutcome::Repair { ask_operator: true });
    assert_eq!(after_audit(&p, 0), AuditOutcome::Clean);
    let p = plan_verify(&cfg, CrateLayout::Current, false, true).unwrap();
    assert_eq!(after_audit(&p, 2), AuditOutcome::Repair { ask_operator: false });
    let mut counter = StepCounter::start(p.total_steps);
    counter.advance();
    assert_eq!(counter.current, 2);
}

#[test]
fn verify_without_crate_sync_only_reports() {
    let cfg = config(None, None, Some(crates(false, None)));
    let p = plan_verify(&cfg, CrateLayout::Current, false, true).unwrap();
    assert_eq!(p.total_steps, 1);
    assert_eq!(after_audit(&p, 1), AuditOutcome::ReportOnly);
}

#[test]
fn operator_narrows_missing_set() {
    let m = vec![
        MissingEntry { name: "a".to_string(), version: "1".to_string() },
        MissingEntry { name: "b".to_string(), version: "2".to_string() },
    ];
    let r = narrow_missing(&m, &vec![false, true]);
    assert_eq!(r.len(), 1);
    assert_eq!(r[0].get_name(), "b");
    assert!(narrow_missing(&m, &vec![false, false]).is_empty());
}

#[test]
fn serve_ports_and_tls() {
    let s = serve_settings(None, true, true).unwrap();
    assert_eq!((s.port, s.tls), (8443, true));
    let s = serve_settings(None, false, false).unwrap();
    assert_eq!((s.port, s.tls), (8080, false));
    let s = serve_settings(Some(9000), false, false).unwrap();
    assert_eq!(s.port, 9000);
}

#[test]
fn serve_refuses_half_tls() {
    assert_eq!(
        serve_settings(None, true, false),
        Err(MirrorError::CmdLine("cert_path set but key_path not set.".to_string()))
    );
    assert_eq!(
        serve_settings(Some(1), false, true),
        Err(MirrorError::CmdLine("key_path set but cert_path not set.".to_string()))
    );
}

#[test]
fn rewrite_prefers_command_line() {
    let mut c = crates(true, None);
    c.base_url = Some("http://configured".to_string());
    assert_eq!(
        rewrite_target(&Some("http://cli".to_string()), &Some(c.clone())),
        RewriteTarget::Url("http://cli".to_string())
    );
    assert_eq!(rewrite_target(&None, &Some(c)), RewriteTarget::Url("http://configured".to_string()));
    assert_eq!(rewrite_target(&None, &Some(crates(true, None))), RewriteTarget::NoBaseUrl);
    assert_eq!(rewrite_target(&None, &None), RewriteTarget::NoCratesSection);
}

#[test]
fn crate_sync_stages() {
    assert_eq!(next_crate_stage(CrateSyncStage::AdvanceIndex, true), CrateSyncStage::FetchContent);
    assert_eq!(next_crate_stage(CrateSyncStage::FetchContent, false), CrateSyncStage::Aborted);
    assert_eq!(next_crate_stage(CrateSyncStage::FetchContent, true), CrateSyncStage::RewritePointer);
    assert_eq!(next_crate_stage(CrateSyncStage::RewritePointer, true), CrateSyncStage::Finished);
}
