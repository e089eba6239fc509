use panamax::fetch::{
    after_attempt, batch_failures, download_job, download_jobs, temp_path, AttemptEnd,
    FetchAction, JobProgress,
};
use panamax::reconcile::MissingEntry;
use panamax::MirrorError;

fn entry(name: &str, version: &str) -> MissingEntry {
    MissingEntry { name: name.to_string(), version: version.to_string() }
}

#[test]
fn failure_mid_download_never_promotes() {
    let mut job = JobProgress::new(2);
    assert_eq!(after_attempt(&mut job, AttemptEnd::Failed), FetchAction::Retry);
    assert_eq!(after_attempt(&mut job, AttemptEnd::Failed), FetchAction::Retry);
    assert_eq!(after_attempt(&mut job, AttemptEnd::Failed), FetchAction::GiveUp);
    assert_eq!(job.failures, 2);
}

#[test]
fn digest_mismatch_is_retried() {
    let mut job = JobProgress::new(1);
    assert_eq!(
        after_attempt(&mut job, AttemptEnd::Completed { digest_ok: false }),
        FetchAction::Retry
    );
    assert_eq!(
        after_attempt(&mut job, AttemptEnd::Completed { digest_ok: true }),
        FetchAction::Promote
    );
    assert_eq!(job.failures, 1);
}

#[test]
fn no_retries_gives_up_at_once() {
    let mut job = JobProgress::new(0);
    assert_eq!(after_attempt(&mut job, AttemptEnd::Failed), FetchAction::GiveUp);
}

#[test]
fn temporary_path_differs_from_destination() {
    assert_eq!(temp_path("se/rd/serde/1.0.1/serde-1.0.1.crate"), "se/rd/serde/1.0.1/serde-1.0.1.crate.part");
}

#[test]
fn job_of_missing_entry() {
    let j = download_job("https://crates.io/api/v1/crates", &entry("serde", "1.0.1")).unwrap();
    assert_eq!(j.url, "https://crates.io/api/v1/crates/serde/1.0.1/download");
    assert_eq!(j.dest, "se/rd/serde/1.0.1/serde-1.0.1.crate");
    assert_eq!(j.name, "serde");
    assert_eq!(j.version, "1.0.1");
    assert!(download_job("https://x", &entry("", "1.0.0")).is_none());
}

#[test]
fn jobs_keep_entry_order() {
    let jobs = download_jobs("https://x", &vec![entry("a", "1"), entry("bb", "2")]);
    assert_eq!(jobs.len(), 2);
    assert_eq!(jobs[0].dest, "1/a/1/a-1.crate");
    assert_eq!(jobs[1].url, "https://x/bb/2/download");
}

#[test]
fn batch_reports_each_failure_and_keeps_going() {
    let jobs = download_jobs("https://x", &vec![entry("a", "1"), entry("bb", "2"), entry("ccc", "3")]);
    let errs = batch_failures(&jobs, &vec![true, false, false]);
    assert_eq!(
        errs,
        vec![
            MirrorError::DownloadFailed("2/bb/2/bb-2.crate".to_string()),
            MirrorError::DownloadFailed("3/c/ccc/3/ccc-3.crate".to_string()),
        ]
    );
    assert!(batch_failures(&jobs, &vec![true, true, true]).is_empty());
}
