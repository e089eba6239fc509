use vstd::prelude::*;
use vstd::string::*;

use crate::error::MirrorError;
use crate::layout::{crate_path, crate_rel_path};
use crate::reconcile::MissingEntry;

verus! {

/// One download: where from, where to, and which package version it is.
#[derive(Debug, Clone)]
pub struct DownloadJob {
    pub url: String,
    pub dest: String,
    pub name: String,
    pub version: String,
}

/// How one attempt of a download ended.
#[derive(Debug, Clone, Copy, PartialEq, Eq, Structural)]
pub enum AttemptEnd {
    /// The whole body arrived in the temporary file; `digest_ok` tells
    /// whether it matched the expected identity (true where none is known).
    Completed { digest_ok: bool },
    /// The transfer broke off, or writing the temporary file failed.
    Failed,
}

/// What to do after an attempt.
#[derive(Debug, Clone, Copy, PartialEq, Eq, Structural)]
pub enum FetchAction {
    /// Rename the temporary file onto the destination.
    Promote,
    /// Discard the temporary file and try again.
    Retry,
    /// Discard the temporary file and report the job as failed.
    GiveUp,
}

/// Attempts of one job: failed attempts so far, and the retry budget.
#[derive(Debug, Clone, Copy, PartialEq, Eq, Structural)]
pub struct JobProgress {
    pub failures: usize,
    pub retries: usize,
}

impl JobProgress {
    pub open spec fn wf(self) -> bool {
        self.failures <= self.retries
    }

    /// A job that has not been tried yet.
    pub fn new(retries: usize) -> (r: JobProgress)
        ensures
            r.failures == 0,
            r.retries == retries,
            r.wf(),
    {
        JobProgress { failures: 0, retries }
    }
}

/// Only a complete download with the expected identity reaches the
/// destination; a failed one is retried while the budget lasts.
pub open spec fn next_action(p: JobProgress, ev: AttemptEnd) -> FetchAction {
    match ev {
        AttemptEnd::Completed { digest_ok: true } => FetchAction::Promote,
        _ => if p.failures < p.retries {
            FetchAction::Retry
        } else {
            FetchAction::GiveUp
        },
    }
}

/// Records the end of an attempt and says what to do next.
pub fn after_attempt(job: &mut JobProgress, ev: AttemptEnd) -> (a: FetchAction)
    requires
        old(job).wf(),
    ensures
        a == next_action(*old(job), ev),
        final(job).wf(),
        final(job).retries == old(job).retries,
        final(job).failures == if a == FetchAction::Retry {
            old(job).failures + 1
        } else {
            old(job).failures as int
        },
{
    match ev {
        AttemptEnd::Completed { digest_ok: true } => FetchAction::Promote,
        _ => {
            if job.failures < job.retries {
                job.failures = job.failures + 1;
                FetchAction::Retry
            } else {
                FetchAction::GiveUp
            }
        },
    }
}

/// Atomic write: whatever the state of a job, an attempt that broke off or
/// whose content did not match never leads to the destination path.
pub proof fn lemma_only_verified_downloads_promoted(p: JobProgress, ev: AttemptEnd)
    ensures
        next_action(p, ev) == FetchAction::Promote <==> ev == (AttemptEnd::Completed {
            digest_ok: true,
        }),
        ev == AttemptEnd::Failed ==> next_action(p, ev) != FetchAction::Promote,
{
}

/// A job is attempted at most once more than its retry budget.
pub proof fn lemma_attempts_bounded(p: JobProgress, ev: AttemptEnd)
    requires
        p.wf(),
    ensures
        next_action(p, ev) == FetchAction::Retry ==> p.failures + 1 <= p.retries,
{
}

/// The temporary file that a download is written to before it is renamed.
pub open spec fn temp_path_of(dest: Seq<char>) -> Seq<char> {
    dest + ".part"@
}

/// The temporary path of a destination.
pub fn temp_path(dest: &str) -> (r: String)
    ensures
        r@ == temp_path_of(dest@),
        r@ != dest@,
{
    let mut s = String::from_str(dest);
    s.append(".part");
    proof {
        reveal_strlit(".part");
        assert(s@.len() == dest@.len() + 5);
    }
    s
}

/// `<source>/<name>/<version>/download`.
pub open spec fn download_url_of(source: Seq<char>, name: Seq<char>, version: Seq<char>) -> Seq<
    char,
> {
    source + "/"@ + name + "/"@ + version + "/download"@
}

pub open spec fn job_for(source: Seq<char>, e: MissingEntry, j: DownloadJob) -> bool {
    &&& j.url@ == download_url_of(source, e.name@, e.version@)
    &&& j.dest@ == crate_rel_path(e.name@, e.version@)
    &&& j.name@ == e.name@
    &&& j.version@ == e.version@
}

/// The download of one missing entry, or `None` for an empty name.
pub fn download_job(source: &str, e: &MissingEntry) -> (r: Option<DownloadJob>)
    ensures
        r is None <==> e.name@.len() == 0,
        r matches Some(j) ==> job_for(source@, *e, j),
{
    match crate_path(e.name.as_str(), e.version.as_str()) {
        None => None,
        Some(dest) => {
            let mut url = String::from_str(source);
            url.append("/");
            url.append(e.name.as_str());
            url.append("/");
            url.append(e.version.as_str());
            url.append("/download");
            Some(DownloadJob { url, dest, name: e.name.clone(), version: e.version.clone() })
        },
    }
}

/// The downloads of the missing entries that have a place in the tree, in
/// the order of the entries.
pub fn download_jobs(source: &str, missing: &Vec<MissingEntry>) -> (r: Vec<DownloadJob>)
    requires
        forall|i: int| 0 <= i < missing@.len() ==> (#[trigger] missing@[i]).name@.len() > 0,
    ensures
        r@.len() == missing@.len(),
        forall|i: int| 0 <= i < r@.len() ==> job_for(source@, missing@[i], #[trigger] r@[i]),
{
    let mut out: Vec<DownloadJob> = Vec::new();
    let mut i: usize = 0;
    while i < missing.len()
        invariant
            i <= missing.len(),
            out@.len() == i,
            forall|j: int| 0 <= j < i ==> job_for(source@, missing@[j], #[trigger] out@[j]),
            forall|j: int| 0 <= j < missing@.len() ==> (#[trigger] missing@[j]).name@.len() > 0,
        decreases missing.len() - i,
    {
        let e = &missing[i];
        assert(missing@[i as int].name@.len() > 0);
        match download_job(source, e) {
            Some(j) => out.push(j),
            None => {},
        }
        i = i + 1;
    }
    out
}

/// The failed jobs of a batch, in order: job `i` failed when `succeeded[i]`
/// is false.
pub open spec fn failed_upto(
    dests: Seq<Seq<char>>,
    succeeded: Seq<bool>,
    n: int,
) -> Seq<Seq<char>>
    decreases n,
{
    if n <= 0 {
        Seq::empty()
    } else if succeeded[n - 1] {
        failed_upto(dests, succeeded, n - 1)
    } else {
        failed_upto(dests, succeeded, n - 1).push(dests[n - 1])
    }
}

pub open spec fn job_dests(jobs: Seq<DownloadJob>) -> Seq<Seq<char>> {
    jobs.map_values(|j: DownloadJob| j.dest@)
}

pub open spec fn failure_dests(errs: Seq<MirrorError>) -> Seq<Seq<char>> {
    errs.map_values(
        |e: MirrorError|
            match e {
                MirrorError::DownloadFailed(d) => d@,
                _ => Seq::empty(),
            },
    )
}

/// One `DownloadFailed` per failed job of a finished batch; the others are
/// kept. The batch as a whole failed when the list is not empty.
pub fn batch_failures(jobs: &Vec<DownloadJob>, succeeded: &Vec<bool>) -> (r: Vec<MirrorError>)
    requires
        jobs@.len() == succeeded@.len(),
    ensures
        forall|i: int| 0 <= i < r@.len() ==> (#[trigger] r@[i]) is DownloadFailed,
        failure_dests(r@) == failed_upto(job_dests(jobs@), succeeded@, jobs@.len() as int),
{
    let mut out: Vec<MirrorError> = Vec::new();
    let mut i: usize = 0;
    while i < jobs.len()
        invariant
            i <= jobs.len(),
            jobs@.len() == succeeded@.len(),
            forall|j: int| 0 <= j < out@.len() ==> (#[trigger] out@[j]) is DownloadFailed,
            failure_dests(out@) == failed_upto(job_dests(jobs@), succeeded@, i as int),
        decreases jobs.len() - i,
    {
        if !succeeded[i] {
            let ghost before = out@;
            out.push(MirrorError::DownloadFailed(jobs[i].dest.clone()));
            assert(failure_dests(out@) =~= failure_dests(before).push(jobs@[i as int].dest@));
        }
        i = i + 1;
    }
    out
}

} // verus!
