use vstd::prelude::*;
use vstd::string::*;

use crate::config::{Config, ConfigCrates, ConfigRustup};
use crate::error::MirrorError;
use crate::identity::{agent_text, header_text_ok, identification, opt_view, Identification};
use crate::layout::CrateLayout;
use crate::reconcile::{entry_keys, Key, MissingEntry};

verus! {

/// What happens to one channel during a run.
#[derive(Debug, Clone, Copy, PartialEq, Eq, Structural)]
pub enum ChannelStep {
    /// The channel is synchronised.
    Run,
    /// Its section is there with sync switched off.
    Disabled,
    /// Its section is absent.
    Missing,
}

/// A crate tree in the legacy layout stops a run, unless crate sync is off
/// or the operator declared the tree to be in the current layout.
pub open spec fn legacy_blocks(crates: Option<ConfigCrates>, layout: CrateLayout) -> bool {
    match crates {
        Some(c) => c.sync && layout == CrateLayout::Legacy && c.use_new_crates_format != Some(
            true,
        ),
        None => false,
    }
}

/// Refuses a legacy crate tree as `legacy_blocks` says.
pub fn check_layout(crates: &Option<ConfigCrates>, layout: CrateLayout) -> (r: Result<
    (),
    MirrorError,
>)
    ensures
        r is Err <==> legacy_blocks(*crates, layout),
        r matches Err(e) ==> e == MirrorError::LegacyLayoutUnsupported,
{
    match crates {
        Some(c) => {
            let overridden = match c.use_new_crates_format {
                Some(b) => b,
                None => false,
            };
            if c.sync && layout == CrateLayout::Legacy && !overridden {
                Err(MirrorError::LegacyLayoutUnsupported)
            } else {
                Ok(())
            }
        },
        None => Ok(()),
    }
}

pub open spec fn rustup_step(r: Option<ConfigRustup>) -> ChannelStep {
    match r {
        Some(c) => if c.sync {
            ChannelStep::Run
        } else {
            ChannelStep::Disabled
        },
        None => ChannelStep::Missing,
    }
}

pub open spec fn crates_step(c: Option<ConfigCrates>) -> ChannelStep {
    match c {
        Some(c) => if c.sync {
            ChannelStep::Run
        } else {
            ChannelStep::Disabled
        },
        None => ChannelStep::Missing,
    }
}

/// What a `sync` run does: the identification it sends, and what happens to
/// each channel (toolchains first, then crates).
pub struct SyncPlan {
    pub identity: Identification,
    pub rustup: ChannelStep,
    pub crates: ChannelStep,
}

/// Decides a `sync` run before any download: a blocking legacy tree, then an
/// invalid identification, stop it; otherwise each channel runs unless its
/// section is absent or switched off.
pub fn plan_sync(config: &Config, layout: CrateLayout) -> (r: Result<SyncPlan, MirrorError>)
    ensures
        legacy_blocks(config.crates, layout) ==> r matches Err(
            MirrorError::LegacyLayoutUnsupported,
        ),
        !legacy_blocks(config.crates, layout) && !header_text_ok(
            agent_text(opt_view(config.mirror.contact)),
        ) ==> r matches Err(MirrorError::InvalidIdentification),
        r is Ok <==> !legacy_blocks(config.crates, layout) && header_text_ok(
            agent_text(opt_view(config.mirror.contact)),
        ),
        r matches Ok(p) ==> {
            &&& p.identity.text@ == agent_text(opt_view(config.mirror.contact))
            &&& p.rustup == rustup_step(config.rustup)
            &&& p.crates == crates_step(config.crates)
        },
{
    check_layout(&config.crates, layout)?;
    let identity = identification(&config.mirror.contact)?;
    let rustup = match &config.rustup {
        Some(c) => if c.sync {
            ChannelStep::Run
        } else {
            ChannelStep::Disabled
        },
        None => ChannelStep::Missing,
    };
    let crates = match &config.crates {
        Some(c) => if c.sync {
            ChannelStep::Run
        } else {
            ChannelStep::Disabled
        },
        None => ChannelStep::Missing,
    };
    Ok(SyncPlan { identity, rustup, crates })
}

/// What a `verify` run does after its audit step.
#[derive(Debug, Clone, Copy, PartialEq, Eq, Structural)]
pub struct VerifyPlan {
    /// 1 for an audit alone, 2 for an audit and a repair.
    pub total_steps: usize,
    /// Whether missing entries are fetched.
    pub repair: bool,
    /// Whether the operator narrows the missing set before the repair.
    pub ask_operator: bool,
}

pub open spec fn crates_sync_on(c: Option<ConfigCrates>) -> bool {
    match c {
        Some(c) => c.sync,
        None => false,
    }
}

pub open spec fn verify_plan_of(
    crates: Option<ConfigCrates>,
    dry_run: bool,
    assume_yes: bool,
) -> VerifyPlan {
    let repair = !dry_run && crates_sync_on(crates);
    VerifyPlan {
        total_steps: if repair {
            2
        } else {
            1
        },
        repair,
        ask_operator: repair && !assume_yes,
    }
}

/// Decides a `verify` run: a blocking legacy tree stops it; a repair follows
/// the audit only when crate sync is on and this is no dry run; the operator
/// is asked unless `assume_yes`.
pub fn plan_verify(config: &Config, layout: CrateLayout, dry_run: bool, assume_yes: bool) -> (r:
    Result<VerifyPlan, MirrorError>)
    ensures
        r is Err <==> legacy_blocks(config.crates, layout),
        r matches Err(e) ==> e == MirrorError::LegacyLayoutUnsupported,
        r matches Ok(p) ==> p == verify_plan_of(config.crates, dry_run, assume_yes),
{
    check_layout(&config.crates, layout)?;
    let sync = match &config.crates {
        Some(c) => c.sync,
        None => false,
    };
    let repair = !dry_run && sync;
    let total_steps: usize = if repair {
        2
    } else {
        1
    };
    Ok(VerifyPlan { total_steps, repair, ask_operator: repair && !assume_yes })
}

/// What follows the audit.
#[derive(Debug, Clone, Copy, PartialEq, Eq, Structural)]
pub enum AuditOutcome {
    /// Nothing is missing; nothing further happens.
    Clean,
    /// The missing entries are printed and the run stops.
    ReportOnly,
    /// The missing entries (narrowed by the operator, if asked) are fetched.
    Repair { ask_operator: bool },
}

pub open spec fn audit_outcome_of(plan: VerifyPlan, missing: nat) -> AuditOutcome {
    if missing == 0 {
        AuditOutcome::Clean
    } else if !plan.repair {
        AuditOutcome::ReportOnly
    } else {
        AuditOutcome::Repair { ask_operator: plan.ask_operator }
    }
}

/// Decides what follows an audit that found `missing` entries.
pub fn after_audit(plan: &VerifyPlan, missing: usize) -> (r: AuditOutcome)
    ensures
        r == audit_outcome_of(*plan, missing as nat),
{
    if missing == 0 {
        AuditOutcome::Clean
    } else if !plan.repair {
        AuditOutcome::ReportOnly
    } else {
        AuditOutcome::Repair { ask_operator: plan.ask_operator }
    }
}

/// Dry-run purity: a dry run has one step, no repair, and whatever the audit
/// finds, never reaches the fetching branch.
pub proof fn lemma_dry_run_pure(crates: Option<ConfigCrates>, assume_yes: bool, missing: nat)
    ensures
        verify_plan_of(crates, true, assume_yes).total_steps == 1,
        !verify_plan_of(crates, true, assume_yes).repair,
        !(audit_outcome_of(verify_plan_of(crates, true, assume_yes), missing) is Repair),
{
}

/// Progress of a run, for display: step `current` of `total`.
#[derive(Debug, Clone, Copy, PartialEq, Eq, Structural)]
pub struct StepCounter {
    pub current: usize,
    pub total: usize,
}

impl StepCounter {
    pub open spec fn wf(self) -> bool {
        1 <= self.current <= self.total
    }

    /// A counter at the first step.
    pub fn start(total: usize) -> (r: StepCounter)
        requires
            total >= 1,
        ensures
            r.wf(),
            r.current == 1,
            r.total == total,
    {
        StepCounter { current: 1, total }
    }

    /// Moves to the next step; there must be one.
    pub fn advance(&mut self)
        requires
            old(self).wf(),
            old(self).current < old(self).total,
        ensures
            final(self).wf(),
            final(self).current == old(self).current + 1,
            final(self).total == old(self).total,
    {
        self.current = self.current + 1;
    }
}

/// The entries at the positions that the operator kept, in order.
pub open spec fn selected_upto(s: Seq<MissingEntry>, keep: Seq<bool>, n: int) -> Seq<
    MissingEntry,
>
    decreases n,
{
    if n <= 0 {
        Seq::empty()
    } else if keep[n - 1] {
        selected_upto(s, keep, n - 1).push(s[n - 1])
    } else {
        selected_upto(s, keep, n - 1)
    }
}

proof fn lemma_selected_subset(s: Seq<MissingEntry>, keep: Seq<bool>, n: int)
    requires
        0 <= n <= s.len(),
        keep.len() == s.len(),
    ensures
        forall|k: Key|
            entry_keys(selected_upto(s, keep, n)).contains(k) ==> entry_keys(s).contains(k),
    decreases n,
{
    if n > 0 {
        lemma_selected_subset(s, keep, n - 1);
        let p = selected_upto(s, keep, n - 1);
        assert forall|k: Key|
            entry_keys(selected_upto(s, keep, n)).contains(k) implies entry_keys(s).contains(k) by {
            let q = choose|q: int|
                0 <= q < selected_upto(s, keep, n).len() && entry_keys(
                    selected_upto(s, keep, n),
                )[q] == k;
            if q < p.len() {
                assert(entry_keys(p)[q] == k);
            } else {
                assert(entry_keys(s)[n - 1] == k);
            }
        }
    }
}

/// Narrows the missing set to the entries the operator kept; keeping none is
/// a valid outcome. The result is a subset of the input.
pub fn narrow_missing(missing: &Vec<MissingEntry>, keep: &Vec<bool>) -> (r: Vec<MissingEntry>)
    requires
        missing@.len() == keep@.len(),
    ensures
        r@ == selected_upto(missing@, keep@, missing@.len() as int),
        forall|k: Key| entry_keys(r@).contains(k) ==> entry_keys(missing@).contains(k),
{
    let mut out: Vec<MissingEntry> = Vec::new();
    let mut i: usize = 0;
    while i < missing.len()
        invariant
            i <= missing.len(),
            missing@.len() == keep@.len(),
            out@ == selected_upto(missing@, keep@, i as int),
        decreases missing.len() - i,
    {
        if keep[i] {
            out.push(missing[i].copy_entry());
        }
        i = i + 1;
    }
    proof {
        lemma_selected_subset(missing@, keep@, missing@.len() as int);
    }
    out
}

/// Default port of the server with TLS.
pub const TLS_PORT: u16 = 8443;

/// Default port of the server without TLS.
pub const PLAIN_PORT: u16 = 8080;

/// Port and transport of the content server.
#[derive(Debug, Clone, Copy, PartialEq, Eq, Structural)]
pub struct ServeSettings {
    pub port: u16,
    pub tls: bool,
}

/// Checks the serving options before anything is bound: a certificate and
/// its key come together or not at all. Without a port, the default is 8443
/// with TLS and 8080 without.
pub fn serve_settings(port: Option<u16>, has_cert: bool, has_key: bool) -> (r: Result<
    ServeSettings,
    MirrorError,
>)
    ensures
        r is Ok <==> has_cert == has_key,
        r matches Ok(s) ==> s.tls == has_cert && s.port == match port {
            Some(p) => p,
            None => if has_cert {
                TLS_PORT
            } else {
                PLAIN_PORT
            },
        },
        r matches Err(e) ==> e matches MirrorError::CmdLine(m) && m@ == if has_cert {
            "cert_path set but key_path not set."@
        } else {
            "key_path set but cert_path not set."@
        },
{
    let chosen = match port {
        Some(p) => p,
        None => if has_cert {
            TLS_PORT
        } else {
            PLAIN_PORT
        },
    };
    if has_cert && !has_key {
        Err(MirrorError::CmdLine(String::from_str("cert_path set but key_path not set.")))
    } else if !has_cert && has_key {
        Err(MirrorError::CmdLine(String::from_str("key_path set but cert_path not set.")))
    } else {
        Ok(ServeSettings { port: chosen, tls: has_cert })
    }
}

/// Where the served-configuration pointer is rewritten to.
#[derive(Debug, Clone, PartialEq, Eq)]
pub enum RewriteTarget {
    /// This base URL.
    Url(String),
    /// Neither the command line nor the configuration gives a base URL.
    NoBaseUrl,
    /// The configuration has no crates section.
    NoCratesSection,
}

/// The base URL to rewrite the pointer to: the one given on the command line,
/// else the configured one.
pub fn rewrite_target(base_url: &Option<String>, crates: &Option<ConfigCrates>) -> (r:
    RewriteTarget)
    ensures
        crates is None ==> r == RewriteTarget::NoCratesSection,
        crates matches Some(c) ==> r == match *base_url {
            Some(u) => RewriteTarget::Url(u),
            None => match c.base_url {
                Some(u) => RewriteTarget::Url(u),
                None => RewriteTarget::NoBaseUrl,
            },
        },
{
    match crates {
        None => RewriteTarget::NoCratesSection,
        Some(c) => match base_url {
            Some(u) => RewriteTarget::Url(u.clone()),
            None => match &c.base_url {
                Some(u) => RewriteTarget::Url(u.clone()),
                None => RewriteTarget::NoBaseUrl,
            },
        },
    }
}

/// The stages of a crate channel sync.
#[derive(Debug, Clone, Copy, PartialEq, Eq, Structural)]
pub enum CrateSyncStage {
    /// Bring the local index to the remote tip.
    AdvanceIndex,
    /// Fetch the archives that the index lists and the tree lacks.
    FetchContent,
    /// Point the served configuration at this mirror.
    RewritePointer,
    /// All stages succeeded.
    Finished,
    /// A stage failed; a later run picks up what is still missing.
    Aborted,
}

pub open spec fn next_stage_of(stage: CrateSyncStage, ok: bool) -> CrateSyncStage {
    match stage {
        CrateSyncStage::AdvanceIndex => if ok {
            CrateSyncStage::FetchContent
        } else {
            CrateSyncStage::Aborted
        },
        CrateSyncStage::FetchContent => if ok {
            CrateSyncStage::RewritePointer
        } else {
            CrateSyncStage::Aborted
        },
        CrateSyncStage::RewritePointer => if ok {
            CrateSyncStage::Finished
        } else {
            CrateSyncStage::Aborted
        },
        other => other,
    }
}

/// The stage after `stage` ended, successfully or not. The pointer is only
/// rewritten after the whole batch succeeded; a failure ends the channel.
pub fn next_crate_stage(stage: CrateSyncStage, ok: bool) -> (r: CrateSyncStage)
    ensures
        r == next_stage_of(stage, ok),
{
    match stage {
        CrateSyncStage::AdvanceIndex => if ok {
            CrateSyncStage::FetchContent
        } else {
            CrateSyncStage::Aborted
        },
        CrateSyncStage::FetchContent => if ok {
            CrateSyncStage::RewritePointer
        } else {
            CrateSyncStage::Aborted
        },
        CrateSyncStage::RewritePointer => if ok {
            CrateSyncStage::Finished
        } else {
            CrateSyncStage::Aborted
        },
        other => other,
    }
}

} // verus!
