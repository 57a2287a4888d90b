//! The top-level sync schedule and its verdicts.
//!
//! The driver runs the installer sync, then each active channel, then the
//! pinned versions, and finally — only when every channel succeeded and at
//! least one retention count is configured — the retention GC. The
//! application performs each step; the library decides the schedule and
//! the reactions to failure.
use vstd::prelude::*;

use crate::config::ConfigRustup;
use crate::errors::DownloadError;
use crate::errors::SyncError;

verus! {

/// Whether a channel is synced at all: a retention count of zero turns
/// the channel off entirely.
pub open spec fn channel_enabled(keep: Option<usize>) -> bool {
    keep != Some(0usize)
}

/// A retention count of zero suppresses the channel's sync.
pub proof fn lemma_zero_retention_skips_sync()
    ensures
        !channel_enabled(Some(0usize)),
{
}

/// One step of the full sync, in driver order.
pub enum SyncStep {
    /// Fetch the release pointer and every platform's installer.
    SyncInit,
    /// Sync the named release channel.
    SyncChannel(String),
    /// The named channel is turned off by a zero retention count.
    SkipChannel(String),
    /// Sync the channel of the named pinned version.
    SyncPinned(String),
}

/// The schedule of a full sync: the installer step, the three release
/// channels — each either synced or skipped by its zero retention count —
/// and one step per pinned version.
pub fn sync(rustup: &ConfigRustup) -> (steps: Vec<SyncStep>)
    ensures
        steps@.len() == 4 + (match rustup.pinned_rust_versions {
            Some(pv) => pv@.len(),
            None => 0,
        }),
        steps@[0] is SyncInit,
        channel_enabled(rustup.keep_latest_stables) ==> (steps@[1] matches SyncStep::SyncChannel(c)
            && c@ == "stable"@),
        !channel_enabled(rustup.keep_latest_stables) ==> (steps@[1] matches SyncStep::SkipChannel(
            c,
        ) && c@ == "stable"@),
        channel_enabled(rustup.keep_latest_betas) ==> (steps@[2] matches SyncStep::SyncChannel(c)
            && c@ == "beta"@),
        !channel_enabled(rustup.keep_latest_betas) ==> (steps@[2] matches SyncStep::SkipChannel(c)
            && c@ == "beta"@),
        channel_enabled(rustup.keep_latest_nightlies) ==> (steps@[3]
            matches SyncStep::SyncChannel(c) && c@ == "nightly"@),
        !channel_enabled(rustup.keep_latest_nightlies) ==> (steps@[3]
            matches SyncStep::SkipChannel(c) && c@ == "nightly"@),
        forall|k: int|
            0 <= k < steps@.len() - 4 ==> (#[trigger] steps@[4 + k] matches SyncStep::SyncPinned(v)
                && v@ == rustup.pinned_rust_versions->0@[k]@),
{
    let mut steps: Vec<SyncStep> = Vec::new();
    steps.push(SyncStep::SyncInit);
    if channel_keep_enabled(&rustup.keep_latest_stables) {
        steps.push(SyncStep::SyncChannel(String::from_str("stable")));
    } else {
        steps.push(SyncStep::SkipChannel(String::from_str("stable")));
    }
    if channel_keep_enabled(&rustup.keep_latest_betas) {
        steps.push(SyncStep::SyncChannel(String::from_str("beta")));
    } else {
        steps.push(SyncStep::SkipChannel(String::from_str("beta")));
    }
    if channel_keep_enabled(&rustup.keep_latest_nightlies) {
        steps.push(SyncStep::SyncChannel(String::from_str("nightly")));
    } else {
        steps.push(SyncStep::SkipChannel(String::from_str("nightly")));
    }
    match &rustup.pinned_rust_versions {
        Some(pv) => {
            let mut k: usize = 0;
            while k < pv.len()
                invariant
                    k <= pv@.len(),
                    steps@.len() == 4 + k,
                    steps@[0] is SyncInit,
                    channel_enabled(rustup.keep_latest_stables) ==> (steps@[1]
                        matches SyncStep::SyncChannel(c) && c@ == "stable"@),
                    !channel_enabled(rustup.keep_latest_stables) ==> (steps@[1]
                        matches SyncStep::SkipChannel(c) && c@ == "stable"@),
                    channel_enabled(rustup.keep_latest_betas) ==> (steps@[2]
                        matches SyncStep::SyncChannel(c) && c@ == "beta"@),
                    !channel_enabled(rustup.keep_latest_betas) ==> (steps@[2]
                        matches SyncStep::SkipChannel(c) && c@ == "beta"@),
                    channel_enabled(rustup.keep_latest_nightlies) ==> (steps@[3]
                        matches SyncStep::SyncChannel(c) && c@ == "nightly"@),
                    !channel_enabled(rustup.keep_latest_nightlies) ==> (steps@[3]
                        matches SyncStep::SkipChannel(c) && c@ == "nightly"@),
                    forall|k2: int|
                        0 <= k2 < k ==> (#[trigger] steps@[4 + k2] matches SyncStep::SyncPinned(v)
                            && v@ == pv@[k2]@),
                decreases pv@.len() - k,
            {
                steps.push(SyncStep::SyncPinned(pv[k].clone()));
                k = k + 1;
            }
        },
        None => {
        },
    }
    steps
}

/// Whether the retention count leaves the channel enabled.
fn channel_keep_enabled(keep: &Option<usize>) -> (r: bool)
    ensures
        r == channel_enabled(*keep),
{
    match keep {
        Some(n) => *n != 0,
        None => true,
    }
}

/// Whether the retention GC runs after the channels.
pub enum GcDecision {
    /// Every channel that should be retained is tracked and no channel
    /// failed: compute the keep-set and delete the rest.
    Run,
    /// No retention count is configured at all: leave every file alone.
    SkipUntracked,
    /// A channel sync failed this run: deleting now could destroy
    /// artifacts whose re-download was interrupted, so nothing is removed.
    SkipFailures,
}

/// Decides whether GC runs: skipped when no retention count is present,
/// and skipped when any channel sync of this run failed.
pub fn gc_decision(
    keep_stables: &Option<usize>,
    keep_betas: &Option<usize>,
    keep_nightlies: &Option<usize>,
    failures: bool,
) -> (r: GcDecision)
    ensures
        r is SkipUntracked <==> (keep_stables is None && keep_betas is None && keep_nightlies
            is None),
        r is SkipFailures <==> (!(keep_stables is None && keep_betas is None && keep_nightlies
            is None) && failures),
        r is Run <==> (!(keep_stables is None && keep_betas is None && keep_nightlies is None)
            && !failures),
{
    if keep_stables.is_none() && keep_betas.is_none() && keep_nightlies.is_none() {
        GcDecision::SkipUntracked
    } else if failures {
        GcDecision::SkipFailures
    } else {
        GcDecision::Run
    }
}

/// The driver's reaction to a pinned-version sync failure.
pub enum PinnedFailure {
    /// The version does not exist upstream: the configuration names a
    /// nonexistent version, and the run aborts at once.
    AbortConfig,
    /// Any other failure: note it and go on to the next step.
    Continue,
}

/// Decides the reaction to a failed pinned-version sync: a missing
/// channel manifest is a configuration error and aborts the run; any
/// other failure is noted and the run continues.
pub fn pinned_failure_action(e: &SyncError) -> (r: PinnedFailure)
    ensures
        r is AbortConfig <==> (e matches SyncError::Download(d) && d is NotFound),
{
    match e {
        SyncError::Download(d) => match d {
            DownloadError::NotFound => PinnedFailure::AbortConfig,
            _ => PinnedFailure::Continue,
        },
        _ => PinnedFailure::Continue,
    }
}

} // verus!
