//! Committing one channel sync.
//!
//! The application stages the channel manifest at its `.part` path,
//! derives the download set, fetches every artifact, and reports the
//! outcomes; the library decides the commit: only when every download
//! succeeded is the ledger advanced, and only after the ledger is durable
//! may the staged manifest be renamed into place. On any failure the
//! ledger is untouched and the `.part` manifest stays where it is.
use vstd::prelude::*;

use crate::errors::DownloadError;
use crate::errors::SyncError;
use crate::history::add_to_channel_history;
use crate::history::first_components;
use crate::history::is_iso_date;
use crate::history::ChannelHistoryFile;

verus! {

/// How many outcomes are failures. Within a channel sync every failure
/// counts, a missing artifact too: the manifest promised it.
pub open spec fn failure_count(outcomes: Seq<Result<(), DownloadError>>) -> int
    decreases outcomes.len(),
{
    if outcomes.len() == 0 {
        0int
    } else {
        failure_count(outcomes.drop_last()) + if outcomes.last() is Err {
            1int
        } else {
            0int
        }
    }
}

/// Counts the failed outcomes.
pub fn count_failures(outcomes: &Vec<Result<(), DownloadError>>) -> (r: usize)
    ensures
        r == failure_count(outcomes@),
{
    let mut count: usize = 0;
    let mut i: usize = 0;
    while i < outcomes.len()
        invariant
            i <= outcomes@.len(),
            count == failure_count(outcomes@.take(i as int)),
            count <= i,
        decreases outcomes@.len() - i,
    {
        proof {
            assert(outcomes@.take(i + 1).drop_last() =~= outcomes@.take(i as int));
            assert(outcomes@.take(i + 1).last() == outcomes@[i as int]);
        }
        if outcomes[i].is_err() {
            count = count + 1;
        }
        i = i + 1;
    }
    proof {
        assert(outcomes@.take(outcomes@.len() as int) =~= outcomes@);
    }
    count
}

/// The upstream URL of one artifact of the download set: the source base
/// followed by the artifact's mirror-relative path.
pub fn sync_one_rustup_target(source: &String, rel_path: &String) -> (r: String)
    ensures
        r@ == source@ + "/"@ + rel_path@,
{
    source.clone().concat("/").concat(rel_path.as_str())
}

/// Decides the commit of one channel sync, after every artifact of the
/// download set was attempted. With no failure, the ledger gains the entry
/// mapping the manifest's date to the set's paths and the caller must then
/// persist the ledger before renaming the staged manifest and its sidecar
/// into place. With failures, nothing changes and the count is reported.
pub fn sync_rustup_channel(
    history: &mut ChannelHistoryFile,
    date: &String,
    files: &Vec<(String, String)>,
    outcomes: &Vec<Result<(), DownloadError>>,
) -> (r: Result<(), SyncError>)
    requires
        old(history).wf(),
        outcomes@.len() == files@.len(),
    ensures
        r is Ok <==> (failure_count(outcomes@) == 0 && is_iso_date(date@)),
        r is Err ==> *final(history) == *old(history),
        failure_count(outcomes@) > 0 ==> (r matches Err(SyncError::FailedDownloads { count })
            && count == failure_count(outcomes@)),
        failure_count(outcomes@) == 0 && !is_iso_date(date@) ==> (r matches Err(e) && e
            is Parse),
        r is Ok ==> final(history).wf(),
        r is Ok ==> final(history).has_date(date@) && final(history).lookup(date@)
            == first_components(files@),
        r is Ok ==> forall|d: Seq<char>|
            d != date@ ==> (final(history).has_date(d) <==> old(history).has_date(d)),
        r is Ok ==> forall|d: Seq<char>|
            d != date@ && old(history).has_date(d) ==> final(history).lookup(d) == old(
                history,
            ).lookup(d),
{
    let failed = count_failures(outcomes);
    if failed > 0 {
        return Err(SyncError::FailedDownloads { count: failed });
    }
    add_to_channel_history(history, date, files)
}

} // verus!
