//! The installer synchronizer's fetch plan and verdict.
//!
//! For every configured platform one installer binary is fetched, guarded
//! by its sidecar, into the versioned archive directory and copied to the
//! unversioned distribution directory. A platform the upstream does not
//! offer is skipped silently; any other failure is counted, and the batch
//! fails when the count is non-zero.
use vstd::prelude::*;

use crate::errors::DownloadError;
use crate::errors::SyncError;
use crate::platforms::Platforms;

verus! {

/// The installer file name under a platform directory.
pub open spec fn init_file(is_exe: bool) -> Seq<char> {
    if is_exe {
        "/rustup-init.exe"@
    } else {
        "/rustup-init"@
    }
}

/// The upstream URL of a platform's installer.
pub open spec fn init_source_url(source: Seq<char>, platform: Seq<char>, is_exe: bool) -> Seq<
    char,
> {
    source + "/rustup/dist/"@ + platform + init_file(is_exe)
}

/// The archive location of a platform's installer under the mirror root.
pub open spec fn init_local_path(version: Seq<char>, platform: Seq<char>, is_exe: bool) -> Seq<
    char,
> {
    "rustup/archive/"@ + version + "/"@ + platform + init_file(is_exe)
}

/// The distribution location the archive copy is mirrored to.
pub open spec fn init_dist_path(platform: Seq<char>, is_exe: bool) -> Seq<char> {
    "rustup/dist/"@ + platform + init_file(is_exe)
}

/// One platform's installer fetch: where to get it and where to put it.
pub struct InitFetch {
    /// The platform identifier.
    pub platform: String,
    /// Whether the installer name carries the `.exe` suffix.
    pub is_exe: bool,
    /// The upstream URL.
    pub source_url: String,
    /// The archive destination under the mirror root.
    pub local_path: String,
    /// The distribution copy under the mirror root.
    pub dist_path: String,
}

/// Whether a fetch is the one of the given platform.
pub open spec fn init_fetch_ok(
    f: InitFetch,
    source: Seq<char>,
    version: Seq<char>,
    platform: Seq<char>,
    is_exe: bool,
) -> bool {
    &&& f.platform@ == platform
    &&& f.is_exe == is_exe
    &&& f.source_url@ == init_source_url(source, platform, is_exe)
    &&& f.local_path@ == init_local_path(version, platform, is_exe)
    &&& f.dist_path@ == init_dist_path(platform, is_exe)
}

/// Plans one platform's installer fetch.
pub fn sync_one_init(source: &String, platform: &String, is_exe: bool, rustup_version: &String) -> (r:
    InitFetch)
    ensures
        init_fetch_ok(r, source@, rustup_version@, platform@, is_exe),
{
    let name = if is_exe {
        "/rustup-init.exe"
    } else {
        "/rustup-init"
    };
    InitFetch {
        platform: platform.clone(),
        is_exe,
        source_url: source.clone().concat("/rustup/dist/").concat(platform.as_str()).concat(name),
        local_path: String::from_str("rustup/archive/").concat(rustup_version.as_str()).concat(
            "/",
        ).concat(platform.as_str()).concat(name),
        dist_path: String::from_str("rustup/dist/").concat(platform.as_str()).concat(name),
    }
}

/// Plans the whole installer batch: one fetch per unix-like platform, then
/// one per windows-like platform.
pub fn rustup_init_jobs(source: &String, rustup_version: &String, platforms: &Platforms) -> (r:
    Vec<InitFetch>)
    ensures
        r@.len() == platforms.unix@.len() + platforms.windows@.len(),
        forall|k: int|
            0 <= k < platforms.unix@.len() ==> init_fetch_ok(
                #[trigger] r@[k],
                source@,
                rustup_version@,
                platforms.unix@[k]@,
                false,
            ),
        forall|k: int|
            0 <= k < platforms.windows@.len() ==> init_fetch_ok(
                #[trigger] r@[platforms.unix@.len() + k],
                source@,
                rustup_version@,
                platforms.windows@[k]@,
                true,
            ),
{
    let mut r: Vec<InitFetch> = Vec::new();
    let mut i: usize = 0;
    while i < platforms.unix.len()
        invariant
            i <= platforms.unix@.len(),
            r@.len() == i,
            forall|k: int|
                0 <= k < i ==> init_fetch_ok(
                    #[trigger] r@[k],
                    source@,
                    rustup_version@,
                    platforms.unix@[k]@,
                    false,
                ),
        decreases platforms.unix@.len() - i,
    {
        r.push(sync_one_init(source, &platforms.unix[i], false, rustup_version));
        i = i + 1;
    }
    let mut j: usize = 0;
    while j < platforms.windows.len()
        invariant
            j <= platforms.windows@.len(),
            r@.len() == platforms.unix@.len() + j,
            forall|k: int|
                0 <= k < platforms.unix@.len() ==> init_fetch_ok(
                    #[trigger] r@[k],
                    source@,
                    rustup_version@,
                    platforms.unix@[k]@,
                    false,
                ),
            forall|k: int|
                0 <= k < j ==> init_fetch_ok(
                    #[trigger] r@[platforms.unix@.len() + k],
                    source@,
                    rustup_version@,
                    platforms.windows@[k]@,
                    true,
                ),
        decreases platforms.windows@.len() - j,
    {
        r.push(sync_one_init(source, &platforms.windows[j], true, rustup_version));
        j = j + 1;
    }
    r
}

/// How many outcomes are hard failures. A missing installer is benign —
/// the platform is simply not offered this release — so an authoritative
/// "not found" does not count.
pub open spec fn hard_failure_count(outcomes: Seq<Result<(), DownloadError>>) -> int
    decreases outcomes.len(),
{
    if outcomes.len() == 0 {
        0int
    } else {
        hard_failure_count(outcomes.drop_last()) + match outcomes.last() {
            Ok(_) => 0int,
            Err(e) => if e is NotFound {
                0int
            } else {
                1int
            },
        }
    }
}

/// The verdict of the installer batch: success exactly when no platform
/// failed for a reason other than not being offered.
pub fn sync_rustup_init(outcomes: &Vec<Result<(), DownloadError>>) -> (r: Result<(), SyncError>)
    ensures
        r is Ok <==> hard_failure_count(outcomes@) == 0,
        r matches Err(e) ==> e matches SyncError::FailedDownloads { count } && count
            == hard_failure_count(outcomes@),
{
    let mut count: usize = 0;
    let mut i: usize = 0;
    while i < outcomes.len()
        invariant
            i <= outcomes@.len(),
            count == hard_failure_count(outcomes@.take(i as int)),
            count <= i,
        decreases outcomes@.len() - i,
    {
        proof {
            assert(outcomes@.take(i + 1).drop_last() =~= outcomes@.take(i as int));
            assert(outcomes@.take(i + 1).last() == outcomes@[i as int]);
        }
        match &outcomes[i] {
            Ok(_) => {
            },
            Err(e) => {
                match e {
                    DownloadError::NotFound => {
                    },
                    _ => {
                        count = count + 1;
                    },
                }
            },
        }
        i = i + 1;
    }
    proof {
        assert(outcomes@.take(outcomes@.len() as int) =~= outcomes@);
    }
    if count == 0 {
        Ok(())
    } else {
        Err(SyncError::FailedDownloads { count })
    }
}

/// An empty platform matrix makes the installer sync a successful no-op:
/// it schedules no fetch, and the empty outcome list reports success.
pub proof fn lemma_empty_platforms_noop(outcomes: Seq<Result<(), DownloadError>>)
    requires
        outcomes.len() == 0,
    ensures
        hard_failure_count(outcomes) == 0,
{
}

/// Installers missing upstream never fail the batch: when every outcome
/// is a success or an authoritative "not found", the batch succeeds.
pub proof fn lemma_not_found_is_benign(outcomes: Seq<Result<(), DownloadError>>)
    requires
        forall|k: int|
            0 <= k < outcomes.len() ==> ((#[trigger] outcomes[k]) is Ok || outcomes[k]->Err_0
                is NotFound),
    ensures
        hard_failure_count(outcomes) == 0,
    decreases outcomes.len(),
{
    if outcomes.len() > 0 {
        lemma_not_found_is_benign(outcomes.drop_last());
    }
}

} // verus!
