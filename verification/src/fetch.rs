//! The download state machine.
//!
//! The surrounding application performs the network and filesystem work of
//! one attempt — the GET whose body it stages at the `.part` path — and
//! reports what happened; the library decides what comes next: commit the
//! staging file by atomic rename, attempt again, or fail. A file is
//! committed only when its bytes hash to the expected digest, so a reader
//! of a non-`.part` path sees either no file or verified content.
use vstd::prelude::*;

use crate::digest::sha256_hex;
use crate::digest::sha256_hex_of;
use crate::errors::DownloadError;

verus! {

/// What the application observed during one fetch attempt.
pub enum AttemptOutcome {
    /// The body arrived whole; these are its bytes, already staged at the
    /// `.part` path.
    Success(Vec<u8>),
    /// The upstream answered that the resource does not exist.
    NotFound,
    /// The connection failed or the read broke off, with a description.
    TransportError(String),
    /// A local write failed, with a description.
    IoError(String),
}

/// The next action of a download.
pub enum DownloadStep {
    /// The destination already exists and no re-download was forced.
    Skip,
    /// Perform a GET into the `.part` staging path; `remaining` further
    /// attempts are allowed after this one.
    Attempt { remaining: usize },
    /// Atomically rename the `.part` staging file onto the destination.
    Commit,
    /// Give up with this error; any `.part` file is left in place.
    Fail(DownloadError),
}

/// The first step of a download: a present destination is kept unless a
/// re-download is forced, and a fresh download gets one attempt plus
/// `retries` further ones.
pub open spec fn download_plan(exists: bool, force: bool, retries: usize) -> DownloadStep {
    if exists && !force {
        DownloadStep::Skip
    } else {
        DownloadStep::Attempt { remaining: retries }
    }
}

/// Whether an attempt's result is accepted for commit: the body arrived
/// and, when a digest was expected, the bytes hash to it.
pub open spec fn attempt_accepted(outcome: AttemptOutcome, expected: Option<Seq<char>>) -> bool {
    match outcome {
        AttemptOutcome::Success(body) => match expected {
            Some(digest) => sha256_hex_of(body@) == digest,
            None => true,
        },
        _ => false,
    }
}

/// Whether a rejected attempt may be retried: everything but an
/// authoritative "does not exist".
pub open spec fn outcome_transient(outcome: AttemptOutcome) -> bool {
    !(outcome is NotFound)
}

/// Decides the first step of a download.
pub fn download(exists: bool, force: bool, retries: usize) -> (s: DownloadStep)
    ensures
        s == download_plan(exists, force, retries),
{
    if exists && !force {
        DownloadStep::Skip
    } else {
        DownloadStep::Attempt { remaining: retries }
    }
}

/// Decides what follows one fetch attempt. An accepted body is committed;
/// a rejected transient outcome is retried while attempts remain; a
/// missing resource fails at once and is never retried.
pub fn download_attempt_done(
    remaining: usize,
    outcome: AttemptOutcome,
    expected: &Option<String>,
) -> (s: DownloadStep)
    ensures
        s is Commit <==> attempt_accepted(outcome, view_option(expected)),
        s is Attempt <==> !attempt_accepted(outcome, view_option(expected)) && outcome_transient(
            outcome,
        ) && remaining > 0,
        s is Attempt ==> s->Attempt_remaining == remaining - 1,
        s is Fail <==> !attempt_accepted(outcome, view_option(expected)) && (!outcome_transient(
            outcome,
        ) || remaining == 0),
        outcome is NotFound ==> s == DownloadStep::Fail(DownloadError::NotFound),
        (s is Fail && outcome is Success) ==> (s->Fail_0 is MismatchedHash && expected is Some
            && s->Fail_0->MismatchedHash_0@ == expected->0@ && s->Fail_0->MismatchedHash_1@
            == sha256_hex_of(outcome->Success_0@)),
        (s is Fail && outcome is TransportError) ==> s->Fail_0 is Download,
        (s is Fail && outcome is IoError) ==> s->Fail_0 is Io,
{
    match outcome {
        AttemptOutcome::Success(body) => match expected {
            Some(digest) => {
                let actual = sha256_hex(body.as_slice());
                if actual.eq(digest) {
                    DownloadStep::Commit
                } else if remaining > 0 {
                    DownloadStep::Attempt { remaining: remaining - 1 }
                } else {
                    DownloadStep::Fail(DownloadError::MismatchedHash(digest.clone(), actual))
                }
            },
            None => DownloadStep::Commit,
        },
        AttemptOutcome::NotFound => DownloadStep::Fail(DownloadError::NotFound),
        AttemptOutcome::TransportError(msg) => {
            if remaining > 0 {
                DownloadStep::Attempt { remaining: remaining - 1 }
            } else {
                DownloadStep::Fail(DownloadError::Download(msg))
            }
        },
        AttemptOutcome::IoError(msg) => {
            if remaining > 0 {
                DownloadStep::Attempt { remaining: remaining - 1 }
            } else {
                DownloadStep::Fail(DownloadError::Io(msg))
            }
        },
    }
}

/// The view of an optional digest string.
pub open spec fn view_option(o: &Option<String>) -> Option<Seq<char>> {
    match o {
        Some(s) => Some(s@),
        None => None,
    }
}

/// A committed download with an expected digest carries bytes that hash to
/// it: a reader of a non-`.part` path sees verified content or nothing.
pub proof fn lemma_commit_implies_digest(outcome: AttemptOutcome, expected: Option<Seq<char>>)
    requires
        attempt_accepted(outcome, expected),
        expected is Some,
    ensures
        outcome is Success,
        sha256_hex_of(outcome->Success_0@) == expected->0,
{
}

/// A destination that already exists is skipped when no re-download is
/// forced: a second sync over an unchanged upstream fetches no artifact
/// body again.
pub proof fn lemma_present_artifact_skipped(retries: usize)
    ensures
        download_plan(true, false, retries) is Skip,
{
}

/// A re-run fetches exactly the missing files: a deleted artifact is
/// downloaded again, a surviving one is left alone.
pub proof fn lemma_rerun_restores_deleted(exists: bool, retries: usize)
    ensures
        !exists ==> download_plan(exists, false, retries) == (DownloadStep::Attempt {
            remaining: retries,
        }),
        exists ==> download_plan(exists, false, retries) is Skip,
{
}

/// The authoritative digest taken from a sidecar document: its first 64
/// characters, or nothing when the document is shorter.
pub fn sidecar_digest(text: &String) -> (r: Option<String>)
    ensures
        r is Some <==> text@.len() >= 64,
        r is Some ==> r->0@ == text@.take(64),
{
    let n: usize = text.as_str().unicode_len();
    if n < 64 {
        return None;
    }
    let mut digest = String::new();
    let mut i: usize = 0;
    while i < 64
        invariant
            i <= 64,
            text@.len() >= 64,
            digest@ =~= text@.take(i as int),
        decreases 64 - i,
    {
        let c = text.as_str().get_char(i);
        crate::strutil::push_char(&mut digest, c);
        proof {
            assert(digest@ =~= text@.take(i + 1));
        }
        i = i + 1;
    }
    Some(digest)
}

/// A download guarded by its sidecar document.
pub struct SidecarPlan {
    /// The digest every attempt is verified against.
    pub digest: String,
    /// The first step of the guarded download.
    pub first: DownloadStep,
}

/// Plans a download that is verified against its `.sha256` sidecar: the
/// sidecar document, fetched first, yields the authoritative digest, and
/// the artifact download is checked against it. On success the application
/// persists the sidecar text beside the committed artifact — only after
/// the artifact itself, so the sidecar never leads it.
pub fn download_with_sha256_file(
    sidecar_text: &String,
    exists: bool,
    force: bool,
    retries: usize,
) -> (r: Option<SidecarPlan>)
    ensures
        r is Some <==> sidecar_text@.len() >= 64,
        r is Some ==> r->0.digest@ == sidecar_text@.take(64),
        r is Some ==> r->0.first == download_plan(exists, force, retries),
{
    match sidecar_digest(sidecar_text) {
        Some(digest) => Some(SidecarPlan { digest, first: download(exists, force, retries) }),
        None => None,
    }
}

} // verus!
