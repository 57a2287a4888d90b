//! Error taxonomy of the mirror engine.
use vstd::prelude::*;

verus! {

/// Failure of a single artifact download.
#[derive(Debug)]
pub enum DownloadError {
    /// Local filesystem failure, with a description.
    Io(String),
    /// Upstream connection or read error, with a description.
    Download(String),
    /// Upstream answered that the resource does not exist. Never retried.
    NotFound,
    /// Bytes arrived but their digest is wrong: expected, then actual.
    MismatchedHash(String, String),
}

/// Failure of a batch step of the toolchain sync.
#[derive(Debug)]
pub enum SyncError {
    /// Local filesystem failure, with a description.
    Io(String),
    /// A single download failed.
    Download(DownloadError),
    /// A manifest, ledger or release pointer was malformed.
    Parse(String),
    /// A ledger could not be rendered.
    Serialize(String),
    /// A batch ended with this many failed downloads.
    FailedDownloads { count: usize },
}

/// Failure reported by the top-level driver.
#[derive(Debug)]
pub enum MirrorError {
    /// The configuration is invalid, with a description.
    Config(String),
    /// A sync step failed.
    Sync(SyncError),
}

/// Failure of the package-index mirror.
#[derive(Debug)]
pub enum IndexSyncError {
    /// Local filesystem failure, with a description.
    Io(String),
    /// A git operation failed, with a description.
    Git(String),
    /// The index configuration document could not be rendered.
    Serialize(String),
}

} // verus!
