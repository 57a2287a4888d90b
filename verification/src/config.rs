//! The configuration surface the driver consumes.
//!
//! The application's configuration layer fills these in from its own
//! sources; the library only reads them.
use vstd::prelude::*;

verus! {

/// Settings shared by every mirror step.
pub struct ConfigMirror {
    /// Retry budget per artifact: further attempts after the first.
    pub retries: usize,
}

/// Settings of the package-index mirror.
pub struct ConfigCrates {
    /// Upstream URL of the index repository.
    pub source_index: String,
    /// Base URL the index `config.json` is rewritten to, if any.
    pub base_url: Option<String>,
}

/// Settings of the toolchain mirror.
pub struct ConfigRustup {
    /// Upstream base URL of the toolchain distribution.
    pub source: String,
    /// Worker count of a batch download.
    pub download_threads: usize,
    /// Whether the development-only compiler internals package is mirrored.
    pub download_dev: Option<bool>,
    /// Unix-like platforms to mirror; absent means the full catalog.
    pub platforms_unix: Option<Vec<String>>,
    /// Windows-like platforms to mirror; absent means the full catalog.
    pub platforms_windows: Option<Vec<String>>,
    /// How many dated stable releases to retain; absent disables GC for it.
    pub keep_latest_stables: Option<usize>,
    /// How many dated beta releases to retain; absent disables GC for it.
    pub keep_latest_betas: Option<usize>,
    /// How many dated nightly releases to retain; absent disables GC for it.
    pub keep_latest_nightlies: Option<usize>,
    /// Version strings whose channels are synced and always retained.
    pub pinned_rust_versions: Option<Vec<String>>,
}

} // verus!
