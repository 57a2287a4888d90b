//! Verified core of a mirror engine for the Rust toolchain distribution
//! and the crates.io package index.
//!
//! The library holds the logic of the mirror: path and URL derivation,
//! platform-matrix validation, channel-manifest download lists, the
//! per-channel history ledger and its retention garbage collection, the
//! download retry state machine, and the index `config.json` rewrite.
//! All network, filesystem and git side effects are performed by the
//! surrounding application, which feeds their results back as plain values.
pub mod channel;
pub mod config;
pub mod digest;
pub mod driver;
pub mod errors;
pub mod fetch;
pub mod gc;
pub mod history;
pub mod index_sync;
pub mod installer;
pub mod manifest;
pub mod paths;
pub mod platforms;
pub mod strutil;
