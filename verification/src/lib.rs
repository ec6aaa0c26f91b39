//! Debounced intake of CSV files: raw change notifications are filtered and
//! coalesced into batches, each file is classified by its header row, renamed
//! with a timestamp, given a provenance sidecar, grouped by destination table
//! and handed to a remote copy, one transfer per table.
//!
//! Everything here computes on plain values. Reading the file system, running
//! the remote copy and appending to logs is left to the caller, which reports
//! what it observed back to the functions of this crate.

pub mod batch;
pub mod classify;
pub mod clock;
pub mod config;
pub mod debounce;
pub mod dispatch;
pub mod intake;
pub mod metadata;
pub mod paths;
pub mod registry;
pub mod status;
pub mod text;
pub mod watch;
