//! Configuration of the watcher.
//!
//! `.watchr.toml` holds a global debounce time and a list of
//! `[[watcher]]` entries; reading and decoding the file is left to the
//! program around the library.
use vstd::prelude::*;

use crate::entry::WatchrEntry;

verus! {

/// Debounce time used where none is configured, in milliseconds.
pub const DEFAULT_DEBOUNCE_MS: u64 = 500;

/// Configuration: a debounce window and the watcher entries.
#[derive(Debug)]
pub struct WatchrConfig {
    /// Debounce time in milliseconds: rapid file changes within this
    /// window count as one.
    pub debounce_ms: u64,
    /// The watcher entries (`[[watcher]]` sections).
    pub entries: Vec<WatchrEntry>,
}

/// Default debounce time in milliseconds, for a configuration file
/// that does not set `debounce_ms`, and for inline mode.
pub fn default_debounce_ms() -> (ms: u64)
    ensures
        ms == DEFAULT_DEBOUNCE_MS,
{
    DEFAULT_DEBOUNCE_MS
}

} // verus!
