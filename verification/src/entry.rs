//! Watcher entry data structure.
//!
//! A `WatchrEntry` names the directories to monitor, an optional
//! filter on file extensions and the command to execute when a
//! file changes. Entries come from `[[watcher]]` sections of
//! `.watchr.toml` or from command-line arguments.
use vstd::prelude::*;

verus! {

/// A single watcher entry defining what to watch and what to run.
#[derive(Debug)]
pub struct WatchrEntry {
    /// Optional descriptive name for this watcher.
    pub name: Option<String>,
    /// Directories to watch for changes, absolute or relative to
    /// the working directory.
    pub dirs: Vec<String>,
    /// File extensions to filter on, without the leading dot.
    /// `None` means that every change triggers the command.
    pub ext: Option<Vec<String>>,
    /// Shell command to execute when files change.
    pub command: String,
}

/// The mathematical value of a [`WatchrEntry`].
pub struct EntryView {
    pub name: Option<Seq<char>>,
    pub dirs: Seq<Seq<char>>,
    pub ext: Option<Seq<Seq<char>>>,
    pub command: Seq<char>,
}

/// The characters of each string of a sequence.
pub open spec fn strings_view(v: Seq<String>) -> Seq<Seq<char>> {
    v.map_values(|s: String| s@)
}

/// The characters of an optional string.
pub open spec fn opt_string_view(o: Option<String>) -> Option<Seq<char>> {
    match o {
        Some(s) => Some(s@),
        None => None,
    }
}

/// The characters of each string of an optional list.
pub open spec fn opt_strings_view(o: Option<Vec<String>>) -> Option<Seq<Seq<char>>> {
    match o {
        Some(v) => Some(strings_view(v@)),
        None => None,
    }
}

impl View for WatchrEntry {
    type V = EntryView;

    open spec fn view(&self) -> EntryView {
        EntryView {
            name: opt_string_view(self.name),
            dirs: strings_view(self.dirs@),
            ext: opt_strings_view(self.ext),
            command: self.command@,
        }
    }
}

} // verus!
