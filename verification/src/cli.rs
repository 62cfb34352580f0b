//! Command-line arguments and what they mean.
//!
//! Two commands exist: `init`, which writes a configuration
//! template, and `watch`, which starts watching. `watch` can name a
//! single watcher inline with a directory, `--cmd` and `--ext`, and an
//! explicit configuration file with `--config`.
use vstd::prelude::*;

use crate::entry::{opt_string_view, EntryView, WatchrEntry};
use crate::text::{split_on, split_text};

verus! {

/// Command-line interface for the watcher.
pub struct Cli {
    /// The subcommand to execute.
    pub command: Commands,
}

/// Errors that can occur during command-line argument validation.
#[derive(Debug)]
pub enum CliError {
    /// Raised when a directory is given without `--cmd`, or
    /// `--cmd` without a directory: both must come together.
    MalformedEntry,
}

/// Available subcommands.
#[derive(Debug)]
pub enum Commands {
    /// Generate a `.watchr.toml` template file.
    Init,
    /// Start watching for file changes.
    Watch {
        /// Directory to watch (inline mode only).
        dir: Option<String>,
        /// Comma-separated file extensions to filter on (inline
        /// mode only).
        ext: Option<String>,
        /// Command to run on file changes (inline mode only).
        cmd: Option<String>,
        /// Explicit path to the configuration file.
        config: Option<String>,
    },
}

/// The extension filter that `--ext` describes: its comma-separated
/// pieces, or no filter where the flag is absent.
pub open spec fn ext_filter(ext: Option<String>) -> Option<Seq<Seq<char>>> {
    match ext {
        Some(e) => Some(split_on(e@, ',')),
        None => None,
    }
}

/// The entry that the inline flags describe, where both the directory
/// and the command are given.
pub open spec fn inline_entry(dir: Seq<char>, ext: Option<String>, cmd: Seq<char>) -> EntryView {
    EntryView { name: None, dirs: seq![dir], ext: ext_filter(ext), command: cmd }
}

impl Commands {
    /// Converts the inline flags into a [`WatchrEntry`] when both a
    /// directory and `--cmd` are given.
    ///
    /// `init` and a `watch` with neither flag give `Ok(None)`; a
    /// `watch` with exactly one of the two is refused with
    /// [`CliError::MalformedEntry`]. The entry has no name, watches
    /// the one directory, runs the command, and filters on the
    /// comma-separated pieces of `--ext` where it is given.
    pub fn to_entry(&self) -> (res: Result<Option<WatchrEntry>, CliError>)
        ensures
            match self {
                Commands::Init => res matches Ok(None),
                Commands::Watch { dir, ext, cmd, .. } => {
                    if dir.is_some() != cmd.is_some() {
                        res matches Err(CliError::MalformedEntry)
                    } else if dir.is_some() {
                        res matches Ok(Some(e)) && e@ == inline_entry(
                            dir->0@,
                            *ext,
                            cmd->0@,
                        )
                    } else {
                        res matches Ok(None)
                    }
                },
            },
    {
        match self {
            Commands::Init => Ok(None),
            Commands::Watch { dir, ext, cmd, .. } => {
                let ext: Option<Vec<String>> = match ext {
                    Some(e) => Some(split_text(e.as_str(), ',')),
                    None => None,
                };
                match (dir, cmd) {
                    (Some(d), Some(c)) => {
                        let entry = WatchrEntry {
                            name: None,
                            dirs: vec![d.clone()],
                            ext,
                            command: c.clone(),
                        };
                        assert(entry@.dirs =~= seq![d@]);
                        Ok(Some(entry))
                    },
                    (None, None) => Ok(None),
                    _ => Err(CliError::MalformedEntry),
                }
            },
        }
    }

    /// The explicit configuration file path given with `--config`.
    ///
    /// `None` for `init`, or where `--config` was not given.
    pub fn config_path(&self) -> (res: Option<&str>)
        ensures
            match self {
                Commands::Init => res is None,
                Commands::Watch { config, .. } => match res {
                    Some(p) => opt_string_view(*config) == Some(p@),
                    None => config is None,
                },
            },
    {
        match self {
            Commands::Init => None,
            Commands::Watch { config, .. } => match config {
                Some(c) => Some(c.as_str()),
                None => None,
            },
        }
    }

    /// Whether the command is `init`.
    pub fn is_init(&self) -> (res: bool)
        ensures
            res == (self is Init),
    {
        match self {
            Commands::Init => true,
            Commands::Watch { .. } => false,
        }
    }
}

} // verus!
