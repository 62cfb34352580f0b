//! Verified core of `watchr`, a tool that watches directories and runs
//! a shell command when files in them change.
//!
//! The library holds the decisions of the tool: how command-line
//! arguments become a watcher entry, how the configuration file is
//! searched for, which file events trigger a command, how the event
//! loop reacts to events and how the result of a command is reported.
//! Reading files, watching the file system, spawning processes and
//! printing are left to the program around it.
pub mod cli;
pub mod entry;
pub mod text;
pub mod paths;
pub mod resolver;
pub mod init;
pub mod config;
pub mod watcher;
pub mod output;
pub mod setup;
