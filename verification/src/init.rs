//! The `init` command: where the configuration template goes, and
//! when it must not be written.
use vstd::prelude::*;

use crate::paths::{path_exists, path_join};
use crate::resolver::{config_candidate, CONFIG_FILE_NAME};

verus! {

/// `std::io::Error`, carried in [`InitError::Io`].
#[verifier::external_type_specification]
#[verifier::external_body]
pub struct ExIoError(std::io::Error);

/// Errors that occur during `init`.
#[derive(Debug)]
pub enum InitError {
    /// `.watchr.toml` already exists in the target directory; `init`
    /// refuses to overwrite it.
    FileAlreadyExists,
    /// Writing `.watchr.toml` failed (permission denied, disk full,
    /// invalid path).
    Io(std::io::Error),
}

/// The template that `init` writes.
pub const DEFAULT_CONFIG_TEMPLATE: &'static str = "
# watchr configuration file
# Debounce time in milliseconds (default: 500)
debounce_ms = 500

# Example watcher entry
# [[watcher]]
# name = \"tests\"
# dirs = [\"src/\", \"tests/\"]
# ext = [\"rs\", \"toml\"]
# command = \"cargo test\"

# Multiple watchers can be defined
# [[watcher]]
# name = \"lint\"
# dirs = [\"src/\"]
# command = \"cargo clippy\"
";

/// Decides where `init` writes the template for directory `dir`.
///
/// The target is `.watchr.toml` in `dir`. Whether it already exists is
/// asked of the file system: where it does, the answer is
/// [`InitError::FileAlreadyExists`] and nothing may be written;
/// otherwise the target path is returned.
pub fn prepare_init(dir: &str) -> (res: Result<String, InitError>)
    ensures
        match res {
            Ok(target) => target@ == config_candidate(dir@),
            Err(e) => e is FileAlreadyExists,
        },
{
    let target = path_join(dir, CONFIG_FILE_NAME);
    let already = path_exists(target.as_str());
    decide_init(target, already)
}

/// What `init` does given whether its target already exists: refuse
/// with [`InitError::FileAlreadyExists`] where it does, otherwise go
/// ahead with the target.
pub fn decide_init(target: String, already: bool) -> (res: Result<String, InitError>)
    ensures
        already ==> res matches Err(InitError::FileAlreadyExists),
        !already ==> res == Ok::<String, InitError>(target),
{
    if already {
        Err(InitError::FileAlreadyExists)
    } else {
        Ok(target)
    }
}

} // verus!
