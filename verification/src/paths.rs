//! File-system paths, held as text.
//!
//! Paths are handled by `std::path`; the library holds them as
//! `String`s and reaches `std::path` through the functions below.
//! What `std::path` computes from a path alone has a name here; what
//! depends on the file system (whether a path exists, is a file or a
//! directory) has none, and callers state what holds whatever the
//! answer was.
use vstd::prelude::*;

verus! {

/// What `std::path::Path::join` gives for a base path and a relative
/// path, as text.
pub uninterp spec fn joined_path(base: Seq<char>, rel: Seq<char>) -> Seq<char>;

/// What `std::path::Path::parent` gives for a path, as text.
pub uninterp spec fn parent_path(p: Seq<char>) -> Option<Seq<char>>;

/// What `std::path::Path::extension` gives for a path, as text.
pub uninterp spec fn extension_of(p: Seq<char>) -> Option<Seq<char>>;

/// `std::path::Path::join`. The result is named [`joined_path`]; the
/// text of two UTF-8 paths joined is UTF-8, so the conversion back to
/// a `String` loses nothing.
#[verifier::external_body]
pub(crate) fn path_join(base: &str, rel: &str) -> (res: String)
    ensures
        res@ == joined_path(base@, rel@),
{
    std::path::Path::new(base).join(rel).to_string_lossy().into_owned()
}

/// `std::path::Path::parent`: the path without its final component,
/// `None` where the path ends in a root or prefix or is empty. The
/// result is named [`parent_path`]; as the final component is removed,
/// the parent is shorter than the path, which is what lets a walk up
/// the directory tree end.
#[verifier::external_body]
pub(crate) fn path_parent(p: &str) -> (res: Option<String>)
    ensures
        match res {
            Some(q) => parent_path(p@) == Some(q@) && q@.len() < p@.len(),
            None => parent_path(p@) is None,
        },
{
    match std::path::Path::new(p).parent() {
        Some(q) => Some(q.to_string_lossy().into_owned()),
        None => None,
    }
}

/// `std::path::Path::extension`, as text: the part of the file name
/// after its final `.`, so it holds no `.`. The result is named
/// [`extension_of`]; the extension of a UTF-8 path is UTF-8, so the
/// conversion loses nothing.
#[verifier::external_body]
pub(crate) fn path_extension(p: &str) -> (res: Option<String>)
    ensures
        match res {
            Some(e) => extension_of(p@) == Some(e@) && !e@.contains('.'),
            None => extension_of(p@) is None,
        },
{
    match std::path::Path::new(p).extension() {
        Some(e) => Some(e.to_string_lossy().into_owned()),
        None => None,
    }
}

/// `std::path::Path::exists`. The answer depends on the file system
/// at the moment of the call, so nothing is stated of it.
#[verifier::external_body]
pub(crate) fn path_exists(p: &str) -> bool {
    std::path::Path::new(p).exists()
}

/// `std::path::Path::is_dir`. The answer depends on the file system
/// at the moment of the call, so nothing is stated of it.
#[verifier::external_body]
pub(crate) fn path_is_dir(p: &str) -> bool {
    std::path::Path::new(p).is_dir()
}

/// `std::path::Path::is_file`. The answer depends on the file system
/// at the moment of the call, so nothing is stated of it.
#[verifier::external_body]
pub(crate) fn path_is_file(p: &str) -> bool {
    std::path::Path::new(p).is_file()
}

} // verus!
