//! Paths as text. To take a path apart or put one together the library
//! asks `std::path` and `pathdiff`, and gives each answer a name, so that
//! the contracts built on them say exactly which answers were combined.
//!
//! The names stand for what those functions compute on the platform the
//! crate is built for. Nothing else is assumed of them.

use vstd::prelude::*;

verus! {

/// What `std::path::Path::parent` gives for `path`: the path without its
/// last component, `None` where it ends in a root or is empty.
pub uninterp spec fn path_parent(path: Seq<char>) -> Option<Seq<char>>;

/// What `std::path::Path::file_stem` gives for `path`: its file name
/// without the extension, `None` where it has no file name.
pub uninterp spec fn path_file_stem(path: Seq<char>) -> Option<Seq<char>>;

/// What `std::path::Path::extension` gives for `path`: the extension of
/// its file name, `None` where it has no file name or the name has none.
pub uninterp spec fn path_extension(path: Seq<char>) -> Option<Seq<char>>;

/// What `std::path::Path::join` gives: `tail` adjoined to `base`, or
/// `tail` alone where it is absolute.
pub uninterp spec fn path_join(base: Seq<char>, tail: Seq<char>) -> Seq<char>;

/// What `std::path::Path::with_extension` gives: `path` with the extension
/// of its file name replaced by `extension`.
pub uninterp spec fn path_with_extension(path: Seq<char>, extension: Seq<char>) -> Seq<char>;

/// What `std::path::Path::is_absolute` tells of `path`: whether it says
/// where it lies without regard to the current directory.
pub uninterp spec fn path_is_absolute(path: Seq<char>) -> bool;

/// What `pathdiff::diff_paths` gives: a path that leads from `base` to
/// `path`, `None` where it finds none.
pub uninterp spec fn relative_path(path: Seq<char>, base: Seq<char>) -> Option<Seq<char>>;

/// The characters of an optional text.
pub open spec fn text_of(text: Option<String>) -> Option<Seq<char>> {
    match text {
        Some(t) => Some(t@),
        None => None,
    }
}

/// Whether `c` separates the components of a path on some platform.
pub open spec fn is_separator(c: char) -> bool {
    c == '/' || c == '\\'
}

/// Whether `extension` can be given to a file: it holds no separator.
pub open spec fn is_extension(extension: Seq<char>) -> bool {
    forall|i: int| 0 <= i < extension.len() ==> !is_separator(#[trigger] extension[i])
}

/// Calls `std::path::Path::parent`. Trusted: the result is a function of
/// the path's text alone, named `path_parent`.
#[verifier::external_body]
pub(crate) fn parent(path: &str) -> (found: Option<String>)
    ensures
        text_of(found) == path_parent(path@),
{
    std::path::Path::new(path).parent().map(|p| p.to_string_lossy().into_owned())
}

/// Calls `std::path::Path::file_stem`. Trusted: the result is a function of
/// the path's text alone, named `path_file_stem`.
#[verifier::external_body]
pub(crate) fn file_stem(path: &str) -> (found: Option<String>)
    ensures
        text_of(found) == path_file_stem(path@),
{
    std::path::Path::new(path).file_stem().map(|s| s.to_string_lossy().into_owned())
}

/// Calls `std::path::Path::extension`. Trusted: the result is a function of
/// the path's text alone, named `path_extension`.
#[verifier::external_body]
pub(crate) fn extension(path: &str) -> (found: Option<String>)
    ensures
        text_of(found) == path_extension(path@),
{
    std::path::Path::new(path).extension().map(|s| s.to_string_lossy().into_owned())
}

/// Calls `std::path::Path::join`. Trusted: the result is a function of the
/// two texts alone, named `path_join`.
#[verifier::external_body]
pub(crate) fn join(base: &str, tail: &str) -> (joined: String)
    ensures
        joined@ == path_join(base@, tail@),
{
    std::path::Path::new(base).join(tail).to_string_lossy().into_owned()
}

/// Calls `std::path::Path::with_extension`, which panics on an extension
/// that holds a separator: callers show that theirs holds none. Trusted: the
/// result is a function of the two texts alone, named `path_with_extension`.
#[verifier::external_body]
pub(crate) fn with_extension(path: &str, extension: &str) -> (renamed: String)
    requires
        is_extension(extension@),
    ensures
        renamed@ == path_with_extension(path@, extension@),
{
    std::path::Path::new(path).with_extension(extension).to_string_lossy().into_owned()
}

/// Calls `std::path::Path::is_absolute`. Trusted: the answer is a function
/// of the path's text alone, named `path_is_absolute`.
#[verifier::external_body]
pub(crate) fn is_absolute(path: &str) -> (absolute: bool)
    ensures
        absolute == path_is_absolute(path@),
{
    std::path::Path::new(path).is_absolute()
}

/// Calls `pathdiff::diff_paths`. Trusted: the result is a function of the
/// two texts alone, named `relative_path`.
#[verifier::external_body]
pub(crate) fn diff_paths(path: &str, base: &str) -> (found: Option<String>)
    ensures
        text_of(found) == relative_path(path@, base@),
{
    pathdiff::diff_paths(path, base).map(|p| p.to_string_lossy().into_owned())
}

} // verus!
