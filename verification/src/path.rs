//! Thin contracts around the path functions of the standard library. Paths
//! are texts. What `std::path` makes of a text depends on the text alone, by
//! the path syntax of the platform that the library is built for; it is
//! named here, not restated. What is on disk is asked but never foretold.

use vstd::prelude::*;

verus! {

/// The extension of a path, as `Path::extension` finds it.
pub uninterp spec fn extension_of(path: Seq<char>) -> Option<Seq<char>>;

/// The file name of a path without its extension, as `Path::file_stem`
/// finds it.
pub uninterp spec fn file_stem_of(path: Seq<char>) -> Option<Seq<char>>;

/// The last component of a path, as `Path::file_name` finds it.
pub uninterp spec fn file_name_of(path: Seq<char>) -> Option<Seq<char>>;

/// The path without its last component, as `Path::parent` finds it.
pub uninterp spec fn parent_of(path: Seq<char>) -> Option<Seq<char>>;

/// The path `base` extended by `more`, as `Path::join` makes it.
pub uninterp spec fn joined_path(base: Seq<char>, more: Seq<char>) -> Seq<char>;

/// Calls `Path::extension` on the text as a path. The result is only named.
#[verifier::external_body]
pub(crate) fn path_extension(path: &str) -> (r: Option<String>)
    ensures
        crate::transcript::text_option(r) == extension_of(path@),
{
    std::path::Path::new(path).extension().and_then(|e| e.to_str()).map(|e| e.to_string())
}

/// Calls `Path::file_stem` on the text as a path. The result is only named.
#[verifier::external_body]
pub(crate) fn path_file_stem(path: &str) -> (r: Option<String>)
    ensures
        crate::transcript::text_option(r) == file_stem_of(path@),
{
    std::path::Path::new(path).file_stem().and_then(|e| e.to_str()).map(|e| e.to_string())
}

/// Calls `Path::file_name` on the text as a path. The result is only named.
#[verifier::external_body]
pub(crate) fn path_file_name(path: &str) -> (r: Option<String>)
    ensures
        crate::transcript::text_option(r) == file_name_of(path@),
{
    std::path::Path::new(path).file_name().and_then(|e| e.to_str()).map(|e| e.to_string())
}

/// Calls `Path::parent` on the text as a path. The result is only named.
#[verifier::external_body]
pub(crate) fn path_parent(path: &str) -> (r: Option<String>)
    ensures
        crate::transcript::text_option(r) == parent_of(path@),
{
    std::path::Path::new(path).parent().and_then(|e| e.to_str()).map(|e| e.to_string())
}

/// Calls `Path::join`. The result is only named.
#[verifier::external_body]
pub(crate) fn path_join(base: &str, more: &str) -> (r: String)
    ensures
        r@ == joined_path(base@, more@),
{
    std::path::Path::new(base).join(more).to_string_lossy().into_owned()
}

/// Calls `Path::exists`. What it returns depends on what is on disk at the
/// moment of the call, so nothing is said of it.
#[verifier::external_body]
pub(crate) fn path_exists(path: &str) -> bool {
    std::path::Path::new(path).exists()
}

/// Calls `Path::is_file`. What it returns depends on what is on disk at the
/// moment of the call, so nothing is said of it.
#[verifier::external_body]
pub(crate) fn path_is_file(path: &str) -> bool {
    std::path::Path::new(path).is_file()
}

} // verus!
