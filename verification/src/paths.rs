//! File-system path names as the standard library splits them (no access to
//! the file system).

use vstd::prelude::*;

verus! {

/// The extension of the path's final component, as `Path::extension`
/// reads it.
pub uninterp spec fn extension_of(path: Seq<char>) -> Option<Seq<char>>;

/// The path's final component, as `Path::file_name` reads it.
pub uninterp spec fn file_name_of(path: Seq<char>) -> Option<Seq<char>>;

/// `Path::extension` on `path`: the text after the last `.` of its final
/// component, if that component has one.
#[verifier::external_body]
pub(crate) fn path_extension(path: &str) -> (r: Option<String>)
    ensures
        r is None <==> extension_of(path@) is None,
        r is Some ==> extension_of(path@) == Some(r->Some_0@),
{
    std::path::Path::new(path).extension().and_then(|e| e.to_str()).map(|e| e.to_string())
}

/// `Path::file_name` on `path`: its final component, if it has one.
#[verifier::external_body]
pub(crate) fn path_file_name(path: &str) -> (r: Option<String>)
    ensures
        r is None <==> file_name_of(path@) is None,
        r is Some ==> file_name_of(path@) == Some(r->Some_0@),
{
    std::path::Path::new(path).file_name().and_then(|n| n.to_str()).map(|n| n.to_string())
}

/// Whether `base` is a whole-component prefix of `path`, as
/// `Path::starts_with` decides it.
pub uninterp spec fn component_prefix(path: Seq<char>, base: Seq<char>) -> bool;

/// `Path::starts_with`: whether `base` is a prefix of `path` counted in
/// whole components.
#[verifier::external_body]
pub(crate) fn path_starts_with(path: &str, base: &str) -> (r: bool)
    ensures
        r == component_prefix(path@, base@),
{
    std::path::Path::new(path).starts_with(base)
}

} // verus!
