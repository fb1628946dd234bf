//! Paths as std reads them, named: a path's last component, the path above
//! it, and whether one path lies under another.
//!
//! std splits a path by the rules of the platform it is built for, which are
//! fixed when the library is compiled: each name below is a function of the
//! text alone for a given build.

use vstd::prelude::*;

verus! {

/// What std's `Path::file_name` gives for a path: its last component, unless
/// that is `..` or there is none.
pub uninterp spec fn file_name_of(path: Seq<char>) -> Option<Seq<char>>;

/// The last component of `path`, where it has one that names a file.
///
/// Wraps std's `Path::file_name`, read back as text. The result is named, not
/// spelled out: it follows how std splits a path into components.
#[verifier::external_body]
pub(crate) fn file_name(path: &str) -> (r: Option<String>)
    ensures
        match r {
            Some(n) => file_name_of(path@) == Some(n@),
            None => file_name_of(path@) is None,
        },
{
    std::path::Path::new(path).file_name().map(|name| name.to_string_lossy().into_owned())
}

/// What std's `Path::parent` gives for a path: the path without its last
/// component, where it has one.
pub uninterp spec fn parent_of(path: Seq<char>) -> Option<Seq<char>>;

/// The path above `path`, where there is one.
///
/// Wraps std's `Path::parent`. The result is named, not spelled out; std
/// takes it as a leading slice of `path` with at least the last component
/// cut away, so it is shorter than `path`.
#[verifier::external_body]
pub(crate) fn parent(path: &str) -> (r: Option<String>)
    ensures
        match r {
            Some(p) => parent_of(path@) == Some(p@) && p@.len() < path@.len(),
            None => parent_of(path@) is None,
        },
{
    std::path::Path::new(path).parent().map(|p| p.to_string_lossy().into_owned())
}

/// What std's `Path::starts_with` says of two paths: whether the second's
/// components begin the first's.
pub uninterp spec fn lies_under(path: Seq<char>, base: Seq<char>) -> bool;

/// Whether `base`'s components begin `path`'s.
///
/// Wraps std's `Path::starts_with`; the result is named, not spelled out.
#[verifier::external_body]
pub(crate) fn starts_with(path: &str, base: &str) -> (b: bool)
    ensures
        b == lies_under(path@, base@),
{
    std::path::Path::new(path).starts_with(base)
}

/// What std's `Path::join` gives: `rel` taken from `base`, or `rel` alone
/// where it is absolute.
pub uninterp spec fn joined_path(base: Seq<char>, rel: Seq<char>) -> Seq<char>;

/// `rel` taken from the folder `base`.
///
/// Wraps std's `Path::join`, read back as text; the result is named, not
/// spelled out.
#[verifier::external_body]
pub(crate) fn join(base: &str, rel: &str) -> (p: String)
    ensures
        p@ == joined_path(base@, rel@),
{
    std::path::Path::new(base).join(rel).to_string_lossy().into_owned()
}

/// What std's `Path::strip_prefix` gives: the rest of `path` once `base`'s
/// components are taken off its front, where they begin it.
pub uninterp spec fn stripped_of(path: Seq<char>, base: Seq<char>) -> Option<Seq<char>>;

/// `path` with `base` taken off its front, where `base`'s components begin
/// it.
///
/// Wraps std's `Path::strip_prefix`, read back as text; the result is named,
/// not spelled out.
#[verifier::external_body]
pub(crate) fn strip_prefix(path: &str, base: &str) -> (r: Option<String>)
    ensures
        match r {
            Some(rest) => stripped_of(path@, base@) == Some(rest@),
            None => stripped_of(path@, base@) is None,
        },
{
    std::path::Path::new(path).strip_prefix(base).ok().map(|rest| rest.to_string_lossy().into_owned())
}

/// What std's `==` on paths says of two: whether they have the same
/// components, so that `/r//a` and `/r/a/` are one path.
pub uninterp spec fn same_path_of(a: Seq<char>, b: Seq<char>) -> bool;

/// Whether `a` and `b` are the same path, component by component.
///
/// Wraps std's `PartialEq for Path`, which compares by components; the
/// result is named, not spelled out.
#[verifier::external_body]
pub(crate) fn same_path(a: &str, b: &str) -> (same: bool)
    ensures
        same == same_path_of(a@, b@),
{
    std::path::Path::new(a) == std::path::Path::new(b)
}

} // verus!
