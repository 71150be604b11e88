//! Paths as text, and the three operations on them that this crate leaves to
//! others: joining and prefix testing to the standard library, cleaning to the
//! `path-clean` crate.
//!
//! None of the three looks at the file system. Each is a function of its
//! arguments, for the path syntax of the platform that the crate is built
//! for, and is known to the verifier by name only: nothing is claimed about
//! what a given path joins, cleans or compares to.

use vstd::prelude::*;

verus! {

/// The path that `Path::join` makes of `base` and `path`.
pub uninterp spec fn joined(base: Seq<char>, path: Seq<char>) -> Seq<char>;

/// The path that `path_clean::clean` makes of `path`.
pub uninterp spec fn cleaned(path: Seq<char>) -> Seq<char>;

/// Whether `Path::starts_with` finds `base` to be a prefix of `path`, whole
/// components only.
pub uninterp spec fn begins_with(path: Seq<char>, base: Seq<char>) -> bool;

/// Calls `std::path::Path::join` on `base` with `path`. The result is the
/// joined path as text; nothing more is claimed of it.
#[verifier::external_body]
pub(crate) fn join(base: &str, path: &str) -> (out: String)
    ensures
        out@ == joined(base@, path@),
{
    std::path::Path::new(base).join(path).to_string_lossy().into_owned()
}

/// Calls `path_clean::clean`, which removes `.` and `..` elements and
/// repeated separators by looking at the text alone. The result is the
/// cleaned path as text; nothing more is claimed of it.
#[verifier::external_body]
pub(crate) fn clean(path: &str) -> (out: String)
    ensures
        out@ == cleaned(path@),
{
    path_clean::clean(path).to_string_lossy().into_owned()
}

/// Calls `std::path::Path::starts_with` on `path` with `base`.
#[verifier::external_body]
pub(crate) fn starts_with(path: &str, base: &str) -> (yes: bool)
    ensures
        yes == begins_with(path@, base@),
{
    std::path::Path::new(path).starts_with(base)
}

} // verus!
