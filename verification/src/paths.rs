//! Paths as text.
//!
//! A path is a `String`; what the path rules of the platform make of two
//! paths is left to `camino` and `pathdiff`, whose results are named here
//! and not spelled out.

use vstd::prelude::*;
use cargo_metadata::camino::Utf8Path;

verus! {

/// `base` with `part` adjoined, as `Utf8Path::join` gives it.
pub uninterp spec fn joined(base: Seq<char>, part: Seq<char>) -> Seq<char>;

/// `path` with its last component replaced by `file_name`, as
/// `Utf8Path::with_file_name` gives it.
pub uninterp spec fn sibling(path: Seq<char>, file_name: Seq<char>) -> Seq<char>;

/// Whether `path` is absolute, as `Utf8Path::is_absolute` tells it.
pub uninterp spec fn absolute(path: Seq<char>) -> bool;

/// Whether the components of `base` are the first components of `path`,
/// as `Utf8Path::starts_with` tells it.
pub uninterp spec fn within(path: Seq<char>, base: Seq<char>) -> bool;

/// The relative path that leads from `base` to `path`, as
/// `pathdiff::diff_paths` gives it, or `None` where it finds none.
pub uninterp spec fn difference(path: Seq<char>, base: Seq<char>) -> Option<Seq<char>>;

/// Calls `Utf8Path::join`. The result is a function of the two texts alone;
/// nothing more is claimed of it.
#[verifier::external_body]
pub(crate) fn join(base: &str, part: &str) -> (path: String)
    ensures
        path@ == joined(base@, part@),
{
    Utf8Path::new(base).join(part).into_string()
}

/// Calls `Utf8Path::with_file_name`. The result is a function of the two
/// texts alone; nothing more is claimed of it.
#[verifier::external_body]
pub(crate) fn with_file_name(path: &str, file_name: &str) -> (changed: String)
    ensures
        changed@ == sibling(path@, file_name@),
{
    Utf8Path::new(path).with_file_name(file_name).into_string()
}

/// Calls `Utf8Path::is_absolute`. The answer is a function of the text
/// alone; nothing more is claimed of it.
#[verifier::external_body]
pub(crate) fn is_absolute(path: &str) -> (answer: bool)
    ensures
        answer == absolute(path@),
{
    Utf8Path::new(path).is_absolute()
}

/// Calls `Utf8Path::starts_with`. The answer is a function of the two texts
/// alone; nothing more is claimed of it.
#[verifier::external_body]
pub(crate) fn starts_with(path: &str, base: &str) -> (answer: bool)
    ensures
        answer == within(path@, base@),
{
    Utf8Path::new(path).starts_with(base)
}

/// Calls `pathdiff::diff_paths`. Its result is built from components of the
/// two texts, so it is text again; it is a function of the two texts alone,
/// and nothing more is claimed of it.
#[verifier::external_body]
pub(crate) fn diff_paths(path: &str, base: &str) -> (relative: Option<String>)
    ensures
        match relative {
            Some(r) => difference(path@, base@) == Some(r@),
            None => difference(path@, base@) is None,
        },
{
    pathdiff::diff_paths(path, base).and_then(|p| p.into_os_string().into_string().ok())
}

} // verus!
