//! File system paths, as text, through `std::path::Path`.

use vstd::prelude::*;

verus! {

/// The parent directory that `std::path::Path::parent` gives for `path`.
pub uninterp spec fn path_parent(path: Seq<char>) -> Option<Seq<char>>;

/// Whether `std::path::Path::starts_with` holds: `base` is a prefix of
/// `path`, whole components compared.
pub uninterp spec fn path_starts_with(path: Seq<char>, base: Seq<char>) -> bool;

/// Calls `Path::parent` on `path`.
///
/// Claimed of it: the result, as text, is `path_parent(path)` (a path made
/// from a `&str` converts back to text without loss).
#[verifier::external_body]
pub(crate) fn parent_dir(path: &str) -> (res: Option<String>)
    ensures
        match res {
            Some(d) => path_parent(path@) == Some(d@),
            None => path_parent(path@) is None,
        },
{
    match std::path::Path::new(path).parent() {
        Some(p) => Some(p.to_string_lossy().into_owned()),
        None => None,
    }
}

/// Calls `Path::starts_with` on `path` and `base`.
///
/// Claimed of it: the result is `path_starts_with(path, base)`.
#[verifier::external_body]
pub(crate) fn has_path_prefix(path: &str, base: &str) -> (res: bool)
    ensures
        res == path_starts_with(path@, base@),
{
    std::path::Path::new(path).starts_with(base)
}

} // verus!
