//! Paths, held as UTF-8 strings, and the `std::path` operations the
//! library applies to them.  Each result is named by a spec function of
//! the arguments; the component rules of `std::path` are not restated.
use vstd::prelude::*;
use std::path::Path;

verus! {

/// What `Path::file_name` returns for a path: its last component, if that is a name.
pub uninterp spec fn path_file_name(p: Seq<char>) -> Option<Seq<char>>;

/// What `Path::parent` returns for a path: the path without its last component, if any.
pub uninterp spec fn path_parent(p: Seq<char>) -> Option<Seq<char>>;

/// What `Path::join` returns for a base path and a path to append.
pub uninterp spec fn path_join(base: Seq<char>, rest: Seq<char>) -> Seq<char>;

/// What `Path::extension` returns for a path.
pub uninterp spec fn path_extension(p: Seq<char>) -> Option<Seq<char>>;

/// What `Path::starts_with` returns: whether `base` is a component-wise prefix of `p`.
pub uninterp spec fn path_starts_with(p: Seq<char>, base: Seq<char>) -> bool;

/// `Path::file_name`: the result is named `path_file_name` of the argument.
#[verifier::external_body]
pub(crate) fn file_name(p: &str) -> (r: Option<String>)
    ensures
        match r {
            Some(s) => path_file_name(p@) == Some(s@),
            None => path_file_name(p@) is None,
        },
{
    Path::new(p).file_name().map(|s| s.to_string_lossy().into_owned())
}

/// `Path::parent`: the result is named `path_parent` of the argument.
#[verifier::external_body]
pub(crate) fn parent(p: &str) -> (r: Option<String>)
    ensures
        match r {
            Some(s) => path_parent(p@) == Some(s@),
            None => path_parent(p@) is None,
        },
{
    Path::new(p).parent().map(|s| s.to_string_lossy().into_owned())
}

/// `Path::join`: the result is named `path_join` of the arguments.
#[verifier::external_body]
pub(crate) fn join(base: &str, rest: &str) -> (r: String)
    ensures
        r@ == path_join(base@, rest@),
{
    Path::new(base).join(rest).to_string_lossy().into_owned()
}

/// `Path::extension`: the result is named `path_extension` of the argument.
#[verifier::external_body]
pub(crate) fn extension(p: &str) -> (r: Option<String>)
    ensures
        match r {
            Some(s) => path_extension(p@) == Some(s@),
            None => path_extension(p@) is None,
        },
{
    Path::new(p).extension().map(|s| s.to_string_lossy().into_owned())
}

/// `Path::starts_with`: the result is named `path_starts_with` of the arguments.
#[verifier::external_body]
pub(crate) fn starts_with(p: &str, base: &str) -> (r: bool)
    ensures
        r == path_starts_with(p@, base@),
{
    Path::new(p).starts_with(Path::new(base))
}

} // verus!
