//! UTF-8 path operations, through `camino`.
use vstd::prelude::*;

verus! {

/// The final component `camino::Utf8Path::file_name` reports for a path.
pub uninterp spec fn path_file_name(path: Seq<char>) -> Option<Seq<char>>;

/// The path `camino::Utf8Path::parent` reports for a path.
pub uninterp spec fn path_parent(path: Seq<char>) -> Option<Seq<char>>;

/// The path `camino::Utf8Path::join` builds from a base and a second path.
pub uninterp spec fn path_join(base: Seq<char>, rest: Seq<char>) -> Seq<char>;

/// `camino::Utf8Path::file_name`: the final component of `path`, if it has
/// one. The contract names the result; `camino`'s component rules are not
/// restated.
#[verifier::external_body]
pub(crate) fn file_name(path: &str) -> (r: Option<String>)
    ensures
        r matches Some(n) ==> path_file_name(path@) == Some(n@),
        r is None ==> path_file_name(path@) is None,
{
    camino::Utf8Path::new(path).file_name().map(|n| n.to_owned())
}

/// `camino::Utf8Path::parent`: `path` without its final component, if any.
#[verifier::external_body]
pub(crate) fn parent(path: &str) -> (r: Option<String>)
    ensures
        r matches Some(p) ==> path_parent(path@) == Some(p@),
        r is None ==> path_parent(path@) is None,
{
    camino::Utf8Path::new(path).parent().map(|p| p.as_str().to_owned())
}

/// `camino::Utf8Path::join`: `rest` appended to `base` (or `rest` alone when
/// it is absolute).
#[verifier::external_body]
pub(crate) fn join(base: &str, rest: &str) -> (r: String)
    ensures
        r@ == path_join(base@, rest@),
{
    camino::Utf8Path::new(base).join(rest).into_string()
}

} // verus!
