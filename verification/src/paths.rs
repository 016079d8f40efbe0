//! File paths as text.
//!
//! The grammar of paths is the standard library's, for the platform that the
//! crate is built for.

use std::path::Path;

use vstd::prelude::*;

verus! {

/// `base` with `part` behind it, as `std::path::Path::join` gives it.
pub uninterp spec fn joined(base: Seq<char>, part: Seq<char>) -> Seq<char>;

/// The last component of a path where it is a name, as
/// `std::path::Path::file_name` gives it.
pub uninterp spec fn file_name_of(path: Seq<char>) -> Option<Seq<char>>;

/// A path without its last component, as `std::path::Path::parent` gives it.
pub uninterp spec fn parent_of(path: Seq<char>) -> Option<Seq<char>>;

/// A path with its extension replaced, as `std::path::Path::with_extension`
/// gives it.
pub uninterp spec fn extension_replaced(path: Seq<char>, extension: Seq<char>) -> Seq<char>;

/// Whether a path stands by itself, as `std::path::Path::is_absolute` says.
pub uninterp spec fn absolute(path: Seq<char>) -> bool;

/// Whether two paths have the same components, as `==` on `std::path::Path`
/// says.
pub uninterp spec fn same_path(left: Seq<char>, right: Seq<char>) -> bool;

/// `Path::join`: the result is a function of the two paths.
#[verifier::external_body]
pub(crate) fn join(base: &str, part: &str) -> (path: String)
    ensures
        path@ == joined(base@, part@),
{
    Path::new(base).join(part).to_string_lossy().into_owned()
}

/// `Path::file_name`: the result is a function of the path.
#[verifier::external_body]
pub(crate) fn file_name(path: &str) -> (name: Option<String>)
    ensures
        name is Some == file_name_of(path@) is Some,
        name is Some ==> (name->0)@ == file_name_of(path@)->0,
{
    Path::new(path).file_name().map(|name| name.to_string_lossy().into_owned())
}

/// `Path::parent`: the result is a function of the path.
#[verifier::external_body]
pub(crate) fn parent(path: &str) -> (parent: Option<String>)
    ensures
        parent is Some == parent_of(path@) is Some,
        parent is Some ==> (parent->0)@ == parent_of(path@)->0,
{
    Path::new(path).parent().map(|parent| parent.to_string_lossy().into_owned())
}

/// Whether a text holds neither of the characters that part a path's names.
pub open spec fn without_separator(text: Seq<char>) -> bool {
    forall|i: int| 0 <= i < text.len() ==> #[trigger] text[i] != '/' && text[i] != '\\'
}

/// `Path::with_extension`: the result is a function of the path and the
/// extension. It panics where the extension holds a path separator.
#[verifier::external_body]
pub(crate) fn with_extension(path: &str, extension: &str) -> (replaced: String)
    requires
        without_separator(extension@),
    ensures
        replaced@ == extension_replaced(path@, extension@),
{
    Path::new(path).with_extension(extension).to_string_lossy().into_owned()
}

/// `Path::is_absolute`: the result is a function of the path.
#[verifier::external_body]
pub(crate) fn is_absolute(path: &str) -> (stands_alone: bool)
    ensures
        stands_alone == absolute(path@),
{
    Path::new(path).is_absolute()
}

/// `Path::eq`: the result is a function of the two paths, and a path is the
/// same as itself.
#[verifier::external_body]
pub(crate) fn is_same(left: &str, right: &str) -> (same: bool)
    ensures
        same == same_path(left@, right@),
        left@ == right@ ==> same,
{
    Path::new(left) == Path::new(right)
}

} // verus!
