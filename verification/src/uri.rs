//! The files that URIs name.
use crate::protocol::CallHierarchyItem;
use std::path::PathBuf;
use vstd::prelude::*;
use vstd::std_specs::cmp::PartialEqSpec;

verus! {

/// `std::path::PathBuf`, a path of the file system. Nothing is said of what is inside: the
/// library hands paths through, and asks only whether two are equal.
#[verifier::external_type_specification]
#[verifier::external_body]
pub struct ExPathBuf(PathBuf);

/// The file that a URI names: what `lsp_types::Url::to_file_path` makes of the URL that the text
/// parses to, on the platform that the library is built for. `None` where the text is no URL, and
/// where the URL names no file.
pub uninterp spec fn file_path_of_uri(uri: Seq<char>) -> Option<PathBuf>;

/// Calls `lsp_types::Url::to_file_path` on the URL that `uri` spells. Trusted: the outcome is
/// settled by the text alone, and bears the name `file_path_of_uri`. How the path is put together
/// (percent-decoding, drive letters, hosts) is not stated. A debug build for Windows asserts inside
/// the call that the path is absolute, which a URL of a bare drive (`file:///C:`) may break; a
/// release build, and a build for Unix, makes a path of it like of any other.
#[verifier::external_body]
pub(crate) fn uri_to_file_path(uri: &str) -> (path: Option<PathBuf>)
    ensures
        path == file_path_of_uri(uri@),
{
    lsp_types::Url::parse(uri).ok().and_then(|url| url.to_file_path().ok())
}

/// Calls `PathBuf`'s `==` of std, which compares two paths component by component. Trusted: it is
/// a relation between the two paths alone, and one that holds between a path and itself.
#[verifier::external_body]
pub(crate) fn paths_equal(a: &PathBuf, b: &PathBuf) -> (equal: bool)
    ensures
        equal == a.eq_spec(b),
        *a == *b ==> equal,
{
    a == b
}

/// Whether `path`, the file that an item lies in if it lies in one, is `source_file_path`.
pub open spec fn is_path(path: Option<PathBuf>, source_file_path: PathBuf) -> bool {
    path matches Some(p) && p.eq_spec(&source_file_path)
}

/// Whether the item's document is the file `source_file_path`.
pub open spec fn in_file(item: CallHierarchyItem, source_file_path: PathBuf) -> bool {
    is_path(file_path_of_uri(item.uri@), source_file_path)
}

/// Whether `path` is there and equals `source_file_path`.
pub fn path_is_source(path: &Option<PathBuf>, source_file_path: &PathBuf) -> (same: bool)
    ensures
        same == is_path(*path, *source_file_path),
        *path is None ==> !same,
        *path matches Some(p) ==> same == p.eq_spec(source_file_path),
        *path == Some(*source_file_path) ==> same,
{
    match path {
        Some(path) => paths_equal(path, source_file_path),
        None => false,
    }
}

/// Whether the item's document is the file `source_file_path`.
pub fn lsp_item_is_in_file(item: &CallHierarchyItem, source_file_path: &PathBuf) -> (inside: bool)
    ensures
        inside == in_file(*item, *source_file_path),
        file_path_of_uri(item.uri@) is None ==> !inside,
        file_path_of_uri(item.uri@) matches Some(p) ==> inside == p.eq_spec(source_file_path),
        file_path_of_uri(item.uri@) == Some(*source_file_path) ==> inside,
{
    let path = uri_to_file_path(item.uri.as_str());
    path_is_source(&path, source_file_path)
}

/// An item lies in a file just if its URI names a file, and the two paths are equal. The rest of
/// the item has no say in it.
pub proof fn file_goes_by_the_uri_alone(
    a: CallHierarchyItem,
    b: CallHierarchyItem,
    source_file_path: PathBuf,
)
    ensures
        file_path_of_uri(a.uri@) is None ==> !in_file(a, source_file_path),
        file_path_of_uri(a.uri@) matches Some(path) ==> in_file(a, source_file_path)
            == path.eq_spec(&source_file_path),
        a.uri@ == b.uri@ ==> in_file(a, source_file_path) == in_file(b, source_file_path),
{
}

} // verus!
