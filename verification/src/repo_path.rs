//! Paths inside the tree of a commit.

use jj_lib::repo_path::{RelativePathParseError, RepoPathBuf};
use vstd::prelude::*;

use crate::paths;
use crate::text;

verus! {

/// The error of `jj_lib::repo_path::RepoPathBuf::from_relative_path`.
#[verifier::external_type_specification]
#[verifier::external_body]
pub struct ExRelativePathParseError(RelativePathParseError);

/// A segment that names an entry of a directory, unlike the root, `.` and `..`.
pub open spec fn is_entry_name(segment: Seq<char>) -> bool {
    segment != paths::root_text() && segment != paths::dot_text() && segment
        != paths::dot_dot_text()
}

/// Whether a path stands for a place below the root of a tree: it is `.`, or each of its segments
/// names an entry.
pub open spec fn is_inside(path: Seq<char>) -> bool {
    let segments = paths::segments(path);
    segments == seq![paths::dot_text()] || forall|i: int|
        0 <= i < segments.len() ==> is_entry_name(#[trigger] segments[i])
}

/// The path without redundant separators; `.` is the empty path.
pub open spec fn inside(path: Seq<char>) -> Seq<char> {
    let segments = paths::segments(path);
    if segments == seq![paths::dot_text()] {
        Seq::empty()
    } else {
        paths::joined_all(Seq::empty(), segments)
    }
}

/// Calls `jj_lib::repo_path::RepoPathBuf::from_relative_path` and takes the text of the path.
///
/// Trusted: `.` gives the empty path; a path whose components are all ordinary names gives those
/// names with single slashes between them; a path with a root, a leading `.` or a `..` is an error.
/// This is how `std::path` takes a path apart on Unix.
#[verifier::external_body]
fn from_relative_path(path: &str) -> (r: Result<String, RelativePathParseError>)
    ensures
        match r {
            Ok(text) => is_inside(path@) && text@ == inside(path@),
            Err(_) => !is_inside(path@),
        },
{
    match RepoPathBuf::from_relative_path(path) {
        Ok(repo_path) => Ok(repo_path.as_internal_file_string().to_owned()),
        Err(error) => Err(error),
    }
}

/// The place in a tree that a path stands for, if any.
pub fn repo_path(path: &str) -> (r: Option<String>)
    ensures
        match r {
            Some(text) => is_inside(path@) && text@ == inside(path@),
            None => !is_inside(path@),
        },
{
    match from_relative_path(path) {
        Ok(text) => Some(text),
        Err(_) => None,
    }
}

/// A path of ordinary names is inside a tree, at those names.
pub(crate) proof fn lemma_inside_names(names: Seq<Seq<char>>, path: Seq<char>)
    requires
        forall|i: int|
            0 <= i < names.len() ==> (#[trigger] names[i]).len() > 0 && names[i] != seq!['.']
                && names[i] != seq!['.', '.'] && !names[i].contains('/'),
        paths::segments(path) == names,
    ensures
        is_inside(path),
        inside(path) == text::separated(names, '/'),
        paths::segments(inside(path)) == names,
{
    assert forall|i: int| 0 <= i < names.len() implies paths::is_plain_name(#[trigger] names[i])
        && is_entry_name(names[i]) by {
        assert(names[i].len() > 0);
        if names[i] == paths::root_text() {
            assert(names[i][0] == '/');
        }
    }
    if names == seq![paths::dot_text()] {
        assert(names[0] == seq!['.']);
    }
    paths::lemma_joined_text(names);
    paths::lemma_segments_rebuilt(path);
}

/// A path with a root, or with a `..` anywhere, is not inside a tree.
pub(crate) proof fn lemma_outside(path: Seq<char>)
    requires
        paths::segments(path).contains(seq!['.', '.']) || (path.len() > 0 && path[0] == '/'),
    ensures
        !is_inside(path),
{
    let segments = paths::segments(path);
    let up = paths::dot_dot_text();
    assert(up.len() != paths::dot_text().len());
    if path.len() > 0 && path[0] == '/' {
        assert(segments[0] == paths::root_text());
        assert(!is_entry_name(segments[0]));
        assert(paths::root_text()[0] != paths::dot_text()[0]);
    } else {
        let i = choose|i: int| 0 <= i < segments.len() && segments[i] == up;
        assert(!is_entry_name(segments[i]));
    }
}

/// A path of ordinary names is inside the tree: it stands for those names with single slashes
/// between them.
pub proof fn lemma_ordinary_names(names: Seq<Seq<char>>, path: &str, r: Option<String>)
    requires
        forall|i: int|
            0 <= i < names.len() ==> (#[trigger] names[i]).len() > 0 && names[i] != seq!['.']
                && names[i] != seq!['.', '.'] && !names[i].contains('/'),
        paths::segments(path@) == names,
        call_ensures(repo_path, (path,), r),
    ensures
        r matches Some(place) && place@ == text::separated(names, '/') && paths::segments(place@)
            == names,
{
    lemma_inside_names(names, path@);
}

/// A path with a root, or with a `..` anywhere, is not inside the tree.
pub proof fn lemma_way_out(path: &str, r: Option<String>)
    requires
        paths::segments(path@).contains(seq!['.', '.']) || (path@.len() > 0 && path@[0] == '/'),
        call_ensures(repo_path, (path,), r),
    ensures
        r is None,
{
    lemma_outside(path@);
}

/// The empty path and `.` stand for the root of the tree.
pub proof fn lemma_tree_root(path: &str, r: Option<String>)
    requires
        path@ == Seq::<char>::empty() || path@ == seq!['.'],
        call_ensures(repo_path, (path,), r),
    ensures
        r matches Some(place) && place@ == Seq::<char>::empty(),
{
    paths::lemma_segments_empty();
    paths::lemma_segments_dot();
}

/// A `.` at the start of a path is refused where anything follows it.
pub proof fn lemma_leading_dot(path: &str, r: Option<String>)
    requires
        paths::segments(path@).len() > 1,
        paths::segments(path@)[0] == seq!['.'],
        call_ensures(repo_path, (path,), r),
    ensures
        r is None,
{
    assert(!is_entry_name(paths::segments(path@)[0]));
    assert(seq![paths::dot_text()].len() == 1);
}

} // verus!
