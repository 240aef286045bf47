//! Access to the terms of merges.

use jj_lib::merge::Merge;
use vstd::prelude::*;

use crate::commit_id::CommitId;
use crate::tree::{Tree, TreeValue};

verus! {

/// The merge of `jj_lib`: terms that are added and removed in turn, the first one added.
#[verifier::external_type_specification]
#[verifier::external_body]
#[verifier::reject_recursive_types(T)]
pub struct ExMerge<T>(Merge<T>);

/// The terms of a merge of commit ids, in order.
pub uninterp spec fn id_terms(merge: Merge<Option<CommitId>>) -> Seq<Option<CommitId>>;

/// The terms of a merge of tree values, in order.
pub uninterp spec fn value_terms(merge: Merge<Option<TreeValue>>) -> Seq<Option<TreeValue>>;

/// The terms of a merge of trees, in order.
pub uninterp spec fn tree_terms(merge: Merge<Tree>) -> Seq<Tree>;

/// Calls `jj_lib::merge::Merge::as_resolved`.
///
/// Trusted: a merge of exactly one term gives that term, any other merge gives nothing.
#[verifier::external_body]
pub(crate) fn resolved_id(merge: &Merge<Option<CommitId>>) -> (r: Option<&Option<CommitId>>)
    ensures
        r == (if id_terms(*merge).len() == 1 {
            Some(&id_terms(*merge)[0])
        } else {
            None
        }),
{
    merge.as_resolved()
}

/// Calls `jj_lib::merge::Merge::as_resolved`.
///
/// Trusted: a merge of exactly one term gives that term, any other merge gives nothing.
#[verifier::external_body]
pub(crate) fn resolved_value(merge: &Merge<Option<TreeValue>>) -> (r: Option<&Option<TreeValue>>)
    ensures
        r == (if value_terms(*merge).len() == 1 {
            Some(&value_terms(*merge)[0])
        } else {
            None
        }),
{
    merge.as_resolved()
}

/// Calls `jj_lib::merge::Merge::as_resolved`.
///
/// Trusted: a merge of exactly one term gives that term, any other merge gives nothing.
#[verifier::external_body]
pub(crate) fn resolved_tree(merge: &Merge<Tree>) -> (r: Option<&Tree>)
    ensures
        r == (if tree_terms(*merge).len() == 1 {
            Some(&tree_terms(*merge)[0])
        } else {
            None
        }),
{
    merge.as_resolved()
}

/// Calls `jj_lib::merge::Merge::adds` and collects what it yields.
///
/// Trusted: the added terms are every second term, from the first on.
#[verifier::external_body]
pub(crate) fn added_ids(merge: &Merge<Option<CommitId>>) -> (r: Vec<&Option<CommitId>>)
    ensures
        r@.len() == (id_terms(*merge).len() + 1) / 2,
        forall|i: int| 0 <= i < r@.len() ==> *#[trigger] r@[i] == id_terms(*merge)[2 * i],
{
    merge.adds().collect()
}

/// Calls `jj_lib::merge::Merge::as_slice`.
///
/// Trusted: the slice holds every term in order.
#[verifier::external_body]
pub(crate) fn trees(merge: &Merge<Tree>) -> (r: &[Tree])
    ensures
        r@ == tree_terms(*merge),
{
    merge.as_slice()
}

} // verus!
