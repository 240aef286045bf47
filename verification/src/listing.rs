//! The entries of a directory that may be in conflict.

use itertools::Itertools;
use jj_lib::merge::Merge;
use vstd::prelude::*;

use crate::merge;
use crate::text;
use crate::tree;
use crate::tree::{Tree, TreeValue};

verus! {

/// The names in all the trees of a merge, tree after tree.
pub open spec fn all_names(trees: Seq<Tree>) -> Seq<Seq<char>>
    decreases trees.len(),
{
    if trees.len() == 0 {
        Seq::empty()
    } else {
        all_names(trees.drop_last()) + tree::entry_names(trees.last().entries@)
    }
}

/// The names of a list, each once, where it occurs first.
pub open spec fn first_occurrences(names: Seq<Seq<char>>) -> Seq<Seq<char>>
    decreases names.len(),
{
    if names.len() == 0 {
        Seq::empty()
    } else {
        let seen = first_occurrences(names.drop_last());
        if seen.contains(names.last()) {
            seen
        } else {
            seen.push(names.last())
        }
    }
}

/// The names that a directory lists.
pub open spec fn listed_names(trees: Seq<Tree>) -> Seq<Seq<char>> {
    first_occurrences(all_names(trees))
}

/// What a directory has under a name, unless the directory is in conflict or has nothing there.
pub open spec fn listed_value(trees: Seq<Tree>, name: Seq<char>) -> Option<TreeValue> {
    if trees.len() == 1 {
        trees[0].lookup(name)
    } else {
        None
    }
}

/// A directory lists a name exactly where one of its trees has it.
pub proof fn lemma_listed_iff_present(trees: Seq<Tree>, name: Seq<char>)
    ensures
        listed_names(trees).contains(name) <==> exists|i: int|
            0 <= i < trees.len() && (#[trigger] trees[i]).lookup(name) is Some,
{
    lemma_first_occurrences(all_names(trees), name);
    lemma_all_names(trees, name);
    assert forall|i: int| 0 <= i < trees.len() implies ((#[trigger] trees[i]).lookup(name) is Some
        <==> tree::entry_names(trees[i].entries@).contains(name)) by {
        tree::entry_names(trees[i].entries@).index_of_first_ensures(name);
    }
    if exists|i: int| 0 <= i < trees.len() && (#[trigger] trees[i]).lookup(name) is Some {
        let i = choose|i: int| 0 <= i < trees.len() && (#[trigger] trees[i]).lookup(name) is Some;
        assert(tree::entry_names(trees[i].entries@).contains(name));
    }
    if exists|i: int|
        0 <= i < trees.len() && tree::entry_names((#[trigger] trees[i]).entries@).contains(name) {
        let i = choose|i: int|
            0 <= i < trees.len() && tree::entry_names((#[trigger] trees[i]).entries@).contains(
                name,
            );
        assert(trees[i].lookup(name) is Some);
    }
}

/// A directory that is not in conflict lists its entries in the order of their names.
pub proof fn lemma_listed_ascend(trees: Seq<Tree>)
    requires
        trees.len() == 1,
        trees[0].wf(),
    ensures
        listed_names(trees) == tree::entry_names(trees[0].entries@),
        text::ascends(listed_names(trees)),
{
    let names = tree::entry_names(trees[0].entries@);
    reveal_with_fuel(all_names, 2);
    assert(all_names(trees) =~= names);
    text::lemma_ascends_distinct(names);
    lemma_distinct_occurrences(names);
}

proof fn lemma_distinct_occurrences(names: Seq<Seq<char>>)
    requires
        names.no_duplicates(),
    ensures
        first_occurrences(names) == names,
    decreases names.len(),
{
    if names.len() > 0 {
        let rest = names.drop_last();
        lemma_distinct_occurrences(rest);
        assert(!rest.contains(names.last())) by {
            if rest.contains(names.last()) {
                let i = choose|i: int| 0 <= i < rest.len() && rest[i] == names.last();
                assert(names[i] == names[names.len() - 1]);
            }
        }
        assert(rest.push(names.last()) =~= names);
    }
}

/// A directory lists no name twice.
pub proof fn lemma_listed_once(trees: Seq<Tree>)
    ensures
        listed_names(trees).no_duplicates(),
{
    lemma_occurrences_distinct(all_names(trees));
}

proof fn lemma_occurrences_distinct(names: Seq<Seq<char>>)
    ensures
        first_occurrences(names).no_duplicates(),
    decreases names.len(),
{
    if names.len() > 0 {
        lemma_occurrences_distinct(names.drop_last());
    }
}

proof fn lemma_first_occurrences(names: Seq<Seq<char>>, name: Seq<char>)
    ensures
        first_occurrences(names).contains(name) <==> names.contains(name),
    decreases names.len(),
{
    if names.len() > 0 {
        let rest = names.drop_last();
        let seen = first_occurrences(rest);
        lemma_first_occurrences(rest, name);
        assert(names =~= rest.push(names.last()));
        broadcast use vstd::seq_lib::group_seq_properties;

    }
}

proof fn lemma_all_names(trees: Seq<Tree>, name: Seq<char>)
    ensures
        all_names(trees).contains(name) <==> exists|i: int|
            0 <= i < trees.len() && tree::entry_names((#[trigger] trees[i]).entries@).contains(
                name,
            ),
    decreases trees.len(),
{
    if trees.len() > 0 {
        let rest = trees.drop_last();
        lemma_all_names(rest, name);
        let last = tree::entry_names(trees.last().entries@);
        assert(all_names(trees).contains(name) <==> all_names(rest).contains(name)
            || last.contains(name)) by {
            broadcast use vstd::seq_lib::group_seq_properties;

        }
        if all_names(rest).contains(name) {
            let i = choose|i: int|
                0 <= i < rest.len() && tree::entry_names((#[trigger] rest[i]).entries@).contains(
                    name,
                );
            assert(trees[i] == rest[i]);
        }
        if last.contains(name) {
            assert(trees[trees.len() - 1] == trees.last());
        }
        if exists|i: int|
            0 <= i < trees.len() && tree::entry_names((#[trigger] trees[i]).entries@).contains(
                name,
            ) {
            let i = choose|i: int|
                0 <= i < trees.len() && tree::entry_names((#[trigger] trees[i]).entries@).contains(
                    name,
                );
            if i < rest.len() {
                assert(rest[i] == trees[i]);
            }
        }
    }
}

/// Calls `itertools::Itertools::unique` on the names and collects what it yields.
///
/// Trusted: each name is yielded once, in the order in which the names occur first.
#[verifier::external_body]
fn unique(names: Vec<String>) -> (r: Vec<String>)
    ensures
        text::views(r@) == first_occurrences(text::views(names@)),
{
    names.into_iter().unique().collect()
}

/// The names that a directory lists.
pub(crate) fn list_names(trees: &Merge<Tree>) -> (r: Vec<String>)
    ensures
        text::views(r@) == listed_names(merge::tree_terms(*trees)),
{
    let terms = merge::trees(trees);
    let mut names: Vec<String> = Vec::new();
    let mut i: usize = 0;
    assert(text::views(names@) =~= all_names(terms@.take(0)));
    while i < terms.len()
        invariant
            i <= terms@.len(),
            text::views(names@) == all_names(terms@.take(i as int)),
        decreases terms@.len() - i,
    {
        let entries = &terms[i].entries;
        let ghost before = text::views(names@);
        let mut k: usize = 0;
        assert(text::views(names@) =~= before + tree::entry_names(entries@).take(0));
        while k < entries.len()
            invariant
                k <= entries@.len(),
                text::views(names@) == before + tree::entry_names(entries@).take(k as int),
            decreases entries@.len() - k,
        {
            let ghost sofar = names@;
            names.push(entries[k].name.clone());
            proof {
                assert(text::views(names@) =~= text::views(sofar).push(entries@[k as int].name@));
                assert(before + tree::entry_names(entries@).take(k + 1) =~= (before
                    + tree::entry_names(entries@).take(k as int)).push(entries@[k as int].name@));
            }
            k = k + 1;
        }
        proof {
            assert(tree::entry_names(entries@).take(k as int) =~= tree::entry_names(entries@));
            assert(terms@.take(i + 1).drop_last() =~= terms@.take(i as int));
            assert(terms@.take(i + 1).last() == terms@[i as int]);
        }
        i = i + 1;
    }
    assert(terms@.take(i as int) =~= terms@);
    unique(names)
}

/// What a directory has under a name, unless the directory is in conflict or has nothing there.
pub(crate) fn find_value<'a>(trees: &'a Merge<Tree>, name: &str) -> (r: Option<&'a TreeValue>)
    ensures
        match r {
            Some(value) => listed_value(merge::tree_terms(*trees), name@) == Some(*value),
            None => listed_value(merge::tree_terms(*trees), name@) is None,
        },
{
    match merge::resolved_tree(trees) {
        Some(tree) => tree.value(name),
        None => None,
    }
}

/// What is listed of the first trees comes first, in the same order.
pub(crate) proof fn lemma_listed_start(trees: Seq<Tree>, more: Seq<Tree>)
    ensures
        listed_names(trees).is_prefix_of(listed_names(trees + more)),
    decreases more.len(),
{
    if more.len() == 0 {
        assert(trees + more =~= trees);
    } else {
        let front = trees + more.drop_last();
        lemma_listed_start(trees, more.drop_last());
        assert((trees + more).drop_last() =~= front);
        assert((trees + more).last() == more.last());
        lemma_occurrences_start(all_names(front), tree::entry_names(more.last().entries@));
        let a = listed_names(trees);
        let b = listed_names(front);
        let c = listed_names(trees + more);
        assert(a =~= c.take(a.len() as int)) by {
            assert(a == b.take(a.len() as int));
            assert(b == c.take(b.len() as int));
        }
    }
}

proof fn lemma_occurrences_start(names: Seq<Seq<char>>, more: Seq<Seq<char>>)
    ensures
        first_occurrences(names).is_prefix_of(first_occurrences(names + more)),
    decreases more.len(),
{
    if more.len() == 0 {
        assert(names + more =~= names);
    } else {
        lemma_occurrences_start(names, more.drop_last());
        assert((names + more).drop_last() =~= names + more.drop_last());
        let a = first_occurrences(names);
        let b = first_occurrences(names + more.drop_last());
        let c = first_occurrences(names + more);
        assert(a == b.take(a.len() as int));
        assert(a =~= c.take(a.len() as int));
    }
}

/// The names of the first of the trees come first, in their order.
pub(crate) proof fn lemma_first_tree_listed(trees: Seq<Tree>, i: int)
    requires
        trees.len() > 0,
        trees[0].wf(),
        0 <= i < trees[0].entries@.len(),
    ensures
        i < listed_names(trees).len(),
        listed_names(trees)[i] == trees[0].entries@[i].name@,
{
    let first = seq![trees[0]];
    lemma_listed_ascend(first);
    lemma_listed_start(first, trees.skip(1));
    assert(first + trees.skip(1) =~= trees);
    let start = listed_names(first);
    assert(start[i] == trees[0].entries@[i].name@);
    assert(start == listed_names(trees).take(start.len() as int));
}

/// A name is listed exactly where an entry of one of the trees has it.
pub(crate) proof fn lemma_listed_iff_entry(trees: Seq<Tree>, name: Seq<char>)
    ensures
        listed_names(trees).contains(name) <==> exists|t: int, i: int|
            0 <= t < trees.len() && 0 <= i < trees[t].entries@.len()
                && (#[trigger] trees[t].entries@[i]).name@ == name,
{
    lemma_first_occurrences(all_names(trees), name);
    lemma_all_names(trees, name);
    if listed_names(trees).contains(name) {
        let t = choose|t: int|
            0 <= t < trees.len() && tree::entry_names((#[trigger] trees[t]).entries@).contains(name);
        let names = tree::entry_names(trees[t].entries@);
        let i = choose|i: int| 0 <= i < names.len() && names[i] == name;
        assert(trees[t].entries@[i].name@ == name);
    }
    if exists|t: int, i: int|
        0 <= t < trees.len() && 0 <= i < trees[t].entries@.len()
            && (#[trigger] trees[t].entries@[i]).name@ == name {
        let (t, i) = choose|t: int, i: int|
            0 <= t < trees.len() && 0 <= i < trees[t].entries@.len()
                && (#[trigger] trees[t].entries@[i]).name@ == name;
        assert(tree::entry_names(trees[t].entries@)[i] == name);
        assert(tree::entry_names(trees[t].entries@).contains(name));
    }
}

} // verus!
