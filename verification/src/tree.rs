//! The trees of a commit.

use vstd::prelude::*;

use crate::named;
use crate::named::Named;
use crate::text;

verus! {

/// What stands at a path of a tree.
#[derive(Debug, PartialEq, Eq)]
pub enum TreeValue {
    File { id: Vec<u8>, executable: bool, copy_id: Vec<u8> },
    Symlink(Vec<u8>),
    Tree(Vec<u8>),
    GitSubmodule(Vec<u8>),
}

/// An entry of a tree.
#[derive(Debug, PartialEq, Eq)]
pub struct TreeEntry {
    pub name: String,
    pub value: TreeValue,
}

impl Named for TreeEntry {
    open spec fn spec_name(&self) -> Seq<char> {
        self.name@
    }

    fn name(&self) -> &str {
        self.name.as_str()
    }
}

/// A directory of a commit: its entries, in the order of their names.
#[derive(Debug, PartialEq, Eq)]
pub struct Tree {
    pub entries: Vec<TreeEntry>,
}

/// The names of a list of entries.
pub open spec fn entry_names(entries: Seq<TreeEntry>) -> Seq<Seq<char>> {
    named::names(entries)
}

impl Tree {
    /// The names of the entries ascend.
    pub open spec fn wf(&self) -> bool {
        text::ascends(entry_names(self.entries@))
    }

    /// A tree of the given entries, unless their names do not ascend.
    pub fn new(entries: Vec<TreeEntry>) -> (r: Option<Self>)
        ensures
            match r {
                Some(tree) => tree.wf() && tree.entries == entries,
                None => !text::ascends(entry_names(entries@)),
            },
    {
        if named::is_ascending(&entries) {
            Some(Tree { entries })
        } else {
            None
        }
    }

    /// What the tree has under a name, if anything.
    pub open spec fn lookup(&self, name: Seq<char>) -> Option<TreeValue> {
        match entry_names(self.entries@).index_of_first(name) {
            Some(i) => Some(self.entries@[i].value),
            None => None,
        }
    }

    /// Looks up a name.
    pub fn value(&self, name: &str) -> (r: Option<&TreeValue>)
        ensures
            match r {
                Some(value) => self.lookup(name@) == Some(*value),
                None => self.lookup(name@) is None,
            },
    {
        match named::find(&self.entries, name) {
            Some(entry) => Some(&entry.value),
            None => None,
        }
    }
}

/// Each entry of a tree is found under its name.
pub proof fn lemma_entry_found(tree: Tree, i: int, name: &str, r: Option<&TreeValue>)
    requires
        tree.wf(),
        0 <= i < tree.entries@.len(),
        name@ == tree.entries@[i].name@,
        call_ensures(Tree::value, (&tree, name), r),
    ensures
        r matches Some(value) && *value == tree.entries@[i].value,
{
    lemma_lookup_entry(tree, i);
}

/// What the tree has under the name of an entry is that entry.
pub(crate) proof fn lemma_lookup_entry(tree: Tree, i: int)
    requires
        tree.wf(),
        0 <= i < tree.entries@.len(),
    ensures
        tree.lookup(tree.entries@[i].name@) == Some(tree.entries@[i].value),
{
    let names = entry_names(tree.entries@);
    text::lemma_ascends_distinct(names);
    assert(names[i] == tree.entries@[i].name@);
    assert(names.contains(names[i]));
    names.index_of_first_ensures(names[i]);
}

/// A name that no entry of a tree has is not found.
pub proof fn lemma_no_entry(tree: Tree, name: &str, r: Option<&TreeValue>)
    requires
        forall|i: int|
            0 <= i < tree.entries@.len() ==> (#[trigger] tree.entries@[i]).name@ != name@,
        call_ensures(Tree::value, (&tree, name), r),
    ensures
        r is None,
{
    let names = entry_names(tree.entries@);
    names.index_of_first_ensures(name@);
    if names.contains(name@) {
        let i = choose|i: int| 0 <= i < names.len() && names[i] == name@;
        assert(tree.entries@[i].name@ == name@);
    }
}

/// Entries make a tree exactly where each name comes before the next one.
pub proof fn lemma_tree_iff_ordered(entries: Vec<TreeEntry>, r: Option<Tree>)
    requires
        call_ensures(Tree::new, (entries,), r),
    ensures
        r is Some <==> forall|i: int, j: int|
            0 <= i < j < entries@.len() ==> text::text_lt(
                (#[trigger] entries@[i]).name@,
                (#[trigger] entries@[j]).name@,
            ),
        r matches Some(tree) ==> tree.entries@ == entries@,
{
    let names = entry_names(entries@);
    assert forall|i: int| 0 <= i < names.len() implies #[trigger] names[i] == entries@[i].name@ by {}
    if text::ascends(names) {
        assert forall|i: int, j: int| 0 <= i < j < entries@.len() implies text::text_lt(
            (#[trigger] entries@[i]).name@,
            (#[trigger] entries@[j]).name@,
        ) by {
            assert(text::text_lt(names[i], names[j]));
        }
    }
    if forall|i: int, j: int|
        0 <= i < j < entries@.len() ==> text::text_lt(
            (#[trigger] entries@[i]).name@,
            (#[trigger] entries@[j]).name@,
        ) {
        assert forall|i: int, j: int| 0 <= i < j < names.len() implies text::text_lt(
            #[trigger] names[i],
            #[trigger] names[j],
        ) by {
            assert(text::text_lt(entries@[i].name@, entries@[j].name@));
        }
    }
}

} // verus!
