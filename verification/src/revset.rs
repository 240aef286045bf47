//! Sets of commits, written as expressions over the commits of a repository.

use vstd::prelude::*;

use crate::commit_id;
use crate::commit_id::CommitId;

verus! {

/// An expression for a set of commits.
#[derive(Debug, PartialEq, Eq)]
pub enum Revset {
    /// Every commit of the repository.
    All,
    /// The commits with the given ids.
    Commits(Vec<CommitId>),
    /// The commits of a set and all their ancestors.
    Ancestors(Box<Revset>),
    /// The commits of the first set that are not in the second.
    Minus(Box<Revset>, Box<Revset>),
}

/// A revset with its ids as byte sequences.
pub enum RevsetView {
    All,
    Commits(Seq<Seq<u8>>),
    Ancestors(Box<RevsetView>),
    Minus(Box<RevsetView>, Box<RevsetView>),
}

/// The parents of each commit of a repository.
pub type History = Map<Seq<u8>, Seq<Seq<u8>>>;

/// Whether a commit is reached from another by going to a parent a given number of times.
pub open spec fn is_reached(history: History, from: Seq<u8>, to: Seq<u8>, steps: nat) -> bool
    decreases steps,
{
    if steps == 0 {
        from == to
    } else {
        &&& history.contains_key(from)
        &&& exists|parent: Seq<u8>| #[trigger]
            history[from].contains(parent) && is_reached(history, parent, to, (steps - 1) as nat)
    }
}

/// Whether a commit is another commit or one of its ancestors.
pub open spec fn is_ancestor(history: History, ancestor: Seq<u8>, commit: Seq<u8>) -> bool {
    exists|steps: nat| is_reached(history, commit, ancestor, steps)
}

/// A revset as its view.
pub open spec fn revset_view(set: Revset) -> RevsetView
    decreases set,
{
    match set {
        Revset::All => RevsetView::All,
        Revset::Commits(ids) => RevsetView::Commits(commit_id::id_views(ids@)),
        Revset::Ancestors(heads) => RevsetView::Ancestors(Box::new(revset_view(*heads))),
        Revset::Minus(kept, removed) => RevsetView::Minus(
            Box::new(revset_view(*kept)),
            Box::new(revset_view(*removed)),
        ),
    }
}

impl View for Revset {
    type V = RevsetView;

    open spec fn view(&self) -> RevsetView {
        revset_view(*self)
    }
}

/// The ancestors of the commits of a set.
pub open spec fn ancestors(history: History, heads: Set<Seq<u8>>) -> Set<Seq<u8>> {
    Set::new(
        |commit: Seq<u8>|
            exists|head: Seq<u8>| #[trigger]
                heads.contains(head) && is_ancestor(history, commit, head),
    )
}

impl RevsetView {
    /// The commits in the set, given the history of the repository.
    pub open spec fn members(self, history: History) -> Set<Seq<u8>>
        decreases self,
    {
        match self {
            RevsetView::All => history.dom(),
            RevsetView::Commits(ids) => ids.to_set(),
            RevsetView::Ancestors(heads) => ancestors(history, heads.members(history)),
            RevsetView::Minus(kept, removed) => kept.members(history).difference(
                removed.members(history),
            ),
        }
    }
}

/// Every commit counts among its own ancestors.
pub proof fn lemma_ancestor_reflexive(history: History, commit: Seq<u8>)
    ensures
        is_ancestor(history, commit, commit),
{
    assert(is_reached(history, commit, commit, 0));
}

/// The ancestors of an ancestor are ancestors.
pub proof fn lemma_ancestor_transitive(history: History, a: Seq<u8>, b: Seq<u8>, c: Seq<u8>)
    requires
        is_ancestor(history, a, b),
        is_ancestor(history, b, c),
    ensures
        is_ancestor(history, a, c),
{
    let first = choose|steps: nat| is_reached(history, c, b, steps);
    let second = choose|steps: nat| is_reached(history, b, a, steps);
    lemma_reached_further(history, a, b, c, first, second);
}

proof fn lemma_reached_further(
    history: History,
    a: Seq<u8>,
    b: Seq<u8>,
    c: Seq<u8>,
    first: nat,
    second: nat,
)
    requires
        is_reached(history, c, b, first),
        is_reached(history, b, a, second),
    ensures
        is_reached(history, c, a, first + second),
    decreases first,
{
    if first > 0 {
        let parent = choose|parent: Seq<u8>| #[trigger]
            history[c].contains(parent) && is_reached(history, parent, b, (first - 1) as nat);
        lemma_reached_further(history, a, b, parent, (first - 1) as nat, second);
        assert(history[c].contains(parent));
        assert((first + second - 1) as nat == (first - 1) as nat + second);
    }
}

/// The ancestors of a set hold the ancestors of each commit in them.
pub proof fn lemma_ancestors_closed(
    history: History,
    heads: Set<Seq<u8>>,
    commit: Seq<u8>,
    ancestor: Seq<u8>,
)
    requires
        ancestors(history, heads).contains(commit),
        is_ancestor(history, ancestor, commit),
    ensures
        ancestors(history, heads).contains(ancestor),
{
    let head = choose|head: Seq<u8>| #[trigger]
        heads.contains(head) && is_ancestor(history, commit, head);
    lemma_ancestor_transitive(history, ancestor, commit, head);
}

} // verus!
