//! What a repository shows at one operation: its workspaces, bookmarks and tags.

use jj_lib::merge::Merge;
use vstd::prelude::*;

use crate::commit_id;
use crate::commit_id::CommitId;
use crate::merge;
use crate::named;
use crate::named::Named;
use crate::text;

verus! {

/// Where a bookmark or a tag points to: one commit, none, or several where it is conflicted.
#[derive(Debug, PartialEq, Eq)]
pub struct RefTarget {
    pub merge: Merge<Option<CommitId>>,
}

/// The commit that a workspace has checked out.
#[derive(Debug, PartialEq, Eq)]
pub struct WorkspaceCommit {
    pub name: String,
    pub commit_id: CommitId,
}

impl Named for WorkspaceCommit {
    open spec fn spec_name(&self) -> Seq<char> {
        self.name@
    }

    fn name(&self) -> &str {
        self.name.as_str()
    }
}

/// A local bookmark.
#[derive(Debug, PartialEq, Eq)]
pub struct Bookmark {
    pub name: String,
    pub target: RefTarget,
}

impl Named for Bookmark {
    open spec fn spec_name(&self) -> Seq<char> {
        self.name@
    }

    fn name(&self) -> &str {
        self.name.as_str()
    }
}

/// The state of a repository at one operation.
#[derive(Debug, PartialEq, Eq)]
pub struct RepoView {
    pub root_commit_id: CommitId,
    /// The workspaces, in the order of their names.
    pub wc_commit_ids: Vec<WorkspaceCommit>,
    /// The local bookmarks, in the order of their names.
    pub local_bookmarks: Vec<Bookmark>,
    /// The local targets of the tags.
    pub tags: Vec<RefTarget>,
    /// The targets of the bookmarks of all remotes.
    pub remote_bookmarks: Vec<RefTarget>,
}

/// The added terms of a merge: every second one, from the first on.
pub open spec fn added_terms(terms: Seq<Option<CommitId>>) -> Seq<Option<CommitId>> {
    Seq::new((terms.len() + 1) / 2, |i: int| terms[2 * i])
}

impl RefTarget {
    /// The one commit that the target points to, unless it is conflicted or points nowhere.
    pub open spec fn normal_id(&self) -> Option<Seq<u8>> {
        let terms = merge::id_terms(self.merge);
        if terms.len() == 1 && terms[0] is Some {
            Some(terms[0]->0@)
        } else {
            None
        }
    }

    /// The commits that the target points to, more than one where it is conflicted.
    pub open spec fn added(&self) -> Seq<Seq<u8>> {
        commit_id::present_ids(added_terms(merge::id_terms(self.merge)))
    }

    /// The one commit that the target points to, unless it is conflicted or points nowhere.
    pub fn as_normal(&self) -> (r: Option<&CommitId>)
        ensures
            match r {
                Some(id) => self.normal_id() == Some(id@),
                None => self.normal_id() is None,
            },
    {
        match merge::resolved_id(&self.merge) {
            Some(Some(id)) => Some(id),
            _ => None,
        }
    }

    /// The commits that the target points to, more than one where it is conflicted.
    pub fn added_ids(&self) -> (r: Vec<CommitId>)
        ensures
            commit_id::id_views(r@) == self.added(),
    {
        let adds = merge::added_ids(&self.merge);
        let ghost terms = added_terms(merge::id_terms(self.merge));
        let mut ids: Vec<CommitId> = Vec::new();
        let mut i: usize = 0;
        while i < adds.len()
            invariant
                i <= adds@.len(),
                adds@.len() == terms.len(),
                forall|j: int| 0 <= j < adds@.len() ==> *#[trigger] adds@[j] == terms[j],
                commit_id::id_views(ids@) == commit_id::present_ids(terms.take(i as int)),
            decreases adds@.len() - i,
        {
            let ghost before = ids@;
            match adds[i] {
                Some(id) => {
                    ids.push(id.clone());
                },
                None => {},
            }
            proof {
                assert(*adds@[i as int] == terms[i as int]);
                assert(terms.take(i + 1).drop_last() =~= terms.take(i as int));
                assert(commit_id::id_views(ids@) =~= commit_id::id_views(before) + commit_id::present(
                    terms[i as int],
                ));
            }
            i = i + 1;
        }
        assert(terms.take(i as int) =~= terms);
        ids
    }
}

/// The names of a list of workspaces.
pub open spec fn workspace_names(workspaces: Seq<WorkspaceCommit>) -> Seq<Seq<char>> {
    named::names(workspaces)
}

/// The names of a list of bookmarks.
pub open spec fn bookmark_names(bookmarks: Seq<Bookmark>) -> Seq<Seq<char>> {
    named::names(bookmarks)
}

/// The commits that a list of targets point to.
pub open spec fn all_added(targets: Seq<RefTarget>) -> Seq<Seq<u8>>
    decreases targets.len(),
{
    if targets.len() == 0 {
        Seq::empty()
    } else {
        all_added(targets.drop_last()) + targets.last().added()
    }
}

impl RepoView {
    /// The names of the workspaces and those of the local bookmarks ascend, so each occurs once.
    pub open spec fn wf(&self) -> bool {
        &&& text::ascends(workspace_names(self.wc_commit_ids@))
        &&& text::ascends(bookmark_names(self.local_bookmarks@))
    }

    /// A state of the given parts, unless the names of the workspaces or those of the bookmarks do
    /// not ascend.
    pub fn new(
        root_commit_id: CommitId,
        wc_commit_ids: Vec<WorkspaceCommit>,
        local_bookmarks: Vec<Bookmark>,
        tags: Vec<RefTarget>,
        remote_bookmarks: Vec<RefTarget>,
    ) -> (r: Option<Self>)
        ensures
            match r {
                Some(repo) => repo.wf() && repo == (RepoView {
                    root_commit_id,
                    wc_commit_ids,
                    local_bookmarks,
                    tags,
                    remote_bookmarks,
                }),
                None => !text::ascends(workspace_names(wc_commit_ids@)) || !text::ascends(
                    bookmark_names(local_bookmarks@),
                ),
            },
    {
        if named::is_ascending(&wc_commit_ids) && named::is_ascending(&local_bookmarks) {
            Some(
                RepoView {
                    root_commit_id,
                    wc_commit_ids,
                    local_bookmarks,
                    tags,
                    remote_bookmarks,
                },
            )
        } else {
            None
        }
    }

    /// The commit that a workspace has checked out.
    pub open spec fn wc_commit_id(&self, name: Seq<char>) -> Option<Seq<u8>> {
        match workspace_names(self.wc_commit_ids@).index_of_first(name) {
            Some(i) => Some(self.wc_commit_ids@[i].commit_id@),
            None => None,
        }
    }

    /// The one commit that a local bookmark points to, unless it is missing, conflicted or points
    /// nowhere.
    pub open spec fn bookmark_commit_id(&self, name: Seq<char>) -> Option<Seq<u8>> {
        match bookmark_names(self.local_bookmarks@).index_of_first(name) {
            Some(i) => self.local_bookmarks@[i].target.normal_id(),
            None => None,
        }
    }

    /// The commits that are immutable together with their ancestors: the root, and what tags and
    /// remote bookmarks point to.
    pub open spec fn heads(&self) -> Seq<Seq<u8>> {
        seq![self.root_commit_id@] + all_added(self.tags@) + all_added(self.remote_bookmarks@)
    }

    /// The commit that a workspace has checked out.
    pub fn get_wc_commit_id(&self, name: &str) -> (r: Option<&CommitId>)
        ensures
            match r {
                Some(id) => self.wc_commit_id(name@) == Some(id@),
                None => self.wc_commit_id(name@) is None,
            },
    {
        match named::find(&self.wc_commit_ids, name) {
            Some(workspace) => Some(&workspace.commit_id),
            None => None,
        }
    }

    /// The one commit that a local bookmark points to, unless it is missing, conflicted or points
    /// nowhere.
    pub fn get_bookmark_commit_id(&self, name: &str) -> (r: Option<&CommitId>)
        ensures
            match r {
                Some(id) => self.bookmark_commit_id(name@) == Some(id@),
                None => self.bookmark_commit_id(name@) is None,
            },
    {
        match named::find(&self.local_bookmarks, name) {
            Some(bookmark) => bookmark.target.as_normal(),
            None => None,
        }
    }

    /// The commits that are immutable together with their ancestors: the root, and what tags and
    /// remote bookmarks point to.
    pub fn immutable_heads(&self) -> (r: Vec<CommitId>)
        ensures
            commit_id::id_views(r@) == self.heads(),
    {
        let mut ids: Vec<CommitId> = Vec::new();
        ids.push(self.root_commit_id.clone());
        assert(commit_id::id_views(ids@) =~= seq![self.root_commit_id@]);
        push_added(&mut ids, &self.tags);
        push_added(&mut ids, &self.remote_bookmarks);
        ids
    }
}

/// Appends the commits that a list of targets point to.
fn push_added(ids: &mut Vec<CommitId>, targets: &Vec<RefTarget>)
    ensures
        commit_id::id_views(final(ids)@) == commit_id::id_views(old(ids)@) + all_added(targets@),
{
    let ghost before = ids@;
    let mut i: usize = 0;
    assert(commit_id::id_views(ids@) =~= commit_id::id_views(before) + all_added(targets@.take(0)));
    while i < targets.len()
        invariant
            i <= targets@.len(),
            commit_id::id_views(ids@) == commit_id::id_views(before) + all_added(targets@.take(i as int)),
        decreases targets@.len() - i,
    {
        let mut added = targets[i].added_ids();
        let ghost sofar = ids@;
        let ghost more = added@;
        ids.append(&mut added);
        proof {
            assert(ids@ =~= sofar + more);
            assert(commit_id::id_views(ids@) =~= commit_id::id_views(sofar) + commit_id::id_views(more));
            assert(targets@.take(i + 1).drop_last() =~= targets@.take(i as int));
            assert(targets@.take(i + 1).last() == targets@[i as int]);
            assert(commit_id::id_views(ids@) =~= commit_id::id_views(before) + all_added(
                targets@.take(i + 1),
            ));
        }
        i = i + 1;
    }
    assert(targets@.take(i as int) =~= targets@);
}

/// Whether a target points to a commit: the commit is one of the added terms, those at even places.
pub open spec fn points_to(target: RefTarget, commit: Seq<u8>) -> bool {
    let terms = merge::id_terms(target.merge);
    exists|k: int|
        0 <= k < terms.len() && k % 2 == 0 && (#[trigger] terms[k]) is Some && terms[k]->0@ == commit
}

/// Whether a commit is the root, or a tag or a remote bookmark points to it.
pub open spec fn is_head(repo: RepoView, commit: Seq<u8>) -> bool {
    ||| commit == repo.root_commit_id@
    ||| exists|i: int| 0 <= i < repo.tags@.len() && points_to(#[trigger] repo.tags@[i], commit)
    ||| exists|i: int|
        0 <= i < repo.remote_bookmarks@.len() && points_to(
            #[trigger] repo.remote_bookmarks@[i],
            commit,
        )
}

proof fn lemma_added_iff(target: RefTarget, commit: Seq<u8>)
    ensures
        target.added().contains(commit) <==> points_to(target, commit),
{
    let terms = merge::id_terms(target.merge);
    let adds = added_terms(terms);
    commit_id::lemma_present_iff_term(adds, commit);
    if target.added().contains(commit) {
        let i = choose|i: int|
            0 <= i < adds.len() && (#[trigger] adds[i]) is Some && adds[i]->0@ == commit;
        assert(terms[2 * i] == adds[i]);
        assert((2 * i) % 2 == 0);
    }
    if points_to(target, commit) {
        let k = choose|k: int|
            0 <= k < terms.len() && k % 2 == 0 && (#[trigger] terms[k]) is Some && terms[k]->0@
                == commit;
        assert(2 * (k / 2) == k);
        assert(adds[k / 2] == terms[k]);
    }
}

/// The commits of a target are those that it points to, and no others.
pub proof fn lemma_added_ids(target: RefTarget, commit: Seq<u8>, r: Vec<CommitId>)
    requires
        call_ensures(RefTarget::added_ids, (&target,), r),
    ensures
        (exists|i: int| 0 <= i < r@.len() && (#[trigger] r@[i])@ == commit) <==> points_to(
            target,
            commit,
        ),
{
    lemma_added_iff(target, commit);
    lemma_views_contain(r@, commit);
}

proof fn lemma_views_contain(ids: Seq<CommitId>, commit: Seq<u8>)
    ensures
        (exists|i: int| 0 <= i < ids.len() && (#[trigger] ids[i])@ == commit)
            <==> commit_id::id_views(ids).contains(commit),
{
    let views = commit_id::id_views(ids);
    if views.contains(commit) {
        let i = choose|i: int| 0 <= i < views.len() && views[i] == commit;
        assert(ids[i]@ == commit);
    }
    if exists|i: int| 0 <= i < ids.len() && (#[trigger] ids[i])@ == commit {
        let i = choose|i: int| 0 <= i < ids.len() && (#[trigger] ids[i])@ == commit;
        assert(views[i] == commit);
    }
}

/// A target has a commit of its own exactly where it has one term, and that term is a commit.
pub proof fn lemma_normal_target(target: RefTarget, r: Option<&CommitId>)
    requires
        call_ensures(RefTarget::as_normal, (&target,), r),
    ensures
        r is Some <==> merge::id_terms(target.merge).len() == 1 && merge::id_terms(
            target.merge,
        )[0] is Some,
        r matches Some(id) ==> merge::id_terms(target.merge)[0]->0@ == id@,
{
}

proof fn lemma_all_added_iff(targets: Seq<RefTarget>, commit: Seq<u8>)
    ensures
        all_added(targets).contains(commit) <==> exists|i: int|
            0 <= i < targets.len() && points_to(#[trigger] targets[i], commit),
    decreases targets.len(),
{
    if targets.len() > 0 {
        let front = targets.drop_last();
        lemma_all_added_iff(front, commit);
        lemma_added_iff(targets.last(), commit);
        lemma_contains_either(all_added(front), targets.last().added(), commit);
        if all_added(front).contains(commit) {
            let i = choose|i: int| 0 <= i < front.len() && points_to(#[trigger] front[i], commit);
            assert(targets[i] == front[i]);
        }
        if targets.last().added().contains(commit) {
            assert(points_to(targets[targets.len() - 1], commit));
        }
        if exists|i: int| 0 <= i < targets.len() && points_to(#[trigger] targets[i], commit) {
            let i = choose|i: int| 0 <= i < targets.len() && points_to(#[trigger] targets[i], commit);
            if i < front.len() {
                assert(front[i] == targets[i]);
            }
        }
    }
}

proof fn lemma_contains_either(a: Seq<Seq<u8>>, b: Seq<Seq<u8>>, x: Seq<u8>)
    ensures
        (a + b).contains(x) <==> a.contains(x) || b.contains(x),
{
    let all = a + b;
    if a.contains(x) {
        let i = choose|i: int| 0 <= i < a.len() && a[i] == x;
        assert(all[i] == x);
    }
    if b.contains(x) {
        let i = choose|i: int| 0 <= i < b.len() && b[i] == x;
        assert(all[a.len() + i] == x);
    }
    if all.contains(x) {
        let i = choose|i: int| 0 <= i < all.len() && all[i] == x;
        if i < a.len() {
            assert(a[i] == x);
        } else {
            assert(b[i - a.len()] == x);
        }
    }
}

/// The heads are the root and every commit that any of the tags or remote bookmarks points to.
pub(crate) proof fn lemma_heads_iff(repo: RepoView, commit: Seq<u8>)
    ensures
        repo.heads().contains(commit) <==> is_head(repo, commit),
{
    let root = seq![repo.root_commit_id@];
    lemma_all_added_iff(repo.tags@, commit);
    lemma_all_added_iff(repo.remote_bookmarks@, commit);
    lemma_contains_either(root, all_added(repo.tags@), commit);
    lemma_contains_either(
        root + all_added(repo.tags@),
        all_added(repo.remote_bookmarks@),
        commit,
    );
    assert(root[0] == repo.root_commit_id@);
}

/// The immutable heads are the root and every commit that any of the tags or remote bookmarks points
/// to, and no others.
pub proof fn lemma_immutable_heads(repo: RepoView, commit: Seq<u8>, r: Vec<CommitId>)
    requires
        call_ensures(RepoView::immutable_heads, (&repo,), r),
    ensures
        (exists|i: int| 0 <= i < r@.len() && (#[trigger] r@[i])@ == commit) <==> is_head(
            repo,
            commit,
        ),
{
    lemma_heads_iff(repo, commit);
    lemma_views_contain(r@, commit);
}

/// The commit of each workspace is found under the name of that workspace.
pub proof fn lemma_workspace_commit(repo: RepoView, i: int, name: &str, r: Option<&CommitId>)
    requires
        repo.wf(),
        0 <= i < repo.wc_commit_ids@.len(),
        name@ == repo.wc_commit_ids@[i].name@,
        call_ensures(RepoView::get_wc_commit_id, (&repo, name), r),
    ensures
        r matches Some(id) && id@ == repo.wc_commit_ids@[i].commit_id@,
{
    let names = workspace_names(repo.wc_commit_ids@);
    text::lemma_ascends_distinct(names);
    assert(names[i] == name@);
    assert(names.contains(name@));
    names.index_of_first_ensures(name@);
}

/// A name that no workspace has gives no commit.
pub proof fn lemma_no_workspace(repo: RepoView, name: &str, r: Option<&CommitId>)
    requires
        forall|i: int|
            0 <= i < repo.wc_commit_ids@.len() ==> (#[trigger] repo.wc_commit_ids@[i]).name@ != name@,
        call_ensures(RepoView::get_wc_commit_id, (&repo, name), r),
    ensures
        r is None,
{
    let names = workspace_names(repo.wc_commit_ids@);
    names.index_of_first_ensures(name@);
    if names.contains(name@) {
        let i = choose|i: int| 0 <= i < names.len() && names[i] == name@;
        assert(repo.wc_commit_ids@[i].name@ == name@);
    }
}

/// The commit of each local bookmark is found under its name, exactly where its target has one term
/// and that term is a commit.
pub proof fn lemma_bookmark_commit(repo: RepoView, i: int, name: &str, r: Option<&CommitId>)
    requires
        repo.wf(),
        0 <= i < repo.local_bookmarks@.len(),
        name@ == repo.local_bookmarks@[i].name@,
        call_ensures(RepoView::get_bookmark_commit_id, (&repo, name), r),
    ensures
        ({
            let terms = merge::id_terms(repo.local_bookmarks@[i].target.merge);
            if terms.len() == 1 && terms[0] is Some {
                r matches Some(id) && id@ == terms[0]->0@
            } else {
                r is None
            }
        }),
{
    let names = bookmark_names(repo.local_bookmarks@);
    text::lemma_ascends_distinct(names);
    assert(names[i] == name@);
    assert(names.contains(name@));
    names.index_of_first_ensures(name@);
}

/// A name that no local bookmark has gives no commit.
pub proof fn lemma_no_bookmark(repo: RepoView, name: &str, r: Option<&CommitId>)
    requires
        forall|i: int|
            0 <= i < repo.local_bookmarks@.len() ==> (#[trigger] repo.local_bookmarks@[i]).name@
                != name@,
        call_ensures(RepoView::get_bookmark_commit_id, (&repo, name), r),
    ensures
        r is None,
{
    let names = bookmark_names(repo.local_bookmarks@);
    names.index_of_first_ensures(name@);
    if names.contains(name@) {
        let i = choose|i: int| 0 <= i < names.len() && names[i] == name@;
        assert(repo.local_bookmarks@[i].name@ == name@);
    }
}

/// Parts make a state exactly where the names of the workspaces and those of the bookmarks each come
/// before the next one, and then the state is of those parts.
pub proof fn lemma_new_view(
    root_commit_id: CommitId,
    wc_commit_ids: Vec<WorkspaceCommit>,
    local_bookmarks: Vec<Bookmark>,
    tags: Vec<RefTarget>,
    remote_bookmarks: Vec<RefTarget>,
    r: Option<RepoView>,
)
    requires
        call_ensures(
            RepoView::new,
            (root_commit_id, wc_commit_ids, local_bookmarks, tags, remote_bookmarks),
            r,
        ),
    ensures
        r is Some <==> (forall|i: int, j: int|
            0 <= i < j < wc_commit_ids@.len() ==> text::text_lt(
                (#[trigger] wc_commit_ids@[i]).name@,
                (#[trigger] wc_commit_ids@[j]).name@,
            )) && forall|i: int, j: int|
            0 <= i < j < local_bookmarks@.len() ==> text::text_lt(
                (#[trigger] local_bookmarks@[i]).name@,
                (#[trigger] local_bookmarks@[j]).name@,
            ),
        r matches Some(repo) ==> repo.wf() && repo.root_commit_id == root_commit_id
            && repo.wc_commit_ids == wc_commit_ids && repo.local_bookmarks == local_bookmarks
            && repo.tags == tags && repo.remote_bookmarks == remote_bookmarks,
{
    let workspaces = workspace_names(wc_commit_ids@);
    let bookmarks = bookmark_names(local_bookmarks@);
    assert(forall|i: int|
        0 <= i < workspaces.len() ==> #[trigger] workspaces[i] == wc_commit_ids@[i].name@);
    assert(forall|i: int|
        0 <= i < bookmarks.len() ==> #[trigger] bookmarks[i] == local_bookmarks@[i].name@);
    if text::ascends(workspaces) {
        assert forall|i: int, j: int| 0 <= i < j < wc_commit_ids@.len() implies text::text_lt(
            (#[trigger] wc_commit_ids@[i]).name@,
            (#[trigger] wc_commit_ids@[j]).name@,
        ) by {
            assert(text::text_lt(workspaces[i], workspaces[j]));
        }
    } else {
        let (i, j) = choose|i: int, j: int|
            0 <= i < j < workspaces.len() && !text::text_lt(
                #[trigger] workspaces[i],
                #[trigger] workspaces[j],
            );
        assert(!text::text_lt(wc_commit_ids@[i].name@, wc_commit_ids@[j].name@));
    }
    if text::ascends(bookmarks) {
        assert forall|i: int, j: int| 0 <= i < j < local_bookmarks@.len() implies text::text_lt(
            (#[trigger] local_bookmarks@[i]).name@,
            (#[trigger] local_bookmarks@[j]).name@,
        ) by {
            assert(text::text_lt(bookmarks[i], bookmarks[j]));
        }
    } else {
        let (i, j) = choose|i: int, j: int|
            0 <= i < j < bookmarks.len() && !text::text_lt(
                #[trigger] bookmarks[i],
                #[trigger] bookmarks[j],
            );
        assert(!text::text_lt(local_bookmarks@[i].name@, local_bookmarks@[j].name@));
    }
}

} // verus!
