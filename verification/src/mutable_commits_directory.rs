//! The directory of mutable commits.

use std::sync::Arc;

use vstd::prelude::*;
use vstd::utf8::*;

use crate::commit_id;
use crate::commit_id::CommitId;
use crate::commits_directory;
use crate::jj_error::{JjError, JjResult};
use crate::paths;
use crate::repo_view;
use crate::repo_view::RepoView;
use crate::revset;
use crate::revset::{History, Revset, RevsetView};
use crate::virtual_file;
use crate::virtual_file::{Answer, DirectoryEntry, FileAttributes, FileType, Query, VirtualFile};

verus! {

/// A directory that lists the mutable commits as symlinks to `<prefix_path>/<commit_id>`.
pub struct MutableCommitsDirectory {
    repo: Arc<RepoView>,
    prefix_path: String,
}

/// The commits that may not be rewritten: the immutable heads and their ancestors.
pub open spec fn immutable(repo: RepoView) -> RevsetView {
    RevsetView::Ancestors(Box::new(RevsetView::Commits(repo.heads())))
}

/// All commits but the immutable ones.
pub open spec fn mutable(repo: RepoView) -> RevsetView {
    RevsetView::Minus(Box::new(RevsetView::All), Box::new(immutable(repo)))
}

/// The given commit, unless it is immutable.
pub open spec fn if_mutable(repo: RepoView, commit_id: Seq<u8>) -> RevsetView {
    RevsetView::Minus(
        Box::new(RevsetView::Commits(seq![commit_id])),
        Box::new(immutable(repo)),
    )
}

/// A commit of the repository is listed exactly where it counts as mutable.
pub proof fn lemma_listed_iff_mutable(repo: RepoView, history: History, commit_id: Seq<u8>)
    requires
        history.contains_key(commit_id),
    ensures
        mutable(repo).members(history).contains(commit_id) <==> if_mutable(
            repo,
            commit_id,
        ).members(history) != Set::<Seq<u8>>::empty(),
{
    reveal_with_fuel(RevsetView::members, 4);
    let one = seq![commit_id];
    assert(one[0] == commit_id);
    assert(one.to_set().contains(commit_id));
    let rest = if_mutable(repo, commit_id).members(history);
    if mutable(repo).members(history).contains(commit_id) {
        assert(rest.contains(commit_id));
    } else {
        assert(rest =~= Set::empty());
    }
}

/// The root commit is immutable.
pub proof fn lemma_root_immutable(repo: RepoView, history: History)
    ensures
        !mutable(repo).members(history).contains(repo.root_commit_id@),
        if_mutable(repo, repo.root_commit_id@).members(history) == Set::<Seq<u8>>::empty(),
{
    lemma_head_immutable(repo, history, 0);
}

/// What a tag or a remote bookmark points to is immutable, as is the root commit.
pub proof fn lemma_head_immutable(repo: RepoView, history: History, i: int)
    requires
        0 <= i < repo.heads().len(),
    ensures
        !mutable(repo).members(history).contains(repo.heads()[i]),
        if_mutable(repo, repo.heads()[i]).members(history) == Set::<Seq<u8>>::empty(),
{
    reveal_with_fuel(RevsetView::members, 4);
    let head = repo.heads()[i];
    revset::lemma_ancestor_reflexive(history, head);
    assert(repo.heads().to_set().contains(head));
    assert(immutable(repo).members(history).contains(head));
    assert(if_mutable(repo, head).members(history) =~= Set::empty());
}

/// The ancestors of an immutable commit are immutable.
pub proof fn lemma_ancestor_immutable(
    repo: RepoView,
    history: History,
    commit_id: Seq<u8>,
    ancestor: Seq<u8>,
)
    requires
        history.contains_key(commit_id),
        !mutable(repo).members(history).contains(commit_id),
        revset::is_ancestor(history, ancestor, commit_id),
    ensures
        !mutable(repo).members(history).contains(ancestor),
{
    reveal_with_fuel(RevsetView::members, 4);
    revset::lemma_ancestors_closed(history, repo.heads().to_set(), commit_id, ancestor);
}

/// The immutable commits of a repository.
fn immutable_revset(repo: &RepoView) -> (r: Revset)
    ensures
        r@ == immutable(*repo),
{
    let heads = repo.immutable_heads();
    let commits = Revset::Commits(heads);
    assert(commits@ == RevsetView::Commits(repo.heads()));
    Revset::Ancestors(Box::new(commits))
}

impl MutableCommitsDirectory {
    /// The repository that the directory shows.
    pub closed spec fn repo(&self) -> RepoView {
        *self.repo
    }

    /// The path before the commit ids in the targets.
    pub closed spec fn prefix(&self) -> Seq<char> {
        self.prefix_path@
    }

    pub fn new(repo: Arc<RepoView>, prefix_path: String) -> (r: Self)
        ensures
            r.repo() == *repo,
            r.prefix() == prefix_path@,
    {
        MutableCommitsDirectory { repo, prefix_path }
    }

    /// The revset that is empty unless a commit is mutable.
    pub fn mutable_revset(repo: &RepoView, commit_id: &CommitId) -> (r: Revset)
        ensures
            r@ == if_mutable(*repo, commit_id@),
    {
        let mut ids: Vec<CommitId> = Vec::new();
        ids.push(commit_id.clone());
        assert(commit_id::id_views(ids@) =~= seq![commit_id@]);
        let commit = Revset::Commits(ids);
        assert(commit@ == RevsetView::Commits(seq![commit_id@]));
        Revset::Minus(Box::new(commit), Box::new(immutable_revset(repo)))
    }

    /// The revset that is empty unless a commit is mutable in the repository of the directory.
    pub fn revset_of(&self, commit_id: &CommitId) -> (r: Revset)
        ensures
            r@ == if_mutable(self.repo(), commit_id@),
    {
        Self::mutable_revset(&self.repo, commit_id)
    }

    /// Whether a commit is mutable, given whether its revset is empty or the message of the error
    /// in evaluating it. A commit that cannot be evaluated is not mutable.
    pub fn is_mutable(is_empty: Result<bool, String>) -> (r: JjResult<bool>)
        ensures
            r == Ok::<bool, JjError>(is_empty == Ok::<bool, String>(false)),
    {
        match is_empty {
            Ok(is_empty) => Ok(!is_empty),
            Err(_) => Ok(false),
        }
    }

    /// The symlink for a commit, given whether its revset is empty or the message of the error in
    /// evaluating it.
    pub fn get_symlink(&self, commit_id: &CommitId, is_empty: Result<bool, String>) -> (r: JjResult<
        MutableCommitSymlink,
    >)
        ensures
            if is_empty == Ok::<bool, String>(false) {
                r matches Ok(link) && link@ == paths::joined(
                    self.prefix(),
                    commit_id::hex_text(commit_id@),
                )
            } else {
                r == Err::<MutableCommitSymlink, _>(JjError::NotFound)
            },
    {
        match Self::is_mutable(is_empty) {
            Ok(true) => {
                let hex = commit_id.hex();
                Ok(MutableCommitSymlink::new(paths::join(self.prefix_path.as_str(), hex.as_str())))
            },
            Ok(false) => Err(JjError::NotFound),
            Err(error) => Err(error),
        }
    }

    /// Lists the directory, given what the repository answers for the revset of `list`: an error
    /// message, or the commits, each `None` where it could not be read.
    pub fn list_found(&self, found: Result<Vec<Option<CommitId>>, String>) -> (r: JjResult<
        Vec<DirectoryEntry>,
    >)
        ensures
            match found {
                Ok(found) => r matches Ok(entries) && virtual_file::entry_views(entries@)
                    == commits_directory::commit_entries(found@, FileType::Symlink),
                Err(message) => r == Err::<Vec<DirectoryEntry>, _>(
                    JjError::JjLibBackendError(message),
                ),
            },
    {
        match found {
            Ok(found) => Ok(commits_directory::list_commits(&found, FileType::Symlink)),
            Err(message) => Err(JjError::JjLibBackendError(message)),
        }
    }
}

impl VirtualFile for MutableCommitsDirectory {
    fn list(&self) -> (r: JjResult<Answer<Vec<DirectoryEntry>>>)
        ensures
            r matches Ok(Answer::Lookup(Query::Commits(set))) && set@ == mutable(self.repo()),
    {
        let removed = immutable_revset(&self.repo);
        let set = Revset::Minus(Box::new(Revset::All), Box::new(removed));
        assert(revset::revset_view(Revset::All) == RevsetView::All);
        Ok(Answer::Lookup(Query::Commits(set)))
    }

    fn attributes(&self) -> (r: JjResult<Answer<FileAttributes>>)
        ensures
            r matches Ok(Answer::Ready(attributes)) && attributes == virtual_file::timeless(
                0,
                FileType::Directory,
            ),
    {
        Ok(Answer::Ready(virtual_file::directory_attributes()))
    }

    fn file_type(&self) -> (r: JjResult<Answer<FileType>>)
        ensures
            r matches Ok(Answer::Ready(FileType::Directory)),
    {
        Ok(Answer::Ready(FileType::Directory))
    }
}

/// A symlink to a mutable commit.
pub struct MutableCommitSymlink {
    target: String,
}

impl View for MutableCommitSymlink {
    type V = Seq<char>;

    closed spec fn view(&self) -> Seq<char> {
        self.target@
    }
}

impl MutableCommitSymlink {
    pub fn new(target: String) -> (r: Self)
        ensures
            r@ == target@,
    {
        MutableCommitSymlink { target }
    }
}

impl VirtualFile for MutableCommitSymlink {
    fn read_link(&self) -> (r: JjResult<Answer<String>>)
        ensures
            r matches Ok(Answer::Ready(target)) && target@ == self@,
    {
        Ok(Answer::Ready(self.target.clone()))
    }

    fn attributes(&self) -> (r: JjResult<Answer<FileAttributes>>)
        ensures
            r matches Ok(Answer::Ready(attributes)) && attributes.size == virtual_file::link_size(
                self@,
            ) && attributes == virtual_file::timeless(attributes.size, FileType::Symlink),
    {
        Ok(Answer::Ready(virtual_file::link_attributes(self.target.as_str())))
    }

    fn file_type(&self) -> (r: JjResult<Answer<FileType>>)
        ensures
            r matches Ok(Answer::Ready(FileType::Symlink)),
    {
        Ok(Answer::Ready(FileType::Symlink))
    }
}

/// Whether a commit may not be rewritten: it is the root, or a commit that a tag or a remote bookmark
/// points to, or an ancestor of one of these.
pub open spec fn is_fixed(repo: RepoView, history: History, commit: Seq<u8>) -> bool {
    exists|head: Seq<u8>| #[trigger]
        repo_view::is_head(repo, head) && revset::is_ancestor(history, commit, head)
}

proof fn lemma_immutable_iff(repo: RepoView, history: History, commit: Seq<u8>)
    ensures
        immutable(repo).members(history).contains(commit) <==> is_fixed(repo, history, commit),
{
    reveal_with_fuel(RevsetView::members, 3);
    let heads = repo.heads();
    if immutable(repo).members(history).contains(commit) {
        let head = choose|head: Seq<u8>| #[trigger]
            heads.to_set().contains(head) && revset::is_ancestor(history, commit, head);
        assert(heads.contains(head));
        repo_view::lemma_heads_iff(repo, head);
    }
    if is_fixed(repo, history, commit) {
        let head = choose|head: Seq<u8>| #[trigger]
            repo_view::is_head(repo, head) && revset::is_ancestor(history, commit, head);
        repo_view::lemma_heads_iff(repo, head);
        assert(heads.contains(head));
        assert(heads.to_set().contains(head));
    }
}

/// The commits that are listed are all those of the repository, but for the root, the commits that
/// tags and remote bookmarks point to, and their ancestors.
pub proof fn lemma_listed_commits(
    directory: MutableCommitsDirectory,
    history: History,
    commit: Seq<u8>,
    r: JjResult<Answer<Vec<DirectoryEntry>>>,
)
    requires
        call_ensures(MutableCommitsDirectory::list, (&directory,), r),
    ensures
        r matches Ok(Answer::Lookup(Query::Commits(set))) && (set@.members(history).contains(commit)
            <==> history.contains_key(commit) && !is_fixed(directory.repo(), history, commit)),
{
    reveal_with_fuel(RevsetView::members, 2);
    lemma_immutable_iff(directory.repo(), history, commit);
}

/// The one commit of which is asked whether it is mutable remains where it is not fixed.
pub(crate) proof fn lemma_if_mutable_members(repo: RepoView, history: History, commit: Seq<u8>)
    ensures
        if_mutable(repo, commit).members(history) == (if is_fixed(repo, history, commit) {
            Set::<Seq<u8>>::empty()
        } else {
            set![commit]
        }),
{
    reveal_with_fuel(RevsetView::members, 2);
    lemma_immutable_iff(repo, history, commit);
    let one = seq![commit];
    assert(one[0] == commit);
    assert(one.contains(commit));
    assert(if_mutable(repo, commit).members(history) =~= (if is_fixed(repo, history, commit) {
        Set::<Seq<u8>>::empty()
    } else {
        set![commit]
    }));
}

/// The revset of a commit holds that commit alone, or nothing where the commit is the root, or one
/// that a tag or a remote bookmark points to, or an ancestor of one of these.
pub proof fn lemma_revset_of_commit(
    directory: MutableCommitsDirectory,
    history: History,
    commit_id: CommitId,
    set: Revset,
)
    requires
        call_ensures(MutableCommitsDirectory::revset_of, (&directory, &commit_id), set),
    ensures
        set@.members(history) == (if is_fixed(directory.repo(), history, commit_id@) {
            Set::<Seq<u8>>::empty()
        } else {
            set![commit_id@]
        }),
{
    lemma_if_mutable_members(directory.repo(), history, commit_id@);
}

/// No commit that any of the remote bookmarks points to is listed or has a symlink.
pub proof fn lemma_remote_bookmark_immutable(
    directory: MutableCommitsDirectory,
    history: History,
    i: int,
    commit_id: CommitId,
    listed: JjResult<Answer<Vec<DirectoryEntry>>>,
    set: Revset,
)
    requires
        0 <= i < directory.repo().remote_bookmarks@.len(),
        repo_view::points_to(directory.repo().remote_bookmarks@[i], commit_id@),
        call_ensures(MutableCommitsDirectory::list, (&directory,), listed),
        call_ensures(MutableCommitsDirectory::revset_of, (&directory, &commit_id), set),
    ensures
        listed matches Ok(Answer::Lookup(Query::Commits(all))) && !all@.members(history).contains(
            commit_id@,
        ),
        set@.members(history) == Set::<Seq<u8>>::empty(),
{
    revset::lemma_ancestor_reflexive(history, commit_id@);
    assert(repo_view::is_head(directory.repo(), commit_id@));
    lemma_listed_commits(directory, history, commit_id@, listed);
    lemma_revset_of_commit(directory, history, commit_id, set);
}

/// No commit that any of the tags points to is listed or has a symlink.
pub proof fn lemma_tag_immutable(
    directory: MutableCommitsDirectory,
    history: History,
    i: int,
    commit_id: CommitId,
    listed: JjResult<Answer<Vec<DirectoryEntry>>>,
    set: Revset,
)
    requires
        0 <= i < directory.repo().tags@.len(),
        repo_view::points_to(directory.repo().tags@[i], commit_id@),
        call_ensures(MutableCommitsDirectory::list, (&directory,), listed),
        call_ensures(MutableCommitsDirectory::revset_of, (&directory, &commit_id), set),
    ensures
        listed matches Ok(Answer::Lookup(Query::Commits(all))) && !all@.members(history).contains(
            commit_id@,
        ),
        set@.members(history) == Set::<Seq<u8>>::empty(),
{
    revset::lemma_ancestor_reflexive(history, commit_id@);
    assert(repo_view::is_head(directory.repo(), commit_id@));
    lemma_listed_commits(directory, history, commit_id@, listed);
    lemma_revset_of_commit(directory, history, commit_id, set);
}

/// A commit has a symlink exactly where its revset is known not to be empty, and the target is the
/// prefix with the id of the commit joined to it: its last segment reads as the id.
pub proof fn lemma_symlink_of_commit(
    directory: MutableCommitsDirectory,
    commit_id: CommitId,
    is_empty: Result<bool, String>,
    r: JjResult<MutableCommitSymlink>,
)
    requires
        commit_id@.len() > 0,
        call_ensures(MutableCommitsDirectory::get_symlink, (&directory, &commit_id, is_empty), r),
    ensures
        r is Ok <==> is_empty matches Ok(false),
        r matches Ok(link) ==> paths::segments(link@) == paths::segments(directory.prefix()).push(
            commit_id::hex_text(commit_id@),
        ) && commit_id::hex_bytes(paths::segments(link@).last()) == commit_id@,
        r matches Err(error) ==> error == JjError::NotFound,
{
    commit_id::lemma_hex_round_trip(commit_id@);
    commit_id::lemma_hex_plain(commit_id@);
    paths::lemma_segments_joined(directory.prefix(), commit_id::hex_text(commit_id@));
}

/// A commit is mutable exactly where its revset is known not to be empty.
pub proof fn lemma_mutable_iff_not_empty(is_empty: Result<bool, String>, r: JjResult<bool>)
    requires
        call_ensures(MutableCommitsDirectory::is_mutable, (is_empty,), r),
    ensures
        r matches Ok(mutable) && (mutable <==> is_empty matches Ok(false)),
{
}

/// What is found in two parts is listed as the first part and then the second. One commit is listed
/// as a symlink with its id, and one that could not be read is not listed.
pub proof fn lemma_list_by_parts(
    directory: MutableCommitsDirectory,
    first: Vec<Option<CommitId>>,
    second: Vec<Option<CommitId>>,
    whole: Vec<Option<CommitId>>,
    listed_first: JjResult<Vec<DirectoryEntry>>,
    listed_second: JjResult<Vec<DirectoryEntry>>,
    listed: JjResult<Vec<DirectoryEntry>>,
)
    requires
        whole@ == first@ + second@,
        call_ensures(MutableCommitsDirectory::list_found, (&directory, Ok(first)), listed_first),
        call_ensures(MutableCommitsDirectory::list_found, (&directory, Ok(second)), listed_second),
        call_ensures(MutableCommitsDirectory::list_found, (&directory, Ok(whole)), listed),
    ensures
        listed_first matches Ok(a) && listed_second matches Ok(b) && listed matches Ok(all)
            && virtual_file::entry_views(all@) == virtual_file::entry_views(a@)
            + virtual_file::entry_views(b@),
        second@.len() == 1 ==> match second@[0] {
            Some(id) => listed_second->Ok_0@.len() == 1 && listed_second->Ok_0@[0].name@
                == commit_id::hex_text(id@) && listed_second->Ok_0@[0].file_type
                == FileType::Symlink,
            None => listed_second->Ok_0@.len() == 0,
        },
{
    commits_directory::lemma_entries_append(first@, second@, FileType::Symlink);
    if second@.len() == 1 {
        assert(second@ =~= seq![second@[0]]);
        commits_directory::lemma_entries_single(second@[0], FileType::Symlink);
        let views = virtual_file::entry_views(listed_second->Ok_0@);
        assert(views.len() == listed_second->Ok_0@.len());
        if second@[0] is Some {
            assert(views[0] == listed_second->Ok_0@[0]@);
        }
    }
}

/// A symlink leads to the target that it was made of, and has as many bytes. It can be followed alone.
pub proof fn lemma_symlink_target(
    target: String,
    symlink: MutableCommitSymlink,
    content: JjResult<Answer<Vec<u8>>>,
    listed: JjResult<Answer<Vec<DirectoryEntry>>>,
    link: JjResult<Answer<String>>,
    attributes: JjResult<Answer<FileAttributes>>,
    kind: JjResult<Answer<FileType>>,
)
    requires
        call_ensures(MutableCommitSymlink::new, (target,), symlink),
        call_ensures(MutableCommitSymlink::read, (&symlink,), content),
        call_ensures(MutableCommitSymlink::list, (&symlink,), listed),
        call_ensures(MutableCommitSymlink::read_link, (&symlink,), link),
        call_ensures(MutableCommitSymlink::attributes, (&symlink,), attributes),
        call_ensures(MutableCommitSymlink::file_type, (&symlink,), kind),
    ensures
        symlink@ == target@,
        link matches Ok(Answer::Ready(found)) && found@ == target@,
        content == Err::<Answer<Vec<u8>>, _>(JjError::NotAFile),
        listed == Err::<Answer<Vec<DirectoryEntry>>, _>(JjError::NotADirectory),
        kind matches Ok(Answer::Ready(FileType::Symlink)),
        attributes matches Ok(Answer::Ready(a)) && a.file_type == FileType::Symlink && a.size
            == encode_utf8(target@).len() && a.created == 0 && a.modified == 0,
{
}

/// A directory shows the repository that it was made of, below the prefix that it was given.
pub proof fn lemma_new_directory(
    repo: Arc<RepoView>,
    prefix_path: String,
    directory: MutableCommitsDirectory,
)
    requires
        call_ensures(MutableCommitsDirectory::new, (repo, prefix_path), directory),
    ensures
        directory.repo() == *repo,
        directory.prefix() == prefix_path@,
{
}

/// The message of an error in finding the commits is handed on.
pub proof fn lemma_list_error(
    directory: MutableCommitsDirectory,
    message: String,
    r: JjResult<Vec<DirectoryEntry>>,
)
    requires
        call_ensures(MutableCommitsDirectory::list_found, (&directory, Err(message)), r),
    ensures
        r == Err::<Vec<DirectoryEntry>, _>(JjError::JjLibBackendError(message)),
{
}

} // verus!
