//! A layout with directories for commits, mutable commits, workspaces and bookmarks.

use std::sync::Arc;

use vstd::prelude::*;
use vstd::string::*;
use vstd::utf8::*;

use crate::bookmarks_directory::{BookmarkSymlink, BookmarksDirectory};
use crate::commit_id;
use crate::commit_id::CommitId;
use crate::commits_directory::CommitsDirectory;
use crate::jj_error::{JjError, JjResult};
use crate::merge;
use crate::mutable_commits_directory;
use crate::mutable_commits_directory::{MutableCommitSymlink, MutableCommitsDirectory};
use crate::path_mapper::PathMapper;
use crate::paths;
use crate::repo_path;
use crate::repo_view;
use crate::repo_view::RepoView;
use crate::revset::History;
use crate::static_directory::StaticDirectory;
use crate::text;
use crate::virtual_file;
use crate::virtual_file::{
    Answer, CreateFile, DirectoryEntry, EntryView, FileAttributes, FileType, Found, Query,
    VirtualFile,
};
use crate::workspaces_directory::WorkspacesDirectory;

verus! {

/// The layout of the filesystem at one state of the repository.
pub struct AllCommitsPathMapper {
    repo: Arc<RepoView>,
}

impl View for AllCommitsPathMapper {
    type V = RepoView;

    closed spec fn view(&self) -> RepoView {
        *self.repo
    }
}

/// What is at a path.
///
/// A path in a commit's tree is not resolved before the commit is loaded, nor the link of a commit
/// before the commit is known to be mutable: such an entry answers every request with the lookup
/// that resolves it.
pub enum Entry {
    Root(StaticDirectory),
    Commits(CommitsDirectory),
    Workspaces(WorkspacesDirectory),
    MutableCommits(MutableCommitsDirectory),
    Bookmarks(BookmarksDirectory),
    Bookmark(BookmarkSymlink),
    /// A path of a commit, which becomes a `CommitTreeFile`.
    CommitTree { commit_id: CommitId, path: String },
    /// A commit of the directory of mutable commits, which becomes a `MutableCommitSymlink`.
    MutableCommit { directory: MutableCommitsDirectory, commit_id: CommitId },
}

/// The entries of the root directory.
pub open spec fn root_entries() -> Seq<EntryView> {
    virtual_file::named_entries(
        seq!["bookmarks"@, "commits"@, "mutable_commits"@, "workspaces"@],
        FileType::Directory,
    )
}

/// Whether the result is a path of a commit: the given names, one below the other.
pub open spec fn is_commit_tree(commit: Seq<u8>, below: Seq<Seq<char>>, r: JjResult<Entry>) -> bool {
    r matches Ok(Entry::CommitTree { commit_id, path }) && commit_id@ == commit && path@
        == paths::joined_all(Seq::empty(), below)
}

/// What is at the path of the given segments.
pub open spec fn is_route(repo: RepoView, segments: Seq<Seq<char>>, r: JjResult<Entry>) -> bool {
    let not_found = Err::<Entry, _>(JjError::NotFound);
    if segments.len() == 0 {
        r matches Ok(Entry::Root(directory)) && virtual_file::entry_views(directory@)
            == root_entries()
    } else if segments[0] == "commits"@ {
        if segments.len() == 1 {
            r matches Ok(Entry::Commits(directory)) && directory@ == repo
        } else if commit_id::is_hex(segments[1]) {
            is_commit_tree(commit_id::hex_bytes(segments[1]), segments.skip(2), r)
        } else {
            r == not_found
        }
    } else if segments[0] == "workspaces"@ {
        if segments.len() == 1 {
            r matches Ok(Entry::Workspaces(directory)) && directory@ == repo
        } else {
            match repo.wc_commit_id(segments[1]) {
                Some(commit) => is_commit_tree(commit, segments.skip(2), r),
                None => r == not_found,
            }
        }
    } else if segments[0] == "mutable_commits"@ {
        if segments.len() == 1 {
            r matches Ok(Entry::MutableCommits(directory)) && directory.repo() == repo
                && directory.prefix() == "../commits"@
        } else if segments.len() == 2 && commit_id::is_hex(segments[1]) {
            r matches Ok(Entry::MutableCommit { directory, commit_id }) && directory.repo() == repo
                && directory.prefix() == "../commits"@ && commit_id@ == commit_id::hex_bytes(
                segments[1],
            )
        } else {
            r == not_found
        }
    } else if segments[0] == "bookmarks"@ {
        if segments.len() == 1 {
            r matches Ok(Entry::Bookmarks(directory)) && directory.repo() == repo
                && directory.prefix() == "../commits"@
        } else if segments.len() == 2 {
            match repo.bookmark_commit_id(segments[1]) {
                Some(commit) => r matches Ok(Entry::Bookmark(link)) && link@ == paths::joined(
                    "../commits"@,
                    commit_id::hex_text(commit),
                ),
                None => r == not_found,
            }
        } else {
            r == not_found
        }
    } else {
        r == not_found
    }
}

/// The directories of the root have different names.
proof fn lemma_names_differ()
    ensures
        "commits"@.len() == 7,
        "bookmarks"@.len() == 9,
        "workspaces"@.len() == 10,
        "mutable_commits"@.len() == 15,
{
    reveal_strlit("commits");
    reveal_strlit("bookmarks");
    reveal_strlit("workspaces");
    reveal_strlit("mutable_commits");
}

/// The hexadecimal text of an id is a plain name, unless it is empty.
proof fn lemma_hex_name(commit: Seq<u8>)
    requires
        commit.len() > 0,
    ensures
        paths::is_plain_name(commit_id::hex_text(commit)),
{
    commit_id::lemma_hex_plain(commit);
}

/// The link of a bookmark or of a mutable commit, followed from the directory it is in, leads to
/// the tree of the commit.
pub proof fn lemma_link_leads_to_commit(repo: RepoView, commit: Seq<u8>, r: JjResult<Entry>)
    requires
        commit.len() > 0,
        is_route(
            repo,
            paths::segments(
                paths::joined("../commits"@, commit_id::hex_text(commit)),
            ).drop_first(),
            r,
        ),
    ensures
        paths::segments(paths::joined("../commits"@, commit_id::hex_text(commit)))[0]
            == paths::dot_dot_text(),
        is_commit_tree(commit, Seq::empty(), r),
{
    let hex = commit_id::hex_text(commit);
    lemma_hex_name(commit);
    lemma_link_segments(hex);
    let segments = paths::segments(paths::joined("../commits"@, hex));
    assert(segments.drop_first() =~= seq!["commits"@, hex]);
    lemma_listed_commit_found(repo, commit, r);
}

/// The way up is one segment.
proof fn lemma_up_segments()
    ensures
        paths::segments(paths::dot_dot_text()) == seq![paths::dot_dot_text()],
{
    let none = Seq::<char>::empty();
    let up = paths::dot_dot_text();
    paths::lemma_segments_empty();
    assert(up.len() != paths::dot_text().len());
    assert(paths::joined(none, up) =~= up);
    paths::lemma_segments_joined(none, up);
    assert(paths::segments(up) =~= seq![up]);
}

/// The way to the commits is the way up and their directory.
proof fn lemma_commits_path()
    ensures
        paths::is_plain_name("commits"@),
        "../commits"@ == paths::joined(paths::dot_dot_text(), "commits"@),
{
    reveal_strlit("commits");
    reveal_strlit("../commits");
    assert("commits"@.len() != paths::dot_text().len());
    assert("../commits"@ =~= paths::joined(paths::dot_dot_text(), "commits"@));
}

/// The segments of a link.
proof fn lemma_link_segments(hex: Seq<char>)
    requires
        paths::is_plain_name(hex),
    ensures
        paths::segments(paths::joined("../commits"@, hex)) == seq![
            paths::dot_dot_text(),
            "commits"@,
            hex,
        ],
{
    let up = paths::dot_dot_text();
    lemma_up_segments();
    lemma_commits_path();
    paths::lemma_segments_joined(up, "commits"@);
    paths::lemma_segments_joined("../commits"@, hex);
    assert(seq![up].push("commits"@).push(hex) =~= seq![up, "commits"@, hex]);
}

/// The directory of a commit is found under the name that lists it.
pub proof fn lemma_listed_commit_found(repo: RepoView, commit: Seq<u8>, r: JjResult<Entry>)
    requires
        is_route(repo, seq!["commits"@, commit_id::hex_text(commit)], r),
    ensures
        is_commit_tree(commit, Seq::empty(), r),
{
    let segments = seq!["commits"@, commit_id::hex_text(commit)];
    commit_id::lemma_hex_round_trip(commit);
    assert(segments.skip(2) =~= Seq::empty());
}

/// Every workspace that is listed is found, with the commit that it has checked out.
pub proof fn lemma_listed_workspace_found(repo: RepoView, i: int, r: JjResult<Entry>)
    requires
        0 <= i < repo.wc_commit_ids@.len(),
        is_route(repo, seq!["workspaces"@, repo.wc_commit_ids@[i].name@], r),
    ensures
        repo.wc_commit_id(repo.wc_commit_ids@[i].name@) matches Some(commit) && is_commit_tree(
            commit,
            Seq::empty(),
            r,
        ),
{
    let name = repo.wc_commit_ids@[i].name@;
    let names = repo_view::workspace_names(repo.wc_commit_ids@);
    assert(names[i] == name);
    assert(names.contains(name));
    names.index_of_first_ensures(name);
    lemma_names_differ();
    assert(seq!["workspaces"@, name].skip(2) =~= Seq::empty());
}

/// Every entry of the root directory is found.
pub proof fn lemma_root_entry_found(repo: RepoView, i: int, r: JjResult<Entry>)
    requires
        0 <= i < root_entries().len(),
        is_route(repo, seq![root_entries()[i].name], r),
    ensures
        r is Ok,
{
    lemma_names_differ();
}

/// The names below a commit are the path inside its tree, unless one of them is `..`.
pub proof fn lemma_path_inside(below: Seq<Seq<char>>)
    requires
        forall|i: int| 0 <= i < below.len() ==> paths::is_plain_name(#[trigger] below[i]),
    ensures
        repo_path::is_inside(paths::joined_all(Seq::empty(), below)) <==> !below.contains(
            paths::dot_dot_text(),
        ),
        repo_path::inside(paths::joined_all(Seq::empty(), below)) == paths::joined_all(
            Seq::empty(),
            below,
        ),
{
    let path = paths::joined_all(Seq::empty(), below);
    paths::lemma_segments_empty();
    paths::lemma_segments_joined_all(Seq::empty(), below);
    assert(paths::segments(path) =~= below);
    if below == seq![paths::dot_text()] {
        assert(paths::is_plain_name(below[0]));
    }
    assert forall|i: int| 0 <= i < below.len() && below[i] != paths::dot_dot_text() implies
        repo_path::is_entry_name(#[trigger] below[i]) by {
        assert(paths::is_plain_name(below[i]));
        if below[i] == paths::root_text() {
            assert(below[i][0] == '/');
            assert(below[i].contains('/'));
        }
    }
    if below.contains(paths::dot_dot_text()) {
        let i = choose|i: int| 0 <= i < below.len() && below[i] == paths::dot_dot_text();
        assert(!repo_path::is_entry_name(below[i]));
    }
}

/// Whether the answer is to load a commit.
pub open spec fn is_load<Reply>(commit_id: CommitId, r: JjResult<Answer<Reply>>) -> bool {
    r matches Ok(Answer::Lookup(Query::Commit(id))) && id@ == commit_id@
}

/// Whether the answer is to look whether a commit is mutable.
pub open spec fn is_evaluation<Reply>(
    directory: MutableCommitsDirectory,
    commit_id: CommitId,
    r: JjResult<Answer<Reply>>,
) -> bool {
    r matches Ok(Answer::Lookup(Query::Commits(set))) && set@
        == mutable_commits_directory::if_mutable(directory.repo(), commit_id@)
}

/// The entry for a directory.
fn directory_entry(name: &str) -> (r: DirectoryEntry)
    ensures
        r@ == (EntryView { name: name@, file_type: FileType::Directory }),
{
    DirectoryEntry { name: name.to_owned(), file_type: FileType::Directory }
}

/// The root directory.
fn root_directory() -> (r: StaticDirectory)
    ensures
        virtual_file::entry_views(r@) == root_entries(),
{
    let mut children: Vec<DirectoryEntry> = Vec::new();
    children.push(directory_entry("bookmarks"));
    children.push(directory_entry("commits"));
    children.push(directory_entry("mutable_commits"));
    children.push(directory_entry("workspaces"));
    assert(virtual_file::entry_views(children@) =~= root_entries());
    StaticDirectory::new(children)
}

/// The path of the segments from the given one on.
fn path_from(segments: &Vec<String>, from: usize) -> (r: String)
    requires
        from <= segments@.len(),
    ensures
        r@ == paths::joined_all(Seq::empty(), text::views(segments@).skip(from as int)),
{
    let mut below: Vec<String> = Vec::new();
    let mut i: usize = from;
    while i < segments.len()
        invariant
            from <= i <= segments@.len(),
            text::views(below@) == text::views(segments@).subrange(from as int, i as int),
        decreases segments@.len() - i,
    {
        let ghost before = text::views(below@);
        below.push(segments[i].clone());
        assert(text::views(below@) =~= before.push(segments@[i as int]@));
        assert(text::views(below@) =~= text::views(segments@).subrange(from as int, i + 1));
        i = i + 1;
    }
    let count: usize = below.len();
    let path = paths::join_all("", &below, count);
    proof {
        reveal_strlit("");
        assert(""@ =~= Seq::<char>::empty());
        assert(text::views(below@).take(count as int) =~= text::views(segments@).skip(from as int));
    }
    path
}

impl AllCommitsPathMapper {
    pub fn new(repo: Arc<RepoView>) -> (r: Self)
        ensures
            r@ == *repo,
    {
        AllCommitsPathMapper { repo }
    }

    /// Goes to the current state of the repository, given that state or the message of the error
    /// in loading it.
    pub fn reload_at_head(&mut self, head: Found<Arc<RepoView>>) -> (r: JjResult<()>)
        ensures
            match head {
                Ok(repo) => r == Ok::<(), JjError>(()) && final(self)@ == *repo,
                Err(message) => r == Err::<(), _>(JjError::IO(message)) && final(self)@
                    == old(self)@,
            },
    {
        match head {
            Ok(repo) => {
                self.repo = repo;
                Ok(())
            },
            Err(message) => Err(JjError::IO(message)),
        }
    }

    fn commits_entry(&self, segments: &Vec<String>) -> (r: JjResult<Entry>)
        requires
            segments@.len() > 0,
            segments@[0]@ == "commits"@,
        ensures
            is_route(self@, text::views(segments@), r),
    {
        if segments.len() == 1 {
            return Ok(Entry::Commits(CommitsDirectory::new(self.repo.clone())));
        }
        match CommitId::try_from_hex(segments[1].as_str()) {
            Some(commit_id) => Ok(Entry::CommitTree { commit_id, path: path_from(segments, 2) }),
            None => Err(JjError::NotFound),
        }
    }

    fn workspaces_entry(&self, segments: &Vec<String>) -> (r: JjResult<Entry>)
        requires
            segments@.len() > 0,
            segments@[0]@ == "workspaces"@,
        ensures
            is_route(self@, text::views(segments@), r),
    {
        proof {
            lemma_names_differ();
        }
        if segments.len() == 1 {
            return Ok(Entry::Workspaces(WorkspacesDirectory::new(self.repo.clone())));
        }
        match self.repo.get_wc_commit_id(segments[1].as_str()) {
            Some(commit_id) => Ok(
                Entry::CommitTree { commit_id: commit_id.clone(), path: path_from(segments, 2) },
            ),
            None => Err(JjError::NotFound),
        }
    }

    fn mutable_commits_entry(&self, segments: &Vec<String>) -> (r: JjResult<Entry>)
        requires
            segments@.len() > 0,
            segments@[0]@ == "mutable_commits"@,
        ensures
            is_route(self@, text::views(segments@), r),
    {
        proof {
            lemma_names_differ();
        }
        let directory = MutableCommitsDirectory::new(self.repo.clone(), "../commits".to_owned());
        if segments.len() == 1 {
            return Ok(Entry::MutableCommits(directory));
        }
        if segments.len() > 2 {
            return Err(JjError::NotFound);
        }
        match CommitId::try_from_hex(segments[1].as_str()) {
            Some(commit_id) => Ok(Entry::MutableCommit { directory, commit_id }),
            None => Err(JjError::NotFound),
        }
    }

    fn bookmarks_entry(&self, segments: &Vec<String>) -> (r: JjResult<Entry>)
        requires
            segments@.len() > 0,
            segments@[0]@ == "bookmarks"@,
        ensures
            is_route(self@, text::views(segments@), r),
    {
        proof {
            lemma_names_differ();
        }
        let directory = BookmarksDirectory::new(self.repo.clone(), "../commits".to_owned());
        if segments.len() == 1 {
            return Ok(Entry::Bookmarks(directory));
        }
        if segments.len() > 2 {
            return Err(JjError::NotFound);
        }
        match directory.get_symlink(segments[1].as_str()) {
            Ok(link) => Ok(Entry::Bookmark(link)),
            Err(error) => Err(error),
        }
    }
}

impl PathMapper for AllCommitsPathMapper {
    type File = Entry;

    fn get_entry(&self, path: &str) -> (r: JjResult<Entry>)
        ensures
            is_route(self@, paths::segments(path@), r),
    {
        let segments = paths::split_path(path);
        if segments.len() == 0 {
            return Ok(Entry::Root(root_directory()));
        }
        let first = segments[0].as_str();
        if text::text_eq(first, "commits") {
            self.commits_entry(&segments)
        } else if text::text_eq(first, "workspaces") {
            self.workspaces_entry(&segments)
        } else if text::text_eq(first, "mutable_commits") {
            self.mutable_commits_entry(&segments)
        } else if text::text_eq(first, "bookmarks") {
            self.bookmarks_entry(&segments)
        } else {
            Err(JjError::NotFound)
        }
    }
}

impl VirtualFile for Entry {
    fn read(&self) -> (r: JjResult<Answer<Vec<u8>>>)
        ensures
            match self {
                Entry::Root(directory) => call_ensures(StaticDirectory::read, (directory,), r),
                Entry::Commits(directory) => call_ensures(CommitsDirectory::read, (directory,), r),
                Entry::Workspaces(directory) => call_ensures(WorkspacesDirectory::read, (directory,), r),
                Entry::MutableCommits(directory) => call_ensures(MutableCommitsDirectory::read, (directory,), r),
                Entry::Bookmarks(directory) => call_ensures(BookmarksDirectory::read, (directory,), r),
                Entry::Bookmark(link) => call_ensures(BookmarkSymlink::read, (link,), r),
                Entry::CommitTree { commit_id, .. } => is_load(*commit_id, r),
                Entry::MutableCommit { directory, commit_id } => is_evaluation(
                    *directory,
                    *commit_id,
                    r,
                ),
            },
    {
        match self {
            Entry::Root(directory) => directory.read(),
            Entry::Commits(directory) => directory.read(),
            Entry::Workspaces(directory) => directory.read(),
            Entry::MutableCommits(directory) => directory.read(),
            Entry::Bookmarks(directory) => directory.read(),
            Entry::Bookmark(link) => link.read(),
            Entry::CommitTree { commit_id, .. } => Ok(
                Answer::Lookup(Query::Commit(commit_id.clone())),
            ),
            Entry::MutableCommit { directory, commit_id } => Ok(
                Answer::Lookup(Query::Commits(directory.revset_of(commit_id))),
            ),
        }
    }

    fn list(&self) -> (r: JjResult<Answer<Vec<DirectoryEntry>>>)
        ensures
            match self {
                Entry::Root(directory) => call_ensures(StaticDirectory::list, (directory,), r),
                Entry::Commits(directory) => call_ensures(CommitsDirectory::list, (directory,), r),
                Entry::Workspaces(directory) => call_ensures(WorkspacesDirectory::list, (directory,), r),
                Entry::MutableCommits(directory) => call_ensures(MutableCommitsDirectory::list, (directory,), r),
                Entry::Bookmarks(directory) => call_ensures(BookmarksDirectory::list, (directory,), r),
                Entry::Bookmark(link) => call_ensures(BookmarkSymlink::list, (link,), r),
                Entry::CommitTree { commit_id, .. } => is_load(*commit_id, r),
                Entry::MutableCommit { directory, commit_id } => is_evaluation(
                    *directory,
                    *commit_id,
                    r,
                ),
            },
    {
        match self {
            Entry::Root(directory) => directory.list(),
            Entry::Commits(directory) => directory.list(),
            Entry::Workspaces(directory) => directory.list(),
            Entry::MutableCommits(directory) => directory.list(),
            Entry::Bookmarks(directory) => directory.list(),
            Entry::Bookmark(link) => link.list(),
            Entry::CommitTree { commit_id, .. } => Ok(
                Answer::Lookup(Query::Commit(commit_id.clone())),
            ),
            Entry::MutableCommit { directory, commit_id } => Ok(
                Answer::Lookup(Query::Commits(directory.revset_of(commit_id))),
            ),
        }
    }

    fn read_link(&self) -> (r: JjResult<Answer<String>>)
        ensures
            match self {
                Entry::Root(directory) => call_ensures(StaticDirectory::read_link, (directory,), r),
                Entry::Commits(directory) => call_ensures(CommitsDirectory::read_link, (directory,), r),
                Entry::Workspaces(directory) => call_ensures(WorkspacesDirectory::read_link, (directory,), r),
                Entry::MutableCommits(directory) => call_ensures(MutableCommitsDirectory::read_link, (directory,), r),
                Entry::Bookmarks(directory) => call_ensures(BookmarksDirectory::read_link, (directory,), r),
                Entry::Bookmark(link) => call_ensures(BookmarkSymlink::read_link, (link,), r),
                Entry::CommitTree { commit_id, .. } => is_load(*commit_id, r),
                Entry::MutableCommit { directory, commit_id } => is_evaluation(
                    *directory,
                    *commit_id,
                    r,
                ),
            },
    {
        match self {
            Entry::Root(directory) => directory.read_link(),
            Entry::Commits(directory) => directory.read_link(),
            Entry::Workspaces(directory) => directory.read_link(),
            Entry::MutableCommits(directory) => directory.read_link(),
            Entry::Bookmarks(directory) => directory.read_link(),
            Entry::Bookmark(link) => link.read_link(),
            Entry::CommitTree { commit_id, .. } => Ok(
                Answer::Lookup(Query::Commit(commit_id.clone())),
            ),
            Entry::MutableCommit { directory, commit_id } => Ok(
                Answer::Lookup(Query::Commits(directory.revset_of(commit_id))),
            ),
        }
    }

    fn attributes(&self) -> (r: JjResult<Answer<FileAttributes>>)
        ensures
            match self {
                Entry::Root(directory) => call_ensures(StaticDirectory::attributes, (directory,), r),
                Entry::Commits(directory) => call_ensures(CommitsDirectory::attributes, (directory,), r),
                Entry::Workspaces(directory) => call_ensures(WorkspacesDirectory::attributes, (directory,), r),
                Entry::MutableCommits(directory) => call_ensures(MutableCommitsDirectory::attributes, (directory,), r),
                Entry::Bookmarks(directory) => call_ensures(BookmarksDirectory::attributes, (directory,), r),
                Entry::Bookmark(link) => call_ensures(BookmarkSymlink::attributes, (link,), r),
                Entry::CommitTree { commit_id, .. } => is_load(*commit_id, r),
                Entry::MutableCommit { directory, commit_id } => is_evaluation(
                    *directory,
                    *commit_id,
                    r,
                ),
            },
    {
        match self {
            Entry::Root(directory) => directory.attributes(),
            Entry::Commits(directory) => directory.attributes(),
            Entry::Workspaces(directory) => directory.attributes(),
            Entry::MutableCommits(directory) => directory.attributes(),
            Entry::Bookmarks(directory) => directory.attributes(),
            Entry::Bookmark(link) => link.attributes(),
            Entry::CommitTree { commit_id, .. } => Ok(
                Answer::Lookup(Query::Commit(commit_id.clone())),
            ),
            Entry::MutableCommit { directory, commit_id } => Ok(
                Answer::Lookup(Query::Commits(directory.revset_of(commit_id))),
            ),
        }
    }

    fn file_type(&self) -> (r: JjResult<Answer<FileType>>)
        ensures
            match self {
                Entry::Root(directory) => call_ensures(StaticDirectory::file_type, (directory,), r),
                Entry::Commits(directory) => call_ensures(CommitsDirectory::file_type, (directory,), r),
                Entry::Workspaces(directory) => call_ensures(WorkspacesDirectory::file_type, (directory,), r),
                Entry::MutableCommits(directory) => call_ensures(MutableCommitsDirectory::file_type, (directory,), r),
                Entry::Bookmarks(directory) => call_ensures(BookmarksDirectory::file_type, (directory,), r),
                Entry::Bookmark(link) => call_ensures(BookmarkSymlink::file_type, (link,), r),
                Entry::CommitTree { commit_id, .. } => is_load(*commit_id, r),
                Entry::MutableCommit { directory, commit_id } => is_evaluation(
                    *directory,
                    *commit_id,
                    r,
                ),
            },
    {
        match self {
            Entry::Root(directory) => directory.file_type(),
            Entry::Commits(directory) => directory.file_type(),
            Entry::Workspaces(directory) => directory.file_type(),
            Entry::MutableCommits(directory) => directory.file_type(),
            Entry::Bookmarks(directory) => directory.file_type(),
            Entry::Bookmark(link) => link.file_type(),
            Entry::CommitTree { commit_id, .. } => Ok(
                Answer::Lookup(Query::Commit(commit_id.clone())),
            ),
            Entry::MutableCommit { directory, commit_id } => Ok(
                Answer::Lookup(Query::Commits(directory.revset_of(commit_id))),
            ),
        }
    }
}

/// The path of names below a commit has those names as its segments.
proof fn lemma_below_segments(below: Seq<Seq<char>>)
    requires
        forall|k: int|
            0 <= k < below.len() ==> (#[trigger] below[k]).len() > 0 && below[k] != seq!['.']
                && !below[k].contains('/'),
    ensures
        paths::segments(paths::joined_all(Seq::empty(), below)) == below,
        paths::joined_all(Seq::empty(), below) == text::separated(below, '/'),
{
    assert forall|k: int| 0 <= k < below.len() implies paths::is_plain_name(#[trigger] below[k]) by {
        assert(below[k].len() > 0);
    }
    paths::lemma_segments_empty();
    paths::lemma_segments_joined_all(Seq::empty(), below);
    paths::lemma_joined_text(below);
    assert(Seq::<Seq<char>>::empty() + below =~= below);
}

/// A path below the directory of a commit is the same path of that commit: the names below it, with
/// single slashes between them.
pub proof fn lemma_commit_path(
    mapper: AllCommitsPathMapper,
    commit: Seq<u8>,
    below: Seq<Seq<char>>,
    path: &str,
    r: JjResult<Entry>,
)
    requires
        forall|k: int|
            0 <= k < below.len() ==> (#[trigger] below[k]).len() > 0 && below[k] != seq!['.']
                && !below[k].contains('/'),
        paths::segments(path@) == seq!["commits"@, commit_id::hex_text(commit)] + below,
        call_ensures(AllCommitsPathMapper::get_entry, (&mapper, path), r),
    ensures
        r matches Ok(Entry::CommitTree { commit_id, path: inside }) && commit_id@ == commit
            && paths::segments(inside@) == below && inside@ == text::separated(below, '/'),
{
    let segments = paths::segments(path@);
    commit_id::lemma_hex_round_trip(commit);
    assert(segments.skip(2) =~= below);
    lemma_below_segments(below);
}

/// What is no id of a commit is not found below the directory of commits, however much follows it.
pub proof fn lemma_no_commit_path(mapper: AllCommitsPathMapper, path: &str, r: JjResult<Entry>)
    requires
        paths::segments(path@).len() >= 2,
        paths::segments(path@)[0] == "commits"@ || paths::segments(path@)[0] == "mutable_commits"@,
        !commit_id::is_hex(paths::segments(path@)[1]),
        call_ensures(AllCommitsPathMapper::get_entry, (&mapper, path), r),
    ensures
        r == Err::<Entry, _>(JjError::NotFound),
{
    lemma_names_differ();
}

/// A path below a listed workspace is the same path of the commit that the workspace has checked
/// out: the names below it, with single slashes between them.
pub proof fn lemma_workspace_path(
    mapper: AllCommitsPathMapper,
    i: int,
    below: Seq<Seq<char>>,
    path: &str,
    r: JjResult<Entry>,
)
    requires
        mapper@.wf(),
        0 <= i < mapper@.wc_commit_ids@.len(),
        forall|k: int|
            0 <= k < below.len() ==> (#[trigger] below[k]).len() > 0 && below[k] != seq!['.']
                && !below[k].contains('/'),
        paths::segments(path@) == seq!["workspaces"@, mapper@.wc_commit_ids@[i].name@] + below,
        call_ensures(AllCommitsPathMapper::get_entry, (&mapper, path), r),
    ensures
        r matches Ok(Entry::CommitTree { commit_id, path: inside }) && commit_id@
            == mapper@.wc_commit_ids@[i].commit_id@ && paths::segments(inside@) == below && inside@
            == text::separated(below, '/'),
{
    let segments = paths::segments(path@);
    let names = repo_view::workspace_names(mapper@.wc_commit_ids@);
    lemma_names_differ();
    text::lemma_ascends_distinct(names);
    assert(names[i] == segments[1]);
    assert(names.contains(names[i]));
    names.index_of_first_ensures(names[i]);
    assert(segments.skip(2) =~= below);
    lemma_below_segments(below);
}

/// What is found below a workspace is what is found at the same names below the commit that the
/// workspace has checked out.
pub proof fn lemma_workspace_is_its_commit(
    mapper: AllCommitsPathMapper,
    i: int,
    below: Seq<Seq<char>>,
    by_workspace: &str,
    by_commit: &str,
    r_workspace: JjResult<Entry>,
    r_commit: JjResult<Entry>,
)
    requires
        mapper@.wf(),
        0 <= i < mapper@.wc_commit_ids@.len(),
        forall|k: int|
            0 <= k < below.len() ==> (#[trigger] below[k]).len() > 0 && below[k] != seq!['.']
                && !below[k].contains('/'),
        paths::segments(by_workspace@) == seq!["workspaces"@, mapper@.wc_commit_ids@[i].name@]
            + below,
        paths::segments(by_commit@) == seq![
            "commits"@,
            commit_id::hex_text(mapper@.wc_commit_ids@[i].commit_id@),
        ] + below,
        call_ensures(AllCommitsPathMapper::get_entry, (&mapper, by_workspace), r_workspace),
        call_ensures(AllCommitsPathMapper::get_entry, (&mapper, by_commit), r_commit),
    ensures
        r_workspace matches Ok(Entry::CommitTree { commit_id: a, path: x }) && r_commit matches Ok(
            Entry::CommitTree { commit_id: b, path: y },
        ) && a@ == b@ && x@ == y@,
{
    lemma_workspace_path(mapper, i, below, by_workspace, r_workspace);
    lemma_commit_path(
        mapper,
        mapper@.wc_commit_ids@[i].commit_id@,
        below,
        by_commit,
        r_commit,
    );
}

/// Below a name that no workspace has, nothing is found.
pub proof fn lemma_no_workspace_path(mapper: AllCommitsPathMapper, path: &str, r: JjResult<Entry>)
    requires
        paths::segments(path@).len() >= 2,
        paths::segments(path@)[0] == "workspaces"@,
        forall|i: int|
            0 <= i < mapper@.wc_commit_ids@.len() ==> (#[trigger] mapper@.wc_commit_ids@[i]).name@
                != paths::segments(path@)[1],
        call_ensures(AllCommitsPathMapper::get_entry, (&mapper, path), r),
    ensures
        r == Err::<Entry, _>(JjError::NotFound),
{
    let name = paths::segments(path@)[1];
    let names = repo_view::workspace_names(mapper@.wc_commit_ids@);
    lemma_names_differ();
    names.index_of_first_ensures(name);
    if names.contains(name) {
        let i = choose|i: int| 0 <= i < names.len() && names[i] == name;
        assert(mapper@.wc_commit_ids@[i].name@ == name);
    }
}

/// A local bookmark is a symlink exactly where its target has one term and that term is a commit. The
/// link goes up and to the directory of that commit.
pub proof fn lemma_bookmark_path(
    mapper: AllCommitsPathMapper,
    i: int,
    path: &str,
    r: JjResult<Entry>,
)
    requires
        mapper@.wf(),
        0 <= i < mapper@.local_bookmarks@.len(),
        paths::segments(path@) == seq!["bookmarks"@, mapper@.local_bookmarks@[i].name@],
        call_ensures(AllCommitsPathMapper::get_entry, (&mapper, path), r),
    ensures
        ({
            let terms = merge::id_terms(mapper@.local_bookmarks@[i].target.merge);
            if terms.len() == 1 && terms[0] is Some {
                r matches Ok(Entry::Bookmark(link)) && (terms[0]->0@.len() > 0 ==> paths::segments(
                    link@,
                ) == seq![seq!['.', '.'], "commits"@, commit_id::hex_text(terms[0]->0@)])
            } else {
                r == Err::<Entry, _>(JjError::NotFound)
            }
        }),
{
    let name = mapper@.local_bookmarks@[i].name@;
    let names = repo_view::bookmark_names(mapper@.local_bookmarks@);
    let terms = merge::id_terms(mapper@.local_bookmarks@[i].target.merge);
    lemma_names_differ();
    text::lemma_ascends_distinct(names);
    assert(names[i] == name);
    assert(names.contains(name));
    names.index_of_first_ensures(name);
    if terms.len() == 1 && terms[0] is Some && terms[0]->0@.len() > 0 {
        lemma_hex_name(terms[0]->0@);
        lemma_link_segments(commit_id::hex_text(terms[0]->0@));
    }
}

/// A name that no local bookmark has is not found, nor is anything below a bookmark.
pub proof fn lemma_no_bookmark_path(mapper: AllCommitsPathMapper, path: &str, r: JjResult<Entry>)
    requires
        paths::segments(path@).len() >= 2,
        paths::segments(path@)[0] == "bookmarks"@,
        paths::segments(path@).len() > 2 || forall|i: int|
            0 <= i < mapper@.local_bookmarks@.len() ==> (#[trigger] mapper@.local_bookmarks@[i]).name@
                != paths::segments(path@)[1],
        call_ensures(AllCommitsPathMapper::get_entry, (&mapper, path), r),
    ensures
        r == Err::<Entry, _>(JjError::NotFound),
{
    let name = paths::segments(path@)[1];
    let names = repo_view::bookmark_names(mapper@.local_bookmarks@);
    lemma_names_differ();
    names.index_of_first_ensures(name);
    if paths::segments(path@).len() == 2 && names.contains(name) {
        let i = choose|i: int| 0 <= i < names.len() && names[i] == name;
        assert(mapper@.local_bookmarks@[i].name@ == name);
    }
}

/// A commit of the directory of mutable commits is that commit of the repository. Nothing is found
/// below it.
pub proof fn lemma_mutable_commit_path(
    mapper: AllCommitsPathMapper,
    commit: Seq<u8>,
    below: Seq<Seq<char>>,
    path: &str,
    r: JjResult<Entry>,
)
    requires
        paths::segments(path@) == seq!["mutable_commits"@, commit_id::hex_text(commit)] + below,
        call_ensures(AllCommitsPathMapper::get_entry, (&mapper, path), r),
    ensures
        below.len() > 0 ==> r == Err::<Entry, _>(JjError::NotFound),
        below.len() == 0 ==> (r matches Ok(Entry::MutableCommit { directory, commit_id })
            && commit_id@ == commit && directory.repo() == mapper@ && directory.prefix()
            == "../commits"@),
{
    let segments = paths::segments(path@);
    lemma_names_differ();
    commit_id::lemma_hex_round_trip(commit);
    assert(segments.len() == 2 + below.len());
    assert(segments[0] == "mutable_commits"@);
    assert(segments[1] == commit_id::hex_text(commit));
}

/// The symlink of a mutable commit goes up and to the directory of that commit.
pub proof fn lemma_mutable_commit_link(
    directory: MutableCommitsDirectory,
    commit_id: CommitId,
    is_empty: Result<bool, String>,
    symlink: JjResult<MutableCommitSymlink>,
)
    requires
        commit_id@.len() > 0,
        directory.prefix() == "../commits"@,
        call_ensures(
            MutableCommitsDirectory::get_symlink,
            (&directory, &commit_id, is_empty),
            symlink,
        ),
    ensures
        symlink is Ok <==> is_empty matches Ok(false),
        symlink matches Ok(link) ==> paths::segments(link@) == seq![
            seq!['.', '.'],
            "commits"@,
            commit_id::hex_text(commit_id@),
        ],
{
    lemma_hex_name(commit_id@);
    lemma_link_segments(commit_id::hex_text(commit_id@));
}

/// The root directory lists a name exactly where that name is found in it, and then as a directory.
pub proof fn lemma_root_lists_what_is_found(
    mapper: AllCommitsPathMapper,
    root: &str,
    path: &str,
    name: Seq<char>,
    r_root: JjResult<Entry>,
    r: JjResult<Entry>,
)
    requires
        paths::segments(root@) == Seq::<Seq<char>>::empty(),
        paths::segments(path@) == seq![name],
        call_ensures(AllCommitsPathMapper::get_entry, (&mapper, root), r_root),
        call_ensures(AllCommitsPathMapper::get_entry, (&mapper, path), r),
    ensures
        r_root matches Ok(Entry::Root(directory)) && (r is Ok <==> exists|i: int|
            0 <= i < directory@.len() && (#[trigger] directory@[i]).name@ == name
                && directory@[i].file_type == FileType::Directory) && forall|i: int|
            0 <= i < directory@.len() ==> (#[trigger] directory@[i]).file_type
                == FileType::Directory,
        r is Err ==> r == Err::<Entry, _>(JjError::NotFound),
        r matches Ok(entry) ==> match entry {
            Entry::Commits(_) => name == "commits"@,
            Entry::Workspaces(_) => name == "workspaces"@,
            Entry::MutableCommits(_) => name == "mutable_commits"@,
            Entry::Bookmarks(_) => name == "bookmarks"@,
            _ => false,
        },
        name == "commits"@ || name == "workspaces"@ || name == "mutable_commits"@ || name
            == "bookmarks"@ ==> r is Ok,
{
    let directory = r_root->Ok_0->Root_0;
    let entries = directory@;
    let views = virtual_file::entry_views(entries);
    lemma_names_differ();
    assert(views.len() == 4 && entries.len() == 4);
    assert forall|i: int| 0 <= i < entries.len() implies (#[trigger] entries[i]).file_type
        == FileType::Directory && entries[i].name@ == root_entries()[i].name by {
        assert(views[i] == entries[i]@);
    }
    assert(entries[0].name@ == "bookmarks"@);
    assert(entries[1].name@ == "commits"@);
    assert(entries[2].name@ == "mutable_commits"@);
    assert(entries[3].name@ == "workspaces"@);
}

/// Below a name that the root directory does not list, nothing is found.
pub proof fn lemma_nothing_elsewhere(mapper: AllCommitsPathMapper, path: &str, r: JjResult<Entry>)
    requires
        paths::segments(path@).len() > 0,
        paths::segments(path@)[0] != "commits"@,
        paths::segments(path@)[0] != "workspaces"@,
        paths::segments(path@)[0] != "mutable_commits"@,
        paths::segments(path@)[0] != "bookmarks"@,
        call_ensures(AllCommitsPathMapper::get_entry, (&mapper, path), r),
    ensures
        r == Err::<Entry, _>(JjError::NotFound),
{
}

/// The directories of the layout show the state of the repository that the layout has.
pub proof fn lemma_directories_show_repo(mapper: AllCommitsPathMapper, path: &str, r: JjResult<Entry>)
    requires
        paths::segments(path@).len() == 1,
        call_ensures(AllCommitsPathMapper::get_entry, (&mapper, path), r),
    ensures
        match r {
            Ok(Entry::Commits(directory)) => directory@ == mapper@,
            Ok(Entry::Workspaces(directory)) => directory@ == mapper@,
            Ok(Entry::MutableCommits(directory)) => directory.repo() == mapper@
                && paths::segments(directory.prefix()) == seq![seq!['.', '.'], "commits"@],
            Ok(Entry::Bookmarks(directory)) => directory.repo() == mapper@ && paths::segments(
                directory.prefix(),
            ) == seq![seq!['.', '.'], "commits"@],
            Ok(_) => false,
            Err(error) => error == JjError::NotFound,
        },
{
    let up = paths::dot_dot_text();
    lemma_names_differ();
    lemma_up_segments();
    lemma_commits_path();
    paths::lemma_segments_joined(up, "commits"@);
    assert(seq![up].push("commits"@) =~= seq![up, "commits"@]);
}

/// Two paths with the same segments are the same place.
pub proof fn lemma_same_segments(
    mapper: AllCommitsPathMapper,
    a: &str,
    b: &str,
    r_a: JjResult<Entry>,
    r_b: JjResult<Entry>,
)
    requires
        paths::segments(a@) == paths::segments(b@),
        call_ensures(AllCommitsPathMapper::get_entry, (&mapper, a), r_a),
        call_ensures(AllCommitsPathMapper::get_entry, (&mapper, b), r_b),
    ensures
        match (r_a, r_b) {
            (Err(x), Err(y)) => x == y,
            (Ok(Entry::Root(x)), Ok(Entry::Root(y))) => virtual_file::entry_views(x@)
                == virtual_file::entry_views(y@),
            (Ok(Entry::Commits(x)), Ok(Entry::Commits(y))) => x@ == y@,
            (Ok(Entry::Workspaces(x)), Ok(Entry::Workspaces(y))) => x@ == y@,
            (Ok(Entry::MutableCommits(x)), Ok(Entry::MutableCommits(y))) => x.repo() == y.repo()
                && x.prefix() == y.prefix(),
            (Ok(Entry::Bookmarks(x)), Ok(Entry::Bookmarks(y))) => x.repo() == y.repo() && x.prefix()
                == y.prefix(),
            (Ok(Entry::Bookmark(x)), Ok(Entry::Bookmark(y))) => x@ == y@,
            (
                Ok(Entry::CommitTree { commit_id: x, path: p }),
                Ok(Entry::CommitTree { commit_id: y, path: q }),
            ) => x@ == y@ && p@ == q@,
            (
                Ok(Entry::MutableCommit { directory: d, commit_id: x }),
                Ok(Entry::MutableCommit { directory: e, commit_id: y }),
            ) => d.repo() == e.repo() && d.prefix() == e.prefix() && x@ == y@,
            _ => false,
        },
{
    lemma_names_differ();
}

/// A directory of the layout can be listed and nothing else, and a symlink of the layout can be
/// followed and nothing else; both tell their type and size. What is in a commit, or depends on
/// whether a commit is mutable, answers all requests with one and the same lookup.
pub proof fn lemma_entry_requests(
    entry: Entry,
    content: JjResult<Answer<Vec<u8>>>,
    listed: JjResult<Answer<Vec<DirectoryEntry>>>,
    link: JjResult<Answer<String>>,
    attributes: JjResult<Answer<FileAttributes>>,
    kind: JjResult<Answer<FileType>>,
)
    requires
        call_ensures(Entry::read, (&entry,), content),
        call_ensures(Entry::list, (&entry,), listed),
        call_ensures(Entry::read_link, (&entry,), link),
        call_ensures(Entry::attributes, (&entry,), attributes),
        call_ensures(Entry::file_type, (&entry,), kind),
    ensures
        match kind {
            Ok(Answer::Ready(FileType::Directory)) => {
                &&& content == Err::<Answer<Vec<u8>>, _>(JjError::NotAFile)
                &&& listed is Ok
                &&& link == Err::<Answer<String>, _>(JjError::NotASymlink)
                &&& attributes matches Ok(Answer::Ready(a)) && a.file_type == FileType::Directory
                    && a.size == 0 && a.created == 0 && a.modified == 0
            },
            Ok(Answer::Ready(FileType::Symlink)) => {
                &&& content == Err::<Answer<Vec<u8>>, _>(JjError::NotAFile)
                &&& listed == Err::<Answer<Vec<DirectoryEntry>>, _>(JjError::NotADirectory)
                &&& link matches Ok(Answer::Ready(target)) && attributes matches Ok(Answer::Ready(a))
                    && a.file_type == FileType::Symlink && a.size == encode_utf8(target@).len()
                    && a.created == 0 && a.modified == 0
            },
            Ok(Answer::Lookup(Query::Commit(id))) => {
                &&& entry matches Entry::CommitTree { commit_id, .. } && commit_id@ == id@
                &&& content matches Ok(Answer::Lookup(Query::Commit(q))) && q@ == id@
                &&& listed matches Ok(Answer::Lookup(Query::Commit(q))) && q@ == id@
                &&& link matches Ok(Answer::Lookup(Query::Commit(q))) && q@ == id@
                &&& attributes matches Ok(Answer::Lookup(Query::Commit(q))) && q@ == id@
            },
            Ok(Answer::Lookup(Query::Commits(set))) => {
                &&& entry is MutableCommit
                &&& content matches Ok(Answer::Lookup(Query::Commits(q))) && q@ == set@
                &&& listed matches Ok(Answer::Lookup(Query::Commits(q))) && q@ == set@
                &&& link matches Ok(Answer::Lookup(Query::Commits(q))) && q@ == set@
                &&& attributes matches Ok(Answer::Lookup(Query::Commits(q))) && q@ == set@
            },
            _ => false,
        },
{
}

/// The lookup of a commit in the directory of mutable commits finds that commit alone, or nothing
/// where it may not be rewritten.
pub proof fn lemma_mutable_commit_lookup(
    directory: MutableCommitsDirectory,
    commit_id: CommitId,
    history: History,
    kind: JjResult<Answer<FileType>>,
)
    requires
        call_ensures(
            Entry::file_type,
            (&Entry::MutableCommit { directory, commit_id },),
            kind,
        ),
    ensures
        kind matches Ok(Answer::Lookup(Query::Commits(set))) && set@.members(history) == (
        if mutable_commits_directory::is_fixed(directory.repo(), history, commit_id@) {
            Set::<Seq<u8>>::empty()
        } else {
            set![commit_id@]
        }),
{
    mutable_commits_directory::lemma_if_mutable_members(directory.repo(), history, commit_id@);
}

/// A layout is of the state that it was made of. It goes on to the current state where that could be
/// loaded, and otherwise stays where it is and hands on the message.
pub proof fn lemma_state_of_layout(repo: Arc<RepoView>, mapper: AllCommitsPathMapper)
    requires
        call_ensures(AllCommitsPathMapper::new, (repo,), mapper),
    ensures
        mapper@ == *repo,
        forall|layout: &mut AllCommitsPathMapper, head: Found<Arc<RepoView>>, r: JjResult<()>|
         #[trigger]
            call_ensures(AllCommitsPathMapper::reload_at_head, (layout, head), r) ==> {
                &&& head matches Ok(current) ==> r is Ok && final(layout)@ == *current
                &&& head matches Err(message) ==> r == Err::<(), _>(JjError::IO(message))
                    && final(layout)@ == layout@
            },
{
}

/// Nothing is created, written or deleted.
pub proof fn lemma_readonly(
    file: Entry,
    new_file: CreateFile,
    offset: u64,
    data: &[u8],
    created: JjResult<FileAttributes>,
    written: JjResult<u32>,
    deleted: JjResult<()>,
)
    requires
        call_ensures(Entry::create, (&file, new_file), created),
        call_ensures(Entry::write, (&file, offset, data), written),
        call_ensures(Entry::delete, (&file,), deleted),
    ensures
        created == Err::<FileAttributes, _>(JjError::Readonly),
        written == Err::<u32, _>(JjError::Readonly),
        deleted == Err::<(), _>(JjError::Readonly),
{
}

/// Each directory of the layout lists what it is of: the root its entries, the workspaces and the
/// bookmarks their names, and the two directories of commits those commits of the repository. A bookmark
/// leads to its target.
pub proof fn lemma_entry_contents(
    entry: Entry,
    history: History,
    commit: Seq<u8>,
    listed: JjResult<Answer<Vec<DirectoryEntry>>>,
    link: JjResult<Answer<String>>,
)
    requires
        call_ensures(Entry::list, (&entry,), listed),
        call_ensures(Entry::read_link, (&entry,), link),
    ensures
        match entry {
            Entry::Root(directory) => listed matches Ok(Answer::Ready(entries)) && entries@
                == directory@,
            Entry::Commits(_) => listed matches Ok(Answer::Lookup(Query::Commits(set))) && (
            set@.members(history).contains(commit) <==> history.contains_key(commit)),
            Entry::MutableCommits(directory) => listed matches Ok(
                Answer::Lookup(Query::Commits(set)),
            ) && (set@.members(history).contains(commit) <==> history.contains_key(commit)
                && !mutable_commits_directory::is_fixed(directory.repo(), history, commit)),
            Entry::Workspaces(directory) => call_ensures(
                WorkspacesDirectory::list,
                (&directory,),
                listed,
            ),
            Entry::Bookmarks(directory) => call_ensures(
                BookmarksDirectory::list,
                (&directory,),
                listed,
            ),
            Entry::Bookmark(symlink) => link matches Ok(Answer::Ready(target)) && target@ == symlink@,
            _ => true,
        },
{
    if let Entry::MutableCommits(directory) = entry {
        mutable_commits_directory::lemma_listed_commits(directory, history, commit, listed);
    }
}

} // verus!
