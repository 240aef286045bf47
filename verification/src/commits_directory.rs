//! The directory of all commits.

use std::sync::Arc;

use vstd::prelude::*;

use crate::commit_id;
use crate::commit_id::CommitId;
use crate::jj_error::{JjError, JjResult};
use crate::repo_view::RepoView;
use crate::revset::{History, Revset, RevsetView};
use crate::virtual_file;
use crate::virtual_file::{
    Answer, DirectoryEntry, EntryView, FileAttributes, FileType, Query, VirtualFile,
};

verus! {

/// A directory that lists all commits of the repository, each as a directory.
pub struct CommitsDirectory {
    repo: Arc<RepoView>,
}

impl View for CommitsDirectory {
    type V = RepoView;

    closed spec fn view(&self) -> RepoView {
        *self.repo
    }
}

/// The entries for commits: their ids as hexadecimal text. What could not be read is left out.
pub open spec fn commit_entries(found: Seq<Option<CommitId>>, file_type: FileType) -> Seq<
    EntryView,
> {
    virtual_file::named_entries(
        commit_id::present_ids(found).map_values(|id: Seq<u8>| commit_id::hex_text(id)),
        file_type,
    )
}

/// The entries for the commits that a revset yielded, each `None` where a commit could not be read.
pub(crate) fn list_commits(found: &Vec<Option<CommitId>>, file_type: FileType) -> (r: Vec<
    DirectoryEntry,
>)
    ensures
        virtual_file::entry_views(r@) == commit_entries(found@, file_type),
{
    let mut entries: Vec<DirectoryEntry> = Vec::new();
    let mut i: usize = 0;
    assert(virtual_file::entry_views(entries@) =~= commit_entries(found@.take(0), file_type));
    while i < found.len()
        invariant
            i <= found@.len(),
            virtual_file::entry_views(entries@) == commit_entries(found@.take(i as int), file_type),
        decreases found@.len() - i,
    {
        let ghost before = entries@;
        let ghost listed = commit_entries(found@.take(i as int), file_type);
        proof {
            assert(found@.take(i + 1).drop_last() =~= found@.take(i as int));
            assert(found@.take(i + 1).last() == found@[i as int]);
        }
        match &found[i] {
            Some(id) => {
                entries.push(DirectoryEntry { name: id.hex(), file_type });
                assert(virtual_file::entry_views(entries@) =~= virtual_file::entry_views(
                    before,
                ).push(entries@.last()@));
                assert(commit_entries(found@.take(i + 1), file_type) =~= listed.push(
                    EntryView { name: commit_id::hex_text(id@), file_type },
                ));
            },
            None => {
                assert(commit_entries(found@.take(i + 1), file_type) =~= listed);
            },
        }
        i = i + 1;
    }
    assert(found@.take(i as int) =~= found@);
    entries
}

impl CommitsDirectory {
    pub fn new(repo: Arc<RepoView>) -> (r: Self)
        ensures
            r@ == *repo,
    {
        CommitsDirectory { repo }
    }

    /// Lists the directory, given what the repository answers for the revset of `list`: an error
    /// message, or the commits, each `None` where it could not be read.
    pub fn list_found(&self, found: Result<Vec<Option<CommitId>>, String>) -> (r: JjResult<
        Vec<DirectoryEntry>,
    >)
        ensures
            match found {
                Ok(found) => r matches Ok(entries) && virtual_file::entry_views(entries@)
                    == commit_entries(found@, FileType::Directory),
                Err(message) => r == Err::<Vec<DirectoryEntry>, _>(
                    JjError::JjLibBackendError(message),
                ),
            },
    {
        match found {
            Ok(found) => Ok(list_commits(&found, FileType::Directory)),
            Err(message) => Err(JjError::JjLibBackendError(message)),
        }
    }
}

impl VirtualFile for CommitsDirectory {
    fn list(&self) -> (r: JjResult<Answer<Vec<DirectoryEntry>>>)
        ensures
            r matches Ok(Answer::Lookup(Query::Commits(set))) && set@ == RevsetView::All,
    {
        Ok(Answer::Lookup(Query::Commits(Revset::All)))
    }

    fn attributes(&self) -> (r: JjResult<Answer<FileAttributes>>)
        ensures
            r matches Ok(Answer::Ready(attributes)) && attributes == virtual_file::timeless(
                0,
                FileType::Directory,
            ),
    {
        Ok(Answer::Ready(virtual_file::directory_attributes()))
    }

    fn file_type(&self) -> (r: JjResult<Answer<FileType>>)
        ensures
            r matches Ok(Answer::Ready(FileType::Directory)),
    {
        Ok(Answer::Ready(FileType::Directory))
    }
}

/// The entries for two lists of commits, one after the other, are those of the first and then those
/// of the second.
pub(crate) proof fn lemma_entries_append(
    a: Seq<Option<CommitId>>,
    b: Seq<Option<CommitId>>,
    file_type: FileType,
)
    ensures
        commit_entries(a + b, file_type) == commit_entries(a, file_type) + commit_entries(
            b,
            file_type,
        ),
{
    commit_id::lemma_present_ids_append(a, b);
    assert(commit_entries(a + b, file_type) =~= commit_entries(a, file_type) + commit_entries(
        b,
        file_type,
    ));
}

/// A commit has one entry, with its id and the given type; what could not be read has none.
pub(crate) proof fn lemma_entries_single(term: Option<CommitId>, file_type: FileType)
    ensures
        match term {
            Some(id) => commit_entries(seq![term], file_type) == seq![
                EntryView { name: commit_id::hex_text(id@), file_type },
            ],
            None => commit_entries(seq![term], file_type) == Seq::<EntryView>::empty(),
        },
{
    commit_id::lemma_present_ids_single(term);
    match term {
        Some(id) => assert(commit_entries(seq![term], file_type) =~= seq![
            EntryView { name: commit_id::hex_text(id@), file_type },
        ]),
        None => assert(commit_entries(seq![term], file_type) =~= Seq::<EntryView>::empty()),
    }
}

/// What is found in two parts is listed as the first part and then the second. One commit is listed
/// as a directory with its id, and one that could not be read is not listed.
pub proof fn lemma_list_by_parts(
    directory: CommitsDirectory,
    first: Vec<Option<CommitId>>,
    second: Vec<Option<CommitId>>,
    whole: Vec<Option<CommitId>>,
    listed_first: JjResult<Vec<DirectoryEntry>>,
    listed_second: JjResult<Vec<DirectoryEntry>>,
    listed: JjResult<Vec<DirectoryEntry>>,
)
    requires
        whole@ == first@ + second@,
        call_ensures(CommitsDirectory::list_found, (&directory, Ok(first)), listed_first),
        call_ensures(CommitsDirectory::list_found, (&directory, Ok(second)), listed_second),
        call_ensures(CommitsDirectory::list_found, (&directory, Ok(whole)), listed),
    ensures
        listed_first matches Ok(a) && listed_second matches Ok(b) && listed matches Ok(all)
            && virtual_file::entry_views(all@) == virtual_file::entry_views(a@)
            + virtual_file::entry_views(b@),
        second@.len() == 1 ==> match second@[0] {
            Some(id) => listed_second->Ok_0@.len() == 1 && listed_second->Ok_0@[0].name@
                == commit_id::hex_text(id@) && listed_second->Ok_0@[0].file_type
                == FileType::Directory,
            None => listed_second->Ok_0@.len() == 0,
        },
{
    lemma_entries_append(first@, second@, FileType::Directory);
    if second@.len() == 1 {
        assert(second@ =~= seq![second@[0]]);
        lemma_entries_single(second@[0], FileType::Directory);
        let views = virtual_file::entry_views(listed_second->Ok_0@);
        assert(views.len() == listed_second->Ok_0@.len());
        if second@[0] is Some {
            assert(views[0] == listed_second->Ok_0@[0]@);
        }
    }
}

/// Every commit of the repository is asked for, and nothing else.
pub proof fn lemma_all_commits_asked(
    directory: CommitsDirectory,
    history: History,
    commit: Seq<u8>,
    r: JjResult<Answer<Vec<DirectoryEntry>>>,
)
    requires
        call_ensures(CommitsDirectory::list, (&directory,), r),
    ensures
        r matches Ok(Answer::Lookup(Query::Commits(set))) && (set@.members(history).contains(commit)
            <==> history.contains_key(commit)),
{
}

/// The message of an error in finding the commits is handed on.
pub proof fn lemma_list_error(
    directory: CommitsDirectory,
    message: String,
    r: JjResult<Vec<DirectoryEntry>>,
)
    requires
        call_ensures(CommitsDirectory::list_found, (&directory, Err(message)), r),
    ensures
        r == Err::<Vec<DirectoryEntry>, _>(JjError::JjLibBackendError(message)),
{
}

} // verus!
