//! The directory of all commits, with interned names.

use std::sync::Arc;

use vstd::prelude::*;

use crate::commit_id;
use crate::commit_id::CommitId;
use crate::file::{File, FileType};
use crate::jj_error::{JjError, JjResult};
use crate::jj_filesystem::VirtualFile;
use crate::repo_view::RepoView;
use crate::revset::{History, Revset, RevsetView};
use crate::virtual_file::{Answer, Found, Query};

verus! {

/// A directory that lists all commits of the repository, each as a directory.
pub struct CommitsDirectory {
    repo: Arc<RepoView>,
}

impl View for CommitsDirectory {
    type V = RepoView;

    closed spec fn view(&self) -> RepoView {
        *self.repo
    }
}

/// Whether files are directories named after commits. What could not be read is left out.
pub open spec fn are_commits(found: Seq<Option<CommitId>>, files: Seq<File>) -> bool {
    let ids = commit_id::present_ids(found);
    &&& files.len() == ids.len()
    &&& forall|i: int|
        0 <= i < files.len() ==> (#[trigger] files[i]).name@ == commit_id::hex_text(ids[i])
            && files[i].file_type == FileType::Directory
}

impl CommitsDirectory {
    pub fn new(repo: Arc<RepoView>) -> (r: Self)
        ensures
            r@ == *repo,
    {
        CommitsDirectory { repo }
    }

    /// Lists the directory, given what the repository answers for the revset of `list`: an error
    /// message, or the commits, each `None` where it could not be read.
    pub fn list_found(&self, found: Found<Vec<Option<CommitId>>>) -> (r: JjResult<Vec<File>>)
        ensures
            match found {
                Ok(found) => r matches Ok(files) && are_commits(found@, files@),
                Err(message) => r == Err::<Vec<File>, _>(JjError::JjLibBackendError(message)),
            },
    {
        let found = match found {
            Ok(found) => found,
            Err(message) => return Err(JjError::JjLibBackendError(message)),
        };
        let mut files: Vec<File> = Vec::new();
        let mut i: usize = 0;
        assert(are_commits(found@.take(0), files@));
        while i < found.len()
            invariant
                i <= found@.len(),
                are_commits(found@.take(i as int), files@),
            decreases found@.len() - i,
        {
            proof {
                assert(found@.take(i + 1).drop_last() =~= found@.take(i as int));
                assert(found@.take(i + 1).last() == found@[i as int]);
            }
            match &found[i] {
                Some(id) => {
                    let hex = id.hex();
                    files.push(File::new(hex.as_str(), FileType::Directory));
                },
                None => {},
            }
            i = i + 1;
        }
        assert(found@.take(i as int) =~= found@);
        Ok(files)
    }
}

impl VirtualFile for CommitsDirectory {
    fn read(&self) -> (r: JjResult<Answer<Vec<u8>>>)
        ensures
            r == Err::<Answer<Vec<u8>>, _>(JjError::NotAFile),
    {
        Err(JjError::NotAFile)
    }

    fn list(&self) -> (r: JjResult<Answer<Vec<File>>>)
        ensures
            r matches Ok(Answer::Lookup(Query::Commits(set))) && set@ == RevsetView::All,
    {
        Ok(Answer::Lookup(Query::Commits(Revset::All)))
    }

    fn size(&self) -> (r: JjResult<Answer<u64>>)
        ensures
            r == Ok::<_, JjError>(Answer::Ready(0u64)),
    {
        Ok(Answer::Ready(0))
    }

    fn file_type(&self) -> (r: JjResult<Answer<FileType>>)
        ensures
            r == Ok::<_, JjError>(Answer::Ready(FileType::Directory)),
    {
        Ok(Answer::Ready(FileType::Directory))
    }
}

/// What is found in two parts is listed as the first part and then the second. One commit is listed
/// as a directory with its id, and one that could not be read is not listed.
pub proof fn lemma_list_by_parts(
    directory: CommitsDirectory,
    first: Vec<Option<CommitId>>,
    second: Vec<Option<CommitId>>,
    whole: Vec<Option<CommitId>>,
    listed_first: JjResult<Vec<File>>,
    listed_second: JjResult<Vec<File>>,
    listed: JjResult<Vec<File>>,
)
    requires
        whole@ == first@ + second@,
        call_ensures(CommitsDirectory::list_found, (&directory, Ok(first)), listed_first),
        call_ensures(CommitsDirectory::list_found, (&directory, Ok(second)), listed_second),
        call_ensures(CommitsDirectory::list_found, (&directory, Ok(whole)), listed),
    ensures
        listed_first matches Ok(a) && listed_second matches Ok(b) && listed matches Ok(all)
            && all@.len() == a@.len() + b@.len() && (forall|i: int|
            0 <= i < a@.len() ==> (#[trigger] all@[i]).name@ == a@[i].name@ && all@[i].file_type
                == a@[i].file_type) && forall|i: int|
            0 <= i < b@.len() ==> (#[trigger] b@[i]).name@ == all@[a@.len() + i].name@
                && b@[i].file_type == all@[a@.len() + i].file_type,
        second@.len() == 1 ==> match second@[0] {
            Some(id) => listed_second->Ok_0@.len() == 1 && listed_second->Ok_0@[0].name@
                == commit_id::hex_text(id@) && listed_second->Ok_0@[0].file_type
                == FileType::Directory,
            None => listed_second->Ok_0@.len() == 0,
        },
{
    commit_id::lemma_present_ids_append(first@, second@);
    if second@.len() == 1 {
        assert(second@ =~= seq![second@[0]]);
        commit_id::lemma_present_ids_single(second@[0]);
    }
}

/// Every commit of the repository is asked for, and nothing else.
pub proof fn lemma_all_commits_asked(
    directory: CommitsDirectory,
    history: History,
    commit: Seq<u8>,
    r: JjResult<Answer<Vec<File>>>,
)
    requires
        call_ensures(CommitsDirectory::list, (&directory,), r),
    ensures
        r matches Ok(Answer::Lookup(Query::Commits(set))) && (set@.members(history).contains(commit)
            <==> history.contains_key(commit)),
{
}

/// The directory of commits can be listed alone, and has no size.
pub proof fn lemma_directory_requests(
    directory: CommitsDirectory,
    content: JjResult<Answer<Vec<u8>>>,
    size: JjResult<Answer<u64>>,
    kind: JjResult<Answer<FileType>>,
)
    requires
        call_ensures(CommitsDirectory::read, (&directory,), content),
        call_ensures(CommitsDirectory::size, (&directory,), size),
        call_ensures(CommitsDirectory::file_type, (&directory,), kind),
    ensures
        content == Err::<Answer<Vec<u8>>, _>(JjError::NotAFile),
        size matches Ok(Answer::Ready(0)),
        kind matches Ok(Answer::Ready(FileType::Directory)),
{
}

/// The message of an error in finding the commits is handed on.
pub proof fn lemma_list_error(directory: CommitsDirectory, message: String, r: JjResult<Vec<File>>)
    requires
        call_ensures(CommitsDirectory::list_found, (&directory, Err(message)), r),
    ensures
        r == Err::<Vec<File>, _>(JjError::JjLibBackendError(message)),
{
}

} // verus!
