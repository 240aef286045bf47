//! The directory of workspaces.

use std::sync::Arc;

use vstd::prelude::*;

use crate::jj_error::JjResult;
use crate::repo_view;
use crate::repo_view::RepoView;
use crate::text;
use crate::virtual_file;
use crate::virtual_file::{Answer, DirectoryEntry, FileAttributes, FileType, VirtualFile};

verus! {

/// A directory of the workspaces of the repository.
pub struct WorkspacesDirectory {
    repo: Arc<RepoView>,
}

impl View for WorkspacesDirectory {
    type V = RepoView;

    closed spec fn view(&self) -> RepoView {
        *self.repo
    }
}

impl WorkspacesDirectory {
    pub fn new(repo: Arc<RepoView>) -> (r: Self)
        ensures
            r@ == *repo,
    {
        WorkspacesDirectory { repo }
    }
}

/// Each workspace is listed once, in the order of the names, and nothing else is listed.
pub proof fn lemma_listed_once(repo: RepoView, name: Seq<char>)
    requires
        repo.wf(),
    ensures
        text::ascends(repo_view::workspace_names(repo.wc_commit_ids@)),
        repo_view::workspace_names(repo.wc_commit_ids@).no_duplicates(),
        repo_view::workspace_names(repo.wc_commit_ids@).contains(name) <==> repo.wc_commit_id(
            name,
        ) is Some,
{
    let names = repo_view::workspace_names(repo.wc_commit_ids@);
    text::lemma_ascends_distinct(names);
    names.index_of_first_ensures(name);
}

impl VirtualFile for WorkspacesDirectory {
    fn list(&self) -> (r: JjResult<Answer<Vec<DirectoryEntry>>>)
        ensures
            r matches Ok(Answer::Ready(entries)) && virtual_file::entry_views(entries@)
                == virtual_file::named_entries(
                repo_view::workspace_names(self@.wc_commit_ids@),
                FileType::Directory,
            ),
    {
        let workspaces = &self.repo.wc_commit_ids;
        let mut entries: Vec<DirectoryEntry> = Vec::new();
        let mut i: usize = 0;
        while i < workspaces.len()
            invariant
                i <= workspaces@.len(),
                entries@.len() == i,
                forall|j: int|
                    0 <= j < i ==> (#[trigger] entries@[j]).name@ == workspaces@[j].name@
                        && entries@[j].file_type == FileType::Directory,
            decreases workspaces@.len() - i,
        {
            let name = workspaces[i].name.clone();
            entries.push(DirectoryEntry { name, file_type: FileType::Directory });
            i = i + 1;
        }
        assert(virtual_file::entry_views(entries@) =~= virtual_file::named_entries(
            repo_view::workspace_names(self@.wc_commit_ids@),
            FileType::Directory,
        ));
        Ok(Answer::Ready(entries))
    }

    fn attributes(&self) -> (r: JjResult<Answer<FileAttributes>>)
        ensures
            r matches Ok(Answer::Ready(attributes)) && attributes == virtual_file::timeless(
                0,
                FileType::Directory,
            ),
    {
        Ok(Answer::Ready(virtual_file::directory_attributes()))
    }

    fn file_type(&self) -> (r: JjResult<Answer<FileType>>)
        ensures
            r matches Ok(Answer::Ready(FileType::Directory)),
    {
        Ok(Answer::Ready(FileType::Directory))
    }
}

/// The workspaces are listed in their order, each as a directory with its name.
pub proof fn lemma_listed_workspaces(
    directory: WorkspacesDirectory,
    r: JjResult<Answer<Vec<DirectoryEntry>>>,
)
    requires
        call_ensures(WorkspacesDirectory::list, (&directory,), r),
    ensures
        r matches Ok(Answer::Ready(entries)) && entries@.len() == directory@.wc_commit_ids@.len()
            && forall|i: int|
            0 <= i < entries@.len() ==> (#[trigger] entries@[i]).name@
                == directory@.wc_commit_ids@[i].name@ && entries@[i].file_type
                == FileType::Directory,
{
    let entries = r->Ok_0->Ready_0@;
    let views = virtual_file::entry_views(entries);
    let names = repo_view::workspace_names(directory@.wc_commit_ids@);
    assert(views.len() == entries.len());
    assert(names.len() == directory@.wc_commit_ids@.len());
    assert forall|i: int| 0 <= i < entries.len() implies (#[trigger] entries[i]).name@
        == directory@.wc_commit_ids@[i].name@ && entries[i].file_type == FileType::Directory by {
        assert(views[i] == entries[i]@);
        assert(names[i] == directory@.wc_commit_ids@[i].name@);
    }
}

} // verus!
