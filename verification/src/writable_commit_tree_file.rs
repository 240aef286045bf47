//! Files in the commit that a workspace has checked out.

use std::sync::Arc;

use vstd::prelude::*;
use vstd::string::*;

use crate::commit_id::CommitId;
use crate::commit_tree_file::CommitTreeFile;
use crate::jj_error::{JjError, JjResult};
use crate::repo_view;
use crate::repo_view::{RepoView, WorkspaceCommit};
use crate::text;
use crate::tree::TreeValue;
use crate::virtual_file::{
    Answer, CreateFile, DirectoryEntry, FileAttributes, FileType, Found, Query, VirtualFile,
};

verus! {

/// The file, directory or symlink at a path of the commit that a workspace has checked out.
pub struct WritableCommitTreeFile {
    repo: Arc<RepoView>,
    workspace_name: String,
    path: String,
}

/// Whether the answer is to load the commit that is checked out.
pub open spec fn is_checkout_lookup<Reply>(
    commit: Option<Seq<u8>>,
    r: JjResult<Answer<Reply>>,
) -> bool {
    match commit {
        Some(commit) => r matches Ok(Answer::Lookup(Query::Commit(id))) && id@ == commit,
        None => r == Err::<Answer<Reply>, _>(JjError::NotFound),
    }
}

impl WritableCommitTreeFile {
    /// The commit that the workspace has checked out.
    pub closed spec fn wc_commit(&self) -> Option<Seq<u8>> {
        self.repo.wc_commit_id(self.workspace_name@)
    }

    /// The path in the commit.
    pub closed spec fn path(&self) -> Seq<char> {
        self.path@
    }

    pub fn new(repo: Arc<RepoView>, workspace_name: String, path: String) -> (r: Self)
        ensures
            r.wc_commit() == repo.wc_commit_id(workspace_name@),
            r.path() == path@,
    {
        WritableCommitTreeFile { repo, workspace_name, path }
    }

    /// The commit that the workspace has checked out.
    pub fn wc_commit_id(&self) -> (r: JjResult<CommitId>)
        ensures
            match self.wc_commit() {
                Some(commit) => r matches Ok(id) && id@ == commit,
                None => r == Err::<CommitId, _>(JjError::NotFound),
            },
    {
        match self.repo.get_wc_commit_id(self.workspace_name.as_str()) {
            Some(commit_id) => Ok(commit_id.clone()),
            None => Err(JjError::NotFound),
        }
    }

    /// The path in the commit that is checked out, given whether the commit could be loaded or the
    /// message of the error.
    pub fn to_readonly(&self, loaded: Found<()>) -> (r: JjResult<CommitTreeFile>)
        ensures
            match self.wc_commit() {
                Some(commit) => match loaded {
                    Ok(_) => r matches Ok(file) && file.commit() == commit && file.path()
                        == self.path(),
                    Err(message) => r == Err::<CommitTreeFile, _>(
                        JjError::JjLibBackendError(message),
                    ),
                },
                None => r == Err::<CommitTreeFile, _>(JjError::NotFound),
            },
    {
        match self.wc_commit_id() {
            Ok(commit_id) => CommitTreeFile::new(commit_id, self.path.clone(), loaded),
            Err(error) => Err(error),
        }
    }
}

impl VirtualFile for WritableCommitTreeFile {
    fn read(&self) -> (r: JjResult<Answer<Vec<u8>>>)
        ensures
            is_checkout_lookup(self.wc_commit(), r),
    {
        match self.wc_commit_id() {
            Ok(commit_id) => Ok(Answer::Lookup(Query::Commit(commit_id))),
            Err(error) => Err(error),
        }
    }

    fn list(&self) -> (r: JjResult<Answer<Vec<DirectoryEntry>>>)
        ensures
            is_checkout_lookup(self.wc_commit(), r),
    {
        match self.wc_commit_id() {
            Ok(commit_id) => Ok(Answer::Lookup(Query::Commit(commit_id))),
            Err(error) => Err(error),
        }
    }

    fn read_link(&self) -> (r: JjResult<Answer<String>>)
        ensures
            is_checkout_lookup(self.wc_commit(), r),
    {
        match self.wc_commit_id() {
            Ok(commit_id) => Ok(Answer::Lookup(Query::Commit(commit_id))),
            Err(error) => Err(error),
        }
    }

    fn attributes(&self) -> (r: JjResult<Answer<FileAttributes>>)
        ensures
            is_checkout_lookup(self.wc_commit(), r),
    {
        match self.wc_commit_id() {
            Ok(commit_id) => Ok(Answer::Lookup(Query::Commit(commit_id))),
            Err(error) => Err(error),
        }
    }

    fn file_type(&self) -> (r: JjResult<Answer<FileType>>)
        ensures
            is_checkout_lookup(self.wc_commit(), r),
    {
        match self.wc_commit_id() {
            Ok(commit_id) => Ok(Answer::Lookup(Query::Commit(commit_id))),
            Err(error) => Err(error),
        }
    }
}

/// A step of changing a file in the commit that a workspace has checked out.
#[derive(Debug, PartialEq, Eq)]
pub enum UpdateAction<'a> {
    /// Load the commit.
    LoadCommit(&'a CommitId),
    /// Write the tree of the commit with the given value at the path, or nothing there.
    WriteTree { path: &'a str, value: &'a Option<TreeValue> },
    /// Start a transaction and rewrite the commit with the new tree.
    RewriteCommit,
    /// Let a workspace check out the new commit.
    SetWcCommit(&'a str),
    /// Rebase the descendants of the commit.
    RebaseDescendants,
    /// Commit the transaction under a description.
    CommitTransaction(&'a str),
}

/// A step with its id or name as a sequence.
pub enum UpdateActionView {
    LoadCommit(Seq<u8>),
    WriteTree(Seq<char>, Option<TreeValue>),
    RewriteCommit,
    SetWcCommit(Seq<char>),
    RebaseDescendants,
    CommitTransaction(Seq<char>),
}

impl<'a> View for UpdateAction<'a> {
    type V = UpdateActionView;

    open spec fn view(&self) -> UpdateActionView {
        match self {
            UpdateAction::LoadCommit(id) => UpdateActionView::LoadCommit(id@),
            UpdateAction::WriteTree { path, value } => UpdateActionView::WriteTree(path@, **value),
            UpdateAction::RewriteCommit => UpdateActionView::RewriteCommit,
            UpdateAction::SetWcCommit(name) => UpdateActionView::SetWcCommit(name@),
            UpdateAction::RebaseDescendants => UpdateActionView::RebaseDescendants,
            UpdateAction::CommitTransaction(description) => UpdateActionView::CommitTransaction(
                description@,
            ),
        }
    }
}

/// The names of the workspaces that have a commit checked out.
pub open spec fn workspaces_at(workspaces: Seq<WorkspaceCommit>, commit: Seq<u8>) -> Seq<Seq<char>>
    decreases workspaces.len(),
{
    if workspaces.len() == 0 {
        Seq::empty()
    } else {
        let names = workspaces_at(workspaces.drop_last(), commit);
        if workspaces.last().commit_id@ == commit {
            names.push(workspaces.last().name@)
        } else {
            names
        }
    }
}

/// The steps of changing what is at a path of a commit that the given workspaces have checked out.
pub open spec fn update_steps(
    commit: Seq<u8>,
    workspaces: Seq<Seq<char>>,
    path: Seq<char>,
    value: Option<TreeValue>,
    description: Seq<char>,
) -> Seq<UpdateActionView> {
    seq![
        UpdateActionView::LoadCommit(commit),
        UpdateActionView::WriteTree(path, value),
        UpdateActionView::RewriteCommit,
    ] + workspaces.map_values(|name: Seq<char>| UpdateActionView::SetWcCommit(name)) + seq![
        UpdateActionView::RebaseDescendants,
        UpdateActionView::CommitTransaction(description),
    ]
}

/// The error of a step that failed with a message.
pub open spec fn update_error(action: UpdateActionView, message: String) -> JjError {
    match action {
        UpdateActionView::LoadCommit(_) => JjError::JjLibBackendError(message),
        UpdateActionView::WriteTree(_, _) => JjError::JjLibBackendError(message),
        UpdateActionView::RewriteCommit => JjError::JjLibBackendError(message),
        UpdateActionView::SetWcCommit(_) => JjError::InvalidPath,
        UpdateActionView::RebaseDescendants => JjError::IO(message),
        UpdateActionView::CommitTransaction(_) => JjError::IO(message),
    }
}

/// The next step of an update.
enum UpdateState {
    LoadCommit,
    WriteTree,
    RewriteCommit,
    SetWcCommit(usize),
    RebaseDescendants,
    CommitTransaction,
    Finished,
}

/// A change of a file in the commit that a workspace has checked out.
///
/// All workspaces with that commit go on to the rewritten one.
pub struct FileUpdate {
    commit_id: CommitId,
    workspaces: Vec<String>,
    path: String,
    value: Option<TreeValue>,
    description: String,
    state: UpdateState,
}

impl FileUpdate {
    /// The steps of the update.
    pub closed spec fn steps(&self) -> Seq<UpdateActionView> {
        update_steps(
            self.commit_id@,
            text::views(self.workspaces@),
            self.path@,
            self.value,
            self.description@,
        )
    }

    /// How many steps are done.
    pub closed spec fn done(&self) -> int {
        match self.state {
            UpdateState::LoadCommit => 0,
            UpdateState::WriteTree => 1,
            UpdateState::RewriteCommit => 2,
            UpdateState::SetWcCommit(i) => 3 + i,
            UpdateState::RebaseDescendants => 3 + self.workspaces@.len() as int,
            UpdateState::CommitTransaction => 4 + self.workspaces@.len() as int,
            UpdateState::Finished => 5 + self.workspaces@.len() as int,
        }
    }

    /// There is a workspace to go on to the rewritten commit, and the next step is one of the
    /// update.
    pub closed spec fn wf(&self) -> bool {
        &&& self.workspaces@.len() > 0
        &&& self.state matches UpdateState::SetWcCommit(i) ==> i < self.workspaces@.len()
    }

    /// The change of a path in the commit that a workspace has checked out, to a value or to
    /// nothing.
    pub fn new(
        repo: &RepoView,
        workspace_name: &str,
        path: String,
        value: Option<TreeValue>,
        description: String,
    ) -> (r: JjResult<Self>)
        ensures
            match repo.wc_commit_id(workspace_name@) {
                Some(commit) => r matches Ok(update) && update.wf() && update.done() == 0
                    && update.steps() == update_steps(
                    commit,
                    workspaces_at(repo.wc_commit_ids@, commit),
                    path@,
                    value,
                    description@,
                ),
                None => r == Err::<Self, _>(JjError::NotFound),
            },
    {
        let commit_id = match repo.get_wc_commit_id(workspace_name) {
            Some(commit_id) => commit_id,
            None => return Err(JjError::NotFound),
        };
        let all = &repo.wc_commit_ids;
        let mut workspaces: Vec<String> = Vec::new();
        let mut i: usize = 0;
        assert(text::views(workspaces@) =~= workspaces_at(all@.take(0), commit_id@));
        while i < all.len()
            invariant
                i <= all@.len(),
                text::views(workspaces@) == workspaces_at(all@.take(i as int), commit_id@),
            decreases all@.len() - i,
        {
            let ghost before = text::views(workspaces@);
            proof {
                assert(all@.take(i + 1).drop_last() =~= all@.take(i as int));
                assert(all@.take(i + 1).last() == all@[i as int]);
            }
            if all[i].commit_id.same(commit_id) {
                workspaces.push(all[i].name.clone());
                assert(text::views(workspaces@) =~= before.push(all@[i as int].name@));
            }
            i = i + 1;
        }
        proof {
            assert(all@.take(i as int) =~= all@);
            lemma_own_workspace(*repo, workspace_name@);
            assert(text::views(workspaces@).len() == workspaces@.len());
        }
        Ok(
            FileUpdate {
                commit_id: commit_id.clone(),
                workspaces,
                path,
                value,
                description,
                state: UpdateState::LoadCommit,
            },
        )
    }

    /// The step to take now, or nothing where the update is finished.
    pub fn action(&self) -> (r: Option<UpdateAction<'_>>)
        requires
            self.wf(),
        ensures
            match r {
                Some(action) => 0 <= self.done() < self.steps().len() && action@
                    == self.steps()[self.done()],
                None => self.done() == self.steps().len(),
            },
    {
        match self.state {
            UpdateState::LoadCommit => Some(UpdateAction::LoadCommit(&self.commit_id)),
            UpdateState::WriteTree => Some(
                UpdateAction::WriteTree { path: self.path.as_str(), value: &self.value },
            ),
            UpdateState::RewriteCommit => Some(UpdateAction::RewriteCommit),
            UpdateState::SetWcCommit(i) => {
                let name = self.workspaces[i].as_str();
                assert(text::views(self.workspaces@)[i as int] == name@);
                Some(UpdateAction::SetWcCommit(name))
            },
            UpdateState::RebaseDescendants => Some(UpdateAction::RebaseDescendants),
            UpdateState::CommitTransaction => Some(
                UpdateAction::CommitTransaction(self.description.as_str()),
            ),
            UpdateState::Finished => None,
        }
    }

    /// Goes on after a step, given that it was done or the message of the error in it.
    pub fn advance(&mut self, outcome: Found<()>) -> (r: JjResult<()>)
        requires
            old(self).wf(),
            old(self).done() < old(self).steps().len(),
        ensures
            final(self).wf(),
            final(self).steps() == old(self).steps(),
            match outcome {
                Ok(_) => r == Ok::<(), JjError>(()) && final(self).done() == old(self).done() + 1,
                Err(message) => r == Err::<(), _>(
                    update_error(old(self).steps()[old(self).done()], message),
                ) && final(self).done() == old(self).done(),
            },
    {
        let message = match outcome {
            Ok(_) => {
                self.state = match self.state {
                    UpdateState::LoadCommit => UpdateState::WriteTree,
                    UpdateState::WriteTree => UpdateState::RewriteCommit,
                    UpdateState::RewriteCommit => UpdateState::SetWcCommit(0),
                    UpdateState::SetWcCommit(i) => if i < self.workspaces.len() - 1 {
                        UpdateState::SetWcCommit(i + 1)
                    } else {
                        UpdateState::RebaseDescendants
                    },
                    UpdateState::RebaseDescendants => UpdateState::CommitTransaction,
                    _ => UpdateState::Finished,
                };
                return Ok(());
            },
            Err(message) => message,
        };
        Err(
            match self.state {
                UpdateState::LoadCommit => JjError::JjLibBackendError(message),
                UpdateState::WriteTree => JjError::JjLibBackendError(message),
                UpdateState::RewriteCommit => JjError::JjLibBackendError(message),
                UpdateState::SetWcCommit(_) => JjError::InvalidPath,
                _ => JjError::IO(message),
            },
        )
    }
}

/// The error of an update whose task could not be run.
pub fn task_error(message: &str) -> (r: JjError)
    ensures
        r matches JjError::IO(text) && text@ == "spawn_blocking failed: "@ + message@,
{
    JjError::IO("spawn_blocking failed: ".to_owned().concat(message))
}

/// A workspace is among those that go on to the rewritten commit of its update.
pub proof fn lemma_own_workspace(repo: RepoView, name: Seq<char>)
    requires
        repo.wc_commit_id(name) is Some,
    ensures
        workspaces_at(repo.wc_commit_ids@, repo.wc_commit_id(name)->0).contains(name),
{
    let commit = repo.wc_commit_id(name)->0;
    let names = repo_view::workspace_names(repo.wc_commit_ids@);
    names.index_of_first_ensures(name);
    let i = names.index_of_first(name)->0;
    lemma_workspaces_at(repo.wc_commit_ids@, commit, i);
}

/// An update lets a workspace check out the rewritten commit exactly where it has the commit checked
/// out that is rewritten.
pub proof fn lemma_update_moves_checkouts(
    repo: RepoView,
    commit: Seq<u8>,
    path: Seq<char>,
    value: Option<TreeValue>,
    description: Seq<char>,
    name: Seq<char>,
)
    ensures
        update_steps(
            commit,
            workspaces_at(repo.wc_commit_ids@, commit),
            path,
            value,
            description,
        ).contains(UpdateActionView::SetWcCommit(name)) <==> exists|i: int|
            0 <= i < repo.wc_commit_ids@.len() && (#[trigger] repo.wc_commit_ids@[i]).name@ == name
                && repo.wc_commit_ids@[i].commit_id@ == commit,
{
    let all = repo.wc_commit_ids@;
    let names = workspaces_at(all, commit);
    let steps = update_steps(commit, names, path, value, description);
    let step = UpdateActionView::SetWcCommit(name);
    if steps.contains(step) {
        let k = choose|k: int| 0 <= k < steps.len() && steps[k] == step;
        assert(3 <= k < 3 + names.len());
        assert(names[k - 3] == name);
        lemma_workspace_of(all, commit, k - 3);
    }
    if exists|i: int|
        0 <= i < all.len() && (#[trigger] all[i]).name@ == name && all[i].commit_id@ == commit {
        let i = choose|i: int|
            0 <= i < all.len() && (#[trigger] all[i]).name@ == name && all[i].commit_id@ == commit;
        lemma_workspaces_at(all, commit, i);
        let k = choose|k: int| 0 <= k < names.len() && names[k] == name;
        assert(steps[3 + k] == step);
    }
}

proof fn lemma_workspace_of(workspaces: Seq<WorkspaceCommit>, commit: Seq<u8>, k: int)
    requires
        0 <= k < workspaces_at(workspaces, commit).len(),
    ensures
        exists|i: int|
            0 <= i < workspaces.len() && (#[trigger] workspaces[i]).name@ == workspaces_at(
                workspaces,
                commit,
            )[k] && workspaces[i].commit_id@ == commit,
    decreases workspaces.len(),
{
    let rest = workspaces.drop_last();
    let names = workspaces_at(rest, commit);
    if k < names.len() {
        lemma_workspace_of(rest, commit, k);
        let i = choose|i: int|
            0 <= i < rest.len() && (#[trigger] rest[i]).name@ == names[k] && rest[i].commit_id@
                == commit;
        assert(workspaces[i] == rest[i]);
    } else {
        assert(workspaces[workspaces.len() - 1].commit_id@ == commit);
    }
}

proof fn lemma_workspaces_at(workspaces: Seq<WorkspaceCommit>, commit: Seq<u8>, i: int)
    requires
        0 <= i < workspaces.len(),
        workspaces[i].commit_id@ == commit,
    ensures
        workspaces_at(workspaces, commit).contains(workspaces[i].name@),
    decreases workspaces.len(),
{
    let all = workspaces_at(workspaces, commit);
    if i == workspaces.len() - 1 {
        assert(all.last() == workspaces[i].name@);
    } else {
        let rest = workspaces_at(workspaces.drop_last(), commit);
        lemma_workspaces_at(workspaces.drop_last(), commit, i);
        let k = choose|k: int| 0 <= k < rest.len() && rest[k] == workspaces[i].name@;
        assert(all[k] == workspaces[i].name@);
    }
}

/// The update of a path in a workspace loads the commit that the workspace has checked out, writes the
/// value at the path, and rewrites the commit. Then it moves workspaces and nothing else, and at last
/// it rebases the descendants and commits under the description.
pub proof fn lemma_update_plan(
    repo: RepoView,
    i: int,
    workspace_name: &str,
    path: String,
    value: Option<TreeValue>,
    description: String,
    r: JjResult<FileUpdate>,
)
    requires
        repo.wf(),
        0 <= i < repo.wc_commit_ids@.len(),
        workspace_name@ == repo.wc_commit_ids@[i].name@,
        call_ensures(FileUpdate::new, (&repo, workspace_name, path, value, description), r),
    ensures
        r matches Ok(update) && update.wf() && update.done() == 0 && ({
            let steps = update.steps();
            let n = steps.len() as int;
            &&& n >= 6
            &&& steps[0] == UpdateActionView::LoadCommit(repo.wc_commit_ids@[i].commit_id@)
            &&& steps[1] == UpdateActionView::WriteTree(path@, value)
            &&& steps[2] == UpdateActionView::RewriteCommit
            &&& forall|k: int| 3 <= k < n - 2 ==> (#[trigger] steps[k]) is SetWcCommit
            &&& steps[n - 2] == UpdateActionView::RebaseDescendants
            &&& steps[n - 1] == UpdateActionView::CommitTransaction(description@)
        }),
{
    let names = repo_view::workspace_names(repo.wc_commit_ids@);
    text::lemma_ascends_distinct(names);
    assert(names[i] == workspace_name@);
    assert(names.contains(workspace_name@));
    names.index_of_first_ensures(workspace_name@);
    lemma_own_workspace(repo, workspace_name@);
}

/// The update of a path in a workspace moves exactly the workspaces that have the same commit checked
/// out, the workspace itself among them, and each once.
pub proof fn lemma_moved_workspaces(
    repo: RepoView,
    i: int,
    workspace_name: &str,
    path: String,
    value: Option<TreeValue>,
    description: String,
    r: JjResult<FileUpdate>,
    name: Seq<char>,
)
    requires
        repo.wf(),
        0 <= i < repo.wc_commit_ids@.len(),
        workspace_name@ == repo.wc_commit_ids@[i].name@,
        call_ensures(FileUpdate::new, (&repo, workspace_name, path, value, description), r),
    ensures
        r matches Ok(update) && (update.steps().contains(UpdateActionView::SetWcCommit(name))
            <==> exists|j: int|
            0 <= j < repo.wc_commit_ids@.len() && (#[trigger] repo.wc_commit_ids@[j]).name@ == name
                && repo.wc_commit_ids@[j].commit_id@ == repo.wc_commit_ids@[i].commit_id@)
            && update.steps().contains(UpdateActionView::SetWcCommit(workspace_name@)),
        r matches Ok(update) && forall|j: int, k: int|
            0 <= j < k < update.steps().len() && (#[trigger] update.steps()[j]) is SetWcCommit
                ==> update.steps()[j] != #[trigger] update.steps()[k],
{
    let names = repo_view::workspace_names(repo.wc_commit_ids@);
    let commit = repo.wc_commit_ids@[i].commit_id@;
    text::lemma_ascends_distinct(names);
    assert(names[i] == workspace_name@);
    assert(names.contains(workspace_name@));
    names.index_of_first_ensures(workspace_name@);
    lemma_update_moves_checkouts(repo, commit, path@, value, description@, name);
    lemma_update_moves_checkouts(repo, commit, path@, value, description@, workspace_name@);
    lemma_moved_once(repo.wc_commit_ids@, commit);
    let moved = workspaces_at(repo.wc_commit_ids@, commit);
    let steps = r->Ok_0.steps();
    assert forall|j: int, k: int|
        0 <= j < k < steps.len() && (#[trigger] steps[j]) is SetWcCommit implies steps[j]
        != #[trigger] steps[k] by {
        assert(3 <= j < 3 + moved.len());
        if k < 3 + moved.len() {
            assert(moved[j - 3] != moved[k - 3]);
        }
    }
}

proof fn lemma_moved_once(workspaces: Seq<WorkspaceCommit>, commit: Seq<u8>)
    requires
        text::ascends(repo_view::workspace_names(workspaces)),
    ensures
        workspaces_at(workspaces, commit).no_duplicates(),
    decreases workspaces.len(),
{
    if workspaces.len() > 0 {
        let all = repo_view::workspace_names(workspaces);
        let rest = workspaces.drop_last();
        let names = workspaces_at(rest, commit);
        assert(repo_view::workspace_names(rest) =~= all.take(all.len() - 1));
        text::lemma_ascends_start(all, all.len() - 1);
        lemma_moved_once(rest, commit);
        assert forall|k: int| 0 <= k < names.len() implies names[k] != workspaces.last().name@ by {
            lemma_workspace_of(rest, commit, k);
            let j = choose|j: int|
                0 <= j < rest.len() && (#[trigger] rest[j]).name@ == names[k] && rest[j].commit_id@
                    == commit;
            assert(all[j] == names[k]);
            assert(text::text_lt(all[j], all[all.len() - 1]));
        }
    }
}

/// An update of a workspace that does not exist is not found.
pub proof fn lemma_no_update(
    repo: RepoView,
    workspace_name: &str,
    path: String,
    value: Option<TreeValue>,
    description: String,
    r: JjResult<FileUpdate>,
)
    requires
        forall|i: int|
            0 <= i < repo.wc_commit_ids@.len() ==> (#[trigger] repo.wc_commit_ids@[i]).name@
                != workspace_name@,
        call_ensures(FileUpdate::new, (&repo, workspace_name, path, value, description), r),
    ensures
        r == Err::<FileUpdate, _>(JjError::NotFound),
{
    let names = repo_view::workspace_names(repo.wc_commit_ids@);
    names.index_of_first_ensures(workspace_name@);
    if names.contains(workspace_name@) {
        let i = choose|i: int| 0 <= i < names.len() && names[i] == workspace_name@;
        assert(repo.wc_commit_ids@[i].name@ == workspace_name@);
    }
}

/// The steps are taken one after the other: the step to take is the one after those that are done, and
/// there is none once all are done.
pub proof fn lemma_step_to_take(update: FileUpdate, r: Option<UpdateAction<'_>>)
    requires
        update.wf(),
        call_ensures(FileUpdate::action, (&update,), r),
    ensures
        r is None <==> update.done() == update.steps().len(),
        r matches Some(action) ==> 0 <= update.done() < update.steps().len() && match action {
            UpdateAction::LoadCommit(id) => update.steps()[update.done()]
                == UpdateActionView::LoadCommit(id@),
            UpdateAction::WriteTree { path, value } => update.steps()[update.done()]
                == UpdateActionView::WriteTree(path@, *value),
            UpdateAction::RewriteCommit => update.steps()[update.done()]
                == UpdateActionView::RewriteCommit,
            UpdateAction::SetWcCommit(name) => update.steps()[update.done()]
                == UpdateActionView::SetWcCommit(name@),
            UpdateAction::RebaseDescendants => update.steps()[update.done()]
                == UpdateActionView::RebaseDescendants,
            UpdateAction::CommitTransaction(description) => update.steps()[update.done()]
                == UpdateActionView::CommitTransaction(description@),
        },
{
}

/// A step that was done is counted, and one that failed is not. A failure to move a workspace is an
/// invalid path; one of the steps before that is an error of the repository, and one of the steps after
/// it is an input or output error, both with the message.
pub proof fn lemma_step_taken()
    ensures
        forall|update: &mut FileUpdate, outcome: Found<()>, r: JjResult<()>| #[trigger]
            call_ensures(FileUpdate::advance, (update, outcome), r) && update.done()
                < update.steps().len() && 0 <= update.done() ==> {
                &&& final(update).wf()
                &&& final(update).steps() == update.steps()
                &&& outcome is Ok ==> r == Ok::<(), JjError>(()) && final(update).done()
                    == update.done() + 1
                &&& outcome matches Err(message) ==> final(update).done() == update.done() && r
                    == Err::<(), _>(match update.steps()[update.done()] {
                    UpdateActionView::SetWcCommit(_) => JjError::InvalidPath,
                    UpdateActionView::RebaseDescendants => JjError::IO(message),
                    UpdateActionView::CommitTransaction(_) => JjError::IO(message),
                    _ => JjError::JjLibBackendError(message),
                })
            },
{
}

/// A file of a workspace is the path of the commit that the workspace has checked out: every request
/// asks for that commit, and once it is loaded the file is at the same path of it.
pub proof fn lemma_workspace_file(
    repo: Arc<RepoView>,
    i: int,
    workspace_name: String,
    path: String,
    file: WritableCommitTreeFile,
    readonly: JjResult<CommitTreeFile>,
    content: JjResult<Answer<Vec<u8>>>,
    listed: JjResult<Answer<Vec<DirectoryEntry>>>,
    link: JjResult<Answer<String>>,
    attributes: JjResult<Answer<FileAttributes>>,
    kind: JjResult<Answer<FileType>>,
)
    requires
        repo.wf(),
        0 <= i < repo.wc_commit_ids@.len(),
        workspace_name@ == repo.wc_commit_ids@[i].name@,
        call_ensures(WritableCommitTreeFile::new, (repo, workspace_name, path), file),
        call_ensures(WritableCommitTreeFile::to_readonly, (&file, Ok(())), readonly),
        call_ensures(WritableCommitTreeFile::read, (&file,), content),
        call_ensures(WritableCommitTreeFile::list, (&file,), listed),
        call_ensures(WritableCommitTreeFile::read_link, (&file,), link),
        call_ensures(WritableCommitTreeFile::attributes, (&file,), attributes),
        call_ensures(WritableCommitTreeFile::file_type, (&file,), kind),
    ensures
        readonly matches Ok(found) && found.commit() == repo.wc_commit_ids@[i].commit_id@
            && found.path() == path@,
        content matches Ok(Answer::Lookup(Query::Commit(id))) && id@
            == repo.wc_commit_ids@[i].commit_id@,
        listed matches Ok(Answer::Lookup(Query::Commit(id))) && id@
            == repo.wc_commit_ids@[i].commit_id@,
        link matches Ok(Answer::Lookup(Query::Commit(id))) && id@
            == repo.wc_commit_ids@[i].commit_id@,
        attributes matches Ok(Answer::Lookup(Query::Commit(id))) && id@
            == repo.wc_commit_ids@[i].commit_id@,
        kind matches Ok(Answer::Lookup(Query::Commit(id))) && id@
            == repo.wc_commit_ids@[i].commit_id@,
{
    let names = repo_view::workspace_names(repo.wc_commit_ids@);
    text::lemma_ascends_distinct(names);
    assert(names[i] == workspace_name@);
    assert(names.contains(workspace_name@));
    names.index_of_first_ensures(workspace_name@);
}

/// A file of a workspace that does not exist is not found.
pub proof fn lemma_no_workspace_file(
    repo: Arc<RepoView>,
    workspace_name: String,
    path: String,
    file: WritableCommitTreeFile,
    loaded: Found<()>,
    readonly: JjResult<CommitTreeFile>,
    content: JjResult<Answer<Vec<u8>>>,
)
    requires
        forall|i: int|
            0 <= i < repo.wc_commit_ids@.len() ==> (#[trigger] repo.wc_commit_ids@[i]).name@
                != workspace_name@,
        call_ensures(WritableCommitTreeFile::new, (repo, workspace_name, path), file),
        call_ensures(WritableCommitTreeFile::to_readonly, (&file, loaded), readonly),
        call_ensures(WritableCommitTreeFile::read, (&file,), content),
    ensures
        readonly == Err::<CommitTreeFile, _>(JjError::NotFound),
        content == Err::<Answer<Vec<u8>>, _>(JjError::NotFound),
{
    let names = repo_view::workspace_names(repo.wc_commit_ids@);
    names.index_of_first_ensures(workspace_name@);
    if names.contains(workspace_name@) {
        let i = choose|i: int| 0 <= i < names.len() && names[i] == workspace_name@;
        assert(repo.wc_commit_ids@[i].name@ == workspace_name@);
    }
}

/// Nothing is created, written or deleted.
pub proof fn lemma_readonly(
    file: WritableCommitTreeFile,
    new_file: CreateFile,
    offset: u64,
    data: &[u8],
    created: JjResult<FileAttributes>,
    written: JjResult<u32>,
    deleted: JjResult<()>,
)
    requires
        call_ensures(WritableCommitTreeFile::create, (&file, new_file), created),
        call_ensures(WritableCommitTreeFile::write, (&file, offset, data), written),
        call_ensures(WritableCommitTreeFile::delete, (&file,), deleted),
    ensures
        created == Err::<FileAttributes, _>(JjError::Readonly),
        written == Err::<u32, _>(JjError::Readonly),
        deleted == Err::<(), _>(JjError::Readonly),
{
}

/// The message of an error in loading the commit of a workspace is handed on, and that of an update
/// whose task could not be run is told after what failed.
pub proof fn lemma_load_error(
    file: WritableCommitTreeFile,
    message: String,
    readonly: JjResult<CommitTreeFile>,
    task_message: &str,
    r: JjError,
)
    requires
        file.wc_commit() is Some,
        call_ensures(WritableCommitTreeFile::to_readonly, (&file, Err(message)), readonly),
        call_ensures(task_error, (task_message,), r),
    ensures
        readonly == Err::<CommitTreeFile, _>(JjError::JjLibBackendError(message)),
        r matches JjError::IO(text) && text@ == "spawn_blocking failed: "@ + task_message@,
{
}

} // verus!
