//! Commits of a repository on the local disk.

use std::sync::Arc;

use jj_lib::merge::Merge;
use vstd::prelude::*;
use vstd::string::*;

use crate::commit_id;
use crate::commit_id::CommitId;
use crate::file::File;
use crate::merge;
use crate::paths;
use crate::repo_path;
use crate::repo_view::RepoView;
use crate::revset::{History, Revset, RevsetView};
use crate::text;
use crate::tree::{Tree, TreeValue};
use crate::vfs::commit_tree_file;
use crate::virtual_file::{Found, Query};

verus! {

/// Why a request to a commit failed.
#[derive(Debug, PartialEq, Eq)]
pub enum JjError {
    /// A path with a root, a `.` or a `..`.
    InvalidPath(String),
    NotFound(String),
    IsDirectory(String),
    /// An error of the repository backend, with its message.
    JjLibBackendError(String),
    /// Another error, with its message.
    Other(String),
}

impl JjError {
    /// The text that describes the error.
    pub open spec fn text(&self) -> Seq<char> {
        match self {
            JjError::InvalidPath(path) => "The input path should not contain . or ..: "@ + path@,
            JjError::NotFound(path) => "File or directory not found: "@ + path@,
            JjError::IsDirectory(path) => "Expected file, but found directory: "@ + path@,
            JjError::JjLibBackendError(message) => "Underlying jj-lib error: "@ + message@,
            JjError::Other(message) => message@,
        }
    }

    /// Describes the error.
    pub fn message(&self) -> (r: String)
        ensures
            r@ == self.text(),
    {
        match self {
            JjError::InvalidPath(path) => {
                "The input path should not contain . or ..: ".to_owned().concat(path.as_str())
            },
            JjError::NotFound(path) => {
                "File or directory not found: ".to_owned().concat(path.as_str())
            },
            JjError::IsDirectory(path) => {
                "Expected file, but found directory: ".to_owned().concat(path.as_str())
            },
            JjError::JjLibBackendError(message) => {
                "Underlying jj-lib error: ".to_owned().concat(message.as_str())
            },
            JjError::Other(message) => message.clone(),
        }
    }
}

/// A repository.
pub trait JjRepo {
    /// A commit by its id, given whether it could be loaded or the message of the error.
    fn get_commit(&self, commit_id: &CommitId, loaded: Found<()>) -> (r: Found<JjLibCommit>)
        ensures
            match loaded {
                Ok(_) => r matches Ok(commit) && commit@ == commit_id@,
                Err(message) => r == Err::<JjLibCommit, _>(message),
            },
    ;

    /// The revset of all commits.
    fn commits(&self) -> (r: Revset)
        ensures
            r@ == RevsetView::All,
    ;

    /// All commits, given those that the revset yields, each `None` where it could not be read.
    fn commits_found(&self, found: &Vec<Option<CommitId>>) -> (r: Vec<CommitId>)
        ensures
            commit_id::id_views(r@) == commit_id::present_ids(found@),
    ;
}

/// A repository on the local disk.
pub struct JjLibRepo {
    repo: Arc<RepoView>,
}

impl View for JjLibRepo {
    type V = RepoView;

    closed spec fn view(&self) -> RepoView {
        *self.repo
    }
}

impl JjLibRepo {
    pub fn new(repo: Arc<RepoView>) -> (r: Self)
        ensures
            r@ == *repo,
    {
        JjLibRepo { repo }
    }
}

impl JjRepo for JjLibRepo {
    fn get_commit(&self, commit_id: &CommitId, loaded: Found<()>) -> (r: Found<JjLibCommit>) {
        match loaded {
            Ok(_) => Ok(JjLibCommit { commit_id: commit_id.clone() }),
            Err(message) => Err(message),
        }
    }

    fn commits(&self) -> (r: Revset) {
        Revset::All
    }

    fn commits_found(&self, found: &Vec<Option<CommitId>>) -> (r: Vec<CommitId>) {
        let mut ids: Vec<CommitId> = Vec::new();
        let mut i: usize = 0;
        assert(commit_id::id_views(ids@) =~= commit_id::present_ids(found@.take(0)));
        while i < found.len()
            invariant
                i <= found@.len(),
                commit_id::id_views(ids@) == commit_id::present_ids(found@.take(i as int)),
            decreases found@.len() - i,
        {
            let ghost before = ids@;
            match &found[i] {
                Some(id) => {
                    ids.push(id.clone());
                },
                None => {},
            }
            proof {
                assert(found@.take(i + 1).drop_last() =~= found@.take(i as int));
                assert(found@.take(i + 1).last() == found@[i as int]);
                assert(commit_id::id_views(ids@) =~= commit_id::id_views(before)
                    + commit_id::present(found@[i as int]));
            }
            i = i + 1;
        }
        assert(found@.take(i as int) =~= found@);
        ids
    }
}

/// A commit of a repository.
pub trait JjCommit {
    /// The place in the tree of the commit that a path stands for.
    fn repo_path(&self, path: &str) -> (r: Result<String, JjError>)
        ensures
            if repo_path::is_inside(path@) {
                r matches Ok(found) && found@ == repo_path::inside(path@)
            } else {
                r matches Err(JjError::InvalidPath(found)) && found@ == path@
            },
    ;

    /// The files of a directory, given the trees at its path.
    fn list_directory(&self, path: &str, trees: &Found<Option<Merge<Tree>>>) -> (r: Result<
        Vec<File>,
        JjError,
    >)
        ensures
            is_listing(path@, *trees, r),
    ;

    /// What to read of a file, given the value at its path.
    fn read_file(&self, path: &str, value: &Found<Merge<Option<TreeValue>>>) -> (r: Result<
        Query,
        JjError,
    >)
        ensures
            is_reading(path@, *value, r),
    ;

    /// The size of a file, given the value at its path and how much was read of the file that
    /// `read_file` names, or the message of the error in reading it. Where `read_file` fails, nothing
    /// is read, and the error is the same.
    fn file_size(
        &self,
        path: &str,
        value: &Found<Merge<Option<TreeValue>>>,
        size: Found<u64>,
    ) -> (r: Result<u64, JjError>)
        ensures
            is_size(path@, *value, size, r),
    ;
}

/// What `list_directory` answers.
pub open spec fn is_listing(
    path: Seq<char>,
    trees: Found<Option<Merge<Tree>>>,
    r: Result<Vec<File>, JjError>,
) -> bool {
    if repo_path::is_inside(path) {
        match trees {
            Err(message) => r == Err::<Vec<File>, _>(JjError::JjLibBackendError(message)),
            Ok(None) => r matches Err(JjError::NotFound(found)) && found@ == path,
            Ok(Some(trees)) => r matches Ok(files) && commit_tree_file::are_entries(
                merge::tree_terms(trees),
                files@,
            ),
        }
    } else {
        r matches Err(JjError::InvalidPath(found)) && found@ == path
    }
}

/// What `read_file` answers.
pub open spec fn is_reading(
    path: Seq<char>,
    value: Found<Merge<Option<TreeValue>>>,
    r: Result<Query, JjError>,
) -> bool {
    if repo_path::is_inside(path) {
        match value {
            Err(message) => r == Err::<Query, _>(JjError::JjLibBackendError(message)),
            Ok(merged) => match crate::commit_tree_file::resolved(merge::value_terms(merged)) {
                None => r matches Err(JjError::Other(message)) && message@ == path
                    + ": Conflicting files no supported"@,
                Some(None) => r matches Err(JjError::NotFound(found)) && found@ == path,
                Some(Some(TreeValue::File { id, .. })) => r matches Ok(
                    Query::File { path: place, id: found },
                ) && place@ == repo_path::inside(path) && found@ == id@,
                Some(Some(TreeValue::Tree(_))) => r matches Err(JjError::IsDirectory(found))
                    && found@ == path,
                Some(Some(TreeValue::Symlink(_))) => r matches Err(JjError::Other(message))
                    && message@ == path + ": Symlinks not supported"@,
                Some(Some(TreeValue::GitSubmodule(_))) => r matches Err(JjError::Other(message))
                    && message@ == path + ": Git submodules not supported"@,
            },
        }
    } else {
        r matches Err(JjError::InvalidPath(found)) && found@ == path
    }
}

/// What `file_size` answers.
pub open spec fn is_size(
    path: Seq<char>,
    value: Found<Merge<Option<TreeValue>>>,
    size: Found<u64>,
    r: Result<u64, JjError>,
) -> bool {
    exists|reading: Result<Query, JjError>| #[trigger]
        is_reading(path, value, reading) && match reading {
            Err(error) => r == Err::<u64, _>(error),
            Ok(_) => r == match size {
                Ok(size) => Ok::<u64, JjError>(size),
                Err(message) => Err(JjError::JjLibBackendError(message)),
            },
        }
}

/// Whether two errors are of one kind, for one path or with one message.
pub open spec fn is_same_error(a: JjError, b: JjError) -> bool {
    match (a, b) {
        (JjError::InvalidPath(x), JjError::InvalidPath(y)) => x@ == y@,
        (JjError::NotFound(x), JjError::NotFound(y)) => x@ == y@,
        (JjError::IsDirectory(x), JjError::IsDirectory(y)) => x@ == y@,
        (JjError::JjLibBackendError(x), JjError::JjLibBackendError(y)) => x@ == y@,
        (JjError::Other(x), JjError::Other(y)) => x@ == y@,
        _ => false,
    }
}

/// The size of a file that can be read is how much was read, and where a file cannot be read its
/// size is the same error.
pub proof fn lemma_size_of_reading(
    path: Seq<char>,
    value: Found<Merge<Option<TreeValue>>>,
    size: Found<u64>,
    reading: Result<Query, JjError>,
    r: Result<u64, JjError>,
)
    requires
        is_reading(path, value, reading),
        is_size(path, value, size, r),
    ensures
        match reading {
            Err(error) => r matches Err(other) && is_same_error(error, other),
            Ok(_) => r == match size {
                Ok(size) => Ok::<u64, JjError>(size),
                Err(message) => Err(JjError::JjLibBackendError(message)),
            },
        },
{
}

/// A commit of a repository on the local disk.
pub struct JjLibCommit {
    commit_id: CommitId,
}

impl View for JjLibCommit {
    type V = Seq<u8>;

    closed spec fn view(&self) -> Seq<u8> {
        self.commit_id@
    }
}

impl JjLibCommit {
    /// The id of the commit.
    pub fn id(&self) -> (r: &CommitId)
        ensures
            r@ == self@,
    {
        &self.commit_id
    }
}

impl JjCommit for JjLibCommit {
    fn repo_path(&self, path: &str) -> (r: Result<String, JjError>) {
        match repo_path::repo_path(path) {
            Some(found) => Ok(found),
            None => Err(JjError::InvalidPath(path.to_owned())),
        }
    }

    fn list_directory(&self, path: &str, trees: &Found<Option<Merge<Tree>>>) -> (r: Result<
        Vec<File>,
        JjError,
    >) {
        match self.repo_path(path) {
            Ok(_) => {},
            Err(error) => return Err(error),
        }
        match trees {
            Ok(Some(trees)) => Ok(commit_tree_file::list_files(trees)),
            Ok(None) => Err(JjError::NotFound(path.to_owned())),
            Err(message) => Err(JjError::JjLibBackendError(message.clone())),
        }
    }

    fn read_file(&self, path: &str, value: &Found<Merge<Option<TreeValue>>>) -> (r: Result<
        Query,
        JjError,
    >) {
        let place = match self.repo_path(path) {
            Ok(place) => place,
            Err(error) => return Err(error),
        };
        let merged = match value {
            Ok(merged) => merged,
            Err(message) => return Err(JjError::JjLibBackendError(message.clone())),
        };
        let value = match merge::resolved_value(merged) {
            Some(Some(value)) => value,
            Some(None) => return Err(JjError::NotFound(path.to_owned())),
            None => return Err(
                JjError::Other(path.to_owned().concat(": Conflicting files no supported")),
            ),
        };
        match value {
            TreeValue::File { id, .. } => Ok(
                Query::File { path: place, id: crate::commit_tree_file::copy_id(id) },
            ),
            TreeValue::Tree(_) => Err(JjError::IsDirectory(path.to_owned())),
            TreeValue::Symlink(_) => Err(
                JjError::Other(path.to_owned().concat(": Symlinks not supported")),
            ),
            TreeValue::GitSubmodule(_) => Err(
                JjError::Other(path.to_owned().concat(": Git submodules not supported")),
            ),
        }
    }

    fn file_size(
        &self,
        path: &str,
        value: &Found<Merge<Option<TreeValue>>>,
        size: Found<u64>,
    ) -> (r: Result<u64, JjError>) {
        let reading = self.read_file(path, value);
        let ghost answer = reading;
        assert(is_reading(path@, *value, answer));
        match reading {
            Ok(_) => {},
            Err(error) => return Err(error),
        }
        match size {
            Ok(size) => Ok(size),
            Err(message) => Err(JjError::JjLibBackendError(message)),
        }
    }
}

/// The commits of what is found in two parts are those of the first part and then those of the
/// second. One commit is itself, and one that could not be read is left out.
pub proof fn lemma_commits_by_parts(
    repo: JjLibRepo,
    first: Vec<Option<CommitId>>,
    second: Vec<Option<CommitId>>,
    whole: Vec<Option<CommitId>>,
    a: Vec<CommitId>,
    b: Vec<CommitId>,
    all: Vec<CommitId>,
)
    requires
        whole@ == first@ + second@,
        call_ensures(JjLibRepo::commits_found, (&repo, &first), a),
        call_ensures(JjLibRepo::commits_found, (&repo, &second), b),
        call_ensures(JjLibRepo::commits_found, (&repo, &whole), all),
    ensures
        commit_id::id_views(all@) == commit_id::id_views(a@) + commit_id::id_views(b@),
        second@.len() == 1 ==> match second@[0] {
            Some(id) => b@.len() == 1 && b@[0]@ == id@,
            None => b@.len() == 0,
        },
{
    commit_id::lemma_present_ids_append(first@, second@);
    if second@.len() == 1 {
        assert(second@ =~= seq![second@[0]]);
        commit_id::lemma_present_ids_single(second@[0]);
        assert(commit_id::id_views(b@).len() == b@.len());
        if second@[0] is Some {
            assert(commit_id::id_views(b@)[0] == b@[0]@);
        }
    }
}

/// A directory that is not in conflict lists the entries of its tree in their order, each with its
/// name: as a directory exactly where the entry is a tree, and otherwise as a file. One in conflict
/// lists each name of its trees once, as a file. Where there is no directory, the path is not found.
pub proof fn lemma_listed_directory(
    commit: JjLibCommit,
    path: &str,
    trees: Merge<Tree>,
    r: Result<Vec<File>, JjError>,
    missing: Result<Vec<File>, JjError>,
)
    requires
        repo_path::is_inside(path@),
        merge::tree_terms(trees).len() > 0,
        merge::tree_terms(trees)[0].wf(),
        call_ensures(JjLibCommit::list_directory, (&commit, path, &Ok(Some(trees))), r),
        call_ensures(JjLibCommit::list_directory, (&commit, path, &Ok(None)), missing),
    ensures
        r matches Ok(files) && if merge::tree_terms(trees).len() == 1 {
            commit_tree_file::is_tree_listing(merge::tree_terms(trees)[0], files@)
        } else {
            commit_tree_file::is_conflict_listing(merge::tree_terms(trees), files@)
        },
        missing matches Err(JjError::NotFound(found)) && found@ == path@,
{
    let terms = merge::tree_terms(trees);
    if terms.len() == 1 {
        commit_tree_file::lemma_tree_listing(terms, r->Ok_0@);
    } else {
        commit_tree_file::lemma_conflict_listing(terms, r->Ok_0@);
    }
}

/// A file can be read, at the place of its path and by its id; nothing else can. Each error names the
/// path, and its size is what was read.
pub proof fn lemma_read_file(
    commit: JjLibCommit,
    path: &str,
    value: Merge<Option<TreeValue>>,
    size: u64,
    place: Result<String, JjError>,
    r: Result<Query, JjError>,
    r_size: Result<u64, JjError>,
)
    requires
        call_ensures(JjLibCommit::repo_path, (&commit, path), place),
        call_ensures(JjLibCommit::read_file, (&commit, path, &Ok(value)), r),
        call_ensures(JjLibCommit::file_size, (&commit, path, &Ok(value), Ok(size)), r_size),
    ensures
        r is Ok <==> place is Ok && merge::value_terms(value).len() == 1 && merge::value_terms(
            value,
        )[0] is Some && merge::value_terms(value)[0]->0 is File,
        r matches Ok(query) ==> (query matches Query::File { path: found, id } && found@
            == place->Ok_0@ && id@ == merge::value_terms(value)[0]->0->File_id@),
        r is Ok ==> r_size == Ok::<_, JjError>(size),
        r matches Err(error) ==> (r_size matches Err(other) && is_same_error(error, other)),
        place is Err ==> (r matches Err(JjError::InvalidPath(found)) && found@ == path@),
        place is Ok && merge::value_terms(value).len() == 1 && merge::value_terms(value)[0] is None
            ==> (r matches Err(JjError::NotFound(found)) && found@ == path@),
        place is Ok && merge::value_terms(value).len() == 1 && merge::value_terms(value)[0] is Some
            && merge::value_terms(value)[0]->0 is Tree ==> (r matches Err(
            JjError::IsDirectory(found),
        ) && found@ == path@),
        place is Ok && (merge::value_terms(value).len() != 1 || (merge::value_terms(value)[0] is Some
            && (merge::value_terms(value)[0]->0 is Symlink || merge::value_terms(
            value,
        )[0]->0 is GitSubmodule))) ==> (r matches Err(JjError::Other(message))
            && path@.is_prefix_of(message@)),
{
    lemma_size_of_reading(path@, Ok(value), Ok(size), r, r_size);
    if r is Err && r->Err_0 is Other {
        let message = r->Err_0->Other_0;
        assert(path@ =~= message@.take(path@.len() as int));
    }
}

/// The place of a path of ordinary names in a commit is those names with single slashes between them.
/// A path that leads out of the tree is refused.
pub proof fn lemma_place_of_path(
    commit: JjLibCommit,
    names: Seq<Seq<char>>,
    path: &str,
    r: Result<String, JjError>,
)
    requires
        paths::segments(path@) == names,
        call_ensures(JjLibCommit::repo_path, (&commit, path), r),
    ensures
        (forall|i: int|
            0 <= i < names.len() ==> (#[trigger] names[i]).len() > 0 && names[i] != seq!['.']
                && names[i] != seq!['.', '.'] && !names[i].contains('/')) ==> (r matches Ok(place)
            && place@ == text::separated(names, '/')),
        names.contains(seq!['.', '.']) || (path@.len() > 0 && path@[0] == '/') ==> (r matches Err(
            JjError::InvalidPath(found),
        ) && found@ == path@),
{
    if forall|i: int|
        0 <= i < names.len() ==> (#[trigger] names[i]).len() > 0 && names[i] != seq!['.']
            && names[i] != seq!['.', '.'] && !names[i].contains('/') {
        repo_path::lemma_inside_names(names, path@);
    }
    if names.contains(seq!['.', '.']) || (path@.len() > 0 && path@[0] == '/') {
        repo_path::lemma_outside(path@);
    }
}

/// A commit that could be loaded is the one with the id that was asked for; the message of the error
/// in loading it is handed on.
pub proof fn lemma_commit_by_id(
    repo: JjLibRepo,
    commit_id: CommitId,
    message: String,
    r: Found<JjLibCommit>,
    id: &CommitId,
    failed: Found<JjLibCommit>,
)
    requires
        call_ensures(JjLibRepo::get_commit, (&repo, &commit_id, Ok(())), r),
        r matches Ok(commit) ==> call_ensures(JjLibCommit::id, (&commit,), id),
        call_ensures(JjLibRepo::get_commit, (&repo, &commit_id, Err(message)), failed),
    ensures
        r is Ok,
        id@ == commit_id@,
        failed == Err::<JjLibCommit, _>(message),
{
}

/// Every commit of the repository is asked for, and nothing else.
pub proof fn lemma_all_commits_asked(
    repo: JjLibRepo,
    history: History,
    commit: Seq<u8>,
    set: Revset,
)
    requires
        call_ensures(JjLibRepo::commits, (&repo,), set),
    ensures
        set@.members(history).contains(commit) <==> history.contains_key(commit),
{
}

/// Each error is described by a text of its own that ends with its path or message; another error is
/// described by its message alone.
pub proof fn lemma_message_of_error(error: JjError, r: String)
    requires
        call_ensures(JjError::message, (&error,), r),
    ensures
        error matches JjError::InvalidPath(path) ==> r@
            == "The input path should not contain . or ..: "@ + path@,
        error matches JjError::NotFound(path) ==> r@ == "File or directory not found: "@ + path@,
        error matches JjError::IsDirectory(path) ==> r@ == "Expected file, but found directory: "@
            + path@,
        error matches JjError::JjLibBackendError(message) ==> r@ == "Underlying jj-lib error: "@
            + message@,
        error matches JjError::Other(message) ==> r@ == message@,
{
}

/// The message of an error of the repository is handed on, whatever it was looked up for.
pub proof fn lemma_errors_handed_on(
    commit: JjLibCommit,
    path: &str,
    message: String,
    value: Merge<Option<TreeValue>>,
    query: Query,
    listed: Result<Vec<File>, JjError>,
    reading: Result<Query, JjError>,
    size: Result<u64, JjError>,
)
    requires
        repo_path::is_inside(path@),
        call_ensures(JjLibCommit::list_directory, (&commit, path, &Err(message)), listed),
        call_ensures(JjLibCommit::read_file, (&commit, path, &Err(message)), reading),
        call_ensures(JjLibCommit::read_file, (&commit, path, &Ok(value)), Ok(query)),
        call_ensures(JjLibCommit::file_size, (&commit, path, &Ok(value), Err(message)), size),
    ensures
        listed == Err::<Vec<File>, _>(JjError::JjLibBackendError(message)),
        reading == Err::<Query, _>(JjError::JjLibBackendError(message)),
        size == Err::<u64, _>(JjError::JjLibBackendError(message)),
{
    lemma_size_of_reading(path@, Ok(value), Err(message), Ok(query), size);
}

} // verus!
