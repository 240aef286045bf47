//! Files in the tree of a commit.

use jj_lib::merge::Merge;
use vstd::prelude::*;
use vstd::utf8::*;

use crate::commit_id::CommitId;
use crate::jj_error::{JjError, JjResult};
use crate::listing;
use crate::merge;
use crate::paths;
use crate::repo_path;
use crate::text;
use crate::tree;
use crate::tree::{Tree, TreeValue};
use crate::virtual_file;
use crate::virtual_file::{
    Answer, CreateFile, DirectoryEntry, EntryView, FileAttributes, FileType, Found, Query,
    VirtualFile,
};

verus! {

/// The file, directory or symlink at a path of a commit.
///
/// What is at the path has to be looked up in the repository: each request names the query, and
/// the method for that request ending in `_found` takes what the repository answered.
pub struct CommitTreeFile {
    commit_id: CommitId,
    path: String,
}

/// The one value of a merge that is not in conflict.
pub open spec fn resolved(terms: Seq<Option<TreeValue>>) -> Option<Option<TreeValue>> {
    if terms.len() == 1 {
        Some(terms[0])
    } else {
        None
    }
}

/// The type of what is at a path. What is missing or of no known type counts as a file.
pub open spec fn value_type(value: Option<TreeValue>) -> FileType {
    match value {
        Some(TreeValue::Tree(_)) => FileType::Directory,
        Some(TreeValue::Symlink(_)) => FileType::Symlink,
        _ => FileType::File,
    }
}

/// The entries of a directory. An entry of a directory in conflict counts as a file.
pub open spec fn tree_entries(trees: Seq<Tree>) -> Seq<EntryView> {
    listing::listed_names(trees).map_values(
        |name: Seq<char>|
            EntryView { name, file_type: value_type(listing::listed_value(trees, name)) },
    )
}

/// The error of listing a path at which there is no directory.
pub open spec fn list_error(terms: Seq<Option<TreeValue>>) -> JjError {
    match resolved(terms) {
        None => JjError::NotADirectory,
        Some(Some(TreeValue::Tree(_))) => JjError::NotFound,
        Some(None) => JjError::NotFound,
        Some(Some(_)) => JjError::NotADirectory,
    }
}

/// Whether a query is for the value at a path of a commit.
pub open spec fn is_path_value(commit: Seq<u8>, path: Seq<char>, query: Query) -> bool {
    query matches Query::PathValue { commit_id, path: place } && commit_id@ == commit && place@
        == repo_path::inside(path)
}

/// Whether a query is for the trees at a path of a commit.
pub open spec fn is_sub_trees(commit: Seq<u8>, path: Seq<char>, query: Query) -> bool {
    query matches Query::SubTrees { commit_id, path: place } && commit_id@ == commit && place@
        == repo_path::inside(path)
}

/// The type of what is at a path.
fn type_of(value: Option<&TreeValue>) -> (r: FileType)
    ensures
        r == value_type(
            match value {
                Some(value) => Some(*value),
                None => None,
            },
        ),
{
    match value {
        Some(TreeValue::Tree(_)) => FileType::Directory,
        Some(TreeValue::File { .. }) => FileType::File,
        Some(TreeValue::Symlink(_)) => FileType::Symlink,
        _ => FileType::File,
    }
}

/// Another copy of an id.
pub(crate) fn copy_id(id: &Vec<u8>) -> (r: Vec<u8>)
    ensures
        r@ == id@,
{
    let copy = id.clone();
    assert(copy@ =~= id@);
    copy
}

impl CommitTreeFile {
    /// The id of the commit.
    pub closed spec fn commit(&self) -> Seq<u8> {
        self.commit_id@
    }

    /// The path in the commit.
    pub closed spec fn path(&self) -> Seq<char> {
        self.path@
    }

    /// A path of a commit, given whether the commit could be loaded or the message of the error.
    pub fn new(commit_id: CommitId, path: String, loaded: Found<()>) -> (r: JjResult<Self>)
        ensures
            match loaded {
                Ok(_) => r matches Ok(file) && file.commit() == commit_id@ && file.path() == path@,
                Err(message) => r == Err::<Self, _>(JjError::JjLibBackendError(message)),
            },
    {
        match loaded {
            Ok(_) => Ok(CommitTreeFile { commit_id, path }),
            Err(message) => Err(JjError::JjLibBackendError(message)),
        }
    }

    /// The path as one inside the tree.
    pub fn repo_path(&self) -> (r: JjResult<String>)
        ensures
            if repo_path::is_inside(self.path()) {
                r matches Ok(path) && path@ == repo_path::inside(self.path())
            } else {
                r == Err::<String, _>(JjError::InvalidPath)
            },
    {
        match repo_path::repo_path(self.path.as_str()) {
            Some(path) => Ok(path),
            None => Err(JjError::InvalidPath),
        }
    }

    /// The commit whose tree the file is in.
    pub fn commit_id(&self) -> (r: &CommitId)
        ensures
            r@ == self.commit(),
    {
        &self.commit_id
    }

    /// The query for the value at the path.
    pub(crate) fn path_value(&self) -> (r: JjResult<Query>)
        ensures
            if repo_path::is_inside(self.path()) {
                r matches Ok(query) && is_path_value(self.commit(), self.path(), query)
            } else {
                r == Err::<Query, _>(JjError::InvalidPath)
            },
    {
        match self.repo_path() {
            Ok(path) => Ok(Query::PathValue { commit_id: self.commit_id.clone(), path }),
            Err(error) => Err(error),
        }
    }

    /// The query for the trees at the path.
    pub(crate) fn sub_trees(&self) -> (r: JjResult<Query>)
        ensures
            if repo_path::is_inside(self.path()) {
                r matches Ok(query) && is_sub_trees(self.commit(), self.path(), query)
            } else {
                r == Err::<Query, _>(JjError::InvalidPath)
            },
    {
        match self.repo_path() {
            Ok(path) => Ok(Query::SubTrees { commit_id: self.commit_id.clone(), path }),
            Err(error) => Err(error),
        }
    }

    /// What to read, given the value at the path.
    pub fn read_found(&self, value: &Found<Merge<Option<TreeValue>>>) -> (r: JjResult<Query>)
        ensures
            !repo_path::is_inside(self.path()) ==> r == Err::<Query, _>(
                JjError::InvalidPath,
            ),
            repo_path::is_inside(self.path()) ==> match value {
                Err(message) => r == Err::<Query, _>(JjError::JjLibBackendError(*message)),
                Ok(merged) => match resolved(merge::value_terms(*merged)) {
                    None => r == Err::<Query, _>(JjError::NotADirectory),
                    Some(None) => r == Err::<Query, _>(JjError::NotFound),
                    Some(Some(TreeValue::File { id, .. })) => r matches Ok(Query::File { path, id: found }) && path@ == repo_path::inside(self.path()) && found@ == id@,
                    Some(Some(_)) => r == Err::<Query, _>(JjError::NotAFile),
                },
            },
    {
        let path = match self.repo_path() {
            Ok(path) => path,
            Err(error) => return Err(error),
        };
        let merged = match value {
            Ok(merged) => merged,
            Err(message) => return Err(JjError::JjLibBackendError(message.clone())),
        };
        match merge::resolved_value(merged) {
            None => Err(JjError::NotADirectory),
            Some(Some(TreeValue::File { id, .. })) => Ok(Query::File { path, id: copy_id(id) }),
            Some(None) => Err(JjError::NotFound),
            _ => Err(JjError::NotAFile),
        }
    }

    /// The entries, given the trees at the path. Where there are none, the value at the path tells
    /// which error it is.
    pub fn list_found(&self, trees: &Found<Option<Merge<Tree>>>) -> (r: JjResult<
        Answer<Vec<DirectoryEntry>>,
    >)
        ensures
            !repo_path::is_inside(self.path()) ==> r == Err::<Answer<Vec<DirectoryEntry>>, _>(
                JjError::InvalidPath,
            ),
            repo_path::is_inside(self.path()) ==> match trees {
                Err(message) => r == Err::<Answer<Vec<DirectoryEntry>>, _>(
                    JjError::JjLibBackendError(*message),
                ),
                Ok(None) => r matches Ok(Answer::Lookup(query)) && is_path_value(
                    self.commit(),
                    self.path(),
                    query,
                ),
                Ok(Some(trees)) => r matches Ok(Answer::Ready(entries))
                    && virtual_file::entry_views(entries@) == tree_entries(
                    merge::tree_terms(*trees),
                ),
            },
    {
        let missing = match self.path_value() {
            Ok(query) => query,
            Err(error) => return Err(error),
        };
        let trees = match trees {
            Ok(Some(trees)) => trees,
            Ok(None) => return Ok(Answer::Lookup(missing)),
            Err(message) => return Err(JjError::JjLibBackendError(message.clone())),
        };
        let names = listing::list_names(trees);
        let ghost terms = merge::tree_terms(*trees);
        let mut entries: Vec<DirectoryEntry> = Vec::new();
        let mut i: usize = 0;
        while i < names.len()
            invariant
                i <= names@.len(),
                entries@.len() == i,
                terms == merge::tree_terms(*trees),
                forall|j: int|
                    0 <= j < i ==> (#[trigger] entries@[j]).name@ == names@[j]@
                        && entries@[j].file_type == value_type(
                        listing::listed_value(terms, names@[j]@),
                    ),
            decreases names@.len() - i,
        {
            let file_type = type_of(listing::find_value(trees, names[i].as_str()));
            entries.push(DirectoryEntry { name: names[i].clone(), file_type });
            i = i + 1;
        }
        assert(text::views(names@) == listing::listed_names(terms));
        assert(virtual_file::entry_views(entries@) =~= tree_entries(terms)) by {
            assert forall|j: int| 0 <= j < entries@.len() implies entries@[j]@ == tree_entries(
                terms,
            )[j] by {
                assert(text::views(names@)[j] == names@[j]@);
            }
        }
        Ok(Answer::Ready(entries))
    }

    /// The error of listing a path without trees, given the value at the path.
    pub fn list_missing(&self, value: &Found<Merge<Option<TreeValue>>>) -> (r: JjError)
        ensures
            r == match value {
                Err(message) => JjError::JjLibBackendError(*message),
                Ok(merged) => list_error(merge::value_terms(*merged)),
            },
    {
        match value {
            Err(message) => JjError::JjLibBackendError(message.clone()),
            Ok(merged) => match merge::resolved_value(merged) {
                None => JjError::NotADirectory,
                Some(Some(TreeValue::Tree(_))) => JjError::NotFound,
                Some(None) => JjError::NotFound,
                _ => JjError::NotADirectory,
            },
        }
    }

    /// Which symlink to read, given the value at the path.
    pub fn read_link_found(&self, value: &Found<Merge<Option<TreeValue>>>) -> (r: JjResult<Query>)
        ensures
            !repo_path::is_inside(self.path()) ==> r == Err::<Query, _>(
                JjError::InvalidPath,
            ),
            repo_path::is_inside(self.path()) ==> match value {
                Err(message) => r == Err::<Query, _>(JjError::JjLibBackendError(*message)),
                Ok(merged) => match resolved(merge::value_terms(*merged)) {
                    None => r == Err::<Query, _>(JjError::NotASymlink),
                    Some(None) => r == Err::<Query, _>(JjError::NotFound),
                    Some(Some(TreeValue::Symlink(id))) => r matches Ok(Query::Symlink { path, id: found }) && path@ == repo_path::inside(self.path()) && found@ == id@,
                    Some(Some(_)) => r == Err::<Query, _>(JjError::NotASymlink),
                },
            },
    {
        let path = match self.repo_path() {
            Ok(path) => path,
            Err(error) => return Err(error),
        };
        let merged = match value {
            Ok(merged) => merged,
            Err(message) => return Err(JjError::JjLibBackendError(message.clone())),
        };
        match merge::resolved_value(merged) {
            None => Err(JjError::NotASymlink),
            Some(Some(TreeValue::Symlink(id))) => Ok(Query::Symlink { path, id: copy_id(id) }),
            Some(None) => Err(JjError::NotFound),
            _ => Err(JjError::NotASymlink),
        }
    }

    /// The attributes, given the value at the path. The size of a file or a symlink takes its
    /// contents or its target.
    pub fn attributes_found(&self, value: &Found<Merge<Option<TreeValue>>>) -> (r: JjResult<
        Answer<FileAttributes>,
    >)
        ensures
            !repo_path::is_inside(self.path()) ==> r == Err::<Answer<FileAttributes>, _>(
                JjError::InvalidPath,
            ),
            repo_path::is_inside(self.path()) ==> match value {
                Err(message) => r == Err::<Answer<FileAttributes>, _>(
                    JjError::JjLibBackendError(*message),
                ),
                Ok(merged) => match resolved(merge::value_terms(*merged)) {
                    None => r matches Err(JjError::IO(message)) && message@ == "Conflicted path"@,
                    Some(None) => r == Err::<Answer<FileAttributes>, _>(JjError::NotFound),
                    Some(Some(TreeValue::Tree(_))) => r == Ok::<_, JjError>(
                        Answer::Ready(virtual_file::timeless(0, FileType::Directory)),
                    ),
                    Some(Some(TreeValue::File { id, .. })) => r matches Ok(
                        Answer::Lookup(Query::File { path, id: found }),
                    ) && path@ == repo_path::inside(self.path()) && found@ == id@,
                    Some(Some(TreeValue::Symlink(id))) => r matches Ok(
                        Answer::Lookup(Query::Symlink { path, id: found }),
                    ) && path@ == repo_path::inside(self.path()) && found@ == id@,
                    Some(Some(TreeValue::GitSubmodule(_))) => r == Err::<Answer<FileAttributes>, _>(
                        JjError::NotAFile,
                    ),
                },
            },
    {
        match self.file_type_found(value) {
            Err(error) => Err(error),
            Ok(FileType::Directory) => Ok(Answer::Ready(virtual_file::directory_attributes())),
            Ok(FileType::File) => match self.read_found(value) {
                Ok(query) => Ok(Answer::Lookup(query)),
                Err(error) => Err(error),
            },
            Ok(FileType::Symlink) => match self.read_link_found(value) {
                Ok(query) => Ok(Answer::Lookup(query)),
                Err(error) => Err(error),
            },
        }
    }

    /// The type, given the value at the path.
    pub fn file_type_found(&self, value: &Found<Merge<Option<TreeValue>>>) -> (r: JjResult<
        FileType,
    >)
        ensures
            !repo_path::is_inside(self.path()) ==> r == Err::<FileType, _>(JjError::InvalidPath),
            repo_path::is_inside(self.path()) ==> match value {
                Err(message) => r == Err::<FileType, _>(JjError::JjLibBackendError(*message)),
                Ok(merged) => match resolved(merge::value_terms(*merged)) {
                    None => r matches Err(JjError::IO(message)) && message@ == "Conflicted path"@,
                    Some(value) => r == Ok::<FileType, JjError>(value_type(value)),
                },
            },
    {
        match self.repo_path() {
            Ok(_) => {},
            Err(error) => return Err(error),
        }
        let merged = match value {
            Ok(merged) => merged,
            Err(message) => return Err(JjError::JjLibBackendError(message.clone())),
        };
        match merge::resolved_value(merged) {
            None => Err(JjError::IO("Conflicted path".to_owned())),
            Some(value) => Ok(type_of(value.as_ref())),
        }
    }
}

/// The attributes of a file, given its size or the message of the error in reading it.
pub fn file_attributes(size: Found<u64>) -> (r: JjResult<FileAttributes>)
    ensures
        r == match size {
            Ok(size) => Ok::<FileAttributes, JjError>(virtual_file::timeless(size, FileType::File)),
            Err(message) => Err(JjError::IO(message)),
        },
{
    match size {
        Ok(size) => Ok(
            FileAttributes {
                size,
                file_type: FileType::File,
                created: virtual_file::UNIX_EPOCH,
                modified: virtual_file::UNIX_EPOCH,
            },
        ),
        Err(message) => Err(JjError::IO(message)),
    }
}

/// The attributes of a symlink, given its target.
pub fn link_attributes(target: Found<String>) -> (r: JjResult<FileAttributes>)
    ensures
        match target {
            Ok(target) => r matches Ok(attributes) && attributes.size == virtual_file::link_size(
                target@,
            ) && attributes == virtual_file::timeless(attributes.size, FileType::Symlink),
            Err(message) => r == Err::<FileAttributes, _>(JjError::JjLibBackendError(message)),
        },
{
    match target {
        Ok(target) => Ok(virtual_file::link_attributes(target.as_str())),
        Err(message) => Err(JjError::JjLibBackendError(message)),
    }
}

impl VirtualFile for CommitTreeFile {
    fn read(&self) -> (r: JjResult<Answer<Vec<u8>>>)
        ensures
            if repo_path::is_inside(self.path()) {
                r matches Ok(Answer::Lookup(query)) && is_path_value(
                    self.commit(),
                    self.path(),
                    query,
                )
            } else {
                r == Err::<Answer<Vec<u8>>, _>(JjError::InvalidPath)
            },
    {
        match self.path_value() {
            Ok(query) => Ok(Answer::Lookup(query)),
            Err(error) => Err(error),
        }
    }

    fn list(&self) -> (r: JjResult<Answer<Vec<DirectoryEntry>>>)
        ensures
            if repo_path::is_inside(self.path()) {
                r matches Ok(Answer::Lookup(query)) && is_sub_trees(
                    self.commit(),
                    self.path(),
                    query,
                )
            } else {
                r == Err::<Answer<Vec<DirectoryEntry>>, _>(JjError::InvalidPath)
            },
    {
        match self.sub_trees() {
            Ok(query) => Ok(Answer::Lookup(query)),
            Err(error) => Err(error),
        }
    }

    fn read_link(&self) -> (r: JjResult<Answer<String>>)
        ensures
            if repo_path::is_inside(self.path()) {
                r matches Ok(Answer::Lookup(query)) && is_path_value(
                    self.commit(),
                    self.path(),
                    query,
                )
            } else {
                r == Err::<Answer<String>, _>(JjError::InvalidPath)
            },
    {
        match self.path_value() {
            Ok(query) => Ok(Answer::Lookup(query)),
            Err(error) => Err(error),
        }
    }

    fn attributes(&self) -> (r: JjResult<Answer<FileAttributes>>)
        ensures
            if repo_path::is_inside(self.path()) {
                r matches Ok(Answer::Lookup(query)) && is_path_value(
                    self.commit(),
                    self.path(),
                    query,
                )
            } else {
                r == Err::<Answer<FileAttributes>, _>(JjError::InvalidPath)
            },
    {
        match self.path_value() {
            Ok(query) => Ok(Answer::Lookup(query)),
            Err(error) => Err(error),
        }
    }

    fn file_type(&self) -> (r: JjResult<Answer<FileType>>)
        ensures
            if repo_path::is_inside(self.path()) {
                r matches Ok(Answer::Lookup(query)) && is_path_value(
                    self.commit(),
                    self.path(),
                    query,
                )
            } else {
                r == Err::<Answer<FileType>, _>(JjError::InvalidPath)
            },
    {
        match self.path_value() {
            Ok(query) => Ok(Answer::Lookup(query)),
            Err(error) => Err(error),
        }
    }
}

/// An entry of a directory that is not in conflict is listed with the type that it has itself.
pub proof fn lemma_listed_type(trees: Seq<Tree>, i: int)
    requires
        trees.len() == 1,
        0 <= i < tree_entries(trees).len(),
    ensures
        tree_entries(trees)[i].file_type == value_type(
            trees[0].lookup(tree_entries(trees)[i].name),
        ),
        trees[0].lookup(tree_entries(trees)[i].name) is Some,
{
    let name = tree_entries(trees)[i].name;
    assert(listing::listed_names(trees)[i] == name);
    listing::lemma_listed_iff_present(trees, name);
}

/// A directory that is not in conflict lists its entries in the order of their names, each once.
pub proof fn lemma_entries_ascend(trees: Seq<Tree>, i: int, j: int)
    requires
        trees.len() == 1,
        trees[0].wf(),
        0 <= i < j < tree_entries(trees).len(),
    ensures
        text::text_lt(tree_entries(trees)[i].name, tree_entries(trees)[j].name),
{
    listing::lemma_listed_ascend(trees);
    let names = listing::listed_names(trees);
    assert(text::text_lt(names[i], names[j]));
}

/// A directory that is not in conflict lists the entries of its tree in their order, each with its
/// name: as a directory exactly where the entry is a tree, as a symlink exactly where it is a symlink,
/// and otherwise as a file, whatever else the entry says.
pub proof fn lemma_listed_entries(
    file: CommitTreeFile,
    trees: Merge<Tree>,
    tree: Tree,
    r: JjResult<Answer<Vec<DirectoryEntry>>>,
)
    requires
        repo_path::is_inside(file.path()),
        merge::tree_terms(trees) == seq![tree],
        tree.wf(),
        call_ensures(CommitTreeFile::list_found, (&file, &Ok(Some(trees))), r),
    ensures
        r matches Ok(Answer::Ready(entries)) && entries@.len() == tree.entries@.len() && forall|i: int|
            0 <= i < entries@.len() ==> {
                &&& (#[trigger] entries@[i]).name@ == tree.entries@[i].name@
                &&& entries@[i].file_type == FileType::Directory <==> tree.entries@[i].value is Tree
                &&& entries@[i].file_type == FileType::Symlink <==> tree.entries@[i].value is Symlink
                &&& entries@[i].file_type == FileType::File <==> tree.entries@[i].value is File
                    || tree.entries@[i].value is GitSubmodule
            },
{
    let terms = merge::tree_terms(trees);
    let entries = r->Ok_0->Ready_0@;
    let views = virtual_file::entry_views(entries);
    listing::lemma_listed_ascend(terms);
    assert(views == tree_entries(terms));
    assert(tree_entries(terms).len() == listing::listed_names(terms).len());
    assert(views.len() == entries.len());
    assert forall|i: int| 0 <= i < entries.len() implies {
        &&& (#[trigger] entries[i]).name@ == tree.entries@[i].name@
        &&& entries[i].file_type == FileType::Directory <==> tree.entries@[i].value is Tree
        &&& entries[i].file_type == FileType::Symlink <==> tree.entries@[i].value is Symlink
        &&& entries[i].file_type == FileType::File <==> tree.entries@[i].value is File
            || tree.entries@[i].value is GitSubmodule
    } by {
        assert(views[i] == entries[i]@);
        tree::lemma_lookup_entry(tree, i);
        assert(listing::listed_names(terms)[i] == tree.entries@[i].name@);
    }
}

/// A directory in conflict lists each name that any of its trees has, once and as a file, and no
/// others. The names of the first tree come first, in their order.
pub proof fn lemma_listed_in_conflict(
    file: CommitTreeFile,
    trees: Merge<Tree>,
    name: Seq<char>,
    r: JjResult<Answer<Vec<DirectoryEntry>>>,
)
    requires
        repo_path::is_inside(file.path()),
        merge::tree_terms(trees).len() > 1,
        merge::tree_terms(trees)[0].wf(),
        call_ensures(CommitTreeFile::list_found, (&file, &Ok(Some(trees))), r),
    ensures
        r matches Ok(Answer::Ready(entries)) && ((exists|k: int|
            0 <= k < entries@.len() && (#[trigger] entries@[k]).name@ == name) <==> exists|
            t: int,
            i: int,
        |
            0 <= t < merge::tree_terms(trees).len() && 0 <= i < merge::tree_terms(
                trees,
            )[t].entries@.len() && (#[trigger] merge::tree_terms(trees)[t].entries@[i]).name@
                == name) && (forall|k: int|
            0 <= k < entries@.len() ==> (#[trigger] entries@[k]).file_type == FileType::File)
            && (forall|j: int, k: int|
            0 <= j < k < entries@.len() ==> (#[trigger] entries@[j]).name@ != (
            #[trigger] entries@[k]).name@) && forall|k: int|
            0 <= k < merge::tree_terms(trees)[0].entries@.len() ==> k < entries@.len()
                && entries@[k].name@ == (#[trigger] merge::tree_terms(trees)[0].entries@[k]).name@,
{
    let terms = merge::tree_terms(trees);
    let entries = r->Ok_0->Ready_0@;
    let views = virtual_file::entry_views(entries);
    let names = listing::listed_names(terms);
    listing::lemma_listed_iff_entry(terms, name);
    listing::lemma_listed_once(terms);
    assert(views == tree_entries(terms));
    assert(tree_entries(terms).len() == names.len());
    assert(views.len() == entries.len());
    assert forall|k: int| 0 <= k < entries.len() implies (#[trigger] entries[k]).name@ == names[k]
        && entries[k].file_type == FileType::File by {
        assert(views[k] == entries[k]@);
    }
    if names.contains(name) {
        let k = choose|k: int| 0 <= k < names.len() && names[k] == name;
        assert(entries[k].name@ == name);
    }
    if exists|k: int| 0 <= k < entries.len() && (#[trigger] entries[k]).name@ == name {
        let k = choose|k: int| 0 <= k < entries.len() && (#[trigger] entries[k]).name@ == name;
        assert(names[k] == name);
    }
    assert forall|k: int| 0 <= k < terms[0].entries@.len() implies k < entries.len()
        && entries[k].name@ == (#[trigger] terms[0].entries@[k]).name@ by {
        listing::lemma_first_tree_listed(terms, k);
    }
}

/// An entry is listed with the type that it has when it is asked for its type itself.
pub proof fn lemma_listed_type_is_own_type(
    directory: CommitTreeFile,
    trees: Merge<Tree>,
    tree: Tree,
    i: int,
    file: CommitTreeFile,
    value: Merge<Option<TreeValue>>,
    listed: JjResult<Answer<Vec<DirectoryEntry>>>,
    kind: JjResult<FileType>,
)
    requires
        repo_path::is_inside(directory.path()),
        repo_path::is_inside(file.path()),
        merge::tree_terms(trees) == seq![tree],
        tree.wf(),
        0 <= i < tree.entries@.len(),
        merge::value_terms(value) == seq![Some(tree.entries@[i].value)],
        call_ensures(CommitTreeFile::list_found, (&directory, &Ok(Some(trees))), listed),
        call_ensures(CommitTreeFile::file_type_found, (&file, &Ok(value)), kind),
    ensures
        listed matches Ok(Answer::Ready(entries)) && kind == Ok::<_, JjError>(
            entries@[i].file_type,
        ),
{
    lemma_listed_entries(directory, trees, tree, listed);
    assert(listed->Ok_0->Ready_0@[i].name@ == tree.entries@[i].name@);
}

/// What the value at a path tells, the requests to it agree on. A file can be read, a symlink can be
/// followed, and their attributes are taken from what is read or followed; a directory can be neither.
/// What is missing is not found, and neither is what is in conflict read or followed.
pub proof fn lemma_requests_agree(
    file: CommitTreeFile,
    value: Merge<Option<TreeValue>>,
    place: String,
    content: JjResult<Query>,
    link: JjResult<Query>,
    attributes: JjResult<Answer<FileAttributes>>,
    kind: JjResult<FileType>,
)
    requires
        call_ensures(CommitTreeFile::repo_path, (&file,), Ok(place)),
        call_ensures(CommitTreeFile::read_found, (&file, &Ok(value)), content),
        call_ensures(CommitTreeFile::read_link_found, (&file, &Ok(value)), link),
        call_ensures(CommitTreeFile::attributes_found, (&file, &Ok(value)), attributes),
        call_ensures(CommitTreeFile::file_type_found, (&file, &Ok(value)), kind),
    ensures
        merge::value_terms(value).len() != 1 ==> {
            &&& content == Err::<Query, _>(JjError::NotADirectory)
            &&& link == Err::<Query, _>(JjError::NotASymlink)
            &&& attributes matches Err(JjError::IO(a)) && kind matches Err(JjError::IO(b)) && a@
                == "Conflicted path"@ && b@ == "Conflicted path"@
        },
        merge::value_terms(value).len() == 1 ==> match merge::value_terms(value)[0] {
            None => {
                &&& content == Err::<Query, _>(JjError::NotFound)
                &&& link == Err::<Query, _>(JjError::NotFound)
                &&& attributes == Err::<Answer<FileAttributes>, _>(JjError::NotFound)
                &&& kind == Ok::<_, JjError>(FileType::File)
            },
            Some(TreeValue::File { id, .. }) => {
                &&& content matches Ok(Query::File { path, id: found }) && path@ == place@ && found@
                    == id@
                &&& link == Err::<Query, _>(JjError::NotASymlink)
                &&& attributes matches Ok(Answer::Lookup(Query::File { path, id: found })) && path@
                    == place@ && found@ == id@
                &&& kind == Ok::<_, JjError>(FileType::File)
            },
            Some(TreeValue::Symlink(id)) => {
                &&& content == Err::<Query, _>(JjError::NotAFile)
                &&& link matches Ok(Query::Symlink { path, id: found }) && path@ == place@ && found@
                    == id@
                &&& attributes matches Ok(Answer::Lookup(Query::Symlink { path, id: found }))
                    && path@ == place@ && found@ == id@
                &&& kind == Ok::<_, JjError>(FileType::Symlink)
            },
            Some(TreeValue::Tree(_)) => {
                &&& content == Err::<Query, _>(JjError::NotAFile)
                &&& link == Err::<Query, _>(JjError::NotASymlink)
                &&& attributes matches Ok(Answer::Ready(a)) && a.size == 0 && a.file_type
                    == FileType::Directory && a.created == 0 && a.modified == 0
                &&& kind == Ok::<_, JjError>(FileType::Directory)
            },
            Some(TreeValue::GitSubmodule(_)) => {
                &&& content == Err::<Query, _>(JjError::NotAFile)
                &&& link == Err::<Query, _>(JjError::NotASymlink)
                &&& attributes == Err::<Answer<FileAttributes>, _>(JjError::NotAFile)
                &&& kind == Ok::<_, JjError>(FileType::File)
            },
        },
{
}

/// A message of the repository is handed on by every request, whatever it was looked up for.
pub proof fn lemma_backend_errors(
    file: CommitTreeFile,
    message: String,
    content: JjResult<Query>,
    listed: JjResult<Answer<Vec<DirectoryEntry>>>,
    link: JjResult<Query>,
    attributes: JjResult<Answer<FileAttributes>>,
    kind: JjResult<FileType>,
    missing: JjError,
)
    requires
        repo_path::is_inside(file.path()),
        call_ensures(CommitTreeFile::read_found, (&file, &Err(message)), content),
        call_ensures(CommitTreeFile::list_found, (&file, &Err(message)), listed),
        call_ensures(CommitTreeFile::read_link_found, (&file, &Err(message)), link),
        call_ensures(CommitTreeFile::attributes_found, (&file, &Err(message)), attributes),
        call_ensures(CommitTreeFile::file_type_found, (&file, &Err(message)), kind),
        call_ensures(CommitTreeFile::list_missing, (&file, &Err(message)), missing),
    ensures
        missing == JjError::JjLibBackendError(message),
        content == Err::<Query, _>(missing),
        listed == Err::<Answer<Vec<DirectoryEntry>>, _>(missing),
        link == Err::<Query, _>(missing),
        attributes == Err::<Answer<FileAttributes>, _>(missing),
        kind == Err::<FileType, _>(missing),
{
}

/// Where there is no directory at a path, listing it fails as not found where nothing is there or a
/// tree cannot be had, and otherwise as no directory.
pub proof fn lemma_missing_directory(
    file: CommitTreeFile,
    value: Merge<Option<TreeValue>>,
    r: JjError,
)
    requires
        call_ensures(CommitTreeFile::list_missing, (&file, &Ok(value)), r),
    ensures
        r == JjError::NotFound || r == JjError::NotADirectory,
        r == JjError::NotFound <==> merge::value_terms(value).len() == 1 && (merge::value_terms(
            value,
        )[0] is None || merge::value_terms(value)[0]->0 is Tree),
{
}

/// Each request to a path of ordinary names asks for what is at those names, with single slashes
/// between them, in the tree of the commit of the file. A directory is asked for its trees, and where
/// it has none for the value, as all else is.
pub proof fn lemma_place_asked(
    file: CommitTreeFile,
    names: Seq<Seq<char>>,
    content: JjResult<Answer<Vec<u8>>>,
    listed: JjResult<Answer<Vec<DirectoryEntry>>>,
    no_trees: JjResult<Answer<Vec<DirectoryEntry>>>,
    link: JjResult<Answer<String>>,
    attributes: JjResult<Answer<FileAttributes>>,
    kind: JjResult<Answer<FileType>>,
)
    requires
        forall|i: int|
            0 <= i < names.len() ==> (#[trigger] names[i]).len() > 0 && names[i] != seq!['.']
                && names[i] != seq!['.', '.'] && !names[i].contains('/'),
        paths::segments(file.path()) == names,
        call_ensures(CommitTreeFile::read, (&file,), content),
        call_ensures(CommitTreeFile::list, (&file,), listed),
        call_ensures(CommitTreeFile::list_found, (&file, &Ok(None)), no_trees),
        call_ensures(CommitTreeFile::read_link, (&file,), link),
        call_ensures(CommitTreeFile::attributes, (&file,), attributes),
        call_ensures(CommitTreeFile::file_type, (&file,), kind),
    ensures
        content matches Ok(Answer::Lookup(Query::PathValue { commit_id, path })) && commit_id@
            == file.commit() && path@ == text::separated(names, '/'),
        listed matches Ok(Answer::Lookup(Query::SubTrees { commit_id, path })) && commit_id@
            == file.commit() && path@ == text::separated(names, '/'),
        no_trees matches Ok(Answer::Lookup(Query::PathValue { commit_id, path })) && commit_id@
            == file.commit() && path@ == text::separated(names, '/'),
        link matches Ok(Answer::Lookup(Query::PathValue { commit_id, path })) && commit_id@
            == file.commit() && path@ == text::separated(names, '/'),
        attributes matches Ok(Answer::Lookup(Query::PathValue { commit_id, path })) && commit_id@
            == file.commit() && path@ == text::separated(names, '/'),
        kind matches Ok(Answer::Lookup(Query::PathValue { commit_id, path })) && commit_id@
            == file.commit() && path@ == text::separated(names, '/'),
{
    repo_path::lemma_inside_names(names, file.path());
}

/// A path that leads out of the tree is refused by every request.
pub proof fn lemma_way_out_refused(
    file: CommitTreeFile,
    content: JjResult<Answer<Vec<u8>>>,
    listed: JjResult<Answer<Vec<DirectoryEntry>>>,
    link: JjResult<Answer<String>>,
    attributes: JjResult<Answer<FileAttributes>>,
    kind: JjResult<Answer<FileType>>,
)
    requires
        paths::segments(file.path()).contains(seq!['.', '.']) || (file.path().len() > 0
            && file.path()[0] == '/'),
        call_ensures(CommitTreeFile::read, (&file,), content),
        call_ensures(CommitTreeFile::list, (&file,), listed),
        call_ensures(CommitTreeFile::read_link, (&file,), link),
        call_ensures(CommitTreeFile::attributes, (&file,), attributes),
        call_ensures(CommitTreeFile::file_type, (&file,), kind),
    ensures
        content == Err::<Answer<Vec<u8>>, _>(JjError::InvalidPath),
        listed == Err::<Answer<Vec<DirectoryEntry>>, _>(JjError::InvalidPath),
        link == Err::<Answer<String>, _>(JjError::InvalidPath),
        attributes == Err::<Answer<FileAttributes>, _>(JjError::InvalidPath),
        kind == Err::<Answer<FileType>, _>(JjError::InvalidPath),
{
    repo_path::lemma_outside(file.path());
}

/// The attributes of a file have the size that was read, and those of a symlink as many bytes as its
/// target; neither has timestamps.
pub proof fn lemma_sizes(
    size: u64,
    target: String,
    of_file: JjResult<FileAttributes>,
    of_link: JjResult<FileAttributes>,
)
    requires
        call_ensures(file_attributes, (Ok(size),), of_file),
        call_ensures(link_attributes, (Ok(target),), of_link),
    ensures
        of_file matches Ok(a) && a.size == size && a.file_type == FileType::File && a.created == 0
            && a.modified == 0,
        of_link matches Ok(a) && a.size == encode_utf8(target@).len() && a.file_type
            == FileType::Symlink && a.created == 0 && a.modified == 0,
{
}

/// A file is at the path of the commit that it was made for.
pub proof fn lemma_new_file(
    commit_id: CommitId,
    path: String,
    r: JjResult<CommitTreeFile>,
    id: &CommitId,
)
    requires
        call_ensures(CommitTreeFile::new, (commit_id, path, Ok(())), r),
        r matches Ok(file) ==> call_ensures(CommitTreeFile::commit_id, (&file,), id),
    ensures
        r matches Ok(file) && file.commit() == commit_id@ && file.path() == path@ && id@
            == commit_id@,
{
}

/// Nothing is created, written or deleted.
pub proof fn lemma_readonly(
    file: CommitTreeFile,
    new_file: CreateFile,
    offset: u64,
    data: &[u8],
    created: JjResult<FileAttributes>,
    written: JjResult<u32>,
    deleted: JjResult<()>,
)
    requires
        call_ensures(CommitTreeFile::create, (&file, new_file), created),
        call_ensures(CommitTreeFile::write, (&file, offset, data), written),
        call_ensures(CommitTreeFile::delete, (&file,), deleted),
    ensures
        created == Err::<FileAttributes, _>(JjError::Readonly),
        written == Err::<u32, _>(JjError::Readonly),
        deleted == Err::<(), _>(JjError::Readonly),
{
}

/// The message of an error in loading the commit, in reading a file or in following a symlink is handed
/// on.
pub proof fn lemma_errors_handed_on(
    commit_id: CommitId,
    path: String,
    message: String,
    file: JjResult<CommitTreeFile>,
    of_file: JjResult<FileAttributes>,
    of_link: JjResult<FileAttributes>,
)
    requires
        call_ensures(CommitTreeFile::new, (commit_id, path, Err(message)), file),
        call_ensures(file_attributes, (Err(message),), of_file),
        call_ensures(link_attributes, (Err(message),), of_link),
    ensures
        file == Err::<CommitTreeFile, _>(JjError::JjLibBackendError(message)),
        of_file == Err::<FileAttributes, _>(JjError::IO(message)),
        of_link == Err::<FileAttributes, _>(JjError::JjLibBackendError(message)),
{
}

} // verus!
