//! Files in the tree of a commit, as files and directories alone.

use jj_lib::merge::Merge;
use vstd::prelude::*;

use crate::commit_id::CommitId;
use crate::commit_tree_file;
use crate::file::{File, FileType};
use crate::jj_error::{JjError, JjResult};
use crate::jj_filesystem::VirtualFile;
use crate::listing;
use crate::merge;
use crate::paths;
use crate::repo_path;
use crate::text;
use crate::tree;
use crate::tree::{Tree, TreeValue};
use crate::virtual_file;
use crate::virtual_file::{Answer, Found, Query};

verus! {

/// The file or directory at a path of a commit. A symlink counts as a file that cannot be read.
pub struct CommitTreeFile {
    file: commit_tree_file::CommitTreeFile,
}

/// The type of what is at a path: all but a directory counts as a file.
pub open spec fn value_type(value: Option<TreeValue>) -> FileType {
    match value {
        Some(TreeValue::Tree(_)) => FileType::Directory,
        _ => FileType::File,
    }
}

/// Whether files are the entries of a directory. An entry of a directory in conflict counts as a
/// file.
pub open spec fn are_entries(trees: Seq<Tree>, files: Seq<File>) -> bool {
    let names = listing::listed_names(trees);
    &&& files.len() == names.len()
    &&& forall|i: int|
        0 <= i < files.len() ==> (#[trigger] files[i]).name@ == names[i] && files[i].file_type
            == value_type(listing::listed_value(trees, names[i]))
}

/// The type of what is at a path.
fn type_of(value: Option<&TreeValue>) -> (r: FileType)
    ensures
        r == value_type(
            match value {
                Some(value) => Some(*value),
                None => None,
            },
        ),
{
    match value {
        Some(TreeValue::Tree(_)) => FileType::Directory,
        _ => FileType::File,
    }
}

/// The entries of a directory.
pub(crate) fn list_files(trees: &Merge<Tree>) -> (r: Vec<File>)
    ensures
        are_entries(merge::tree_terms(*trees), r@),
{
    let names = listing::list_names(trees);
    let ghost terms = merge::tree_terms(*trees);
    let mut files: Vec<File> = Vec::new();
    let mut i: usize = 0;
    while i < names.len()
        invariant
            i <= names@.len(),
            files@.len() == i,
            terms == merge::tree_terms(*trees),
            text::views(names@) == listing::listed_names(terms),
            forall|j: int|
                0 <= j < i ==> (#[trigger] files@[j]).name@ == listing::listed_names(terms)[j]
                    && files@[j].file_type == value_type(
                    listing::listed_value(terms, listing::listed_names(terms)[j]),
                ),
        decreases names@.len() - i,
    {
        let name = names[i].as_str();
        assert(text::views(names@)[i as int] == name@);
        let file_type = type_of(listing::find_value(trees, name));
        files.push(File::new(name, file_type));
        i = i + 1;
    }
    assert(text::views(names@).len() == names@.len());
    files
}

impl CommitTreeFile {
    /// The id of the commit.
    pub closed spec fn commit(&self) -> Seq<u8> {
        self.file.commit()
    }

    /// The path in the commit.
    pub closed spec fn path(&self) -> Seq<char> {
        self.file.path()
    }

    /// A path of a commit, given whether the commit could be loaded or the message of the error.
    pub fn new(commit_id: CommitId, path: String, loaded: Found<()>) -> (r: JjResult<Self>)
        ensures
            match loaded {
                Ok(_) => r matches Ok(file) && file.commit() == commit_id@ && file.path() == path@,
                Err(message) => r == Err::<Self, _>(JjError::JjLibBackendError(message)),
            },
    {
        match commit_tree_file::CommitTreeFile::new(commit_id, path, loaded) {
            Ok(file) => Ok(CommitTreeFile { file }),
            Err(error) => Err(error),
        }
    }

    /// The commit whose tree the file is in.
    pub fn commit_id(&self) -> (r: &CommitId)
        ensures
            r@ == self.commit(),
    {
        self.file.commit_id()
    }

    /// What to read, given the value at the path.
    pub fn read_found(&self, value: &Found<Merge<Option<TreeValue>>>) -> (r: JjResult<Query>)
        ensures
            !repo_path::is_inside(self.path()) ==> r == Err::<Query, _>(JjError::InvalidPath),
            repo_path::is_inside(self.path()) ==> match value {
                Err(message) => r == Err::<Query, _>(JjError::JjLibBackendError(*message)),
                Ok(merged) => match commit_tree_file::resolved(merge::value_terms(*merged)) {
                    None => r == Err::<Query, _>(JjError::NotADirectory),
                    Some(None) => r == Err::<Query, _>(JjError::NotFound),
                    Some(Some(TreeValue::File { id, .. })) => r matches Ok(
                        Query::File { path, id: found },
                    ) && path@ == repo_path::inside(self.path()) && found@ == id@,
                    Some(Some(_)) => r == Err::<Query, _>(JjError::NotAFile),
                },
            },
    {
        self.file.read_found(value)
    }

    /// The entries, given the trees at the path. Where there are none, the value at the path tells
    /// which error it is.
    pub fn list_found(&self, trees: &Found<Option<Merge<Tree>>>) -> (r: JjResult<Answer<Vec<File>>>)
        ensures
            !repo_path::is_inside(self.path()) ==> r == Err::<Answer<Vec<File>>, _>(
                JjError::InvalidPath,
            ),
            repo_path::is_inside(self.path()) ==> match trees {
                Err(message) => r == Err::<Answer<Vec<File>>, _>(
                    JjError::JjLibBackendError(*message),
                ),
                Ok(None) => r matches Ok(Answer::Lookup(query)) && commit_tree_file::is_path_value(
                    self.commit(),
                    self.path(),
                    query,
                ),
                Ok(Some(trees)) => r matches Ok(Answer::Ready(files)) && are_entries(
                    merge::tree_terms(*trees),
                    files@,
                ),
            },
    {
        let missing = match self.file.path_value() {
            Ok(query) => query,
            Err(error) => return Err(error),
        };
        match trees {
            Ok(Some(trees)) => Ok(Answer::Ready(list_files(trees))),
            Ok(None) => Ok(Answer::Lookup(missing)),
            Err(message) => Err(JjError::JjLibBackendError(message.clone())),
        }
    }

    /// The error of listing a path without trees, given the value at the path.
    pub fn list_missing(&self, value: &Found<Merge<Option<TreeValue>>>) -> (r: JjError)
        ensures
            r == match value {
                Err(message) => JjError::JjLibBackendError(*message),
                Ok(merged) => commit_tree_file::list_error(merge::value_terms(*merged)),
            },
    {
        self.file.list_missing(value)
    }

    /// The size, given the value at the path. That of a file takes its contents.
    pub fn size_found(&self, value: &Found<Merge<Option<TreeValue>>>) -> (r: JjResult<Answer<u64>>)
        ensures
            !repo_path::is_inside(self.path()) ==> r == Err::<Answer<u64>, _>(JjError::InvalidPath),
            repo_path::is_inside(self.path()) ==> match value {
                Err(message) => r == Err::<Answer<u64>, _>(JjError::JjLibBackendError(*message)),
                Ok(merged) => match commit_tree_file::resolved(merge::value_terms(*merged)) {
                    None => r matches Err(JjError::IO(message)) && message@ == "Conflicted path"@,
                    Some(None) => r == Err::<Answer<u64>, _>(JjError::NotFound),
                    Some(Some(TreeValue::Tree(_))) => r == Ok::<_, JjError>(Answer::Ready(0u64)),
                    Some(Some(TreeValue::File { id, .. })) => r matches Ok(
                        Answer::Lookup(Query::File { path, id: found }),
                    ) && path@ == repo_path::inside(self.path()) && found@ == id@,
                    Some(Some(_)) => r == Err::<Answer<u64>, _>(JjError::NotAFile),
                },
            },
    {
        match self.file_type_found(value) {
            Err(error) => Err(error),
            Ok(FileType::Directory) => Ok(Answer::Ready(0)),
            Ok(FileType::File) => match self.read_found(value) {
                Ok(query) => Ok(Answer::Lookup(query)),
                Err(error) => Err(error),
            },
        }
    }

    /// The type, given the value at the path.
    pub fn file_type_found(&self, value: &Found<Merge<Option<TreeValue>>>) -> (r: JjResult<
        FileType,
    >)
        ensures
            !repo_path::is_inside(self.path()) ==> r == Err::<FileType, _>(JjError::InvalidPath),
            repo_path::is_inside(self.path()) ==> match value {
                Err(message) => r == Err::<FileType, _>(JjError::JjLibBackendError(*message)),
                Ok(merged) => match commit_tree_file::resolved(merge::value_terms(*merged)) {
                    None => r matches Err(JjError::IO(message)) && message@ == "Conflicted path"@,
                    Some(value) => r == Ok::<FileType, JjError>(value_type(value)),
                },
            },
    {
        match self.file.file_type_found(value) {
            Ok(virtual_file::FileType::Directory) => Ok(FileType::Directory),
            Ok(_) => Ok(FileType::File),
            Err(error) => Err(error),
        }
    }
}

impl VirtualFile for CommitTreeFile {
    fn read(&self) -> (r: JjResult<Answer<Vec<u8>>>)
        ensures
            if repo_path::is_inside(self.path()) {
                r matches Ok(Answer::Lookup(query)) && commit_tree_file::is_path_value(
                    self.commit(),
                    self.path(),
                    query,
                )
            } else {
                r == Err::<Answer<Vec<u8>>, _>(JjError::InvalidPath)
            },
    {
        match self.file.path_value() {
            Ok(query) => Ok(Answer::Lookup(query)),
            Err(error) => Err(error),
        }
    }

    fn list(&self) -> (r: JjResult<Answer<Vec<File>>>)
        ensures
            if repo_path::is_inside(self.path()) {
                r matches Ok(Answer::Lookup(query)) && commit_tree_file::is_sub_trees(
                    self.commit(),
                    self.path(),
                    query,
                )
            } else {
                r == Err::<Answer<Vec<File>>, _>(JjError::InvalidPath)
            },
    {
        match self.file.sub_trees() {
            Ok(query) => Ok(Answer::Lookup(query)),
            Err(error) => Err(error),
        }
    }

    fn size(&self) -> (r: JjResult<Answer<u64>>)
        ensures
            if repo_path::is_inside(self.path()) {
                r matches Ok(Answer::Lookup(query)) && commit_tree_file::is_path_value(
                    self.commit(),
                    self.path(),
                    query,
                )
            } else {
                r == Err::<Answer<u64>, _>(JjError::InvalidPath)
            },
    {
        match self.file.path_value() {
            Ok(query) => Ok(Answer::Lookup(query)),
            Err(error) => Err(error),
        }
    }

    fn file_type(&self) -> (r: JjResult<Answer<FileType>>)
        ensures
            if repo_path::is_inside(self.path()) {
                r matches Ok(Answer::Lookup(query)) && commit_tree_file::is_path_value(
                    self.commit(),
                    self.path(),
                    query,
                )
            } else {
                r == Err::<Answer<FileType>, _>(JjError::InvalidPath)
            },
    {
        match self.file.path_value() {
            Ok(query) => Ok(Answer::Lookup(query)),
            Err(error) => Err(error),
        }
    }
}

/// A directory that is not in conflict lists the entries of its tree in their order, each with its
/// name: as a directory exactly where the entry is a tree, and otherwise as a file.
pub proof fn lemma_listed_entries(
    file: CommitTreeFile,
    trees: Merge<Tree>,
    tree: Tree,
    r: JjResult<Answer<Vec<File>>>,
)
    requires
        repo_path::is_inside(file.path()),
        merge::tree_terms(trees) == seq![tree],
        tree.wf(),
        call_ensures(CommitTreeFile::list_found, (&file, &Ok(Some(trees))), r),
    ensures
        r matches Ok(Answer::Ready(files)) && is_tree_listing(tree, files@),
{
    lemma_tree_listing(seq![tree], r->Ok_0->Ready_0@);
}

/// Whether files are the entries of a tree in their order, each with its name: as a directory exactly
/// where the entry is a tree.
pub open spec fn is_tree_listing(tree: Tree, files: Seq<File>) -> bool {
    &&& files.len() == tree.entries@.len()
    &&& forall|i: int|
        0 <= i < files.len() ==> {
            &&& (#[trigger] files[i]).name@ == tree.entries@[i].name@
            &&& files[i].file_type == FileType::Directory <==> tree.entries@[i].value is Tree
        }
}

/// The entries of a directory that is not in conflict are those of its tree.
pub(crate) proof fn lemma_tree_listing(terms: Seq<Tree>, files: Seq<File>)
    requires
        terms.len() == 1,
        terms[0].wf(),
        are_entries(terms, files),
    ensures
        is_tree_listing(terms[0], files),
{
    let tree = terms[0];
    listing::lemma_listed_ascend(terms);
    let names = listing::listed_names(terms);
    assert(names.len() == tree.entries@.len());
    assert forall|i: int| 0 <= i < files.len() implies {
        &&& (#[trigger] files[i]).name@ == tree.entries@[i].name@
        &&& files[i].file_type == FileType::Directory <==> tree.entries@[i].value is Tree
    } by {
        assert(names[i] == tree.entries@[i].name@);
        tree::lemma_lookup_entry(tree, i);
    }
}

/// Whether files are the names of several trees: each name that any of them has, once and as a file,
/// the names of the first tree first and in their order.
pub open spec fn is_conflict_listing(terms: Seq<Tree>, files: Seq<File>) -> bool {
    &&& forall|name: Seq<char>|
        (exists|k: int| 0 <= k < files.len() && (#[trigger] files[k]).name@ == name)
            <==> #[trigger] is_name_of_any(terms, name)
    &&& forall|k: int| 0 <= k < files.len() ==> (#[trigger] files[k]).file_type == FileType::File
    &&& forall|j: int, k: int|
        0 <= j < k < files.len() ==> (#[trigger] files[j]).name@ != (#[trigger] files[k]).name@
    &&& forall|k: int|
        0 <= k < terms[0].entries@.len() ==> k < files.len() && files[k].name@ == (
        #[trigger] terms[0].entries@[k]).name@
}

/// Whether an entry of one of the trees has a name.
pub open spec fn is_name_of_any(terms: Seq<Tree>, name: Seq<char>) -> bool {
    exists|t: int, i: int|
        0 <= t < terms.len() && 0 <= i < terms[t].entries@.len()
            && (#[trigger] terms[t].entries@[i]).name@ == name
}

/// The entries of a directory in conflict are the names of its trees.
pub(crate) proof fn lemma_conflict_listing(terms: Seq<Tree>, files: Seq<File>)
    requires
        terms.len() > 1,
        terms[0].wf(),
        are_entries(terms, files),
    ensures
        is_conflict_listing(terms, files),
{
    let names = listing::listed_names(terms);
    listing::lemma_listed_once(terms);
    assert forall|name: Seq<char>|
        (exists|k: int| 0 <= k < files.len() && (#[trigger] files[k]).name@ == name)
            <==> #[trigger] is_name_of_any(terms, name) by {
        listing::lemma_listed_iff_entry(terms, name);
        if names.contains(name) {
            let k = choose|k: int| 0 <= k < names.len() && names[k] == name;
            assert(files[k].name@ == name);
        }
        if exists|k: int| 0 <= k < files.len() && (#[trigger] files[k]).name@ == name {
            let k = choose|k: int| 0 <= k < files.len() && (#[trigger] files[k]).name@ == name;
            assert(names[k] == name);
        }
    }
    assert forall|k: int| 0 <= k < terms[0].entries@.len() implies k < files.len()
        && files[k].name@ == (#[trigger] terms[0].entries@[k]).name@ by {
        listing::lemma_first_tree_listed(terms, k);
    }
}

/// A directory in conflict lists each name that any of its trees has, once and as a file, and no
/// others. The names of the first tree come first, in their order.
pub proof fn lemma_listed_in_conflict(
    file: CommitTreeFile,
    trees: Merge<Tree>,
    r: JjResult<Answer<Vec<File>>>,
)
    requires
        repo_path::is_inside(file.path()),
        merge::tree_terms(trees).len() > 1,
        merge::tree_terms(trees)[0].wf(),
        call_ensures(CommitTreeFile::list_found, (&file, &Ok(Some(trees))), r),
    ensures
        r matches Ok(Answer::Ready(files)) && is_conflict_listing(merge::tree_terms(trees), files@),
{
    lemma_conflict_listing(merge::tree_terms(trees), r->Ok_0->Ready_0@);
}

/// What the value at a path tells, the requests to it agree on. A file can be read, and its size is
/// taken from what is read; a directory has no size; a symlink or a submodule counts as a file that
/// cannot be read.
pub proof fn lemma_requests_agree(
    file: CommitTreeFile,
    value: Merge<Option<TreeValue>>,
    content: JjResult<Query>,
    size: JjResult<Answer<u64>>,
    kind: JjResult<FileType>,
)
    requires
        repo_path::is_inside(file.path()),
        call_ensures(CommitTreeFile::read_found, (&file, &Ok(value)), content),
        call_ensures(CommitTreeFile::size_found, (&file, &Ok(value)), size),
        call_ensures(CommitTreeFile::file_type_found, (&file, &Ok(value)), kind),
    ensures
        merge::value_terms(value).len() != 1 ==> {
            &&& content == Err::<Query, _>(JjError::NotADirectory)
            &&& size matches Err(JjError::IO(a)) && kind matches Err(JjError::IO(b)) && a@
                == "Conflicted path"@ && b@ == "Conflicted path"@
        },
        merge::value_terms(value).len() == 1 ==> match merge::value_terms(value)[0] {
            None => {
                &&& content == Err::<Query, _>(JjError::NotFound)
                &&& size == Err::<Answer<u64>, _>(JjError::NotFound)
                &&& kind == Ok::<_, JjError>(FileType::File)
            },
            Some(TreeValue::File { id, .. }) => {
                &&& content matches Ok(Query::File { path: a, id: x }) && size matches Ok(
                    Answer::Lookup(Query::File { path: b, id: y }),
                ) && a@ == b@ && x@ == id@ && y@ == id@
                &&& kind == Ok::<_, JjError>(FileType::File)
            },
            Some(TreeValue::Tree(_)) => {
                &&& content == Err::<Query, _>(JjError::NotAFile)
                &&& size == Ok::<_, JjError>(Answer::Ready(0u64))
                &&& kind == Ok::<_, JjError>(FileType::Directory)
            },
            Some(_) => {
                &&& content == Err::<Query, _>(JjError::NotAFile)
                &&& size == Err::<Answer<u64>, _>(JjError::NotAFile)
                &&& kind == Ok::<_, JjError>(FileType::File)
            },
        },
{
}

/// Each request to a path of ordinary names asks for what is at those names, with single slashes
/// between them, in the tree of the commit of the file.
pub proof fn lemma_place_asked(
    file: CommitTreeFile,
    names: Seq<Seq<char>>,
    content: JjResult<Answer<Vec<u8>>>,
    listed: JjResult<Answer<Vec<File>>>,
    no_trees: JjResult<Answer<Vec<File>>>,
    size: JjResult<Answer<u64>>,
    kind: JjResult<Answer<FileType>>,
    value: Merge<Option<TreeValue>>,
    reading: JjResult<Query>,
)
    requires
        forall|i: int|
            0 <= i < names.len() ==> (#[trigger] names[i]).len() > 0 && names[i] != seq!['.']
                && names[i] != seq!['.', '.'] && !names[i].contains('/'),
        paths::segments(file.path()) == names,
        call_ensures(CommitTreeFile::read, (&file,), content),
        call_ensures(CommitTreeFile::list, (&file,), listed),
        call_ensures(CommitTreeFile::list_found, (&file, &Ok(None)), no_trees),
        call_ensures(CommitTreeFile::size, (&file,), size),
        call_ensures(CommitTreeFile::file_type, (&file,), kind),
        call_ensures(CommitTreeFile::read_found, (&file, &Ok(value)), reading),
    ensures
        content matches Ok(Answer::Lookup(Query::PathValue { commit_id, path })) && commit_id@
            == file.commit() && path@ == text::separated(names, '/'),
        listed matches Ok(Answer::Lookup(Query::SubTrees { commit_id, path })) && commit_id@
            == file.commit() && path@ == text::separated(names, '/'),
        no_trees matches Ok(Answer::Lookup(Query::PathValue { commit_id, path })) && commit_id@
            == file.commit() && path@ == text::separated(names, '/'),
        size matches Ok(Answer::Lookup(Query::PathValue { commit_id, path })) && commit_id@
            == file.commit() && path@ == text::separated(names, '/'),
        kind matches Ok(Answer::Lookup(Query::PathValue { commit_id, path })) && commit_id@
            == file.commit() && path@ == text::separated(names, '/'),
        reading matches Ok(Query::File { path, .. }) ==> path@ == text::separated(names, '/'),
{
    repo_path::lemma_inside_names(names, file.path());
}

/// A path that leads out of the tree is refused by every request.
pub proof fn lemma_way_out_refused(
    file: CommitTreeFile,
    content: JjResult<Answer<Vec<u8>>>,
    listed: JjResult<Answer<Vec<File>>>,
    size: JjResult<Answer<u64>>,
    kind: JjResult<Answer<FileType>>,
)
    requires
        paths::segments(file.path()).contains(seq!['.', '.']) || (file.path().len() > 0
            && file.path()[0] == '/'),
        call_ensures(CommitTreeFile::read, (&file,), content),
        call_ensures(CommitTreeFile::list, (&file,), listed),
        call_ensures(CommitTreeFile::size, (&file,), size),
        call_ensures(CommitTreeFile::file_type, (&file,), kind),
    ensures
        content == Err::<Answer<Vec<u8>>, _>(JjError::InvalidPath),
        listed == Err::<Answer<Vec<File>>, _>(JjError::InvalidPath),
        size == Err::<Answer<u64>, _>(JjError::InvalidPath),
        kind == Err::<Answer<FileType>, _>(JjError::InvalidPath),
{
    repo_path::lemma_outside(file.path());
}

/// Where there is no directory at a path, listing it fails as not found where nothing is there or a
/// tree cannot be had, and otherwise as no directory.
pub proof fn lemma_missing_directory(
    file: CommitTreeFile,
    value: Merge<Option<TreeValue>>,
    r: JjError,
)
    requires
        call_ensures(CommitTreeFile::list_missing, (&file, &Ok(value)), r),
    ensures
        r == JjError::NotFound || r == JjError::NotADirectory,
        r == JjError::NotFound <==> merge::value_terms(value).len() == 1 && (merge::value_terms(
            value,
        )[0] is None || merge::value_terms(value)[0]->0 is Tree),
{
}

/// A message of the repository is handed on by every request, whatever it was looked up for.
pub proof fn lemma_backend_errors(
    file: CommitTreeFile,
    message: String,
    content: JjResult<Query>,
    listed: JjResult<Answer<Vec<File>>>,
    size: JjResult<Answer<u64>>,
    kind: JjResult<FileType>,
    missing: JjError,
)
    requires
        repo_path::is_inside(file.path()),
        call_ensures(CommitTreeFile::read_found, (&file, &Err(message)), content),
        call_ensures(CommitTreeFile::list_found, (&file, &Err(message)), listed),
        call_ensures(CommitTreeFile::size_found, (&file, &Err(message)), size),
        call_ensures(CommitTreeFile::file_type_found, (&file, &Err(message)), kind),
        call_ensures(CommitTreeFile::list_missing, (&file, &Err(message)), missing),
    ensures
        missing == JjError::JjLibBackendError(message),
        content == Err::<Query, _>(missing),
        listed == Err::<Answer<Vec<File>>, _>(missing),
        size == Err::<Answer<u64>, _>(missing),
        kind == Err::<FileType, _>(missing),
{
}

/// A file is at the path of the commit that it was made for.
pub proof fn lemma_new_file(
    commit_id: CommitId,
    path: String,
    r: JjResult<CommitTreeFile>,
    id: &CommitId,
)
    requires
        call_ensures(CommitTreeFile::new, (commit_id, path, Ok(())), r),
        r matches Ok(file) ==> call_ensures(CommitTreeFile::commit_id, (&file,), id),
    ensures
        r matches Ok(file) && file.commit() == commit_id@ && file.path() == path@ && id@
            == commit_id@,
{
}

/// The message of an error in loading the commit is handed on.
pub proof fn lemma_load_error(
    commit_id: CommitId,
    path: String,
    message: String,
    file: JjResult<CommitTreeFile>,
)
    requires
        call_ensures(CommitTreeFile::new, (commit_id, path, Err(message)), file),
    ensures
        file == Err::<CommitTreeFile, _>(JjError::JjLibBackendError(message)),
{
}

} // verus!
