//! The files of the filesystem and what can be asked of them.

use vstd::prelude::*;
use vstd::utf8::*;

use crate::commit_id::CommitId;
use crate::jj_error::{JjError, JjResult};
use crate::revset::Revset;

verus! {

#[derive(Debug, Clone, Copy, PartialEq, Eq, Structural)]
pub enum FileType {
    File,
    Directory,
    Symlink,
}

/// A point in time, in nanoseconds since the start of 1970 (UTC).
pub type Timestamp = i128;

pub const UNIX_EPOCH: Timestamp = 0;

#[derive(Debug, Clone, Copy, PartialEq, Eq, Structural)]
pub struct FileAttributes {
    pub size: u64,
    pub file_type: FileType,
    pub created: Timestamp,
    pub modified: Timestamp,
}

#[derive(Debug, PartialEq, Eq)]
pub struct DirectoryEntry {
    pub name: String,
    pub file_type: FileType,
}

impl Clone for DirectoryEntry {
    fn clone(&self) -> (r: Self)
        ensures
            r == *self,
    {
        DirectoryEntry { name: self.name.clone(), file_type: self.file_type }
    }
}

/// A directory entry with its name as characters.
pub struct EntryView {
    pub name: Seq<char>,
    pub file_type: FileType,
}

impl View for DirectoryEntry {
    type V = EntryView;

    open spec fn view(&self) -> EntryView {
        EntryView { name: self.name@, file_type: self.file_type }
    }
}

/// The views of a list of entries.
pub open spec fn entry_views(entries: Seq<DirectoryEntry>) -> Seq<EntryView> {
    entries.map_values(|entry: DirectoryEntry| entry@)
}

/// Entries of one type with the given names.
pub open spec fn named_entries(names: Seq<Seq<char>>, file_type: FileType) -> Seq<EntryView> {
    names.map_values(|name: Seq<char>| EntryView { name, file_type })
}

/// The attributes of a file that has no timestamps of its own.
pub open spec fn timeless(size: u64, file_type: FileType) -> FileAttributes {
    FileAttributes { size, file_type, created: UNIX_EPOCH, modified: UNIX_EPOCH }
}

/// The size of a symlink: the bytes of its target.
pub open spec fn link_size(target: Seq<char>) -> nat {
    encode_utf8(target).len()
}

/// The attributes of a directory.
pub(crate) fn directory_attributes() -> (r: FileAttributes)
    ensures
        r == timeless(0, FileType::Directory),
{
    FileAttributes {
        size: 0,
        file_type: FileType::Directory,
        created: UNIX_EPOCH,
        modified: UNIX_EPOCH,
    }
}

/// The attributes of a symlink with the given target.
pub(crate) fn link_attributes(target: &str) -> (r: FileAttributes)
    ensures
        r.size == link_size(target@),
        r == timeless(r.size, FileType::Symlink),
{
    FileAttributes {
        size: target.as_bytes().len() as u64,
        file_type: FileType::Symlink,
        created: UNIX_EPOCH,
        modified: UNIX_EPOCH,
    }
}

/// What a new file is to be.
#[derive(Debug, PartialEq, Eq)]
pub enum CreateFile {
    File { name: String, executable: bool },
    Directory { name: String },
    Symlink { name: String, target: String },
}

impl Clone for CreateFile {
    fn clone(&self) -> (r: Self)
        ensures
            r == *self,
    {
        match self {
            CreateFile::File { name, executable } => CreateFile::File {
                name: name.clone(),
                executable: *executable,
            },
            CreateFile::Directory { name } => CreateFile::Directory { name: name.clone() },
            CreateFile::Symlink { name, target } => CreateFile::Symlink {
                name: name.clone(),
                target: target.clone(),
            },
        }
    }
}

impl CreateFile {
    pub fn name(&self) -> (r: &str)
        ensures
            r@ == match self {
                CreateFile::File { name, .. } => name@,
                CreateFile::Directory { name } => name@,
                CreateFile::Symlink { name, .. } => name@,
            },
    {
        match self {
            CreateFile::File { name, .. } => name.as_str(),
            CreateFile::Directory { name } => name.as_str(),
            CreateFile::Symlink { name, .. } => name.as_str(),
        }
    }
}

impl From<CreateFile> for FileType {
    fn from(value: CreateFile) -> (r: Self) {
        match value {
            CreateFile::File { .. } => FileType::File,
            CreateFile::Directory { .. } => FileType::Directory,
            CreateFile::Symlink { .. } => FileType::Symlink,
        }
    }
}

impl vstd::std_specs::convert::FromSpecImpl<CreateFile> for FileType {
    open spec fn obeys_from_spec() -> bool {
        true
    }

    open spec fn from_spec(value: CreateFile) -> Self {
        match value {
            CreateFile::File { .. } => FileType::File,
            CreateFile::Directory { .. } => FileType::Directory,
            CreateFile::Symlink { .. } => FileType::Symlink,
        }
    }
}

/// What a file cannot answer without the repository.
#[derive(Debug, PartialEq, Eq)]
pub enum Query {
    /// A commit by its id.
    Commit(CommitId),
    /// The commits of a revset, in its order.
    Commits(Revset),
    /// The value at a path of the tree of a commit.
    PathValue { commit_id: CommitId, path: String },
    /// The trees at a path of the tree of a commit.
    SubTrees { commit_id: CommitId, path: String },
    /// The contents of the file with the given id at a path.
    File { path: String, id: Vec<u8> },
    /// The target of the symlink with the given id at a path.
    Symlink { path: String, id: Vec<u8> },
}

/// What the repository has for a query, or the message of the error it met.
pub type Found<Reply> = Result<Reply, String>;

/// The answer to a request, or what has to be looked up before there is one.
#[derive(Debug, PartialEq, Eq)]
pub enum Answer<Reply> {
    Ready(Reply),
    Lookup(Query),
}

/// A file of the filesystem: a file to read from, a directory to list or a symlink to follow.
///
/// Files are handed out by a `PathMapper`. A request that a kind of file does not support is an
/// error.
pub trait VirtualFile {
    /// The contents of the file.
    fn read(&self) -> (r: JjResult<Answer<Vec<u8>>>)
        default_ensures
            r == Err::<Answer<Vec<u8>>, JjError>(JjError::NotAFile),
    {
        Err(JjError::NotAFile)
    }

    /// The entries of the directory, in order.
    fn list(&self) -> (r: JjResult<Answer<Vec<DirectoryEntry>>>)
        default_ensures
            r == Err::<Answer<Vec<DirectoryEntry>>, JjError>(JjError::NotADirectory),
    {
        Err(JjError::NotADirectory)
    }

    /// The target of the symlink.
    fn read_link(&self) -> (r: JjResult<Answer<String>>)
        default_ensures
            r == Err::<Answer<String>, JjError>(JjError::NotASymlink),
    {
        Err(JjError::NotASymlink)
    }

    fn attributes(&self) -> JjResult<Answer<FileAttributes>>;

    fn file_type(&self) -> JjResult<Answer<FileType>>;

    /// Creates a file in the directory.
    fn create(&self, file: CreateFile) -> (r: JjResult<FileAttributes>)
        default_ensures
            r == Err::<FileAttributes, JjError>(JjError::Readonly),
    {
        Err(JjError::Readonly)
    }

    /// Writes at an offset and tells how many bytes were written.
    fn write(&self, offset: u64, data: &[u8]) -> (r: JjResult<u32>)
        default_ensures
            r == Err::<u32, JjError>(JjError::Readonly),
    {
        Err(JjError::Readonly)
    }

    /// Deletes the file.
    fn delete(&self) -> (r: JjResult<()>)
        default_ensures
            r == Err::<(), JjError>(JjError::Readonly),
    {
        Err(JjError::Readonly)
    }
}

/// Another copy of a list of entries.
pub(crate) fn copy_entries(entries: &Vec<DirectoryEntry>) -> (r: Vec<DirectoryEntry>)
    ensures
        r@ == entries@,
{
    let copies = entries.clone();
    assert(copies@ =~= entries@);
    copies
}

/// A new file has the name that it was given, and its type is what it is to be.
pub proof fn lemma_new_file(file: CreateFile, name: &str, r: FileType)
    requires
        call_ensures(CreateFile::name, (&file,), name),
        call_ensures(<FileType as From<CreateFile>>::from, (file,), r),
    ensures
        file matches CreateFile::File { name: given, .. } ==> name@ == given@ && r == FileType::File,
        file matches CreateFile::Directory { name: given } ==> name@ == given@ && r
            == FileType::Directory,
        file matches CreateFile::Symlink { name: given, .. } ==> name@ == given@ && r
            == FileType::Symlink,
{
}

/// The views of a list of entries are as many as the entries, each with the name and the type of its
/// entry.
pub proof fn lemma_entry_views(entries: Seq<DirectoryEntry>, i: int)
    ensures
        entry_views(entries).len() == entries.len(),
        0 <= i < entries.len() ==> entry_views(entries)[i].name == entries[i].name@ && entry_views(
            entries,
        )[i].file_type == entries[i].file_type,
{
}

} // verus!
