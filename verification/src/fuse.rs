//! What the kernel is told.

use vstd::prelude::*;

use crate::inode_map::InodeMap;
use crate::inode_tree::Inode;
use crate::jj_error::{JjError, JjResult};
use crate::vfs;
use crate::vfs::{ReadDirEntry, ReadDirStream, VirtualFilesystem};
use crate::virtual_file;
use crate::virtual_file::{Answer, FileAttributes, Timestamp};

verus! {

/// For how many seconds the kernel may keep names and attributes.
pub const TTL_SECONDS: u64 = 1;

/// The types of file that the kernel is told of.
#[derive(Debug, Clone, Copy, PartialEq, Eq, Structural)]
pub enum FileType {
    RegularFile,
    Directory,
    Symlink,
}

/// The errors that the kernel is told of.
#[derive(Debug, Clone, Copy, PartialEq, Eq, Structural)]
pub enum Errno {
    ENOENT,
    ENOTDIR,
    EISDIR,
    EINVAL,
    EIO,
}

/// The attributes that the kernel is told.
#[derive(Debug, Clone, Copy, PartialEq, Eq, Structural)]
pub struct FileAttr {
    pub ino: Inode,
    pub size: u64,
    pub blocks: u64,
    pub atime: Timestamp,
    pub mtime: Timestamp,
    pub ctime: Timestamp,
    pub crtime: Timestamp,
    pub kind: FileType,
    pub perm: u16,
    pub nlink: u32,
    pub uid: u32,
    pub gid: u32,
    pub rdev: u32,
    pub flags: u32,
    pub blksize: u32,
}

/// How many blocks of 512 bytes hold a file: the least number that is enough.
pub open spec fn is_block_count(size: u64, blocks: u64) -> bool {
    size <= 512 * blocks < size + 512
}

/// How many blocks of 512 bytes hold a file.
pub(crate) fn block_count(size: u64) -> (r: u64)
    ensures
        is_block_count(size, r),
{
    if size % 512 == 0 {
        size / 512
    } else {
        size / 512 + 1
    }
}

impl From<virtual_file::FileType> for FileType {
    fn from(file_type: virtual_file::FileType) -> (r: Self) {
        match file_type {
            virtual_file::FileType::File => FileType::RegularFile,
            virtual_file::FileType::Directory => FileType::Directory,
            virtual_file::FileType::Symlink => FileType::Symlink,
        }
    }
}

impl vstd::std_specs::convert::FromSpecImpl<virtual_file::FileType> for FileType {
    open spec fn obeys_from_spec() -> bool {
        true
    }

    open spec fn from_spec(file_type: virtual_file::FileType) -> Self {
        match file_type {
            virtual_file::FileType::File => FileType::RegularFile,
            virtual_file::FileType::Directory => FileType::Directory,
            virtual_file::FileType::Symlink => FileType::Symlink,
        }
    }
}

/// The error that the kernel is told.
pub open spec fn errno(error: JjError) -> Errno {
    match error {
        JjError::NotFound => Errno::ENOENT,
        JjError::NotADirectory => Errno::ENOTDIR,
        JjError::NotAFile => Errno::EISDIR,
        JjError::NotASymlink => Errno::EINVAL,
        _ => Errno::EIO,
    }
}

impl From<JjError> for Errno {
    fn from(value: JjError) -> (r: Self) {
        match value {
            JjError::NotFound => Errno::ENOENT,
            JjError::NotADirectory => Errno::ENOTDIR,
            JjError::NotAFile => Errno::EISDIR,
            JjError::NotASymlink => Errno::EINVAL,
            _ => Errno::EIO,
        }
    }
}

impl vstd::std_specs::convert::FromSpecImpl<JjError> for Errno {
    open spec fn obeys_from_spec() -> bool {
        true
    }

    open spec fn from_spec(value: JjError) -> Self {
        errno(value)
    }
}

impl FileAttributes {
    /// The attributes that the kernel is told of an inode at the given time.
    pub fn to_fuse(&self, ino: Inode, now: Timestamp) -> (r: FileAttr)
        ensures
            is_block_count(self.size, r.blocks),
            r == (FileAttr {
                ino,
                size: self.size,
                blocks: r.blocks,
                atime: now,
                mtime: self.modified,
                ctime: self.modified,
                crtime: self.created,
                kind: match self.file_type {
                    virtual_file::FileType::File => FileType::RegularFile,
                    virtual_file::FileType::Directory => FileType::Directory,
                    virtual_file::FileType::Symlink => FileType::Symlink,
                },
                perm: if self.file_type == virtual_file::FileType::Directory {
                    0o755
                } else {
                    0o644
                },
                nlink: if self.file_type == virtual_file::FileType::Directory {
                    2
                } else {
                    1
                },
                uid: 1000,
                gid: 1000,
                rdev: 0,
                flags: 0,
                blksize: 4096,
            }),
    {
        FileAttr {
            ino,
            size: self.size,
            blocks: block_count(self.size),
            atime: now,
            mtime: self.modified,
            ctime: self.modified,
            crtime: self.created,
            kind: FileType::from(self.file_type),
            perm: match self.file_type {
                virtual_file::FileType::Directory => 0o755,
                _ => 0o644,
            },
            nlink: match self.file_type {
                virtual_file::FileType::Directory => 2,
                _ => 1,
            },
            uid: 1000,
            gid: 1000,
            rdev: 0,
            flags: 0,
            blksize: 4096,
        }
    }
}

/// What to do next in answering a request for the entries of a directory.
#[derive(Debug, PartialEq, Eq)]
pub enum ReaddirAction {
    /// Add an entry to the reply.
    Add(ReadDirEntry),
    /// Send the reply.
    Send,
    /// Answer with an error in place of the reply.
    Fail(Errno),
}

/// A filesystem that is mounted.
pub struct JjFuse<FS: VirtualFilesystem> {
    pub fs: FS,
}

/// What to do next in answering a request for the entries of a directory, given whether the reply
/// is full.
pub fn readdir(stream: &mut ReadDirStream, inodes: &mut InodeMap, is_full: bool) -> (r:
    ReaddirAction)
    requires
        old(inodes).wf(),
    ensures
        final(inodes).wf(),
        final(stream).ino == old(stream).ino,
        final(stream).parent_ino == old(stream).parent_ino,
        final(stream).children == old(stream).children,
        final(stream).position == (if r is Send {
            old(stream).position as int
        } else {
            old(stream).position + 1
        }),
        match r {
            ReaddirAction::Send => {
                &&& is_full || old(stream).rest().len() == 0 || old(stream).position == u64::MAX
                &&& final(inodes)@ == old(inodes)@
            },
            ReaddirAction::Add(entry) => {
                &&& !is_full
                &&& old(stream).rest().len() > 0
                &&& final(stream).rest() == old(stream).rest().drop_first()
                &&& entry.offset == old(stream).position + 1
                &&& entry.name@ == old(stream).rest()[0].name
                &&& entry.file_type == old(stream).rest()[0].file_type
                &&& old(stream).is_next_ino(old(inodes)@, final(inodes)@, entry.ino)
            },
            ReaddirAction::Fail(error) => {
                &&& !is_full
                &&& old(stream).rest().len() > 0
                &&& old(stream).position >= 2
                &&& !old(inodes)@.contains_key(old(stream).ino)
                &&& error == Errno::ENOENT
                &&& final(inodes)@ == old(inodes)@
            },
        },
{
    if is_full {
        return ReaddirAction::Send;
    }
    match stream.next(inodes) {
        None => ReaddirAction::Send,
        Some(Ok(entry)) => ReaddirAction::Add(entry),
        Some(Err(error)) => ReaddirAction::Fail(Errno::from(error)),
    }
}

impl<FS: VirtualFilesystem> JjFuse<FS> {
    pub fn new(fs: FS) -> (r: Self)
        ensures
            r.fs == fs,
    {
        JjFuse { fs }
    }

    /// The inode of a name in a directory. The name is `None` where it is not Unicode.
    pub fn child_ino(&mut self, parent: Inode, name: Option<&str>) -> (r: JjResult<Inode>)
        requires
            old(self).fs.wf(),
        ensures
            final(self).fs.wf(),
            match name {
                None => r == Err::<Inode, _>(JjError::InvalidPath) && *final(self) == *old(self),
                Some(name) => FS::is_ino(old(self).fs, final(self).fs, parent, name@, r),
            },
    {
        match name {
            Some(name) => self.fs.get_ino(parent, name),
            None => Err(JjError::InvalidPath),
        }
    }

    /// The inode and the attributes of a name in a directory. The name is `None` where it is not
    /// Unicode.
    pub fn lookup(&mut self, parent: Inode, name: Option<&str>) -> (r: JjResult<
        (Inode, Answer<FileAttributes>),
    >)
        requires
            old(self).fs.wf(),
        ensures
            final(self).fs.wf(),
            match name {
                None => r == Err::<(Inode, Answer<FileAttributes>), _>(JjError::InvalidPath)
                    && *final(self) == *old(self),
                Some(name) => exists|child: JjResult<Inode>| #[trigger]
                    FS::is_ino(old(self).fs, final(self).fs, parent, name@, child) && match child {
                        Ok(ino) => exists|attributes: JjResult<Answer<FileAttributes>>| #[trigger]
                            final(self).fs.is_attributes(ino, attributes) && match attributes {
                                Ok(attributes) => r == Ok::<_, JjError>((ino, attributes)),
                                Err(error) => r == Err::<(Inode, Answer<FileAttributes>), _>(error),
                            },
                        Err(error) => r == Err::<(Inode, Answer<FileAttributes>), _>(error),
                    },
            },
    {
        let child = self.child_ino(parent, name);
        let ino = match child {
            Ok(ino) => ino,
            Err(error) => return Err(error),
        };
        let attributes = self.fs.get_attributes(ino);
        let ghost answer = attributes;
        assert(self.fs.is_attributes(ino, answer));
        match attributes {
            Ok(attributes) => Ok((ino, attributes)),
            Err(error) => Err(error),
        }
    }
}

/// The kernel is told the size of a file and as many blocks as are enough for it and no more, its type
/// and its times. A directory may be searched and has two links; all else may be read and has one.
pub proof fn lemma_told_attributes(
    attributes: FileAttributes,
    ino: Inode,
    now: Timestamp,
    r: FileAttr,
)
    requires
        call_ensures(FileAttributes::to_fuse, (&attributes, ino, now), r),
    ensures
        r.ino == ino,
        r.size == attributes.size,
        512 * r.blocks >= r.size,
        r.blocks > 0 ==> 512 * (r.blocks - 1) < r.size,
        r.atime == now,
        r.mtime == attributes.modified,
        r.ctime == attributes.modified,
        r.crtime == attributes.created,
        r.kind == FileType::Directory <==> attributes.file_type == virtual_file::FileType::Directory,
        r.kind == FileType::Symlink <==> attributes.file_type == virtual_file::FileType::Symlink,
        r.kind == FileType::RegularFile <==> attributes.file_type == virtual_file::FileType::File,
        r.kind == FileType::Directory ==> r.perm == 0o755 && r.nlink == 2,
        r.kind != FileType::Directory ==> r.perm == 0o644 && r.nlink == 1,
        r.uid == 1000 && r.gid == 1000 && r.rdev == 0 && r.flags == 0 && r.blksize == 4096,
{
}

/// Each type of file is told as a type of its own.
pub proof fn lemma_told_type(file_type: virtual_file::FileType, r: FileType)
    requires
        call_ensures(
            <FileType as From<virtual_file::FileType>>::from,
            (file_type,),
            r,
        ),
    ensures
        r == FileType::Directory <==> file_type == virtual_file::FileType::Directory,
        r == FileType::Symlink <==> file_type == virtual_file::FileType::Symlink,
        r == FileType::RegularFile <==> file_type == virtual_file::FileType::File,
{
}

/// The errors that a request has by its nature are told apart; all others are told as input or output
/// errors.
pub proof fn lemma_told_error(error: JjError, r: Errno)
    requires
        call_ensures(<Errno as From<JjError>>::from, (error,), r),
    ensures
        r == Errno::ENOENT <==> error is NotFound,
        r == Errno::ENOTDIR <==> error is NotADirectory,
        r == Errno::EISDIR <==> error is NotAFile,
        r == Errno::EINVAL <==> error is NotASymlink,
        r == Errno::EIO <==> error is InvalidPath || error is Readonly || error is IO
            || error is JjLibBackendError,
{
}

/// As long as the reply is not full, every entry of a known directory is added to it in its order: the
/// directory itself, its parent and each child with its name, its type and the next offset. The reply
/// is sent once it is full or there are no more, and then nothing is lost: the position stays.
pub proof fn lemma_reply_entries()
    ensures
        forall|stream: &mut ReadDirStream, inodes: &mut InodeMap, is_full: bool, r: ReaddirAction|
         #[trigger]
            call_ensures(readdir, (stream, inodes, is_full), r) && inodes.wf()
                && inodes@.contains_key(stream.ino) && stream.position < u64::MAX ==> {
                &&& r is Send <==> is_full || stream.position >= stream.children@.len() + 2
                &&& r is Send ==> *final(stream) == *stream && final(inodes)@ == inodes@
                &&& !(r is Fail)
                &&& r matches ReaddirAction::Add(entry) ==> {
                    let position = stream.position;
                    &&& entry.offset == position + 1
                    &&& final(stream).position == position + 1
                    &&& final(stream).children@ == stream.children@
                    &&& if position == 0 {
                        &&& entry.name@ == seq!['.']
                        &&& entry.file_type == virtual_file::FileType::Directory
                        &&& entry.ino == stream.ino
                    } else if position == 1 {
                        &&& entry.name@ == seq!['.', '.']
                        &&& entry.file_type == virtual_file::FileType::Directory
                        &&& entry.ino == stream.parent_ino
                    } else {
                        &&& entry.name@ == stream.children@[position - 2].name@
                        &&& entry.file_type == stream.children@[position - 2].file_type
                        &&& final(inodes)@.contains_key(entry.ino)
                        &&& final(inodes)@[entry.ino].parent == stream.ino
                        &&& final(inodes)@[entry.ino].name == entry.name@
                    }
                }
            },
{
    assert forall|stream: &mut ReadDirStream, inodes: &mut InodeMap, is_full: bool, r: ReaddirAction|
     #[trigger]
        call_ensures(readdir, (stream, inodes, is_full), r) && inodes.wf() && inodes@.contains_key(
            stream.ino,
        ) && stream.position < u64::MAX implies {
        &&& r is Send <==> is_full || stream.position >= stream.children@.len() + 2
        &&& r is Send ==> *final(stream) == *stream && final(inodes)@ == inodes@
        &&& !(r is Fail)
        &&& r matches ReaddirAction::Add(entry) ==> {
            let position = stream.position;
            &&& entry.offset == position + 1
            &&& final(stream).position == position + 1
            &&& final(stream).children@ == stream.children@
            &&& if position == 0 {
                &&& entry.name@ == seq!['.']
                &&& entry.file_type == virtual_file::FileType::Directory
                &&& entry.ino == stream.ino
            } else if position == 1 {
                &&& entry.name@ == seq!['.', '.']
                &&& entry.file_type == virtual_file::FileType::Directory
                &&& entry.ino == stream.parent_ino
            } else {
                &&& entry.name@ == stream.children@[position - 2].name@
                &&& entry.file_type == stream.children@[position - 2].file_type
                &&& final(inodes)@.contains_key(entry.ino)
                &&& final(inodes)@[entry.ino].parent == stream.ino
                &&& final(inodes)@[entry.ino].name == entry.name@
            }
        }
    } by {
        vfs::lemma_rest_entries(*stream, 0);
    }
}

/// A name that is not Unicode is refused, and nothing changes.
pub proof fn lemma_no_unicode_name<FS: VirtualFilesystem>()
    ensures
        forall|mounted: &mut JjFuse<FS>, parent: Inode, r: JjResult<Inode>| #[trigger]
            call_ensures(JjFuse::<FS>::child_ino, (mounted, parent, None::<&str>), r) ==> r == Err::<
                Inode,
                _,
            >(JjError::InvalidPath) && *final(mounted) == *mounted,
        forall|mounted: &mut JjFuse<FS>, parent: Inode, r: JjResult<(Inode, Answer<FileAttributes>)>|
         #[trigger]
            call_ensures(JjFuse::<FS>::lookup, (mounted, parent, None::<&str>), r) ==> r == Err::<
                (Inode, Answer<FileAttributes>),
                _,
            >(JjError::InvalidPath) && *final(mounted) == *mounted,
{
}

/// A lookup gives the inode of the name and the attributes of that inode, or the error of one of the
/// two.
pub proof fn lemma_lookup_gives_attributes<FS: VirtualFilesystem>()
    ensures
        forall|
            mounted: &mut JjFuse<FS>,
            parent: Inode,
            name: &str,
            r: JjResult<(Inode, Answer<FileAttributes>)>,
        | #[trigger]
            call_ensures(JjFuse::<FS>::lookup, (mounted, parent, Some(name)), r) ==> {
                &&& r matches Ok((ino, attributes)) ==> FS::is_ino(
                    mounted.fs,
                    final(mounted).fs,
                    parent,
                    name@,
                    Ok(ino),
                ) && final(mounted).fs.is_attributes(ino, Ok(attributes))
                &&& r is Err ==> FS::is_ino(
                    mounted.fs,
                    final(mounted).fs,
                    parent,
                    name@,
                    Err(r->Err_0),
                ) || exists|child: Inode| #[trigger]
                    FS::is_ino(mounted.fs, final(mounted).fs, parent, name@, Ok(child))
                        && final(mounted).fs.is_attributes(child, Err(r->Err_0))
            },
{
}

/// In a directory whose inode is not known, a child that is reached before the reply is full is told as
/// not found.
pub proof fn lemma_reply_of_unknown()
    ensures
        forall|stream: &mut ReadDirStream, inodes: &mut InodeMap, is_full: bool, r: ReaddirAction|
         #[trigger]
            call_ensures(readdir, (stream, inodes, is_full), r) && inodes.wf()
                && !inodes@.contains_key(stream.ino) && 2 <= stream.position < u64::MAX ==> if is_full
                || stream.position >= stream.children@.len() + 2 {
                r is Send
            } else {
                r == ReaddirAction::Fail(Errno::ENOENT)
            },
{
    assert forall|stream: &mut ReadDirStream, inodes: &mut InodeMap, is_full: bool, r: ReaddirAction|
     #[trigger]
        call_ensures(readdir, (stream, inodes, is_full), r) && inodes.wf() && !inodes@.contains_key(
            stream.ino,
        ) && 2 <= stream.position < u64::MAX implies if is_full || stream.position
        >= stream.children@.len() + 2 {
        r is Send
    } else {
        r == ReaddirAction::Fail(Errno::ENOENT)
    } by {
        vfs::lemma_rest_entries(*stream, 0);
    }
}

/// The inode of a name is the one that the filesystem gives for it.
pub proof fn lemma_child_of_name<FS: VirtualFilesystem>()
    ensures
        forall|mounted: &mut JjFuse<FS>, parent: Inode, name: &str, r: JjResult<Inode>| #[trigger]
            call_ensures(JjFuse::<FS>::child_ino, (mounted, parent, Some(name)), r) ==> FS::is_ino(
                mounted.fs,
                final(mounted).fs,
                parent,
                name@,
                r,
            ),
{
}

} // verus!
