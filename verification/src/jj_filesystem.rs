//! A filesystem by inodes for files and directories alone.

use vstd::prelude::*;
use vstd::string::*;

use crate::file::{File, FileType};
use crate::fuse;
use crate::fuse::FileAttr;
use crate::inode_map;
use crate::inode_map::InodeMap;
use crate::inode_tree;
use crate::inode_tree::{Inode, Node};
use crate::jj_error::{JjError, JjResult};
use crate::paths;
use crate::read_window;
use crate::read_window::ReadWindow;
use crate::virtual_file::{Answer, Query, UNIX_EPOCH};

verus! {

/// A file or a directory.
pub trait VirtualFile {
    fn read(&self) -> JjResult<Answer<Vec<u8>>>;

    fn list(&self) -> JjResult<Answer<Vec<File>>>;

    fn size(&self) -> JjResult<Answer<u64>>;

    fn file_type(&self) -> JjResult<Answer<FileType>>;
}

/// The structure below the mountpoint: it maps a path to the file there.
pub trait PathMapper {
    type Entry: VirtualFile;

    fn get_entry(&self, path: &str) -> JjResult<Self::Entry>;
}

/// The type that the kernel is told.
pub open spec fn fuse_kind(file_type: FileType) -> fuse::FileType {
    match file_type {
        FileType::File => fuse::FileType::RegularFile,
        FileType::Directory => fuse::FileType::Directory,
    }
}

/// Whether these are the attributes that the kernel is told of an inode.
pub open spec fn is_created_attr(ino: Inode, size: u64, file_type: FileType, attr: FileAttr) -> bool {
    &&& fuse::is_block_count(size, attr.blocks)
    &&& attr == FileAttr {
        ino,
        size,
        blocks: attr.blocks,
        atime: UNIX_EPOCH,
        mtime: UNIX_EPOCH,
        ctime: UNIX_EPOCH,
        crtime: UNIX_EPOCH,
        kind: fuse_kind(file_type),
        perm: if file_type == FileType::Directory {
            0o755
        } else {
            0o644
        },
        nlink: if file_type == FileType::Directory {
            2
        } else {
            1
        },
        uid: 1000,
        gid: 1000,
        rdev: 0,
        flags: 0,
        blksize: 4096,
    }
}

/// The attributes that the kernel is told of an inode.
pub fn create_attr(ino: Inode, size: u64, file_type: FileType) -> (r: FileAttr)
    ensures
        is_created_attr(ino, size, file_type, r),
{
    FileAttr {
        ino,
        size,
        blocks: fuse::block_count(size),
        atime: UNIX_EPOCH,
        mtime: UNIX_EPOCH,
        ctime: UNIX_EPOCH,
        crtime: UNIX_EPOCH,
        kind: match file_type {
            FileType::File => fuse::FileType::RegularFile,
            FileType::Directory => fuse::FileType::Directory,
        },
        perm: match file_type {
            FileType::Directory => 0o755,
            _ => 0o644,
        },
        nlink: match file_type {
            FileType::Directory => 2,
            _ => 1,
        },
        uid: 1000,
        gid: 1000,
        rdev: 0,
        flags: 0,
        blksize: 4096,
    }
}

/// Whether the answer is the attributes for the given size and type, or what is missing for them.
pub open spec fn is_attr(
    ino: Inode,
    size: JjResult<Answer<u64>>,
    file_type: JjResult<Answer<FileType>>,
    r: JjResult<Answer<FileAttr>>,
) -> bool {
    match size {
        Err(error) => r == Err::<Answer<FileAttr>, _>(error),
        Ok(Answer::Lookup(query)) => r == Ok::<_, JjError>(Answer::Lookup::<FileAttr>(query)),
        Ok(Answer::Ready(size)) => match file_type {
            Err(error) => r == Err::<Answer<FileAttr>, _>(error),
            Ok(Answer::Lookup(query)) => r == Ok::<_, JjError>(Answer::Lookup::<FileAttr>(query)),
            Ok(Answer::Ready(file_type)) => r matches Ok(Answer::Ready(attr)) && is_created_attr(
                ino,
                size,
                file_type,
                attr,
            ),
        },
    }
}

/// Whether the answer is a file from an offset to its end.
pub open spec fn is_tail(
    content: JjResult<Answer<Vec<u8>>>,
    offset: u64,
    r: JjResult<Answer<Vec<u8>>>,
) -> bool {
    match content {
        Err(error) => r == Err::<Answer<Vec<u8>>, _>(error),
        Ok(Answer::Lookup(query)) => r == Ok::<_, JjError>(Answer::Lookup::<Vec<u8>>(query)),
        Ok(Answer::Ready(content)) => r matches Ok(Answer::Ready(bytes)) && bytes@ == (if offset
            <= content@.len() {
            content@.skip(offset as int)
        } else {
            Seq::empty()
        }),
    }
}

/// A window of the length of the file reaches to its end.
proof fn lemma_whole_window(content: Seq<u8>, offset: nat)
    ensures
        read_window::window(content, offset, content.len()) == (if offset <= content.len() {
            content.skip(offset as int)
        } else {
            Seq::empty()
        }),
{
    if offset <= content.len() {
        assert(read_window::window(content, offset, content.len()) =~= content.skip(offset as int));
    }
}

/// A directory that is being read.
///
/// Its own entry and that of its parent come before the children are looked up.
pub struct DirCursor {
    pub ino: Inode,
    /// How many entries come before the next one.
    pub position: u64,
    /// The children, once they are known.
    pub children: Option<Vec<File>>,
}

impl DirCursor {
    /// A directory that is read from an offset on.
    pub fn new(ino: Inode, offset: u64) -> (r: Self)
        ensures
            r == (DirCursor { ino, position: offset, children: None }),
    {
        DirCursor { ino, position: offset, children: None }
    }
}

/// What comes next of a directory.
#[derive(Debug, PartialEq, Eq)]
pub enum DirStep {
    /// An entry with its inode.
    Entry(Inode, File),
    /// The children have to be looked up and put into the cursor.
    Lookup(Query),
    /// There are no more entries.
    End,
}

/// Whether a step goes to the entry of a directory itself or of its parent.
pub open spec fn is_dot_step(name: Seq<char>, ino: Inode, step: DirStep) -> bool {
    step matches DirStep::Entry(found, file) && found == ino && file.name@ == name && file.file_type
        == FileType::Directory
}

/// Whether a directory has a child at a position. The first two positions are those of the
/// directory itself and of its parent, and the last one cannot be passed.
pub open spec fn is_child_position(children: Seq<File>, position: u64) -> bool {
    2 <= position < u64::MAX && position - 2 < children.len()
}

/// Whether a step goes to the child at a position, or ends where there is none.
pub open spec fn is_child_step(
    before: Map<Inode, Node>,
    after: Map<Inode, Node>,
    ino: Inode,
    children: Seq<File>,
    position: u64,
    step: DirStep,
) -> bool {
    if is_child_position(children, position) {
        let file = children[position - 2];
        step matches DirStep::Entry(child, found) && found == file && inode_map::is_get_ino(
            before,
            after,
            ino,
            file.name@,
            child,
        )
    } else {
        step is End && after == before
    }
}

/// The filesystem of a layout, with an inode for each path that was looked up.
pub struct JjVfsState<P: PathMapper> {
    pub inodes: InodeMap,
    pub path_mapper: P,
}

impl<P: PathMapper> JjVfsState<P> {
    /// The inodes are consistent.
    pub open spec fn wf(&self) -> bool {
        self.inodes.wf()
    }

    /// Whether a file, or an error, is what the layout has for an inode.
    pub open spec fn is_file(&self, ino: Inode, file: JjResult<P::Entry>) -> bool {
        if self.inodes@.contains_key(ino) {
            exists|path: &str|
                path@ == inode_map::path_of(self.inodes@, ino) && #[trigger] call_ensures(
                    P::get_entry,
                    (&self.path_mapper, path),
                    file,
                )
        } else {
            file == Err::<P::Entry, _>(JjError::NotFound)
        }
    }

    /// What `getattr` may answer.
    pub open spec fn is_getattr(&self, ino: Inode, r: JjResult<Answer<FileAttr>>) -> bool {
        exists|file: JjResult<P::Entry>| #[trigger]
            self.is_file(ino, file) && match file {
                Ok(file) => exists|
                    size: JjResult<Answer<u64>>,
                    file_type: JjResult<Answer<FileType>>,
                |
                    #[trigger] call_ensures(P::Entry::size, (&file,), size) && (size matches Ok(
                        Answer::Ready(_),
                    ) ==> call_ensures(P::Entry::file_type, (&file,), file_type))
                        && #[trigger] is_attr(ino, size, file_type, r),
                Err(error) => r == Err::<Answer<FileAttr>, _>(error),
            }
    }

    pub fn new(path_mapper: P) -> (r: Self)
        ensures
            r.wf(),
            r.path_mapper == path_mapper,
            r.inodes@ == inode_tree::root_only(),
    {
        JjVfsState { inodes: InodeMap::new(), path_mapper }
    }

    /// The file that the layout has for an inode.
    fn get_file(&self, ino: Inode) -> (r: JjResult<P::Entry>)
        requires
            self.wf(),
        ensures
            self.is_file(ino, r),
    {
        match self.inodes.get_path(ino) {
            Ok(path) => self.path_mapper.get_entry(path.as_str()),
            Err(error) => Err(error),
        }
    }

    /// The attributes of a name in a directory.
    pub fn lookup(&mut self, parent: Inode, name: &str) -> (r: JjResult<Answer<FileAttr>>)
        requires
            old(self).wf(),
        ensures
            final(self).wf(),
            final(self).path_mapper == old(self).path_mapper,
            if old(self).inodes@.contains_key(parent) {
                exists|ino: Inode| #[trigger]
                    inode_map::is_get_ino(
                        old(self).inodes@,
                        final(self).inodes@,
                        parent,
                        name@,
                        ino,
                    ) && final(self).is_getattr(ino, r)
            } else {
                r == Err::<Answer<FileAttr>, _>(JjError::NotFound) && final(self).inodes@ == old(
                    self,
                ).inodes@
            },
    {
        match self.inodes.get_ino(parent, name) {
            Ok(ino) => self.getattr(ino),
            Err(error) => Err(error),
        }
    }

    /// The attributes of an inode.
    pub fn getattr(&self, ino: Inode) -> (r: JjResult<Answer<FileAttr>>)
        requires
            self.wf(),
        ensures
            self.is_getattr(ino, r),
    {
        let file = self.get_file(ino);
        let ghost found = file;
        assert(self.is_file(ino, found));
        let file = match file {
            Ok(file) => file,
            Err(error) => return Err(error),
        };
        let size = file.size();
        let ghost answer = size;
        assert(call_ensures(P::Entry::size, (&file,), answer));
        let size: u64 = match size {
            Ok(Answer::Ready(size)) => size,
            Ok(Answer::Lookup(query)) => {
                let r: JjResult<Answer<FileAttr>> = Ok(Answer::Lookup(query));
                assert(is_attr(ino, answer, Err(JjError::NotFound), r));
                return r;
            },
            Err(error) => {
                let r: JjResult<Answer<FileAttr>> = Err(error);
                assert(is_attr(ino, answer, Err(JjError::NotFound), r));
                return r;
            },
        };
        let file_type = file.file_type();
        let ghost kind = file_type;
        assert(call_ensures(P::Entry::file_type, (&file,), kind));
        let r: JjResult<Answer<FileAttr>> = match file_type {
            Ok(Answer::Ready(file_type)) => Ok(Answer::Ready(create_attr(ino, size, file_type))),
            Ok(Answer::Lookup(query)) => Ok(Answer::Lookup(query)),
            Err(error) => Err(error),
        };
        assert(is_attr(ino, answer, kind, r));
        r
    }

    /// The contents of a file from `offset` on. All of the rest is read, however much is asked for.
    pub fn read(&self, ino: Inode, offset: u64, size: u32) -> (r: JjResult<Answer<Vec<u8>>>)
        requires
            self.wf(),
        ensures
            exists|file: JjResult<P::Entry>| #[trigger]
                self.is_file(ino, file) && match file {
                    Ok(file) => exists|content: JjResult<Answer<Vec<u8>>>| #[trigger]
                        call_ensures(P::Entry::read, (&file,), content) && is_tail(
                            content,
                            offset,
                            r,
                        ),
                    Err(error) => r == Err::<Answer<Vec<u8>>, _>(error),
                },
    {
        let file = self.get_file(ino);
        let ghost found = file;
        assert(self.is_file(ino, found));
        let file = match file {
            Ok(file) => file,
            Err(error) => return Err(error),
        };
        let content = file.read();
        let ghost answer = content;
        assert(call_ensures(P::Entry::read, (&file,), answer));
        match content {
            Ok(Answer::Ready(content)) => {
                let length: usize = content.len();
                let mut window = ReadWindow::new(offset, length as u64);
                window.feed(content.as_slice());
                assert(Seq::<u8>::empty() + content@ =~= content@);
                proof {
                    lemma_whole_window(content@, offset as nat);
                }
                Ok(Answer::Ready(window.finish()))
            },
            Ok(Answer::Lookup(query)) => Ok(Answer::Lookup(query)),
            Err(error) => Err(error),
        }
    }
}

impl<P: PathMapper> JjVfsState<P> {
    /// Whether entries, or an error, are what an inode lists.
    pub open spec fn is_listed(&self, ino: Inode, listed: JjResult<Answer<Vec<File>>>) -> bool {
        exists|file: JjResult<P::Entry>| #[trigger]
            self.is_file(ino, file) && match file {
                Ok(file) => call_ensures(P::Entry::list, (&file,), listed),
                Err(error) => listed == Err::<Answer<Vec<File>>, _>(error),
            }
    }

    /// What an inode lists.
    fn list(&self, ino: Inode) -> (r: JjResult<Answer<Vec<File>>>)
        requires
            self.wf(),
        ensures
            self.is_listed(ino, r),
    {
        let file = self.get_file(ino);
        let ghost found = file;
        assert(self.is_file(ino, found));
        match file {
            Ok(file) => file.list(),
            Err(error) => Err(error),
        }
    }

    /// What comes next of a directory, given whether the reader wants no more. Positions have 64
    /// bits: no child is at the last of them.
    pub fn readdir(&mut self, cursor: &mut DirCursor, is_enough: bool) -> (r: JjResult<DirStep>)
        requires
            old(self).wf(),
        ensures
            final(self).wf(),
            final(self).path_mapper == old(self).path_mapper,
            final(cursor).ino == old(cursor).ino,
            ({
                let before = old(self).inodes@;
                let after = final(self).inodes@;
                let ino = old(cursor).ino;
                let position = old(cursor).position;
                let is_known = before.contains_key(ino);
                if is_enough {
                    r == Ok::<_, JjError>(DirStep::End) && after == before && *final(cursor) == *old(
                        cursor,
                    )
                } else if position == 0 {
                    &&& r matches Ok(step) && is_dot_step(paths::dot_text(), ino, step)
                    &&& after == before
                    &&& final(cursor).position == 1
                    &&& final(cursor).children == old(cursor).children
                } else if position == 1 {
                    &&& if is_known {
                        r matches Ok(step) && is_dot_step(
                            paths::dot_dot_text(),
                            before[ino].parent,
                            step,
                        ) && final(cursor).position == 2
                    } else {
                        r == Err::<DirStep, _>(JjError::NotFound) && *final(cursor) == *old(cursor)
                    }
                    &&& after == before
                    &&& final(cursor).children == old(cursor).children
                } else {
                    match old(cursor).children {
                        Some(children) => {
                            &&& final(cursor).children == old(cursor).children
                            &&& if is_known || !is_child_position(children@, position) {
                                r matches Ok(step) && is_child_step(
                                    before,
                                    after,
                                    ino,
                                    children@,
                                    position,
                                    step,
                                ) && final(cursor).position == (if step is End {
                                    position
                                } else {
                                    (position + 1) as u64
                                })
                            } else {
                                r == Err::<DirStep, _>(JjError::NotFound) && after == before
                                    && *final(cursor) == *old(cursor)
                            }
                        },
                        None => exists|listed: JjResult<Answer<Vec<File>>>| #[trigger]
                            old(self).is_listed(ino, listed) && match listed {
                                Ok(Answer::Ready(children)) => {
                                    &&& is_known
                                    &&& final(cursor).children == Some(children)
                                    &&& r matches Ok(step) && is_child_step(
                                        before,
                                        after,
                                        ino,
                                        children@,
                                        position,
                                        step,
                                    ) && final(cursor).position == (if step is End {
                                        position
                                    } else {
                                        (position + 1) as u64
                                    })
                                },
                                Ok(Answer::Lookup(query)) => {
                                    &&& r == Ok::<_, JjError>(DirStep::Lookup(query))
                                    &&& after == before
                                    &&& *final(cursor) == *old(cursor)
                                },
                                Err(error) => {
                                    &&& r == Err::<DirStep, _>(error)
                                    &&& after == before
                                    &&& *final(cursor) == *old(cursor)
                                },
                            },
                    }
                }
            }),
    {
        let position = cursor.position;
        if is_enough {
            return Ok(DirStep::End);
        }
        proof {
            reveal_strlit(".");
            reveal_strlit("..");
            assert("."@ =~= paths::dot_text());
            assert(".."@ =~= paths::dot_dot_text());
        }
        if position == 0 {
            cursor.position = 1;
            return Ok(DirStep::Entry(cursor.ino, File::new(".", FileType::Directory)));
        }
        if position == 1 {
            return match self.inodes.get_parent_ino(cursor.ino) {
                Ok(parent) => {
                    cursor.position = 2;
                    Ok(DirStep::Entry(parent, File::new("..", FileType::Directory)))
                },
                Err(error) => Err(error),
            };
        }
        if cursor.children.is_none() {
            let listed = self.list(cursor.ino);
            let ghost answer = listed;
            assert(old(self).is_listed(cursor.ino, answer));
            match listed {
                Ok(Answer::Ready(children)) => {
                    cursor.children = Some(children);
                },
                Ok(Answer::Lookup(query)) => return Ok(DirStep::Lookup(query)),
                Err(error) => return Err(error),
            }
        }
        let index: u64 = position - 2;
        match &cursor.children {
            None => Ok(DirStep::End),
            Some(children) => {
                if index >= children.len() as u64 || position == u64::MAX {
                    return Ok(DirStep::End);
                }
                let child = children[index as usize];
                match self.inodes.get_ino(cursor.ino, child.name) {
                    Ok(ino) => {
                        cursor.position = position + 1;
                        Ok(DirStep::Entry(ino, child))
                    },
                    Err(error) => Err(error),
                }
            },
        }
    }
}

/// The kernel is told the size of a file and as many blocks as are enough for it and no more, and its
/// type. A directory may be searched and has two links; a file may be read and has one.
pub proof fn lemma_told_attributes(ino: Inode, size: u64, file_type: FileType, r: FileAttr)
    requires
        call_ensures(create_attr, (ino, size, file_type), r),
    ensures
        r.ino == ino,
        r.size == size,
        512 * r.blocks >= r.size,
        r.blocks > 0 ==> 512 * (r.blocks - 1) < r.size,
        r.atime == 0 && r.mtime == 0 && r.ctime == 0 && r.crtime == 0,
        file_type == FileType::Directory ==> r.kind == fuse::FileType::Directory && r.perm == 0o755
            && r.nlink == 2,
        file_type == FileType::File ==> r.kind == fuse::FileType::RegularFile && r.perm == 0o644
            && r.nlink == 1,
        r.uid == 1000 && r.gid == 1000 && r.rdev == 0 && r.flags == 0 && r.blksize == 4096,
{
}

impl<P: PathMapper> JjVfsState<P> {
    /// Whether the layout has a file for an inode that answers to be read with the given contents.
    pub open spec fn has_contents(&self, ino: Inode, content: Seq<u8>) -> bool {
        forall|file: JjResult<P::Entry>| #[trigger]
            self.is_file(ino, file) ==> file is Ok && forall|r: JjResult<Answer<Vec<u8>>>| #[trigger]
                call_ensures(P::Entry::read, (&file->Ok_0,), r) ==> (r matches Ok(Answer::Ready(v))
                    && v@ == content)
    }

    /// Whether the layout has a file for an inode that answers to be listed with the given files.
    pub open spec fn has_children(&self, ino: Inode, children: Seq<File>) -> bool {
        forall|listed: JjResult<Answer<Vec<File>>>| #[trigger]
            self.is_listed(ino, listed) ==> (listed matches Ok(Answer::Ready(v)) && v@ == children)
    }
}

/// A read of a file gives all bytes of it from the offset on, however many are asked for.
pub proof fn lemma_read_rest<P: PathMapper>(
    fs: JjVfsState<P>,
    ino: Inode,
    content: Seq<u8>,
    offset: u64,
    size: u32,
    r: JjResult<Answer<Vec<u8>>>,
)
    requires
        fs.wf(),
        fs.has_contents(ino, content),
        call_ensures(JjVfsState::<P>::read, (&fs, ino, offset, size), r),
    ensures
        r matches Ok(Answer::Ready(bytes)) && bytes@.len() == (if offset >= content.len() {
            0
        } else {
            content.len() - offset
        }) && forall|i: int|
            0 <= i < bytes@.len() ==> #[trigger] bytes@[i] == content[offset + i],
{
}

/// The attributes of an inode are made of the size and the type that its file has.
pub proof fn lemma_attributes_of_file<P: PathMapper>(
    fs: JjVfsState<P>,
    ino: Inode,
    size: u64,
    file_type: FileType,
    r: JjResult<Answer<FileAttr>>,
)
    requires
        fs.wf(),
        forall|file: JjResult<P::Entry>| #[trigger]
            fs.is_file(ino, file) ==> file is Ok && (forall|s: JjResult<Answer<u64>>| #[trigger]
                call_ensures(P::Entry::size, (&file->Ok_0,), s) ==> s == Ok::<_, JjError>(
                    Answer::Ready(size),
                )) && forall|t: JjResult<Answer<FileType>>| #[trigger]
                call_ensures(P::Entry::file_type, (&file->Ok_0,), t) ==> t == Ok::<_, JjError>(
                    Answer::Ready(file_type),
                ),
        call_ensures(JjVfsState::<P>::getattr, (&fs, ino), r),
    ensures
        r matches Ok(Answer::Ready(attr)) && attr.ino == ino && attr.size == size && (attr.kind
            == fuse::FileType::Directory <==> file_type == FileType::Directory) && (attr.kind
            == fuse::FileType::RegularFile <==> file_type == FileType::File),
{
}

/// Whatever is asked of an inode that is not known, it is not found.
pub proof fn lemma_unknown_inode<P: PathMapper>(
    fs: JjVfsState<P>,
    ino: Inode,
    offset: u64,
    size: u32,
    attributes: JjResult<Answer<FileAttr>>,
    content: JjResult<Answer<Vec<u8>>>,
)
    requires
        fs.wf(),
        !fs.inodes@.contains_key(ino),
        call_ensures(JjVfsState::<P>::getattr, (&fs, ino), attributes),
        call_ensures(JjVfsState::<P>::read, (&fs, ino, offset, size), content),
    ensures
        attributes == Err::<Answer<FileAttr>, _>(JjError::NotFound),
        content == Err::<Answer<Vec<u8>>, _>(JjError::NotFound),
{
}

/// The file that every request to an inode goes to is what the layout has at the names that lead to
/// the inode.
pub proof fn lemma_file_at_path<P: PathMapper>(
    fs: JjVfsState<P>,
    ino: Inode,
    file: JjResult<P::Entry>,
)
    requires
        fs.wf(),
        fs.inodes@.contains_key(ino),
        forall|i: int|
            0 <= i < inode_tree::path_names(fs.inodes@, ino).len() ==> paths::is_plain_name(
                #[trigger] inode_tree::path_names(fs.inodes@, ino)[i],
            ),
        fs.is_file(ino, file),
    ensures
        exists|path: &str|
            paths::segments(path@) == inode_tree::path_names(fs.inodes@, ino)
                && #[trigger] call_ensures(P::get_entry, (&fs.path_mapper, path), file),
{
    inode_tree::lemma_path_segments(fs.inodes@, ino);
}

/// A step through a directory that is known and lists the given children goes to the entry at the
/// position: the directory itself, its parent, or the child there. A child gets the inode of its name
/// in the directory. There is none after the last child, nor where the reader wants no more.
pub proof fn lemma_directory_steps<P: PathMapper>()
    ensures
        forall|
            fs: &mut JjVfsState<P>,
            cursor: &mut DirCursor,
            is_enough: bool,
            children: Seq<File>,
            r: JjResult<DirStep>,
        |
            #![trigger call_ensures(JjVfsState::<P>::readdir, (fs, cursor, is_enough), r), fs.has_children(cursor.ino, children)]
            call_ensures(JjVfsState::<P>::readdir, (fs, cursor, is_enough), r) && fs.wf()
                && fs.inodes@.contains_key(cursor.ino) && fs.has_children(cursor.ino, children) && (
            cursor.children is Some ==> cursor.children->0@ == children) && cursor.position
                < u64::MAX ==> r is Ok && {
                let position = cursor.position;
                let after = final(fs).inodes@;
                &&& !(r->Ok_0 is Lookup)
                &&& r->Ok_0 is End <==> is_enough || position >= children.len() + 2
                &&& r->Ok_0 is End ==> final(cursor).position == position && after == fs.inodes@
                &&& r->Ok_0 matches DirStep::Entry(ino, file) ==> {
                    &&& final(cursor).position == position + 1
                    &&& final(cursor).ino == cursor.ino
                    &&& if position == 0 {
                        &&& file.name@ == seq!['.']
                        &&& file.file_type == FileType::Directory
                        &&& ino == cursor.ino
                        &&& after == fs.inodes@
                    } else if position == 1 {
                        &&& file.name@ == seq!['.', '.']
                        &&& file.file_type == FileType::Directory
                        &&& ino == fs.inodes@[cursor.ino].parent
                        &&& after == fs.inodes@
                    } else {
                        &&& file == children[position - 2]
                        &&& after.contains_key(ino)
                        &&& after[ino].parent == cursor.ino
                        &&& after[ino].name == file.name@
                        &&& final(cursor).children is Some && final(cursor).children->0@ == children
                    }
                }
            },
{
}

/// A lookup in a directory that is not known is not found and changes nothing; otherwise it asks for
/// the attributes of an inode with that name in the directory.
pub proof fn lemma_lookup_of_name<P: PathMapper>()
    ensures
        forall|fs: &mut JjVfsState<P>, parent: Inode, name: &str, r: JjResult<Answer<FileAttr>>|
         #[trigger]
            call_ensures(JjVfsState::<P>::lookup, (fs, parent, name), r) && fs.wf() ==> {
                &&& !fs.inodes@.contains_key(parent) ==> r == Err::<Answer<FileAttr>, _>(
                    JjError::NotFound,
                ) && final(fs).inodes@ == fs.inodes@
                &&& fs.inodes@.contains_key(parent) ==> exists|ino: Inode| #[trigger]
                    final(fs).is_getattr(ino, r) && final(fs).inodes@.contains_key(ino)
                        && final(fs).inodes@[ino].parent == parent && final(fs).inodes@[ino].name
                        == name@
            },
{
    assert forall|fs: &mut JjVfsState<P>, parent: Inode, name: &str, r: JjResult<Answer<FileAttr>>|
     #[trigger]
        call_ensures(JjVfsState::<P>::lookup, (fs, parent, name), r) && fs.wf()
            && fs.inodes@.contains_key(parent) implies exists|ino: Inode| #[trigger]
        final(fs).is_getattr(ino, r) && final(fs).inodes@.contains_key(ino)
            && final(fs).inodes@[ino].parent == parent && final(fs).inodes@[ino].name == name@ by {
        let ino = choose|ino: Inode| #[trigger]
            inode_map::is_get_ino(fs.inodes@, final(fs).inodes@, parent, name@, ino)
                && final(fs).is_getattr(ino, r);
        assert(final(fs).is_getattr(ino, r));
    }
}

/// In a directory whose inode is not known, the directory itself is stepped to; its parent and its
/// children are not found, from whatever position.
pub proof fn lemma_steps_of_unknown<P: PathMapper>()
    ensures
        forall|fs: &mut JjVfsState<P>, cursor: &mut DirCursor, r: JjResult<DirStep>| #[trigger]
            call_ensures(JjVfsState::<P>::readdir, (fs, cursor, false), r) && fs.wf()
                && !fs.inodes@.contains_key(cursor.ino) && cursor.children is None ==> {
                &&& final(fs).inodes@ == fs.inodes@
                &&& cursor.position > 0 ==> r == Err::<DirStep, _>(JjError::NotFound)
                    && *final(cursor) == *cursor
                &&& cursor.position == 0 ==> (r matches Ok(DirStep::Entry(ino, file)) && ino
                    == cursor.ino && file.name@ == seq!['.'])
            },
{
}

/// What a file asks to be looked up before it can be read, listed or measured, and the errors of it,
/// are handed on as they are.
pub proof fn lemma_lookups_handed_on<P: PathMapper>(
    fs: JjVfsState<P>,
    ino: Inode,
    offset: u64,
    size: u32,
    content: JjResult<Answer<Vec<u8>>>,
    measured: JjResult<Answer<u64>>,
    r: JjResult<Answer<Vec<u8>>>,
    attributes: JjResult<Answer<FileAttr>>,
)
    requires
        fs.wf(),
        forall|file: JjResult<P::Entry>| #[trigger]
            fs.is_file(ino, file) ==> file is Ok && (forall|answer: JjResult<Answer<Vec<u8>>>|
             #[trigger]
                call_ensures(P::Entry::read, (&file->Ok_0,), answer) ==> answer == content) && forall|
                answer: JjResult<Answer<u64>>,
            | #[trigger]
                call_ensures(P::Entry::size, (&file->Ok_0,), answer) ==> answer == measured,
        call_ensures(JjVfsState::<P>::read, (&fs, ino, offset, size), r),
        call_ensures(JjVfsState::<P>::getattr, (&fs, ino), attributes),
    ensures
        content matches Err(error) ==> r == Err::<Answer<Vec<u8>>, _>(error),
        content matches Ok(Answer::Lookup(query)) ==> r == Ok::<_, JjError>(
            Answer::Lookup::<Vec<u8>>(query),
        ),
        measured matches Err(error) ==> attributes == Err::<Answer<FileAttr>, _>(error),
        measured matches Ok(Answer::Lookup(query)) ==> attributes == Ok::<_, JjError>(
            Answer::Lookup::<FileAttr>(query),
        ),
{
}

/// A directory whose children have to be looked up, or cannot be listed, tells so at the first of them
/// and changes nothing.
pub proof fn lemma_steps_without_children<P: PathMapper>()
    ensures
        forall|
            fs: &mut JjVfsState<P>,
            cursor: &mut DirCursor,
            listed: JjResult<Answer<Vec<File>>>,
            r: JjResult<DirStep>,
        |
            #![trigger call_ensures(JjVfsState::<P>::readdir, (fs, cursor, false), r), fs.is_listed(cursor.ino, listed)]
            call_ensures(JjVfsState::<P>::readdir, (fs, cursor, false), r) && fs.wf()
                && cursor.position >= 2 && cursor.children is None && (forall|
                other: JjResult<Answer<Vec<File>>>,
            | #[trigger]
                fs.is_listed(cursor.ino, other) ==> other == listed) ==> {
                &&& listed matches Err(error) ==> r == Err::<DirStep, _>(error) && *final(cursor)
                    == *cursor && final(fs).inodes@ == fs.inodes@
                &&& listed matches Ok(Answer::Lookup(query)) ==> r == Ok::<_, JjError>(
                    DirStep::Lookup(query),
                ) && *final(cursor) == *cursor && final(fs).inodes@ == fs.inodes@
            },
{
}

} // verus!
