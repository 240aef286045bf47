//! The filesystem by inodes, above a layout by paths.

pub mod commit_tree_file;
pub mod commits_directory;

use vstd::prelude::*;
use vstd::string::*;

use crate::inode_map;
use crate::inode_map::InodeMap;
use crate::inode_tree;
use crate::inode_tree::{Inode, Node};
use crate::jj_error::{JjError, JjResult};
use crate::path_mapper::PathMapper;
use crate::paths;
use crate::read_window;
use crate::read_window::ReadWindow;
use crate::virtual_file;
use crate::virtual_file::{
    Answer, DirectoryEntry, EntryView, FileAttributes, FileType, VirtualFile,
};

verus! {

/// An entry of a directory as it is handed out.
#[derive(Debug, PartialEq, Eq)]
pub struct ReadDirEntry {
    pub ino: Inode,
    /// The offset from which to go on after the entry.
    pub offset: u64,
    pub file_type: FileType,
    pub name: String,
}

/// A directory that is being read. The children get their inodes as they are reached.
#[derive(Debug, PartialEq, Eq)]
pub struct ReadDirStream {
    pub ino: Inode,
    pub parent_ino: Inode,
    pub children: Vec<DirectoryEntry>,
    /// How many entries come before the next one.
    pub position: u64,
}

/// All entries of a directory: itself, its parent, and its children.
pub open spec fn all_entries(children: Seq<EntryView>) -> Seq<EntryView> {
    seq![
        EntryView { name: paths::dot_text(), file_type: FileType::Directory },
        EntryView { name: paths::dot_dot_text(), file_type: FileType::Directory },
    ] + children
}

/// The entries of a directory from an offset on.
pub open spec fn entries_from(children: Seq<EntryView>, offset: nat) -> Seq<EntryView> {
    let all = all_entries(children);
    if offset <= all.len() {
        all.skip(offset as int)
    } else {
        Seq::empty()
    }
}

/// Reading on from the offset of an entry gives what comes after that entry.
pub proof fn lemma_read_on(children: Seq<EntryView>, offset: nat, i: int)
    requires
        0 <= i < entries_from(children, offset).len(),
    ensures
        entries_from(children, (offset + i + 1) as nat) == entries_from(children, offset).skip(
            i + 1,
        ),
{
    assert(entries_from(children, (offset + i + 1) as nat) =~= entries_from(children, offset).skip(
        i + 1,
    ));
}

impl ReadDirStream {
    /// The entries that are still to come.
    pub open spec fn rest(&self) -> Seq<EntryView> {
        entries_from(virtual_file::entry_views(self.children@), self.position as nat)
    }

    /// Whether an inode is that of the next entry: the directory, its parent, or a child, which
    /// gets a new number if it has none yet.
    pub open spec fn is_next_ino(
        &self,
        before: Map<Inode, Node>,
        after: Map<Inode, Node>,
        ino: Inode,
    ) -> bool {
        if self.position == 0 {
            ino == self.ino && after == before
        } else if self.position == 1 {
            ino == self.parent_ino && after == before
        } else {
            inode_map::is_get_ino(before, after, self.ino, self.rest()[0].name, ino)
        }
    }

    /// The next entry. Offsets have 64 bits: nothing comes after the last of them.
    pub fn next(&mut self, inodes: &mut InodeMap) -> (r: Option<JjResult<ReadDirEntry>>)
        requires
            old(inodes).wf(),
        ensures
            final(inodes).wf(),
            final(self).ino == old(self).ino,
            final(self).parent_ino == old(self).parent_ino,
            final(self).children == old(self).children,
            match r {
                None => {
                    &&& old(self).rest().len() == 0 || old(self).position == u64::MAX
                    &&& final(self).position == old(self).position
                    &&& final(inodes)@ == old(inodes)@
                },
                Some(entry) => {
                    &&& old(self).rest().len() > 0
                    &&& final(self).position == old(self).position + 1
                    &&& final(self).rest() == old(self).rest().drop_first()
                    &&& match entry {
                        Ok(entry) => {
                            &&& entry.offset == old(self).position + 1
                            &&& entry.name@ == old(self).rest()[0].name
                            &&& entry.file_type == old(self).rest()[0].file_type
                            &&& old(self).is_next_ino(old(inodes)@, final(inodes)@, entry.ino)
                        },
                        Err(error) => {
                            &&& error == JjError::NotFound
                            &&& old(self).position >= 2
                            &&& !old(inodes)@.contains_key(old(self).ino)
                            &&& final(inodes)@ == old(inodes)@
                        },
                    }
                },
            },
    {
        let position = self.position;
        if position == u64::MAX {
            return None;
        }
        proof {
            reveal_strlit(".");
            reveal_strlit("..");
            assert("."@ =~= paths::dot_text());
            assert(".."@ =~= paths::dot_dot_text());
        }
        if position == 0 {
            self.position = 1;
            return Some(
                Ok(
                    ReadDirEntry {
                        ino: self.ino,
                        offset: 1,
                        file_type: FileType::Directory,
                        name: ".".to_owned(),
                    },
                ),
            );
        }
        if position == 1 {
            self.position = 2;
            return Some(
                Ok(
                    ReadDirEntry {
                        ino: self.parent_ino,
                        offset: 2,
                        file_type: FileType::Directory,
                        name: "..".to_owned(),
                    },
                ),
            );
        }
        let index: u64 = position - 2;
        if index >= self.children.len() as u64 {
            return None;
        }
        self.position = position + 1;
        let child = &self.children[index as usize];
        assert(old(self).rest()[0] == child@);
        match inodes.get_ino(self.ino, child.name.as_str()) {
            Ok(ino) => Some(
                Ok(
                    ReadDirEntry {
                        ino,
                        offset: position + 1,
                        file_type: child.file_type,
                        name: child.name.clone(),
                    },
                ),
            ),
            Err(error) => Some(Err(error)),
        }
    }
}

/// A child that was listed has the same inode when it is looked up by its name.
pub proof fn lemma_listed_child_found(
    stream: ReadDirStream,
    before: Map<Inode, Node>,
    between: Map<Inode, Node>,
    after: Map<Inode, Node>,
    listed: Inode,
    found: Inode,
)
    requires
        inode_tree::is_tree(before),
        inode_map::all_directories(before),
        stream.position >= 2,
        stream.rest().len() > 0,
        stream.is_next_ino(before, between, listed),
        inode_map::is_get_ino(between, after, stream.ino, stream.rest()[0].name, found),
    ensures
        found == listed,
        after == between,
{
    let name = stream.rest()[0].name;
    inode_tree::lemma_lookup_again(
        before,
        between,
        after,
        stream.ino,
        name,
        crate::file::FileType::Directory,
        crate::file::FileType::Directory,
        listed,
        found,
    );
}

/// Requests by inode.
pub trait VirtualFilesystem: Sized {
    /// The inodes are consistent.
    spec fn wf(&self) -> bool;

    /// What `get_ino` may answer, and what it does to the filesystem.
    spec fn is_ino(
        before: Self,
        after: Self,
        parent: Inode,
        name: Seq<char>,
        r: JjResult<Inode>,
    ) -> bool;

    /// What `get_attributes` may answer.
    spec fn is_attributes(&self, ino: Inode, r: JjResult<Answer<FileAttributes>>) -> bool;

    /// What `read` may answer.
    spec fn is_read(&self, ino: Inode, offset: u64, size: u32, r: JjResult<Answer<Vec<u8>>>) -> bool;

    /// What `read_directory` may answer.
    spec fn is_directory(&self, ino: Inode, offset: u64, r: JjResult<Answer<ReadDirStream>>) -> bool;

    /// What `read_link` may answer.
    spec fn is_link(&self, ino: Inode, r: JjResult<Answer<String>>) -> bool;

    /// The inode of `name` in `parent`.
    fn get_ino(&mut self, parent: Inode, name: &str) -> (r: JjResult<Inode>)
        requires
            old(self).wf(),
        ensures
            final(self).wf(),
            Self::is_ino(*old(self), *final(self), parent, name@, r),
    ;

    fn get_attributes(&self, ino: Inode) -> (r: JjResult<Answer<FileAttributes>>)
        requires
            self.wf(),
        ensures
            self.is_attributes(ino, r),
    ;

    /// At most `size` bytes of a file, from `offset` on.
    fn read(&self, ino: Inode, offset: u64, size: u32) -> (r: JjResult<Answer<Vec<u8>>>)
        requires
            self.wf(),
        ensures
            self.is_read(ino, offset, size, r),
    ;

    /// The entries of a directory from `offset` on.
    fn read_directory(&self, ino: Inode, offset: u64) -> (r: JjResult<Answer<ReadDirStream>>)
        requires
            self.wf(),
        ensures
            self.is_directory(ino, offset, r),
    ;

    /// The target of a symlink.
    fn read_link(&self, ino: Inode) -> (r: JjResult<Answer<String>>)
        requires
            self.wf(),
        ensures
            self.is_link(ino, r),
    ;
}

/// Whether an answer is the window on the contents of a file.
pub open spec fn is_window(
    content: JjResult<Answer<Vec<u8>>>,
    offset: u64,
    size: u32,
    r: JjResult<Answer<Vec<u8>>>,
) -> bool {
    match content {
        Ok(Answer::Ready(content)) => r matches Ok(Answer::Ready(bytes)) && bytes@
            == read_window::window(content@, offset as nat, size as nat),
        Ok(Answer::Lookup(query)) => r == Ok::<_, JjError>(Answer::Lookup::<Vec<u8>>(query)),
        Err(error) => r == Err::<Answer<Vec<u8>>, _>(error),
    }
}

/// Whether a stream is at an offset of a directory with the given children.
pub open spec fn is_stream(
    nodes: Map<Inode, Node>,
    ino: Inode,
    offset: u64,
    children: Vec<DirectoryEntry>,
    stream: ReadDirStream,
) -> bool {
    &&& stream.ino == ino
    &&& stream.parent_ino == nodes[ino].parent
    &&& stream.children == children
    &&& stream.position == offset
}

/// Whether an answer is to read a directory that lists the given entries.
pub open spec fn is_reading(
    nodes: Map<Inode, Node>,
    ino: Inode,
    offset: u64,
    listed: JjResult<Answer<Vec<DirectoryEntry>>>,
    r: JjResult<Answer<ReadDirStream>>,
) -> bool {
    match listed {
        Ok(Answer::Ready(children)) => r matches Ok(Answer::Ready(stream)) && is_stream(
            nodes,
            ino,
            offset,
            children,
            stream,
        ),
        Ok(Answer::Lookup(query)) => r == Ok::<_, JjError>(Answer::Lookup::<ReadDirStream>(query)),
        Err(error) => r == Err::<Answer<ReadDirStream>, _>(error),
    }
}

/// The filesystem of a layout, with an inode for each path that was looked up.
pub struct PathMappedVfs<P: PathMapper> {
    pub path_mapper: P,
    pub inode_map: InodeMap,
}

impl<P: PathMapper> PathMappedVfs<P> {
    /// Whether a file, or an error, is what the layout has for an inode.
    pub open spec fn is_file(&self, ino: Inode, file: JjResult<P::File>) -> bool {
        if self.inode_map@.contains_key(ino) {
            exists|path: &str|
                path@ == inode_map::path_of(self.inode_map@, ino) && #[trigger] call_ensures(
                    P::get_entry,
                    (&self.path_mapper, path),
                    file,
                )
        } else {
            file == Err::<P::File, _>(JjError::NotFound)
        }
    }

    pub fn new(path_mapper: P) -> (r: Self)
        ensures
            r.wf(),
            r.path_mapper == path_mapper,
            r.inode_map@ == inode_tree::root_only(),
    {
        PathMappedVfs { path_mapper, inode_map: InodeMap::new() }
    }

    /// The file that the layout has for an inode.
    pub fn get_virtual_file(&self, ino: Inode) -> (r: JjResult<P::File>)
        requires
            self.wf(),
        ensures
            self.is_file(ino, r),
    {
        match self.inode_map.get_path(ino) {
            Ok(path) => self.path_mapper.get_entry(path.as_str()),
            Err(error) => Err(error),
        }
    }
}

impl<P: PathMapper> PathMappedVfs<P> {
    /// Starts to read a directory of which the children are known.
    pub fn open_directory(&self, ino: Inode, offset: u64, children: Vec<DirectoryEntry>) -> (r:
        JjResult<ReadDirStream>)
        requires
            self.wf(),
        ensures
            if self.inode_map@.contains_key(ino) {
                r matches Ok(stream) && is_stream(self.inode_map@, ino, offset, children, stream)
            } else {
                r == Err::<ReadDirStream, _>(JjError::NotFound)
            },
    {
        match self.inode_map.get_parent_ino(ino) {
            Ok(parent_ino) => Ok(ReadDirStream { ino, parent_ino, children, position: offset }),
            Err(error) => Err(error),
        }
    }
}

impl<P: PathMapper> VirtualFilesystem for PathMappedVfs<P> {
    open spec fn wf(&self) -> bool {
        self.inode_map.wf()
    }

    open spec fn is_ino(
        before: Self,
        after: Self,
        parent: Inode,
        name: Seq<char>,
        r: JjResult<Inode>,
    ) -> bool {
        &&& after.path_mapper == before.path_mapper
        &&& match r {
            Ok(ino) => inode_map::is_get_ino(
                before.inode_map@,
                after.inode_map@,
                parent,
                name,
                ino,
            ),
            Err(error) => error == JjError::NotFound && !before.inode_map@.contains_key(parent)
                && after.inode_map@ == before.inode_map@,
        }
    }

    open spec fn is_attributes(&self, ino: Inode, r: JjResult<Answer<FileAttributes>>) -> bool {
        exists|file: JjResult<P::File>| #[trigger]
            self.is_file(ino, file) && match file {
                Ok(file) => call_ensures(P::File::attributes, (&file,), r),
                Err(error) => r == Err::<Answer<FileAttributes>, _>(error),
            }
    }

    open spec fn is_read(
        &self,
        ino: Inode,
        offset: u64,
        size: u32,
        r: JjResult<Answer<Vec<u8>>>,
    ) -> bool {
        exists|file: JjResult<P::File>| #[trigger]
            self.is_file(ino, file) && match file {
                Ok(file) => exists|content: JjResult<Answer<Vec<u8>>>| #[trigger]
                    call_ensures(P::File::read, (&file,), content) && is_window(
                        content,
                        offset,
                        size,
                        r,
                    ),
                Err(error) => r == Err::<Answer<Vec<u8>>, _>(error),
            }
    }

    open spec fn is_directory(
        &self,
        ino: Inode,
        offset: u64,
        r: JjResult<Answer<ReadDirStream>>,
    ) -> bool {
        exists|file: JjResult<P::File>| #[trigger]
            self.is_file(ino, file) && match file {
                Ok(file) => exists|listed: JjResult<Answer<Vec<DirectoryEntry>>>| #[trigger]
                    call_ensures(P::File::list, (&file,), listed) && is_reading(
                        self.inode_map@,
                        ino,
                        offset,
                        listed,
                        r,
                    ),
                Err(error) => r == Err::<Answer<ReadDirStream>, _>(error),
            }
    }

    open spec fn is_link(&self, ino: Inode, r: JjResult<Answer<String>>) -> bool {
        exists|file: JjResult<P::File>| #[trigger]
            self.is_file(ino, file) && match file {
                Ok(file) => call_ensures(P::File::read_link, (&file,), r),
                Err(error) => r == Err::<Answer<String>, _>(error),
            }
    }

    fn get_ino(&mut self, parent: Inode, name: &str) -> (r: JjResult<Inode>) {
        self.inode_map.get_ino(parent, name)
    }

    fn get_attributes(&self, ino: Inode) -> (r: JjResult<Answer<FileAttributes>>) {
        let file = self.get_virtual_file(ino);
        let ghost found = file;
        assert(self.is_file(ino, found));
        match file {
            Ok(file) => file.attributes(),
            Err(error) => Err(error),
        }
    }

    fn read(&self, ino: Inode, offset: u64, size: u32) -> (r: JjResult<Answer<Vec<u8>>>) {
        let file = self.get_virtual_file(ino);
        let ghost found = file;
        assert(self.is_file(ino, found));
        let file = match file {
            Ok(file) => file,
            Err(error) => return Err(error),
        };
        let content = file.read();
        let ghost answer = content;
        assert(call_ensures(P::File::read, (&file,), answer));
        match content {
            Ok(Answer::Ready(content)) => {
                let mut window = ReadWindow::new(offset, size as u64);
                window.feed(content.as_slice());
                assert(Seq::<u8>::empty() + content@ =~= content@);
                Ok(Answer::Ready(window.finish()))
            },
            Ok(Answer::Lookup(query)) => Ok(Answer::Lookup(query)),
            Err(error) => Err(error),
        }
    }

    fn read_directory(&self, ino: Inode, offset: u64) -> (r: JjResult<Answer<ReadDirStream>>) {
        let file = self.get_virtual_file(ino);
        let ghost found = file;
        assert(self.is_file(ino, found));
        let file = match file {
            Ok(file) => file,
            Err(error) => return Err(error),
        };
        let listed = file.list();
        let ghost answer = listed;
        assert(call_ensures(P::File::list, (&file,), answer));
        match listed {
            Ok(Answer::Ready(children)) => match self.open_directory(ino, offset, children) {
                Ok(stream) => Ok(Answer::Ready(stream)),
                Err(error) => Err(error),
            },
            Ok(Answer::Lookup(query)) => Ok(Answer::Lookup(query)),
            Err(error) => Err(error),
        }
    }

    fn read_link(&self, ino: Inode) -> (r: JjResult<Answer<String>>) {
        let file = self.get_virtual_file(ino);
        let ghost found = file;
        assert(self.is_file(ino, found));
        match file {
            Ok(file) => file.read_link(),
            Err(error) => Err(error),
        }
    }
}

impl<P: PathMapper> PathMappedVfs<P> {
    /// Whether the layout has a file for an inode that answers to be read with the given contents.
    pub open spec fn has_contents(&self, ino: Inode, content: Seq<u8>) -> bool {
        forall|file: JjResult<P::File>| #[trigger]
            self.is_file(ino, file) ==> file is Ok && forall|r: JjResult<Answer<Vec<u8>>>| #[trigger]
                call_ensures(P::File::read, (&file->Ok_0,), r) ==> (r matches Ok(Answer::Ready(v))
                    && v@ == content)
    }

    /// Whether the layout has a file for an inode that answers to be listed with the given entries.
    pub open spec fn has_children(&self, ino: Inode, children: Seq<EntryView>) -> bool {
        forall|file: JjResult<P::File>| #[trigger]
            self.is_file(ino, file) ==> file is Ok && forall|
                r: JjResult<Answer<Vec<DirectoryEntry>>>,
            | #[trigger]
                call_ensures(P::File::list, (&file->Ok_0,), r) ==> (r matches Ok(Answer::Ready(v))
                    && virtual_file::entry_views(v@) == children)
    }
}

/// A read of a file gives as many bytes as there are from the offset on, but no more than were asked
/// for, and they are the bytes of the file from the offset on.
pub proof fn lemma_read_bytes<P: PathMapper>(
    fs: PathMappedVfs<P>,
    ino: Inode,
    content: Seq<u8>,
    offset: u64,
    size: u32,
    r: JjResult<Answer<Vec<u8>>>,
)
    requires
        fs.wf(),
        fs.has_contents(ino, content),
        call_ensures(
            <PathMappedVfs<P> as VirtualFilesystem>::read,
            (&fs, ino, offset, size),
            r,
        ),
    ensures
        r matches Ok(Answer::Ready(bytes)) && bytes@.len() == (if offset >= content.len() {
            0
        } else if content.len() - offset <= size {
            content.len() - offset
        } else {
            size as int
        }) && forall|i: int|
            0 <= i < bytes@.len() ==> #[trigger] bytes@[i] == content[offset + i],
{
    assert(fs.is_read(ino, offset, size, r));
    read_window::lemma_window_bytes(content, offset as nat, size as nat);
}

/// Two reads, the second where the first one ends, give together what one read of both sizes gives.
pub proof fn lemma_reads_join<P: PathMapper>(
    fs: PathMappedVfs<P>,
    ino: Inode,
    content: Seq<u8>,
    offset: u64,
    first: u32,
    second: u32,
    middle: u64,
    both: u32,
    r_first: JjResult<Answer<Vec<u8>>>,
    r_second: JjResult<Answer<Vec<u8>>>,
    r_both: JjResult<Answer<Vec<u8>>>,
)
    requires
        fs.wf(),
        fs.has_contents(ino, content),
        middle == offset + first,
        both == first + second,
        call_ensures(
            <PathMappedVfs<P> as VirtualFilesystem>::read,
            (&fs, ino, offset, first),
            r_first,
        ),
        call_ensures(
            <PathMappedVfs<P> as VirtualFilesystem>::read,
            (&fs, ino, middle, second),
            r_second,
        ),
        call_ensures(
            <PathMappedVfs<P> as VirtualFilesystem>::read,
            (&fs, ino, offset, both),
            r_both,
        ),
    ensures
        r_first matches Ok(Answer::Ready(a)) && r_second matches Ok(Answer::Ready(b))
            && r_both matches Ok(Answer::Ready(all)) && all@ == a@ + b@,
{
    lemma_read_bytes(fs, ino, content, offset, first, r_first);
    lemma_read_bytes(fs, ino, content, middle, second, r_second);
    lemma_read_bytes(fs, ino, content, offset, both, r_both);
    let a = r_first->Ok_0->Ready_0@;
    let b = r_second->Ok_0->Ready_0@;
    let all = r_both->Ok_0->Ready_0@;
    assert(all =~= a + b);
}

/// The entries that are still to come of a directory: itself and its parent, as far as they do not
/// come before the position, and then all its children in their order, from the position on.
pub proof fn lemma_rest_entries(stream: ReadDirStream, i: int)
    ensures
        stream.rest().len() == (if stream.position >= stream.children@.len() + 2 {
            0
        } else {
            stream.children@.len() + 2 - stream.position
        }),
        0 <= i < stream.rest().len() ==> ({
            let place = stream.position + i;
            let entry = stream.rest()[i];
            if place == 0 {
                entry.name == seq!['.'] && entry.file_type == FileType::Directory
            } else if place == 1 {
                entry.name == seq!['.', '.'] && entry.file_type == FileType::Directory
            } else {
                entry.name == stream.children@[place - 2].name@ && entry.file_type
                    == stream.children@[place - 2].file_type
            }
        }),
{
    let views = virtual_file::entry_views(stream.children@);
    assert(views.len() == stream.children@.len());
}

/// Whether a stream is to hand out a directory from an offset on: itself and its parent, as far as
/// they do not come before the offset, and then all the given children in their order.
pub open spec fn hands_out(
    stream: ReadDirStream,
    ino: Inode,
    parent: Inode,
    offset: u64,
    children: Seq<EntryView>,
) -> bool {
    &&& stream.ino == ino
    &&& stream.parent_ino == parent
    &&& stream.position == offset
    &&& stream.rest().len() == (if offset >= children.len() + 2 {
        0
    } else {
        children.len() + 2 - offset
    })
    &&& forall|i: int|
        0 <= i < stream.rest().len() ==> #[trigger] stream.rest()[i] == (if offset + i == 0 {
            EntryView { name: seq!['.'], file_type: FileType::Directory }
        } else if offset + i == 1 {
            EntryView { name: seq!['.', '.'], file_type: FileType::Directory }
        } else {
            children[offset + i - 2]
        })
}

/// A directory that is opened at an offset hands out itself, its parent and all the given children in
/// their order, without as many entries as the offset says. An inode that is not known is not opened.
pub proof fn lemma_open_directory<P: PathMapper>(
    fs: PathMappedVfs<P>,
    ino: Inode,
    offset: u64,
    children: Vec<DirectoryEntry>,
    r: JjResult<ReadDirStream>,
)
    requires
        fs.wf(),
        call_ensures(PathMappedVfs::<P>::open_directory, (&fs, ino, offset, children), r),
    ensures
        fs.inode_map@.contains_key(ino) ==> (r matches Ok(stream) && stream.children@ == children@
            && hands_out(
            stream,
            ino,
            fs.inode_map@[ino].parent,
            offset,
            virtual_file::entry_views(children@),
        )),
        !fs.inode_map@.contains_key(ino) ==> r == Err::<ReadDirStream, _>(JjError::NotFound),
{
    let views = virtual_file::entry_views(children@);
    assert(views.len() == children@.len());
}

/// A directory that is read from an offset on hands out itself, its parent and all the children that
/// its file lists in their order, without as many entries as the offset says.
pub proof fn lemma_read_directory<P: PathMapper>(
    fs: PathMappedVfs<P>,
    ino: Inode,
    children: Seq<EntryView>,
    offset: u64,
    r: JjResult<Answer<ReadDirStream>>,
)
    requires
        fs.wf(),
        fs.inode_map@.contains_key(ino),
        fs.has_children(ino, children),
        call_ensures(
            <PathMappedVfs<P> as VirtualFilesystem>::read_directory,
            (&fs, ino, offset),
            r,
        ),
    ensures
        r matches Ok(Answer::Ready(stream)) && virtual_file::entry_views(stream.children@)
            == children && hands_out(stream, ino, fs.inode_map@[ino].parent, offset, children),
{
    assert(fs.is_directory(ino, offset, r));
    assert(virtual_file::entry_views(r->Ok_0->Ready_0.children@).len()
        == r->Ok_0->Ready_0.children@.len());
}

/// Whatever is asked of an inode that is not known, it is not found.
pub proof fn lemma_unknown_inode<P: PathMapper>(
    fs: PathMappedVfs<P>,
    ino: Inode,
    offset: u64,
    size: u32,
    attributes: JjResult<Answer<FileAttributes>>,
    content: JjResult<Answer<Vec<u8>>>,
    stream: JjResult<Answer<ReadDirStream>>,
    link: JjResult<Answer<String>>,
)
    requires
        fs.wf(),
        !fs.inode_map@.contains_key(ino),
        call_ensures(
            <PathMappedVfs<P> as VirtualFilesystem>::get_attributes,
            (&fs, ino),
            attributes,
        ),
        call_ensures(
            <PathMappedVfs<P> as VirtualFilesystem>::read,
            (&fs, ino, offset, size),
            content,
        ),
        call_ensures(
            <PathMappedVfs<P> as VirtualFilesystem>::read_directory,
            (&fs, ino, offset),
            stream,
        ),
        call_ensures(<PathMappedVfs<P> as VirtualFilesystem>::read_link, (&fs, ino), link),
    ensures
        attributes == Err::<Answer<FileAttributes>, _>(JjError::NotFound),
        content == Err::<Answer<Vec<u8>>, _>(JjError::NotFound),
        stream == Err::<Answer<ReadDirStream>, _>(JjError::NotFound),
        link == Err::<Answer<String>, _>(JjError::NotFound),
{
    assert(fs.is_attributes(ino, attributes));
    assert(fs.is_read(ino, offset, size, content));
    assert(fs.is_directory(ino, offset, stream));
    assert(fs.is_link(ino, link));
}

/// The file of an inode is what the layout has at the names that lead to the inode.
pub proof fn lemma_file_of_inode<P: PathMapper>(
    fs: PathMappedVfs<P>,
    ino: Inode,
    r: JjResult<P::File>,
)
    requires
        fs.wf(),
        fs.inode_map@.contains_key(ino),
        forall|i: int|
            0 <= i < inode_tree::path_names(fs.inode_map@, ino).len() ==> paths::is_plain_name(
                #[trigger] inode_tree::path_names(fs.inode_map@, ino)[i],
            ),
        call_ensures(PathMappedVfs::<P>::get_virtual_file, (&fs, ino), r),
    ensures
        exists|path: &str|
            paths::segments(path@) == inode_tree::path_names(fs.inode_map@, ino)
                && #[trigger] call_ensures(P::get_entry, (&fs.path_mapper, path), r),
{
    inode_tree::lemma_path_segments(fs.inode_map@, ino);
}

/// The file that every request to an inode goes to is what the layout has at the names that lead to
/// the inode.
pub proof fn lemma_file_at_path<P: PathMapper>(
    fs: PathMappedVfs<P>,
    ino: Inode,
    file: JjResult<P::File>,
)
    requires
        fs.wf(),
        fs.inode_map@.contains_key(ino),
        forall|i: int|
            0 <= i < inode_tree::path_names(fs.inode_map@, ino).len() ==> paths::is_plain_name(
                #[trigger] inode_tree::path_names(fs.inode_map@, ino)[i],
            ),
        fs.is_file(ino, file),
    ensures
        exists|path: &str|
            paths::segments(path@) == inode_tree::path_names(fs.inode_map@, ino)
                && #[trigger] call_ensures(P::get_entry, (&fs.path_mapper, path), file),
{
    inode_tree::lemma_path_segments(fs.inode_map@, ino);
}

/// The attributes of an inode are those of its file, and its target is that of its file. Each answer
/// and each error of the file is handed on as it is.
pub proof fn lemma_answers_handed_on<P: PathMapper>(
    fs: PathMappedVfs<P>,
    ino: Inode,
    of_file: JjResult<Answer<FileAttributes>>,
    target: JjResult<Answer<String>>,
    attributes: JjResult<Answer<FileAttributes>>,
    link: JjResult<Answer<String>>,
)
    requires
        fs.wf(),
        forall|file: JjResult<P::File>| #[trigger]
            fs.is_file(ino, file) ==> file is Ok && (forall|r: JjResult<Answer<FileAttributes>>|
             #[trigger]
                call_ensures(P::File::attributes, (&file->Ok_0,), r) ==> r == of_file) && forall|
                r: JjResult<Answer<String>>,
            | #[trigger]
                call_ensures(P::File::read_link, (&file->Ok_0,), r) ==> r == target,
        call_ensures(
            <PathMappedVfs<P> as VirtualFilesystem>::get_attributes,
            (&fs, ino),
            attributes,
        ),
        call_ensures(<PathMappedVfs<P> as VirtualFilesystem>::read_link, (&fs, ino), link),
    ensures
        attributes == of_file,
        link == target,
{
    assert(fs.is_attributes(ino, attributes));
    assert(fs.is_link(ino, link));
}

/// What a file asks to be looked up before it can be read or listed, and the errors of it, are handed
/// on as they are.
pub proof fn lemma_lookups_handed_on<P: PathMapper>(
    fs: PathMappedVfs<P>,
    ino: Inode,
    offset: u64,
    size: u32,
    content: JjResult<Answer<Vec<u8>>>,
    listed: JjResult<Answer<Vec<DirectoryEntry>>>,
    r: JjResult<Answer<Vec<u8>>>,
    stream: JjResult<Answer<ReadDirStream>>,
)
    requires
        fs.wf(),
        forall|file: JjResult<P::File>| #[trigger]
            fs.is_file(ino, file) ==> file is Ok && (forall|answer: JjResult<Answer<Vec<u8>>>|
             #[trigger]
                call_ensures(P::File::read, (&file->Ok_0,), answer) ==> answer == content)
                && forall|answer: JjResult<Answer<Vec<DirectoryEntry>>>| #[trigger]
                call_ensures(P::File::list, (&file->Ok_0,), answer) ==> answer == listed,
        call_ensures(
            <PathMappedVfs<P> as VirtualFilesystem>::read,
            (&fs, ino, offset, size),
            r,
        ),
        call_ensures(
            <PathMappedVfs<P> as VirtualFilesystem>::read_directory,
            (&fs, ino, offset),
            stream,
        ),
    ensures
        content matches Err(error) ==> r == Err::<Answer<Vec<u8>>, _>(error),
        content matches Ok(Answer::Lookup(query)) ==> r == Ok::<_, JjError>(
            Answer::Lookup::<Vec<u8>>(query),
        ),
        listed matches Err(error) ==> stream == Err::<Answer<ReadDirStream>, _>(error),
        listed matches Ok(Answer::Lookup(query)) ==> stream == Ok::<_, JjError>(
            Answer::Lookup::<ReadDirStream>(query),
        ),
{
    assert(fs.is_read(ino, offset, size, r));
    assert(fs.is_directory(ino, offset, stream));
}

/// The next entry of a directory whose inode is known is the one at the position: the directory
/// itself, its parent, or the child there, each with its name and type. Its offset is the next
/// position, and a child gets the inode of its name in the directory. There is none after the last
/// child.
pub proof fn lemma_next_entry()
    ensures
        forall|
            stream: &mut ReadDirStream,
            inodes: &mut InodeMap,
            r: Option<JjResult<ReadDirEntry>>,
        | #[trigger]
            call_ensures(ReadDirStream::next, (stream, inodes), r) && inodes.wf()
                && inodes@.contains_key(stream.ino) && stream.position < u64::MAX ==> {
                &&& r is None <==> stream.position >= stream.children@.len() + 2
                &&& r is None ==> *final(stream) == *stream && final(inodes)@ == inodes@
                &&& r matches Some(entry) ==> entry is Ok && {
                    let entry = entry->Ok_0;
                    let position = stream.position;
                    &&& entry.offset == position + 1
                    &&& final(stream).position == position + 1
                    &&& final(stream).children@ == stream.children@
                    &&& final(stream).ino == stream.ino
                    &&& final(stream).parent_ino == stream.parent_ino
                    &&& if position == 0 {
                        &&& entry.name@ == seq!['.']
                        &&& entry.file_type == FileType::Directory
                        &&& entry.ino == stream.ino
                        &&& final(inodes)@ == inodes@
                    } else if position == 1 {
                        &&& entry.name@ == seq!['.', '.']
                        &&& entry.file_type == FileType::Directory
                        &&& entry.ino == stream.parent_ino
                        &&& final(inodes)@ == inodes@
                    } else {
                        &&& entry.name@ == stream.children@[position - 2].name@
                        &&& entry.file_type == stream.children@[position - 2].file_type
                        &&& final(inodes)@.contains_key(entry.ino)
                        &&& final(inodes)@[entry.ino].parent == stream.ino
                        &&& final(inodes)@[entry.ino].name == entry.name@
                    }
                }
            },
{
    assert forall|
        stream: &mut ReadDirStream,
        inodes: &mut InodeMap,
        r: Option<JjResult<ReadDirEntry>>,
    | #[trigger]
        call_ensures(ReadDirStream::next, (stream, inodes), r) && inodes.wf()
            && inodes@.contains_key(stream.ino) && stream.position < u64::MAX implies {
        &&& r is None <==> stream.position >= stream.children@.len() + 2
        &&& r is None ==> *final(stream) == *stream && final(inodes)@ == inodes@
        &&& r matches Some(entry) ==> entry is Ok && {
            let entry = entry->Ok_0;
            let position = stream.position;
            &&& entry.offset == position + 1
            &&& final(stream).position == position + 1
            &&& final(stream).children@ == stream.children@
            &&& final(stream).ino == stream.ino
            &&& final(stream).parent_ino == stream.parent_ino
            &&& if position == 0 {
                &&& entry.name@ == seq!['.']
                &&& entry.file_type == FileType::Directory
                &&& entry.ino == stream.ino
                &&& final(inodes)@ == inodes@
            } else if position == 1 {
                &&& entry.name@ == seq!['.', '.']
                &&& entry.file_type == FileType::Directory
                &&& entry.ino == stream.parent_ino
                &&& final(inodes)@ == inodes@
            } else {
                &&& entry.name@ == stream.children@[position - 2].name@
                &&& entry.file_type == stream.children@[position - 2].file_type
                &&& final(inodes)@.contains_key(entry.ino)
                &&& final(inodes)@[entry.ino].parent == stream.ino
                &&& final(inodes)@[entry.ino].name == entry.name@
            }
        }
    } by {
        lemma_rest_entries(*stream, 0);
    }
}

/// The inode of a name is one with that name in the parent, and all inodes that were there are kept.
/// It is not found exactly where the parent is not known.
pub proof fn lemma_get_ino<P: PathMapper>()
    ensures
        forall|fs: &mut PathMappedVfs<P>, parent: Inode, name: &str, r: JjResult<Inode>| #[trigger]
            call_ensures(
                <PathMappedVfs<P> as VirtualFilesystem>::get_ino,
                (fs, parent, name),
                r,
            ) && fs.wf() ==> {
                &&& final(fs).path_mapper == fs.path_mapper
                &&& r is Ok <==> fs.inode_map@.contains_key(parent)
                &&& r matches Err(error) ==> error == JjError::NotFound && final(fs).inode_map@
                    == fs.inode_map@
                &&& r matches Ok(ino) ==> {
                    &&& final(fs).inode_map@.contains_key(ino)
                    &&& final(fs).inode_map@[ino].parent == parent
                    &&& final(fs).inode_map@[ino].name == name@
                    &&& fs.inode_map@.contains_key(ino) ==> final(fs).inode_map@ == fs.inode_map@
                    &&& !fs.inode_map@.contains_key(ino) ==> final(fs).inode_map@.remove(ino)
                        == fs.inode_map@
                }
            },
{
    assert forall|fs: &mut PathMappedVfs<P>, parent: Inode, name: &str, r: JjResult<Inode>| #[trigger]
        call_ensures(
            <PathMappedVfs<P> as VirtualFilesystem>::get_ino,
            (fs, parent, name),
            r,
        ) && fs.wf() implies {
        &&& final(fs).path_mapper == fs.path_mapper
        &&& r is Ok <==> fs.inode_map@.contains_key(parent)
        &&& r matches Err(error) ==> error == JjError::NotFound && final(fs).inode_map@
            == fs.inode_map@
        &&& r matches Ok(ino) ==> {
            &&& final(fs).inode_map@.contains_key(ino)
            &&& final(fs).inode_map@[ino].parent == parent
            &&& final(fs).inode_map@[ino].name == name@
            &&& fs.inode_map@.contains_key(ino) ==> final(fs).inode_map@ == fs.inode_map@
            &&& !fs.inode_map@.contains_key(ino) ==> final(fs).inode_map@.remove(ino)
                == fs.inode_map@
        }
    } by {
        assert(PathMappedVfs::<P>::is_ino(*fs, *final(fs), parent, name@, r));
        if r is Ok {
            let ino = r->Ok_0;
            if !inode_tree::has_child(fs.inode_map@, parent, name@) {
                assert(!fs.inode_map@.contains_key(ino));
                assert(final(fs).inode_map@.remove(ino) =~= fs.inode_map@);
            }
        }
    }
}

/// In a directory whose inode is not known, the directory itself and its parent are handed out, and
/// each child is not found.
pub proof fn lemma_next_of_unknown()
    ensures
        forall|
            stream: &mut ReadDirStream,
            inodes: &mut InodeMap,
            r: Option<JjResult<ReadDirEntry>>,
        | #[trigger]
            call_ensures(ReadDirStream::next, (stream, inodes), r) && inodes.wf()
                && !inodes@.contains_key(stream.ino) && stream.position < u64::MAX ==> {
                &&& r is None <==> stream.position >= stream.children@.len() + 2
                &&& final(inodes)@ == inodes@
                &&& r is Some ==> final(stream).position == stream.position + 1
                &&& r matches Some(entry) ==> if stream.position < 2 {
                    entry is Ok && entry->Ok_0.ino == (if stream.position == 0 {
                        stream.ino
                    } else {
                        stream.parent_ino
                    })
                } else {
                    entry == Err::<ReadDirEntry, _>(JjError::NotFound)
                }
            },
{
    assert forall|
        stream: &mut ReadDirStream,
        inodes: &mut InodeMap,
        r: Option<JjResult<ReadDirEntry>>,
    | #[trigger]
        call_ensures(ReadDirStream::next, (stream, inodes), r) && inodes.wf()
            && !inodes@.contains_key(stream.ino) && stream.position < u64::MAX implies {
        &&& r is None <==> stream.position >= stream.children@.len() + 2
        &&& final(inodes)@ == inodes@
        &&& r is Some ==> final(stream).position == stream.position + 1
        &&& r matches Some(entry) ==> if stream.position < 2 {
            entry is Ok && entry->Ok_0.ino == (if stream.position == 0 {
                stream.ino
            } else {
                stream.parent_ino
            })
        } else {
            entry == Err::<ReadDirEntry, _>(JjError::NotFound)
        }
    } by {
        lemma_rest_entries(*stream, 0);
    }
}

} // verus!
