//! A directory whose entries are fixed.

use vstd::prelude::*;

use crate::jj_error::{JjError, JjResult};
use crate::virtual_file;
use crate::virtual_file::{Answer, DirectoryEntry, FileAttributes, FileType, VirtualFile};

verus! {

/// A directory that always lists the same entries.
pub struct StaticDirectory {
    children: Vec<DirectoryEntry>,
}

impl View for StaticDirectory {
    type V = Seq<DirectoryEntry>;

    closed spec fn view(&self) -> Seq<DirectoryEntry> {
        self.children@
    }
}

impl StaticDirectory {
    pub fn new(children: Vec<DirectoryEntry>) -> (r: Self)
        ensures
            r@ == children@,
    {
        StaticDirectory { children }
    }
}

impl VirtualFile for StaticDirectory {
    fn list(&self) -> (r: JjResult<Answer<Vec<DirectoryEntry>>>)
        ensures
            r matches Ok(Answer::Ready(entries)) && entries@ == self@,
    {
        Ok(Answer::Ready(virtual_file::copy_entries(&self.children)))
    }

    fn attributes(&self) -> (r: JjResult<Answer<FileAttributes>>)
        ensures
            r matches Ok(Answer::Ready(attributes)) && attributes == virtual_file::timeless(
                0,
                FileType::Directory,
            ),
    {
        Ok(Answer::Ready(virtual_file::directory_attributes()))
    }

    fn file_type(&self) -> (r: JjResult<Answer<FileType>>)
        ensures
            r matches Ok(Answer::Ready(FileType::Directory)),
    {
        Ok(Answer::Ready(FileType::Directory))
    }
}

/// A directory lists the entries that it was made of, in their order, and can be listed alone.
pub proof fn lemma_fixed_entries(
    children: Vec<DirectoryEntry>,
    directory: StaticDirectory,
    content: JjResult<Answer<Vec<u8>>>,
    listed: JjResult<Answer<Vec<DirectoryEntry>>>,
    link: JjResult<Answer<String>>,
    attributes: JjResult<Answer<FileAttributes>>,
    kind: JjResult<Answer<FileType>>,
)
    requires
        call_ensures(StaticDirectory::new, (children,), directory),
        call_ensures(StaticDirectory::read, (&directory,), content),
        call_ensures(StaticDirectory::list, (&directory,), listed),
        call_ensures(StaticDirectory::read_link, (&directory,), link),
        call_ensures(StaticDirectory::attributes, (&directory,), attributes),
        call_ensures(StaticDirectory::file_type, (&directory,), kind),
    ensures
        listed matches Ok(Answer::Ready(entries)) && entries@ == children@,
        content == Err::<Answer<Vec<u8>>, _>(JjError::NotAFile),
        link == Err::<Answer<String>, _>(JjError::NotASymlink),
        kind matches Ok(Answer::Ready(FileType::Directory)),
        attributes matches Ok(Answer::Ready(a)) && a.file_type == FileType::Directory && a.size == 0
            && a.created == 0 && a.modified == 0,
{
}

} // verus!
