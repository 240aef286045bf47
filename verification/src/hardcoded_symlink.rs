//! A symlink whose target is fixed.

use vstd::prelude::*;
use vstd::utf8::*;

use crate::jj_error::{JjError, JjResult};
use crate::virtual_file;
use crate::virtual_file::{Answer, DirectoryEntry, FileAttributes, FileType, VirtualFile};

verus! {

/// A symlink that always has the same target.
pub struct HardcodedSymlink {
    target: String,
}

impl View for HardcodedSymlink {
    type V = Seq<char>;

    closed spec fn view(&self) -> Seq<char> {
        self.target@
    }
}

impl HardcodedSymlink {
    pub fn new(target: String) -> (r: Self)
        ensures
            r@ == target@,
    {
        HardcodedSymlink { target }
    }
}

impl VirtualFile for HardcodedSymlink {
    fn read_link(&self) -> (r: JjResult<Answer<String>>)
        ensures
            r matches Ok(Answer::Ready(target)) && target@ == self@,
    {
        Ok(Answer::Ready(self.target.clone()))
    }

    fn attributes(&self) -> (r: JjResult<Answer<FileAttributes>>)
        ensures
            r matches Ok(Answer::Ready(attributes)) && attributes.size == virtual_file::link_size(
                self@,
            ) && attributes == virtual_file::timeless(attributes.size, FileType::Symlink),
    {
        Ok(Answer::Ready(virtual_file::link_attributes(self.target.as_str())))
    }

    fn file_type(&self) -> (r: JjResult<Answer<FileType>>)
        ensures
            r matches Ok(Answer::Ready(FileType::Symlink)),
    {
        Ok(Answer::Ready(FileType::Symlink))
    }
}

/// A symlink leads to the target that it was made of, and has as many bytes. It can be followed alone.
pub proof fn lemma_fixed_target(
    target: String,
    symlink: HardcodedSymlink,
    content: JjResult<Answer<Vec<u8>>>,
    listed: JjResult<Answer<Vec<DirectoryEntry>>>,
    link: JjResult<Answer<String>>,
    attributes: JjResult<Answer<FileAttributes>>,
    kind: JjResult<Answer<FileType>>,
)
    requires
        call_ensures(HardcodedSymlink::new, (target,), symlink),
        call_ensures(HardcodedSymlink::read, (&symlink,), content),
        call_ensures(HardcodedSymlink::list, (&symlink,), listed),
        call_ensures(HardcodedSymlink::read_link, (&symlink,), link),
        call_ensures(HardcodedSymlink::attributes, (&symlink,), attributes),
        call_ensures(HardcodedSymlink::file_type, (&symlink,), kind),
    ensures
        link matches Ok(Answer::Ready(found)) && found@ == target@,
        content == Err::<Answer<Vec<u8>>, _>(JjError::NotAFile),
        listed == Err::<Answer<Vec<DirectoryEntry>>, _>(JjError::NotADirectory),
        kind matches Ok(Answer::Ready(FileType::Symlink)),
        attributes matches Ok(Answer::Ready(a)) && a.file_type == FileType::Symlink && a.size
            == encode_utf8(target@).len() && a.created == 0 && a.modified == 0,
{
}

} // verus!
