//! Files with interned names.

use vstd::prelude::*;

use crate::interned;

verus! {

/// The two kinds of file that an inode table tells apart.
#[derive(Debug, Clone, Copy, PartialEq, Eq, Structural)]
pub enum FileType {
    File,
    Directory,
}

/// A file with a given name and type. The name is interned.
#[derive(Debug, Clone, Copy, PartialEq, Eq)]
pub struct File {
    pub name: &'static str,
    pub file_type: FileType,
}

impl File {
    pub fn new(name: &str, file_type: FileType) -> (r: Self)
        ensures
            r.name@ == name@,
            r.file_type == file_type,
    {
        File { name: interned::intern(name), file_type }
    }
}

} // verus!
