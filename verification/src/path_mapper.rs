//! The layout of the filesystem.

use vstd::prelude::*;

use crate::jj_error::JjResult;
use crate::virtual_file::VirtualFile;

verus! {

/// The structure below the mountpoint: it maps a path to the file there.
pub trait PathMapper {
    type File: VirtualFile;

    fn get_entry(&self, path: &str) -> JjResult<Self::File>;
}

} // verus!
