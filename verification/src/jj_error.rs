//! The errors of the filesystem.

use vstd::prelude::*;
use vstd::string::*;

verus! {

/// Why an operation on the filesystem failed.
#[derive(Debug, PartialEq, Eq)]
pub enum JjError {
    InvalidPath,
    NotFound,
    NotADirectory,
    NotAFile,
    NotASymlink,
    Readonly,
    /// An input or output error, with its message.
    IO(String),
    /// An error of the repository backend, with its message.
    JjLibBackendError(String),
}

pub type JjResult<T> = Result<T, JjError>;

impl JjError {
    /// The text that describes the error.
    pub open spec fn text(&self) -> Seq<char> {
        match self {
            JjError::InvalidPath => "Invalid path"@,
            JjError::NotFound => "Not found"@,
            JjError::NotADirectory => "Expected a directory"@,
            JjError::NotAFile => "Expected a file"@,
            JjError::NotASymlink => "Expected a symlink"@,
            JjError::Readonly => "Read-only"@,
            JjError::IO(message) => message@,
            JjError::JjLibBackendError(message) => "Underlying jj-lib error: "@ + message@,
        }
    }

    /// Describes the error.
    pub fn message(&self) -> (r: String)
        ensures
            r@ == self.text(),
    {
        match self {
            JjError::InvalidPath => "Invalid path".to_owned(),
            JjError::NotFound => "Not found".to_owned(),
            JjError::NotADirectory => "Expected a directory".to_owned(),
            JjError::NotAFile => "Expected a file".to_owned(),
            JjError::NotASymlink => "Expected a symlink".to_owned(),
            JjError::Readonly => "Read-only".to_owned(),
            JjError::IO(message) => message.clone(),
            JjError::JjLibBackendError(message) => {
                "Underlying jj-lib error: ".to_owned().concat(message.as_str())
            },
        }
    }
}

/// An input or output error is described by its message alone, an error of the repository by a text
/// that ends with its message, and all others by a text of their own.
pub proof fn lemma_message_of_error(error: JjError, r: String)
    requires
        call_ensures(JjError::message, (&error,), r),
    ensures
        error matches JjError::IO(message) ==> r@ == message@,
        error matches JjError::JjLibBackendError(message) ==> r@ == "Underlying jj-lib error: "@
            + message@,
        error is InvalidPath ==> r@ == "Invalid path"@,
        error is NotFound ==> r@ == "Not found"@,
        error is NotADirectory ==> r@ == "Expected a directory"@,
        error is NotAFile ==> r@ == "Expected a file"@,
        error is NotASymlink ==> r@ == "Expected a symlink"@,
        error is Readonly ==> r@ == "Read-only"@,
{
}

} // verus!
