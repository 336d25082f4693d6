//! The library's error type.

use vstd::prelude::*;

verus! {

/// Errors of the storage layer.
#[derive(Debug, PartialEq, Eq)]
pub enum ArklibError {
    /// A file system operation failed; the text describes it.
    Io(String),
    /// Stored text could not be decoded.
    Parse,
    /// A storage-level failure: the storage's label and what went wrong.
    Storage(String, String),
    /// Any other failure, described by the text.
    Other(String),
}

/// What an `ArklibError` holds, with its texts as character sequences.
pub enum ErrorModel {
    Io(Seq<char>),
    Parse,
    Storage(Seq<char>, Seq<char>),
    Other(Seq<char>),
}

impl View for ArklibError {
    type V = ErrorModel;

    open spec fn view(&self) -> ErrorModel {
        match self {
            ArklibError::Io(s) => ErrorModel::Io(s@),
            ArklibError::Parse => ErrorModel::Parse,
            ArklibError::Storage(l, m) => ErrorModel::Storage(l@, m@),
            ArklibError::Other(s) => ErrorModel::Other(s@),
        }
    }
}

} // verus!
