//! What can go wrong when a document is loaded.

use vstd::prelude::*;
use vstd::std_specs::convert::FromSpecImpl;

verus! {

/// Why loading the file's bytes failed, as far as this library tells
/// failures apart.
#[derive(Debug, Clone, Copy, PartialEq, Eq, Structural)]
pub enum IoFailure {
    /// The path does not exist.
    NotFound,
    /// The path exists and may not be opened.
    PermissionDenied,
    /// Any other failure to open, read or map the file.
    Other,
}

/// Why a document could not be made.
#[derive(Debug, Clone, Copy, PartialEq, Eq, Structural)]
pub enum Error {
    /// The path does not exist or may not be opened.
    FileNotFound,
    /// The path cannot name a file. No failed load is reported so.
    InvalidFileName,
    /// Any other failure.
    Other,
}

impl Error {
    /// The error reported for a failed load: a missing or forbidden path
    /// counts as a file that was not found, anything else as `Other`.
    pub open spec fn of_failure(failure: IoFailure) -> Error {
        match failure {
            IoFailure::NotFound | IoFailure::PermissionDenied => Error::FileNotFound,
            IoFailure::Other => Error::Other,
        }
    }

    /// The line shown to the user for this error.
    pub open spec fn message_text(&self) -> Seq<char> {
        match self {
            Error::FileNotFound => "File not found"@,
            Error::InvalidFileName => "File name is invalid"@,
            Error::Other => "Unknown error"@,
        }
    }

    /// Returns the line shown to the user for this error.
    pub fn message(&self) -> (text: String)
        ensures
            text@ == self.message_text(),
    {
        match self {
            Error::FileNotFound => "File not found".to_owned(),
            Error::InvalidFileName => "File name is invalid".to_owned(),
            Error::Other => "Unknown error".to_owned(),
        }
    }
}

impl FromSpecImpl<IoFailure> for Error {
    open spec fn obeys_from_spec() -> bool {
        true
    }

    open spec fn from_spec(failure: IoFailure) -> Error {
        Error::of_failure(failure)
    }
}

impl From<IoFailure> for Error {
    fn from(failure: IoFailure) -> (err: Error) {
        match failure {
            IoFailure::NotFound | IoFailure::PermissionDenied => Error::FileNotFound,
            IoFailure::Other => Error::Other,
        }
    }
}

/// A failed load is never reported as an invalid file name.
pub proof fn lemma_failure_is_not_a_name_error(failure: IoFailure)
    ensures
        Error::of_failure(failure) != Error::InvalidFileName,
        Error::of_failure(failure) == Error::FileNotFound <==> failure != IoFailure::Other,
{
}

} // verus!
