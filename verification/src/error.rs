//! The ways in which a run can fail.
use vstd::prelude::*;

verus! {

/// A failure, with what it is about.
#[derive(Debug, Clone, PartialEq, Eq)]
pub enum CustomError {
    /// No file of this name was met in the tree.
    FileNotFound(String),
    /// The file system refused an operation; its description.
    IoError(String),
    /// Bytes that had to be text are not UTF-8; the decoder's description.
    DecodeError(String),
    /// The request did not go through; the transport's description.
    SendError(String),
}

impl CustomError {
    /// What the failure is about: the file's name, or the description.
    pub open spec fn about(self) -> Seq<char> {
        match self {
            CustomError::FileNotFound(file) => file@,
            CustomError::IoError(detail) => detail@,
            CustomError::DecodeError(detail) => detail@,
            CustomError::SendError(detail) => detail@,
        }
    }

    /// The text of the failure: its kind, then what it is about.
    pub open spec fn text(self) -> Seq<char> {
        match self {
            CustomError::FileNotFound(file) => "File not found: "@ + file@,
            CustomError::IoError(detail) => "IO Error: "@ + detail@,
            CustomError::DecodeError(detail) => "Decode Error: "@ + detail@,
            CustomError::SendError(detail) => "Send Error: "@ + detail@,
        }
    }

    /// What the failure is about, without its kind.
    pub fn detail(&self) -> (detail: &str)
        ensures
            detail@ == self.about(),
    {
        match self {
            CustomError::FileNotFound(file) => file.as_str(),
            CustomError::IoError(detail) => detail.as_str(),
            CustomError::DecodeError(detail) => detail.as_str(),
            CustomError::SendError(detail) => detail.as_str(),
        }
    }

    /// The failure as a line of text.
    pub fn message(&self) -> (line: String)
        ensures
            line@ == self.text(),
    {
        match self {
            CustomError::FileNotFound(file) => String::from_str("File not found: ").concat(
                file.as_str(),
            ),
            CustomError::IoError(detail) => String::from_str("IO Error: ").concat(detail.as_str()),
            CustomError::DecodeError(detail) => String::from_str("Decode Error: ").concat(
                detail.as_str(),
            ),
            CustomError::SendError(detail) => String::from_str("Send Error: ").concat(
                detail.as_str(),
            ),
        }
    }
}

} // verus!
