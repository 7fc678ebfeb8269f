//! The failures that a caller can be handed, and the single line of text
//! that each one is reported with.

use vstd::prelude::*;
use vstd::string::*;

verus! {

/// Why a document could not be found or stored.
#[derive(Debug, PartialEq, Eq)]
pub enum ResolveError {
    /// No candidate root held a readable file of this name.
    NotFound { filename: String },
    /// The directory that is to hold the document could not be created.
    DirectoryCreateFailed { filename: String, path: String, reason: String },
    /// The content could not be written at the target path.
    WriteFailed { filename: String, path: String, reason: String },
}

/// A `ResolveError` as plain text values.
pub enum ErrorView {
    NotFound { filename: Seq<char> },
    DirectoryCreateFailed { filename: Seq<char>, path: Seq<char>, reason: Seq<char> },
    WriteFailed { filename: Seq<char>, path: Seq<char>, reason: Seq<char> },
}

impl View for ResolveError {
    type V = ErrorView;

    open spec fn view(&self) -> ErrorView {
        match self {
            ResolveError::NotFound { filename } => ErrorView::NotFound { filename: filename@ },
            ResolveError::DirectoryCreateFailed { filename, path, reason } => {
                ErrorView::DirectoryCreateFailed {
                    filename: filename@,
                    path: path@,
                    reason: reason@,
                }
            },
            ResolveError::WriteFailed { filename, path, reason } => ErrorView::WriteFailed {
                filename: filename@,
                path: path@,
                reason: reason@,
            },
        }
    }
}

impl ErrorView {
    /// The line of text that reports this failure. A failed search names the
    /// document; a failed store names the document, the path that refused
    /// and the reason the host gave.
    pub open spec fn message(self) -> Seq<char> {
        match self {
            ErrorView::NotFound { filename } => "document not found: "@ + filename,
            ErrorView::DirectoryCreateFailed { filename, path, reason } => "could not write: "@
                + filename + ": failed to create directory "@ + path + ": "@ + reason,
            ErrorView::WriteFailed { filename, path, reason } => "could not write: "@ + filename
                + ": failed to write to "@ + path + ": "@ + reason,
        }
    }
}

impl ResolveError {
    /// The line of text that reports this failure.
    pub fn message(&self) -> (text: String)
        ensures
            text@ == self@.message(),
    {
        match self {
            ResolveError::NotFound { filename } => {
                let mut text = String::from_str("document not found: ");
                text.append(filename.as_str());
                text
            },
            ResolveError::DirectoryCreateFailed { filename, path, reason } => {
                let mut text = String::from_str("could not write: ");
                text.append(filename.as_str());
                text.append(": failed to create directory ");
                text.append(path.as_str());
                text.append(": ");
                text.append(reason.as_str());
                text
            },
            ResolveError::WriteFailed { filename, path, reason } => {
                let mut text = String::from_str("could not write: ");
                text.append(filename.as_str());
                text.append(": failed to write to ");
                text.append(path.as_str());
                text.append(": ");
                text.append(reason.as_str());
                text
            },
        }
    }
}

} // verus!
