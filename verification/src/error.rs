//! Errors that end a run.
use vstd::prelude::*;
use vstd::string::*;

verus! {

/// A failure that the library reports to its caller.
#[derive(Debug, Clone)]
pub enum SyncError {
    /// An entry of the configured extension list is malformed; the entry is
    /// carried along.
    InvalidConfiguration(String),
    /// The size of a candidate that matches the index could not be read; the
    /// candidate's path is carried along.
    ResolutionIo(String),
}

impl SyncError {
    /// The text shown to the user for this error.
    pub open spec fn spec_message(self) -> Seq<char> {
        match self {
            SyncError::InvalidConfiguration(entry) =>
                "extensions must not contain '.' but got '"@ + entry@ + "'"@,
            SyncError::ResolutionIo(path) => "failed to get size of "@ + path@,
        }
    }

    /// Renders the error as a line for the user.
    pub fn message(&self) -> (text: String)
        ensures
            text@ == self.spec_message(),
    {
        match self {
            SyncError::InvalidConfiguration(entry) => {
                let mut text = "extensions must not contain '.' but got '".to_owned();
                text.append(entry.as_str());
                text.append("'");
                text
            },
            SyncError::ResolutionIo(path) => {
                let mut text = "failed to get size of ".to_owned();
                text.append(path.as_str());
                text
            },
        }
    }
}

} // verus!
