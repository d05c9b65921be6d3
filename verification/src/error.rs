//! What can go wrong while a search is set up.

use vstd::prelude::*;
use vstd::string::StringExecFns;

verus! {

/// A failure to start a search. Once a session streams, nothing is reported
/// but through its events.
#[derive(Debug, PartialEq, Eq)]
pub enum SearchError {
    /// The search program could not be found or launched; the operating
    /// system's message.
    Spawn(String),
    /// The process that was launched has no output to read.
    StreamAcquisition,
    /// The lock around the shared slot is poisoned; the lock's message.
    Lock(String),
}

impl SearchError {
    /// The characters of [`SearchError::message`].
    pub open spec fn spec_message(&self) -> Seq<char> {
        match self {
            SearchError::Spawn(reason) => reason@,
            SearchError::StreamAcquisition => "Failed to open stdout"@,
            SearchError::Lock(reason) => reason@,
        }
    }

    /// The message that the caller of a command gets.
    pub fn message(&self) -> (message: String)
        ensures
            message@ == self.spec_message(),
    {
        match self {
            SearchError::Spawn(reason) => reason.clone(),
            SearchError::StreamAcquisition => String::from_str("Failed to open stdout"),
            SearchError::Lock(reason) => reason.clone(),
        }
    }
}

} // verus!
