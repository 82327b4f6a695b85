//! The ways in which reading a line ends without a line.

use vstd::prelude::*;

verus! {

#[derive(Debug, Clone, Copy, PartialEq, Eq, Structural)]
pub enum LineReaderError {
    /// The terminal could not be written to or configured.
    Internal,
    /// The terminal was closed, or the user interrupted the edit.
    Closed,
}

impl LineReaderError {
    pub open spec fn message_text(self) -> Seq<char> {
        match self {
            LineReaderError::Internal => "Internal error."@,
            LineReaderError::Closed => "Connection to terminal closed."@,
        }
    }

    /// The sentence that reports the error to the user.
    pub fn message(&self) -> (text: &'static str)
        ensures
            text@ == self.message_text(),
    {
        match self {
            LineReaderError::Internal => "Internal error.",
            LineReaderError::Closed => "Connection to terminal closed.",
        }
    }
}

} // verus!
