//! The ways in which a command fails, from an empty line to a lost
//! connection.

use vstd::prelude::*;
use vstd::string::*;

verus! {

/// Why a line gave no command, or a command no response.
#[derive(Debug, Clone, Copy, PartialEq, Eq)]
pub enum CommandError {
    /// The line held no token.
    EmptyInput,
    /// The first token names no command.
    UnrecognizedCommand,
    /// The named command was given arguments it cannot take.
    InvalidArguments(&'static str),
    /// The size given to `resize` is no size.
    InvalidCacheSize,
    /// The time to live is no unsigned 32-bit number.
    InvalidTtl,
    /// The policy given to `policy` is none that is known.
    InvalidPolicy,
    /// The connection to the server was lost.
    Disconnected,
    /// The user asked to leave, or the terminal was closed.
    Interrupted,
    /// The terminal failed, or a response could not be decoded.
    Internal,
}

impl CommandError {
    /// The sentence that reports the error to the user.
    pub open spec fn message_text(self) -> Seq<char> {
        match self {
            CommandError::EmptyInput => "please enter a command"@,
            CommandError::UnrecognizedCommand => "command not recognized"@,
            CommandError::InvalidArguments(name) => "invalid arguments for <"@ + name@
                + "> command"@,
            CommandError::InvalidCacheSize => "invalid cache size"@,
            CommandError::InvalidTtl => "invalid TTL"@,
            CommandError::InvalidPolicy => "invalid policy"@,
            CommandError::Disconnected => "disconnected"@,
            CommandError::Interrupted => "closing connection"@,
            CommandError::Internal => "internal error"@,
        }
    }

    /// The sentence that reports the error to the user.
    pub fn message(&self) -> (message: String)
        ensures
            message@ == self.message_text(),
    {
        match self {
            CommandError::EmptyInput => "please enter a command".to_owned(),
            CommandError::UnrecognizedCommand => "command not recognized".to_owned(),
            CommandError::InvalidArguments(name) => {
                let mut message = "invalid arguments for <".to_owned();
                message.append(name);
                message.append("> command");
                message
            },
            CommandError::InvalidCacheSize => "invalid cache size".to_owned(),
            CommandError::InvalidTtl => "invalid TTL".to_owned(),
            CommandError::InvalidPolicy => "invalid policy".to_owned(),
            CommandError::Disconnected => "disconnected".to_owned(),
            CommandError::Interrupted => "closing connection".to_owned(),
            CommandError::Internal => "internal error".to_owned(),
        }
    }

    /// Whether the session goes on after the error: it does after an error in
    /// the input or in one response, and not once the user has left or the
    /// connection is lost.
    pub open spec fn recoverable(self) -> bool {
        !(self == CommandError::Disconnected || self == CommandError::Interrupted)
    }

    /// Whether the session goes on after the error.
    pub fn is_recoverable(&self) -> (recoverable: bool)
        ensures
            recoverable == self.recoverable(),
    {
        match self {
            CommandError::Disconnected | CommandError::Interrupted => false,
            _ => true,
        }
    }
}

} // verus!
