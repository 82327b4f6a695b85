//! An error as it is reported: what kind it is of, and the sentence
//! that tells the user.

use vstd::prelude::*;
use vstd::string::*;

verus! {

/// The kinds of reported errors.
#[derive(Debug, Clone, Copy, PartialEq, Eq, Structural)]
pub enum ErrorKind {
    EmptyCommand,
    InvalidCommand,
    InvalidArguments,
    InvalidCacheSize,
    InvalidTtl,
    InvalidPolicy,
    Quit,
}

/// An error with the sentence that reports it.
#[derive(Debug)]
pub struct CommandError {
    kind: ErrorKind,
    message: String,
}

/// What a reported error holds.
pub struct CommandErrorView {
    pub kind: ErrorKind,
    pub message: Seq<char>,
}

impl View for CommandError {
    type V = CommandErrorView;

    closed spec fn view(&self) -> CommandErrorView {
        CommandErrorView { kind: self.kind, message: self.message@ }
    }
}

impl CommandError {
    /// An error of `kind`, reported as `message`.
    pub fn new(kind: ErrorKind, message: &str) -> (error: CommandError)
        ensures
            error@ == (CommandErrorView { kind, message: message@ }),
    {
        CommandError { kind, message: message.to_owned() }
    }

    /// What kind the error is of.
    pub fn kind(&self) -> (kind: &ErrorKind)
        ensures
            *kind == self@.kind,
    {
        &self.kind
    }

    /// The sentence that reports the error.
    pub fn message(&self) -> (message: &String)
        ensures
            message@ == self@.message,
    {
        &self.message
    }
}

} // verus!
