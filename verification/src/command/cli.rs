//! The commands that the shell carries out itself, without the server.

use vstd::prelude::*;

verus! {

#[derive(Debug, Clone, Copy, PartialEq, Eq, Structural)]
pub enum CliCommand {
    /// List the commands.
    Help,
    /// Clear the screen.
    Clear,
    /// End the session.
    Quit,
}

impl CliCommand {
    pub fn is_quit(&self) -> (b: bool)
        ensures
            b == (*self == CliCommand::Quit),
    {
        matches!(self, CliCommand::Quit)
    }

    pub fn is_help(&self) -> (b: bool)
        ensures
            b == (*self == CliCommand::Help),
    {
        matches!(self, CliCommand::Help)
    }

    /// Whether carrying out the command clears the terminal's screen.
    pub fn clears_screen(&self) -> (b: bool)
        ensures
            b == (*self == CliCommand::Clear),
    {
        matches!(self, CliCommand::Clear)
    }
}

} // verus!
