//! Commands: what a line can ask for, of the server or of the shell.

pub mod cli;
pub mod client;
pub mod codec;
pub mod error;
pub mod parser;
pub mod tokenizer;

use vstd::prelude::*;

pub use crate::command::cli::CliCommand;
pub use crate::command::client::{ClientCommand, ClientCommandView};

verus! {

/// A command: for the server, or for the shell itself.
#[derive(Debug, Clone, PartialEq, Eq)]
pub enum Command {
    Client(ClientCommand),
    Cli(CliCommand),
}

/// What a command holds.
pub enum CommandView {
    Client(ClientCommandView),
    Cli(CliCommand),
}

impl View for Command {
    type V = CommandView;

    open spec fn view(&self) -> CommandView {
        match self {
            Command::Client(command) => CommandView::Client(command@),
            Command::Cli(command) => CommandView::Cli(*command),
        }
    }
}

impl CommandView {
    /// A command for the server can be sent; a command for the shell is
    /// always in order.
    pub open spec fn valid(self) -> bool {
        match self {
            CommandView::Client(command) => command.valid(),
            CommandView::Cli(_) => true,
        }
    }
}

} // verus!
