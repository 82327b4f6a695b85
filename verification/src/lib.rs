//! The core of an interactive shell for a remote key-value cache: a
//! cursor-aware line editor with history and hints, a tokenizer and parser
//! that turn a line into a typed command, and the binary framing of commands
//! and their responses.

pub mod command;
pub mod command_error;
pub mod line_reader;
pub mod policy;
pub mod response_sheet;
pub mod text;
