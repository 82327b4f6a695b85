//! A decoded response: whether the server accepted the command, and the text
//! it answered with.

use vstd::prelude::*;
use vstd::string::*;

verus! {

/// The response to one command.
#[derive(Debug, Clone, PartialEq, Eq)]
pub struct ResponseSheet {
    is_ok: bool,
    response: String,
}

/// What a response holds.
pub struct ResponseView {
    pub is_ok: bool,
    pub response: Seq<char>,
}

impl View for ResponseSheet {
    type V = ResponseView;

    closed spec fn view(&self) -> ResponseView {
        ResponseView { is_ok: self.is_ok, response: self.response@ }
    }
}

impl ResponseSheet {
    /// A response with the given flag and text.
    pub fn new(is_ok: bool, response: String) -> (sheet: ResponseSheet)
        ensures
            sheet@ == (ResponseView { is_ok, response: response@ }),
    {
        ResponseSheet { is_ok, response }
    }

    /// Whether the server accepted the command.
    pub fn is_ok(&self) -> (is_ok: bool)
        ensures
            is_ok == self@.is_ok,
    {
        self.is_ok
    }

    /// The text that the server answered with.
    pub fn response(&self) -> (response: &str)
        ensures
            response@ == self@.response,
    {
        self.response.as_str()
    }
}

} // verus!
