//! The commands that are sent to the server.

use crate::policy::Policy;
use vstd::prelude::*;
use vstd::string::*;
use vstd::utf8::encode_utf8;

verus! {

/// A command for the server.
#[derive(Debug, Clone, PartialEq, Eq)]
pub enum ClientCommand {
    Ping,
    Version,
    Auth(String),
    Get(String),
    /// A key, its value and the seconds it lives; without the last it
    /// does not expire.
    SetValue(String, String, Option<u32>),
    Del(String),
    Has(String),
    Peek(String),
    /// A key and the seconds it lives from now; without them it does not
    /// expire.
    Ttl(String, Option<u32>),
    Size(String),
    Wipe,
    /// The number of bytes that the cache may hold.
    Resize(u64),
    Policy(Policy),
    Stats,
}

/// What a client command holds.
pub enum ClientCommandView {
    Ping,
    Version,
    Auth(Seq<char>),
    Get(Seq<char>),
    SetValue(Seq<char>, Seq<char>, Option<u32>),
    Del(Seq<char>),
    Has(Seq<char>),
    Peek(Seq<char>),
    Ttl(Seq<char>, Option<u32>),
    Size(Seq<char>),
    Wipe,
    Resize(u64),
    Policy(Seq<char>),
    Stats,
}

/// The longest text, counted in the bytes of its UTF-8 form, that a frame
/// can carry: its length travels in 32 bits.
pub open spec fn fits_frame(text: Seq<char>) -> bool {
    encode_utf8(text).len() <= u32::MAX
}

/// A key is not empty and fits a frame.
pub open spec fn valid_key(key: Seq<char>) -> bool {
    key.len() > 0 && fits_frame(key)
}

/// A time to live is present only where it is not zero: zero stands for its
/// absence.
pub open spec fn valid_ttl(ttl: Option<u32>) -> bool {
    ttl != Some(0u32)
}

impl ClientCommandView {
    /// The command can be sent: its keys are valid, its other texts fit a
    /// frame, its policy's name among them, and its time to live is none or
    /// not zero.
    pub open spec fn valid(self) -> bool {
        match self {
            ClientCommandView::Auth(token) => fits_frame(token),
            ClientCommandView::Get(key) => valid_key(key),
            ClientCommandView::SetValue(key, value, ttl) => valid_key(key) && fits_frame(value)
                && valid_ttl(ttl),
            ClientCommandView::Del(key) => valid_key(key),
            ClientCommandView::Has(key) => valid_key(key),
            ClientCommandView::Peek(key) => valid_key(key),
            ClientCommandView::Ttl(key, ttl) => valid_key(key) && valid_ttl(ttl),
            ClientCommandView::Size(key) => valid_key(key),
            ClientCommandView::Policy(name) => fits_frame(name),
            _ => true,
        }
    }
}

impl View for ClientCommand {
    type V = ClientCommandView;

    open spec fn view(&self) -> ClientCommandView {
        match self {
            ClientCommand::Ping => ClientCommandView::Ping,
            ClientCommand::Version => ClientCommandView::Version,
            ClientCommand::Auth(token) => ClientCommandView::Auth(token@),
            ClientCommand::Get(key) => ClientCommandView::Get(key@),
            ClientCommand::SetValue(key, value, ttl) => ClientCommandView::SetValue(key@, value@, *ttl),
            ClientCommand::Del(key) => ClientCommandView::Del(key@),
            ClientCommand::Has(key) => ClientCommandView::Has(key@),
            ClientCommand::Peek(key) => ClientCommandView::Peek(key@),
            ClientCommand::Ttl(key, ttl) => ClientCommandView::Ttl(key@, *ttl),
            ClientCommand::Size(key) => ClientCommandView::Size(key@),
            ClientCommand::Wipe => ClientCommandView::Wipe,
            ClientCommand::Resize(size) => ClientCommandView::Resize(*size),
            ClientCommand::Policy(policy) => ClientCommandView::Policy(policy@),
            ClientCommand::Stats => ClientCommandView::Stats,
        }
    }
}

/// Whether `text` fits a frame.
pub fn text_fits_frame(text: &str) -> (fits: bool)
    ensures
        fits == fits_frame(text@),
{
    text.as_bytes().len() <= 0xFFFF_FFFF
}

/// Whether `key` is a valid key.
pub fn is_valid_key(key: &str) -> (valid: bool)
    ensures
        valid == valid_key(key@),
{
    !key.is_empty() && text_fits_frame(key)
}

impl ClientCommand {
    /// The command can be sent.
    pub open spec fn valid(&self) -> bool {
        self@.valid()
    }

    /// Whether the command can be sent.
    pub fn is_valid(&self) -> (valid: bool)
        ensures
            valid == self.valid(),
    {
        match self {
            ClientCommand::Auth(token) => text_fits_frame(token.as_str()),
            ClientCommand::Get(key) => is_valid_key(key.as_str()),
            ClientCommand::SetValue(key, value, ttl) => is_valid_key(key.as_str()) && text_fits_frame(
                value.as_str(),
            ) && is_valid_ttl(ttl),
            ClientCommand::Del(key) => is_valid_key(key.as_str()),
            ClientCommand::Has(key) => is_valid_key(key.as_str()),
            ClientCommand::Peek(key) => is_valid_key(key.as_str()),
            ClientCommand::Ttl(key, ttl) => is_valid_key(key.as_str()) && is_valid_ttl(ttl),
            ClientCommand::Size(key) => is_valid_key(key.as_str()),
            ClientCommand::Policy(policy) => policy.is_wf(),
            _ => true,
        }
    }
}

/// Whether `ttl` is a valid time to live.
fn is_valid_ttl(ttl: &Option<u32>) -> (valid: bool)
    ensures
        valid == valid_ttl(*ttl),
{
    match ttl {
        Some(seconds) => *seconds != 0,
        None => true,
    }
}

} // verus!
