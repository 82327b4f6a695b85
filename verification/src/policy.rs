//! The eviction policies that the cache can be told to follow. Which policies
//! there are, and under which name each travels, is for `paper_client` to
//! say.

use crate::command::client::{fits_frame, text_fits_frame};
use crate::command_error::{CommandError, CommandErrorView, ErrorKind};
use paper_client::PaperPolicy;
use std::str::FromStr;
use vstd::prelude::*;
use vstd::string::*;

verus! {

/// What `paper_client` makes of a token that is to name a policy: the name
/// under which the policy travels, as `PaperPolicy`'s `from_str` reads the
/// token and its `to_string` writes the policy, or nothing where the token
/// names no policy. A policy with parameters need not be written back the
/// way it was read.
pub uninterp spec fn policy_name(token: Seq<char>) -> Option<Seq<char>>;

/// Calls `PaperPolicy::from_str` and, on the policy read, `to_string`: the
/// result depends on the token alone, and an error is handed on as nothing.
#[verifier::external_body]
fn canonical_name(token: &str) -> (name: Option<String>)
    ensures
        match name {
            Some(n) => policy_name(token@) == Some(n@),
            None => policy_name(token@) is None,
        },
{
    match PaperPolicy::from_str(token) {
        Ok(policy) => Some(policy.to_string()),
        Err(_) => None,
    }
}

/// A policy, held by the name under which it travels to the server.
#[derive(Debug, Clone, PartialEq, Eq)]
pub struct Policy {
    name: String,
}

impl View for Policy {
    type V = Seq<char>;

    /// The name under which the policy travels.
    closed spec fn view(&self) -> Seq<char> {
        self.name@
    }
}

/// The name that a policy made from `canonical` has: the name itself, where
/// there is one and it fits a frame.
pub open spec fn accepted_name(canonical: Option<Seq<char>>) -> Option<Seq<char>> {
    match canonical {
        Some(name) => if fits_frame(name) {
            Some(name)
        } else {
            None
        },
        None => None,
    }
}

impl Policy {
    /// The name fits a frame.
    pub open spec fn wf(&self) -> bool {
        fits_frame(self@)
    }

    /// The policy that `name` names.
    pub fn new(name: &str) -> (policy: Result<Policy, CommandError>)
        ensures
            match accepted_name(policy_name(name@)) {
                Some(n) => policy matches Ok(p) && p@ == n && p.wf(),
                None => policy matches Err(error) && error@ == (CommandErrorView {
                    kind: ErrorKind::InvalidPolicy,
                    message: "Invalid policy."@,
                }),
            },
    {
        Policy::from_name(canonical_name(name))
    }

    /// The policy that goes by the name `canonical`, where there is such a
    /// name and it fits a frame.
    pub fn from_name(canonical: Option<String>) -> (policy: Result<Policy, CommandError>)
        ensures
            match accepted_name(
                match canonical {
                    Some(name) => Some(name@),
                    None => None,
                },
            ) {
                Some(n) => policy matches Ok(p) && p@ == n && p.wf(),
                None => policy matches Err(error) && error@ == (CommandErrorView {
                    kind: ErrorKind::InvalidPolicy,
                    message: "Invalid policy."@,
                }),
            },
    {
        match canonical {
            Some(name) => {
                if text_fits_frame(name.as_str()) {
                    Ok(Policy { name })
                } else {
                    Err(CommandError::new(ErrorKind::InvalidPolicy, "Invalid policy."))
                }
            },
            None => Err(CommandError::new(ErrorKind::InvalidPolicy, "Invalid policy.")),
        }
    }

    /// The name under which the policy travels to the server.
    pub fn name(&self) -> (name: &str)
        ensures
            name@ == self@,
    {
        self.name.as_str()
    }

    /// Whether the name fits a frame, as that of every policy made by
    /// `new` does.
    pub fn is_wf(&self) -> (wf: bool)
        ensures
            wf == self.wf(),
    {
        text_fits_frame(self.name.as_str())
    }
}

} // verus!
