//! The hard errors the core reports to its direct callers. Provider and
//! tool failures are not here: the reply algorithm absorbs them into a
//! terminal status and an in-band assistant message.

use vstd::prelude::*;
use crate::text::dec_of;
use crate::text::usize_to_string;

verus! {

/// Why a worker refused a message.
#[derive(Clone, Debug, PartialEq, Eq)]
pub enum ReplyError {
    /// The turn budget is exhausted; the payload is the budget.
    LimitExceeded(usize),
    /// The worker is in a terminal state and accepts no further event.
    NotAccepting,
}

/// Why a registry operation failed; the payload of `NotFound` is the
/// identifier that was looked up.
#[derive(Clone, Debug, PartialEq, Eq)]
pub enum ManagerError {
    NotFound(String),
    LimitExceeded(usize),
    NotAccepting,
}

/// The text of a [`ReplyError`].
pub open spec fn reply_error_text(e: ReplyError) -> Seq<char> {
    match e {
        ReplyError::LimitExceeded(max) => "Maximum turns ("@ + dec_of(max as nat) + ") exceeded"@,
        ReplyError::NotAccepting => "Subagent no longer accepts messages"@,
    }
}

/// The text of a [`ManagerError`].
pub open spec fn manager_error_text(e: ManagerError) -> Seq<char> {
    match e {
        ManagerError::NotFound(id) => "Subagent "@ + id@ + " not found"@,
        ManagerError::LimitExceeded(max) => reply_error_text(ReplyError::LimitExceeded(max)),
        ManagerError::NotAccepting => reply_error_text(ReplyError::NotAccepting),
    }
}

impl ReplyError {
    /// A human-readable description of the error.
    pub fn text(&self) -> (r: String)
        ensures
            r@ == reply_error_text(*self),
    {
        match self {
            ReplyError::LimitExceeded(max) => {
                let mut s = String::from_str("Maximum turns (");
                s.append(usize_to_string(*max).as_str());
                s.append(") exceeded");
                s
            },
            ReplyError::NotAccepting => String::from_str("Subagent no longer accepts messages"),
        }
    }
}

impl ManagerError {
    /// A human-readable description of the error.
    pub fn text(&self) -> (r: String)
        ensures
            r@ == manager_error_text(*self),
    {
        match self {
            ManagerError::NotFound(id) => {
                let mut s = String::from_str("Subagent ");
                s.append(id.as_str());
                s.append(" not found");
                s
            },
            ManagerError::LimitExceeded(max) => ReplyError::LimitExceeded(*max).text(),
            ManagerError::NotAccepting => ReplyError::NotAccepting.text(),
        }
    }
}

} // verus!
