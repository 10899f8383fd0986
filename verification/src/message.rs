//! Conversation entries and the ghost view they are reasoned about with.

use vstd::prelude::*;
use crate::Role;

verus! {

/// Ghost view of one conversation entry.
pub struct MsgV {
    pub role: Role,
    pub text: Seq<char>,
}

/// One entry of a subagent's conversation: who spoke, and the text.
#[derive(Clone, Debug, PartialEq, Eq)]
pub struct Message {
    pub role: Role,
    pub text: String,
}

impl View for Message {
    type V = MsgV;

    open spec fn view(&self) -> MsgV {
        MsgV { role: self.role, text: self.text@ }
    }
}

/// The view of a user entry with the given text.
pub open spec fn user_msg(text: Seq<char>) -> MsgV {
    MsgV { role: Role::User, text }
}

/// The view of an assistant entry with the given text.
pub open spec fn assistant_msg(text: Seq<char>) -> MsgV {
    MsgV { role: Role::Assistant, text }
}

impl Message {
    /// A user-role entry.
    pub fn user_text(text: String) -> (r: Message)
        ensures
            r@ == user_msg(text@),
    {
        Message { role: Role::User, text }
    }

    /// An assistant-role entry.
    pub fn assistant_text(text: String) -> (r: Message)
        ensures
            r@ == assistant_msg(text@),
    {
        Message { role: Role::Assistant, text }
    }
}

} // verus!
