//! Orchestration core for ephemeral conversational subagent workers.
//!
//! A [`subagent::SubAgent`] is one worker: it owns a conversation, a turn
//! budget, and a lifecycle status. A [`subagent_manager::SubAgentManager`]
//! is a registry of live workers: it spawns them, looks them up, terminates
//! them, and sweeps the finished ones out.
//!
//! Anything that suspends (the completion provider, tool dispatch, recipe
//! file reads) is an event fed into the state machine by the caller; the
//! decisions the machine takes on each event are stated in contracts and
//! verified.

pub mod clock;
pub mod errors;
mod ids;
pub mod message;
pub mod recipe;
pub mod render;
pub mod subagent;
pub mod subagent_manager;
pub mod text;

use vstd::prelude::*;

verus! {

/// Role of one conversation entry.
#[derive(Clone, Copy, Debug, PartialEq, Eq, Structural)]
pub enum Role {
    User,
    Assistant,
}

} // verus!
