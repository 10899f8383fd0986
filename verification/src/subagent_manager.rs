//! The subagent manager: a registry of live workers, with spawn, lookup,
//! termination and cleanup. The registry holds each worker under its
//! identifier; identifiers are pairwise distinct.

use vstd::prelude::*;
use crate::errors::{ManagerError, ReplyError};
use crate::recipe::Recipe;
use crate::subagent::{
    SubAgent, SubAgentConfig, SubAgentStatus, SubAgentProgress, AgentV, StatusV, ProviderOutcome,
    ToolOutcome, ReplyStep, progress_matches, accept_reply, limit_reached, budget_of,
    turns_exhausted, provider_transition, provider_reply_step, tool_transition, declared_extensions,
    present_split, missing_split,
};
use crate::message::user_msg;
use crate::text::texts;

verus! {

/// Arguments of a spawn request: the recipe name, the initial message, and
/// the optional turn budget and timeout.
#[derive(Clone, Debug, PartialEq, Eq)]
pub struct SpawnSubAgentArgs {
    pub recipe_name: String,
    pub message: String,
    pub max_turns: Option<usize>,
    pub timeout_seconds: Option<u64>,
}

impl SpawnSubAgentArgs {
    /// A spawn request with no turn budget and no timeout.
    pub fn new(recipe_name: String, message: String) -> (r: SpawnSubAgentArgs)
        ensures
            r.recipe_name == recipe_name,
            r.message == message,
            r.max_turns is None,
            r.timeout_seconds is None,
    {
        SpawnSubAgentArgs { recipe_name, message, max_turns: None, timeout_seconds: None }
    }

    /// The same request with a turn budget.
    pub fn with_max_turns(self, max_turns: usize) -> (r: SpawnSubAgentArgs)
        ensures
            r == (SpawnSubAgentArgs { max_turns: Some(max_turns), ..self }),
    {
        SpawnSubAgentArgs { max_turns: Some(max_turns), ..self }
    }

    /// The same request with a timeout in seconds.
    pub fn with_timeout(self, timeout_seconds: u64) -> (r: SpawnSubAgentArgs)
        ensures
            r == (SpawnSubAgentArgs { timeout_seconds: Some(timeout_seconds), ..self }),
    {
        SpawnSubAgentArgs { timeout_seconds: Some(timeout_seconds), ..self }
    }
}

/// The views of a sequence of workers.
pub open spec fn agent_views(s: Seq<SubAgent>) -> Seq<AgentV> {
    s.map_values(|a: SubAgent| a@)
}

/// The identifiers of the registered workers, in registry order.
pub open spec fn ids_of(reg: Seq<AgentV>) -> Seq<Seq<char>> {
    reg.map_values(|a: AgentV| a.id)
}

/// Whether some registered worker carries this identifier.
pub open spec fn has_id(reg: Seq<AgentV>, id: Seq<char>) -> bool {
    exists|i: int| 0 <= i < reg.len() && reg[i].id == id
}

/// The registry position of the worker with this identifier; meaningful
/// only where [`has_id`] holds, and then unique under [`manager_wf`].
pub open spec fn idx_of(reg: Seq<AgentV>, id: Seq<char>) -> int {
    choose|i: int| 0 <= i < reg.len() && reg[i].id == id
}

/// The registered worker with this identifier.
pub open spec fn agent_with(reg: Seq<AgentV>, id: Seq<char>) -> AgentV {
    reg[idx_of(reg, id)]
}

/// The registry after a worker is put in: it replaces the entry with its
/// identifier where one exists, else it is appended.
pub open spec fn upsert(reg: Seq<AgentV>, a: AgentV) -> Seq<AgentV> {
    if has_id(reg, a.id) {
        reg.update(idx_of(reg, a.id), a)
    } else {
        reg.push(a)
    }
}

/// The registered workers not in a terminal status, in registry order.
pub open spec fn live_agents(reg: Seq<AgentV>) -> Seq<AgentV> {
    reg.filter(|a: AgentV| !a.status.is_terminal())
}

/// The registry invariant: identifiers are pairwise distinct, and every
/// worker satisfies its own invariant.
pub open spec fn manager_wf(reg: Seq<AgentV>) -> bool {
    &&& forall|i: int, j: int|
        0 <= i < j < reg.len() ==> (#[trigger] reg[i].id) != (#[trigger] reg[j].id)
    &&& forall|i: int| 0 <= i < reg.len() ==> (#[trigger] reg[i]).wf()
}

/// Under the registry invariant, a position holding an identifier is the
/// position [`idx_of`] names.
pub proof fn lemma_idx_unique(reg: Seq<AgentV>, id: Seq<char>, i: int)
    requires
        manager_wf(reg),
        0 <= i < reg.len(),
        reg[i].id == id,
    ensures
        has_id(reg, id),
        idx_of(reg, id) == i,
{
    assert(has_id(reg, id));
    let j = idx_of(reg, id);
    assert(0 <= j < reg.len() && reg[j].id == id);
    if i < j {
        assert(reg[i].id != reg[j].id);
    } else if j < i {
        assert(reg[j].id != reg[i].id);
    }
}

/// Replacing an entry under the same identifier, with a worker that meets
/// its own invariant, preserves the registry invariant.
pub proof fn lemma_wf_update(reg: Seq<AgentV>, i: int, a: AgentV)
    requires
        manager_wf(reg),
        0 <= i < reg.len(),
        a.id == reg[i].id,
        a.wf(),
    ensures
        manager_wf(reg.update(i, a)),
{
    let regn = reg.update(i, a);
    assert forall|p: int, q: int| 0 <= p < q < regn.len() implies (#[trigger] regn[p].id)
        != (#[trigger] regn[q].id) by {
        assert(regn[p].id == reg[p].id);
        assert(regn[q].id == reg[q].id);
    }
}

/// Removing an entry preserves the registry invariant.
pub proof fn lemma_wf_remove(reg: Seq<AgentV>, i: int)
    requires
        manager_wf(reg),
        0 <= i < reg.len(),
    ensures
        manager_wf(reg.remove(i)),
{
    reg.remove_ensures(i);
    let regn = reg.remove(i);
    assert forall|p: int, q: int| 0 <= p < q < regn.len() implies (#[trigger] regn[p].id)
        != (#[trigger] regn[q].id) by {
        let p0 = if p < i { p } else { p + 1 };
        let q0 = if q < i { q } else { q + 1 };
        assert(regn[p] == reg[p0]);
        assert(regn[q] == reg[q0]);
    }
    assert forall|p: int| 0 <= p < regn.len() implies (#[trigger] regn[p]).wf() by {
        let p0 = if p < i { p } else { p + 1 };
        assert(regn[p] == reg[p0]);
    }
}

/// Appending an entry under a fresh identifier, with a worker that meets
/// its own invariant, preserves the registry invariant.
pub proof fn lemma_wf_push(reg: Seq<AgentV>, a: AgentV)
    requires
        manager_wf(reg),
        !has_id(reg, a.id),
        a.wf(),
    ensures
        manager_wf(reg.push(a)),
{
    let regn = reg.push(a);
    assert forall|p: int, q: int| 0 <= p < q < regn.len() implies (#[trigger] regn[p].id)
        != (#[trigger] regn[q].id) by {
        if q < reg.len() {
            assert(regn[p].id == reg[p].id);
            assert(regn[q].id == reg[q].id);
        } else {
            assert(regn[q] == a);
            assert(regn[p] == reg[p]);
        }
    }
}

/// Manages the lifecycle of subagents: one registry of owned workers. The
/// registry is consulted briefly per operation; a reply round's suspending
/// work happens between calls, so operations on distinct workers never wait
/// on one another here.
#[derive(Debug)]
pub struct SubAgentManager {
    agents: Vec<SubAgent>,
}

impl View for SubAgentManager {
    type V = Seq<AgentV>;

    closed spec fn view(&self) -> Seq<AgentV> {
        agent_views(self.agents@)
    }
}

impl SubAgentManager {
    /// An empty registry.
    pub fn new() -> (r: SubAgentManager)
        ensures
            r@ == Seq::<AgentV>::empty(),
            manager_wf(r@),
    {
        let r = SubAgentManager { agents: Vec::new() };
        proof {
            assert(r@ =~= Seq::<AgentV>::empty());
        }
        r
    }

    /// The number of registered workers.
    pub fn get_active_count(&self) -> (r: usize)
        ensures
            r == self@.len(),
    {
        self.agents.len()
    }

    fn find_index(&self, id: &String) -> (r: Option<usize>)
        ensures
            match r {
                Some(i) => i < self@.len() && self@[i as int].id == id@,
                None => !has_id(self@, id@),
            },
    {
        let mut i: usize = 0;
        while i < self.agents.len()
            invariant
                i <= self.agents.len(),
                forall|j: int| 0 <= j < i ==> (#[trigger] agent_views(self.agents@)[j]).id != id@,
            decreases self.agents.len() - i,
        {
            proof {
                assert(agent_views(self.agents@)[i as int] == self.agents@[i as int]@);
            }
            let a = &self.agents[i];
            if *a.id() == *id {
                return Some(i);
            }
            i = i + 1;
        }
        None
    }

    /// Whether a worker with this identifier is registered.
    pub fn has_subagent(&self, id: &String) -> (r: bool)
        ensures
            r == has_id(self@, id@),
    {
        match self.find_index(id) {
            Some(i) => {
                proof {
                    assert(has_id(self@, id@));
                }
                true
            },
            None => false,
        }
    }

    /// The registered worker with this identifier, if any.
    pub fn get_subagent(&self, id: &String) -> (r: Option<&SubAgent>)
        requires
            manager_wf(self@),
        ensures
            match r {
                Some(a) => has_id(self@, id@) && a@ == agent_with(self@, id@),
                None => !has_id(self@, id@),
            },
    {
        match self.find_index(id) {
            Some(i) => {
                proof {
                    lemma_idx_unique(self@, id@, i as int);
                }
                Some(&self.agents[i])
            },
            None => None,
        }
    }

    /// The identifiers of all registered workers, in registry order.
    pub fn list_subagents(&self) -> (r: Vec<String>)
        ensures
            texts(r@) == ids_of(self@),
    {
        let mut out: Vec<String> = Vec::new();
        let mut i: usize = 0;
        while i < self.agents.len()
            invariant
                i <= self.agents.len(),
                out@.len() == i,
                forall|j: int|
                    0 <= j < i ==> (#[trigger] texts(out@)[j]) == ids_of(agent_views(
                        self.agents@,
                    ))[j],
            decreases self.agents.len() - i,
        {
            let ghost p0 = out@;
            out.push(self.agents[i].id().clone());
            proof {
                assert forall|j: int| 0 <= j < i + 1 implies (#[trigger] texts(out@)[j]) == ids_of(
                    agent_views(self.agents@),
                )[j] by {
                    if j < i {
                        assert(out@[j] == p0[j]);
                        assert(texts(p0)[j] == ids_of(agent_views(self.agents@))[j]);
                    } else {
                        assert(out@[j]@ == self.agents@[i as int]@.id);
                    }
                }
            }
            i = i + 1;
        }
        proof {
            assert(texts(out@) =~= ids_of(self@));
        }
        out
    }

    /// The status of every registered worker, as (identifier, status) pairs
    /// in registry order.
    pub fn get_subagent_status(&self) -> (r: Vec<(String, SubAgentStatus)>)
        ensures
            r@.len() == self@.len(),
            forall|i: int|
                0 <= i < r@.len() ==> (#[trigger] r@[i]).0@ == self@[i].id && r@[i].1@
                    == self@[i].status,
    {
        let mut out: Vec<(String, SubAgentStatus)> = Vec::new();
        let mut i: usize = 0;
        while i < self.agents.len()
            invariant
                i <= self.agents.len(),
                out@.len() == i,
                forall|j: int|
                    0 <= j < i ==> (#[trigger] out@[j]).0@ == agent_views(self.agents@)[j].id
                        && out@[j].1@ == agent_views(self.agents@)[j].status,
            decreases self.agents.len() - i,
        {
            let a = &self.agents[i];
            out.push((a.id().clone(), a.get_status()));
            proof {
                assert(agent_views(self.agents@)[i as int] == self.agents@[i as int]@);
            }
            i = i + 1;
        }
        out
    }

    /// A progress snapshot of every registered worker, as (identifier,
    /// snapshot) pairs in registry order.
    pub fn get_subagent_progress(&self) -> (r: Vec<(String, SubAgentProgress)>)
        ensures
            r@.len() == self@.len(),
            forall|i: int|
                0 <= i < r@.len() ==> (#[trigger] r@[i]).0@ == self@[i].id && progress_matches(
                    r@[i].1,
                    self@[i],
                ),
    {
        let mut out: Vec<(String, SubAgentProgress)> = Vec::new();
        let mut i: usize = 0;
        while i < self.agents.len()
            invariant
                i <= self.agents.len(),
                out@.len() == i,
                forall|j: int|
                    0 <= j < i ==> (#[trigger] out@[j]).0@ == agent_views(self.agents@)[j].id
                        && progress_matches(out@[j].1, agent_views(self.agents@)[j]),
            decreases self.agents.len() - i,
        {
            let a = &self.agents[i];
            out.push((a.id().clone(), a.get_progress()));
            proof {
                assert(agent_views(self.agents@)[i as int] == self.agents@[i as int]@);
            }
            i = i + 1;
        }
        out
    }

    /// Appends a message to an existing worker's conversation without
    /// starting a reply round, and acknowledges; an unknown identifier is
    /// reported, never silently ignored.
    pub fn send_message_to_subagent(&mut self, subagent_id: &String, message: String) -> (r: Result<
        String,
        ManagerError,
    >)
        requires
            manager_wf(old(self)@),
        ensures
            manager_wf(final(self)@),
            ({
                let reg = old(self)@;
                if has_id(reg, subagent_id@) {
                    let i = idx_of(reg, subagent_id@);
                    &&& (r matches Ok(ack) && ack@ == "Message sent to subagent "@ + subagent_id@)
                    &&& final(self)@ == reg.update(
                        i,
                        (AgentV {
                            conversation: reg[i].conversation.push(user_msg(message@)),
                            ..reg[i]
                        }),
                    )
                    &&& has_id(final(self)@, subagent_id@)
                    &&& agent_with(final(self)@, subagent_id@) == (AgentV {
                        conversation: reg[i].conversation.push(user_msg(message@)),
                        ..reg[i]
                    })
                } else {
                    &&& (r matches Err(e) && e matches ManagerError::NotFound(s) && s@
                        == subagent_id@)
                    &&& final(self)@ == reg
                }
            }),
    {
        let ghost reg0 = self@;
        match self.find_index(subagent_id) {
            None => Err(ManagerError::NotFound(subagent_id.clone())),
            Some(i) => {
                proof {
                    lemma_idx_unique(reg0, subagent_id@, i as int);
                }
                let ghost b0 = self.agents@;
                let mut agent = self.agents.remove(i);
                agent.add_message(crate::message::Message::user_text(message));
                self.agents.insert(i, agent);
                proof {
                    assert(self@ =~= reg0.update(i as int, self.agents@[i as int]@));
                    lemma_wf_update(reg0, i as int, self.agents@[i as int]@);
                    lemma_idx_unique(self@, subagent_id@, i as int);
                }
                let mut ack = String::from_str("Message sent to subagent ");
                ack.append(subagent_id.as_str());
                Ok(ack)
            },
        }
    }

    /// Gates and records one caller message against an existing worker: the
    /// first step of a reply round, under the worker's own rules. An unknown
    /// identifier is reported as not found.
    pub fn reply_to_subagent(&mut self, subagent_id: &String, message: String) -> (r: Result<
        (),
        ManagerError,
    >)
        requires
            manager_wf(old(self)@),
            has_id(old(self)@, subagent_id@) ==> agent_with(old(self)@, subagent_id@).turn_count
                < usize::MAX,
        ensures
            manager_wf(final(self)@),
            ({
                let reg = old(self)@;
                if !has_id(reg, subagent_id@) {
                    &&& (r matches Err(e) && e matches ManagerError::NotFound(s) && s@
                        == subagent_id@)
                    &&& final(self)@ == reg
                } else {
                    let i = idx_of(reg, subagent_id@);
                    let a = reg[i];
                    if a.status.is_terminal() {
                        &&& r == Err::<(), ManagerError>(ManagerError::NotAccepting)
                        &&& final(self)@ == reg
                    } else if turns_exhausted(a) {
                        &&& (r matches Err(e) && e == ManagerError::LimitExceeded(budget_of(a)))
                        &&& final(self)@ == reg.update(i, limit_reached(a))
                        &&& has_id(final(self)@, subagent_id@)
                        &&& agent_with(final(self)@, subagent_id@) == limit_reached(a)
                    } else {
                        &&& r == Ok::<(), ManagerError>(())
                        &&& final(self)@ == reg.update(i, accept_reply(a, message@))
                        &&& has_id(final(self)@, subagent_id@)
                        &&& agent_with(final(self)@, subagent_id@) == accept_reply(a, message@)
                    }
                }
            }),
    {
        let ghost reg0 = self@;
        match self.find_index(subagent_id) {
            None => Err(ManagerError::NotFound(subagent_id.clone())),
            Some(i) => {
                proof {
                    lemma_idx_unique(reg0, subagent_id@, i as int);
                }
                let mut agent = self.agents.remove(i);
                let res = agent.start_reply(message);
                self.agents.insert(i, agent);
                proof {
                    assert(self@ =~= reg0.update(i as int, self.agents@[i as int]@));
                    lemma_wf_update(reg0, i as int, self.agents@[i as int]@);
                    lemma_idx_unique(self@, subagent_id@, i as int);
                }
                match res {
                    Ok(()) => Ok(()),
                    Err(ReplyError::LimitExceeded(m)) => Err(ManagerError::LimitExceeded(m)),
                    Err(ReplyError::NotAccepting) => {
                        proof {
                            assert(self@ =~= reg0);
                        }
                        Err(ManagerError::NotAccepting)
                    },
                }
            },
        }
    }

    /// Takes the provider's outcome for the round in flight on an existing
    /// worker. An unknown identifier is reported as not found; a worker not
    /// in a processing round takes no event.
    pub fn resolve_provider_for(&mut self, subagent_id: &String, outcome: ProviderOutcome) -> (r:
        Result<ReplyStep, ManagerError>)
        requires
            manager_wf(old(self)@),
        ensures
            manager_wf(final(self)@),
            ({
                let reg = old(self)@;
                if !has_id(reg, subagent_id@) {
                    &&& (r matches Err(e) && e matches ManagerError::NotFound(s) && s@
                        == subagent_id@)
                    &&& final(self)@ == reg
                } else {
                    let i = idx_of(reg, subagent_id@);
                    let a = reg[i];
                    if a.status == StatusV::Processing {
                        &&& (r matches Ok(step) && provider_reply_step(outcome, step))
                        &&& final(self)@ == reg.update(i, provider_transition(a, outcome))
                        &&& has_id(final(self)@, subagent_id@)
                        &&& agent_with(final(self)@, subagent_id@) == provider_transition(a, outcome)
                    } else {
                        &&& r matches Err(e) && e == ManagerError::NotAccepting
                        &&& final(self)@ == reg
                    }
                }
            }),
    {
        let ghost reg0 = self@;
        match self.find_index(subagent_id) {
            None => Err(ManagerError::NotFound(subagent_id.clone())),
            Some(i) => {
                proof {
                    lemma_idx_unique(reg0, subagent_id@, i as int);
                }
                let processing = match self.agents[i].get_status() {
                    SubAgentStatus::Processing => true,
                    _ => false,
                };
                if !processing {
                    return Err(ManagerError::NotAccepting);
                }
                let mut agent = self.agents.remove(i);
                let step = agent.resolve_provider(outcome);
                self.agents.insert(i, agent);
                proof {
                    assert(self@ =~= reg0.update(i as int, self.agents@[i as int]@));
                    lemma_wf_update(reg0, i as int, self.agents@[i as int]@);
                    lemma_idx_unique(self@, subagent_id@, i as int);
                }
                Ok(step)
            },
        }
    }

    /// Records one tool dispatch outcome against the round in flight on an
    /// existing worker.
    pub fn resolve_tool_for(&mut self, subagent_id: &String, outcome: ToolOutcome) -> (r: Result<
        (),
        ManagerError,
    >)
        requires
            manager_wf(old(self)@),
        ensures
            manager_wf(final(self)@),
            ({
                let reg = old(self)@;
                if !has_id(reg, subagent_id@) {
                    &&& (r matches Err(e) && e matches ManagerError::NotFound(s) && s@
                        == subagent_id@)
                    &&& final(self)@ == reg
                } else {
                    let i = idx_of(reg, subagent_id@);
                    let a = reg[i];
                    if a.status == StatusV::Processing {
                        &&& r == Ok::<(), ManagerError>(())
                        &&& final(self)@ == reg.update(i, tool_transition(a, outcome))
                        &&& has_id(final(self)@, subagent_id@)
                        &&& agent_with(final(self)@, subagent_id@) == tool_transition(a, outcome)
                    } else {
                        &&& r matches Err(e) && e == ManagerError::NotAccepting
                        &&& final(self)@ == reg
                    }
                }
            }),
    {
        let ghost reg0 = self@;
        match self.find_index(subagent_id) {
            None => Err(ManagerError::NotFound(subagent_id.clone())),
            Some(i) => {
                proof {
                    lemma_idx_unique(reg0, subagent_id@, i as int);
                }
                let processing = match self.agents[i].get_status() {
                    SubAgentStatus::Processing => true,
                    _ => false,
                };
                if !processing {
                    return Err(ManagerError::NotAccepting);
                }
                let mut agent = self.agents.remove(i);
                agent.resolve_tool(outcome);
                self.agents.insert(i, agent);
                proof {
                    assert(self@ =~= reg0.update(i as int, self.agents@[i as int]@));
                    lemma_wf_update(reg0, i as int, self.agents@[i as int]@);
                    lemma_idx_unique(self@, subagent_id@, i as int);
                }
                Ok(())
            },
        }
    }

    /// Terminates one worker: its status becomes `Terminated` and its
    /// registry entry is removed. Terminating an unknown identifier is a
    /// reported error, never a silent success.
    pub fn terminate_subagent(&mut self, id: &String) -> (r: Result<(), ManagerError>)
        requires
            manager_wf(old(self)@),
        ensures
            manager_wf(final(self)@),
            ({
                let reg = old(self)@;
                if has_id(reg, id@) {
                    &&& r == Ok::<(), ManagerError>(())
                    &&& final(self)@ == reg.remove(idx_of(reg, id@))
                } else {
                    &&& (r matches Err(e) && e matches ManagerError::NotFound(s) && s@ == id@)
                    &&& final(self)@ == reg
                }
            }),
    {
        let ghost reg0 = self@;
        match self.find_index(id) {
            None => Err(ManagerError::NotFound(id.clone())),
            Some(i) => {
                proof {
                    lemma_idx_unique(reg0, id@, i as int);
                }
                let mut agent = self.agents.remove(i);
                agent.terminate();
                proof {
                    assert(self@ =~= reg0.remove(i as int));
                    lemma_wf_remove(reg0, i as int);
                }
                Ok(())
            },
        }
    }

    /// Terminates every registered worker and empties the registry; the
    /// count of retired workers is returned.
    pub fn terminate_all_subagents(&mut self) -> (r: usize)
        requires
            manager_wf(old(self)@),
        ensures
            manager_wf(final(self)@),
            final(self)@ == Seq::<AgentV>::empty(),
            r == old(self)@.len(),
    {
        let count = self.agents.len();
        while self.agents.len() > 0
            decreases self.agents.len(),
        {
            let popped = self.agents.pop();
            match popped {
                Some(mut agent) => {
                    agent.terminate();
                },
                None => {},
            }
        }
        proof {
            assert(self@ =~= Seq::<AgentV>::empty());
        }
        count
    }

    /// Sweeps the registry: every worker in a terminal status — completed,
    /// failed or terminated — is removed, every other worker stays, in
    /// order; the exact count removed is returned.
    pub fn cleanup_completed_subagents(&mut self) -> (r: usize)
        requires
            manager_wf(old(self)@),
        ensures
            manager_wf(final(self)@),
            final(self)@ == live_agents(old(self)@),
            r == old(self)@.len() - final(self)@.len(),
    {
        let ghost orig = self@;
        let before = self.agents.len();
        let mut i: usize = 0;
        let mut p: usize = 0;
        while i < self.agents.len()
            invariant
                manager_wf(agent_views(self.agents@)),
                orig.len() <= usize::MAX,
                p <= orig.len(),
                i <= self.agents.len(),
                self.agents@.len() - i == orig.len() - p,
                i == live_agents(orig.take(p as int)).len(),
                agent_views(self.agents@) == live_agents(orig.take(p as int)) + orig.skip(p as int),
            decreases self.agents.len() - i,
        {
            proof {
                lemma_live_step(orig, p as int);
                assert(agent_views(self.agents@)[i as int] == orig.skip(p as int)[0]);
                assert(orig.skip(p as int)[0] == orig[p as int]);
            }
            let ghost b0 = self.agents@;
            if self.agents[i].is_completed() {
                let mut dead = self.agents.remove(i);
                dead.terminate();
                proof {
                    lemma_wf_remove(agent_views(b0), i as int);
                    assert(agent_views(self.agents@) =~= agent_views(b0).remove(i as int));
                    assert(agent_views(self.agents@) =~= live_agents(orig.take(p + 1 as int))
                        + orig.skip(p + 1 as int));
                }
            } else {
                proof {
                    assert(live_agents(orig.take(p + 1 as int)) =~= live_agents(
                        orig.take(p as int),
                    ).push(orig[p as int]));
                    assert(agent_views(self.agents@) =~= live_agents(orig.take(p + 1 as int))
                        + orig.skip(p + 1 as int));
                }
                i = i + 1;
            }
            p = p + 1;
        }
        proof {
            assert(orig.take(p as int) =~= orig);
            assert(orig.skip(p as int) =~= Seq::<AgentV>::empty());
            assert(agent_views(self.agents@) =~= live_agents(orig));
        }
        before - self.agents.len()
    }

    /// The rendered conversation of an existing worker; an unknown
    /// identifier is reported as not found.
    pub fn get_subagent_conversation(&self, id: &String) -> (r: Result<String, ManagerError>)
        requires
            manager_wf(self@),
        ensures
            ({
                if has_id(self@, id@) {
                    r matches Ok(text) && text@ == crate::render::formatted_conversation_text(
                        agent_with(self@, id@),
                    )
                } else {
                    r matches Err(e) && e matches ManagerError::NotFound(s) && s@ == id@
                }
            }),
    {
        match self.get_subagent(id) {
            Some(agent) => Ok(agent.get_formatted_conversation()),
            None => Err(ManagerError::NotFound(id.clone())),
        }
    }

    /// Spawns a worker: builds its configuration from the request and the
    /// loaded recipe, partitions the recipe's extensions against the host's
    /// enabled set, accepts the initial message, and registers the worker.
    /// If the initial message is refused — a turn budget of zero — nothing
    /// is registered and the error is returned: no half-initialized worker
    /// remains.
    pub fn spawn_interactive_subagent(
        &mut self,
        args: SpawnSubAgentArgs,
        recipe: Recipe,
        enabled_extensions: &Vec<String>,
    ) -> (r: Result<String, ManagerError>)
        requires
            manager_wf(old(self)@),
        ensures
            manager_wf(final(self)@),
            ({
                if args.max_turns == Some(0usize) {
                    &&& (r matches Err(e) && e == ManagerError::LimitExceeded(0))
                    &&& final(self)@ == old(self)@
                } else {
                    r matches Ok(id) && has_id(final(self)@, id@) && ({
                        let a = agent_with(final(self)@, id@);
                        &&& final(self)@ == upsert(old(self)@, a)
                        &&& a.id == id@
                        &&& a.recipe == recipe@
                        &&& a.max_turns == args.max_turns
                        &&& a.timeout_seconds == args.timeout_seconds
                        &&& a.status == StatusV::Processing
                        &&& a.turn_count == 1
                        &&& a.conversation == seq![user_msg(args.message@)]
                        &&& a.recipe_extensions == present_split(
                            declared_extensions(recipe@),
                            texts(enabled_extensions@),
                        )
                        &&& a.missing_extensions == missing_split(
                            declared_extensions(recipe@),
                            texts(enabled_extensions@),
                        )
                    })
                }
            }),
    {
        let ghost reg0 = self@;
        let mut config = SubAgentConfig::new(recipe);
        match args.max_turns {
            Some(m) => {
                config = config.with_max_turns(m);
            },
            None => {},
        }
        match args.timeout_seconds {
            Some(t) => {
                config = config.with_timeout(t);
            },
            None => {},
        }
        let mut agent = SubAgent::new(config, enabled_extensions);
        let id = agent.id().clone();
        match agent.start_reply(args.message) {
            Ok(()) => {
                proof {
                    assert(agent@.conversation =~= seq![user_msg(args.message@)]);
                }
                match self.find_index(&id) {
                    Some(i) => {
                        proof {
                            lemma_idx_unique(reg0, id@, i as int);
                        }
                        let ghost b0 = self.agents@;
                        let _displaced = self.agents.remove(i);
                        self.agents.insert(i, agent);
                        proof {
                            assert(self@ =~= reg0.update(i as int, self.agents@[i as int]@));
                            lemma_wf_update(reg0, i as int, self.agents@[i as int]@);
                            lemma_idx_unique(self@, id@, i as int);
                        }
                    },
                    None => {
                        let ghost a2 = agent@;
                        self.agents.push(agent);
                        proof {
                            assert(self@ =~= reg0.push(a2));
                            lemma_wf_push(reg0, a2);
                            lemma_idx_unique(self@, id@, reg0.len() as int);
                        }
                    },
                }
                Ok(id)
            },
            Err(ReplyError::LimitExceeded(m)) => Err(ManagerError::LimitExceeded(m)),
            Err(ReplyError::NotAccepting) => Err(ManagerError::NotAccepting),
        }
    }
}

/// The registry after a series of workers is put in, in order.
pub open spec fn register_all(reg: Seq<AgentV>, spawned: Seq<AgentV>) -> Seq<AgentV>
    decreases spawned.len(),
{
    if spawned.len() == 0 {
        reg
    } else {
        upsert(register_all(reg, spawned.drop_last()), spawned.last())
    }
}

/// Law (spawn listing): spawning a series of workers under fresh, pairwise
/// distinct identifiers appends exactly those workers. The registry grows
/// by their number, stays well formed, keeps every prior entry, and
/// resolves every spawned identifier to its worker.
pub proof fn law_spawn_all_listed(reg: Seq<AgentV>, spawned: Seq<AgentV>)
    requires
        manager_wf(reg),
        forall|i: int, j: int|
            0 <= i < j < spawned.len() ==> (#[trigger] spawned[i].id) != (#[trigger] spawned[j].id),
        forall|i: int| 0 <= i < spawned.len() ==> !has_id(reg, (#[trigger] spawned[i]).id),
        forall|i: int| 0 <= i < spawned.len() ==> (#[trigger] spawned[i]).wf(),
    ensures
        register_all(reg, spawned) == reg + spawned,
        register_all(reg, spawned).len() == reg.len() + spawned.len(),
        manager_wf(register_all(reg, spawned)),
        ids_of(register_all(reg, spawned)) == ids_of(reg) + ids_of(spawned),
        forall|i: int|
            0 <= i < spawned.len() ==> has_id(register_all(reg, spawned), (#[trigger] spawned[i]).id)
                && agent_with(register_all(reg, spawned), spawned[i].id) == spawned[i],
    decreases spawned.len(),
{
    if spawned.len() == 0 {
        assert(reg + spawned =~= reg);
        assert(ids_of(reg) + ids_of(spawned) =~= ids_of(reg));
    } else {
        let head = spawned.drop_last();
        let last = spawned.last();
        law_spawn_all_listed(reg, head);
        let mid = register_all(reg, head);
        assert(mid == reg + head);
        assert forall|k: int| 0 <= k < mid.len() implies (#[trigger] mid[k].id) != last.id by {
            if k < reg.len() {
                assert(mid[k] == reg[k]);
                assert(!has_id(reg, last.id));
            } else {
                assert(mid[k] == head[k - reg.len()]);
                assert(spawned[k - reg.len()].id != spawned[spawned.len() - 1].id);
            }
        }
        assert(!has_id(mid, last.id));
        assert(register_all(reg, spawned) == mid.push(last));
        assert(mid.push(last) =~= reg + spawned);
        lemma_wf_push(mid, last);
        assert(manager_wf(reg + spawned));
        assert(ids_of(register_all(reg, spawned)) =~= ids_of(reg) + ids_of(spawned));
        let all = register_all(reg, spawned);
        assert forall|i: int| 0 <= i < spawned.len() implies has_id(all, (#[trigger] spawned[i]).id)
            && agent_with(all, spawned[i].id) == spawned[i] by {
            assert(all[reg.len() + i] == spawned[i]);
            lemma_idx_unique(all, spawned[i].id, reg.len() + i);
        }
    }
}

/// Law (terminate, then reply): terminating a worker removes its entry, so
/// any further operation against its identifier finds nothing — and is
/// therefore reported as not found, never processed.
pub proof fn law_terminate_then_reply_not_found(reg: Seq<AgentV>, id: Seq<char>)
    requires
        manager_wf(reg),
        has_id(reg, id),
    ensures
        !has_id(reg.remove(idx_of(reg, id)), id),
{
    let i = idx_of(reg, id);
    assert(0 <= i < reg.len() && reg[i].id == id);
    reg.remove_ensures(i);
    let regn = reg.remove(i);
    assert forall|j: int| 0 <= j < regn.len() implies (#[trigger] regn[j]).id != id by {
        if j < i {
            assert(regn[j] == reg[j]);
            assert(reg[j].id != reg[i].id);
        } else {
            assert(regn[j] == reg[j + 1]);
            assert(reg[i].id != reg[j + 1].id);
        }
    }
}

/// Law (cleanup): the sweep keeps exactly the workers not in a terminal
/// status — everything it keeps is live, everything live is kept, and
/// nothing is added.
pub proof fn law_cleanup_keeps_live(reg: Seq<AgentV>)
    ensures
        forall|i: int|
            0 <= i < live_agents(reg).len() ==> !(#[trigger] live_agents(
                reg,
            )[i]).status.is_terminal(),
        forall|i: int|
            0 <= i < reg.len() && !reg[i].status.is_terminal() ==> live_agents(reg).contains(
                #[trigger] reg[i],
            ),
        live_agents(reg).len() <= reg.len(),
{
    reg.filter_lemma(|a: AgentV| !a.status.is_terminal());
}

proof fn lemma_live_step(s: Seq<AgentV>, p: int)
    requires
        0 <= p < s.len(),
    ensures
        s[p].status.is_terminal() ==> live_agents(s.take(p + 1)) == live_agents(s.take(p)),
        !s[p].status.is_terminal() ==> live_agents(s.take(p + 1)) == live_agents(s.take(p)).push(
            s[p],
        ),
{
    reveal_with_fuel(Seq::<AgentV>::filter, 2);
    assert(s.take(p + 1).drop_last() =~= s.take(p));
    assert(s.take(p + 1).last() == s[p]);
    assert(s.take(p + 1).len() == p + 1);
}

} // verus!
