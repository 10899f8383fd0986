//! One subagent worker: its configuration, lifecycle status, conversation,
//! turn budget, and the reply state machine that drives a processing round.
//!
//! A reply round is event-driven: [`SubAgent::start_reply`] gates and
//! records the caller's message, [`SubAgent::resolve_provider`] takes the
//! completion provider's outcome, and [`SubAgent::resolve_tool`] records one
//! tool dispatch result. The caller performs the suspending work (the
//! provider call, the tool dispatch) between events.

use vstd::prelude::*;
use crate::Role;
use crate::clock::now_unix_seconds;
use crate::errors::ReplyError;
use crate::ids::fresh_id;
use crate::message::{Message, MsgV, user_msg, assistant_msg};
use crate::recipe::{Recipe, RecipeV};
use crate::text::{contains_text, texts, glued};

verus! {

/// Ghost view of a worker's lifecycle status.
pub enum StatusV {
    Initializing,
    Ready,
    Processing,
    WaitingForInput,
    Completed(Seq<char>),
    Failed(Seq<char>),
    Terminated,
}

impl StatusV {
    /// Terminal statuses accept no further processing transition.
    pub open spec fn is_terminal(self) -> bool {
        match self {
            StatusV::Completed(_) => true,
            StatusV::Failed(_) => true,
            StatusV::Terminated => true,
            _ => false,
        }
    }
}

/// Lifecycle status of a subagent. Once a terminal status — `Completed`,
/// `Failed` or `Terminated` — is reached, no further message is accepted;
/// `Terminated` may still be set externally from any other status.
#[derive(Clone, Debug, PartialEq, Eq)]
pub enum SubAgentStatus {
    Initializing,
    Ready,
    Processing,
    WaitingForInput,
    Completed(String),
    Failed(String),
    Terminated,
}

impl View for SubAgentStatus {
    type V = StatusV;

    open spec fn view(&self) -> StatusV {
        match self {
            SubAgentStatus::Initializing => StatusV::Initializing,
            SubAgentStatus::Ready => StatusV::Ready,
            SubAgentStatus::Processing => StatusV::Processing,
            SubAgentStatus::WaitingForInput => StatusV::WaitingForInput,
            SubAgentStatus::Completed(reason) => StatusV::Completed(reason@),
            SubAgentStatus::Failed(reason) => StatusV::Failed(reason@),
            SubAgentStatus::Terminated => StatusV::Terminated,
        }
    }
}

impl SubAgentStatus {
    /// Whether this status is terminal.
    pub fn is_terminal(&self) -> (r: bool)
        ensures
            r == self@.is_terminal(),
    {
        match self {
            SubAgentStatus::Completed(_) => true,
            SubAgentStatus::Failed(_) => true,
            SubAgentStatus::Terminated => true,
            _ => false,
        }
    }

    /// An owned copy of this status.
    pub fn duplicate(&self) -> (r: SubAgentStatus)
        ensures
            r@ == self@,
    {
        match self {
            SubAgentStatus::Initializing => SubAgentStatus::Initializing,
            SubAgentStatus::Ready => SubAgentStatus::Ready,
            SubAgentStatus::Processing => SubAgentStatus::Processing,
            SubAgentStatus::WaitingForInput => SubAgentStatus::WaitingForInput,
            SubAgentStatus::Completed(reason) => SubAgentStatus::Completed(reason.clone()),
            SubAgentStatus::Failed(reason) => SubAgentStatus::Failed(reason.clone()),
            SubAgentStatus::Terminated => SubAgentStatus::Terminated,
        }
    }
}

/// Configuration of a subagent: immutable after construction.
#[derive(Clone, Debug)]
pub struct SubAgentConfig {
    pub id: String,
    pub recipe: Recipe,
    pub max_turns: Option<usize>,
    pub timeout_seconds: Option<u64>,
}

impl SubAgentConfig {
    /// A configuration for the given recipe, under a freshly generated
    /// identifier, with no turn budget and no timeout.
    pub fn new(recipe: Recipe) -> (r: SubAgentConfig)
        ensures
            r.recipe == recipe,
            r.max_turns is None,
            r.timeout_seconds is None,
            r.id@.len() == 36,
    {
        SubAgentConfig { id: fresh_id(), recipe, max_turns: None, timeout_seconds: None }
    }

    /// The same configuration with a turn budget.
    pub fn with_max_turns(self, max_turns: usize) -> (r: SubAgentConfig)
        ensures
            r.id == self.id,
            r.recipe == self.recipe,
            r.max_turns == Some(max_turns),
            r.timeout_seconds == self.timeout_seconds,
    {
        SubAgentConfig { max_turns: Some(max_turns), ..self }
    }

    /// The same configuration with a wall-clock bound, in seconds, on a
    /// processing round.
    pub fn with_timeout(self, timeout_seconds: u64) -> (r: SubAgentConfig)
        ensures
            r.id == self.id,
            r.recipe == self.recipe,
            r.max_turns == self.max_turns,
            r.timeout_seconds == Some(timeout_seconds),
    {
        SubAgentConfig { timeout_seconds: Some(timeout_seconds), ..self }
    }
}

/// Ghost view of one worker.
pub struct AgentV {
    pub id: Seq<char>,
    pub recipe: RecipeV,
    pub max_turns: Option<usize>,
    pub timeout_seconds: Option<u64>,
    pub status: StatusV,
    pub conversation: Seq<MsgV>,
    pub turn_count: nat,
    pub created_at: int,
    pub recipe_extensions: Seq<Seq<char>>,
    pub missing_extensions: Seq<Seq<char>>,
}

impl AgentV {
    /// The structural invariant: the turn counter never passes the budget.
    pub open spec fn wf(self) -> bool {
        match self.max_turns {
            Some(m) => self.turn_count <= m,
            None => true,
        }
    }
}

/// The views of a sequence of conversation entries.
pub open spec fn msg_views(s: Seq<Message>) -> Seq<MsgV> {
    s.map_values(|m: Message| m@)
}

/// A point-in-time snapshot of a worker's progress, derived on demand and
/// never stored.
#[derive(Clone, Debug, PartialEq, Eq)]
pub struct SubAgentProgress {
    pub subagent_id: String,
    pub status: SubAgentStatus,
    pub message: String,
    pub turn: usize,
    pub max_turns: Option<usize>,
    pub timestamp: i64,
}

/// Whether a progress snapshot reports a worker faithfully: everything but
/// the timestamp, which is a clock reading.
pub open spec fn progress_matches(p: SubAgentProgress, a: AgentV) -> bool {
    &&& p.subagent_id@ == a.id
    &&& p.status@ == a.status
    &&& p.message@ == progress_message(a.status)
    &&& p.turn == a.turn_count
    &&& p.max_turns == a.max_turns
}

/// The human-readable progress message for a status.
pub open spec fn progress_message(s: StatusV) -> Seq<char> {
    match s {
        StatusV::Initializing => "Initializing"@,
        StatusV::Ready => "Ready to process messages"@,
        StatusV::Processing => "Processing request..."@,
        StatusV::WaitingForInput => "Waiting for input"@,
        StatusV::Completed(reason) => reason,
        StatusV::Failed(reason) => reason,
        StatusV::Terminated => "Subagent terminated"@,
    }
}

/// One tool invocation requested by a model response, in emission order.
#[derive(Clone, Debug, PartialEq, Eq)]
pub struct ToolCallReq {
    pub id: String,
    pub name: String,
    pub arguments: String,
}

/// What the completion provider answered: the assistant message, and the
/// tool invocations embedded in it, in emission order.
#[derive(Clone, Debug, PartialEq, Eq)]
pub struct ModelResponse {
    pub message: Message,
    pub tool_calls: Vec<ToolCallReq>,
}

/// Outcome of one completion call, as the caller observed it.
#[derive(Clone, Debug, PartialEq, Eq)]
pub enum ProviderOutcome {
    Success(ModelResponse),
    ContextLengthExceeded(String),
    RateLimitExceeded(String),
    Other(String),
}

/// Outcome of one tool dispatch: the rendered result content, or the
/// rendered error.
#[derive(Clone, Debug, PartialEq, Eq)]
pub enum ToolOutcome {
    Success(String),
    Failure(String),
}

/// What a reply round needs next after a provider outcome: it is finished
/// with this message, or these tool calls must be dispatched in order and
/// the provider then invoked again.
#[derive(Clone, Debug, PartialEq, Eq)]
pub enum ReplyStep {
    Finished(Message),
    ToolsPending(Vec<ToolCallReq>),
}

/// The extension names a recipe declares.
pub open spec fn declared_extensions(r: RecipeV) -> Seq<Seq<char>> {
    match r.extensions {
        Some(v) => v,
        None => Seq::<Seq<char>>::empty(),
    }
}

/// The declared extensions that the host has enabled, in declaration order.
pub open spec fn present_split(declared: Seq<Seq<char>>, enabled: Seq<Seq<char>>) -> Seq<
    Seq<char>,
> {
    declared.filter(|e: Seq<char>| contains_text(enabled, e))
}

/// The declared extensions that the host has not enabled, in declaration
/// order.
pub open spec fn missing_split(declared: Seq<Seq<char>>, enabled: Seq<Seq<char>>) -> Seq<
    Seq<char>,
> {
    declared.filter(|e: Seq<char>| !contains_text(enabled, e))
}

proof fn lemma_split_step(s: Seq<Seq<char>>, i: int, enabled: Seq<Seq<char>>)
    requires
        0 <= i < s.len(),
    ensures
        contains_text(enabled, s[i]) ==> present_split(s.take(i + 1), enabled) == present_split(
            s.take(i),
            enabled,
        ).push(s[i]) && missing_split(s.take(i + 1), enabled) == missing_split(s.take(i), enabled),
        !contains_text(enabled, s[i]) ==> missing_split(s.take(i + 1), enabled) == missing_split(
            s.take(i),
            enabled,
        ).push(s[i]) && present_split(s.take(i + 1), enabled) == present_split(s.take(i), enabled),
{
    reveal_with_fuel(Seq::<Seq<char>>::filter, 2);
    assert(s.take(i + 1).drop_last() =~= s.take(i));
    assert(s.take(i + 1).last() == s[i]);
    assert(s.take(i + 1).len() == i + 1);
}

/// Whether a worker accepts a new message: it is not in a terminal status,
/// and its turn budget, when set, is not yet spent.
pub open spec fn reply_gate(a: AgentV) -> bool {
    &&& !a.status.is_terminal()
    &&& match a.max_turns {
        Some(m) => a.turn_count < m,
        None => true,
    }
}

/// Whether the turn budget is set and spent.
pub open spec fn turns_exhausted(a: AgentV) -> bool {
    match a.max_turns {
        Some(m) => a.turn_count >= m,
        None => false,
    }
}

/// The worker's turn budget where it has one, and zero where it has none.
pub open spec fn budget_of(a: AgentV) -> usize {
    match a.max_turns {
        Some(m) => m,
        None => 0,
    }
}

/// The completion reason recorded when the turn budget is spent.
pub open spec fn limit_reason() -> Seq<char> {
    "Maximum turns exceeded"@
}

/// The worker after accepting a message: the message appended, the turn
/// counted, the status `Processing`.
pub open spec fn accept_reply(a: AgentV, text: Seq<char>) -> AgentV {
    AgentV {
        conversation: a.conversation.push(user_msg(text)),
        turn_count: (a.turn_count + 1) as nat,
        status: StatusV::Processing,
        ..a
    }
}

/// The worker after refusing a message for a spent budget.
pub open spec fn limit_reached(a: AgentV) -> AgentV {
    AgentV { status: StatusV::Completed(limit_reason()), ..a }
}

/// The in-band assistant text returned when the provider reports that the
/// context length is exceeded.
pub open spec fn context_exceeded_reply() -> Seq<char> {
    "The context length of the model has been exceeded. Please start a new session and try again."@
}

/// The in-band assistant text returned when the provider reports a rate
/// limit.
pub open spec fn rate_limited_reply() -> Seq<char> {
    "Rate limit exceeded. Please try again later."@
}

/// The in-band assistant text returned for any other provider error.
pub open spec fn provider_error_reply(err: Seq<char>) -> Seq<char> {
    "Ran into this error: "@ + err
        + ".\n\nPlease retry if you think this is a transient or recoverable error."@
}

/// The worker after a round ends with a final response: the response
/// appended, the status back to `Ready`.
pub open spec fn round_finished(a: AgentV, response: MsgV) -> AgentV {
    AgentV { conversation: a.conversation.push(response), status: StatusV::Ready, ..a }
}

/// The worker after the provider reported an exceeded context length.
pub open spec fn round_context_exceeded(a: AgentV) -> AgentV {
    AgentV { status: StatusV::Completed("Context length exceeded"@), ..a }
}

/// The worker after the provider reported a rate limit.
pub open spec fn round_rate_limited(a: AgentV) -> AgentV {
    AgentV { status: StatusV::Completed("Rate limit exceeded"@), ..a }
}

/// The worker after any other provider error.
pub open spec fn round_failed(a: AgentV, err: Seq<char>) -> AgentV {
    AgentV { status: StatusV::Failed("Error: "@ + err), ..a }
}

/// The conversation entry recording a successful tool dispatch.
pub open spec fn tool_success_text(content: Seq<char>) -> Seq<char> {
    "Tool response: "@ + content
}

/// The conversation entry recording a failed tool dispatch; the failure is
/// recorded, never fatal to the round.
pub open spec fn tool_failure_text(err: Seq<char>) -> Seq<char> {
    "Tool error: "@ + err
}

/// The worker after one tool dispatch is recorded: the entry appended, the
/// round still in flight.
pub open spec fn tool_recorded(a: AgentV, entry: Seq<char>) -> AgentV {
    AgentV { conversation: a.conversation.push(user_msg(entry)), ..a }
}

/// The worker after taking a provider outcome for a round in flight: a
/// success without tool calls finishes the round, one with tool calls
/// changes nothing yet, and each provider error records its terminal
/// status.
pub open spec fn provider_transition(a: AgentV, outcome: ProviderOutcome) -> AgentV {
    match outcome {
        ProviderOutcome::Success(resp) => if resp.tool_calls@.len() == 0 {
            round_finished(a, resp.message@)
        } else {
            a
        },
        ProviderOutcome::ContextLengthExceeded(_) => round_context_exceeded(a),
        ProviderOutcome::RateLimitExceeded(_) => round_rate_limited(a),
        ProviderOutcome::Other(err) => round_failed(a, err@),
    }
}

/// What a reply round hands back for a provider outcome: the final message
/// (the response, or the in-band error text), or the tool calls still to
/// dispatch.
pub open spec fn provider_reply_step(outcome: ProviderOutcome, r: ReplyStep) -> bool {
    match outcome {
        ProviderOutcome::Success(resp) => if resp.tool_calls@.len() == 0 {
            r matches ReplyStep::Finished(m) && m@ == resp.message@
        } else {
            r matches ReplyStep::ToolsPending(calls) && calls@ == resp.tool_calls@
        },
        ProviderOutcome::ContextLengthExceeded(_) => r matches ReplyStep::Finished(m) && m@
            == assistant_msg(context_exceeded_reply()),
        ProviderOutcome::RateLimitExceeded(_) => r matches ReplyStep::Finished(m) && m@
            == assistant_msg(rate_limited_reply()),
        ProviderOutcome::Other(err) => r matches ReplyStep::Finished(m) && m@ == assistant_msg(
            provider_error_reply(err@),
        ),
    }
}

/// The worker after one tool outcome is recorded.
pub open spec fn tool_transition(a: AgentV, outcome: ToolOutcome) -> AgentV {
    match outcome {
        ToolOutcome::Success(content) => tool_recorded(a, tool_success_text(content@)),
        ToolOutcome::Failure(err) => tool_recorded(a, tool_failure_text(err@)),
    }
}

/// The system prompt a worker hands the provider: the fixed preamble, the
/// names of its enabled extensions, and the recipe's instructions.
pub open spec fn system_prompt_text(a: AgentV) -> Seq<char> {
    "You are a helpful subagent that was spawned by goose. You converse with goose and can use the following tools: "@
        + glued(a.recipe_extensions, ", "@) + "\n\n"@ + (match a.recipe.instructions {
        Some(s) => s,
        None => Seq::<char>::empty(),
    })
}

/// One worker's state. The manager owns these; exclusive access during an
/// event stands in for the per-instance lock of a concurrent host.
#[derive(Debug)]
pub struct SubAgent {
    pub config: SubAgentConfig,
    conversation: Vec<Message>,
    status: SubAgentStatus,
    turn_count: usize,
    created_at: i64,
    recipe_extensions: Vec<String>,
    missing_extensions: Vec<String>,
}

impl View for SubAgent {
    type V = AgentV;

    closed spec fn view(&self) -> AgentV {
        AgentV {
            id: self.config.id@,
            recipe: self.config.recipe@,
            max_turns: self.config.max_turns,
            timeout_seconds: self.config.timeout_seconds,
            status: self.status@,
            conversation: msg_views(self.conversation@),
            turn_count: self.turn_count as nat,
            created_at: self.created_at as int,
            recipe_extensions: texts(self.recipe_extensions@),
            missing_extensions: texts(self.missing_extensions@),
        }
    }
}

impl SubAgent {
    /// A worker built from its configuration. The recipe's declared
    /// extensions are partitioned against the host's enabled set: the ones
    /// present become the worker's toolset, the absent ones are recorded as
    /// missing and never cause a failure.
    pub fn new(config: SubAgentConfig, enabled_extensions: &Vec<String>) -> (r: SubAgent)
        ensures
            r@.wf(),
            r@.id == config.id@,
            r@.recipe == config.recipe@,
            r@.max_turns == config.max_turns,
            r@.timeout_seconds == config.timeout_seconds,
            r@.status == StatusV::Ready,
            r@.conversation == Seq::<MsgV>::empty(),
            r@.turn_count == 0,
            r@.recipe_extensions == present_split(
                declared_extensions(config.recipe@),
                texts(enabled_extensions@),
            ),
            r@.missing_extensions == missing_split(
                declared_extensions(config.recipe@),
                texts(enabled_extensions@),
            ),
    {
        let ghost enabled = texts(enabled_extensions@);
        let ghost declared = declared_extensions(config.recipe@);
        let mut present: Vec<String> = Vec::new();
        let mut missing: Vec<String> = Vec::new();
        match &config.recipe.extensions {
            Some(exts) => {
                let mut i: usize = 0;
                while i < exts.len()
                    invariant
                        i <= exts.len(),
                        enabled == texts(enabled_extensions@),
                        declared == texts(exts@),
                        texts(present@) == present_split(declared.take(i as int), enabled),
                        texts(missing@) == missing_split(declared.take(i as int), enabled),
                    decreases exts.len() - i,
                {
                    proof {
                        assert(declared[i as int] == exts@[i as int]@);
                        lemma_split_step(declared, i as int, enabled);
                    }
                    if crate::text::list_contains(enabled_extensions, &exts[i]) {
                        let ghost p0 = present@;
                        present.push(exts[i].clone());
                        proof {
                            assert(texts(present@) =~= texts(p0).push(declared[i as int]));
                        }
                    } else {
                        let ghost m0 = missing@;
                        missing.push(exts[i].clone());
                        proof {
                            assert(texts(missing@) =~= texts(m0).push(declared[i as int]));
                        }
                    }
                    i = i + 1;
                }
                proof {
                    assert(declared.take(exts@.len() as int) =~= declared);
                }
            },
            None => {
                proof {
                    assert(declared =~= Seq::<Seq<char>>::empty());
                    assert(texts(present@) =~= present_split(declared, enabled));
                    assert(texts(missing@) =~= missing_split(declared, enabled));
                }
            },
        }
        let created_at = now_unix_seconds();
        let r = SubAgent {
            config,
            conversation: Vec::new(),
            status: SubAgentStatus::Ready,
            turn_count: 0,
            created_at,
            recipe_extensions: present,
            missing_extensions: missing,
        };
        proof {
            assert(r@.conversation =~= Seq::<MsgV>::empty());
        }
        r
    }

    /// The worker's identifier.
    pub fn id(&self) -> (r: &String)
        ensures
            r@ == self@.id,
    {
        &self.config.id
    }

    /// The current lifecycle status.
    pub fn get_status(&self) -> (r: SubAgentStatus)
        ensures
            r@ == self@.status,
    {
        self.status.duplicate()
    }

    /// Whether the worker has reached a terminal status.
    pub fn is_completed(&self) -> (r: bool)
        ensures
            r == self@.status.is_terminal(),
    {
        self.status.is_terminal()
    }

    /// Retires the worker: sets `Terminated`, from any status.
    pub fn terminate(&mut self)
        ensures
            final(self)@ == (AgentV { status: StatusV::Terminated, ..old(self)@ }),
            final(self)@.wf() == old(self)@.wf(),
    {
        self.status = SubAgentStatus::Terminated;
    }

    /// Appends an entry to the conversation; the conversation is append-only
    /// and this is its only direct way in besides a reply round.
    pub fn add_message(&mut self, message: Message)
        ensures
            final(self)@ == (AgentV {
                conversation: old(self)@.conversation.push(message@),
                ..old(self)@
            }),
    {
        let ghost prior = self.conversation@;
        self.conversation.push(message);
        proof {
            assert(msg_views(self.conversation@) =~= msg_views(prior).push(
                self.conversation@.last()@,
            ));
        }
    }

    /// A copy of the conversation so far, in append order.
    pub fn get_conversation(&self) -> (r: Vec<Message>)
        ensures
            msg_views(r@) == self@.conversation,
    {
        let mut out: Vec<Message> = Vec::new();
        let mut i: usize = 0;
        while i < self.conversation.len()
            invariant
                i <= self.conversation.len(),
                out@.len() == i,
                forall|j: int|
                    0 <= j < i ==> #[trigger] msg_views(out@)[j] == msg_views(
                        self.conversation@,
                    )[j],
            decreases self.conversation.len() - i,
        {
            let ghost p0 = out@;
            let m = &self.conversation[i];
            out.push(Message { role: m.role, text: m.text.clone() });
            proof {
                assert forall|j: int| 0 <= j < i + 1 implies #[trigger] msg_views(out@)[j]
                    == msg_views(self.conversation@)[j] by {
                    if j < i {
                        assert(out@[j] == p0[j]);
                        assert(msg_views(p0)[j] == msg_views(self.conversation@)[j]);
                    } else {
                        assert(out@[j]@ == self.conversation@[i as int]@);
                    }
                }
            }
            i = i + 1;
        }
        proof {
            assert(msg_views(out@) =~= msg_views(self.conversation@));
        }
        out
    }

    /// The extension names the recipe declared but the host had not enabled.
    pub fn get_missing_extensions(&self) -> (r: Vec<String>)
        ensures
            texts(r@) == self@.missing_extensions,
    {
        let mut out: Vec<String> = Vec::new();
        let mut i: usize = 0;
        while i < self.missing_extensions.len()
            invariant
                i <= self.missing_extensions.len(),
                out@.len() == i,
                forall|j: int|
                    0 <= j < i ==> #[trigger] texts(out@)[j] == texts(
                        self.missing_extensions@,
                    )[j],
            decreases self.missing_extensions.len() - i,
        {
            let ghost p0 = out@;
            out.push(self.missing_extensions[i].clone());
            proof {
                assert forall|j: int| 0 <= j < i + 1 implies #[trigger] texts(out@)[j] == texts(
                    self.missing_extensions@,
                )[j] by {
                    if j < i {
                        assert(out@[j] == p0[j]);
                        assert(texts(p0)[j] == texts(self.missing_extensions@)[j]);
                    } else {
                        assert(out@[j]@ == self.missing_extensions@[i as int]@);
                    }
                }
            }
            i = i + 1;
        }
        proof {
            assert(texts(out@) =~= texts(self.missing_extensions@));
        }
        out
    }

    fn accept_message(&mut self, text: String)
        requires
            reply_gate(old(self)@),
            old(self)@.turn_count < usize::MAX,
        ensures
            final(self)@ == accept_reply(old(self)@, text@),
    {
        let ghost c0 = self.conversation@;
        self.conversation.push(Message::user_text(text));
        self.turn_count = self.turn_count + 1;
        self.status = SubAgentStatus::Processing;
        proof {
            assert(msg_views(self.conversation@) =~= msg_views(c0).push(
                self.conversation@.last()@,
            ));
        }
    }

    /// Gates and records one caller message: the first step of a reply
    /// round. A worker in a terminal status accepts nothing; one whose turn
    /// budget is spent completes with the limit reason, leaves the
    /// conversation untouched, and reports the limit as a hard error; any
    /// other worker appends the message, counts the turn, and starts
    /// processing.
    pub fn start_reply(&mut self, text: String) -> (r: Result<(), ReplyError>)
        requires
            old(self)@.wf(),
            old(self)@.turn_count < usize::MAX,
        ensures
            final(self)@.wf(),
            ({
                let a = old(self)@;
                if a.status.is_terminal() {
                    r == Err::<(), ReplyError>(ReplyError::NotAccepting) && final(self)@ == a
                } else if turns_exhausted(a) {
                    r == Err::<(), ReplyError>(ReplyError::LimitExceeded(budget_of(a)))
                        && final(self)@ == limit_reached(a)
                } else {
                    r == Ok::<(), ReplyError>(()) && final(self)@ == accept_reply(a, text@)
                }
            }),
    {
        if self.status.is_terminal() {
            return Err(ReplyError::NotAccepting);
        }
        match self.config.max_turns {
            Some(m) => {
                if self.turn_count >= m {
                    self.status = SubAgentStatus::Completed(
                        String::from_str("Maximum turns exceeded"),
                    );
                    Err(ReplyError::LimitExceeded(m))
                } else {
                    self.accept_message(text);
                    Ok(())
                }
            },
            None => {
                self.accept_message(text);
                Ok(())
            },
        }
    }

    /// Takes the provider's outcome for the round in flight. A success with
    /// no tool calls appends the response and ends the round `Ready`; one
    /// with tool calls hands them back for dispatch, in emission order,
    /// changing nothing yet. Each provider error is terminal for the round
    /// and is absorbed: the status records the reason and the round ends
    /// with a well-formed in-band assistant message, never a hard error.
    pub fn resolve_provider(&mut self, outcome: ProviderOutcome) -> (r: ReplyStep)
        requires
            old(self)@.wf(),
            old(self)@.status == StatusV::Processing,
        ensures
            final(self)@.wf(),
            final(self)@ == provider_transition(old(self)@, outcome),
            provider_reply_step(outcome, r),
    {
        match outcome {
            ProviderOutcome::Success(resp) => {
                if resp.tool_calls.len() == 0 {
                    let ghost c0 = self.conversation@;
                    let m = resp.message;
                    self.conversation.push(Message { role: m.role, text: m.text.clone() });
                    self.status = SubAgentStatus::Ready;
                    proof {
                        assert(msg_views(self.conversation@) =~= msg_views(c0).push(m@));
                    }
                    ReplyStep::Finished(m)
                } else {
                    ReplyStep::ToolsPending(resp.tool_calls)
                }
            },
            ProviderOutcome::ContextLengthExceeded(_) => {
                self.status = SubAgentStatus::Completed(String::from_str("Context length exceeded"));
                ReplyStep::Finished(
                    Message::assistant_text(
                        String::from_str(
                            "The context length of the model has been exceeded. Please start a new session and try again.",
                        ),
                    ),
                )
            },
            ProviderOutcome::RateLimitExceeded(_) => {
                self.status = SubAgentStatus::Completed(String::from_str("Rate limit exceeded"));
                ReplyStep::Finished(
                    Message::assistant_text(
                        String::from_str("Rate limit exceeded. Please try again later."),
                    ),
                )
            },
            ProviderOutcome::Other(err) => {
                let mut reason = String::from_str("Error: ");
                reason.append(err.as_str());
                self.status = SubAgentStatus::Failed(reason);
                let mut text = String::from_str("Ran into this error: ");
                text.append(err.as_str());
                text.append(
                    ".\n\nPlease retry if you think this is a transient or recoverable error.",
                );
                ReplyStep::Finished(Message::assistant_text(text))
            },
        }
    }

    /// Records the outcome of one tool dispatch as a conversation entry;
    /// the round stays in flight either way — a tool failure is recorded,
    /// never fatal.
    pub fn resolve_tool(&mut self, outcome: ToolOutcome)
        requires
            old(self)@.wf(),
            old(self)@.status == StatusV::Processing,
        ensures
            final(self)@.wf(),
            final(self)@ == tool_transition(old(self)@, outcome),
    {
        let ghost c0 = self.conversation@;
        let entry = match outcome {
            ToolOutcome::Success(content) => {
                let mut t = String::from_str("Tool response: ");
                t.append(content.as_str());
                t
            },
            ToolOutcome::Failure(err) => {
                let mut t = String::from_str("Tool error: ");
                t.append(err.as_str());
                t
            },
        };
        self.conversation.push(Message::user_text(entry));
        proof {
            assert(msg_views(self.conversation@) =~= msg_views(c0).push(
                self.conversation@.last()@,
            ));
        }
    }

    /// The system prompt handed to the provider for this worker.
    pub fn system_prompt(&self) -> (r: String)
        ensures
            r@ == system_prompt_text(self@),
    {
        let mut s = String::from_str(
            "You are a helpful subagent that was spawned by goose. You converse with goose and can use the following tools: ",
        );
        s.append(crate::text::join_texts(&self.recipe_extensions, ", ").as_str());
        s.append("\n\n");
        match &self.config.recipe.instructions {
            Some(instructions) => {
                s.append(instructions.as_str());
            },
            None => {},
        }
        s
    }

    /// The whole conversation rendered for diagnostic display: header,
    /// numbered entries, footer.
    pub fn get_formatted_conversation(&self) -> (r: String)
        ensures
            r@ == crate::render::formatted_conversation_text(self@),
    {
        let mut s = String::from_str("=== Subagent ");
        s.append(self.config.id.as_str());
        s.append(" Conversation ===\n");
        s.append("Recipe: ");
        s.append(self.config.recipe.title.as_str());
        s.append("\n");
        s.append("Created: ");
        s.append(crate::clock::format_timestamp(crate::clock::clamp_timestamp(self.created_at)).as_str());
        s.append("\n");
        s.append("Status: ");
        s.append(crate::render::status_text(&self.status).as_str());
        s.append("\n");
        s.append("Turn: ");
        s.append(crate::text::usize_to_string(self.turn_count).as_str());
        match self.config.max_turns {
            Some(m) => {
                s.append("/");
                s.append(crate::text::usize_to_string(m).as_str());
            },
            None => {},
        }
        s.append("\n\n");
        s.append(crate::render::conversation_lines(&self.conversation).as_str());
        s.append("=== End Conversation ===\n");
        proof {
            assert(s@ =~= crate::render::formatted_conversation_text(self@));
        }
        s
    }

    /// A progress snapshot: status, its human-readable message, and the turn
    /// position. The timestamp is a clock reading, so nothing is promised of
    /// it.
    pub fn get_progress(&self) -> (r: SubAgentProgress)
        ensures
            progress_matches(r, self@),
    {
        let message = match &self.status {
            SubAgentStatus::Initializing => String::from_str("Initializing"),
            SubAgentStatus::Ready => String::from_str("Ready to process messages"),
            SubAgentStatus::Processing => String::from_str("Processing request..."),
            SubAgentStatus::WaitingForInput => String::from_str("Waiting for input"),
            SubAgentStatus::Completed(reason) => reason.clone(),
            SubAgentStatus::Failed(reason) => reason.clone(),
            SubAgentStatus::Terminated => String::from_str("Subagent terminated"),
        };
        SubAgentProgress {
            subagent_id: self.config.id.clone(),
            status: self.status.duplicate(),
            message,
            turn: self.turn_count,
            max_turns: self.config.max_turns,
            timestamp: now_unix_seconds(),
        }
    }
}

/// Law: an accepted reply counts exactly one turn and appends exactly the
/// caller's message, and it keeps the turn counter within the budget.
pub proof fn law_accepted_reply_counts_one_turn(a: AgentV, text: Seq<char>)
    requires
        a.wf(),
        reply_gate(a),
    ensures
        accept_reply(a, text).turn_count == a.turn_count + 1,
        accept_reply(a, text).conversation == a.conversation.push(user_msg(text)),
        accept_reply(a, text).wf(),
{
}

/// Law: once the turn budget is spent, no further message is accepted; the
/// worker completes with the limit reason, and neither its conversation nor
/// its turn counter moves.
pub proof fn law_spent_budget_refuses(a: AgentV)
    requires
        turns_exhausted(a),
    ensures
        !reply_gate(a),
        limit_reached(a).status == StatusV::Completed(limit_reason()),
        limit_reached(a).status.is_terminal(),
        limit_reached(a).conversation == a.conversation,
        limit_reached(a).turn_count == a.turn_count,
{
}

/// Law: a terminated worker is terminal and accepts no further message,
/// from whatever status it was terminated in.
pub proof fn law_terminated_accepts_nothing(a: AgentV)
    ensures
        (AgentV { status: StatusV::Terminated, ..a }).status.is_terminal(),
        !reply_gate(AgentV { status: StatusV::Terminated, ..a }),
{
}

/// Law: every provider error is absorbed — the round ends in a terminal
/// status, and what the caller gets back is a well-formed, non-empty
/// assistant message, never a hard error.
pub proof fn law_provider_errors_absorbed(a: AgentV, outcome: ProviderOutcome, r: ReplyStep)
    requires
        !(outcome matches ProviderOutcome::Success(_)),
        provider_reply_step(outcome, r),
    ensures
        provider_transition(a, outcome).status.is_terminal(),
        r matches ReplyStep::Finished(m) && m@.role == Role::Assistant && m@.text.len() > 0,
{
    reveal_strlit(
        "The context length of the model has been exceeded. Please start a new session and try again.",
    );
    reveal_strlit("Rate limit exceeded. Please try again later.");
    reveal_strlit("Ran into this error: ");
    reveal_strlit(".\n\nPlease retry if you think this is a transient or recoverable error.");
}

/// Law: every transition leaves the existing conversation in place — the
/// conversation is append-only, never truncated or reordered.
pub proof fn law_conversation_append_only(
    a: AgentV,
    text: Seq<char>,
    po: ProviderOutcome,
    to: ToolOutcome,
)
    ensures
        a.conversation.is_prefix_of(accept_reply(a, text).conversation),
        a.conversation.is_prefix_of(limit_reached(a).conversation),
        a.conversation.is_prefix_of(provider_transition(a, po).conversation),
        a.conversation.is_prefix_of(tool_transition(a, to).conversation),
        a.conversation.is_prefix_of((AgentV { status: StatusV::Terminated, ..a }).conversation),
{
    assert forall|m: MsgV| a.conversation.is_prefix_of(#[trigger] a.conversation.push(m)) by {
        assert(a.conversation =~= a.conversation.push(m).subrange(
            0,
            a.conversation.len() as int,
        ));
    }
    assert(a.conversation.is_prefix_of(a.conversation));
}

/// Law: the turn counter only ever moves forward, and only when a message
/// is accepted — by exactly one.
pub proof fn law_turn_counter_monotonic(
    a: AgentV,
    text: Seq<char>,
    po: ProviderOutcome,
    to: ToolOutcome,
)
    ensures
        accept_reply(a, text).turn_count == a.turn_count + 1,
        limit_reached(a).turn_count == a.turn_count,
        provider_transition(a, po).turn_count == a.turn_count,
        tool_transition(a, to).turn_count == a.turn_count,
        (AgentV { status: StatusV::Terminated, ..a }).turn_count == a.turn_count,
{
}

/// One full, successful reply round as the model sees it: the caller's
/// message is accepted, the given tool records land in emission order, and
/// the round finishes with the final assistant response.
pub open spec fn full_round(
    a: AgentV,
    text: Seq<char>,
    tool_entries: Seq<Seq<char>>,
    response: Seq<char>,
) -> AgentV {
    round_finished(record_tools(accept_reply(a, text), tool_entries), assistant_msg(response))
}

/// The worker after the given tool record entries are appended, in order.
pub open spec fn record_tools(a: AgentV, entries: Seq<Seq<char>>) -> AgentV
    decreases entries.len(),
{
    if entries.len() == 0 {
        a
    } else {
        tool_recorded(record_tools(a, entries.drop_last()), entries.last())
    }
}

/// Tool record entries as conversation entries.
pub open spec fn tool_entry_msgs(entries: Seq<Seq<char>>) -> Seq<MsgV> {
    entries.map_values(|e: Seq<char>| user_msg(e))
}

/// The conversation entries one full round appends: the caller's message,
/// the tool records at their emission points, then the final response.
pub open spec fn round_entries(
    text: Seq<char>,
    tool_entries: Seq<Seq<char>>,
    response: Seq<char>,
) -> Seq<MsgV> {
    seq![user_msg(text)] + tool_entry_msgs(tool_entries) + seq![assistant_msg(response)]
}

/// One round's inputs: the caller's text, the tool record entries, and the
/// final response text.
pub struct RoundV {
    pub text: Seq<char>,
    pub tool_entries: Seq<Seq<char>>,
    pub response: Seq<char>,
}

/// The worker after a series of full rounds, in call order.
pub open spec fn run_rounds(a: AgentV, rounds: Seq<RoundV>) -> AgentV
    decreases rounds.len(),
{
    if rounds.len() == 0 {
        a
    } else {
        let r = rounds.last();
        full_round(run_rounds(a, rounds.drop_last()), r.text, r.tool_entries, r.response)
    }
}

/// The conversation entries a series of rounds appends, in call order.
pub open spec fn rounds_entries(rounds: Seq<RoundV>) -> Seq<MsgV>
    decreases rounds.len(),
{
    if rounds.len() == 0 {
        Seq::<MsgV>::empty()
    } else {
        let r = rounds.last();
        rounds_entries(rounds.drop_last()) + round_entries(r.text, r.tool_entries, r.response)
    }
}

proof fn lemma_record_tools(a: AgentV, entries: Seq<Seq<char>>)
    ensures
        record_tools(a, entries) == (AgentV {
            conversation: a.conversation + tool_entry_msgs(entries),
            ..a
        }),
    decreases entries.len(),
{
    if entries.len() == 0 {
        assert(a.conversation + tool_entry_msgs(entries) =~= a.conversation);
    } else {
        lemma_record_tools(a, entries.drop_last());
        assert(a.conversation + tool_entry_msgs(entries) =~= (a.conversation + tool_entry_msgs(
            entries.drop_last(),
        )).push(user_msg(entries.last())));
    }
}

proof fn lemma_full_round(a: AgentV, text: Seq<char>, tool_entries: Seq<Seq<char>>, response: Seq<char>)
    ensures
        full_round(a, text, tool_entries, response) == (AgentV {
            conversation: a.conversation + round_entries(text, tool_entries, response),
            turn_count: (a.turn_count + 1) as nat,
            status: StatusV::Ready,
            ..a
        }),
{
    lemma_record_tools(accept_reply(a, text), tool_entries);
    assert(a.conversation + round_entries(text, tool_entries, response) =~= (a.conversation.push(
        user_msg(text),
    ) + tool_entry_msgs(tool_entries)).push(assistant_msg(response)));
}

/// Law (round trip): after any series of successful reply rounds, the
/// conversation is exactly the prior conversation followed by, for each
/// round in call order, the caller's message, the tool records at their
/// emission points, and the final response; each round counts one turn, and
/// a series with at least one round ends `Ready`.
pub proof fn law_conversation_round_trip(a: AgentV, rounds: Seq<RoundV>)
    ensures
        run_rounds(a, rounds).conversation == a.conversation + rounds_entries(rounds),
        run_rounds(a, rounds).turn_count == a.turn_count + rounds.len(),
        rounds.len() > 0 ==> run_rounds(a, rounds).status == StatusV::Ready,
        rounds.len() == 0 ==> run_rounds(a, rounds) == a,
    decreases rounds.len(),
{
    if rounds.len() == 0 {
        assert(a.conversation + rounds_entries(rounds) =~= a.conversation);
    } else {
        let r = rounds.last();
        law_conversation_round_trip(a, rounds.drop_last());
        lemma_full_round(run_rounds(a, rounds.drop_last()), r.text, r.tool_entries, r.response);
        assert(a.conversation + rounds_entries(rounds) =~= (a.conversation + rounds_entries(
            rounds.drop_last(),
        )) + round_entries(r.text, r.tool_entries, r.response));
    }
}

} // verus!
