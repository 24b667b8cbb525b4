//! The engine: many sessions, one model, and the rounds of every chat.
//!
//! A chat is a series of rounds. In each one the model is called, and where it
//! asks for tools their results go into the next round. The engine decides what
//! comes next and keeps every state; calling the model and running tools is left
//! to whoever drives it, step by step.

use vstd::prelude::*;
use vstd::string::*;

use crate::budget::{
    add_tokens, budget_verdict, counted, estimate, response_tokens, tokens_from_response,
    BudgetConfig, BudgetError, TokenEstimator,
};
use crate::cache::{request_key, CacheConfig, CacheKey, CacheView, InMemoryCache};
use crate::engine::reply::{
    EngineError, EngineErrorView, EngineReply, EngineReplyView, EngineStartError, SessionPhase,
    SessionSnapshot,
};
use crate::prompt::cut_kinds;
use crate::provider::{
    ChatRequest, ChatRequestView, ChatResponse, ChatResponseView, LlmError, Message, MessageView,
    ModelSpec, ProviderCapabilities, ProviderId, TokenUsage, ToolCall, ToolCallView,
};
use crate::session::log::SessionLogView;
use crate::session::message::{ChatOptionsView, ChatPayload, SessionId};
use crate::session::{
    either, FinishAction, FinishActionView, OutcomeView, RoundStart, RoundStartView, Session,
    SessionConfig, SessionConfigView, SessionView, StateView, TurnOutcome,
};
use crate::table::{
    distinct, drop_key, lemma_absent, lemma_at, lemma_found, lookup, put, Held, KeyView, Table,
};
use crate::text::{decimal, decimal_text};
use crate::time::Duration;
use crate::tool::definition::ToolInfo;
use crate::tool::executor::{
    chosen, completion_message, completion_text, ExecutedTool, ExecutedToolView, ExecutorConfig,
    ToolExecutor, ToolOutcome,
};
use crate::tool::registry::{
    named, offers, RegistryError, RegistryErrorView, ToolRegistry, ToolRegistryView,
};

pub mod laws;
pub mod reply;
pub mod retry;
pub mod round_laws;
pub mod stream;

verus! {

broadcast use vstd::string::group_string_axioms;

/// What is known of the model.
#[derive(Debug)]
pub struct ProviderInfo {
    pub id: ProviderId,
    pub capabilities: ProviderCapabilities,
    pub model_spec: ModelSpec,
}

pub struct ProviderInfoView {
    pub id: Seq<char>,
    pub capabilities: ProviderCapabilities,
    pub model_spec: ModelSpec,
}

impl DeepView for ProviderInfo {
    type V = ProviderInfoView;

    open spec fn deep_view(&self) -> ProviderInfoView {
        ProviderInfoView {
            id: self.id.deep_view(),
            capabilities: self.capabilities,
            model_spec: self.model_spec,
        }
    }
}

/// The limits and defaults of an engine.
#[derive(Debug)]
pub struct EngineConfig {
    pub session: SessionConfig,
    pub budget: BudgetConfig,
    pub cache: CacheConfig,
    pub max_sessions: usize,
    /// From which depth on no tool may call another agent.
    pub max_subagent_depth: u32,
    /// How often a call of the model is tried again.
    pub max_retries: u32,
}

pub struct EngineConfigView {
    pub session: SessionConfigView,
    pub budget: BudgetConfig,
    pub cache: CacheConfig,
    pub max_sessions: usize,
    pub max_subagent_depth: u32,
    pub max_retries: u32,
}

impl DeepView for EngineConfig {
    type V = EngineConfigView;

    open spec fn deep_view(&self) -> EngineConfigView {
        EngineConfigView {
            session: self.session.deep_view(),
            budget: self.budget,
            cache: self.cache,
            max_sessions: self.max_sessions,
            max_subagent_depth: self.max_subagent_depth,
            max_retries: self.max_retries,
        }
    }
}

impl Default for EngineConfig {
    fn default() -> (r: Self)
        ensures
            r.session.is_usual(),
            r.budget == (BudgetConfig { session_limit: 0, global_limit: 0 }),
            r.cache.is_usual(),
            r.max_sessions == 100,
            r.max_subagent_depth == 2,
            r.max_retries == 1,
    {
        EngineConfig {
            session: SessionConfig::default(),
            budget: BudgetConfig::default(),
            cache: CacheConfig::default(),
            max_sessions: 100,
            max_subagent_depth: 2,
            max_retries: 1,
        }
    }
}

impl Held for Session {
    open spec fn sound(&self) -> bool {
        true
    }
}

/// The sessions of a model and what they share.
pub struct Engine {
    sessions: Table<Session>,
    provider: ProviderInfo,
    config: EngineConfig,
    tools: Option<ToolRegistry>,
    tool_executor: Option<ToolExecutor>,
    total_consumed_tokens: u64,
    cache: Option<InMemoryCache>,
}

pub struct EngineView {
    pub sessions: Seq<(KeyView, SessionView)>,
    pub provider: ProviderInfoView,
    pub config: EngineConfigView,
    pub tools: Option<ToolRegistryView>,
    pub executor: Option<ExecutorConfig>,
    pub total: u64,
    pub cache: Option<CacheView>,
}

impl DeepView for Engine {
    type V = EngineView;

    closed spec fn deep_view(&self) -> EngineView {
        EngineView {
            sessions: self.sessions.deep_view(),
            provider: self.provider.deep_view(),
            config: self.config.deep_view(),
            tools: self.tools.deep_view(),
            executor: self.tool_executor.deep_view(),
            total: self.total_consumed_tokens,
            cache: self.cache.deep_view(),
        }
    }
}

/// The key of a session.
pub open spec fn session_key(id: SessionId) -> KeyView {
    (Seq::empty(), id.hi, id.lo)
}

fn key_of(id: SessionId) -> (r: (String, u64, u64))
    ensures
        r.deep_view() == session_key(id),
{
    let name = String::new();
    proof {
        assert(name@ =~= Seq::empty());
    }
    (name, id.hi, id.lo)
}

/// The state of a session that is told to stop.
pub open spec fn interrupted(s: SessionView) -> SessionView {
    SessionView {
        interrupt: true,
        state: match s.state {
            StateView::Thinking { turn_id, .. } => StateView::Thinking { turn_id, cancel: false },
            other => other,
        },
        ..s
    }
}

/// The sessions, those with a round under way told to stop.
pub open spec fn all_interrupted(items: Seq<(KeyView, SessionView)>) -> Seq<
    (KeyView, SessionView),
> {
    items.map_values(
        |e: (KeyView, SessionView)|
            (
                e.0,
                if e.1.busy() {
                    interrupted(e.1)
                } else {
                    e.1
                },
            ),
    )
}

/// Whether a session has been idle for as long as a time.
pub open spec fn stale(s: SessionView, now: u64, idle_timeout: Duration) -> bool {
    let age = if now >= s.last_active {
        now - s.last_active
    } else {
        0
    };
    !s.busy() && age * 1_000_000 >= idle_timeout.total()
}

/// The sessions that have not been idle for so long.
pub open spec fn survivors(
    items: Seq<(KeyView, SessionView)>,
    now: u64,
    idle_timeout: Duration,
) -> Seq<(KeyView, SessionView)>
    decreases items.len(),
{
    if items.len() == 0 {
        Seq::empty()
    } else {
        let before = survivors(items.drop_last(), now, idle_timeout);
        if stale(items.last().1, now, idle_timeout) {
            before
        } else {
            before.push(items.last())
        }
    }
}

/// The identities of the sessions that have been idle for so long.
pub open spec fn reaped(
    items: Seq<(KeyView, SessionView)>,
    now: u64,
    idle_timeout: Duration,
) -> Seq<SessionId>
    decreases items.len(),
{
    if items.len() == 0 {
        Seq::empty()
    } else {
        let before = reaped(items.drop_last(), now, idle_timeout);
        if stale(items.last().1, now, idle_timeout) {
            before.push(id_of(items.last().0))
        } else {
            before
        }
    }
}

/// The identity of a key.
pub open spec fn id_of(key: KeyView) -> SessionId {
    SessionId { hi: key.1, lo: key.2 }
}

/// A session at one moment.
pub open spec fn snapshot_of(s: SessionView) -> SessionSnapshot {
    SessionSnapshot {
        state: SessionPhase::of_state(s.state),
        history_len: s.window().len() as usize,
        consumed_tokens: s.consumed_tokens,
        peer_depth: s.peer_depth,
    }
}

// ---------------------------------------------------------------------------
// Tool rounds

/// What the model is told of a call that the depth does not allow.
pub open spec fn depth_limit_message() -> Seq<char> {
    "Rejected: subagent nesting depth limit reached. This agent cannot call sub-agents."@
}

/// What the model is told of a call that was dispatched.
pub open spec fn dispatched_message() -> Seq<char> {
    "Task dispatched (async execution); real result will be injected into a later turn."@
}

/// What the model is told of a call beyond as many as one response may make.
pub open spec fn too_many_message(max: usize) -> Seq<char> {
    "Exceeds max_tools_per_turn limit ("@ + decimal(max as nat)
        + "). Please re-issue this tool call in the next turn."@
}

fn too_many_text(max: usize) -> (r: String)
    ensures
        r@ == too_many_message(max),
{
    let mut t = "Exceeds max_tools_per_turn limit (".to_owned();
    t.append(decimal_text(max as u64).as_str());
    t.append("). Please re-issue this tool call in the next turn.");
    t
}

/// Whether a call is for a tool that calls another agent.
pub open spec fn barred(call: ToolCallView, registry: ToolRegistryView) -> bool {
    registry.tool(call.name) matches Some(t) && t.depth_limited
}

/// The calls that are for tools that call another agent, or those that are not.
pub open spec fn by_bar(
    calls: Seq<ToolCallView>,
    registry: ToolRegistryView,
    bar: bool,
) -> Seq<ToolCallView>
    decreases calls.len(),
{
    if calls.len() == 0 {
        Seq::empty()
    } else {
        let before = by_bar(calls.drop_last(), registry, bar);
        if barred(calls.last(), registry) == bar {
            before.push(calls.last())
        } else {
            before
        }
    }
}

/// The session with one text as the answer to every call.
pub open spec fn answer_all(s: SessionView, calls: Seq<ToolCallView>, text: Seq<char>) -> SessionView
    decreases calls.len(),
{
    if calls.len() == 0 {
        s
    } else {
        answer_all(s, calls.drop_last(), text).answered(calls.last().id, text)
    }
}

/// The session with the results of calls as their answers.
pub open spec fn answer_results(s: SessionView, results: Seq<ExecutedToolView>) -> SessionView
    decreases results.len(),
{
    if results.len() == 0 {
        s
    } else {
        answer_results(s, results.drop_last()).answered(
            results.last().tool_call_id,
            results.last().result,
        )
    }
}

/// What becomes of the calls of a response: those that are refused, cut off,
/// waited for and dispatched.
pub struct CallPlan {
    pub blocked: Seq<ToolCallView>,
    pub cut: Seq<ToolCallView>,
    pub waiting: Seq<ToolCallView>,
    pub dispatched: Seq<ToolCallView>,
}

/// What becomes of the calls of a response.
pub open spec fn plan_calls(
    calls: Seq<ToolCallView>,
    registry: ToolRegistryView,
    max_per_turn: usize,
    at_limit: bool,
) -> CallPlan {
    let blocked = if at_limit {
        by_bar(calls, registry, true)
    } else {
        Seq::empty()
    };
    let rest = if at_limit {
        by_bar(calls, registry, false)
    } else {
        calls
    };
    let head = if rest.len() <= max_per_turn {
        rest
    } else {
        rest.take(max_per_turn as int)
    };
    let cut = if rest.len() <= max_per_turn {
        Seq::empty()
    } else {
        rest.skip(max_per_turn as int)
    };
    CallPlan {
        blocked,
        cut,
        waiting: chosen(head, registry, true),
        dispatched: chosen(head, registry, false),
    }
}

/// The session with the calls answered that need not be run first.
pub open spec fn answer_plan(s: SessionView, plan: CallPlan, max_per_turn: usize) -> SessionView {
    answer_all(
        answer_all(
            answer_all(s, plan.blocked, depth_limit_message()),
            plan.cut,
            too_many_message(max_per_turn),
        ),
        plan.dispatched,
        dispatched_message(),
    )
}

/// Whether a call did what it was asked for.
pub open spec fn succeeded(r: ExecutedToolView) -> bool {
    r.outcome == ToolOutcome::Completed && !r.failed
}

/// Whether the results end the chat: every call did what it was asked for, and
/// one of the tools is terminal.
pub open spec fn converges(results: Seq<ExecutedToolView>, registry: ToolRegistryView) -> bool {
    &&& forall|i: int| 0 <= i < results.len() ==> succeeded(#[trigger] results[i])
    &&& exists|i: int|
        0 <= i < results.len() && (registry.tool((#[trigger] results[i]).tool_name) matches Some(t)
            && t.terminal)
}

/// Whether the results end the chat.
pub fn is_terminal_convergence(results: &Vec<ExecutedTool>, registry: &ToolRegistry) -> (r: bool)
    requires
        registry.wf(),
    ensures
        r == converges(results.deep_view(), registry.deep_view()),
{
    let ghost all = results.deep_view();
    let ghost reg = registry.deep_view();
    let mut terminal = false;
    let mut i: usize = 0;
    while i < results.len()
        invariant
            i <= results@.len(),
            all == results.deep_view(),
            registry.wf(),
            reg == registry.deep_view(),
            forall|j: int| 0 <= j < i ==> succeeded(#[trigger] all[j]),
            terminal <==> exists|j: int|
                0 <= j < i && (reg.tool((#[trigger] all[j]).tool_name) matches Some(t)
                    && t.terminal),
        decreases results@.len() - i,
    {
        let x = &results[i];
        proof {
            assert(all[i as int] == x.deep_view());
        }
        if x.outcome != ToolOutcome::Completed || x.failed {
            return false;
        }
        if let Some(t) = registry.get(x.tool_name.as_str()) {
            if t.terminal {
                terminal = true;
            }
        }
        i = i + 1;
    }
    terminal
}

/// Parts calls by whether their tools call another agent.
fn part_by_bar(calls: Vec<ToolCall>, registry: &ToolRegistry) -> (r: (
    Vec<ToolCall>,
    Vec<ToolCall>,
))
    requires
        registry.wf(),
    ensures
        r.0.deep_view() == by_bar(calls.deep_view(), registry.deep_view(), true),
        r.1.deep_view() == by_bar(calls.deep_view(), registry.deep_view(), false),
{
    let ghost all = calls.deep_view();
    let ghost reg = registry.deep_view();
    let ghost kept = calls@;
    let mut rest = calls;
    let mut yes: Vec<ToolCall> = Vec::new();
    let mut no: Vec<ToolCall> = Vec::new();
    let n: usize = rest.len();
    let mut i: usize = 0;
    proof {
        assert(yes.deep_view() =~= by_bar(all.take(0), reg, true));
        assert(no.deep_view() =~= by_bar(all.take(0), reg, false));
    }
    while i < n
        invariant
            i <= n,
            n == kept.len(),
            registry.wf(),
            reg == registry.deep_view(),
            rest@ == kept.skip(i as int),
            all == kept.map_values(|c: ToolCall| c.deep_view()),
            yes.deep_view() == by_bar(all.take(i as int), reg, true),
            no.deep_view() == by_bar(all.take(i as int), reg, false),
        decreases n - i,
    {
        let call = rest.remove(0);
        let ghost cv = call.deep_view();
        let ghost y = yes.deep_view();
        let ghost z = no.deep_view();
        proof {
            assert(call == kept[i as int]);
            assert(rest@ =~= kept.skip(i + 1));
            assert(all.take(i + 1).drop_last() =~= all.take(i as int));
            assert(all.take(i + 1).last() == cv);
        }
        let bar = match registry.get(call.function.name.as_str()) {
            Some(t) => t.depth_limited,
            None => false,
        };
        if bar {
            yes.push(call);
            proof {
                assert(yes.deep_view() =~= y.push(cv));
            }
        } else {
            no.push(call);
            proof {
                assert(no.deep_view() =~= z.push(cv));
            }
        }
        i = i + 1;
    }
    proof {
        assert(all.take(n as int) =~= all);
    }
    (yes, no)
}

/// Answers calls with one text.
fn answer_calls(s: &mut Session, calls: &Vec<ToolCall>, text: &str)
    ensures
        final(s).deep_view() == answer_all(old(s).deep_view(), calls.deep_view(), text@),
        old(s).deep_view().wf() ==> final(s).deep_view().wf(),
{
    let ghost all = calls.deep_view();
    let ghost start = s.deep_view();
    let mut i: usize = 0;
    while i < calls.len()
        invariant
            i <= calls@.len(),
            all == calls.deep_view(),
            start.wf() ==> s.deep_view().wf(),
            s.deep_view() == answer_all(start, all.take(i as int), text@),
        decreases calls@.len() - i,
    {
        proof {
            assert(all.take(i + 1).drop_last() =~= all.take(i as int));
            assert(all.take(i + 1).last() == all[i as int]);
        }
        let _action = s.finish_tool_call(calls[i].id.as_str(), text.to_owned());
        i = i + 1;
    }
    proof {
        assert(all.take(all.len() as int) =~= all);
    }
}

/// Answers calls with their results.
fn take_results(s: &mut Session, results: &Vec<ExecutedTool>)
    ensures
        final(s).deep_view() == answer_results(old(s).deep_view(), results.deep_view()),
        old(s).deep_view().wf() ==> final(s).deep_view().wf(),
{
    let ghost all = results.deep_view();
    let ghost start = s.deep_view();
    let mut i: usize = 0;
    while i < results.len()
        invariant
            i <= results@.len(),
            all == results.deep_view(),
            start.wf() ==> s.deep_view().wf(),
            s.deep_view() == answer_results(start, all.take(i as int)),
        decreases results@.len() - i,
    {
        proof {
            assert(all.take(i + 1).drop_last() =~= all.take(i as int));
            assert(all.take(i + 1).last() == all[i as int]);
        }
        let _action = s.finish_tool_call(
            results[i].tool_call_id.as_str(),
            results[i].result.clone(),
        );
        i = i + 1;
    }
    proof {
        assert(all.take(all.len() as int) =~= all);
    }
}

// ---------------------------------------------------------------------------
// Chats

/// What a chat has come to: how many times the model was called, and the tokens
/// of those calls.
#[derive(Debug, Clone, Copy, PartialEq, Eq)]
pub struct ChatRun {
    pub session_id: SessionId,
    pub rounds_used: u32,
    pub usage_sum: Option<TokenUsage>,
    /// Whether the answer is passed on chunk by chunk; such a chat is never
    /// answered from the cache.
    pub streaming: bool,
}

impl ChatRun {
    /// A chat that begins.
    pub fn new(session_id: SessionId, streaming: bool) -> (r: ChatRun)
        ensures
            r == (ChatRun { session_id, rounds_used: 0, usage_sum: None, streaming }),
    {
        ChatRun { session_id, rounds_used: 0, usage_sum: None, streaming }
    }
}

/// Tool calls that are to be run.
#[derive(Debug)]
pub struct ToolRound {
    pub turn_id: u64,
    pub response: ChatResponse,
    /// The calls that the round waits for.
    pub waiting: Vec<ToolCall>,
    /// The calls whose results reach a later round.
    pub dispatched: Vec<ToolCall>,
    /// Whether a call was refused or cut off.
    pub refused: bool,
    /// How deep below the first agent the session stands.
    pub depth: u32,
    /// Whether the calls run one after the other.
    pub serial: bool,
}

pub struct ToolRoundView {
    pub turn_id: u64,
    pub response: ChatResponseView,
    pub waiting: Seq<ToolCallView>,
    pub dispatched: Seq<ToolCallView>,
    pub refused: bool,
    pub depth: u32,
    pub serial: bool,
}

impl DeepView for ToolRound {
    type V = ToolRoundView;

    open spec fn deep_view(&self) -> ToolRoundView {
        ToolRoundView {
            turn_id: self.turn_id,
            response: self.response.deep_view(),
            waiting: self.waiting.deep_view(),
            dispatched: self.dispatched.deep_view(),
            refused: self.refused,
            depth: self.depth,
            serial: self.serial,
        }
    }
}

/// What comes next in a chat.
#[derive(Debug)]
pub enum ChatStep {
    /// The model is to be called.
    Call { turn_id: u64, request: ChatRequest, key: Option<CacheKey> },
    /// Tools are to be run.
    Tools(ToolRound),
    /// The chat is over.
    Done(EngineReply),
}

pub enum ChatStepView {
    Call(u64, ChatRequestView, Option<KeyView>),
    Tools(ToolRoundView),
    Done(EngineReplyView),
}

impl DeepView for ChatStep {
    type V = ChatStepView;

    open spec fn deep_view(&self) -> ChatStepView {
        match *self {
            ChatStep::Call { turn_id, request, key } => ChatStepView::Call(
                turn_id,
                request.deep_view(),
                key.deep_view(),
            ),
            ChatStep::Tools(t) => ChatStepView::Tools(t.deep_view()),
            ChatStep::Done(r) => ChatStepView::Done(r.deep_view()),
        }
    }
}

/// Tokens of calls with those of another call.
pub open spec fn summed(sum: Option<TokenUsage>, more: Option<TokenUsage>) -> Option<TokenUsage> {
    match (sum, more) {
        (Some(a), Some(b)) => Some(a.plus(b)),
        (None, Some(b)) => Some(b),
        _ => sum,
    }
}

/// What a failed round ends a chat with.
pub open spec fn failed_reply(was_interrupted: bool, outcome: OutcomeView) -> EngineReplyView {
    if was_interrupted {
        EngineReplyView::Cancelled
    } else {
        match outcome {
            OutcomeView::Timeout => EngineReplyView::Timeout,
            OutcomeView::Error(e) => EngineReplyView::Error(EngineErrorView::Llm(e)),
            _ => EngineReplyView::Error(EngineErrorView::TurnIncomplete),
        }
    }
}

/// The options of a chat: where it names no tools, those that are offered.
pub open spec fn effective_options(
    options: ChatOptionsView,
    tools: Option<ToolRegistryView>,
    depth: u32,
    max_depth: u32,
) -> ChatOptionsView {
    match tools {
        Some(reg) if options.tools.len() == 0 => ChatOptionsView {
            tools: offers(reg.tools, None, depth, max_depth),
            ..options
        },
        _ => options,
    }
}

/// The estimated cost of what is always delivered: the system prompt and the
/// message.
pub open spec fn core_cost(system: Option<Seq<char>>, message: MessageView) -> int {
    let sum = (match system {
        Some(t) => estimate(t),
        None => 0,
    }) + estimate(message.content.text_or_empty());
    if sum <= u64::MAX {
        sum
    } else {
        u64::MAX as int
    }
}

impl EngineView {
    /// Every session is in order, and there are no more than there may be.
    pub open spec fn wf(self) -> bool {
        &&& distinct(self.sessions)
        &&& self.sessions.len() <= self.config.max_sessions
        &&& forall|i: int|
            0 <= i < self.sessions.len() ==> (#[trigger] self.sessions[i]).1.wf()
                && self.sessions[i].0 == session_key(id_of(self.sessions[i].0))
        &&& self.cache matches Some(c) ==> c.wf()
    }

    /// The session of an identity.
    pub open spec fn session(self, id: SessionId) -> Option<SessionView> {
        lookup(self.sessions, session_key(id))
    }

    /// The engine with another state of a session.
    pub open spec fn with_session(self, id: SessionId, s: SessionView) -> EngineView {
        EngineView { sessions: put(self.sessions, session_key(id), s), ..self }
    }

    /// The session of an identity, made where it is not there and there is room.
    pub open spec fn ensured(self, id: SessionId, now: u64) -> Option<EngineView> {
        if self.session(id) is Some {
            Some(self)
        } else if self.sessions.len() >= self.config.max_sessions {
            None
        } else {
            Some(
                self.with_session(
                    id,
                    SessionView { session_id: id, ..SessionView::fresh(self.config.session, now) },
                ),
            )
        }
    }

    /// What comes of an attempt to begin a chat in a session that is there.
    pub open spec fn start_verdict(
        self,
        id: SessionId,
        message: MessageView,
        options: ChatOptionsView,
    ) -> Result<(), EngineStartError> {
        let s = self.session(id)->0;
        let cost = core_cost(
            either(options.system_prompt, s.config.default_system_prompt),
            message,
        );
        let window = self.provider.model_spec.context_window_tokens;
        match budget_verdict(self.config.budget, s.consumed_tokens, self.total) {
            Err(e) => Err(EngineStartError::Budget(e)),
            Ok(_) => if cost >= window {
                Err(EngineStartError::PromptTooLarge { estimated: cost as u64, window })
            } else if !s.can_start() {
                Err(EngineStartError::Busy)
            } else {
                Ok(())
            },
        }
    }

    /// What comes of an attempt to begin a chat.
    pub open spec fn begun(
        self,
        id: SessionId,
        message: MessageView,
        options: ChatOptionsView,
        depth: u32,
        now: u64,
    ) -> (EngineView, Result<RoundStartView, EngineStartError>) {
        match self.ensured(id, now) {
            None => (self, Err(EngineStartError::MaxSessions)),
            Some(e) => {
                let offered = effective_options(
                    options,
                    self.tools,
                    depth,
                    self.config.max_subagent_depth,
                );
                match e.start_verdict(id, message, offered) {
                    Err(x) => (e, Err(x)),
                    Ok(_) => {
                        let s = e.session(id)->0.started(message, offered, depth, now);
                        (
                            e.with_session(id, s),
                            Ok(RoundStartView { turn_id: s.turn_id, request: s.request(offered) }),
                        )
                    },
                }
            },
        }
    }

    /// The engine with messages put into a session's record, and how many there
    /// was room for; nothing where there is no room for the session.
    pub open spec fn restored(self, id: SessionId, messages: Seq<MessageView>, now: u64) -> (
        EngineView,
        Option<int>,
    ) {
        match self.ensured(id, now) {
            None => (self, None),
            Some(e) => {
                let s = e.session(id)->0;
                let log = s.log.plus_all(messages);
                (
                    e.with_session(id, SessionView { log, ..s }),
                    Some(log.facts.len() - s.log.facts.len()),
                )
            },
        }
    }

    /// Whether the session of an identity was told to stop.
    pub open spec fn told_to_stop(self, id: SessionId) -> bool {
        self.session(id) matches Some(s) && s.interrupt
    }

    /// Whether a chat has called the model as often as it may.
    pub open spec fn limit_reached(self, rounds_used: u32) -> bool {
        self.config.session.max_rounds_per_chat matches Some(max) && rounds_used >= max
    }

    /// The engine with the results of a session's calls recorded and the session
    /// idle.
    pub open spec fn settled(self, id: SessionId) -> EngineView {
        match self.session(id) {
            Some(s) => self.with_session(id, s.settled()),
            None => self,
        }
    }

    /// The key under which the answer to a request is kept.
    pub open spec fn cache_key(self, request: ChatRequestView, streaming: bool) -> Option<KeyView> {
        if self.cache is Some && !streaming {
            Some(request_key(request, self.provider.id))
        } else {
            None
        }
    }

    /// The engine once a call of the model was counted and kept.
    pub open spec fn accounted(
        self,
        outcome: OutcomeView,
        key: Option<KeyView>,
        now: u64,
    ) -> EngineView {
        match outcome {
            OutcomeView::Success(resp) => EngineView {
                total: counted(self.total, response_tokens(resp)),
                cache: match (self.cache, key) {
                    (Some(c), Some(k)) => if resp.message.tool_calls.len() == 0 {
                        Some(c.kept(k, resp, now))
                    } else {
                        self.cache
                    },
                    _ => self.cache,
                },
                ..self
            },
            _ => self,
        }
    }

    /// Whether tools can be run.
    pub open spec fn has_tools(self) -> bool {
        self.tools is Some && self.executor is Some
    }

    /// What becomes of the calls of a response in a session.
    pub open spec fn plan(self, id: SessionId, calls: Seq<ToolCallView>) -> CallPlan {
        plan_calls(
            calls,
            self.tools->0,
            self.executor->0.max_per_turn,
            self.depth(id) >= self.config.max_subagent_depth,
        )
    }

    /// How deep below the first agent a session stands.
    pub open spec fn depth(self, id: SessionId) -> u32 {
        match self.session(id) {
            Some(s) => s.peer_depth,
            None => 0,
        }
    }

    /// The engine once the calls of a response have been looked at.
    pub open spec fn planned(self, id: SessionId, calls: Seq<ToolCallView>) -> EngineView {
        match self.session(id) {
            Some(s) => self.with_session(
                id,
                answer_plan(s, self.plan(id, calls), self.executor->0.max_per_turn),
            ),
            None => self,
        }
    }

    /// The calls that are to be run after a response.
    pub open spec fn tool_round(
        self,
        id: SessionId,
        turn: u64,
        response: ChatResponseView,
    ) -> ToolRoundView {
        let plan = self.plan(id, response.message.tool_calls);
        ToolRoundView {
            turn_id: turn,
            response,
            waiting: plan.waiting,
            dispatched: plan.dispatched,
            refused: plan.blocked.len() > 0 || plan.cut.len() > 0,
            depth: self.depth(id),
            serial: !self.provider.capabilities.parallel_tool_calls,
        }
    }

    /// What follows the end of a call of the model.
    pub open spec fn after_call(
        self,
        run: ChatRun,
        turn: u64,
        key: Option<KeyView>,
        outcome: OutcomeView,
        now: u64,
    ) -> (EngineView, ChatStepView) {
        let counted = self.accounted(outcome, key, now);
        match counted.session(run.session_id) {
            None => (counted, ChatStepView::Done(failed_reply(false, outcome))),
            Some(s) => {
                let done = counted.with_session(run.session_id, s.finished(turn, outcome));
                match s.finish_action(turn, outcome) {
                    FinishActionView::Idle(Some(resp)) => (
                        done,
                        ChatStepView::Done(EngineReplyView::Success(resp)),
                    ),
                    FinishActionView::Idle(None) => (
                        done,
                        ChatStepView::Done(failed_reply(s.interrupt, outcome)),
                    ),
                    FinishActionView::AwaitingCalls(resp) => if !done.has_tools() {
                        (
                            done.with_session(
                                run.session_id,
                                SessionView {
                                    state: StateView::Idle,
                                    ..s.finished(turn, outcome)
                                },
                            ),
                            ChatStepView::Done(EngineReplyView::Success(resp)),
                        )
                    } else {
                        (
                            done.planned(run.session_id, resp.message.tool_calls),
                            ChatStepView::Tools(done.tool_round(run.session_id, turn, resp)),
                        )
                    },
                }
            },
        }
    }

    /// What follows the beginning of a round.
    pub open spec fn entered(self, run: ChatRun, round: RoundStartView, now: u64) -> (
        EngineView,
        ChatStepView,
    ) {
        if self.told_to_stop(run.session_id) {
            (
                self.with_session(
                    run.session_id,
                    self.session(run.session_id)->0.finished(
                        round.turn_id,
                        OutcomeView::Cancelled,
                    ),
                ),
                ChatStepView::Done(EngineReplyView::Cancelled),
            )
        } else {
            let key = self.cache_key(round.request, run.streaming);
            match key {
                Some(k) => {
                    let asked = EngineView {
                        cache: Some(self.cache->0.asked(k, now)),
                        ..self
                    };
                    match self.cache->0.answer(k, now) {
                        Some(resp) => asked.after_call(
                            run,
                            round.turn_id,
                            key,
                            OutcomeView::Cached(resp),
                            now,
                        ),
                        None => (asked, ChatStepView::Call(round.turn_id, round.request, key)),
                    }
                },
                None => (self, ChatStepView::Call(round.turn_id, round.request, None)),
            }
        }
    }

    /// What a chat has come to when a round has begun: an answer that was kept is
    /// counted with the others.
    pub open spec fn entered_run(self, run: ChatRun, round: RoundStartView, now: u64) -> ChatRun {
        if self.told_to_stop(run.session_id) {
            run
        } else {
            match self.cache_key(round.request, run.streaming) {
                Some(k) => match self.cache->0.answer(k, now) {
                    Some(resp) => ChatRun { usage_sum: summed(run.usage_sum, resp.usage), ..run },
                    None => run,
                },
                None => run,
            }
        }
    }

    /// What follows tool calls whose results are in: the next round, where the
    /// chat may have one.
    pub open spec fn next_round(self, run: ChatRun, now: u64) -> (EngineView, ChatStepView) {
        if self.limit_reached(run.rounds_used) {
            (
                self.settled(run.session_id),
                ChatStepView::Done(
                    EngineReplyView::Error(EngineErrorView::MaxRoundsExceeded(run.rounds_used)),
                ),
            )
        } else {
            match self.session(run.session_id) {
                Some(s) if s.state is AwaitingCalls => {
                    let round = RoundStartView {
                        turn_id: s.resumed().turn_id,
                        request: s.resumed().request(s.options),
                    };
                    self.with_session(run.session_id, s.resumed()).entered(
                        one_more_round(run),
                        round,
                        now,
                    )
                },
                _ => (
                    self,
                    ChatStepView::Done(
                        EngineReplyView::Error(
                            EngineErrorView::StateConflict("resume failed (not awaiting)"@),
                        ),
                    ),
                ),
            }
        }
    }

    /// What a chat has come to when its next round has begun, where it may have
    /// one.
    pub open spec fn next_run(self, run: ChatRun, now: u64) -> ChatRun {
        if self.limit_reached(run.rounds_used) {
            run
        } else {
            match self.session(run.session_id) {
                Some(s) if s.state is AwaitingCalls => {
                    let round = RoundStartView {
                        turn_id: s.resumed().turn_id,
                        request: s.resumed().request(s.options),
                    };
                    self.with_session(run.session_id, s.resumed()).entered_run(
                        one_more_round(run),
                        round,
                        now,
                    )
                },
                _ => run,
            }
        }
    }

    /// The engine with the results of tool calls in their session.
    pub open spec fn with_results(self, id: SessionId, results: Seq<ExecutedToolView>) -> EngineView {
        match self.session(id) {
            Some(s) => self.with_session(id, answer_results(s, results)),
            None => self,
        }
    }

    /// What a chat has come to when its tool calls have ended.
    pub open spec fn tools_run(
        self,
        run: ChatRun,
        round: ToolRoundView,
        results: Seq<ExecutedToolView>,
        now: u64,
    ) -> ChatRun {
        if round.waiting.len() == 0 || ends_chat(self.tools, round, results) {
            run
        } else {
            self.with_results(run.session_id, results).next_run(run, now)
        }
    }

    /// What follows tool calls that have ended.
    pub open spec fn after_tools(
        self,
        run: ChatRun,
        round: ToolRoundView,
        results: Seq<ExecutedToolView>,
        now: u64,
    ) -> (EngineView, ChatStepView) {
        let id = run.session_id;
        if round.waiting.len() == 0 {
            (
                self.settled(id),
                ChatStepView::Done(EngineReplyView::Success(round.response)),
            )
        } else {
            let taken = self.with_results(id, results);
            if ends_chat(self.tools, round, results) {
                (
                    taken.settled(id),
                    ChatStepView::Done(
                        EngineReplyView::Success(
                            ChatResponseView { usage: run.usage_sum, ..round.response },
                        ),
                    ),
                )
            } else {
                taken.next_round(run, now)
            }
        }
    }
}

/// Whether the results of a round end the chat: no call was refused, cut off or
/// dispatched, every call did what it was asked for, and one of the tools is
/// terminal.
pub open spec fn ends_chat(
    tools: Option<ToolRegistryView>,
    round: ToolRoundView,
    results: Seq<ExecutedToolView>,
) -> bool {
    &&& !round.refused
    &&& round.dispatched.len() == 0
    &&& tools matches Some(reg) && converges(results, reg)
}

/// The chat with one more call of the model.
pub open spec fn one_more_round(run: ChatRun) -> ChatRun {
    ChatRun {
        rounds_used: if run.rounds_used == u32::MAX {
            u32::MAX
        } else {
            (run.rounds_used + 1) as u32
        },
        ..run
    }
}

/// A change of one session keeps the engine in order.
proof fn lemma_with_session(e: EngineView, id: SessionId, s: SessionView)
    requires
        e.wf(),
        s.wf(),
        e.session(id) is Some || e.sessions.len() < e.config.max_sessions,
    ensures
        e.with_session(id, s).wf(),
        e.with_session(id, s).session(id) == Some(s),
        e.with_session(id, s).tools == e.tools,
{
    let k = session_key(id);
    let items = e.sessions;
    crate::table::law_lookup_put(items, k, s, k);
    if e.session(id) is Some {
        let i = lemma_found(items, k);
        lemma_at(items, i);
        let after = items.update(i, (k, s));
        assert forall|a: int, b: int| 0 <= a < b < after.len() implies (#[trigger] after[a]).0
            != (#[trigger] after[b]).0 by {
            assert(after[a].0 == items[a].0 && after[b].0 == items[b].0);
        }
        assert forall|j: int| 0 <= j < after.len() implies (#[trigger] after[j]).1.wf()
            && after[j].0 == session_key(id_of(after[j].0)) by {
            if j != i {
                assert(after[j] == items[j]);
            }
        }
    } else {
        assert forall|j: int| 0 <= j < items.len() implies (#[trigger] items[j]).0 != k by {
            if items[j].0 == k {
                lemma_at(items, j);
            }
        }
        lemma_absent(items, k);
        let after = items.push((k, s));
        assert forall|a: int, b: int| 0 <= a < b < after.len() implies (#[trigger] after[a]).0
            != (#[trigger] after[b]).0 by {
            assert(after[a] == items[a]);
            if b < items.len() {
                assert(after[b] == items[b]);
            }
        }
        assert forall|j: int| 0 <= j < after.len() implies (#[trigger] after[j]).1.wf()
            && after[j].0 == session_key(id_of(after[j].0)) by {
            if j < items.len() {
                assert(after[j] == items[j]);
            }
        }
    }
}

/// A session that is there is in order.
proof fn lemma_session_wf(e: EngineView, id: SessionId)
    requires
        e.wf(),
        e.session(id) is Some,
    ensures
        e.session(id)->0.wf(),
{
    let i = lemma_found(e.sessions, session_key(id));
}

/// Two changes of one session are the second.
proof fn lemma_put_put(e: EngineView, id: SessionId, a: SessionView, b: SessionView)
    requires
        e.wf(),
        e.session(id) is Some,
    ensures
        e.with_session(id, a).with_session(id, b) == e.with_session(id, b),
        e.with_session(id, e.session(id)->0) == e,
{
    let k = session_key(id);
    let items = e.sessions;
    let i = lemma_found(items, k);
    lemma_at(items, i);
    let after = items.update(i, (k, a));
    assert forall|x: int, y: int| 0 <= x < y < after.len() implies (#[trigger] after[x]).0 != (
    #[trigger] after[y]).0 by {
        assert(after[x].0 == items[x].0 && after[y].0 == items[y].0);
    }
    lemma_at(after, i);
    assert(after.update(i, (k, b)) =~= items.update(i, (k, b)));
    assert(items.update(i, (k, items[i].1)) =~= items);
}

impl Engine {
    /// Everything that the engine holds is in order.
    pub closed spec fn wf(self) -> bool {
        &&& self.sessions.wf()
        &&& self.deep_view().wf()
        &&& self.tools matches Some(t) ==> t.wf()
        &&& self.cache matches Some(c) ==> c.wf()
    }

    /// The bound on sessions is kept, and every session is in order.
    pub proof fn lemma_wf(&self)
        requires
            self.wf(),
        ensures
            self.deep_view().wf(),
    {
    }

    /// An engine without sessions and tools. Responses are kept where the
    /// configuration says so.
    pub fn new(provider: ProviderInfo, config: EngineConfig) -> (r: Engine)
        requires
            config.cache.ttl.wf(),
        ensures
            r.wf(),
            r.deep_view() == (EngineView {
                sessions: Seq::empty(),
                provider: provider.deep_view(),
                config: config.deep_view(),
                tools: None,
                executor: None,
                total: 0,
                cache: if config.cache.enabled {
                    Some(
                        CacheView {
                            entries: Seq::empty(),
                            capacity: config.cache.capacity,
                            ttl: config.cache.ttl,
                        },
                    )
                } else {
                    None
                },
            }),
    {
        let cache = if config.cache.enabled {
            let c = InMemoryCache::new(config.cache.capacity, config.cache.ttl);
            proof {
                c.lemma_wf();
            }
            Some(c)
        } else {
            None
        };
        Engine {
            sessions: Table::new(),
            provider,
            config,
            tools: None,
            tool_executor: None,
            total_consumed_tokens: 0,
            cache,
        }
    }

    /// The engine with tools.
    pub fn with_tools(self, registry: ToolRegistry, executor: ToolExecutor) -> (r: Engine)
        requires
            self.wf(),
            registry.wf(),
        ensures
            r.wf(),
            r.deep_view() == (EngineView {
                tools: Some(registry.deep_view()),
                executor: Some(executor.deep_view()),
                ..self.deep_view()
            }),
    {
        let mut e = self;
        e.tools = Some(registry);
        e.tool_executor = Some(executor);
        e
    }

    /// The engine with the tokens counted that others have used of a shared
    /// budget.
    pub fn with_global_budget(self, used: u64) -> (r: Engine)
        requires
            self.wf(),
        ensures
            r.wf(),
            r.deep_view() == (EngineView { total: used, ..self.deep_view() }),
    {
        let mut e = self;
        e.total_consumed_tokens = used;
        e
    }

    /// Registers a tool, where the engine has tools.
    pub fn register_tool(&mut self, tool: ToolInfo) -> (r: Result<(), RegistryError>)
        requires
            old(self).wf(),
        ensures
            final(self).wf(),
            old(self).deep_view().tools is None ==> (match r {
                Err(e) => e.deep_view() == RegistryErrorView::NotEnabled,
                Ok(_) => false,
            }),
            old(self).deep_view().tools matches Some(reg) ==> (match r {
                Ok(_) => Ok::<(), RegistryErrorView>(()),
                Err(e) => Err(e.deep_view()),
            }) == reg.verdict(tool.deep_view()),
            r is Err ==> final(self).deep_view() == old(self).deep_view(),
            r is Ok ==> final(self).deep_view() == (EngineView {
                tools: Some(
                    ToolRegistryView {
                        tools: old(self).deep_view().tools->0.tools.push(
                            (named(tool.name@), tool.deep_view()),
                        ),
                        ..old(self).deep_view().tools->0
                    },
                ),
                ..old(self).deep_view()
            }),
    {
        match &mut self.tools {
            Some(registry) => registry.register(tool),
            None => Err(RegistryError::NotEnabled),
        }
    }

    /// The tools of the engine.
    pub fn tools(&self) -> (r: Option<&ToolRegistry>)
        requires
            self.wf(),
        ensures
            r is Some <==> self.deep_view().tools is Some,
            r matches Some(t) ==> t.wf() && Some(t.deep_view()) == self.deep_view().tools,
    {
        match &self.tools {
            Some(t) => Some(t),
            None => None,
        }
    }

    pub fn config(&self) -> (r: &EngineConfig)
        ensures
            r.deep_view() == self.deep_view().config,
    {
        &self.config
    }

    pub fn session_count(&self) -> (r: usize)
        ensures
            r == self.deep_view().sessions.len(),
    {
        self.sessions.len()
    }

    pub fn total_consumed_tokens(&self) -> (r: u64)
        ensures
            r == self.deep_view().total,
    {
        self.total_consumed_tokens
    }

    /// How many responses are kept.
    pub fn cache_len(&self) -> (r: usize)
        ensures
            r == (match self.deep_view().cache {
                Some(c) => c.entries.len(),
                None => 0,
            }),
    {
        match &self.cache {
            Some(c) => c.len(),
            None => 0,
        }
    }

    /// The session of an identity.
    pub fn session(&self, id: SessionId) -> (r: Option<&Session>)
        requires
            self.wf(),
        ensures
            r is Some <==> self.deep_view().session(id) is Some,
            r matches Some(s) ==> Some(s.deep_view()) == self.deep_view().session(id),
    {
        self.sessions.get(&key_of(id))
    }

    /// How many tokens a session has used.
    pub fn session_consumed_tokens(&self, id: SessionId) -> (r: Option<u64>)
        requires
            self.wf(),
        ensures
            r == (match self.deep_view().session(id) {
                Some(s) => Some(s.consumed_tokens),
                None => None,
            }),
    {
        match self.session(id) {
            Some(s) => Some(s.consumed_tokens()),
            None => None,
        }
    }

    /// How many messages a model is shown of a session.
    pub fn history_len(&self, id: SessionId) -> (r: Option<usize>)
        requires
            self.wf(),
        ensures
            r == (match self.deep_view().session(id) {
                Some(s) => Some(s.window().len() as usize),
                None => None,
            }),
    {
        match self.session(id) {
            Some(s) => Some(s.history_len()),
            None => None,
        }
    }

    /// The kinds of the pieces that are cut or dropped of what the model of a session
    /// is asked now.
    pub fn prompt_cuts(&self, id: SessionId) -> (r: Option<Vec<&'static str>>)
        requires
            self.wf(),
        ensures
            r.deep_view() == (match self.deep_view().session(id) {
                Some(s) => Some(cut_kinds(s.parts(s.options))),
                None => None,
            }),
    {
        match self.session(id) {
            Some(s) => Some(s.prompt_cuts()),
            None => None,
        }
    }

    /// A session at this moment.
    pub fn session_info(&self, id: SessionId) -> (r: Option<SessionSnapshot>)
        requires
            self.wf(),
        ensures
            r == (match self.deep_view().session(id) {
                Some(s) => Some(snapshot_of(s)),
                None => None,
            }),
    {
        match self.session(id) {
            Some(s) => Some(
                SessionSnapshot {
                    state: SessionPhase::of(s.state()),
                    history_len: s.history_len(),
                    consumed_tokens: s.consumed_tokens(),
                    peer_depth: s.peer_depth(),
                },
            ),
            None => None,
        }
    }

    /// The identities of all sessions.
    pub fn list_sessions(&self) -> (r: Vec<SessionId>)
        ensures
            r@ == self.deep_view().sessions.map_values(
                |e: (KeyView, SessionView)| id_of(e.0),
            ),
    {
        let ghost wanted = self.deep_view().sessions.map_values(
            |e: (KeyView, SessionView)| id_of(e.0),
        );
        let mut out: Vec<SessionId> = Vec::new();
        let mut i: usize = 0;
        while i < self.sessions.len()
            invariant
                i <= self.sessions.deep_view().len(),
                wanted == self.sessions.deep_view().map_values(
                    |e: (KeyView, SessionView)| id_of(e.0),
                ),
                out@ == wanted.take(i as int),
            decreases self.sessions.deep_view().len() - i,
        {
            let k = self.sessions.key_at(i);
            out.push(SessionId { hi: k.1, lo: k.2 });
            proof {
                assert(wanted.take(i + 1) =~= wanted.take(i as int).push(wanted[i as int]));
            }
            i = i + 1;
        }
        proof {
            assert(wanted.take(wanted.len() as int) =~= wanted);
        }
        out
    }

    /// Takes a session out, and says whether there was one.
    pub fn remove_session(&mut self, id: SessionId) -> (r: bool)
        requires
            old(self).wf(),
        ensures
            final(self).wf(),
            r == (old(self).deep_view().session(id) is Some),
            final(self).deep_view() == (EngineView {
                sessions: drop_key(old(self).deep_view().sessions, session_key(id)),
                ..old(self).deep_view()
            }),
    {
        let key = key_of(id);
        proof {
            lemma_removed(self.deep_view(), key.deep_view());
        }
        match self.sessions.remove(&key) {
            Some(_) => true,
            None => false,
        }
    }

    /// Takes out the sessions that have been idle for as long as a time. A
    /// session with a round under way stays.
    pub fn sweep_idle(&mut self, now: u64, idle_timeout: Duration) -> (r: Vec<SessionId>)
        requires
            old(self).wf(),
            idle_timeout.wf(),
        ensures
            final(self).wf(),
            final(self).deep_view() == (EngineView {
                sessions: survivors(old(self).deep_view().sessions, now, idle_timeout),
                ..old(self).deep_view()
            }),
            r@ == reaped(old(self).deep_view().sessions, now, idle_timeout),
    {
        let ghost start = self.deep_view();
        let ghost all = start.sessions;
        let mut out: Vec<SessionId> = Vec::new();
        let mut i: usize = 0;
        let ghost mut done: int = 0;
        proof {
            assert(survivors(all.take(0), now, idle_timeout) =~= Seq::empty());
            assert(Seq::empty() + all.skip(0) =~= all);
        }
        while i < self.sessions.len()
            invariant
                self.wf(),
                idle_timeout.wf(),
                all == start.sessions,
                0 <= done <= all.len(),
                i == survivors(all.take(done), now, idle_timeout).len(),
                self.deep_view() == (EngineView {
                    sessions: survivors(all.take(done), now, idle_timeout) + all.skip(done),
                    ..start
                }),
                out@ == reaped(all.take(done), now, idle_timeout),
            decreases all.len() - done,
        {
            let ghost kept = survivors(all.take(done), now, idle_timeout);
            let ghost items = self.sessions.deep_view();
            proof {
                assert(done < all.len());
                assert(items[i as int] == all[done]);
                assert(all.take(done + 1).drop_last() =~= all.take(done));
                assert(all.take(done + 1).last() == all[done]);
            }
            let s = self.sessions.at(i);
            let last: u64 = s.last_active();
            let age: u64 = if now >= last {
                now - last
            } else {
                0
            };
            let idle = s.is_idle();
            let span = Duration::from_millis(age);
            if idle && span.at_least(&idle_timeout) {
                let k = self.sessions.key_at(i);
                let key = (k.0.clone(), k.1, k.2);
                out.push(SessionId { hi: key.1, lo: key.2 });
                proof {
                    lemma_removed(self.deep_view(), key.deep_view());
                    lemma_at(items, i as int);
                    assert(items.remove(i as int) =~= kept + all.skip(done + 1));
                }
                let _gone = self.sessions.remove(&key);
            } else {
                proof {
                    assert(kept.push(all[done]) + all.skip(done + 1) =~= kept + all.skip(done));
                }
                i = i + 1;
            }
            proof {
                done = done + 1;
            }
        }
        proof {
            let kept = survivors(all.take(done), now, idle_timeout);
            assert(all.skip(done).len() == 0);
            assert(all.take(done) =~= all);
            assert(kept + all.skip(done) =~= kept);
        }
        out
    }

    /// Makes sure that there is a session, and says whether there is.
    pub fn ensure_session(&mut self, id: SessionId, now: u64) -> (r: bool)
        requires
            old(self).wf(),
        ensures
            final(self).wf(),
            r == (old(self).deep_view().ensured(id, now) is Some),
            r ==> Some(final(self).deep_view()) == old(self).deep_view().ensured(id, now),
            r ==> final(self).deep_view().session(id) is Some,
            !r ==> final(self).deep_view() == old(self).deep_view(),
    {
        let key = key_of(id);
        if self.sessions.place(&key).is_some() {
            return true;
        }
        if self.sessions.len() >= self.config.max_sessions {
            return false;
        }
        let session = Session::new(self.config.session.clone(), now).with_session_id(id);
        proof {
            lemma_with_session(self.deep_view(), id, session.deep_view());
        }
        self.sessions.insert(key, session);
        true
    }

    /// Whether a limit on tokens is reached, and which.
    pub fn check_budget(&self, id: SessionId) -> (r: Result<(), BudgetError>)
        requires
            self.wf(),
        ensures
            r == budget_verdict(
                self.deep_view().config.budget,
                match self.deep_view().session(id) {
                    Some(s) => s.consumed_tokens,
                    None => 0,
                },
                self.deep_view().total,
            ),
    {
        let used: u64 = match self.session(id) {
            Some(s) => s.consumed_tokens(),
            None => 0,
        };
        self.config.budget.check(used, self.total_consumed_tokens)
    }

    /// Begins a chat: the session is there, no budget is used up, what is always
    /// delivered fits into the model's window, and no round is under way. A chat
    /// that is refused leaves no trace in any conversation.
    pub fn prepare_round(&mut self, id: SessionId, payload: ChatPayload, now: u64) -> (r: Result<
        RoundStart,
        EngineStartError,
    >)
        requires
            old(self).wf(),
        ensures
            final(self).wf(),
            ({
                let (e, answer) = old(self).deep_view().begun(
                    id,
                    payload.message.deep_view(),
                    payload.options.deep_view(),
                    payload.peer_depth,
                    now,
                );
                &&& final(self).deep_view() == e
                &&& match r {
                    Ok(round) => answer == Ok::<RoundStartView, EngineStartError>(
                        round.deep_view(),
                    ),
                    Err(x) => answer == Err::<RoundStartView, EngineStartError>(x),
                }
            }),
    {
        if !self.ensure_session(id, now) {
            return Err(EngineStartError::MaxSessions);
        }
        let ghost e = self.deep_view();
        if let Err(x) = self.check_budget(id) {
            return Err(EngineStartError::Budget(x));
        }
        let mut options = payload.options;
        let ghost options_before = options.deep_view();
        let peer_depth: u32 = payload.peer_depth;
        if let Some(registry) = &self.tools {
            if options.tools.len() == 0 {
                options.tools = registry.declarations_for_depth(
                    peer_depth,
                    self.config.max_subagent_depth,
                );
            }
        }
        let ghost ov = options.deep_view();
        proof {
            assert(ov == effective_options(
                options_before,
                e.tools,
                peer_depth,
                e.config.max_subagent_depth,
            ));
        }
        let window: usize = self.provider.model_spec.context_window_tokens;
        let key = key_of(id);
        let i: usize = match self.sessions.place(&key) {
            Some(i) => i,
            None => {
                return Err(EngineStartError::MaxSessions);
            },
        };
        proof {
            lemma_at(e.sessions, i as int);
            lemma_session_wf(e, id);
        }
        let system_cost: u64 = match &options.system_prompt {
            Some(t) => TokenEstimator::estimate(t.as_str()),
            None => match &self.sessions.at(i).config().default_system_prompt {
                Some(t) => TokenEstimator::estimate(t.as_str()),
                None => 0,
            },
        };
        let estimated: u64 = system_cost.saturating_add(
            TokenEstimator::estimate(payload.message.content.text_or_empty()),
        );
        if estimated >= window as u64 {
            return Err(EngineStartError::PromptTooLarge { estimated, window });
        }
        let ghost s0 = e.session(id)->0;
        let session = self.sessions.at_mut(i);
        let round = session.start_round(payload.message, &options, peer_depth, now);
        proof {
            if s0.can_start() {
                let s = s0.started(payload.message.deep_view(), ov, peer_depth, now);
                lemma_with_session(e, id, s);
            } else {
                lemma_put_put(e, id, s0, s0);
            }
        }
        match round {
            Some(r) => Ok(r),
            None => Err(EngineStartError::Busy),
        }
    }

    /// Tells a session to stop. Says whether there was a round to stop.
    pub fn interrupt(&mut self, id: SessionId) -> (r: bool)
        requires
            old(self).wf(),
        ensures
            final(self).wf(),
            r <==> (old(self).deep_view().session(id) matches Some(s) && s.busy()),
            !r ==> final(self).deep_view() == old(self).deep_view(),
            r ==> final(self).deep_view() == old(self).deep_view().with_session(
                id,
                interrupted(old(self).deep_view().session(id)->0),
            ),
    {
        let ghost e = self.deep_view();
        let key = key_of(id);
        let i: usize = match self.sessions.place(&key) {
            Some(i) => i,
            None => {
                return false;
            },
        };
        if !self.sessions.at(i).is_busy() {
            return false;
        }
        proof {
            lemma_at(e.sessions, i as int);
            lemma_session_wf(e, id);
            lemma_with_session(e, id, interrupted(e.session(id)->0));
        }
        let s = self.sessions.at_mut(i);
        s.raise_interrupt();
        let _claimed = s.cancel_thinking();
        true
    }

    /// Tells every session with a round under way to stop.
    pub fn interrupt_all(&mut self)
        requires
            old(self).wf(),
        ensures
            final(self).wf(),
            final(self).deep_view() == (EngineView {
                sessions: all_interrupted(old(self).deep_view().sessions),
                ..old(self).deep_view()
            }),
    {
        let ghost start = self.deep_view();
        let ghost all = start.sessions;
        let ghost wanted = all_interrupted(all);
        let n: usize = self.sessions.len();
        let mut i: usize = 0;
        proof {
            assert(wanted.take(0) + all.skip(0) =~= all);
        }
        while i < n
            invariant
                i <= n,
                n == all.len(),
                all == start.sessions,
                wanted == all_interrupted(all),
                start.wf(),
                self.wf(),
                self.deep_view() == (EngineView {
                    sessions: wanted.take(i as int) + all.skip(i as int),
                    ..start
                }),
            decreases n - i,
        {
            let ghost before = self.deep_view().sessions;
            proof {
                assert(before[i as int] == all[i as int]);
                assert(wanted.take(i + 1) + all.skip(i + 1) =~= before.update(
                    i as int,
                    wanted[i as int],
                ));
                let after = before.update(i as int, wanted[i as int]);
                assert forall|a: int, b: int| 0 <= a < b < after.len() implies (
                #[trigger] after[a]).0 != (#[trigger] after[b]).0 by {
                    assert(after[a].0 == before[a].0 && after[b].0 == before[b].0);
                }
                assert forall|j: int| 0 <= j < after.len() implies (#[trigger] after[j]).1.wf()
            && after[j].0 == session_key(id_of(after[j].0)) by {
                    assert(before[j].1.wf());
                }
                if !all[i as int].1.busy() {
                    assert(after =~= before);
                }
            }
            if self.sessions.at(i).is_busy() {
                let s = self.sessions.at_mut(i);
                s.raise_interrupt();
                let _claimed = s.cancel_thinking();
            }
            i = i + 1;
        }
        proof {
            assert(wanted.take(n as int) + all.skip(n as int) =~= wanted);
        }
    }

    /// Sets how many tokens are used of a budget that engines share.
    pub fn set_global_used(&mut self, used: u64)
        requires
            old(self).wf(),
        ensures
            final(self).wf(),
            final(self).deep_view() == (EngineView { total: used, ..old(self).deep_view() }),
    {
        self.total_consumed_tokens = used;
    }

    /// Whether a session was told to stop.
    pub fn is_interrupted(&self, id: SessionId) -> (r: bool)
        requires
            self.wf(),
        ensures
            r == self.deep_view().told_to_stop(id),
    {
        match self.session(id) {
            Some(s) => s.is_interrupted(),
            None => false,
        }
    }

    /// Puts messages into a session's record, as many as there is room for, and
    /// says how many. The session is made where it is not there.
    pub fn restore_session_history(
        &mut self,
        id: SessionId,
        messages: Vec<Message>,
        now: u64,
    ) -> (r: Result<usize, EngineError>)
        requires
            old(self).wf(),
        ensures
            final(self).wf(),
            final(self).deep_view() == old(self).deep_view().restored(
                id,
                messages.deep_view(),
                now,
            ).0,
            match old(self).deep_view().restored(id, messages.deep_view(), now).1 {
                Some(n) => r matches Ok(x) && x == n,
                None => r matches Err(e) && e.deep_view() == EngineErrorView::StateConflict(
                    "max sessions reached"@,
                ),
            },
    {
        if !self.ensure_session(id, now) {
            return Err(EngineError::StateConflict("max sessions reached".to_owned()));
        }
        let ghost e = self.deep_view();
        let ghost s0 = e.session(id)->0;
        let key = key_of(id);
        let i: usize = match self.sessions.place(&key) {
            Some(i) => i,
            None => {
                return Err(EngineError::StateConflict("max sessions reached".to_owned()));
            },
        };
        proof {
            lemma_at(e.sessions, i as int);
            lemma_session_wf(e, id);
        }
        let session = self.sessions.at_mut(i);
        let n: usize = push_all(session, messages);
        proof {
            lemma_with_session(
                e,
                id,
                SessionView { log: s0.log.plus_all(messages.deep_view()), ..s0 },
            );
        }
        Ok(n)
    }

    /// As [`Engine::restore_session_history`], with an error in words.
    pub fn replay_history(&mut self, id: SessionId, messages: Vec<Message>, now: u64) -> (r: Result<
        usize,
        String,
    >)
        requires
            old(self).wf(),
        ensures
            final(self).wf(),
            final(self).deep_view() == old(self).deep_view().restored(
                id,
                messages.deep_view(),
                now,
            ).0,
            match old(self).deep_view().restored(id, messages.deep_view(), now).1 {
                Some(n) => r matches Ok(x) && x == n,
                None => r matches Err(t) && t@ == "state conflict: "@ + "max sessions reached"@,
            },
    {
        match self.restore_session_history(id, messages, now) {
            Ok(n) => Ok(n),
            Err(e) => Err(e.message()),
        }
    }

    /// Keeps the result of a dispatched tool for the next round of its session.
    /// Says whether the session is still there.
    pub fn inject_result(&mut self, id: SessionId, result: &ExecutedTool, now: u64) -> (r: bool)
        requires
            old(self).wf(),
        ensures
            final(self).wf(),
            match old(self).deep_view().session(id) {
                None => !r && final(self).deep_view() == old(self).deep_view(),
                Some(s) => r && final(self).deep_view() == old(self).deep_view().with_session(
                    id,
                    s.injected(completion_text(result.tool_name@, result.result@), now),
                ),
            },
    {
        let ghost e = self.deep_view();
        let key = key_of(id);
        let i: usize = match self.sessions.place(&key) {
            Some(i) => i,
            None => {
                return false;
            },
        };
        proof {
            lemma_at(e.sessions, i as int);
            lemma_session_wf(e, id);
            let s = e.session(id)->0;
            let text = completion_text(result.tool_name@, result.result@);
            lemma_with_session(e, id, s.injected(text, now));
        }
        let s = self.sessions.at_mut(i);
        s.inject_tool_result(completion_message(result), now);
        true
    }

    /// Records the results of a session's calls and ends its round.
    fn settle(&mut self, id: SessionId)
        requires
            old(self).wf(),
        ensures
            final(self).wf(),
            final(self).deep_view() == old(self).deep_view().settled(id),
    {
        let ghost e = self.deep_view();
        let key = key_of(id);
        if let Some(i) = self.sessions.place(&key) {
            proof {
                lemma_at(e.sessions, i as int);
                lemma_session_wf(e, id);
                lemma_with_session(e, id, e.session(id)->0.settled());
            }
            let s = self.sessions.at_mut(i);
            let _was_awaiting = s.settle_dispatched();
        }
    }

    /// What follows the beginning of a round.
    pub fn enter_round(&mut self, run: &mut ChatRun, round: RoundStart, now: u64) -> (r: ChatStep)
        requires
            old(self).wf(),
        ensures
            final(self).wf(),
            ({
                let (e, step) = old(self).deep_view().entered(
                    one_more_round(*old(run)),
                    round.deep_view(),
                    now,
                );
                &&& final(self).deep_view() == e
                &&& r.deep_view() == step
            }),
            *final(run) == old(self).deep_view().entered_run(
                one_more_round(*old(run)),
                round.deep_view(),
                now,
            ),
    {
        run.rounds_used = run.rounds_used.saturating_add(1);
        let id = run.session_id;
        let ghost e = self.deep_view();
        if self.is_interrupted(id) {
            let key = key_of(id);
            if let Some(i) = self.sessions.place(&key) {
                proof {
                    lemma_at(e.sessions, i as int);
                    lemma_session_wf(e, id);
                    lemma_with_session(
                        e,
                        id,
                        e.session(id)->0.finished(round.turn_id, OutcomeView::Cancelled),
                    );
                }
                let s = self.sessions.at_mut(i);
                let _action = s.finish_thinking(round.turn_id, TurnOutcome::Cancelled);
            }
            return ChatStep::Done(EngineReply::Cancelled);
        }
        let mut known: Option<ChatResponse> = None;
        let mut key: Option<CacheKey> = None;
        if !run.streaming {
            if let Some(cache) = &mut self.cache {
                let k = cache.key_for_request(&round.request, self.provider.id.as_str());
                known = cache.get(&k, now);
                proof {
                    cache.lemma_wf();
                }
                key = Some(k);
            }
        }
        match known {
            Some(resp) => self.finish_round(
                run,
                round.turn_id,
                key,
                TurnOutcome::Cached(Box::new(resp)),
                now,
            ),
            None => ChatStep::Call { turn_id: round.turn_id, request: round.request, key },
        }
    }

    /// What follows the end of a call of the model: the answer is counted and
    /// kept, and its tool calls are looked at.
    pub fn finish_round(
        &mut self,
        run: &mut ChatRun,
        turn_id: u64,
        key: Option<CacheKey>,
        outcome: TurnOutcome,
        now: u64,
    ) -> (r: ChatStep)
        requires
            old(self).wf(),
        ensures
            final(self).wf(),
            ({
                let (e, step) = old(self).deep_view().after_call(
                    *old(run),
                    turn_id,
                    key.deep_view(),
                    outcome.deep_view(),
                    now,
                );
                &&& final(self).deep_view() == e
                &&& r.deep_view() == step
            }),
            *final(run) == (ChatRun {
                usage_sum: summed(
                    old(run).usage_sum,
                    match outcome.deep_view().response() {
                        Some(resp) => resp.usage,
                        None => None,
                    },
                ),
                ..*old(run)
            }),
    {
        let ghost start = self.deep_view();
        let ghost ov = outcome.deep_view();
        let ghost kv = key.deep_view();
        let id = run.session_id;
        if let TurnOutcome::Success(resp) = &outcome {
            self.total_consumed_tokens = add_tokens(
                self.total_consumed_tokens,
                tokens_from_response(resp),
            );
            if resp.message.tool_calls.len() == 0 {
                if let (Some(cache), Some(k)) = (&mut self.cache, key) {
                    cache.set(k, (**resp).clone(), now);
                    proof {
                        cache.lemma_wf();
                    }
                }
            }
        }
        let ghost e = self.deep_view();
        proof {
            assert(e == start.accounted(ov, kv, now));
        }
        let usage = match &outcome {
            TurnOutcome::Success(resp) => resp.usage,
            TurnOutcome::Cached(resp) => resp.usage,
            _ => None,
        };
        if let Some(u) = usage {
            match &mut run.usage_sum {
                Some(sum) => {
                    sum.merge(&u);
                },
                None => {
                    run.usage_sum = Some(u);
                },
            }
        }
        let timed_out = match &outcome {
            TurnOutcome::Timeout => true,
            _ => false,
        };
        let llm_error = match &outcome {
            TurnOutcome::Error(x) => Some(x.clone()),
            _ => None,
        };
        let skey = key_of(id);
        let i: usize = match self.sessions.place(&skey) {
            Some(i) => i,
            None => {
                return ChatStep::Done(failure(false, timed_out, llm_error, Ghost(ov)));
            },
        };
        let ghost s = e.session(id)->0;
        let ghost t = s.finished(turn_id, ov);
        proof {
            lemma_at(e.sessions, i as int);
            lemma_session_wf(e, id);
        }
        let session = self.sessions.at_mut(i);
        let action = session.finish_thinking(turn_id, outcome);
        let was_interrupted = session.is_interrupted();
        proof {
            lemma_with_session(e, id, t);
        }
        let ghost done = self.deep_view();
        proof {
            assert(done == e.with_session(id, t));
        }
        match action {
            FinishAction::Idle { response: Some(resp) } => ChatStep::Done(
                EngineReply::Success(Box::new(resp)),
            ),
            FinishAction::Idle { response: None } => ChatStep::Done(
                failure(was_interrupted, timed_out, llm_error, Ghost(ov)),
            ),
            FinishAction::AwaitingCalls { response, tool_calls } => {
                if self.tools.is_none() || self.tool_executor.is_none() {
                    proof {
                        let idle = SessionView { state: StateView::Idle, ..t };
                        lemma_with_session(done, id, idle);
                        let j = lemma_found(done.sessions, session_key(id));
                        lemma_at(done.sessions, j);
                    }
                    if let Some(j) = self.sessions.place(&skey) {
                        proof {
                            lemma_at(done.sessions, j as int);
                        }
                        let session = self.sessions.at_mut(j);
                        session.force_idle();
                    }
                    return ChatStep::Done(EngineReply::Success(Box::new(response)));
                }
                self.open_tools(id, turn_id, response, tool_calls)
            },
        }
    }

    /// Looks at the calls of a response: some are answered at once, and the rest
    /// is to be run.
    fn open_tools(
        &mut self,
        id: SessionId,
        turn_id: u64,
        response: ChatResponse,
        tool_calls: Vec<ToolCall>,
    ) -> (r: ChatStep)
        requires
            old(self).wf(),
            old(self).deep_view().has_tools(),
            tool_calls.deep_view() == response.deep_view().message.tool_calls,
        ensures
            final(self).wf(),
            final(self).deep_view() == old(self).deep_view().planned(id, tool_calls.deep_view()),
            r.deep_view() == ChatStepView::Tools(
                old(self).deep_view().tool_round(id, turn_id, response.deep_view()),
            ),
    {
        let ghost e = self.deep_view();
        let ghost plan = e.plan(id, tool_calls.deep_view());
        let depth: u32 = match self.session(id) {
            Some(s) => s.peer_depth(),
            None => 0,
        };
        let at_limit = depth >= self.config.max_subagent_depth;
        let executor = match &self.tool_executor {
            Some(x) => *x,
            None => ToolExecutor::with_defaults(),
        };
        let max: usize = executor.config().max_per_turn;
        let mut blocked: Vec<ToolCall> = Vec::new();
        let mut rest = tool_calls;
        let mut cut: Vec<ToolCall> = Vec::new();
        let mut waiting: Vec<ToolCall> = Vec::new();
        let mut dispatched: Vec<ToolCall> = Vec::new();
        proof {
            assert(blocked.deep_view() =~= Seq::empty());
        }
        if let Some(registry) = &self.tools {
            if at_limit {
                let (yes, no) = part_by_bar(rest, registry);
                blocked = yes;
                rest = no;
            }
            let (head, tail) = executor.truncate(rest);
            proof {
                if tail@.len() == 0 {
                    assert(tail.deep_view() =~= Seq::empty());
                }
            }
            cut = tail;
            let (w, d) = executor.split_by_wait(head, registry);
            waiting = w;
            dispatched = d;
        }
        proof {
            assert(blocked.deep_view() == plan.blocked);
            assert(cut.deep_view() == plan.cut);
            assert(waiting.deep_view() == plan.waiting);
            assert(dispatched.deep_view() == plan.dispatched);
        }
        let refused = blocked.len() > 0 || cut.len() > 0;
        let key = key_of(id);
        if let Some(i) = self.sessions.place(&key) {
            proof {
                lemma_at(e.sessions, i as int);
                lemma_session_wf(e, id);
            }
            let s = self.sessions.at_mut(i);
            answer_calls(
                s,
                &blocked,
                "Rejected: subagent nesting depth limit reached. This agent cannot call sub-agents.",
            );
            let too_many = too_many_text(max);
            answer_calls(s, &cut, too_many.as_str());
            answer_calls(
                s,
                &dispatched,
                "Task dispatched (async execution); real result will be injected into a later turn.",
            );
            proof {
                lemma_with_session(e, id, answer_plan(e.session(id)->0, plan, max));
            }
        }
        ChatStep::Tools(
            ToolRound {
                turn_id,
                response,
                waiting,
                dispatched,
                refused,
                depth,
                serial: !self.provider.capabilities.parallel_tool_calls,
            },
        )
    }

    /// Begins the next round of a chat, where it may have one.
    pub fn resume_round(&mut self, run: &mut ChatRun, now: u64) -> (r: ChatStep)
        requires
            old(self).wf(),
        ensures
            final(self).wf(),
            ({
                let (e, step) = old(self).deep_view().next_round(*old(run), now);
                &&& final(self).deep_view() == e
                &&& r.deep_view() == step
            }),
            *final(run) == old(self).deep_view().next_run(*old(run), now),
    {
        let id = run.session_id;
        let ghost e = self.deep_view();
        let limit = match self.config.session.max_rounds_per_chat {
            Some(max) => run.rounds_used >= max,
            None => false,
        };
        if limit {
            self.settle(id);
            return ChatStep::Done(
                EngineReply::Error(
                    EngineError::MaxRoundsExceeded { rounds: run.rounds_used },
                ),
            );
        }
        let key = key_of(id);
        let mut resumed: Option<RoundStart> = None;
        if let Some(i) = self.sessions.place(&key) {
            proof {
                lemma_at(e.sessions, i as int);
                lemma_session_wf(e, id);
            }
            let s = self.sessions.at_mut(i);
            resumed = s.resume_thinking();
            proof {
                let s0 = e.session(id)->0;
                if s0.state is AwaitingCalls {
                    lemma_with_session(e, id, s0.resumed());
                } else {
                    lemma_put_put(e, id, s0, s0);
                }
            }
        }
        match resumed {
            Some(round) => self.enter_round(run, round, now),
            None => ChatStep::Done(
                EngineReply::Error(
                    EngineError::StateConflict("resume failed (not awaiting)".to_owned()),
                ),
            ),
        }
    }

    /// What follows tool calls that have ended. Results that end the chat end
    /// it, with the tokens of all its calls; others go into the next round. Where
    /// every call was dispatched, the chat is over for now.
    pub fn finish_tools(
        &mut self,
        run: &mut ChatRun,
        round: ToolRound,
        results: Vec<ExecutedTool>,
        now: u64,
    ) -> (r: ChatStep)
        requires
            old(self).wf(),
        ensures
            final(self).wf(),
            ({
                let (e, step) = old(self).deep_view().after_tools(
                    *old(run),
                    round.deep_view(),
                    results.deep_view(),
                    now,
                );
                &&& final(self).deep_view() == e
                &&& r.deep_view() == step
            }),
            *final(run) == old(self).deep_view().tools_run(
                *old(run),
                round.deep_view(),
                results.deep_view(),
                now,
            ),
    {
        let id = run.session_id;
        let ghost e = self.deep_view();
        if round.waiting.len() == 0 {
            self.settle(id);
            return ChatStep::Done(EngineReply::Success(Box::new(round.response)));
        }
        let terminal = if round.refused || round.dispatched.len() > 0 {
            false
        } else {
            match &self.tools {
                Some(registry) => is_terminal_convergence(&results, registry),
                None => false,
            }
        };
        proof {
            assert(terminal == ends_chat(e.tools, round.deep_view(), results.deep_view()));
        }
        let key = key_of(id);
        if let Some(i) = self.sessions.place(&key) {
            proof {
                lemma_at(e.sessions, i as int);
                lemma_session_wf(e, id);
            }
            let s = self.sessions.at_mut(i);
            take_results(s, &results);
            proof {
                lemma_with_session(e, id, answer_results(e.session(id)->0, results.deep_view()));
            }
        }
        if terminal {
            self.settle(id);
            let mut response = round.response;
            response.usage = run.usage_sum;
            return ChatStep::Done(EngineReply::Success(Box::new(response)));
        }
        self.resume_round(run, now)
    }
}

/// What a failed round ends a chat with.
fn failure(
    was_interrupted: bool,
    timed_out: bool,
    llm_error: Option<LlmError>,
    Ghost(outcome): Ghost<OutcomeView>,
) -> (r: EngineReply)
    requires
        timed_out == (outcome is Timeout),
        llm_error.deep_view() == (match outcome {
            OutcomeView::Error(e) => Some(e),
            _ => None,
        }),
    ensures
        r.deep_view() == failed_reply(was_interrupted, outcome),
{
    if was_interrupted {
        return EngineReply::Cancelled;
    }
    if timed_out {
        return EngineReply::Timeout;
    }
    match llm_error {
        Some(e) => EngineReply::Error(EngineError::Llm(e)),
        None => EngineReply::Error(EngineError::TurnIncomplete),
    }
}

/// Records messages until there is no room, and says how many.
fn push_all(s: &mut Session, messages: Vec<Message>) -> (r: usize)
    ensures
        final(s).deep_view() == (SessionView {
            log: old(s).deep_view().log.plus_all(messages.deep_view()),
            ..old(s).deep_view()
        }),
        r == final(s).deep_view().log.facts.len() - old(s).deep_view().log.facts.len(),
        old(s).deep_view().wf() ==> final(s).deep_view().wf(),
{
    let ghost start = s.deep_view();
    let ghost all = messages.deep_view();
    let ghost kept = messages@;
    let mut rest = messages;
    let total: usize = rest.len();
    let mut n: usize = 0;
    proof {
        assert(start.log.facts + all.take(0) =~= start.log.facts);
    }
    while n < total
        invariant
            n <= total,
            total == kept.len(),
            start == old(s).deep_view(),
            all == messages.deep_view(),
            all == kept.map_values(|m: Message| m.deep_view()),
            rest@ == kept.skip(n as int),
            start.log.facts.len() + n <= start.log.max_events || n == 0,
            start.wf() ==> s.deep_view().wf(),
            s.deep_view() == (SessionView {
                log: SessionLogView { facts: start.log.facts + all.take(n as int), ..start.log },
                ..start
            }),
        decreases total - n,
    {
        let m = rest.remove(0);
        proof {
            assert(m == kept[n as int]);
            assert(rest@ =~= kept.skip(n + 1));
            assert(all.take(n + 1) =~= all.take(n as int).push(all[n as int]));
            assert(start.log.facts + all.take(n + 1) =~= (start.log.facts + all.take(
                n as int,
            )).push(all[n as int]));
        }
        if let Err(_) = s.push_history(m) {
            proof {
                assert(s.deep_view().log == start.log.plus_all(all)) by {
                    if n == 0 {
                        assert(start.log.facts + all.take(0) =~= start.log.facts);
                    }
                }
            }
            return n;
        }
        n = n + 1;
    }
    proof {
        assert(all.take(all.len() as int) =~= all);
        if all.len() == 0 {
            assert(start.log.facts + all =~= start.log.facts);
        }
    }
    n
}

/// Taking a session out keeps the engine in order.
proof fn lemma_removed(e: EngineView, key: KeyView)
    requires
        e.wf(),
    ensures
        (EngineView { sessions: drop_key(e.sessions, key), ..e }).wf(),
{
    let items = e.sessions;
    if lookup(items, key) is Some {
        let i = lemma_found(items, key);
        lemma_at(items, i);
        let after = items.remove(i);
        assert forall|a: int, b: int| 0 <= a < b < after.len() implies (#[trigger] after[a]).0
            != (#[trigger] after[b]).0 by {
            let p = if a < i {
                a
            } else {
                a + 1
            };
            let q = if b < i {
                b
            } else {
                b + 1
            };
            assert(after[a] == items[p] && after[b] == items[q]);
        }
        assert forall|j: int| 0 <= j < after.len() implies (#[trigger] after[j]).1.wf()
            && after[j].0 == session_key(id_of(after[j].0)) by {
            let p = if j < i {
                j
            } else {
                j + 1
            };
            assert(after[j] == items[p]);
        }
    } else {
        assert forall|j: int| 0 <= j < items.len() implies (#[trigger] items[j]).0 != key by {
            if items[j].0 == key {
                lemma_at(items, j);
            }
        }
        lemma_absent(items, key);
    }
}

} // verus!
