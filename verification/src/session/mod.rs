//! The state of one conversation.
//!
//! A session is idle, thinking (a call of the model is under way) or awaiting
//! the results of tool calls. Every change of state is a method here; whoever
//! calls the model or runs the tools reports back through them.

use vstd::prelude::*;
use vstd::string::*;

use crate::budget::{add_tokens, counted, response_tokens, tokens_from_response};
use crate::json::{Number, NumberView};
use crate::prompt::{
    build_prompt, build_prompt_noted, cut_kinds, prompt_of, PromptParts, PromptPartsView,
};
use crate::provider::{
    copy_number, copy_opt, ChatRequest, ChatRequestView, ChatResponse, ChatResponseView, LlmError,
    LlmErrorView, Message, MessageView, Role, ToolCall, ToolCallView,
};
use crate::session::log::{last_of, lemma_plus_all, LogError, SessionLog, SessionLogView};
use crate::session::message::{ChatOptions, ChatOptionsView, SessionId};
use crate::session::timeout::TimeoutConfig;
use crate::text::{
    comes_before, law_precedes_total, law_precedes_transitive, precedes, same,
};
use crate::time::Duration;

pub mod codec;
pub mod kept_laws;
pub mod laws;
pub mod log;
pub mod message;
pub mod timeout;

verus! {

broadcast use vstd::string::group_string_axioms;

/// What a session waits for.
#[derive(Debug, Clone, Copy, PartialEq, Eq, Structural)]
pub enum PendingKind {
    Tool,
}

impl DeepView for PendingKind {
    type V = PendingKind;

    open spec fn deep_view(&self) -> PendingKind {
        *self
    }
}

/// Where a session stands.
#[derive(Debug)]
pub enum SessionState {
    Idle,
    /// `cancel` says that the call of the model can still be cancelled.
    Thinking { turn_id: u64, cancel: bool },
    /// The calls that are not answered yet, and the answers so far in the order
    /// of their ids.
    AwaitingCalls {
        turn_id: u64,
        pending: Vec<(String, PendingKind)>,
        tool_results: Vec<(String, String)>,
    },
}

pub enum StateView {
    Idle,
    Thinking { turn_id: u64, cancel: bool },
    AwaitingCalls {
        turn_id: u64,
        pending: Seq<(Seq<char>, PendingKind)>,
        tool_results: Seq<(Seq<char>, Seq<char>)>,
    },
}

impl DeepView for SessionState {
    type V = StateView;

    open spec fn deep_view(&self) -> StateView {
        match *self {
            SessionState::Idle => StateView::Idle,
            SessionState::Thinking { turn_id, cancel } => StateView::Thinking { turn_id, cancel },
            SessionState::AwaitingCalls { turn_id, pending, tool_results } => {
                StateView::AwaitingCalls {
                    turn_id,
                    pending: pending.deep_view(),
                    tool_results: tool_results.deep_view(),
                }
            },
        }
    }
}

/// How a call of the model ended.
#[derive(Debug)]
pub enum TurnOutcome {
    Success(Box<ChatResponse>),
    /// The response was known already; nothing was used up.
    Cached(Box<ChatResponse>),
    Error(LlmError),
    Cancelled,
    Timeout,
    Panic(String),
}

pub enum OutcomeView {
    Success(ChatResponseView),
    Cached(ChatResponseView),
    Error(LlmErrorView),
    Cancelled,
    Timeout,
    Panic(Seq<char>),
}

impl DeepView for TurnOutcome {
    type V = OutcomeView;

    open spec fn deep_view(&self) -> OutcomeView {
        match *self {
            TurnOutcome::Success(r) => OutcomeView::Success(r.deep_view()),
            TurnOutcome::Cached(r) => OutcomeView::Cached(r.deep_view()),
            TurnOutcome::Error(e) => OutcomeView::Error(e.deep_view()),
            TurnOutcome::Cancelled => OutcomeView::Cancelled,
            TurnOutcome::Timeout => OutcomeView::Timeout,
            TurnOutcome::Panic(s) => OutcomeView::Panic(s@),
        }
    }
}

impl OutcomeView {
    /// The response that came, from the model or from a cache.
    pub open spec fn response(self) -> Option<ChatResponseView> {
        match self {
            OutcomeView::Success(r) => Some(r),
            OutcomeView::Cached(r) => Some(r),
            _ => None,
        }
    }

    /// The tokens that were used up.
    pub open spec fn tokens(self) -> u64 {
        match self {
            OutcomeView::Success(r) => response_tokens(r),
            _ => 0,
        }
    }
}

/// What follows the end of a call of the model.
#[derive(Debug)]
#[allow(inconsistent_fields)]
pub enum FinishAction {
    Idle { response: Option<ChatResponse> },
    AwaitingCalls { response: ChatResponse, tool_calls: Vec<ToolCall> },
}

pub enum FinishActionView {
    Idle(Option<ChatResponseView>),
    AwaitingCalls(ChatResponseView),
}

impl FinishAction {
    /// The tool calls are those of the response.
    pub open spec fn wf(self) -> bool {
        match self {
            FinishAction::Idle { .. } => true,
            FinishAction::AwaitingCalls { response, tool_calls } => tool_calls.deep_view()
                == response.deep_view().message.tool_calls,
        }
    }
}

impl DeepView for FinishAction {
    type V = FinishActionView;

    open spec fn deep_view(&self) -> FinishActionView {
        match *self {
            FinishAction::Idle { response } => FinishActionView::Idle(response.deep_view()),
            FinishAction::AwaitingCalls { response, .. } => FinishActionView::AwaitingCalls(
                response.deep_view(),
            ),
        }
    }
}

/// What follows the result of a tool call.
#[derive(Debug, Clone, Copy, PartialEq, Eq, Structural)]
pub enum ToolCallAction {
    /// Other calls are not answered yet.
    Pending,
    /// Every call is answered.
    AllDone,
    /// Nothing waits for this result.
    Ignored,
}

/// The limits and defaults of a session.
#[derive(Debug)]
pub struct SessionConfig {
    /// How many messages a model is shown.
    pub max_history: usize,
    /// How many messages are recorded.
    pub max_events: usize,
    pub timeout: TimeoutConfig,
    pub default_temperature: Option<Number>,
    pub default_max_tokens: Option<usize>,
    /// The token budget of a prompt; zero is no budget.
    pub prompt_budget_tokens: usize,
    pub default_system_prompt: Option<String>,
    /// After which time without activity an idle session may be removed.
    pub idle_timeout: Option<Duration>,
    /// How many calls of the model one chat may make.
    pub max_rounds_per_chat: Option<u32>,
}

pub struct SessionConfigView {
    pub max_history: usize,
    pub max_events: usize,
    pub timeout: TimeoutConfig,
    pub default_temperature: Option<NumberView>,
    pub default_max_tokens: Option<usize>,
    pub prompt_budget_tokens: usize,
    pub default_system_prompt: Option<Seq<char>>,
    pub idle_timeout: Option<Duration>,
    pub max_rounds_per_chat: Option<u32>,
}

impl DeepView for SessionConfig {
    type V = SessionConfigView;

    open spec fn deep_view(&self) -> SessionConfigView {
        SessionConfigView {
            max_history: self.max_history,
            max_events: self.max_events,
            timeout: self.timeout,
            default_temperature: self.default_temperature.deep_view(),
            default_max_tokens: self.default_max_tokens,
            prompt_budget_tokens: self.prompt_budget_tokens,
            default_system_prompt: self.default_system_prompt.deep_view(),
            idle_timeout: self.idle_timeout,
            max_rounds_per_chat: self.max_rounds_per_chat,
        }
    }
}

impl Clone for SessionConfig {
    fn clone(&self) -> (r: Self)
        ensures
            r.deep_view() == self.deep_view(),
    {
        SessionConfig {
            max_history: self.max_history,
            max_events: self.max_events,
            timeout: self.timeout,
            default_temperature: copy_number(&self.default_temperature),
            default_max_tokens: self.default_max_tokens,
            prompt_budget_tokens: self.prompt_budget_tokens,
            default_system_prompt: copy_opt(&self.default_system_prompt),
            idle_timeout: self.idle_timeout,
            max_rounds_per_chat: self.max_rounds_per_chat,
        }
    }
}

impl SessionConfig {
    /// The limits of a session that nobody configured.
    pub open spec fn is_usual(self) -> bool {
        &&& self.max_history == 50
        &&& self.max_events == 4096
        &&& self.timeout.wf()
        &&& self.timeout.thinking_timeout.total() == 30_000_000_000
        &&& self.timeout.awaiting_calls_timeout.total() == 60_000_000_000
        &&& self.default_temperature is None
        &&& self.default_max_tokens is None
        &&& self.prompt_budget_tokens == 8000
        &&& self.default_system_prompt is None
        &&& self.idle_timeout is None
        &&& self.max_rounds_per_chat is None
    }
}

impl Default for SessionConfig {
    fn default() -> (r: Self)
        ensures
            r.is_usual(),
    {
        SessionConfig {
            max_history: 50,
            max_events: 4096,
            timeout: TimeoutConfig::default(),
            default_temperature: None,
            default_max_tokens: None,
            prompt_budget_tokens: 8000,
            default_system_prompt: None,
            idle_timeout: None,
            max_rounds_per_chat: None,
        }
    }
}

/// A round that has begun: its number and what to ask the model.
#[derive(Debug)]
pub struct RoundStart {
    pub turn_id: u64,
    pub request: ChatRequest,
}

pub struct RoundStartView {
    pub turn_id: u64,
    pub request: ChatRequestView,
}

impl DeepView for RoundStart {
    type V = RoundStartView;

    open spec fn deep_view(&self) -> RoundStartView {
        RoundStartView { turn_id: self.turn_id, request: self.request.deep_view() }
    }
}

/// How many results of dispatched tools wait for the next round.
pub const MAX_PENDING_INJECTIONS: usize = 64;

/// One conversation.
#[derive(Debug)]
pub struct Session {
    state: SessionState,
    log: SessionLog,
    session_id: SessionId,
    turn_id: u64,
    config: SessionConfig,
    interrupt: bool,
    peer_depth: u32,
    last_chat_options: ChatOptions,
    consumed_tokens: u64,
    pending_injections: Vec<String>,
    last_active: u64,
}

pub struct SessionView {
    pub state: StateView,
    pub log: SessionLogView,
    pub session_id: SessionId,
    pub turn_id: u64,
    pub config: SessionConfigView,
    pub interrupt: bool,
    pub peer_depth: u32,
    pub options: ChatOptionsView,
    pub consumed_tokens: u64,
    pub injections: Seq<Seq<char>>,
    pub last_active: u64,
}

impl DeepView for Session {
    type V = SessionView;

    closed spec fn deep_view(&self) -> SessionView {
        SessionView {
            state: self.state.deep_view(),
            log: self.log.deep_view(),
            session_id: self.session_id,
            turn_id: self.turn_id,
            config: self.config.deep_view(),
            interrupt: self.interrupt,
            peer_depth: self.peer_depth,
            options: self.last_chat_options.deep_view(),
            consumed_tokens: self.consumed_tokens,
            injections: self.pending_injections.deep_view(),
            last_active: self.last_active,
        }
    }
}

// ---------------------------------------------------------------------------
// Calls and their results

/// The ids of tool calls, each once, in the order in which they first come.
pub open spec fn pending_of(calls: Seq<ToolCallView>) -> Seq<(Seq<char>, PendingKind)>
    decreases calls.len(),
{
    if calls.len() == 0 {
        Seq::empty()
    } else {
        let before = pending_of(calls.drop_last());
        if awaits(before, calls.last().id) {
            before
        } else {
            before.push((calls.last().id, PendingKind::Tool))
        }
    }
}

/// Whether the call of an id is not answered yet.
pub open spec fn awaits(pending: Seq<(Seq<char>, PendingKind)>, id: Seq<char>) -> bool {
    exists|i: int| 0 <= i < pending.len() && (#[trigger] pending[i]).0 == id
}

/// The calls without that of an id.
pub open spec fn without_id(pending: Seq<(Seq<char>, PendingKind)>, id: Seq<char>) -> Seq<
    (Seq<char>, PendingKind),
>
    decreases pending.len(),
{
    if pending.len() == 0 {
        Seq::empty()
    } else {
        let before = without_id(pending.drop_last(), id);
        if pending.last().0 == id {
            before
        } else {
            before.push(pending.last())
        }
    }
}

/// The results with that of one more call, in the order of the ids.
pub open spec fn put_result(
    results: Seq<(Seq<char>, Seq<char>)>,
    id: Seq<char>,
    text: Seq<char>,
) -> Seq<(Seq<char>, Seq<char>)>
    decreases results.len(),
{
    if results.len() == 0 {
        seq![(id, text)]
    } else if results[0].0 == id {
        results.update(0, (id, text))
    } else if precedes(id, results[0].0) {
        seq![(id, text)] + results
    } else {
        seq![results[0]] + put_result(results.drop_first(), id, text)
    }
}

/// The result of the call of an id.
pub open spec fn result_of(results: Seq<(Seq<char>, Seq<char>)>, id: Seq<char>) -> Option<
    Seq<char>,
>
    decreases results.len(),
{
    if results.len() == 0 {
        None
    } else if results[0].0 == id {
        Some(results[0].1)
    } else {
        result_of(results.drop_first(), id)
    }
}

/// Whether the results stand in the order of their ids, each id once.
pub open spec fn ordered(results: Seq<(Seq<char>, Seq<char>)>) -> bool {
    forall|i: int, j: int|
        0 <= i < j < results.len() ==> precedes(
            (#[trigger] results[i]).0,
            (#[trigger] results[j]).0,
        )
}

/// A result goes to the call of its id and to no other, and the order is kept.
pub proof fn law_put_result(
    results: Seq<(Seq<char>, Seq<char>)>,
    id: Seq<char>,
    text: Seq<char>,
    other: Seq<char>,
)
    requires
        ordered(results),
    ensures
        ordered(put_result(results, id, text)),
        result_of(put_result(results, id, text), other) == (if other == id {
            Some(text)
        } else {
            result_of(results, other)
        }),
        forall|i: int|
            0 <= i < put_result(results, id, text).len() ==> (#[trigger] put_result(
                results,
                id,
                text,
            )[i]).0 == id || exists|j: int|
                0 <= j < results.len() && #[trigger] results[j] == put_result(
                    results,
                    id,
                    text,
                )[i],
    decreases results.len(),
{
    let after = put_result(results, id, text);
    if results.len() == 0 {
        assert(result_of(after.drop_first(), other) is None);
    } else if results[0].0 == id {
        assert(after.drop_first() =~= results.drop_first());
        assert forall|i: int| 0 <= i < after.len() implies (#[trigger] after[i]).0 == id
            || exists|j: int| 0 <= j < results.len() && #[trigger] results[j] == after[i] by {
            if i > 0 {
                assert(results[i] == after[i]);
            }
        }
        assert forall|i: int, j: int| 0 <= i < j < after.len() implies precedes(
            (#[trigger] after[i]).0,
            (#[trigger] after[j]).0,
        ) by {
            assert(after[i].0 == results[i].0 && after[j].0 == results[j].0);
        }
    } else if precedes(id, results[0].0) {
        assert(after.drop_first() =~= results);
        assert forall|i: int| 0 <= i < after.len() implies (#[trigger] after[i]).0 == id
            || exists|j: int| 0 <= j < results.len() && #[trigger] results[j] == after[i] by {
            if i > 0 {
                assert(results[i - 1] == after[i]);
            }
        }
        assert forall|i: int, j: int| 0 <= i < j < after.len() implies precedes(
            (#[trigger] after[i]).0,
            (#[trigger] after[j]).0,
        ) by {
            assert(after[j] == results[j - 1]);
            if i > 0 {
                assert(after[i] == results[i - 1]);
            } else if j > 1 {
                assert(precedes(results[0].0, results[j - 1].0));
                law_precedes_transitive(id, results[0].0, results[j - 1].0);
            }
        }
    } else {
        law_precedes_total(id, results[0].0);
        let rest = results.drop_first();
        assert forall|i: int, j: int| 0 <= i < j < rest.len() implies precedes(
            (#[trigger] rest[i]).0,
            (#[trigger] rest[j]).0,
        ) by {
            assert(rest[i] == results[i + 1] && rest[j] == results[j + 1]);
        }
        law_put_result(rest, id, text, other);
        let tail = put_result(rest, id, text);
        assert(after.drop_first() =~= tail);
        assert forall|i: int| 0 <= i < after.len() implies (#[trigger] after[i]).0 == id
            || exists|j: int| 0 <= j < results.len() && #[trigger] results[j] == after[i] by {
            if i == 0 {
                assert(results[0] == after[0]);
            } else {
                assert(after[i] == tail[i - 1]);
                if tail[i - 1].0 != id {
                    let j = choose|j: int|
                        0 <= j < rest.len() && #[trigger] rest[j] == tail[i - 1];
                    assert(results[j + 1] == after[i]);
                }
            }
        }
        assert forall|i: int, j: int| 0 <= i < j < after.len() implies precedes(
            (#[trigger] after[i]).0,
            (#[trigger] after[j]).0,
        ) by {
            assert(after[j] == tail[j - 1]);
            if i > 0 {
                assert(after[i] == tail[i - 1]);
            } else if tail[j - 1].0 != id {
                let k = choose|k: int| 0 <= k < rest.len() && #[trigger] rest[k] == tail[j - 1];
                assert(results[k + 1] == after[j]);
            }
        }
    }
}

/// Where in the results an id stands or belongs.
proof fn lemma_put_at(
    results: Seq<(Seq<char>, Seq<char>)>,
    id: Seq<char>,
    text: Seq<char>,
    n: int,
)
    requires
        0 <= n <= results.len(),
        forall|i: int| 0 <= i < n ==> precedes((#[trigger] results[i]).0, id),
        n < results.len() ==> !precedes(results[n].0, id),
    ensures
        n < results.len() && results[n].0 == id ==> put_result(results, id, text)
            == results.update(n, (id, text)),
        n == results.len() || results[n].0 != id ==> put_result(results, id, text)
            == results.insert(n, (id, text)),
    decreases n,
{
    if n == 0 {
        if results.len() > 0 {
            law_precedes_total(results[0].0, id);
        }
        if results.len() == 0 || results[0].0 != id {
            assert(put_result(results, id, text) =~= results.insert(0, (id, text)));
        }
    } else {
        law_precedes_total(results[0].0, id);
        let rest = results.drop_first();
        assert(precedes(results[0].0, id));
        assert forall|i: int| 0 <= i < n - 1 implies precedes((#[trigger] rest[i]).0, id) by {
            assert(rest[i] == results[i + 1]);
        }
        lemma_put_at(rest, id, text, n - 1);
        if n < results.len() && results[n].0 == id {
            assert(put_result(results, id, text) =~= results.update(n, (id, text)));
        } else {
            assert(put_result(results, id, text) =~= results.insert(n, (id, text)));
        }
    }
}

/// What is awaited once the call of an id is answered: every other.
pub proof fn law_without_id(
    pending: Seq<(Seq<char>, PendingKind)>,
    id: Seq<char>,
    other: Seq<char>,
)
    ensures
        awaits(without_id(pending, id), other) <==> other != id && awaits(pending, other),
    decreases pending.len(),
{
    if pending.len() > 0 {
        let before = pending.drop_last();
        let rest = without_id(before, id);
        let after = without_id(pending, id);
        law_without_id(before, id, other);
        if awaits(after, other) {
            let i = choose|i: int| 0 <= i < after.len() && (#[trigger] after[i]).0 == other;
            if i < rest.len() {
                assert(rest[i].0 == other);
                let j = choose|j: int| 0 <= j < before.len() && (#[trigger] before[j]).0 == other;
                assert(pending[j].0 == other);
            } else {
                assert(pending[pending.len() - 1].0 == other);
            }
        }
        if other != id && awaits(pending, other) {
            let i = choose|i: int| 0 <= i < pending.len() && (#[trigger] pending[i]).0 == other;
            if i < before.len() {
                assert(before[i].0 == other);
                let j = choose|j: int| 0 <= j < rest.len() && (#[trigger] rest[j]).0 == other;
                assert(after[j].0 == other);
            } else {
                assert(after[rest.len() as int].0 == other);
            }
        }
    }
}

/// What is awaited after a response: the calls that it makes.
pub proof fn law_pending_of(calls: Seq<ToolCallView>, id: Seq<char>)
    ensures
        awaits(pending_of(calls), id) <==> exists|i: int|
            0 <= i < calls.len() && (#[trigger] calls[i]).id == id,
    decreases calls.len(),
{
    if calls.len() > 0 {
        let before = calls.drop_last();
        law_pending_of(before, id);
        law_pending_of(before, calls.last().id);
        let p = pending_of(before);
        let after = pending_of(calls);
        if awaits(after, id) {
            let i = choose|i: int| 0 <= i < after.len() && (#[trigger] after[i]).0 == id;
            if i < p.len() {
                assert(p[i].0 == id);
                let j = choose|j: int| 0 <= j < before.len() && (#[trigger] before[j]).id == id;
                assert(calls[j].id == id);
            } else {
                assert(calls[calls.len() - 1].id == id);
            }
        }
        if exists|i: int| 0 <= i < calls.len() && (#[trigger] calls[i]).id == id {
            let i = choose|i: int| 0 <= i < calls.len() && (#[trigger] calls[i]).id == id;
            if i < before.len() {
                assert(before[i].id == id);
                let j = choose|j: int| 0 <= j < p.len() && (#[trigger] p[j]).0 == id;
                assert(after[j].0 == id);
            } else if !awaits(p, id) {
                assert(after[p.len() as int].0 == id);
            }
        }
    }
}

/// The messages that results make.
pub open spec fn result_messages(results: Seq<(Seq<char>, Seq<char>)>) -> Seq<MessageView> {
    results.map_values(
        |r: (Seq<char>, Seq<char>)|
            (MessageView { tool_call_id: Some(r.0), ..MessageView::plain(Role::Tool, r.1) }),
    )
}

/// The messages that the results of dispatched tools make.
pub open spec fn injected_messages(texts: Seq<Seq<char>>) -> Seq<MessageView> {
    texts.map_values(|t: Seq<char>| MessageView::plain(Role::User, t))
}

/// The first of two that is there.
pub open spec fn either<T>(a: Option<T>, b: Option<T>) -> Option<T> {
    match a {
        Some(_) => a,
        None => b,
    }
}

impl SessionView {
    /// The bounds hold, a round under way is the last one that was begun, and
    /// the results stand in order.
    pub open spec fn wf(self) -> bool {
        &&& self.log.wf()
        &&& self.log.max_events == self.config.max_events
        &&& self.injections.len() <= MAX_PENDING_INJECTIONS
        &&& match self.state {
            StateView::Idle => true,
            StateView::Thinking { turn_id, .. } => turn_id == self.turn_id,
            StateView::AwaitingCalls { turn_id, tool_results, .. } => turn_id == self.turn_id
                && ordered(tool_results),
        }
    }

    pub open spec fn busy(self) -> bool {
        !(self.state is Idle)
    }

    /// What a model is shown of the conversation.
    pub open spec fn window(self) -> Seq<MessageView> {
        last_of(self.log.facts, self.config.max_history as int)
    }

    /// The parts of what a model is asked: what it is shown of the conversation, and
    /// the options with the session's defaults.
    pub open spec fn parts(self, options: ChatOptionsView) -> PromptPartsView {
        PromptPartsView {
            system: match either(options.system_prompt, self.config.default_system_prompt) {
                Some(t) => Some(MessageView::plain(Role::System, t)),
                None => None,
            },
            tools: options.tools,
            history: self.window(),
            memory: Seq::empty(),
            artifacts: Seq::empty(),
            temperature: either(options.temperature, self.config.default_temperature),
            max_tokens: either(options.max_tokens, self.config.default_max_tokens),
            thinking: options.thinking,
            prompt_budget: self.config.prompt_budget_tokens,
        }
    }

    /// What a model is asked.
    pub open spec fn request(self, options: ChatOptionsView) -> ChatRequestView {
        prompt_of(self.parts(options))
    }

    /// A new session.
    pub open spec fn fresh(config: SessionConfigView, now: u64) -> SessionView {
        SessionView {
            state: StateView::Idle,
            log: SessionLogView { facts: Seq::empty(), max_events: config.max_events },
            session_id: SessionId { hi: 0, lo: 0 },
            turn_id: 0,
            config,
            interrupt: false,
            peer_depth: 0,
            options: ChatOptionsView::none(),
            consumed_tokens: 0,
            injections: Seq::empty(),
            last_active: now,
        }
    }

    /// The number of the next round. Numbers start again after the last one.
    pub open spec fn next_turn(self) -> u64 {
        if self.turn_id == u64::MAX {
            0
        } else {
            (self.turn_id + 1) as u64
        }
    }

    /// The session with the next round under way.
    pub open spec fn thinking(self) -> SessionView {
        SessionView {
            state: StateView::Thinking { turn_id: self.next_turn(), cancel: true },
            turn_id: self.next_turn(),
            ..self
        }
    }

    /// The session with a message recorded, where there is room.
    pub open spec fn recorded(self, m: MessageView) -> SessionView {
        SessionView { log: self.log.plus(m), ..self }
    }

    /// The session with the results of dispatched tools recorded as messages of
    /// the user.
    pub open spec fn flushed(self) -> SessionView {
        SessionView {
            log: self.log.plus_all(injected_messages(self.injections)),
            injections: Seq::empty(),
            ..self
        }
    }

    /// Whether a chat can begin: no round is under way, and there is room for
    /// its message.
    pub open spec fn can_start(self) -> bool {
        !self.busy() && !self.log.full()
    }

    /// The session once a chat has begun.
    pub open spec fn started(
        self,
        m: MessageView,
        options: ChatOptionsView,
        peer_depth: u32,
        now: u64,
    ) -> SessionView {
        SessionView {
            interrupt: false,
            last_active: now,
            options,
            peer_depth,
            ..self.recorded(m).thinking().flushed()
        }
    }

    /// Whether the round of a number is the one under way.
    pub open spec fn thinks(self, turn: u64) -> bool {
        self.state matches StateView::Thinking { turn_id, .. } && turn_id == turn
    }

    /// The session once a call of the model has ended.
    pub open spec fn finished(self, turn: u64, outcome: OutcomeView) -> SessionView {
        if !self.thinks(turn) {
            self
        } else {
            match outcome.response() {
                Some(resp) => SessionView {
                    state: if resp.message.tool_calls.len() > 0 {
                        StateView::AwaitingCalls {
                            turn_id: turn,
                            pending: pending_of(resp.message.tool_calls),
                            tool_results: Seq::empty(),
                        }
                    } else {
                        StateView::Idle
                    },
                    consumed_tokens: counted(self.consumed_tokens, outcome.tokens()),
                    ..self.recorded(resp.message)
                },
                None => SessionView { state: StateView::Idle, ..self },
            }
        }
    }

    /// What follows the end of a call of the model.
    pub open spec fn finish_action(self, turn: u64, outcome: OutcomeView) -> FinishActionView {
        match outcome.response() {
            Some(resp) => if !self.thinks(turn) {
                FinishActionView::Idle(None)
            } else if resp.message.tool_calls.len() > 0 {
                FinishActionView::AwaitingCalls(resp)
            } else {
                FinishActionView::Idle(Some(resp))
            },
            None => FinishActionView::Idle(None),
        }
    }

    /// Whether the session awaits the call of an id.
    pub open spec fn awaiting(self, id: Seq<char>) -> bool {
        self.state matches StateView::AwaitingCalls { pending, .. } && awaits(pending, id)
    }

    /// The session once a tool call is answered.
    pub open spec fn answered(self, id: Seq<char>, text: Seq<char>) -> SessionView {
        match self.state {
            StateView::AwaitingCalls { turn_id, pending, tool_results } => if awaits(pending, id) {
                SessionView {
                    state: StateView::AwaitingCalls {
                        turn_id,
                        pending: without_id(pending, id),
                        tool_results: put_result(tool_results, id, text),
                    },
                    ..self
                }
            } else {
                self
            },
            _ => self,
        }
    }

    /// What follows the answer to a tool call.
    pub open spec fn answer_action(self, id: Seq<char>) -> ToolCallAction {
        match self.state {
            StateView::AwaitingCalls { pending, .. } => if !awaits(pending, id) {
                ToolCallAction::Ignored
            } else if without_id(pending, id).len() == 0 {
                ToolCallAction::AllDone
            } else {
                ToolCallAction::Pending
            },
            _ => ToolCallAction::Ignored,
        }
    }

    /// The session with the results of its tool calls recorded, and idle.
    pub open spec fn settled(self) -> SessionView {
        match self.state {
            StateView::AwaitingCalls { tool_results, .. } => SessionView {
                state: StateView::Idle,
                log: self.log.plus_all(result_messages(tool_results)),
                ..self
            },
            _ => self,
        }
    }

    /// The session once the round after its tool calls has begun.
    pub open spec fn resumed(self) -> SessionView {
        self.settled().flushed().thinking()
    }

    /// The session with the result of a dispatched tool waiting for the next
    /// round. The oldest goes where there are too many.
    pub open spec fn injected(self, text: Seq<char>, now: u64) -> SessionView {
        if text.len() == 0 {
            self
        } else {
            SessionView {
                last_active: now,
                injections: (if self.injections.len() >= MAX_PENDING_INJECTIONS {
                    self.injections.drop_first()
                } else {
                    self.injections
                }).push(text),
                ..self
            }
        }
    }
}

/// The ids of tool calls, each once.
fn pending_calls(calls: &Vec<ToolCall>) -> (r: Vec<(String, PendingKind)>)
    ensures
        r.deep_view() == pending_of(calls.deep_view()),
{
    let ghost all = calls.deep_view();
    let mut out: Vec<(String, PendingKind)> = Vec::new();
    proof {
        assert(out.deep_view() =~= pending_of(all.take(0)));
    }
    let mut i: usize = 0;
    while i < calls.len()
        invariant
            i <= calls@.len(),
            all == calls.deep_view(),
            out.deep_view() == pending_of(all.take(i as int)),
        decreases calls@.len() - i,
    {
        proof {
            assert(all.take(i + 1).drop_last() =~= all.take(i as int));
            assert(all.take(i + 1).last() == all[i as int]);
        }
        if !is_pending(&out, calls[i].id.as_str()) {
            let ghost before = out.deep_view();
            let id = calls[i].id.clone();
            out.push((id, PendingKind::Tool));
            proof {
                assert(out.deep_view() =~= before.push((id@, PendingKind::Tool)));
            }
        }
        i = i + 1;
    }
    proof {
        assert(all.take(all.len() as int) =~= all);
    }
    out
}

/// Whether the call of an id is not answered yet.
fn is_pending(pending: &Vec<(String, PendingKind)>, id: &str) -> (r: bool)
    ensures
        r == awaits(pending.deep_view(), id@),
{
    let ghost all = pending.deep_view();
    let mut i: usize = 0;
    while i < pending.len()
        invariant
            i <= pending@.len(),
            all == pending.deep_view(),
            forall|j: int| 0 <= j < i ==> (#[trigger] all[j]).0 != id@,
        decreases pending@.len() - i,
    {
        if same(pending[i].0.as_str(), id) {
            proof {
                assert(all[i as int].0 == id@);
            }
            return true;
        }
        proof {
            assert(all[i as int].0 == pending@[i as int].0@);
        }
        i = i + 1;
    }
    false
}

/// The calls without that of an id.
fn drop_pending(pending: &Vec<(String, PendingKind)>, id: &str) -> (r: Vec<(String, PendingKind)>)
    ensures
        r.deep_view() == without_id(pending.deep_view(), id@),
{
    let ghost all = pending.deep_view();
    let mut out: Vec<(String, PendingKind)> = Vec::new();
    proof {
        assert(out.deep_view() =~= without_id(all.take(0), id@));
    }
    let mut i: usize = 0;
    while i < pending.len()
        invariant
            i <= pending@.len(),
            all == pending.deep_view(),
            out.deep_view() == without_id(all.take(i as int), id@),
        decreases pending@.len() - i,
    {
        proof {
            assert(all.take(i + 1).drop_last() =~= all.take(i as int));
            assert(all.take(i + 1).last() == all[i as int]);
        }
        if !same(pending[i].0.as_str(), id) {
            let ghost before = out.deep_view();
            let p = (pending[i].0.clone(), pending[i].1);
            out.push(p);
            proof {
                assert(out.deep_view() =~= before.push(all[i as int]));
            }
        }
        i = i + 1;
    }
    proof {
        assert(all.take(all.len() as int) =~= all);
    }
    out
}

/// Puts a result in its place.
fn add_result(results: &mut Vec<(String, String)>, id: &str, text: String)
    ensures
        final(results).deep_view() == put_result(old(results).deep_view(), id@, text@),
{
    let ghost before = results.deep_view();
    let mut n: usize = 0;
    while n < results.len() && comes_before(results[n].0.as_str(), id)
        invariant
            n <= results@.len(),
            before == results.deep_view(),
            forall|i: int| 0 <= i < n ==> precedes((#[trigger] before[i]).0, id@),
        decreases results@.len() - n,
    {
        proof {
            assert(before[n as int].0 == results@[n as int].0@);
        }
        n = n + 1;
    }
    proof {
        if n < results@.len() {
            assert(before[n as int].0 == results@[n as int].0@);
        }
        lemma_put_at(before, id@, text@, n as int);
    }
    let ghost tv = text@;
    let ghost stands = n < before.len() && before[n as int].0 == id@;
    if n < results.len() && same(results[n].0.as_str(), id) {
        results.remove(n);
    }
    results.insert(n, (id.to_owned(), text));
    proof {
        if stands {
            assert(results.deep_view() =~= before.update(n as int, (id@, tv)));
        } else {
            assert(results.deep_view() =~= before.insert(n as int, (id@, tv)));
        }
    }
}

/// A copy of messages.
fn copy_messages(msgs: &[Message]) -> (r: Vec<Message>)
    ensures
        r.deep_view() == msgs.deep_view(),
{
    let ghost all = msgs.deep_view();
    let mut out: Vec<Message> = Vec::new();
    let mut i: usize = 0;
    proof {
        assert(out.deep_view() =~= all.take(0));
    }
    while i < msgs.len()
        invariant
            i <= msgs@.len(),
            all == msgs.deep_view(),
            out.deep_view() == all.take(i as int),
        decreases msgs@.len() - i,
    {
        let ghost before = out.deep_view();
        let m = msgs[i].clone();
        let ghost mv = m.deep_view();
        out.push(m);
        proof {
            assert(mv == all[i as int]);
            assert(out.deep_view() =~= before.push(mv));
            assert(all.take(i + 1) =~= all.take(i as int).push(all[i as int]));
        }
        i = i + 1;
    }
    proof {
        assert(all.take(all.len() as int) =~= all);
    }
    out
}

impl Session {
    /// A session that is idle and empty.
    pub fn new(config: SessionConfig, now: u64) -> (r: Session)
        ensures
            r.deep_view() == SessionView::fresh(config.deep_view(), now),
            r.deep_view().wf(),
    {
        let pending_injections: Vec<String> = Vec::new();
        proof {
            assert(pending_injections.deep_view() =~= Seq::empty());
        }
        Session {
            state: SessionState::Idle,
            log: SessionLog::new(config.max_events),
            session_id: SessionId::nil(),
            turn_id: 0,
            config,
            interrupt: false,
            peer_depth: 0,
            last_chat_options: ChatOptions::default(),
            consumed_tokens: 0,
            pending_injections,
            last_active: now,
        }
    }

    /// The session under an identity.
    pub fn with_session_id(self, id: SessionId) -> (r: Session)
        ensures
            r.deep_view() == (SessionView { session_id: id, ..self.deep_view() }),
    {
        let mut s = self;
        s.session_id = id;
        s
    }

    /// The number of the last round that was begun.
    pub fn turn_id(&self) -> (r: u64)
        ensures
            r == self.deep_view().turn_id,
    {
        self.turn_id
    }

    /// Whether a round is under way.
    pub fn is_busy(&self) -> (r: bool)
        ensures
            r == self.deep_view().busy(),
    {
        match &self.state {
            SessionState::Idle => false,
            _ => true,
        }
    }

    pub fn is_idle(&self) -> (r: bool)
        ensures
            r == !self.deep_view().busy(),
    {
        !self.is_busy()
    }

    /// How many messages a model is shown.
    pub fn history_len(&self) -> (r: usize)
        ensures
            r == self.deep_view().window().len(),
    {
        let n: usize = self.log.len();
        if n <= self.config.max_history {
            n
        } else {
            self.config.max_history
        }
    }

    pub fn peer_depth(&self) -> (r: u32)
        ensures
            r == self.deep_view().peer_depth,
    {
        self.peer_depth
    }

    pub fn consumed_tokens(&self) -> (r: u64)
        ensures
            r == self.deep_view().consumed_tokens,
    {
        self.consumed_tokens
    }

    pub fn last_active(&self) -> (r: u64)
        ensures
            r == self.deep_view().last_active,
    {
        self.last_active
    }

    pub fn session_id(&self) -> (r: SessionId)
        ensures
            r == self.deep_view().session_id,
    {
        self.session_id
    }

    /// Every message that was recorded.
    pub fn facts(&self) -> (r: &[Message])
        ensures
            r.deep_view() == self.deep_view().log.facts,
    {
        self.log.snapshot()
    }

    /// Where the session stands.
    pub fn state(&self) -> (r: &SessionState)
        ensures
            r.deep_view() == self.deep_view().state,
    {
        &self.state
    }

    pub fn config(&self) -> (r: &SessionConfig)
        ensures
            r.deep_view() == self.deep_view().config,
    {
        &self.config
    }

    /// Sets the options that the next rounds use.
    pub fn set_chat_options(&mut self, options: ChatOptions)
        ensures
            final(self).deep_view() == (SessionView {
                options: options.deep_view(),
                ..old(self).deep_view()
            }),
    {
        self.last_chat_options = options;
    }

    /// Records a message. A full record refuses it, and nothing changes.
    pub fn push_history(&mut self, msg: Message) -> (r: Result<(), LogError>)
        ensures
            final(self).deep_view() == old(self).deep_view().recorded(msg.deep_view()),
            old(self).deep_view().log.full() ==> r == Err::<(), LogError>(
                LogError::CapacityExceeded { max: old(self).deep_view().log.max_events },
            ),
            !old(self).deep_view().log.full() ==> r is Ok,
            old(self).deep_view().wf() ==> final(self).deep_view().wf(),
    {
        match self.log.append(msg) {
            Ok(_) => Ok(()),
            Err(e) => Err(e),
        }
    }

    /// The parts of what a model is asked: what it is shown of the conversation, and
    /// the options with the session's defaults.
    fn prompt_parts(&self, options: &ChatOptions) -> (r: PromptParts)
        ensures
            r.deep_view() == self.deep_view().parts(options.deep_view()),
    {
        let history = copy_messages(self.log.tail(self.config.max_history));
        let temperature = match &options.temperature {
            Some(t) => Some(t.clone()),
            None => copy_number(&self.config.default_temperature),
        };
        let max_tokens: Option<usize> = match options.max_tokens {
            Some(n) => Some(n),
            None => self.config.default_max_tokens,
        };
        let system = match &options.system_prompt {
            Some(t) => Some(Message::system(t.as_str())),
            None => match &self.config.default_system_prompt {
                Some(t) => Some(Message::system(t.as_str())),
                None => None,
            },
        };
        let tools = options.tools.clone();
        let memory: Vec<Message> = Vec::new();
        let artifacts: Vec<Message> = Vec::new();
        proof {
            assert(tools.deep_view() =~= options.tools.deep_view());
            assert(memory.deep_view() =~= Seq::empty());
            assert(artifacts.deep_view() =~= Seq::empty());
        }
        PromptParts {
            system,
            tools,
            history,
            memory,
            artifacts,
            temperature,
            max_tokens,
            thinking: options.thinking,
            prompt_budget: self.config.prompt_budget_tokens,
        }
    }

    /// What a model is asked: what it is shown of the conversation, the options
    /// with the session's defaults, cut to the prompt budget.
    pub fn build_chat_request(&self, options: &ChatOptions) -> (r: ChatRequest)
        ensures
            r.deep_view() == self.deep_view().request(options.deep_view()),
    {
        build_prompt(self.prompt_parts(options))
    }

    /// The kinds of the pieces that are cut or dropped of what a model is asked now.
    pub fn prompt_cuts(&self) -> (r: Vec<&'static str>)
        ensures
            r.deep_view() == cut_kinds(self.deep_view().parts(self.deep_view().options)),
    {
        build_prompt_noted(self.prompt_parts(&self.last_chat_options)).1
    }

    /// Begins a round and returns its number; a session with a round under way
    /// refuses and stays as it is.
    pub fn start_thinking(&mut self) -> (r: Option<u64>)
        ensures
            old(self).deep_view().busy() ==> r is None && final(self).deep_view() == old(
                self,
            ).deep_view(),
            !old(self).deep_view().busy() ==> r == Some(old(self).deep_view().next_turn())
                && final(self).deep_view() == old(self).deep_view().thinking(),
            old(self).deep_view().wf() ==> final(self).deep_view().wf(),
    {
        if self.is_busy() {
            return None;
        }
        self.turn_id = self.turn_id.wrapping_add(1);
        self.state = SessionState::Thinking { turn_id: self.turn_id, cancel: true };
        Some(self.turn_id)
    }

    /// Records the results of dispatched tools as messages of the user.
    fn flush_injections(&mut self)
        ensures
            final(self).deep_view() == old(self).deep_view().flushed(),
    {
        let ghost start = self.deep_view();
        let ghost texts = self.pending_injections.deep_view();
        let ghost ms = injected_messages(texts);
        let n: usize = self.pending_injections.len();
        let ghost kept = self.pending_injections@;
        let mut i: usize = 0;
        proof {
            assert(start.log.plus_all(ms.take(0)) == start.log) by {
                assert(start.log.facts + ms.take(0) =~= start.log.facts);
            }
        }
        while i < n
            invariant
                i <= n,
                n == kept.len(),
                self.pending_injections@ == kept.skip(i as int),
                texts == kept.map_values(|s: String| s.deep_view()),
                ms == injected_messages(texts),
                self.deep_view() == (SessionView {
                    log: start.log.plus_all(ms.take(i as int)),
                    injections: self.pending_injections.deep_view(),
                    ..start
                }),
            decreases n - i,
        {
            let text = self.pending_injections.remove(0);
            proof {
                assert(text == kept[i as int]);
                assert(self.pending_injections@ =~= kept.skip(i + 1));
                assert(ms.take(i + 1) =~= ms.take(i as int).push(
                    MessageView::plain(Role::User, text@),
                ));
                lemma_plus_all(
                    start.log,
                    ms.take(i as int),
                    MessageView::plain(Role::User, text@),
                );
            }
            let _full = self.log.append(Message::user(text.as_str()));
            i = i + 1;
        }
        proof {
            assert(ms.take(n as int) =~= ms);
            assert(self.pending_injections.deep_view() =~= Seq::empty());
        }
    }

    /// Begins a chat: records the message, begins a round and says what to ask
    /// the model. Where a round is under way or the record is full nothing
    /// happens.
    pub fn start_round(
        &mut self,
        message: Message,
        options: &ChatOptions,
        peer_depth: u32,
        now: u64,
    ) -> (r: Option<RoundStart>)
        ensures
            r is Some <==> old(self).deep_view().can_start(),
            r is None ==> final(self).deep_view() == old(self).deep_view(),
            r matches Some(round) ==> {
                &&& final(self).deep_view() == old(self).deep_view().started(
                    message.deep_view(),
                    options.deep_view(),
                    peer_depth,
                    now,
                )
                &&& round.turn_id == final(self).deep_view().turn_id
                &&& round.request.deep_view() == final(self).deep_view().request(
                    options.deep_view(),
                )
            },
            old(self).deep_view().wf() ==> final(self).deep_view().wf(),
    {
        if self.is_busy() {
            return None;
        }
        if let Err(_) = self.push_history(message) {
            return None;
        }
        self.interrupt = false;
        self.last_active = now;
        self.turn_id = self.turn_id.wrapping_add(1);
        let turn_id: u64 = self.turn_id;
        self.state = SessionState::Thinking { turn_id, cancel: true };
        self.last_chat_options = options.clone();
        self.peer_depth = peer_depth;
        self.flush_injections();
        let request = self.build_chat_request(options);
        Some(RoundStart { turn_id, request })
    }

    /// Whether the chat was interrupted.
    pub fn is_interrupted(&self) -> (r: bool)
        ensures
            r == self.deep_view().interrupt,
    {
        self.interrupt
    }

    /// Marks the chat as interrupted.
    pub fn raise_interrupt(&mut self)
        ensures
            final(self).deep_view() == (SessionView { interrupt: true, ..old(self).deep_view() }),
            old(self).deep_view().wf() ==> final(self).deep_view().wf(),
    {
        self.interrupt = true;
    }

    /// Claims the cancellation of the call under way. It can be claimed once.
    pub fn cancel_thinking(&mut self) -> (r: bool)
        ensures
            r <==> (old(self).deep_view().state matches StateView::Thinking { cancel, .. }
                && cancel),
            final(self).deep_view() == (SessionView {
                state: match old(self).deep_view().state {
                    StateView::Thinking { turn_id, .. } => StateView::Thinking {
                        turn_id,
                        cancel: false,
                    },
                    other => other,
                },
                ..old(self).deep_view()
            }),
            old(self).deep_view().wf() ==> final(self).deep_view().wf(),
    {
        let (turn, claimed) = match &self.state {
            SessionState::Thinking { turn_id, cancel } => (*turn_id, *cancel),
            _ => {
                return false;
            },
        };
        self.state = SessionState::Thinking { turn_id: turn, cancel: false };
        claimed
    }

    /// Gives up whatever is under way.
    pub fn force_idle(&mut self)
        ensures
            final(self).deep_view() == (SessionView {
                state: StateView::Idle,
                ..old(self).deep_view()
            }),
            old(self).deep_view().wf() ==> final(self).deep_view().wf(),
    {
        self.state = SessionState::Idle;
    }

    /// Ends the round of a number: a response is recorded and counted, and its
    /// tool calls are awaited. The end of any other round changes nothing.
    pub fn finish_thinking(&mut self, expected_turn_id: u64, outcome: TurnOutcome) -> (r:
        FinishAction)
        ensures
            final(self).deep_view() == old(self).deep_view().finished(
                expected_turn_id,
                outcome.deep_view(),
            ),
            r.deep_view() == old(self).deep_view().finish_action(
                expected_turn_id,
                outcome.deep_view(),
            ),
            r.wf(),
            old(self).deep_view().wf() ==> final(self).deep_view().wf(),
    {
        let under_way = match &self.state {
            SessionState::Thinking { turn_id, .. } => *turn_id == expected_turn_id,
            _ => false,
        };
        if !under_way {
            return FinishAction::Idle { response: None };
        }
        let (resp, tokens) = match outcome {
            TurnOutcome::Success(resp) => {
                let tokens: u64 = tokens_from_response(&resp);
                (*resp, tokens)
            },
            TurnOutcome::Cached(resp) => (*resp, 0),
            _ => {
                self.state = SessionState::Idle;
                return FinishAction::Idle { response: None };
            },
        };
        self.consumed_tokens = add_tokens(self.consumed_tokens, tokens);
        let _full = self.log.append(resp.message.clone());
        if resp.message.tool_calls.len() > 0 {
            let tool_calls = resp.message.tool_calls.clone();
            let tool_results: Vec<(String, String)> = Vec::new();
            proof {
                assert(tool_calls.deep_view() =~= resp.message.tool_calls.deep_view());
                assert(tool_results.deep_view() =~= Seq::empty());
            }
            self.state = SessionState::AwaitingCalls {
                turn_id: expected_turn_id,
                pending: pending_calls(&tool_calls),
                tool_results,
            };
            FinishAction::AwaitingCalls { response: resp, tool_calls }
        } else {
            self.state = SessionState::Idle;
            FinishAction::Idle { response: Some(resp) }
        }
    }

    /// Keeps the result of a dispatched tool for the next round.
    pub fn inject_tool_result(&mut self, content: String, now: u64)
        ensures
            final(self).deep_view() == old(self).deep_view().injected(content@, now),
            old(self).deep_view().wf() ==> final(self).deep_view().wf(),
    {
        if content.as_str().is_empty() {
            return;
        }
        self.last_active = now;
        let ghost before = self.pending_injections.deep_view();
        if self.pending_injections.len() >= MAX_PENDING_INJECTIONS {
            self.pending_injections.remove(0);
            proof {
                assert(self.pending_injections.deep_view() =~= before.drop_first());
            }
        }
        let ghost kept = self.pending_injections.deep_view();
        let ghost cv = content@;
        self.pending_injections.push(content);
        proof {
            assert(self.pending_injections.deep_view() =~= kept.push(cv));
        }
    }

    /// Takes the result of a tool call.
    pub fn finish_tool_call(&mut self, tool_call_id: &str, result: String) -> (r: ToolCallAction)
        ensures
            final(self).deep_view() == old(self).deep_view().answered(tool_call_id@, result@),
            r == old(self).deep_view().answer_action(tool_call_id@),
            old(self).deep_view().wf() ==> final(self).deep_view().wf(),
    {
        proof {
            if let StateView::AwaitingCalls { pending, tool_results, .. } = self.deep_view().state {
                if self.deep_view().wf() {
                    law_put_result(tool_results, tool_call_id@, result@, tool_call_id@);
                }
            }
        }
        match &mut self.state {
            SessionState::AwaitingCalls { pending, tool_results, .. } => {
                if !is_pending(pending, tool_call_id) {
                    return ToolCallAction::Ignored;
                }
                *pending = drop_pending(pending, tool_call_id);
                add_result(tool_results, tool_call_id, result);
                if pending.len() == 0 {
                    ToolCallAction::AllDone
                } else {
                    ToolCallAction::Pending
                }
            },
            _ => ToolCallAction::Ignored,
        }
    }

    /// Records the results of the tool calls, each as a message of its tool, and
    /// ends the round. Says whether there was a round to end.
    pub fn settle_dispatched(&mut self) -> (r: bool)
        ensures
            r == (old(self).deep_view().state is AwaitingCalls),
            final(self).deep_view() == old(self).deep_view().settled(),
            old(self).deep_view().wf() ==> final(self).deep_view().wf(),
    {
        let ghost start = self.deep_view();
        let mut state = SessionState::Idle;
        std::mem::swap(&mut state, &mut self.state);
        match state {
            SessionState::AwaitingCalls { tool_results, .. } => {
                let ghost ms = result_messages(tool_results.deep_view());
                let mut i: usize = 0;
                proof {
                    assert(start.log.plus_all(ms.take(0)) == start.log) by {
                        assert(start.log.facts + ms.take(0) =~= start.log.facts);
                    }
                }
                while i < tool_results.len()
                    invariant
                        i <= tool_results@.len(),
                        ms == result_messages(tool_results.deep_view()),
                        self.deep_view() == (SessionView {
                            state: StateView::Idle,
                            log: start.log.plus_all(ms.take(i as int)),
                            ..start
                        }),
                    decreases tool_results@.len() - i,
                {
                    proof {
                        assert(ms.take(i + 1) =~= ms.take(i as int).push(ms[i as int]));
                        lemma_plus_all(start.log, ms.take(i as int), ms[i as int]);
                    }
                    let m = Message::tool(tool_results[i].0.as_str(), tool_results[i].1.as_str());
                    let _full = self.log.append(m);
                    i = i + 1;
                }
                proof {
                    assert(ms.take(ms.len() as int) =~= ms);
                }
                true
            },
            other => {
                self.state = other;
                false
            },
        }
    }

    /// Begins the round after the tool calls: their results and those of
    /// dispatched tools are recorded, and the model is asked again with the
    /// options of the chat.
    pub fn resume_thinking(&mut self) -> (r: Option<RoundStart>)
        ensures
            r is Some <==> old(self).deep_view().state is AwaitingCalls,
            r is None ==> final(self).deep_view() == old(self).deep_view(),
            r matches Some(round) ==> {
                &&& final(self).deep_view() == old(self).deep_view().resumed()
                &&& round.turn_id == final(self).deep_view().turn_id
                &&& round.request.deep_view() == final(self).deep_view().request(
                    old(self).deep_view().options,
                )
            },
            old(self).deep_view().wf() ==> final(self).deep_view().wf(),
    {
        if !self.settle_dispatched() {
            return None;
        }
        self.flush_injections();
        self.turn_id = self.turn_id.wrapping_add(1);
        let turn_id: u64 = self.turn_id;
        self.state = SessionState::Thinking { turn_id, cancel: true };
        let request = self.build_chat_request(&self.last_chat_options);
        Some(RoundStart { turn_id, request })
    }
}

// ---------------------------------------------------------------------------
// Laws

/// The end of a round that is no longer under way changes nothing.
pub proof fn law_stale_end(s: SessionView, turn: u64, outcome: OutcomeView)
    requires
        s.wf(),
        s.turn_id != turn,
    ensures
        s.finished(turn, outcome) == s,
{
}

/// A round that was begun is ended by its own end alone, and at most once.
pub proof fn law_round_ends_once(s: SessionView, turn: u64, a: OutcomeView, b: OutcomeView)
    requires
        s.thinks(turn),
    ensures
        !s.finished(turn, a).thinks(turn),
        s.finished(turn, a).finished(turn, b) == s.finished(turn, a),
{
}

/// Responses from a cache, failures, cancellations and timeouts use nothing up.
pub proof fn law_only_calls_are_counted(s: SessionView, turn: u64, outcome: OutcomeView)
    requires
        !(outcome is Success),
    ensures
        s.finished(turn, outcome).consumed_tokens == s.consumed_tokens,
{
}

/// A call of the model that fails leaves the conversation as it was.
pub proof fn law_failure_leaves_no_trace(s: SessionView, turn: u64, outcome: OutcomeView)
    requires
        outcome.response() is None,
        s.thinks(turn),
    ensures
        s.finished(turn, outcome) == (SessionView { state: StateView::Idle, ..s }),
{
}

/// Every call of a response is either awaited or answered until the session
/// goes on: taking a result moves its call from the one to the other.
pub proof fn law_calls_stay_paired(s: SessionView, id: Seq<char>, text: Seq<char>, other: Seq<char>)
    requires
        s.wf(),
        s.awaiting(id),
    ensures
        s.answered(id, text).state is AwaitingCalls,
        !s.answered(id, text).awaiting(id),
        result_of(s.answered(id, text).state->tool_results, id) == Some(text),
        other != id ==> {
            &&& s.answered(id, text).awaiting(other) == s.awaiting(other)
            &&& result_of(s.answered(id, text).state->tool_results, other) == result_of(
                s.state->tool_results,
                other,
            )
        },
{
    law_put_result(s.state->tool_results, id, text, id);
    law_put_result(s.state->tool_results, id, text, other);
    law_without_id(s.state->AwaitingCalls_pending, id, id);
    law_without_id(s.state->AwaitingCalls_pending, id, other);
}

/// When the last call is answered, no call is awaited any more.
pub proof fn law_all_done(s: SessionView, id: Seq<char>, text: Seq<char>, other: Seq<char>)
    requires
        s.answer_action(id) == ToolCallAction::AllDone,
    ensures
        !s.answered(id, text).awaiting(other),
{
}

/// A result that nothing waits for changes nothing.
pub proof fn law_unasked_result(s: SessionView, id: Seq<char>, text: Seq<char>)
    requires
        s.answer_action(id) == ToolCallAction::Ignored,
    ensures
        s.answered(id, text) == s,
{
}

/// The answered calls of a round come into the record as one message each, as
/// far as there is room, behind everything that was there.
pub proof fn law_results_are_recorded(s: SessionView, i: int)
    requires
        s.wf(),
        s.state is AwaitingCalls,
        0 <= i < s.state->tool_results.len(),
        s.log.facts.len() + s.state->tool_results.len() <= s.log.max_events,
    ensures
        s.settled().log.facts.len() == s.log.facts.len() + s.state->tool_results.len(),
        s.settled().log.facts[s.log.facts.len() + i] == (MessageView {
            tool_call_id: Some(s.state->tool_results[i].0),
            ..MessageView::plain(Role::Tool, s.state->tool_results[i].1)
        }),
{
}

/// A new chat starts with no interruption left from the one before, under a new
/// number, with its message recorded.
pub proof fn law_start_is_clean(
    s: SessionView,
    m: MessageView,
    options: ChatOptionsView,
    peer_depth: u32,
    now: u64,
)
    requires
        s.wf(),
        s.can_start(),
    ensures
        ({
            let t = s.started(m, options, peer_depth, now);
            &&& t.wf()
            &&& t.busy()
            &&& !t.can_start()
            &&& !t.interrupt
            &&& t.turn_id != s.turn_id
            &&& t.log.facts.len() > s.log.facts.len()
            &&& t.log.facts[s.log.facts.len() as int] == m
        }),
{
}

/// However many results of dispatched tools come, the queue keeps its bound and
/// the newest is in it.
pub proof fn law_injections_bounded(s: SessionView, text: Seq<char>, now: u64)
    requires
        s.wf(),
        text.len() > 0,
    ensures
        s.injected(text, now).wf(),
        s.injected(text, now).injections.len() > 0,
        s.injected(text, now).injections.last() == text,
{
}

} // verus!
