//! What a chat ends with.

use vstd::prelude::*;
use vstd::string::*;

use crate::budget::BudgetError;
use crate::provider::{joined, ChatResponse, ChatResponseView, LlmError, LlmErrorView};
use crate::session::message::{ErrorKind, SessionReply, SessionReplyView};
use crate::session::{SessionState, StateView};
use crate::text::{decimal, decimal_text};

verus! {

broadcast use vstd::string::group_string_axioms;

/// Why a chat failed.
#[derive(Debug)]
pub enum EngineError {
    /// The call of the model failed.
    Llm(LlmError),
    /// The session does not stand where it should.
    StateConflict(String),
    /// The round ended with nothing.
    TurnIncomplete,
    /// Whoever worked on the chat is gone.
    ChannelClosed,
    /// The chat would need more calls of the model than it may make.
    MaxRoundsExceeded { rounds: u32 },
}

pub enum EngineErrorView {
    Llm(LlmErrorView),
    StateConflict(Seq<char>),
    TurnIncomplete,
    ChannelClosed,
    MaxRoundsExceeded(u32),
}

impl DeepView for EngineError {
    type V = EngineErrorView;

    open spec fn deep_view(&self) -> EngineErrorView {
        match *self {
            EngineError::Llm(e) => EngineErrorView::Llm(e.deep_view()),
            EngineError::StateConflict(s) => EngineErrorView::StateConflict(s@),
            EngineError::TurnIncomplete => EngineErrorView::TurnIncomplete,
            EngineError::ChannelClosed => EngineErrorView::ChannelClosed,
            EngineError::MaxRoundsExceeded { rounds } => EngineErrorView::MaxRoundsExceeded(rounds),
        }
    }
}

impl EngineErrorView {
    /// The error in words.
    pub open spec fn message(self) -> Seq<char> {
        match self {
            EngineErrorView::Llm(e) => "llm error: "@ + e.message(),
            EngineErrorView::StateConflict(s) => "state conflict: "@ + s,
            EngineErrorView::TurnIncomplete => "turn ended without success"@,
            EngineErrorView::ChannelClosed => "chat channel closed"@,
            EngineErrorView::MaxRoundsExceeded(rounds) => "max rounds per chat exceeded ("@
                + decimal(rounds as nat) + ")"@,
        }
    }
}

impl EngineError {
    /// The error in words.
    pub fn message(&self) -> (r: String)
        ensures
            r@ == self.deep_view().message(),
    {
        match self {
            EngineError::Llm(e) => joined("llm error: ", e.message().as_str()),
            EngineError::StateConflict(s) => joined("state conflict: ", s.as_str()),
            EngineError::TurnIncomplete => "turn ended without success".to_owned(),
            EngineError::ChannelClosed => "chat channel closed".to_owned(),
            EngineError::MaxRoundsExceeded { rounds } => {
                let mut t = joined(
                    "max rounds per chat exceeded (",
                    decimal_text(*rounds as u64).as_str(),
                );
                t.append(")");
                t
            },
        }
    }
}

/// What a chat ends with.
#[derive(Debug)]
pub enum EngineReply {
    Success(Box<ChatResponse>),
    /// The answer is passed on chunk by chunk.
    Streaming,
    Busy { turn_id: u64 },
    Error(EngineError),
    Cancelled,
    Timeout,
}

pub enum EngineReplyView {
    Success(ChatResponseView),
    Streaming,
    Busy(u64),
    Error(EngineErrorView),
    Cancelled,
    Timeout,
}

impl DeepView for EngineReply {
    type V = EngineReplyView;

    open spec fn deep_view(&self) -> EngineReplyView {
        match *self {
            EngineReply::Success(r) => EngineReplyView::Success(r.deep_view()),
            EngineReply::Streaming => EngineReplyView::Streaming,
            EngineReply::Busy { turn_id } => EngineReplyView::Busy(turn_id),
            EngineReply::Error(e) => EngineReplyView::Error(e.deep_view()),
            EngineReply::Cancelled => EngineReplyView::Cancelled,
            EngineReply::Timeout => EngineReplyView::Timeout,
        }
    }
}

/// Why a chat did not begin.
#[derive(Debug, Clone, Copy, PartialEq, Eq)]
pub enum EngineStartError {
    MaxSessions,
    Busy,
    Budget(BudgetError),
    /// What is always delivered does not fit into the model's window.
    PromptTooLarge { estimated: u64, window: usize },
}

/// A number in words.
fn number(n: u64) -> (r: String)
    ensures
        r@ == decimal(n as nat),
{
    decimal_text(n)
}

/// A reached limit in words.
pub open spec fn budget_message(e: BudgetError) -> Seq<char> {
    match e {
        BudgetError::SessionExceeded { used, limit } => "session token budget exceeded (used "@
            + decimal(used as nat) + ", limit "@ + decimal(limit as nat) + ")"@,
        BudgetError::GlobalExceeded { used, limit } => "global token budget exceeded (used "@
            + decimal(used as nat) + ", limit "@ + decimal(limit as nat) + ")"@,
    }
}

/// A reached limit in words.
pub fn budget_text(e: &BudgetError) -> (r: String)
    ensures
        r@ == budget_message(*e),
{
    let (mut t, used, limit) = match e {
        BudgetError::SessionExceeded { used, limit } => (
            "session token budget exceeded (used ".to_owned(),
            *used,
            *limit,
        ),
        BudgetError::GlobalExceeded { used, limit } => (
            "global token budget exceeded (used ".to_owned(),
            *used,
            *limit,
        ),
    };
    t.append(number(used).as_str());
    t.append(", limit ");
    t.append(number(limit).as_str());
    t.append(")");
    t
}

impl EngineStartError {
    /// The error in words.
    pub open spec fn words(self) -> Seq<char> {
        match self {
            EngineStartError::MaxSessions => "max sessions reached"@,
            EngineStartError::Busy => "session busy"@,
            EngineStartError::Budget(e) => "budget limit reached: "@ + budget_message(e),
            EngineStartError::PromptTooLarge { estimated, window } => {
                "request input exceeds model context window (estimated "@ + decimal(
                    estimated as nat,
                ) + ", window "@ + decimal(window as nat) + ")"@
            },
        }
    }

    /// The error in words.
    pub fn message(&self) -> (r: String)
        ensures
            r@ == self.words(),
    {
        match self {
            EngineStartError::MaxSessions => "max sessions reached".to_owned(),
            EngineStartError::Busy => "session busy".to_owned(),
            EngineStartError::Budget(e) => joined(
                "budget limit reached: ",
                budget_text(e).as_str(),
            ),
            EngineStartError::PromptTooLarge { estimated, window } => {
                let mut t = joined(
                    "request input exceeds model context window (estimated ",
                    number(*estimated).as_str(),
                );
                t.append(", window ");
                t.append(number(*window as u64).as_str());
                t.append(")");
                t
            },
        }
    }

    /// The kind of failure that this is to whoever asked.
    pub fn kind(&self) -> (r: ErrorKind)
        ensures
            r == (if self is Budget {
                ErrorKind::Budget
            } else {
                ErrorKind::Internal
            }),
    {
        match self {
            EngineStartError::Budget(_) => ErrorKind::Budget,
            _ => ErrorKind::Internal,
        }
    }
}

/// The name of an ending, for counting.
pub fn outcome_label(reply: &EngineReply) -> (r: &'static str)
    ensures
        r@ == (match reply.deep_view() {
            EngineReplyView::Success(_) => "success"@,
            EngineReplyView::Streaming => "streaming"@,
            EngineReplyView::Busy(_) => "busy"@,
            EngineReplyView::Error(_) => "error"@,
            EngineReplyView::Cancelled => "cancelled"@,
            EngineReplyView::Timeout => "timeout"@,
        }),
{
    match reply {
        EngineReply::Success(_) => "success",
        EngineReply::Streaming => "streaming",
        EngineReply::Busy { .. } => "busy",
        EngineReply::Error(_) => "error",
        EngineReply::Cancelled => "cancelled",
        EngineReply::Timeout => "timeout",
    }
}

/// What kind of failure an error is to whoever asked, and how long to wait: a
/// rate limit tells how long.
pub open spec fn error_kind(e: EngineErrorView) -> (ErrorKind, Option<u64>) {
    match e {
        EngineErrorView::Llm(LlmErrorView::RateLimited(after)) => (
            ErrorKind::RateLimited,
            match after {
                Some(d) => Some(
                    if d.total_millis() <= u64::MAX {
                        d.total_millis() as u64
                    } else {
                        u64::MAX
                    },
                ),
                None => None,
            },
        ),
        EngineErrorView::Llm(_) => (ErrorKind::Llm, None),
        _ => (ErrorKind::Internal, None),
    }
}

/// The answer of a session that an ending makes.
pub open spec fn session_reply(r: EngineReplyView) -> SessionReplyView {
    match r {
        EngineReplyView::Success(resp) => SessionReplyView::Success(resp),
        EngineReplyView::Streaming => SessionReplyView::Error(
            "streaming reply must be consumed directly, not over envelope"@,
            ErrorKind::Internal,
            None,
        ),
        EngineReplyView::Busy(turn_id) => SessionReplyView::Busy(turn_id),
        EngineReplyView::Error(e) => {
            let (kind, wait) = error_kind(e);
            SessionReplyView::Error(e.message(), kind, wait)
        },
        EngineReplyView::Cancelled => SessionReplyView::Cancelled,
        EngineReplyView::Timeout => SessionReplyView::Error(
            "turn timeout"@,
            ErrorKind::Timeout,
            None,
        ),
    }
}

/// The answer of a session that an ending makes.
pub fn to_session_reply(reply: EngineReply) -> (r: SessionReply)
    ensures
        r.deep_view() == session_reply(reply.deep_view()),
{
    match reply {
        EngineReply::Success(resp) => SessionReply::from_response(*resp),
        EngineReply::Streaming => SessionReply::Error {
            message: "streaming reply must be consumed directly, not over envelope".to_owned(),
            kind: ErrorKind::Internal,
            retry_after_ms: None,
        },
        EngineReply::Busy { turn_id } => SessionReply::Busy { turn_id },
        EngineReply::Error(e) => {
            let message = e.message();
            let (kind, retry_after_ms) = match &e {
                EngineError::Llm(LlmError::RateLimited { retry_after }) => (
                    ErrorKind::RateLimited,
                    match retry_after {
                        Some(d) => Some(d.as_millis()),
                        None => None,
                    },
                ),
                EngineError::Llm(_) => (ErrorKind::Llm, None),
                _ => (ErrorKind::Internal, None),
            };
            SessionReply::Error { message, kind, retry_after_ms }
        },
        EngineReply::Cancelled => SessionReply::Cancelled,
        EngineReply::Timeout => SessionReply::Error {
            message: "turn timeout".to_owned(),
            kind: ErrorKind::Timeout,
            retry_after_ms: None,
        },
    }
}

/// Where a session stands, for whoever looks on.
#[derive(Debug, Clone, Copy, PartialEq, Eq, Structural)]
pub enum SessionPhase {
    Idle,
    Thinking,
    AwaitingCalls,
}

impl SessionPhase {
    /// The phase of a state.
    pub open spec fn of_state(s: StateView) -> SessionPhase {
        match s {
            StateView::Idle => SessionPhase::Idle,
            StateView::Thinking { .. } => SessionPhase::Thinking,
            StateView::AwaitingCalls { .. } => SessionPhase::AwaitingCalls,
        }
    }

    /// The phase of a state.
    pub fn of(state: &SessionState) -> (r: SessionPhase)
        ensures
            r == SessionPhase::of_state(state.deep_view()),
    {
        match state {
            SessionState::Idle => SessionPhase::Idle,
            SessionState::Thinking { .. } => SessionPhase::Thinking,
            SessionState::AwaitingCalls { .. } => SessionPhase::AwaitingCalls,
        }
    }

    /// The name of a phase.
    pub fn name(&self) -> (r: &'static str)
        ensures
            r@ == (match *self {
                SessionPhase::Idle => "idle"@,
                SessionPhase::Thinking => "thinking"@,
                SessionPhase::AwaitingCalls => "awaiting_calls"@,
            }),
    {
        match self {
            SessionPhase::Idle => "idle",
            SessionPhase::Thinking => "thinking",
            SessionPhase::AwaitingCalls => "awaiting_calls",
        }
    }
}

/// A session at one moment.
#[derive(Debug, Clone, Copy, PartialEq, Eq)]
pub struct SessionSnapshot {
    pub state: SessionPhase,
    pub history_len: usize,
    pub consumed_tokens: u64,
    pub peer_depth: u32,
}

} // verus!
