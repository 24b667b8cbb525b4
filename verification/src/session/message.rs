//! What sessions are asked and what they answer.

use vstd::prelude::*;
use vstd::string::*;

use crate::json::{Number, NumberView};
use crate::provider::{
    copy_number, copy_opt, joined, ChatResponse, ChatResponseView, FinishReason, Message,
    MessageView, ThinkingConfig, TokenUsage, ToolDeclaration, ToolDeclarationView,
};
use crate::text::same;

verus! {

broadcast use vstd::string::group_string_axioms;

/// The identity of a session: 128 bits, the upper and the lower half.
#[derive(Debug, Clone, Copy, PartialEq, Eq, Hash, Structural)]
pub struct SessionId {
    pub hi: u64,
    pub lo: u64,
}

/// The hexadecimal digit of value `d`.
pub open spec fn hex_digit(d: nat) -> char {
    if d < 10 {
        (('0' as u32 + d) as u32) as char
    } else {
        (('a' as u32 + d - 10) as u32) as char
    }
}

/// The last `width` hexadecimal digits of a number.
pub open spec fn hex(n: nat, width: nat) -> Seq<char>
    decreases width,
{
    if width == 0 {
        Seq::empty()
    } else {
        hex(n / 16, (width - 1) as nat).push(hex_digit(n % 16))
    }
}

/// The text of an identity: five groups of digits with hyphens between.
pub open spec fn id_text(id: SessionId) -> Seq<char> {
    hex(id.hi as nat / 0x1_0000_0000, 8) + "-"@ + hex(id.hi as nat / 0x1_0000, 4) + "-"@ + hex(
        id.hi as nat,
        4,
    ) + "-"@ + hex(id.lo as nat / 0x1_0000_0000_0000, 4) + "-"@ + hex(id.lo as nat, 12)
}

/// The identity that a text says, by `uuid`: its two halves.
pub uninterp spec fn read_id(text: Seq<char>) -> Option<(u64, u64)>;

/// Whether the text of an identity says that identity.
pub open spec fn says_id(text: Seq<char>, hi: u64, lo: u64) -> bool {
    read_id(text) == Some((hi, lo))
}

/// Makes a `uuid::Uuid` of two halves by `from_u64_pair` and writes it with its
/// `Display`, which is the form with hyphens and small letters. `Uuid::parse_str`
/// reads that form back.
#[verifier::external_body]
fn uuid_text(hi: u64, lo: u64) -> (r: String)
    ensures
        r@ == id_text(SessionId { hi, lo }),
        says_id(r@, hi, lo),
{
    uuid::Uuid::from_u64_pair(hi, lo).to_string()
}

/// Calls `uuid::Uuid::parse_str`. The result, as the two halves of the identity,
/// is named by [`read_id`].
#[verifier::external_body]
fn uuid_halves(text: &str) -> (r: Option<(u64, u64)>)
    ensures
        r == read_id(text@),
{
    uuid::Uuid::parse_str(text).ok().map(|u| u.as_u64_pair())
}

/// Whether two halves are those of a random identity: the four bits of its version
/// say so, and the two bits of its variant are the usual ones.
pub open spec fn is_random(hi: u64, lo: u64) -> bool {
    hi / 0x1000 % 16 == 4 && lo / 0x4000_0000_0000_0000 == 2
}

/// Calls `uuid::Uuid::new_v4`, which draws an identity at random and sets the bits
/// of its version and its variant. Nothing is said of the other bits.
#[verifier::external_body]
fn random_halves() -> (r: (u64, u64))
    ensures
        is_random(r.0, r.1),
{
    uuid::Uuid::new_v4().as_u64_pair()
}

/// The identity that a text says.
pub open spec fn id_of_text(text: Seq<char>) -> Option<SessionId> {
    match read_id(text) {
        Some((hi, lo)) => Some(SessionId { hi, lo }),
        None => None,
    }
}

impl SessionId {
    /// The identity as text. It is read back from it.
    pub fn to_text(&self) -> (r: String)
        ensures
            r@ == id_text(*self),
            id_of_text(r@) == Some(*self),
    {
        uuid_text(self.hi, self.lo)
    }

    /// The identity that a text says.
    pub fn from_text(text: &str) -> (r: Option<SessionId>)
        ensures
            r == id_of_text(text@),
    {
        match uuid_halves(text) {
            Some((hi, lo)) => Some(SessionId { hi, lo }),
            None => None,
        }
    }

    /// An identity drawn at random.
    pub fn new_v4() -> (r: SessionId)
        ensures
            is_random(r.hi, r.lo),
    {
        let (hi, lo) = random_halves();
        SessionId { hi, lo }
    }

    /// The identity of no session.
    pub fn nil() -> (r: SessionId)
        ensures
            r == (SessionId { hi: 0, lo: 0 }),
    {
        SessionId { hi: 0, lo: 0 }
    }
}

/// Interrupts overtake everything else.
pub const PRIORITY_INTERRUPT: u8 = 0;

pub const PRIORITY_NORMAL: u8 = 100;

/// What a round may change of the session's defaults.
#[derive(Debug)]
pub struct ChatOptions {
    pub tools: Vec<ToolDeclaration>,
    pub temperature: Option<Number>,
    pub max_tokens: Option<usize>,
    pub thinking: ThinkingConfig,
    pub system_prompt: Option<String>,
}

pub struct ChatOptionsView {
    pub tools: Seq<ToolDeclarationView>,
    pub temperature: Option<NumberView>,
    pub max_tokens: Option<usize>,
    pub thinking: ThinkingConfig,
    pub system_prompt: Option<Seq<char>>,
}

impl DeepView for ChatOptions {
    type V = ChatOptionsView;

    open spec fn deep_view(&self) -> ChatOptionsView {
        ChatOptionsView {
            tools: self.tools.deep_view(),
            temperature: self.temperature.deep_view(),
            max_tokens: self.max_tokens,
            thinking: self.thinking,
            system_prompt: self.system_prompt.deep_view(),
        }
    }
}

impl ChatOptionsView {
    /// Nothing is changed.
    pub open spec fn none() -> ChatOptionsView {
        ChatOptionsView {
            tools: Seq::empty(),
            temperature: None,
            max_tokens: None,
            thinking: (ThinkingConfig { enabled: true, effort: None }),
            system_prompt: None,
        }
    }
}

impl Clone for ChatOptions {
    fn clone(&self) -> (r: Self)
        ensures
            r.deep_view() == self.deep_view(),
    {
        let tools = self.tools.clone();
        proof {
            assert(tools.deep_view() =~= self.tools.deep_view());
        }
        ChatOptions {
            tools,
            temperature: copy_number(&self.temperature),
            max_tokens: self.max_tokens,
            thinking: self.thinking,
            system_prompt: copy_opt(&self.system_prompt),
        }
    }
}

impl Default for ChatOptions {
    fn default() -> (r: Self)
        ensures
            r.deep_view() == ChatOptionsView::none(),
    {
        let tools: Vec<ToolDeclaration> = Vec::new();
        proof {
            assert(tools.deep_view() =~= Seq::empty());
        }
        ChatOptions {
            tools,
            temperature: None,
            max_tokens: None,
            thinking: ThinkingConfig { enabled: true, effort: None },
            system_prompt: None,
        }
    }
}

/// What a user says, and how deep below the first agent the session stands.
#[derive(Debug)]
pub struct ChatPayload {
    pub message: Message,
    pub options: ChatOptions,
    pub peer_depth: u32,
}

pub struct ChatPayloadView {
    pub message: MessageView,
    pub options: ChatOptionsView,
    pub peer_depth: u32,
}

impl DeepView for ChatPayload {
    type V = ChatPayloadView;

    open spec fn deep_view(&self) -> ChatPayloadView {
        ChatPayloadView {
            message: self.message.deep_view(),
            options: self.options.deep_view(),
            peer_depth: self.peer_depth,
        }
    }
}

/// What a session is asked.
#[derive(Debug)]
pub enum SessionMessage {
    Chat { session_id: SessionId, payload: ChatPayload },
    Interrupt { session_id: SessionId },
    ToolResult { session_id: SessionId, turn_id: u64, tool_call_id: String, result: String },
    Resume { session_id: SessionId, turn_id: u64 },
}

pub enum SessionMessageView {
    Chat(SessionId, ChatPayloadView),
    Interrupt(SessionId),
    ToolResult(SessionId, u64, Seq<char>, Seq<char>),
    Resume(SessionId, u64),
}

impl DeepView for SessionMessage {
    type V = SessionMessageView;

    open spec fn deep_view(&self) -> SessionMessageView {
        match *self {
            SessionMessage::Chat { session_id, payload } => SessionMessageView::Chat(
                session_id,
                payload.deep_view(),
            ),
            SessionMessage::Interrupt { session_id } => SessionMessageView::Interrupt(session_id),
            SessionMessage::ToolResult { session_id, turn_id, tool_call_id, result } => {
                SessionMessageView::ToolResult(session_id, turn_id, tool_call_id@, result@)
            },
            SessionMessage::Resume { session_id, turn_id } => SessionMessageView::Resume(
                session_id,
                turn_id,
            ),
        }
    }
}

impl SessionMessageView {
    /// The session that is asked.
    pub open spec fn asked(self) -> SessionId {
        match self {
            SessionMessageView::Chat(id, _) => id,
            SessionMessageView::Interrupt(id) => id,
            SessionMessageView::ToolResult(id, _, _, _) => id,
            SessionMessageView::Resume(id, _) => id,
        }
    }

    /// How urgent the message is: an interrupt overtakes everything else.
    pub open spec fn urgency(self) -> u8 {
        if self is Interrupt {
            PRIORITY_INTERRUPT
        } else {
            PRIORITY_NORMAL
        }
    }
}

impl SessionMessage {
    /// The session that is asked.
    pub fn session_id(&self) -> (r: SessionId)
        ensures
            r == self.deep_view().asked(),
    {
        match self {
            SessionMessage::Chat { session_id, .. } => *session_id,
            SessionMessage::Interrupt { session_id } => *session_id,
            SessionMessage::ToolResult { session_id, .. } => *session_id,
            SessionMessage::Resume { session_id, .. } => *session_id,
        }
    }

    /// How urgent the message is.
    pub fn priority(&self) -> (r: u8)
        ensures
            r == self.deep_view().urgency(),
    {
        match self {
            SessionMessage::Interrupt { .. } => PRIORITY_INTERRUPT,
            _ => PRIORITY_NORMAL,
        }
    }
}

/// What a message carries: texts by key, and its urgency.
#[derive(Debug)]
pub struct Envelope {
    pub metadata: Vec<(String, String)>,
    pub priority: u8,
}

/// The text that stands first under a key.
pub open spec fn text_under(entries: Seq<(Seq<char>, Seq<char>)>, key: Seq<char>) -> Option<
    Seq<char>,
>
    decreases entries.len(),
{
    if entries.len() == 0 {
        None
    } else if entries.last().0 == key {
        Some(entries.last().1)
    } else {
        text_under(entries.drop_last(), key)
    }
}

impl Envelope {
    /// The text under a key: the one that was put there last.
    pub open spec fn lookup(self, key: Seq<char>) -> Option<Seq<char>> {
        text_under(self.metadata.deep_view(), key)
    }

    pub fn new() -> (r: Envelope)
        ensures
            forall|k: Seq<char>| #[trigger] r.lookup(k) is None,
            r.priority == PRIORITY_NORMAL,
    {
        let metadata: Vec<(String, String)> = Vec::new();
        proof {
            assert(metadata.deep_view() =~= Seq::empty());
        }
        Envelope { metadata, priority: PRIORITY_NORMAL }
    }

    /// Puts a text under a key.
    pub fn insert(&mut self, key: &str, text: String)
        ensures
            final(self).priority == old(self).priority,
            forall|k: Seq<char>| #[trigger]
                final(self).lookup(k) == (if k == key@ {
                    Some(text@)
                } else {
                    old(self).lookup(k)
                }),
    {
        let ghost before = self.metadata.deep_view();
        let k = key.to_owned();
        self.metadata.push((k, text));
        proof {
            assert(self.metadata.deep_view() =~= before.push((key@, text@)));
            assert(before.push((key@, text@)).drop_last() =~= before);
        }
    }

    /// The text under a key.
    pub fn get(&self, key: &str) -> (r: Option<String>)
        ensures
            r.deep_view() == self.lookup(key@),
    {
        let ghost all = self.metadata.deep_view();
        let mut i: usize = self.metadata.len();
        proof {
            assert(all.take(all.len() as int) =~= all);
        }
        while i > 0
            invariant
                i <= self.metadata@.len(),
                all == self.metadata.deep_view(),
                text_under(all, key@) == text_under(all.take(i as int), key@),
            decreases i,
        {
            proof {
                assert(all.take(i as int).last() == all[i - 1]);
                assert(all.take(i as int).drop_last() =~= all.take(i - 1));
            }
            if same(self.metadata[i - 1].0.as_str(), key) {
                return Some(self.metadata[i - 1].1.clone());
            }
            i = i - 1;
        }
        None
    }
}

/// Why an envelope does not give a message.
#[derive(Debug, PartialEq, Eq)]
pub enum MessageError {
    /// There is nothing under the key.
    MissingKey(String),
    /// What is there is not a message.
    Decode(String),
}

pub enum MessageErrorView {
    MissingKey(Seq<char>),
    Decode(Seq<char>),
}

impl DeepView for MessageError {
    type V = MessageErrorView;

    open spec fn deep_view(&self) -> MessageErrorView {
        match *self {
            MessageError::MissingKey(k) => MessageErrorView::MissingKey(k@),
            MessageError::Decode(e) => MessageErrorView::Decode(e@),
        }
    }
}

impl MessageError {
    /// The error in words.
    pub fn message(&self) -> (r: String)
        ensures
            r@ == (match self.deep_view() {
                MessageErrorView::MissingKey(k) => "missing metadata key: "@ + k,
                MessageErrorView::Decode(e) => "payload decode error: "@ + e,
            }),
    {
        match self {
            MessageError::MissingKey(k) => joined("missing metadata key: ", k.as_str()),
            MessageError::Decode(e) => joined("payload decode error: ", e.as_str()),
        }
    }
}

/// The kind of a failure, for a caller to act on.
#[derive(Debug, Clone, Copy, PartialEq, Eq, Structural)]
pub enum ErrorKind {
    Timeout,
    RateLimited,
    Llm,
    Budget,
    Internal,
}

impl Default for ErrorKind {
    fn default() -> (r: Self)
        ensures
            r == ErrorKind::Internal,
    {
        ErrorKind::Internal
    }
}

/// What a session answers.
#[derive(Debug)]
#[allow(inconsistent_fields)]
pub enum SessionReply {
    Success {
        id: String,
        model: String,
        message: Box<Message>,
        finish_reason: FinishReason,
        usage: Option<TokenUsage>,
    },
    Busy { turn_id: u64 },
    Error { message: String, kind: ErrorKind, retry_after_ms: Option<u64> },
    Cancelled,
    Unhandled { reason: String },
}

pub enum SessionReplyView {
    Success(ChatResponseView),
    Busy(u64),
    Error(Seq<char>, ErrorKind, Option<u64>),
    Cancelled,
    Unhandled(Seq<char>),
}

impl DeepView for SessionReply {
    type V = SessionReplyView;

    open spec fn deep_view(&self) -> SessionReplyView {
        match *self {
            SessionReply::Success { id, model, message, finish_reason, usage } => {
                SessionReplyView::Success(
                    ChatResponseView {
                        id: id@,
                        model: model@,
                        message: message.deep_view(),
                        finish_reason: finish_reason.deep_view(),
                        usage,
                    },
                )
            },
            SessionReply::Busy { turn_id } => SessionReplyView::Busy(turn_id),
            SessionReply::Error { message, kind, retry_after_ms } => SessionReplyView::Error(
                message@,
                kind,
                retry_after_ms,
            ),
            SessionReply::Cancelled => SessionReplyView::Cancelled,
            SessionReply::Unhandled { reason } => SessionReplyView::Unhandled(reason@),
        }
    }
}

impl SessionReply {
    /// The answer that a response makes.
    pub fn from_response(resp: ChatResponse) -> (r: SessionReply)
        ensures
            r.deep_view() == SessionReplyView::Success(resp.deep_view()),
    {
        SessionReply::Success {
            id: resp.id,
            model: resp.model,
            message: Box::new(resp.message),
            finish_reason: resp.finish_reason,
            usage: resp.usage,
        }
    }
}

} // verus!
