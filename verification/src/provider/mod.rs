//! What is exchanged with a model vendor: messages, requests, responses,
//! stream chunks, errors and declared capabilities.

use vstd::prelude::*;
use vstd::string::*;

use crate::json::{Json, JsonView, Number, NumberView};
use crate::text::{decimal, decimal_text, same};
use crate::time::Duration;

pub mod agnes;
pub mod anthropic_compat;
pub mod chunks;
pub mod client;
pub mod completions_laws;
pub mod content;
pub mod deepseek;
pub mod draft;
pub mod kimi;
pub mod messages_laws;
pub mod minimax;
pub mod openai;
pub mod openai_compat;
pub mod openrouter;
pub mod registry;
pub mod sse;
pub mod stream_laws;
pub mod vendor;
pub mod vendor_laws;
pub mod view_laws;

use crate::provider::content::{ContentPart, ContentPartView};

verus! {

broadcast use vstd::string::group_string_axioms;

/// Who a message is from.
#[derive(Debug, Clone, Copy, PartialEq, Eq, Structural)]
pub enum Role {
    System,
    User,
    Assistant,
    Tool,
}

/// Why a model stopped.
#[derive(Debug, PartialEq, Eq)]
pub enum FinishReason {
    Stop,
    Length,
    ToolCalls,
    Other(String),
}

pub enum FinishReasonView {
    Stop,
    Length,
    ToolCalls,
    Other(Seq<char>),
}

impl DeepView for FinishReason {
    type V = FinishReasonView;

    open spec fn deep_view(&self) -> FinishReasonView {
        match *self {
            FinishReason::Stop => FinishReasonView::Stop,
            FinishReason::Length => FinishReasonView::Length,
            FinishReason::ToolCalls => FinishReasonView::ToolCalls,
            FinishReason::Other(s) => FinishReasonView::Other(s@),
        }
    }
}

impl Clone for FinishReason {
    fn clone(&self) -> (r: Self)
        ensures
            r.deep_view() == self.deep_view(),
    {
        match self {
            FinishReason::Stop => FinishReason::Stop,
            FinishReason::Length => FinishReason::Length,
            FinishReason::ToolCalls => FinishReason::ToolCalls,
            FinishReason::Other(s) => FinishReason::Other(s.clone()),
        }
    }
}

impl FinishReasonView {
    /// The reason by its name on an OpenAI-style wire.
    pub open spec fn from_vendor(s: Seq<char>) -> FinishReasonView {
        if s == "stop"@ {
            FinishReasonView::Stop
        } else if s == "length"@ {
            FinishReasonView::Length
        } else if s == "tool_calls"@ {
            FinishReasonView::ToolCalls
        } else {
            FinishReasonView::Other(s)
        }
    }
}

impl FinishReason {
    /// The reason by its name on an OpenAI-style wire.
    pub fn from_vendor_str(s: &str) -> (r: FinishReason)
        ensures
            r.deep_view() == FinishReasonView::from_vendor(s@),
    {
        if same(s, "stop") {
            FinishReason::Stop
        } else if same(s, "length") {
            FinishReason::Length
        } else if same(s, "tool_calls") {
            FinishReason::ToolCalls
        } else {
            FinishReason::Other(s.to_owned())
        }
    }
}

/// Token counts of one response. A part that the vendor does not report is
/// absent.
#[derive(Debug, Clone, Copy, PartialEq, Eq)]
pub struct TokenUsage {
    pub prompt_tokens: usize,
    pub completion_tokens: usize,
    pub total_tokens: usize,
    pub reasoning_tokens: Option<usize>,
    pub prompt_cache_hit_tokens: Option<usize>,
    pub prompt_cache_miss_tokens: Option<usize>,
    pub cache_read_tokens: Option<usize>,
    pub cache_write_tokens: Option<usize>,
}

impl DeepView for TokenUsage {
    type V = TokenUsage;

    open spec fn deep_view(&self) -> TokenUsage {
        *self
    }
}

impl Default for TokenUsage {
    fn default() -> (r: Self)
        ensures
            r == TokenUsage::none(),
    {
        TokenUsage {
            prompt_tokens: 0,
            completion_tokens: 0,
            total_tokens: 0,
            reasoning_tokens: None,
            prompt_cache_hit_tokens: None,
            prompt_cache_miss_tokens: None,
            cache_read_tokens: None,
            cache_write_tokens: None,
        }
    }
}

/// A sum that stops at the largest value.
pub open spec fn capped_sum(a: usize, b: usize) -> usize {
    if a + b <= usize::MAX {
        (a + b) as usize
    } else {
        usize::MAX
    }
}

/// The sum of two counts of which either may be absent.
pub open spec fn optional_sum(a: Option<usize>, b: Option<usize>) -> Option<usize> {
    match (a, b) {
        (Some(x), Some(y)) => Some(capped_sum(x, y)),
        (Some(x), None) => Some(x),
        (None, y) => y,
    }
}

fn add_optional(a: Option<usize>, b: Option<usize>) -> (r: Option<usize>)
    ensures
        r == optional_sum(a, b),
{
    match (a, b) {
        (Some(x), Some(y)) => Some(x.saturating_add(y)),
        (Some(x), None) => Some(x),
        (None, y) => y,
    }
}

impl TokenUsage {
    /// Nothing used, nothing reported.
    pub open spec fn none() -> TokenUsage {
        TokenUsage {
            prompt_tokens: 0,
            completion_tokens: 0,
            total_tokens: 0,
            reasoning_tokens: None,
            prompt_cache_hit_tokens: None,
            prompt_cache_miss_tokens: None,
            cache_read_tokens: None,
            cache_write_tokens: None,
        }
    }

    /// Both usages together.
    pub open spec fn plus(self, other: TokenUsage) -> TokenUsage {
        TokenUsage {
            prompt_tokens: capped_sum(self.prompt_tokens, other.prompt_tokens),
            completion_tokens: capped_sum(self.completion_tokens, other.completion_tokens),
            total_tokens: capped_sum(self.total_tokens, other.total_tokens),
            reasoning_tokens: optional_sum(self.reasoning_tokens, other.reasoning_tokens),
            prompt_cache_hit_tokens: optional_sum(
                self.prompt_cache_hit_tokens,
                other.prompt_cache_hit_tokens,
            ),
            prompt_cache_miss_tokens: optional_sum(
                self.prompt_cache_miss_tokens,
                other.prompt_cache_miss_tokens,
            ),
            cache_read_tokens: optional_sum(self.cache_read_tokens, other.cache_read_tokens),
            cache_write_tokens: optional_sum(self.cache_write_tokens, other.cache_write_tokens),
        }
    }

    /// Adds another usage to this one, count by count.
    pub fn merge(&mut self, other: &TokenUsage)
        ensures
            *final(self) == old(self).plus(*other),
    {
        self.prompt_tokens = self.prompt_tokens.saturating_add(other.prompt_tokens);
        self.completion_tokens = self.completion_tokens.saturating_add(other.completion_tokens);
        self.total_tokens = self.total_tokens.saturating_add(other.total_tokens);
        self.reasoning_tokens = add_optional(self.reasoning_tokens, other.reasoning_tokens);
        self.prompt_cache_hit_tokens = add_optional(
            self.prompt_cache_hit_tokens,
            other.prompt_cache_hit_tokens,
        );
        self.prompt_cache_miss_tokens = add_optional(
            self.prompt_cache_miss_tokens,
            other.prompt_cache_miss_tokens,
        );
        self.cache_read_tokens = add_optional(self.cache_read_tokens, other.cache_read_tokens);
        self.cache_write_tokens = add_optional(self.cache_write_tokens, other.cache_write_tokens);
    }
}

/// The function of a tool call: its name and its arguments as JSON text.
#[derive(Debug, PartialEq, Eq)]
pub struct ToolCallFunction {
    pub name: String,
    pub arguments: String,
}

/// A tool call that a model asks for.
#[derive(Debug, PartialEq, Eq)]
pub struct ToolCall {
    pub id: String,
    pub function: ToolCallFunction,
}

pub struct ToolCallView {
    pub id: Seq<char>,
    pub name: Seq<char>,
    pub arguments: Seq<char>,
}

impl DeepView for ToolCall {
    type V = ToolCallView;

    open spec fn deep_view(&self) -> ToolCallView {
        ToolCallView {
            id: self.id@,
            name: self.function.name@,
            arguments: self.function.arguments@,
        }
    }
}

impl Clone for ToolCall {
    fn clone(&self) -> (r: Self)
        ensures
            r.deep_view() == self.deep_view(),
    {
        ToolCall {
            id: self.id.clone(),
            function: ToolCallFunction {
                name: self.function.name.clone(),
                arguments: self.function.arguments.clone(),
            },
        }
    }
}

/// What one stream chunk adds to the function of a tool call.
#[derive(Debug, PartialEq, Eq)]
pub struct ToolCallFunctionDelta {
    pub name: Option<String>,
    pub arguments: Option<String>,
}

/// What one stream chunk adds to the tool call of an index.
#[derive(Debug, PartialEq, Eq)]
pub struct ToolCallDelta {
    pub index: u32,
    pub id: Option<String>,
    pub function: Option<ToolCallFunctionDelta>,
}

pub struct ToolCallFunctionDeltaView {
    pub name: Option<Seq<char>>,
    pub arguments: Option<Seq<char>>,
}

pub struct ToolCallDeltaView {
    pub index: u32,
    pub id: Option<Seq<char>>,
    pub function: Option<ToolCallFunctionDeltaView>,
}

impl DeepView for ToolCallFunctionDelta {
    type V = ToolCallFunctionDeltaView;

    open spec fn deep_view(&self) -> ToolCallFunctionDeltaView {
        ToolCallFunctionDeltaView {
            name: self.name.deep_view(),
            arguments: self.arguments.deep_view(),
        }
    }
}

impl DeepView for ToolCallDelta {
    type V = ToolCallDeltaView;

    open spec fn deep_view(&self) -> ToolCallDeltaView {
        ToolCallDeltaView {
            index: self.index,
            id: self.id.deep_view(),
            function: self.function.deep_view(),
        }
    }
}

/// The content of a message: text, or parts of several kinds.
#[derive(Debug, PartialEq, Eq)]
pub enum MessageContent {
    Text(String),
    Multimodal(Vec<ContentPart>),
}

pub enum MessageContentView {
    Text(Seq<char>),
    Multimodal(Seq<ContentPartView>),
}

impl DeepView for MessageContent {
    type V = MessageContentView;

    open spec fn deep_view(&self) -> MessageContentView {
        match *self {
            MessageContent::Text(s) => MessageContentView::Text(s@),
            MessageContent::Multimodal(p) => MessageContentView::Multimodal(p.deep_view()),
        }
    }
}

impl MessageContentView {
    /// The text of a content that is text.
    pub open spec fn as_text(self) -> Option<Seq<char>> {
        match self {
            MessageContentView::Text(s) => Some(s),
            MessageContentView::Multimodal(_) => None,
        }
    }

    /// The text of a content that is text, and nothing for any other.
    pub open spec fn text_or_empty(self) -> Seq<char> {
        match self {
            MessageContentView::Text(s) => s,
            MessageContentView::Multimodal(_) => ""@,
        }
    }
}

impl Clone for MessageContent {
    fn clone(&self) -> (r: Self)
        ensures
            r.deep_view() == self.deep_view(),
    {
        match self {
            MessageContent::Text(s) => MessageContent::Text(s.clone()),
            MessageContent::Multimodal(p) => {
                let q = p.clone();
                proof {
                    assert(q.deep_view() =~= p.deep_view());
                }
                MessageContent::Multimodal(q)
            },
        }
    }
}

impl MessageContent {
    pub fn text(s: &str) -> (r: MessageContent)
        ensures
            r.deep_view() == MessageContentView::Text(s@),
    {
        MessageContent::Text(s.to_owned())
    }

    pub fn multimodal(parts: Vec<ContentPart>) -> (r: MessageContent)
        ensures
            r.deep_view() == MessageContentView::Multimodal(parts.deep_view()),
    {
        MessageContent::Multimodal(parts)
    }

    /// The text of a content that is text.
    pub fn as_text(&self) -> (r: Option<&str>)
        ensures
            r is Some <==> self.deep_view().as_text() is Some,
            r is Some ==> r->0@ == self.deep_view().as_text()->0,
    {
        match self {
            MessageContent::Text(s) => Some(s.as_str()),
            MessageContent::Multimodal(_) => None,
        }
    }

    /// The text of a content that is text, and nothing for any other.
    pub fn text_or_empty(&self) -> (r: &str)
        ensures
            r@ == self.deep_view().text_or_empty(),
    {
        match self {
            MessageContent::Text(s) => s.as_str(),
            MessageContent::Multimodal(_) => "",
        }
    }
}

/// A message of a conversation.
#[derive(Debug, PartialEq, Eq)]
pub struct Message {
    pub role: Role,
    pub content: MessageContent,
    pub reasoning_content: Option<String>,
    pub tool_calls: Vec<ToolCall>,
    pub tool_call_id: Option<String>,
    pub usage: Option<TokenUsage>,
}

pub struct MessageView {
    pub role: Role,
    pub content: MessageContentView,
    pub reasoning_content: Option<Seq<char>>,
    pub tool_calls: Seq<ToolCallView>,
    pub tool_call_id: Option<Seq<char>>,
    pub usage: Option<TokenUsage>,
}

impl DeepView for Message {
    type V = MessageView;

    open spec fn deep_view(&self) -> MessageView {
        MessageView {
            role: self.role,
            content: self.content.deep_view(),
            reasoning_content: self.reasoning_content.deep_view(),
            tool_calls: self.tool_calls.deep_view(),
            tool_call_id: self.tool_call_id.deep_view(),
            usage: self.usage,
        }
    }
}

/// A copy of an optional string.
pub fn copy_opt(s: &Option<String>) -> (r: Option<String>)
    ensures
        r.deep_view() == s.deep_view(),
{
    match s {
        Some(x) => Some(x.clone()),
        None => None,
    }
}

impl Clone for Message {
    fn clone(&self) -> (r: Self)
        ensures
            r.deep_view() == self.deep_view(),
    {
        let tool_calls = self.tool_calls.clone();
        proof {
            assert(tool_calls.deep_view() =~= self.tool_calls.deep_view());
        }
        Message {
            role: self.role,
            content: self.content.clone(),
            reasoning_content: copy_opt(&self.reasoning_content),
            tool_calls,
            tool_call_id: copy_opt(&self.tool_call_id),
            usage: self.usage,
        }
    }
}

impl MessageView {
    /// A message of a role with text and nothing else.
    pub open spec fn plain(role: Role, text: Seq<char>) -> MessageView {
        MessageView {
            role,
            content: MessageContentView::Text(text),
            reasoning_content: None,
            tool_calls: Seq::empty(),
            tool_call_id: None,
            usage: None,
        }
    }
}

impl Message {
    /// A message of a role with a content and nothing else.
    pub fn of(role: Role, content: MessageContent) -> (r: Message)
        ensures
            r.deep_view() == (MessageView {
                role,
                content: content.deep_view(),
                reasoning_content: None,
                tool_calls: Seq::empty(),
                tool_call_id: None,
                usage: None,
            }),
    {
        let tool_calls: Vec<ToolCall> = Vec::new();
        proof {
            assert(tool_calls.deep_view() =~= Seq::empty());
        }
        Message {
            role,
            content,
            reasoning_content: None,
            tool_calls,
            tool_call_id: None,
            usage: None,
        }
    }

    pub fn user(text: &str) -> (r: Message)
        ensures
            r.deep_view() == MessageView::plain(Role::User, text@),
    {
        Message::of(Role::User, MessageContent::text(text))
    }

    pub fn assistant(text: &str) -> (r: Message)
        ensures
            r.deep_view() == MessageView::plain(Role::Assistant, text@),
    {
        Message::of(Role::Assistant, MessageContent::text(text))
    }

    pub fn system(text: &str) -> (r: Message)
        ensures
            r.deep_view() == MessageView::plain(Role::System, text@),
    {
        Message::of(Role::System, MessageContent::text(text))
    }

    /// The result of the tool call of an id.
    pub fn tool(id: &str, text: &str) -> (r: Message)
        ensures
            r.deep_view() == (MessageView {
                tool_call_id: Some(id@),
                ..MessageView::plain(Role::Tool, text@)
            }),
    {
        let mut m = Message::of(Role::Tool, MessageContent::text(text));
        m.tool_call_id = Some(id.to_owned());
        m
    }
}

/// A tool as a model is told of it: its arguments are described by a JSON
/// schema.
#[derive(Debug, PartialEq, Eq)]
pub struct ToolDeclaration {
    pub name: String,
    pub description: String,
    pub parameters: Json,
}

pub struct ToolDeclarationView {
    pub name: Seq<char>,
    pub description: Seq<char>,
    pub parameters: JsonView,
}

impl DeepView for ToolDeclaration {
    type V = ToolDeclarationView;

    open spec fn deep_view(&self) -> ToolDeclarationView {
        ToolDeclarationView {
            name: self.name@,
            description: self.description@,
            parameters: self.parameters.deep_view(),
        }
    }
}

impl Clone for ToolDeclaration {
    fn clone(&self) -> (r: Self)
        ensures
            r.deep_view() == self.deep_view(),
    {
        ToolDeclaration {
            name: self.name.clone(),
            description: self.description.clone(),
            parameters: self.parameters.clone(),
        }
    }
}

/// Whether the model may, must not or must call a tool.
#[derive(Debug, Clone, Copy, PartialEq, Eq, Structural)]
pub enum ToolChoice {
    Auto,
    Never,
    Required,
}

/// How hard the model should think.
#[derive(Debug, Clone, Copy, PartialEq, Eq, Structural)]
pub enum ReasoningEffort {
    Low,
    High,
    Max,
}

/// Whether and how hard the model thinks before it answers.
#[derive(Debug, Clone, Copy, PartialEq, Eq)]
pub struct ThinkingConfig {
    pub enabled: bool,
    pub effort: Option<ReasoningEffort>,
}

impl Default for ThinkingConfig {
    fn default() -> (r: Self)
        ensures
            r == (ThinkingConfig { enabled: true, effort: None }),
    {
        ThinkingConfig { enabled: true, effort: None }
    }
}

/// A request to a model. The temperature is a number in JSON, and `extra` goes
/// into the request body as it is.
#[derive(Debug, PartialEq, Eq)]
pub struct ChatRequest {
    pub messages: Vec<Message>,
    pub tools: Vec<ToolDeclaration>,
    pub tool_choice: ToolChoice,
    pub temperature: Option<Number>,
    pub max_tokens: Option<usize>,
    pub thinking: ThinkingConfig,
    pub extra: Vec<(String, Json)>,
}

pub struct ChatRequestView {
    pub messages: Seq<MessageView>,
    pub tools: Seq<ToolDeclarationView>,
    pub tool_choice: ToolChoice,
    pub temperature: Option<NumberView>,
    pub max_tokens: Option<usize>,
    pub thinking: ThinkingConfig,
    pub extra: Seq<(Seq<char>, JsonView)>,
}

impl DeepView for ChatRequest {
    type V = ChatRequestView;

    open spec fn deep_view(&self) -> ChatRequestView {
        ChatRequestView {
            messages: self.messages.deep_view(),
            tools: self.tools.deep_view(),
            tool_choice: self.tool_choice,
            temperature: self.temperature.deep_view(),
            max_tokens: self.max_tokens,
            thinking: self.thinking,
            extra: self.extra.deep_view(),
        }
    }
}

/// A copy of an optional number.
pub fn copy_number(n: &Option<Number>) -> (r: Option<Number>)
    ensures
        r.deep_view() == n.deep_view(),
{
    match n {
        Some(x) => Some(x.clone()),
        None => None,
    }
}

/// A copy of a list of JSON fields.
pub fn copy_fields(v: &Vec<(String, Json)>) -> (r: Vec<(String, Json)>)
    ensures
        r.deep_view() == v.deep_view(),
{
    let mut out: Vec<(String, Json)> = Vec::new();
    let mut i: usize = 0;
    while i < v.len()
        invariant
            i <= v@.len(),
            out.deep_view() == v.deep_view().take(i as int),
        decreases v@.len() - i,
    {
        let ghost before = out.deep_view();
        let f = (v[i].0.clone(), v[i].1.clone());
        out.push(f);
        proof {
            assert(out.deep_view() =~= before.push(f.deep_view()));
            assert(v.deep_view().take(i + 1) =~= v.deep_view().take(i as int).push(
                v@[i as int].deep_view(),
            ));
        }
        i = i + 1;
    }
    proof {
        assert(v.deep_view().take(v@.len() as int) =~= v.deep_view());
    }
    out
}

impl Clone for ChatRequest {
    fn clone(&self) -> (r: Self)
        ensures
            r.deep_view() == self.deep_view(),
    {
        let messages = self.messages.clone();
        let tools = self.tools.clone();
        proof {
            assert(messages.deep_view() =~= self.messages.deep_view());
            assert(tools.deep_view() =~= self.tools.deep_view());
        }
        ChatRequest {
            messages,
            tools,
            tool_choice: self.tool_choice,
            temperature: copy_number(&self.temperature),
            max_tokens: self.max_tokens,
            thinking: self.thinking,
            extra: copy_fields(&self.extra),
        }
    }
}

impl ChatRequest {
    /// A request with the messages given and nothing else.
    pub fn of(messages: Vec<Message>) -> (r: ChatRequest)
        ensures
            r.deep_view() == ChatRequestView::of(messages.deep_view()),
    {
        let tools: Vec<ToolDeclaration> = Vec::new();
        let extra: Vec<(String, Json)> = Vec::new();
        proof {
            assert(tools.deep_view() =~= Seq::empty());
            assert(extra.deep_view() =~= Seq::empty());
        }
        ChatRequest {
            messages,
            tools,
            tool_choice: ToolChoice::Auto,
            temperature: None,
            max_tokens: None,
            thinking: ThinkingConfig { enabled: true, effort: None },
            extra,
        }
    }

    /// A request with one user message.
    pub fn simple(content: MessageContent) -> (r: ChatRequest)
        ensures
            r.deep_view() == ChatRequestView::of(
                seq![
                    MessageView {
                        role: Role::User,
                        content: content.deep_view(),
                        reasoning_content: None,
                        tool_calls: Seq::empty(),
                        tool_call_id: None,
                        usage: None,
                    },
                ],
            ),
    {
        let m = Message::of(Role::User, content);
        let ghost v = m.deep_view();
        let mut messages: Vec<Message> = Vec::new();
        messages.push(m);
        proof {
            assert(messages.deep_view() =~= seq![v]);
        }
        ChatRequest::of(messages)
    }
}

impl ChatRequestView {
    /// A request with the messages given and nothing else.
    pub open spec fn of(messages: Seq<MessageView>) -> ChatRequestView {
        ChatRequestView {
            messages,
            tools: Seq::empty(),
            tool_choice: ToolChoice::Auto,
            temperature: None,
            max_tokens: None,
            thinking: (ThinkingConfig { enabled: true, effort: None }),
            extra: Seq::empty(),
        }
    }
}

/// A complete response of a model.
#[derive(Debug, PartialEq, Eq)]
pub struct ChatResponse {
    pub id: String,
    pub model: String,
    pub message: Message,
    pub finish_reason: FinishReason,
    pub usage: Option<TokenUsage>,
}

pub struct ChatResponseView {
    pub id: Seq<char>,
    pub model: Seq<char>,
    pub message: MessageView,
    pub finish_reason: FinishReasonView,
    pub usage: Option<TokenUsage>,
}

impl DeepView for ChatResponse {
    type V = ChatResponseView;

    open spec fn deep_view(&self) -> ChatResponseView {
        ChatResponseView {
            id: self.id@,
            model: self.model@,
            message: self.message.deep_view(),
            finish_reason: self.finish_reason.deep_view(),
            usage: self.usage,
        }
    }
}

impl Clone for ChatResponse {
    fn clone(&self) -> (r: Self)
        ensures
            r.deep_view() == self.deep_view(),
    {
        ChatResponse {
            id: self.id.clone(),
            model: self.model.clone(),
            message: self.message.clone(),
            finish_reason: self.finish_reason.clone(),
            usage: self.usage,
        }
    }
}

/// One piece of a streamed response: an addition, or its end.
#[derive(Debug, PartialEq, Eq)]
pub enum StreamChunk {
    Delta {
        content: Option<String>,
        reasoning_content: Option<String>,
        tool_calls: Vec<ToolCallDelta>,
        role: Option<Role>,
    },
    Finish { finish_reason: FinishReason, usage: Option<TokenUsage> },
}

/// An addition to a streamed response.
pub struct DeltaView {
    pub content: Option<Seq<char>>,
    pub reasoning_content: Option<Seq<char>>,
    pub tool_calls: Seq<ToolCallDeltaView>,
    pub role: Option<Role>,
}

pub enum StreamChunkView {
    Delta(DeltaView),
    Finish(FinishReasonView, Option<TokenUsage>),
}

impl DeepView for StreamChunk {
    type V = StreamChunkView;

    open spec fn deep_view(&self) -> StreamChunkView {
        match *self {
            StreamChunk::Delta { content, reasoning_content, tool_calls, role } => {
                StreamChunkView::Delta(
                    DeltaView {
                        content: content.deep_view(),
                        reasoning_content: reasoning_content.deep_view(),
                        tool_calls: tool_calls.deep_view(),
                        role,
                    },
                )
            },
            StreamChunk::Finish { finish_reason, usage } => StreamChunkView::Finish(
                finish_reason.deep_view(),
                usage,
            ),
        }
    }
}

impl Clone for ToolCallDelta {
    fn clone(&self) -> (r: Self)
        ensures
            r.deep_view() == self.deep_view(),
    {
        let function = match &self.function {
            Some(f) => Some(
                ToolCallFunctionDelta { name: copy_opt(&f.name), arguments: copy_opt(&f.arguments) },
            ),
            None => None,
        };
        ToolCallDelta { index: self.index, id: copy_opt(&self.id), function }
    }
}

impl Clone for StreamChunk {
    fn clone(&self) -> (r: Self)
        ensures
            r.deep_view() == self.deep_view(),
    {
        match self {
            StreamChunk::Delta { content, reasoning_content, tool_calls, role } => {
                let calls = tool_calls.clone();
                proof {
                    assert(calls.deep_view() =~= tool_calls.deep_view());
                }
                StreamChunk::Delta {
                    content: copy_opt(content),
                    reasoning_content: copy_opt(reasoning_content),
                    tool_calls: calls,
                    role: *role,
                }
            },
            StreamChunk::Finish { finish_reason, usage } => StreamChunk::Finish {
                finish_reason: finish_reason.clone(),
                usage: *usage,
            },
        }
    }
}

/// What can go wrong in a call to a vendor.
#[derive(Debug, PartialEq, Eq)]
pub enum LlmError {
    Network(String),
    Timeout,
    Auth,
    RateLimited { retry_after: Option<Duration> },
    InsufficientBalance(String),
    BadRequest(String),
    ContentBlocked(String),
    Server { status: u16, body: String },
    Protocol(String),
}

pub enum LlmErrorView {
    Network(Seq<char>),
    Timeout,
    Auth,
    RateLimited(Option<Duration>),
    InsufficientBalance(Seq<char>),
    BadRequest(Seq<char>),
    ContentBlocked(Seq<char>),
    Server(u16, Seq<char>),
    Protocol(Seq<char>),
}

impl DeepView for LlmError {
    type V = LlmErrorView;

    open spec fn deep_view(&self) -> LlmErrorView {
        match *self {
            LlmError::Network(s) => LlmErrorView::Network(s@),
            LlmError::Timeout => LlmErrorView::Timeout,
            LlmError::Auth => LlmErrorView::Auth,
            LlmError::RateLimited { retry_after } => LlmErrorView::RateLimited(retry_after),
            LlmError::InsufficientBalance(s) => LlmErrorView::InsufficientBalance(s@),
            LlmError::BadRequest(s) => LlmErrorView::BadRequest(s@),
            LlmError::ContentBlocked(s) => LlmErrorView::ContentBlocked(s@),
            LlmError::Server { status, body } => LlmErrorView::Server(status, body@),
            LlmError::Protocol(s) => LlmErrorView::Protocol(s@),
        }
    }
}

impl Clone for LlmError {
    fn clone(&self) -> (r: Self)
        ensures
            r.deep_view() == self.deep_view(),
    {
        match self {
            LlmError::Network(s) => LlmError::Network(s.clone()),
            LlmError::Timeout => LlmError::Timeout,
            LlmError::Auth => LlmError::Auth,
            LlmError::RateLimited { retry_after } => LlmError::RateLimited {
                retry_after: *retry_after,
            },
            LlmError::InsufficientBalance(s) => LlmError::InsufficientBalance(s.clone()),
            LlmError::BadRequest(s) => LlmError::BadRequest(s.clone()),
            LlmError::ContentBlocked(s) => LlmError::ContentBlocked(s.clone()),
            LlmError::Server { status, body } => LlmError::Server {
                status: *status,
                body: body.clone(),
            },
            LlmError::Protocol(s) => LlmError::Protocol(s.clone()),
        }
    }
}

impl LlmErrorView {
    /// The error in words.
    pub open spec fn message(self) -> Seq<char> {
        match self {
            LlmErrorView::Network(s) => "network error: "@ + s,
            LlmErrorView::Timeout => "request timeout"@,
            LlmErrorView::Auth => "authentication failed"@,
            LlmErrorView::RateLimited(_) => "rate limited"@,
            LlmErrorView::InsufficientBalance(s) => "insufficient balance: "@ + s,
            LlmErrorView::BadRequest(s) => "bad request: "@ + s,
            LlmErrorView::ContentBlocked(s) => "content blocked: "@ + s,
            LlmErrorView::Server(status, body) => "server error "@ + decimal(status as nat) + ": "@
                + body,
            LlmErrorView::Protocol(s) => "protocol error: "@ + s,
        }
    }

    /// Whether trying again can help.
    pub open spec fn retryable(self) -> bool {
        self is Network || self is Server || self is RateLimited
    }

    /// The wait that the vendor asked for.
    pub open spec fn asked_wait(self) -> Option<Duration> {
        match self {
            LlmErrorView::RateLimited(w) => w,
            _ => None,
        }
    }
}

impl LlmError {
    /// Whether trying again can help: a network failure, a server failure, or
    /// a rate limit.
    pub fn is_retryable(&self) -> (r: bool)
        ensures
            r == self.deep_view().retryable(),
    {
        match self {
            LlmError::Network(_) => true,
            LlmError::Server { .. } => true,
            LlmError::RateLimited { .. } => true,
            _ => false,
        }
    }
}

/// One text behind another.
pub fn joined(a: &str, b: &str) -> (r: String)
    ensures
        r@ == a@ + b@,
{
    let mut t = a.to_owned();
    t.append(b);
    t
}

impl LlmError {
    /// The error in words.
    pub fn message(&self) -> (r: String)
        ensures
            r@ == self.deep_view().message(),
    {
        match self {
            LlmError::Network(s) => joined("network error: ", s.as_str()),
            LlmError::Timeout => "request timeout".to_owned(),
            LlmError::Auth => "authentication failed".to_owned(),
            LlmError::RateLimited { .. } => "rate limited".to_owned(),
            LlmError::InsufficientBalance(s) => joined("insufficient balance: ", s.as_str()),
            LlmError::BadRequest(s) => joined("bad request: ", s.as_str()),
            LlmError::ContentBlocked(s) => joined("content blocked: ", s.as_str()),
            LlmError::Server { status, body } => {
                let mut t = joined("server error ", decimal_text(*status as u64).as_str());
                t.append(": ");
                t.append(body.as_str());
                t
            },
            LlmError::Protocol(s) => joined("protocol error: ", s.as_str()),
        }
    }
}

/// How often a call is tried again, and how long to wait before it.
#[derive(Debug, Clone, Copy, PartialEq, Eq)]
pub struct RetryPolicy {
    pub max_retries: u32,
    pub base_delay: Duration,
    pub max_delay: Duration,
}

impl Default for RetryPolicy {
    fn default() -> (r: Self)
        ensures
            r.is_usual(),
    {
        RetryPolicy {
            max_retries: 2,
            base_delay: Duration::from_millis(500),
            max_delay: Duration::from_secs(10),
        }
    }
}

/// `base` doubled `n` times, but never beyond `cap`.
pub open spec fn doubled_up_to(base: int, cap: int, n: nat) -> int
    decreases n,
{
    if n == 0 {
        if base <= cap {
            base
        } else {
            cap
        }
    } else {
        let d = 2 * doubled_up_to(base, cap, (n - 1) as nat);
        if d <= cap {
            d
        } else {
            cap
        }
    }
}

/// A wait never exceeds the cap, and doubling goes on until it is reached.
pub proof fn lemma_doubled_bounds(base: int, cap: int, n: nat)
    requires
        0 <= base,
        0 <= cap,
    ensures
        0 <= doubled_up_to(base, cap, n) <= cap,
        n > 0 && doubled_up_to(base, cap, (n - 1) as nat) == cap ==> doubled_up_to(base, cap, n)
            == cap,
    decreases n,
{
    if n > 0 {
        lemma_doubled_bounds(base, cap, (n - 1) as nat);
    }
}

/// Once the cap is reached, more doubling changes nothing.
proof fn lemma_doubled_stays(base: int, cap: int, m: nat, n: nat)
    requires
        0 <= base,
        0 <= cap,
        m <= n,
        doubled_up_to(base, cap, m) == cap,
    ensures
        doubled_up_to(base, cap, n) == cap,
    decreases n - m,
{
    if m < n {
        lemma_doubled_stays(base, cap, m, (n - 1) as nat);
        lemma_doubled_bounds(base, cap, n);
    }
}

impl RetryPolicy {
    /// Two more tries, after half a second and then twice as long, up to ten
    /// seconds.
    pub open spec fn is_usual(self) -> bool {
        &&& self.wf()
        &&& self.max_retries == 2
        &&& self.base_delay.total() == 500_000_000
        &&& self.max_delay.total() == 10_000_000_000
    }

    /// The waits are spans of time.
    pub open spec fn wf(self) -> bool {
        self.base_delay.wf() && self.max_delay.wf()
    }

    /// Whether trying again can help.
    pub fn is_retryable(e: &LlmError) -> (r: bool)
        ensures
            r == e.deep_view().retryable(),
    {
        e.is_retryable()
    }

    /// The wait before the try after `attempt`: the base delay, doubled once for
    /// every earlier try, up to the longest delay.
    pub fn backoff_for(&self, attempt: u32) -> (r: Duration)
        requires
            self.wf(),
        ensures
            r.wf(),
            r.total() == doubled_up_to(
                self.base_delay.total(),
                self.max_delay.total(),
                attempt as nat,
            ),
    {
        let mut d = self.base_delay.shorter(self.max_delay);
        let mut i: u32 = 0;
        while i < attempt
            invariant
                i <= attempt,
                self.wf(),
                d.wf(),
                d.total() == doubled_up_to(
                    self.base_delay.total(),
                    self.max_delay.total(),
                    i as nat,
                ),
            decreases attempt - i,
        {
            if d.at_least(&self.max_delay) {
                proof {
                    lemma_doubled_bounds(
                        self.base_delay.total(),
                        self.max_delay.total(),
                        i as nat,
                    );
                    lemma_doubled_stays(
                        self.base_delay.total(),
                        self.max_delay.total(),
                        i as nat,
                        attempt as nat,
                    );
                }
                return d;
            }
            d = d.doubled().shorter(self.max_delay);
            i = i + 1;
        }
        d
    }
}

/// The kinds of content that a model takes besides text.
#[derive(Debug, Clone, Copy, PartialEq, Eq, Structural)]
pub struct MultimodalCapabilities {
    pub image: bool,
    pub audio: bool,
    pub video: bool,
    pub file_upload: bool,
}

impl MultimodalCapabilities {
    /// Text alone.
    pub fn none() -> (r: MultimodalCapabilities)
        ensures
            r == (MultimodalCapabilities {
                image: false,
                audio: false,
                video: false,
                file_upload: false,
            }),
    {
        MultimodalCapabilities { image: false, audio: false, video: false, file_upload: false }
    }
}

/// What a vendor's endpoint can do.
#[derive(Debug, Clone, Copy, PartialEq, Eq, Structural)]
pub struct ProviderCapabilities {
    pub parallel_tool_calls: bool,
    pub system_role: bool,
    pub streaming: bool,
    pub usage_reported: bool,
    pub multimodal: MultimodalCapabilities,
}

/// The size of a model.
#[derive(Debug, Clone, Copy, PartialEq, Eq, Structural)]
pub struct ModelSpec {
    pub context_window_tokens: usize,
    pub max_output_tokens: usize,
}

/// The name of a vendor and of its model, with a slash between.
#[derive(Debug, PartialEq, Eq)]
pub struct ProviderId {
    pub name: String,
}

impl DeepView for ProviderId {
    type V = Seq<char>;

    open spec fn deep_view(&self) -> Seq<char> {
        self.name@
    }
}

impl Clone for ProviderId {
    fn clone(&self) -> (r: Self)
        ensures
            r.deep_view() == self.deep_view(),
    {
        ProviderId { name: self.name.clone() }
    }
}

impl ProviderId {
    pub fn new(name: &str) -> (r: ProviderId)
        ensures
            r.deep_view() == name@,
    {
        ProviderId { name: name.to_owned() }
    }

    pub fn owned(name: String) -> (r: ProviderId)
        ensures
            r.deep_view() == name@,
    {
        ProviderId { name }
    }

    pub fn as_str(&self) -> (r: &str)
        ensures
            r@ == self.deep_view(),
    {
        self.name.as_str()
    }
}

} // verus!
