//! The wire format of the Anthropic messages API: request bodies of content
//! blocks, responses, and the events of a stream.

use vstd::prelude::*;
use vstd::string::*;

use crate::json::{
    json_text, parse_slice, parse_text, parsed, parsed_slice, write_text, Json, JsonView, Number,
    NumberView,
};
use crate::provider::client::{header_list, headers_of};
use crate::provider::content::{ContentPart, ContentPartView, MediaSource, MediaSourceView};
use crate::provider::openai_compat::{
    count_at, get_count, keep_nonempty, make1, make2, make3, nonempty, object1, object2, object3,
    or_zero, resolution_name, resolution_str,
};
use crate::provider::sse::{response_view, ChunkParts, ChunkPartsView};
use crate::provider::{
    joined, ChatResponse, ChatResponseView, DeltaView, FinishReason, FinishReasonView, LlmError,
    LlmErrorView, Message, MessageContent, MessageContentView, MessageView, RetryPolicy, Role,
    StreamChunk, StreamChunkView, TokenUsage, ToolCall, ToolCallDelta, ToolCallDeltaView,
    ToolCallFunction, ToolCallFunctionDelta, ToolCallFunctionDeltaView, ToolCallView, ToolChoice,
    ToolDeclaration, ToolDeclarationView,
};
use crate::text::{join, join_text, same, strip_end, strip_end_text};
use crate::time::Duration;

verus! {

broadcast use vstd::string::group_string_axioms;

/// What a client is made with.
pub struct AnthropicConfig {
    pub base_url: String,
    pub api_key: String,
    pub timeout: Duration,
    pub retry: RetryPolicy,
    pub extra_headers: Vec<(String, String)>,
}

/// The side of a client that does no I/O: where it sends its requests, and
/// with what headers.
pub struct AnthropicClient {
    pub base_url: String,
    pub api_key: String,
    pub timeout: Duration,
    pub retry: RetryPolicy,
    pub extra_headers: Vec<(String, String)>,
}

impl AnthropicClient {
    /// The client of a configuration. The base address loses its trailing
    /// slashes.
    pub fn new(cfg: AnthropicConfig) -> (r: Result<AnthropicClient, LlmError>)
        ensures
            r is Ok,
            r->Ok_0.base_url@ == strip_end(cfg.base_url@, '/'),
            r->Ok_0.api_key@ == cfg.api_key@,
            r->Ok_0.timeout == cfg.timeout,
            r->Ok_0.retry == cfg.retry,
            r->Ok_0.extra_headers@ == cfg.extra_headers@,
    {
        Ok(
            AnthropicClient {
                base_url: strip_end_text(cfg.base_url.as_str(), '/'),
                api_key: cfg.api_key,
                timeout: cfg.timeout,
                retry: cfg.retry,
                extra_headers: cfg.extra_headers,
            },
        )
    }

    /// The address that requests go to.
    pub fn endpoint(&self) -> (r: String)
        ensures
            r@ == self.base_url@ + "/v1/messages"@,
    {
        self.base_url.clone().concat("/v1/messages")
    }

    /// The additional headers of a request.
    pub fn header_map(&self) -> (r: Vec<(String, String)>)
        ensures
            r.deep_view() == headers_of(self.extra_headers.deep_view()),
    {
        header_list(&self.extra_headers)
    }
}

// ---------------------------------------------------------------------------
// Requests

/// The name of a role on the wire. A tool's result comes from the user.
pub open spec fn role_name(r: Role) -> Seq<char> {
    match r {
        Role::System => "system"@,
        Role::User => "user"@,
        Role::Assistant => "assistant"@,
        Role::Tool => "user"@,
    }
}

/// The name of a role on the wire.
pub fn role_to_str(r: &Role) -> (s: &'static str)
    ensures
        s@ == role_name(*r),
{
    match r {
        Role::System => "system",
        Role::User => "user",
        Role::Assistant => "assistant",
        Role::Tool => "user",
    }
}

/// Where the data of a medium are, on the wire.
pub open spec fn source_json(src: MediaSourceView) -> JsonView {
    match src {
        MediaSourceView::Url(url) => object2(
            "type"@,
            JsonView::Text("url"@),
            "url"@,
            JsonView::Text(url),
        ),
        MediaSourceView::Base64(mime, data) => object3(
            "type"@,
            JsonView::Text("base64"@),
            "media_type"@,
            JsonView::Text(mime),
            "data"@,
            JsonView::Text(data),
        ),
        MediaSourceView::FileId(id) => object2(
            "type"@,
            JsonView::Text("url"@),
            "url"@,
            JsonView::Text("ms://"@ + id),
        ),
    }
}

/// Where the data of a medium are, on the wire.
pub fn media_source_to_source(src: &MediaSource) -> (r: Json)
    ensures
        r.deep_view() == source_json(src.deep_view()),
{
    match src {
        MediaSource::Url { url } => make2(
            "type",
            Json::text("url"),
            "url",
            Json::text(url.as_str()),
        ),
        MediaSource::Base64 { mime, data } => make3(
            "type",
            Json::text("base64"),
            "media_type",
            Json::text(mime.as_str()),
            "data",
            Json::text(data.as_str()),
        ),
        MediaSource::FileId { file_id } => make2(
            "type",
            Json::text("url"),
            "url",
            Json::Text("ms://".to_owned().concat(file_id.as_str())),
        ),
    }
}

/// A picture as a content block.
pub fn image_block(source: &MediaSource) -> (r: Json)
    ensures
        r.deep_view() == object2(
            "type"@,
            JsonView::Text("image"@),
            "source"@,
            source_json(source.deep_view()),
        ),
{
    make2("type", Json::text("image"), "source", media_source_to_source(source))
}

/// A text as a content block.
pub open spec fn text_block(t: Seq<char>) -> JsonView {
    object2("type"@, JsonView::Text("text"@), "text"@, JsonView::Text(t))
}

/// One part of a message as a content block. The protocol has no audio.
pub open spec fn part_block(part: ContentPartView) -> JsonView {
    match part {
        ContentPartView::Text(t) => text_block(t),
        ContentPartView::Image(source, _) => object2(
            "type"@,
            JsonView::Text("image"@),
            "source"@,
            source_json(source),
        ),
        ContentPartView::Video(source, params) => {
            let v = object2(
                "type"@,
                JsonView::Text("video"@),
                "source"@,
                source_json(source),
            );
            let w = match params.fps {
                Some(n) => v.with("fps"@, JsonView::Number(n)),
                None => v,
            };
            match params.media_resolution {
                Some(m) => w.with("media_resolution"@, JsonView::Text(resolution_name(m))),
                None => w,
            }
        },
        ContentPartView::Audio(_) => text_block("[audio media omitted]"@),
    }
}

/// One part of a message as a content block.
pub fn content_part_to_block(part: &ContentPart) -> (r: Json)
    ensures
        r.deep_view() == part_block(part.deep_view()),
{
    match part {
        ContentPart::Text { text } => make2(
            "type",
            Json::text("text"),
            "text",
            Json::text(text.as_str()),
        ),
        ContentPart::Image { source, .. } => image_block(source),
        ContentPart::Video { source, params } => {
            let mut v = make2(
                "type",
                Json::text("video"),
                "source",
                media_source_to_source(source),
            );
            if let Some(n) = &params.fps {
                v = v.with("fps", Json::Number(n.clone()));
            }
            if let Some(m) = params.media_resolution {
                v = v.with("media_resolution", Json::text(resolution_str(m)));
            }
            v
        },
        ContentPart::Audio { .. } => make2(
            "type",
            Json::text("text"),
            "text",
            Json::text("[audio media omitted]"),
        ),
    }
}

/// A content as a list of blocks.
pub open spec fn blocks_of(c: MessageContentView) -> Seq<JsonView> {
    match c {
        MessageContentView::Text(t) => seq![text_block(t)],
        MessageContentView::Multimodal(parts) => parts.map_values(
            |p: ContentPartView| part_block(p),
        ),
    }
}

/// A content as a list of blocks.
pub fn content_blocks(content: &MessageContent) -> (r: Vec<Json>)
    ensures
        r.deep_view() == blocks_of(content.deep_view()),
{
    let mut list: Vec<Json> = Vec::new();
    match content {
        MessageContent::Text(t) => {
            let b = make2("type", Json::text("text"), "text", Json::text(t.as_str()));
            let ghost bv = b.deep_view();
            list.push(b);
            proof {
                assert(list.deep_view() =~= seq![bv]);
            }
        },
        MessageContent::Multimodal(parts) => {
            let ghost wanted = parts.deep_view().map_values(|p: ContentPartView| part_block(p));
            let mut i: usize = 0;
            while i < parts.len()
                invariant
                    i <= parts@.len(),
                    wanted == parts.deep_view().map_values(|p: ContentPartView| part_block(p)),
                    list.deep_view() == wanted.take(i as int),
                decreases parts@.len() - i,
            {
                let ghost before = list.deep_view();
                let p = content_part_to_block(&parts[i]);
                list.push(p);
                proof {
                    assert(list.deep_view() =~= before.push(p.deep_view()));
                    assert(wanted.take(i + 1) =~= wanted.take(i as int).push(wanted[i as int]));
                }
                i = i + 1;
            }
            proof {
                assert(wanted.take(wanted.len() as int) =~= wanted);
            }
        },
    }
    list
}

/// The arguments of a tool call as a value: null where they are no JSON.
pub open spec fn input_of(arguments: Seq<char>) -> JsonView {
    match parsed(arguments) {
        Ok(v) => v,
        Err(_) => JsonView::Null,
    }
}

/// A tool call as a content block.
pub open spec fn use_block(c: ToolCallView) -> JsonView {
    JsonView::Object(
        seq![
            ("type"@, JsonView::Text("tool_use"@)),
            ("id"@, JsonView::Text(c.id)),
            ("name"@, JsonView::Text(c.name)),
            ("input"@, input_of(c.arguments)),
        ],
    )
}

/// A tool call as a content block.
pub fn tool_call_to_tool_use(tc: &ToolCall) -> (r: Json)
    ensures
        r.deep_view() == use_block(tc.deep_view()),
{
    let input = match parse_text(tc.function.arguments.as_str()) {
        Ok(v) => v,
        Err(_) => Json::Null,
    };
    let ghost iv = input.deep_view();
    let r = make3(
        "type",
        Json::text("tool_use"),
        "id",
        Json::text(tc.id.as_str()),
        "name",
        Json::text(tc.function.name.as_str()),
    ).plus("input", input);
    proof {
        assert(r.deep_view()->Object_0 =~= use_block(tc.deep_view())->Object_0);
    }
    r
}

/// An assistant's message as blocks: its content, its thoughts, its tool calls.
pub open spec fn assistant_blocks_of(m: MessageView) -> Seq<JsonView> {
    let thoughts = match m.reasoning_content {
        Some(rc) => if rc.len() > 0 {
            seq![
                object2(
                    "type"@,
                    JsonView::Text("thinking"@),
                    "thinking"@,
                    JsonView::Text(rc),
                ),
            ]
        } else {
            Seq::empty()
        },
        None => Seq::empty(),
    };
    blocks_of(m.content) + thoughts + m.tool_calls.map_values(|c: ToolCallView| use_block(c))
}

/// An assistant's message as blocks.
pub fn assistant_blocks(m: &Message) -> (r: Vec<Json>)
    ensures
        r.deep_view() == assistant_blocks_of(m.deep_view()),
{
    let mut blocks = content_blocks(&m.content);
    let ghost start = blocks.deep_view();
    if let Some(rc) = &m.reasoning_content {
        if !rc.as_str().is_empty() {
            let b = make2(
                "type",
                Json::text("thinking"),
                "thinking",
                Json::text(rc.as_str()),
            );
            let ghost bv = b.deep_view();
            blocks.push(b);
            proof {
                assert(blocks.deep_view() =~= start + seq![bv]);
            }
        }
    }
    let ghost front = blocks.deep_view();
    let ghost wanted = m.tool_calls.deep_view().map_values(|c: ToolCallView| use_block(c));
    proof {
        assert(front + wanted.take(0) =~= front);
        assert(start + Seq::empty() =~= start);
    }
    let mut i: usize = 0;
    while i < m.tool_calls.len()
        invariant
            i <= m.tool_calls@.len(),
            wanted == m.tool_calls.deep_view().map_values(|c: ToolCallView| use_block(c)),
            blocks.deep_view() == front + wanted.take(i as int),
        decreases m.tool_calls@.len() - i,
    {
        let ghost before = blocks.deep_view();
        let b = tool_call_to_tool_use(&m.tool_calls[i]);
        let ghost bv = b.deep_view();
        blocks.push(b);
        proof {
            assert(blocks.deep_view() =~= before.push(bv));
            assert(before.push(bv) =~= front + wanted.take(i + 1));
        }
        i = i + 1;
    }
    proof {
        assert(wanted.take(wanted.len() as int) =~= wanted);
    }
    blocks
}

/// A message that is not from the system, on the wire.
pub open spec fn message_json(m: MessageView) -> JsonView {
    let content = match m.role {
        Role::Tool => JsonView::List(
            seq![
                object3(
                    "type"@,
                    JsonView::Text("tool_result"@),
                    "tool_use_id"@,
                    JsonView::Text(
                        match m.tool_call_id {
                            Some(id) => id,
                            None => Seq::empty(),
                        },
                    ),
                    "content"@,
                    match m.content {
                        MessageContentView::Text(t) => JsonView::Text(t),
                        MessageContentView::Multimodal(_) => JsonView::List(
                            blocks_of(m.content),
                        ),
                    },
                ),
            ],
        ),
        Role::Assistant => JsonView::List(assistant_blocks_of(m)),
        _ => JsonView::List(blocks_of(m.content)),
    };
    object2("role"@, JsonView::Text(role_name(m.role)), "content"@, content)
}

/// A message that is not from the system, on the wire.
pub fn message_to_body_json(m: &Message) -> (r: Json)
    ensures
        r.deep_view() == message_json(m.deep_view()),
{
    let content = match m.role {
        Role::Tool => {
            let inner = match &m.content {
                MessageContent::Text(t) => Json::text(t.as_str()),
                MessageContent::Multimodal(_) => Json::list(content_blocks(&m.content)),
            };
            let id = match &m.tool_call_id {
                Some(id) => id.clone(),
                None => String::new(),
            };
            let b = make3(
                "type",
                Json::text("tool_result"),
                "tool_use_id",
                Json::Text(id),
                "content",
                inner,
            );
            let ghost bv = b.deep_view();
            let mut list: Vec<Json> = Vec::new();
            list.push(b);
            proof {
                assert(list.deep_view() =~= seq![bv]);
            }
            Json::list(list)
        },
        Role::Assistant => Json::list(assistant_blocks(m)),
        _ => Json::list(content_blocks(&m.content)),
    };
    make2("role", Json::text(role_to_str(&m.role)), "content", content)
}

/// The texts of the system messages.
pub open spec fn system_texts(messages: Seq<MessageView>) -> Seq<Seq<char>>
    decreases messages.len(),
{
    if messages.len() == 0 {
        Seq::empty()
    } else {
        let before = system_texts(messages.drop_last());
        match messages.last().content.as_text() {
            Some(t) if messages.last().role == Role::System => before.push(t),
            _ => before,
        }
    }
}

/// The messages that are not from the system, on the wire.
pub open spec fn other_messages(messages: Seq<MessageView>) -> Seq<JsonView>
    decreases messages.len(),
{
    if messages.len() == 0 {
        Seq::empty()
    } else {
        let before = other_messages(messages.drop_last());
        if messages.last().role == Role::System {
            before
        } else {
            before.push(message_json(messages.last()))
        }
    }
}

/// A tool declaration on the wire.
pub open spec fn tool_json(t: ToolDeclarationView) -> JsonView {
    object3(
        "name"@,
        JsonView::Text(t.name),
        "description"@,
        JsonView::Text(t.description),
        "input_schema"@,
        t.parameters,
    )
}

/// The name of a tool choice on the wire.
pub open spec fn choice_name(c: ToolChoice) -> Seq<char> {
    match c {
        ToolChoice::Auto => "auto"@,
        ToolChoice::Never => "none"@,
        ToolChoice::Required => "any"@,
    }
}

/// The fields of a request body that all vendors share. The system messages
/// are gathered in a field of their own.
pub open spec fn common_body(
    messages: Seq<MessageView>,
    tools: Seq<ToolDeclarationView>,
    tool_choice: ToolChoice,
    temperature: Option<NumberView>,
    max_tokens: usize,
    model: Seq<char>,
) -> JsonView {
    let a = object3(
        "model"@,
        JsonView::Text(model),
        "max_tokens"@,
        JsonView::Number(NumberView::Unsigned(max_tokens as u64)),
        "messages"@,
        JsonView::List(other_messages(messages)),
    );
    let b = if system_texts(messages).len() > 0 {
        a.with("system"@, JsonView::Text(join(system_texts(messages), "\n\n"@)))
    } else {
        a
    };
    let c = if tools.len() > 0 {
        b.with(
            "tools"@,
            JsonView::List(tools.map_values(|t: ToolDeclarationView| tool_json(t))),
        ).with("tool_choice"@, object1("type"@, JsonView::Text(choice_name(tool_choice))))
    } else {
        b
    };
    match temperature {
        Some(t) => c.with("temperature"@, JsonView::Number(t)),
        None => c,
    }
}

/// The fields of a request body that all vendors share. A vendor adds its own,
/// and the client adds `stream`.
pub fn build_common_body(
    messages: &Vec<Message>,
    tools: &Vec<ToolDeclaration>,
    tool_choice: ToolChoice,
    temperature: &Option<Number>,
    max_tokens: usize,
    model: &str,
) -> (r: Json)
    ensures
        r.deep_view() == common_body(
            messages.deep_view(),
            tools.deep_view(),
            tool_choice,
            temperature.deep_view(),
            max_tokens,
            model@,
        ),
{
    let ghost all = messages.deep_view();
    let mut system: Vec<String> = Vec::new();
    let mut list: Vec<Json> = Vec::new();
    let mut i: usize = 0;
    proof {
        assert(system.deep_view() =~= system_texts(all.take(0)));
        assert(list.deep_view() =~= other_messages(all.take(0)));
    }
    while i < messages.len()
        invariant
            i <= messages@.len(),
            all == messages.deep_view(),
            system.deep_view() == system_texts(all.take(i as int)),
            list.deep_view() == other_messages(all.take(i as int)),
        decreases messages@.len() - i,
    {
        let ghost texts = system.deep_view();
        let ghost others = list.deep_view();
        proof {
            assert(all.take(i + 1).drop_last() =~= all.take(i as int));
            assert(all.take(i + 1).last() == all[i as int]);
        }
        if messages[i].role == Role::System {
            if let Some(t) = messages[i].content.as_text() {
                let s = t.to_owned();
                system.push(s);
                proof {
                    assert(system.deep_view() =~= texts.push(s@));
                }
            }
        } else {
            let m = message_to_body_json(&messages[i]);
            let ghost mv = m.deep_view();
            list.push(m);
            proof {
                assert(list.deep_view() =~= others.push(mv));
            }
        }
        i = i + 1;
    }
    proof {
        assert(all.take(all.len() as int) =~= all);
    }
    let mut body = make3(
        "model",
        Json::text(model),
        "max_tokens",
        Json::unsigned(max_tokens as u64),
        "messages",
        Json::list(list),
    );
    if system.len() > 0 {
        body = body.with("system", Json::Text(join_text(&system, "\n\n")));
    }
    if tools.len() > 0 {
        let ghost declared = tools.deep_view().map_values(|t: ToolDeclarationView| tool_json(t));
        let mut out: Vec<Json> = Vec::new();
        let mut j: usize = 0;
        while j < tools.len()
            invariant
                j <= tools@.len(),
                declared == tools.deep_view().map_values(|t: ToolDeclarationView| tool_json(t)),
                out.deep_view() == declared.take(j as int),
            decreases tools@.len() - j,
        {
            let ghost before = out.deep_view();
            let t = make3(
                "name",
                Json::text(tools[j].name.as_str()),
                "description",
                Json::text(tools[j].description.as_str()),
                "input_schema",
                tools[j].parameters.clone(),
            );
            let ghost tv = t.deep_view();
            out.push(t);
            proof {
                assert(out.deep_view() =~= before.push(tv));
                assert(declared.take(j + 1) =~= declared.take(j as int).push(declared[j as int]));
            }
            j = j + 1;
        }
        proof {
            assert(declared.take(declared.len() as int) =~= declared);
        }
        let choice = match tool_choice {
            ToolChoice::Auto => "auto",
            ToolChoice::Never => "none",
            ToolChoice::Required => "any",
        };
        body = body.with("tools", Json::list(out)).with(
            "tool_choice",
            make1("type", Json::text(choice)),
        );
    }
    if let Some(t) = temperature {
        body = body.with("temperature", Json::Number(t.clone()));
    }
    body
}

// ---------------------------------------------------------------------------
// Responses

/// The reason of the end by its name on the wire.
pub open spec fn stop_reason(s: Seq<char>) -> FinishReasonView {
    if s == "end_turn"@ || s == "stop_sequence"@ {
        FinishReasonView::Stop
    } else if s == "max_tokens"@ {
        FinishReasonView::Length
    } else if s == "tool_use"@ {
        FinishReasonView::ToolCalls
    } else {
        FinishReasonView::Other(s)
    }
}

/// The reason of the end by its name on the wire.
pub fn map_stop_reason(s: &str) -> (r: FinishReason)
    ensures
        r.deep_view() == stop_reason(s@),
{
    if same(s, "end_turn") || same(s, "stop_sequence") {
        FinishReason::Stop
    } else if same(s, "max_tokens") {
        FinishReason::Length
    } else if same(s, "tool_use") {
        FinishReason::ToolCalls
    } else {
        FinishReason::Other(s.to_owned())
    }
}

/// The token usage of a usage object: the total is the sum of its parts.
pub open spec fn usage_of(u: JsonView) -> TokenUsage {
    let p = or_zero(count_at(u, "input_tokens"@));
    let c = or_zero(count_at(u, "output_tokens"@));
    TokenUsage {
        prompt_tokens: p,
        completion_tokens: c,
        total_tokens: p.wrapping_add(c),
        reasoning_tokens: None,
        prompt_cache_hit_tokens: None,
        prompt_cache_miss_tokens: None,
        cache_read_tokens: count_at(u, "cache_read_input_tokens"@),
        cache_write_tokens: count_at(u, "cache_creation_input_tokens"@),
    }
}

/// The token usage of a usage object.
pub fn parse_usage(u: &Json) -> (r: TokenUsage)
    ensures
        r == usage_of(u.deep_view()),
{
    let prompt_tokens: usize = match get_count(u, "input_tokens") {
        Some(x) => x,
        None => 0,
    };
    let completion_tokens: usize = match get_count(u, "output_tokens") {
        Some(x) => x,
        None => 0,
    };
    TokenUsage {
        prompt_tokens,
        completion_tokens,
        total_tokens: prompt_tokens.wrapping_add(completion_tokens),
        reasoning_tokens: None,
        prompt_cache_hit_tokens: None,
        prompt_cache_miss_tokens: None,
        cache_read_tokens: get_count(u, "cache_read_input_tokens"),
        cache_write_tokens: get_count(u, "cache_creation_input_tokens"),
    }
}

/// The token usage that a response or an event carries.
pub open spec fn usage_at(j: JsonView) -> Option<TokenUsage> {
    match j.get("usage"@) {
        Some(u) => if u is Null {
            None
        } else {
            Some(usage_of(u))
        },
        None => None,
    }
}

fn find_usage(j: &Json) -> (r: Option<TokenUsage>)
    ensures
        r == usage_at(j.deep_view()),
{
    match j.get("usage") {
        Some(u) => if u.is_null() {
            None
        } else {
            Some(parse_usage(u))
        },
        None => None,
    }
}

/// A tool call of a content block: its input becomes JSON text.
pub open spec fn tool_use_of(block: JsonView) -> Option<ToolCallView> {
    match (block.str_at("id"@), block.str_at("name"@)) {
        (Some(id), Some(name)) => Some(
            ToolCallView {
                id,
                name,
                arguments: match block.get("input"@) {
                    Some(v) => if v is Null {
                        Seq::empty()
                    } else {
                        json_text(v)
                    },
                    None => Seq::empty(),
                },
            },
        ),
        _ => None,
    }
}

/// A tool call of a content block.
pub fn parse_tool_use(block: &Json) -> (r: Option<ToolCall>)
    ensures
        r.deep_view() == tool_use_of(block.deep_view()),
{
    let id = match block.str_at("id") {
        Some(x) => x,
        None => {
            return None;
        },
    };
    let name = match block.str_at("name") {
        Some(x) => x,
        None => {
            return None;
        },
    };
    let arguments = match block.get("input") {
        Some(v) => if v.is_null() {
            String::new()
        } else {
            write_text(v)
        },
        None => String::new(),
    };
    Some(ToolCall { id, function: ToolCallFunction { name, arguments } })
}

/// What the content blocks of a response hold together.
pub struct BlocksView {
    pub text: Seq<char>,
    pub thoughts: Seq<char>,
    pub calls: Seq<ToolCallView>,
}

/// What one more content block adds.
pub open spec fn add_block(b: BlocksView, block: JsonView) -> BlocksView {
    match block.str_at("type"@) {
        Some(kind) => if kind == "text"@ {
            BlocksView {
                text: match block.str_at("text"@) {
                    Some(s) => b.text + s,
                    None => b.text,
                },
                ..b
            }
        } else if kind == "thinking"@ {
            BlocksView {
                thoughts: match block.str_at("thinking"@) {
                    Some(s) => b.thoughts + s,
                    None => b.thoughts,
                },
                ..b
            }
        } else if kind == "tool_use"@ {
            BlocksView {
                calls: match tool_use_of(block) {
                    Some(c) => b.calls.push(c),
                    None => b.calls,
                },
                ..b
            }
        } else {
            b
        },
        None => b,
    }
}

/// What content blocks hold together.
pub open spec fn read_blocks(blocks: Seq<JsonView>) -> BlocksView
    decreases blocks.len(),
{
    if blocks.len() == 0 {
        BlocksView { text: Seq::empty(), thoughts: Seq::empty(), calls: Seq::empty() }
    } else {
        add_block(read_blocks(blocks.drop_last()), blocks.last())
    }
}

/// A complete response.
pub open spec fn response_of(json: JsonView) -> Result<ChatResponseView, LlmErrorView> {
    match (json.str_at("id"@), json.str_at("model"@)) {
        (None, _) => Err(LlmErrorView::Protocol("missing '"@ + "id"@ + "' in response"@)),
        (_, None) => Err(LlmErrorView::Protocol("missing '"@ + "model"@ + "' in response"@)),
        (Some(id), Some(model)) => {
            let b = read_blocks(
                match json.list_at("content"@) {
                    Some(list) => list,
                    None => Seq::empty(),
                },
            );
            Ok(
                ChatResponseView {
                    id,
                    model,
                    message: MessageView {
                        role: Role::Assistant,
                        content: MessageContentView::Text(b.text),
                        reasoning_content: if b.thoughts.len() == 0 {
                            None
                        } else {
                            Some(b.thoughts)
                        },
                        tool_calls: b.calls,
                        tool_call_id: None,
                        usage: usage_at(json),
                    },
                    finish_reason: match json.str_at("stop_reason"@) {
                        Some(s) => stop_reason(s),
                        None => FinishReasonView::Stop,
                    },
                    usage: usage_at(json),
                },
            )
        },
    }
}

/// The field `key` of a response, which has to be a string.
pub fn json_str(v: &Json, key: &str) -> (r: Result<String, LlmError>)
    ensures
        v.deep_view().str_at(key@) is Some ==> r is Ok && r->Ok_0@ == v.deep_view().str_at(key@)->0,
        v.deep_view().str_at(key@) is None ==> r is Err && r->Err_0.deep_view()
            == LlmErrorView::Protocol("missing '"@ + key@ + "' in response"@),
{
    match v.str_at(key) {
        Some(s) => Ok(s),
        None => {
            let mut msg = "missing '".to_owned();
            msg.append(key);
            msg.append("' in response");
            Err(LlmError::Protocol(msg))
        },
    }
}

/// A complete response.
pub fn parse_chat_response(json: &Json) -> (r: Result<ChatResponse, LlmError>)
    ensures
        response_view(r) == response_of(json.deep_view()),
{
    let id = match json_str(json, "id") {
        Ok(s) => s,
        Err(e) => {
            return Err(e);
        },
    };
    let model = match json_str(json, "model") {
        Ok(s) => s,
        Err(e) => {
            return Err(e);
        },
    };
    let finish_reason = match json.str_at("stop_reason") {
        Some(s) => map_stop_reason(s.as_str()),
        None => FinishReason::Stop,
    };
    let mut text = String::new();
    let mut thoughts = String::new();
    let mut tool_calls: Vec<ToolCall> = Vec::new();
    let ghost list = match json.deep_view().list_at("content"@) {
        Some(l) => l,
        None => Seq::empty(),
    };
    proof {
        assert(tool_calls.deep_view() =~= Seq::empty());
    }
    if let Some(blocks) = json.list_at("content") {
        let mut i: usize = 0;
        proof {
            assert(list.take(0) =~= Seq::empty());
        }
        while i < blocks.len()
            invariant
                i <= blocks@.len(),
                list == blocks.deep_view(),
                read_blocks(list.take(i as int)) == (BlocksView {
                    text: text@,
                    thoughts: thoughts@,
                    calls: tool_calls.deep_view(),
                }),
            decreases blocks@.len() - i,
        {
            let block = &blocks[i];
            let ghost calls = tool_calls.deep_view();
            proof {
                assert(list.take(i + 1).drop_last() =~= list.take(i as int));
                assert(list.take(i + 1).last() == list[i as int]);
                reveal_strlit("text");
                reveal_strlit("thinking");
                reveal_strlit("tool_use");
            }
            if let Some(kind) = block.str_at("type") {
                if same(kind.as_str(), "text") {
                    if let Some(s) = block.str_at("text") {
                        text.append(s.as_str());
                    }
                } else if same(kind.as_str(), "thinking") {
                    if let Some(s) = block.str_at("thinking") {
                        thoughts.append(s.as_str());
                    }
                } else if same(kind.as_str(), "tool_use") {
                    if let Some(c) = parse_tool_use(block) {
                        let ghost cv = c.deep_view();
                        tool_calls.push(c);
                        proof {
                            assert(tool_calls.deep_view() =~= calls.push(cv));
                        }
                    }
                }
            }
            i = i + 1;
        }
        proof {
            assert(list.take(list.len() as int) =~= list);
        }
    }
    let usage = find_usage(json);
    let message = Message {
        role: Role::Assistant,
        content: MessageContent::Text(text),
        reasoning_content: if thoughts.as_str().is_empty() {
            None
        } else {
            Some(thoughts)
        },
        tool_calls,
        tool_call_id: None,
        usage,
    };
    Ok(ChatResponse { id, model, message, finish_reason, usage })
}

/// The response that a body holds.
pub fn decode_response(bytes: &[u8]) -> (r: Result<ChatResponse, LlmError>)
    ensures
        response_view(r) == (match parsed_slice(bytes@) {
            Ok(json) => response_of(json),
            Err(e) => Err(LlmErrorView::Protocol("response decode: "@ + e)),
        }),
{
    match parse_slice(bytes) {
        Ok(json) => parse_chat_response(&json),
        Err(e) => Err(LlmError::Protocol(joined("response decode: ", e.as_str()))),
    }
}

// ---------------------------------------------------------------------------
// Streams

/// The index that an event speaks of.
pub open spec fn index_of(json: JsonView) -> u32 {
    match json.u64_at("index"@) {
        Some(n) => n as u32,
        None => 0,
    }
}

/// An addition of one tool call delta.
pub open spec fn call_addition(
    index: u32,
    id: Option<Seq<char>>,
    name: Option<Seq<char>>,
    arguments: Option<Seq<char>>,
) -> DeltaView {
    DeltaView {
        content: None,
        reasoning_content: None,
        tool_calls: seq![
            ToolCallDeltaView {
                index,
                id,
                function: Some(ToolCallFunctionDeltaView { name, arguments }),
            },
        ],
        role: None,
    }
}

/// What the start of a content block adds: the identity of a tool call.
pub open spec fn start_of(json: JsonView) -> Option<DeltaView> {
    match json.get("content_block"@) {
        Some(cb) => if cb.str_at("type"@) == Some("tool_use"@) {
            Some(call_addition(index_of(json), cb.str_at("id"@), cb.str_at("name"@), None))
        } else {
            None
        },
        None => None,
    }
}

/// What a content block's delta adds: thoughts, text, or arguments.
pub open spec fn delta_of(json: JsonView) -> Option<DeltaView> {
    match json.get("delta"@) {
        None => None,
        Some(d) => match d.str_at("type"@) {
            None => None,
            Some(kind) => if kind == "thinking_delta"@ {
                match nonempty(d.str_at("thinking"@)) {
                    Some(t) => Some(
                        DeltaView {
                            content: None,
                            reasoning_content: Some(t),
                            tool_calls: Seq::empty(),
                            role: None,
                        },
                    ),
                    None => None,
                }
            } else if kind == "text_delta"@ {
                match nonempty(d.str_at("text"@)) {
                    Some(t) => Some(
                        DeltaView {
                            content: Some(t),
                            reasoning_content: None,
                            tool_calls: Seq::empty(),
                            role: None,
                        },
                    ),
                    None => None,
                }
            } else if kind == "input_json_delta"@ {
                match nonempty(d.str_at("partial_json"@)) {
                    Some(a) => Some(call_addition(index_of(json), None, None, Some(a))),
                    None => None,
                }
            } else {
                None
            },
        },
    }
}

/// An addition as a chunk.
pub open spec fn as_chunk(d: Option<DeltaView>) -> Option<StreamChunkView> {
    match d {
        Some(v) => Some(StreamChunkView::Delta(v)),
        None => None,
    }
}

/// What an event of a stream gives.
pub open spec fn chunk_of(json: JsonView) -> ChunkPartsView {
    match json.str_at("type"@) {
        None => (None, None, None),
        Some(kind) => if kind == "content_block_start"@ {
            (as_chunk(start_of(json)), None, None)
        } else if kind == "content_block_delta"@ {
            (as_chunk(delta_of(json)), None, None)
        } else if kind == "message_delta"@ {
            (
                None,
                match json.get("delta"@) {
                    Some(d) => match d.str_at("stop_reason"@) {
                        Some(s) => Some(stop_reason(s)),
                        None => None,
                    },
                    None => None,
                },
                usage_at(json),
            )
        } else {
            (None, None, None)
        },
    }
}

fn find_index(json: &Json) -> (r: u32)
    ensures
        r == index_of(json.deep_view()),
{
    match json.u64_at("index") {
        Some(n) => n as u32,
        None => 0,
    }
}

fn add_call(
    index: u32,
    id: Option<String>,
    name: Option<String>,
    arguments: Option<String>,
) -> (r: StreamChunk)
    ensures
        r.deep_view() == StreamChunkView::Delta(
            call_addition(index, id.deep_view(), name.deep_view(), arguments.deep_view()),
        ),
{
    let d = ToolCallDelta { index, id, function: Some(ToolCallFunctionDelta { name, arguments }) };
    let ghost dv = d.deep_view();
    let mut tool_calls: Vec<ToolCallDelta> = Vec::new();
    tool_calls.push(d);
    proof {
        assert(tool_calls.deep_view() =~= seq![dv]);
    }
    StreamChunk::Delta { content: None, reasoning_content: None, tool_calls, role: None }
}

fn add_text(content: Option<String>, reasoning_content: Option<String>) -> (r: StreamChunk)
    ensures
        r.deep_view() == StreamChunkView::Delta(
            DeltaView {
                content: content.deep_view(),
                reasoning_content: reasoning_content.deep_view(),
                tool_calls: Seq::empty(),
                role: None,
            },
        ),
{
    let tool_calls: Vec<ToolCallDelta> = Vec::new();
    proof {
        assert(tool_calls.deep_view() =~= Seq::empty());
    }
    StreamChunk::Delta { content, reasoning_content, tool_calls, role: None }
}

fn parse_start(json: &Json) -> (r: Option<StreamChunk>)
    ensures
        r.deep_view() == as_chunk(start_of(json.deep_view())),
{
    if let Some(cb) = json.get("content_block") {
        if let Some(kind) = cb.str_at("type") {
            if same(kind.as_str(), "tool_use") {
                return Some(
                    add_call(find_index(json), cb.str_at("id"), cb.str_at("name"), None),
                );
            }
        }
    }
    None
}

fn parse_delta(json: &Json) -> (r: Option<StreamChunk>)
    ensures
        r.deep_view() == as_chunk(delta_of(json.deep_view())),
{
    let d = match json.get("delta") {
        Some(d) => d,
        None => {
            return None;
        },
    };
    let kind = match d.str_at("type") {
        Some(k) => k,
        None => {
            return None;
        },
    };
    if same(kind.as_str(), "thinking_delta") {
        match keep_nonempty(d.str_at("thinking")) {
            Some(t) => Some(add_text(None, Some(t))),
            None => None,
        }
    } else if same(kind.as_str(), "text_delta") {
        match keep_nonempty(d.str_at("text")) {
            Some(t) => Some(add_text(Some(t), None)),
            None => None,
        }
    } else if same(kind.as_str(), "input_json_delta") {
        match keep_nonempty(d.str_at("partial_json")) {
            Some(a) => Some(add_call(find_index(json), None, None, Some(a))),
            None => None,
        }
    } else {
        None
    }
}

/// What an event of a stream gives: the start of a tool call, an addition to a
/// block, or the reason of the end and the token usage.
pub fn parse_anth_chunk(json: &Json) -> (r: ChunkParts)
    ensures
        r.deep_view() == chunk_of(json.deep_view()),
{
    let kind = match json.str_at("type") {
        Some(k) => k,
        None => {
            return (None, None, None);
        },
    };
    if same(kind.as_str(), "content_block_start") {
        (parse_start(json), None, None)
    } else if same(kind.as_str(), "content_block_delta") {
        (parse_delta(json), None, None)
    } else if same(kind.as_str(), "message_delta") {
        let mut finish: Option<FinishReason> = None;
        if let Some(d) = json.get("delta") {
            if let Some(s) = d.str_at("stop_reason") {
                finish = Some(map_stop_reason(s.as_str()));
            }
        }
        (None, finish, find_usage(json))
    } else {
        (None, None, None)
    }
}

/// The address, name and arguments that a tool call is sent with are those
/// that the block it was sent as reads back to, where the arguments are a JSON
/// text that is read and written without change.
pub proof fn law_tool_use_roundtrip(c: ToolCallView)
    requires
        parsed(c.arguments) is Ok,
        !(parsed(c.arguments)->Ok_0 is Null),
        json_text(parsed(c.arguments)->Ok_0) == c.arguments,
    ensures
        tool_use_of(use_block(c)) == Some(c),
{
    let f = use_block(c)->Object_0;
    reveal_strlit("type");
    reveal_strlit("id");
    reveal_strlit("name");
    reveal_strlit("input");
    assert("type"@[0] != "name"@[0]);
    assert("type"@.len() != "id"@.len());
    assert("type"@.len() != "input"@.len());
    assert("id"@.len() != "name"@.len());
    assert("id"@.len() != "input"@.len());
    assert("name"@.len() != "input"@.len());
    let f1 = f.drop_first();
    let f2 = f1.drop_first();
    let f3 = f2.drop_first();
    assert(f1[0] == f[1]);
    assert(f2[0] == f[2]);
    assert(f3[0] == f[3]);
    reveal_with_fuel(crate::json::find, 5);
    assert(crate::json::find(f, "id"@) == Some(JsonView::Text(c.id)));
    assert(crate::json::find(f, "name"@) == Some(JsonView::Text(c.name)));
    assert(crate::json::find(f, "input"@) == Some(input_of(c.arguments)));
}

} // verus!
