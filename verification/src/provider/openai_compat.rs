//! The wire format of the OpenAI chat completions API, which many vendors
//! share: request bodies, responses, and the chunks of a stream.

use vstd::prelude::*;
use vstd::string::*;

use crate::json::{json_text, write_text, Json, JsonView, Number, NumberView};
use crate::provider::client::{header_list, headers_of};
use crate::provider::content::{
    ContentPart, ContentPartView, ImageDetail, MediaResolution, MediaSource, MediaSourceView,
};
use crate::provider::sse::{
    fold_events, parse_wire_body, parts_view, response_view, sse_fold_into_response, wire_body,
    ChunkParts, ChunkPartsView, MappedEvent, MappedEventView, WireBody, WireBodyView,
};
use crate::provider::{
    ChatResponse, ChatResponseView, DeltaView, FinishReason, FinishReasonView, LlmError,
    LlmErrorView, Message, MessageContent, MessageContentView, MessageView, RetryPolicy, Role,
    StreamChunk, StreamChunkView, TokenUsage, ToolCall, ToolCallDelta, ToolCallDeltaView,
    ToolCallFunction, ToolCallFunctionDelta, ToolCallFunctionDeltaView, ToolCallView, ToolChoice,
    ToolDeclaration, ToolDeclarationView,
};
use crate::text::{same, strip_end, strip_end_text};
use crate::time::Duration;

verus! {

broadcast use vstd::string::group_string_axioms;

/// What a client is made with.
pub struct OpenAiCompatConfig {
    pub base_url: String,
    pub api_key: String,
    pub timeout: Duration,
    pub retry: RetryPolicy,
    pub extra_headers: Vec<(String, String)>,
}

/// The side of a client that does no I/O: where it sends its requests, and
/// with what headers.
pub struct OpenAiCompatClient {
    pub base_url: String,
    pub api_key: String,
    pub timeout: Duration,
    pub retry: RetryPolicy,
    pub extra_headers: Vec<(String, String)>,
}

impl OpenAiCompatClient {
    /// The client of a configuration. The base address loses its trailing
    /// slashes.
    pub fn new(cfg: OpenAiCompatConfig) -> (r: Result<OpenAiCompatClient, LlmError>)
        ensures
            r is Ok,
            r->Ok_0.base_url@ == strip_end(cfg.base_url@, '/'),
            r->Ok_0.api_key@ == cfg.api_key@,
            r->Ok_0.timeout == cfg.timeout,
            r->Ok_0.retry == cfg.retry,
            r->Ok_0.extra_headers@ == cfg.extra_headers@,
    {
        Ok(
            OpenAiCompatClient {
                base_url: strip_end_text(cfg.base_url.as_str(), '/'),
                api_key: cfg.api_key,
                timeout: cfg.timeout,
                retry: cfg.retry,
                extra_headers: cfg.extra_headers,
            },
        )
    }

    /// The address that requests go to.
    pub fn endpoint(&self) -> (r: String)
        ensures
            r@ == self.base_url@ + "/chat/completions"@,
    {
        self.base_url.clone().concat("/chat/completions")
    }

    /// The additional headers of a request.
    pub fn header_map(&self) -> (r: Vec<(String, String)>)
        ensures
            r.deep_view() == headers_of(self.extra_headers.deep_view()),
    {
        header_list(&self.extra_headers)
    }
}

// ---------------------------------------------------------------------------
// Requests

/// The name of a role on the wire.
pub open spec fn role_name(r: Role) -> Seq<char> {
    match r {
        Role::System => "system"@,
        Role::User => "user"@,
        Role::Assistant => "assistant"@,
        Role::Tool => "tool"@,
    }
}

/// The name of a role on the wire.
pub fn role_str(r: Role) -> (s: &'static str)
    ensures
        s@ == role_name(r),
{
    match r {
        Role::System => "system",
        Role::User => "user",
        Role::Assistant => "assistant",
        Role::Tool => "tool",
    }
}

/// The data of a medium as one string.
pub open spec fn media_wire(src: MediaSourceView) -> Seq<char> {
    match src {
        MediaSourceView::Url(url) => url,
        MediaSourceView::Base64(mime, data) => "data:"@ + mime + ";base64,"@ + data,
        MediaSourceView::FileId(id) => "ms://"@ + id,
    }
}

/// The data of a medium as one string: an address, a data URL, or the reference
/// of a file.
pub fn media_source_to_wire(src: &MediaSource) -> (r: String)
    ensures
        r@ == media_wire(src.deep_view()),
{
    match src {
        MediaSource::Url { url } => url.clone(),
        MediaSource::Base64 { mime, data } => {
            let mut s = "data:".to_owned();
            s.append(mime.as_str());
            s.append(";base64,");
            s.append(data.as_str());
            s
        },
        MediaSource::FileId { file_id } => "ms://".to_owned().concat(file_id.as_str()),
    }
}

/// The name of a level of detail on the wire.
pub open spec fn detail_name(d: ImageDetail) -> Seq<char> {
    match d {
        ImageDetail::Low => "low"@,
        ImageDetail::High => "high"@,
        ImageDetail::Original => "original"@,
        ImageDetail::Auto => "auto"@,
    }
}

/// The name of a resolution on the wire.
pub open spec fn resolution_name(m: MediaResolution) -> Seq<char> {
    match m {
        MediaResolution::Default => "default"@,
        MediaResolution::Max => "max"@,
    }
}

/// The name of a resolution on the wire.
pub fn resolution_str(m: MediaResolution) -> (r: &'static str)
    ensures
        r@ == resolution_name(m),
{
    match m {
        MediaResolution::Default => "default",
        MediaResolution::Max => "max",
    }
}

/// An object with one field.
pub open spec fn object1(k: Seq<char>, v: JsonView) -> JsonView {
    JsonView::Object(seq![(k, v)])
}

/// An object with two fields.
pub open spec fn object2(
    k1: Seq<char>,
    v1: JsonView,
    k2: Seq<char>,
    v2: JsonView,
) -> JsonView {
    JsonView::Object(seq![(k1, v1), (k2, v2)])
}

/// An object with three fields.
pub open spec fn object3(
    k1: Seq<char>,
    v1: JsonView,
    k2: Seq<char>,
    v2: JsonView,
    k3: Seq<char>,
    v3: JsonView,
) -> JsonView {
    JsonView::Object(seq![(k1, v1), (k2, v2), (k3, v3)])
}

/// An object with one field.
pub fn make1(k: &str, v: Json) -> (r: Json)
    ensures
        r.deep_view() == object1(k@, v.deep_view()),
{
    let ghost v1 = v.deep_view();
    let r = Json::object().plus(k, v);
    proof {
        assert(r.deep_view()->Object_0 =~= seq![(k@, v1)]);
    }
    r
}

/// An object with two fields.
pub fn make2(k1: &str, v1: Json, k2: &str, v2: Json) -> (r: Json)
    ensures
        r.deep_view() == object2(k1@, v1.deep_view(), k2@, v2.deep_view()),
{
    let ghost a = v1.deep_view();
    let ghost b = v2.deep_view();
    let r = Json::object().plus(k1, v1).plus(k2, v2);
    proof {
        assert(r.deep_view()->Object_0 =~= seq![(k1@, a), (k2@, b)]);
    }
    r
}

/// An object with three fields.
pub fn make3(k1: &str, v1: Json, k2: &str, v2: Json, k3: &str, v3: Json) -> (r: Json)
    ensures
        r.deep_view() == object3(
            k1@,
            v1.deep_view(),
            k2@,
            v2.deep_view(),
            k3@,
            v3.deep_view(),
        ),
{
    let ghost a = v1.deep_view();
    let ghost b = v2.deep_view();
    let ghost c = v3.deep_view();
    let r = Json::object().plus(k1, v1).plus(k2, v2).plus(k3, v3);
    proof {
        assert(r.deep_view()->Object_0 =~= seq![(k1@, a), (k2@, b), (k3@, c)]);
    }
    r
}

/// One part of a message on the wire.
pub open spec fn part_json(part: ContentPartView) -> JsonView {
    match part {
        ContentPartView::Text(t) => object2(
            "type"@,
            JsonView::Text("text"@),
            "text"@,
            JsonView::Text(t),
        ),
        ContentPartView::Image(source, detail) => {
            let url = object1("url"@, JsonView::Text(media_wire(source)));
            let inner = match detail {
                Some(d) => url.with("detail"@, JsonView::Text(detail_name(d))),
                None => url,
            };
            object2("type"@, JsonView::Text("image_url"@), "image_url"@, inner)
        },
        ContentPartView::Audio(source) => object2(
            "type"@,
            JsonView::Text("input_audio"@),
            "input_audio"@,
            object1("data"@, JsonView::Text(media_wire(source))),
        ),
        ContentPartView::Video(source, params) => {
            let v = object2(
                "type"@,
                JsonView::Text("video_url"@),
                "video_url"@,
                object1("url"@, JsonView::Text(media_wire(source))),
            );
            let w = match params.fps {
                Some(n) => v.with("fps"@, JsonView::Number(n)),
                None => v,
            };
            match params.media_resolution {
                Some(m) => w.with("media_resolution"@, JsonView::Text(resolution_name(m))),
                None => w,
            }
        },
    }
}

/// One part of a message on the wire.
pub fn content_part_to_json(part: &ContentPart) -> (r: Json)
    ensures
        r.deep_view() == part_json(part.deep_view()),
{
    match part {
        ContentPart::Text { text } => make2(
            "type",
            Json::text("text"),
            "text",
            Json::text(text.as_str()),
        ),
        ContentPart::Image { source, detail } => {
            let mut inner = make1("url", Json::Text(media_source_to_wire(source)));
            if let Some(d) = detail {
                let name = match d {
                    ImageDetail::Low => "low",
                    ImageDetail::High => "high",
                    ImageDetail::Original => "original",
                    ImageDetail::Auto => "auto",
                };
                inner = inner.with("detail", Json::text(name));
            }
            make2("type", Json::text("image_url"), "image_url", inner)
        },
        ContentPart::Audio { source } => make2(
            "type",
            Json::text("input_audio"),
            "input_audio",
            make1("data", Json::Text(media_source_to_wire(source))),
        ),
        ContentPart::Video { source, params } => {
            let mut v = make2(
                "type",
                Json::text("video_url"),
                "video_url",
                make1("url", Json::Text(media_source_to_wire(source))),
            );
            if let Some(n) = &params.fps {
                v = v.with("fps", Json::Number(n.clone()));
            }
            if let Some(m) = params.media_resolution {
                v = v.with("media_resolution", Json::text(resolution_str(m)));
            }
            v
        },
    }
}

/// A tool call on the wire.
pub open spec fn call_json(c: ToolCallView) -> JsonView {
    object3(
        "id"@,
        JsonView::Text(c.id),
        "type"@,
        JsonView::Text("function"@),
        "function"@,
        object2("name"@, JsonView::Text(c.name), "arguments"@, JsonView::Text(c.arguments)),
    )
}

/// A tool call on the wire.
pub fn tool_call_to_json(tc: &ToolCall) -> (r: Json)
    ensures
        r.deep_view() == call_json(tc.deep_view()),
{
    make3(
        "id",
        Json::text(tc.id.as_str()),
        "type",
        Json::text("function"),
        "function",
        make2(
            "name",
            Json::text(tc.function.name.as_str()),
            "arguments",
            Json::text(tc.function.arguments.as_str()),
        ),
    )
}

/// A message's content on the wire: a string, or a list of parts.
pub open spec fn content_json(c: MessageContentView) -> JsonView {
    match c {
        MessageContentView::Text(s) => JsonView::Text(s),
        MessageContentView::Multimodal(parts) => JsonView::List(
            parts.map_values(|p: ContentPartView| part_json(p)),
        ),
    }
}

/// A message on the wire.
pub open spec fn message_json(m: MessageView) -> JsonView {
    let a = object1("role"@, JsonView::Text(role_name(m.role))).with(
        "content"@,
        content_json(m.content),
    );
    let b = match m.reasoning_content {
        Some(rc) => a.with("reasoning_content"@, JsonView::Text(rc)),
        None => a,
    };
    let c = if m.tool_calls.len() > 0 {
        b.with(
            "tool_calls"@,
            JsonView::List(m.tool_calls.map_values(|t: ToolCallView| call_json(t))),
        )
    } else {
        b
    };
    match m.tool_call_id {
        Some(id) => c.with("tool_call_id"@, JsonView::Text(id)),
        None => c,
    }
}

/// A message on the wire.
pub fn message_to_body_json(m: &Message) -> (r: Json)
    ensures
        r.deep_view() == message_json(m.deep_view()),
{
    let mut obj = make1("role", Json::text(role_str(m.role)));
    match &m.content {
        MessageContent::Text(s) => {
            obj = obj.with("content", Json::text(s.as_str()));
        },
        MessageContent::Multimodal(parts) => {
            let ghost wanted = parts.deep_view().map_values(|p: ContentPartView| part_json(p));
            let mut list: Vec<Json> = Vec::new();
            let mut i: usize = 0;
            while i < parts.len()
                invariant
                    i <= parts@.len(),
                    wanted == parts.deep_view().map_values(|p: ContentPartView| part_json(p)),
                    list.deep_view() == wanted.take(i as int),
                decreases parts@.len() - i,
            {
                let ghost before = list.deep_view();
                let p = content_part_to_json(&parts[i]);
                list.push(p);
                proof {
                    assert(list.deep_view() =~= before.push(p.deep_view()));
                    assert(wanted.take(i + 1) =~= wanted.take(i as int).push(wanted[i as int]));
                }
                i = i + 1;
            }
            proof {
                assert(wanted.take(wanted.len() as int) =~= wanted);
            }
            obj = obj.with("content", Json::list(list));
        },
    }
    if let Some(rc) = &m.reasoning_content {
        obj = obj.with("reasoning_content", Json::text(rc.as_str()));
    }
    if m.tool_calls.len() > 0 {
        let ghost wanted = m.tool_calls.deep_view().map_values(|t: ToolCallView| call_json(t));
        let mut list: Vec<Json> = Vec::new();
        let mut i: usize = 0;
        while i < m.tool_calls.len()
            invariant
                i <= m.tool_calls@.len(),
                wanted == m.tool_calls.deep_view().map_values(|t: ToolCallView| call_json(t)),
                list.deep_view() == wanted.take(i as int),
            decreases m.tool_calls@.len() - i,
        {
            let ghost before = list.deep_view();
            let c = tool_call_to_json(&m.tool_calls[i]);
            list.push(c);
            proof {
                assert(list.deep_view() =~= before.push(c.deep_view()));
                assert(wanted.take(i + 1) =~= wanted.take(i as int).push(wanted[i as int]));
            }
            i = i + 1;
        }
        proof {
            assert(wanted.take(wanted.len() as int) =~= wanted);
        }
        obj = obj.with("tool_calls", Json::list(list));
    }
    if let Some(id) = &m.tool_call_id {
        obj = obj.with("tool_call_id", Json::text(id.as_str()));
    }
    obj
}

/// A tool declaration on the wire.
pub open spec fn tool_json(t: ToolDeclarationView) -> JsonView {
    object2(
        "type"@,
        JsonView::Text("function"@),
        "function"@,
        object3(
            "name"@,
            JsonView::Text(t.name),
            "description"@,
            JsonView::Text(t.description),
            "parameters"@,
            t.parameters,
        ),
    )
}

/// The name of a tool choice on the wire.
pub open spec fn choice_name(c: ToolChoice) -> Seq<char> {
    match c {
        ToolChoice::Auto => "auto"@,
        ToolChoice::Never => "none"@,
        ToolChoice::Required => "required"@,
    }
}

/// The fields of a request body that all vendors share.
pub open spec fn common_body(
    messages: Seq<MessageView>,
    tools: Seq<ToolDeclarationView>,
    tool_choice: ToolChoice,
    temperature: Option<NumberView>,
    max_tokens: Option<usize>,
    model: Seq<char>,
) -> JsonView {
    let a = object2(
        "model"@,
        JsonView::Text(model),
        "messages"@,
        JsonView::List(messages.map_values(|m: MessageView| message_json(m))),
    );
    let b = if tools.len() > 0 {
        a.with(
            "tools"@,
            JsonView::List(tools.map_values(|t: ToolDeclarationView| tool_json(t))),
        ).with("tool_choice"@, JsonView::Text(choice_name(tool_choice)))
    } else {
        a
    };
    let c = match temperature {
        Some(t) => b.with("temperature"@, JsonView::Number(t)),
        None => b,
    };
    match max_tokens {
        Some(m) => c.with(
            "max_completion_tokens"@,
            JsonView::Number(NumberView::Unsigned(m as u64)),
        ),
        None => c,
    }
}

/// The fields of a request body that all vendors share. A vendor adds its own,
/// and the client adds `stream`.
pub fn build_common_body(
    messages: &Vec<Message>,
    tools: &Vec<ToolDeclaration>,
    tool_choice: ToolChoice,
    temperature: &Option<Number>,
    max_tokens: Option<usize>,
    model: &str,
) -> (r: Json)
    ensures
        r.deep_view() == common_body(
            messages.deep_view(),
            tools.deep_view(),
            tool_choice,
            temperature.deep_view(),
            max_tokens,
            model@,
        ),
{
    let ghost wanted = messages.deep_view().map_values(|m: MessageView| message_json(m));
    let mut list: Vec<Json> = Vec::new();
    let mut i: usize = 0;
    while i < messages.len()
        invariant
            i <= messages@.len(),
            wanted == messages.deep_view().map_values(|m: MessageView| message_json(m)),
            list.deep_view() == wanted.take(i as int),
        decreases messages@.len() - i,
    {
        let ghost before = list.deep_view();
        let m = message_to_body_json(&messages[i]);
        list.push(m);
        proof {
            assert(list.deep_view() =~= before.push(m.deep_view()));
            assert(wanted.take(i + 1) =~= wanted.take(i as int).push(wanted[i as int]));
        }
        i = i + 1;
    }
    proof {
        assert(wanted.take(wanted.len() as int) =~= wanted);
    }
    let mut body = make2("model", Json::text(model), "messages", Json::list(list));
    if tools.len() > 0 {
        let ghost declared = tools.deep_view().map_values(|t: ToolDeclarationView| tool_json(t));
        let mut out: Vec<Json> = Vec::new();
        let mut j: usize = 0;
        while j < tools.len()
            invariant
                j <= tools@.len(),
                declared == tools.deep_view().map_values(|t: ToolDeclarationView| tool_json(t)),
                out.deep_view() == declared.take(j as int),
            decreases tools@.len() - j,
        {
            let ghost before = out.deep_view();
            let t = make2(
                "type",
                Json::text("function"),
                "function",
                make3(
                    "name",
                    Json::text(tools[j].name.as_str()),
                    "description",
                    Json::text(tools[j].description.as_str()),
                    "parameters",
                    tools[j].parameters.clone(),
                ),
            );
            out.push(t);
            proof {
                assert(out.deep_view() =~= before.push(t.deep_view()));
                assert(declared.take(j + 1) =~= declared.take(j as int).push(declared[j as int]));
            }
            j = j + 1;
        }
        proof {
            assert(declared.take(declared.len() as int) =~= declared);
        }
        let choice = match tool_choice {
            ToolChoice::Auto => "auto",
            ToolChoice::Never => "none",
            ToolChoice::Required => "required",
        };
        body = body.with("tools", Json::list(out)).with("tool_choice", Json::text(choice));
    }
    if let Some(t) = temperature {
        body = body.with("temperature", Json::Number(t.clone()));
    }
    if let Some(m) = max_tokens {
        body = body.with("max_completion_tokens", Json::unsigned(m as u64));
    }
    body
}

/// A body with the fields that a caller adds, each in place of what was there.
pub open spec fn with_extras(body: JsonView, extra: Seq<(Seq<char>, JsonView)>) -> JsonView
    decreases extra.len(),
{
    if extra.len() == 0 {
        body
    } else {
        with_extras(body, extra.drop_last()).with(extra.last().0, extra.last().1)
    }
}

/// A body with the fields that a caller adds.
pub fn add_extras(body: Json, extra: &Vec<(String, Json)>) -> (r: Json)
    ensures
        r.deep_view() == with_extras(body.deep_view(), extra.deep_view()),
{
    let ghost start = body.deep_view();
    let ghost all = extra.deep_view();
    let mut out = body;
    let mut i: usize = 0;
    proof {
        assert(all.take(0) =~= Seq::empty());
    }
    while i < extra.len()
        invariant
            i <= extra@.len(),
            all == extra.deep_view(),
            out.deep_view() == with_extras(start, all.take(i as int)),
        decreases extra@.len() - i,
    {
        proof {
            assert(all.take(i + 1).drop_last() =~= all.take(i as int));
            assert(all.take(i + 1).last() == all[i as int]);
        }
        out = out.with(extra[i].0.as_str(), extra[i].1.clone());
        i = i + 1;
    }
    proof {
        assert(all.take(all.len() as int) =~= all);
    }
    out
}

// ---------------------------------------------------------------------------
// Responses

/// The role of a name on the wire.
pub open spec fn role_of(s: Seq<char>) -> Option<Role> {
    if s == "system"@ {
        Some(Role::System)
    } else if s == "user"@ {
        Some(Role::User)
    } else if s == "assistant"@ {
        Some(Role::Assistant)
    } else if s == "tool"@ {
        Some(Role::Tool)
    } else {
        None
    }
}

/// The role of a name on the wire.
pub fn parse_role(s: &str) -> (r: Option<Role>)
    ensures
        r == role_of(s@),
{
    if same(s, "system") {
        Some(Role::System)
    } else if same(s, "user") {
        Some(Role::User)
    } else if same(s, "assistant") {
        Some(Role::Assistant)
    } else if same(s, "tool") {
        Some(Role::Tool)
    } else {
        None
    }
}

/// A role is read back from its name.
pub proof fn law_role_roundtrip(r: Role)
    ensures
        role_of(role_name(r)) == Some(r),
{
    reveal_strlit("system");
    reveal_strlit("user");
    reveal_strlit("assistant");
    reveal_strlit("tool");
    assert("user"@.len() != "system"@.len());
    assert("assistant"@.len() != "system"@.len());
    assert("tool"@.len() != "system"@.len());
    assert("assistant"@.len() != "user"@.len());
    assert("tool"@[0] != "user"@[0]);
    assert("tool"@.len() != "assistant"@.len());
}

/// The count of a name in a usage object.
pub open spec fn count_at(u: JsonView, key: Seq<char>) -> Option<usize> {
    match u.u64_at(key) {
        Some(n) => Some(n as usize),
        None => None,
    }
}

/// The count of a name in a usage object.
pub fn get_count(u: &Json, key: &str) -> (r: Option<usize>)
    ensures
        r == count_at(u.deep_view(), key@),
{
    match u.u64_at(key) {
        Some(n) => Some(n as usize),
        None => None,
    }
}

/// A count that is nothing where it is absent.
pub open spec fn or_zero(n: Option<usize>) -> usize {
    match n {
        Some(x) => x,
        None => 0,
    }
}

/// The token usage of a usage object. A missing total is the sum of its parts.
pub open spec fn usage_of(u: JsonView) -> TokenUsage {
    let p = or_zero(count_at(u, "prompt_tokens"@));
    let c = or_zero(count_at(u, "completion_tokens"@));
    let hit = count_at(u, "prompt_cache_hit_tokens"@);
    let miss = count_at(u, "prompt_cache_miss_tokens"@);
    TokenUsage {
        prompt_tokens: p,
        completion_tokens: c,
        total_tokens: match count_at(u, "total_tokens"@) {
            Some(t) => t,
            None => p.wrapping_add(c),
        },
        reasoning_tokens: match u.get("completion_tokens_details"@) {
            Some(d) => count_at(d, "reasoning_tokens"@),
            None => None,
        },
        prompt_cache_hit_tokens: hit,
        prompt_cache_miss_tokens: miss,
        cache_read_tokens: hit,
        cache_write_tokens: miss,
    }
}

/// The token usage of a usage object.
pub fn parse_usage(u: &Json) -> (r: TokenUsage)
    ensures
        r == usage_of(u.deep_view()),
{
    let prompt_tokens: usize = match get_count(u, "prompt_tokens") {
        Some(x) => x,
        None => 0,
    };
    let completion_tokens: usize = match get_count(u, "completion_tokens") {
        Some(x) => x,
        None => 0,
    };
    let total_tokens: usize = match get_count(u, "total_tokens") {
        Some(x) => x,
        None => prompt_tokens.wrapping_add(completion_tokens),
    };
    let reasoning_tokens = match u.get("completion_tokens_details") {
        Some(d) => get_count(d, "reasoning_tokens"),
        None => None,
    };
    let hit = get_count(u, "prompt_cache_hit_tokens");
    let miss = get_count(u, "prompt_cache_miss_tokens");
    TokenUsage {
        prompt_tokens,
        completion_tokens,
        total_tokens,
        reasoning_tokens,
        prompt_cache_hit_tokens: hit,
        prompt_cache_miss_tokens: miss,
        cache_read_tokens: hit,
        cache_write_tokens: miss,
    }
}

/// The token usage that a response or an event carries.
pub open spec fn usage_at(j: JsonView) -> Option<TokenUsage> {
    match j.get("usage"@) {
        Some(u) => if u is Null {
            None
        } else {
            Some(usage_of(u))
        },
        None => None,
    }
}

fn find_usage(j: &Json) -> (r: Option<TokenUsage>)
    ensures
        r == usage_at(j.deep_view()),
{
    match j.get("usage") {
        Some(u) => if u.is_null() {
            None
        } else {
            Some(parse_usage(u))
        },
        None => None,
    }
}

/// A tool call as it is on the wire, where it is whole.
pub open spec fn call_of(t: JsonView) -> Option<ToolCallView> {
    match (t.str_at("id"@), t.get("function"@)) {
        (Some(id), Some(f)) => match (f.str_at("name"@), f.str_at("arguments"@)) {
            (Some(name), Some(arguments)) => Some(ToolCallView { id, name, arguments }),
            _ => None,
        },
        _ => None,
    }
}

/// A tool call as it is on the wire, where it is whole.
pub fn parse_tool_call(t: &Json) -> (r: Option<ToolCall>)
    ensures
        r.deep_view() == call_of(t.deep_view()),
{
    let id = match t.str_at("id") {
        Some(x) => x,
        None => {
            return None;
        },
    };
    let func = match t.get("function") {
        Some(f) => f,
        None => {
            return None;
        },
    };
    let name = match func.str_at("name") {
        Some(x) => x,
        None => {
            return None;
        },
    };
    let arguments = match func.str_at("arguments") {
        Some(x) => x,
        None => {
            return None;
        },
    };
    Some(ToolCall { id, function: ToolCallFunction { name, arguments } })
}

/// The tool calls of a list that are whole.
pub open spec fn calls_of(list: Seq<JsonView>) -> Seq<ToolCallView>
    decreases list.len(),
{
    if list.len() == 0 {
        Seq::empty()
    } else {
        match call_of(list.last()) {
            Some(c) => calls_of(list.drop_last()).push(c),
            None => calls_of(list.drop_last()),
        }
    }
}

fn parse_tool_calls(list: &Vec<Json>) -> (r: Vec<ToolCall>)
    ensures
        r.deep_view() == calls_of(list.deep_view()),
{
    let ghost all = list.deep_view();
    let mut out: Vec<ToolCall> = Vec::new();
    let mut i: usize = 0;
    proof {
        assert(out.deep_view() =~= calls_of(all.take(0)));
    }
    while i < list.len()
        invariant
            i <= list@.len(),
            all == list.deep_view(),
            out.deep_view() == calls_of(all.take(i as int)),
        decreases list@.len() - i,
    {
        let ghost before = out.deep_view();
        proof {
            assert(all.take(i + 1).drop_last() =~= all.take(i as int));
            assert(all.take(i + 1).last() == all[i as int]);
        }
        if let Some(c) = parse_tool_call(&list[i]) {
            let ghost cv = c.deep_view();
            out.push(c);
            proof {
                assert(out.deep_view() =~= before.push(cv));
            }
        }
        i = i + 1;
    }
    proof {
        assert(all.take(all.len() as int) =~= all);
    }
    out
}

/// The text of the text parts of a list, one after the other.
pub open spec fn parts_text(list: Seq<JsonView>) -> Seq<char>
    decreases list.len(),
{
    if list.len() == 0 {
        Seq::empty()
    } else {
        let before = parts_text(list.drop_last());
        match list.last().str_at("text"@) {
            Some(t) if list.last().str_at("type"@) == Some("text"@) => before + t,
            _ => before,
        }
    }
}

fn join_parts(list: &Vec<Json>) -> (r: String)
    ensures
        r@ == parts_text(list.deep_view()),
{
    let ghost all = list.deep_view();
    let mut out = String::new();
    let mut i: usize = 0;
    proof {
        assert(out@ =~= parts_text(all.take(0)));
    }
    while i < list.len()
        invariant
            i <= list@.len(),
            all == list.deep_view(),
            out@ == parts_text(all.take(i as int)),
        decreases list@.len() - i,
    {
        proof {
            assert(all.take(i + 1).drop_last() =~= all.take(i as int));
            assert(all.take(i + 1).last() == all[i as int]);
        }
        if let Some(kind) = list[i].str_at("type") {
            if same(kind.as_str(), "text") {
                if let Some(t) = list[i].str_at("text") {
                    out.append(t.as_str());
                }
            }
        }
        i = i + 1;
    }
    proof {
        assert(all.take(all.len() as int) =~= all);
    }
    out
}

/// The text of a response message: a string, nothing, or a list of parts.
pub open spec fn content_of(m: JsonView) -> Result<Seq<char>, LlmErrorView> {
    match m.get("content"@) {
        Some(JsonView::Text(s)) => Ok(s),
        Some(JsonView::Null) => Ok(Seq::empty()),
        None => Ok(Seq::empty()),
        Some(JsonView::List(parts)) => Ok(parts_text(parts)),
        Some(other) => Err(
            LlmErrorView::Protocol("unsupported content form: "@ + json_text(other)),
        ),
    }
}

/// A message of a response.
pub open spec fn message_of(m: JsonView) -> Result<MessageView, LlmErrorView> {
    match m.str_at("role"@) {
        None => Err(LlmErrorView::Protocol("missing 'role' in message"@)),
        Some(name) => match role_of(name) {
            None => Err(LlmErrorView::Protocol("unknown role: "@ + name)),
            Some(role) => match content_of(m) {
                Err(e) => Err(e),
                Ok(text) => Ok(
                    MessageView {
                        role,
                        content: MessageContentView::Text(text),
                        reasoning_content: m.str_at("reasoning_content"@),
                        tool_calls: match m.list_at("tool_calls"@) {
                            Some(list) => calls_of(list),
                            None => Seq::empty(),
                        },
                        tool_call_id: m.str_at("tool_call_id"@),
                        usage: None,
                    },
                ),
            },
        },
    }
}

/// A message as its views.
pub open spec fn read_view(r: Result<Message, LlmError>) -> Result<MessageView, LlmErrorView> {
    match r {
        Ok(m) => Ok(m.deep_view()),
        Err(e) => Err(e.deep_view()),
    }
}

/// A message of a response.
pub fn parse_message(m: &Json) -> (r: Result<Message, LlmError>)
    ensures
        read_view(r) == message_of(m.deep_view()),
{
    let name = match m.str_at("role") {
        Some(s) => s,
        None => {
            return Err(LlmError::Protocol("missing 'role' in message".to_owned()));
        },
    };
    let role = match parse_role(name.as_str()) {
        Some(r) => r,
        None => {
            return Err(LlmError::Protocol("unknown role: ".to_owned().concat(name.as_str())));
        },
    };
    let content = match m.get("content") {
        Some(Json::Text(s)) => s.clone(),
        Some(Json::Null) => String::new(),
        None => String::new(),
        Some(other) => match other.as_list() {
            Some(parts) => join_parts(parts),
            None => {
                let shown = write_text(other);
                return Err(
                    LlmError::Protocol(
                        "unsupported content form: ".to_owned().concat(shown.as_str()),
                    ),
                );
            },
        },
    };
    let tool_calls = match m.list_at("tool_calls") {
        Some(list) => parse_tool_calls(list),
        None => {
            let none: Vec<ToolCall> = Vec::new();
            proof {
                assert(none.deep_view() =~= Seq::empty());
            }
            none
        },
    };
    Ok(
        Message {
            role,
            content: MessageContent::Text(content),
            reasoning_content: m.str_at("reasoning_content"),
            tool_calls,
            tool_call_id: m.str_at("tool_call_id"),
            usage: None,
        },
    )
}

/// A complete response.
pub open spec fn response_of(json: JsonView) -> Result<ChatResponseView, LlmErrorView> {
    match (json.str_at("id"@), json.str_at("model"@), json.list_at("choices"@)) {
        (None, _, _) => Err(LlmErrorView::Protocol("missing 'id' in response"@)),
        (_, None, _) => Err(LlmErrorView::Protocol("missing 'model' in response"@)),
        (_, _, None) => Err(LlmErrorView::Protocol("missing 'choices' array"@)),
        (Some(id), Some(model), Some(choices)) => if choices.len() == 0 {
            Err(LlmErrorView::Protocol("empty 'choices' array"@))
        } else {
            match choices[0].get("message"@) {
                None => Err(LlmErrorView::Protocol("missing 'message' in choice"@)),
                Some(m) => match message_of(m) {
                    Err(e) => Err(e),
                    Ok(message) => Ok(
                        ChatResponseView {
                            id,
                            model,
                            message: MessageView { usage: usage_at(json), ..message },
                            finish_reason: match choices[0].str_at("finish_reason"@) {
                                Some(f) => FinishReasonView::from_vendor(f),
                                None => FinishReasonView::Stop,
                            },
                            usage: usage_at(json),
                        },
                    ),
                },
            }
        },
    }
}

/// A complete response.
pub fn parse_chat_response(json: &Json) -> (r: Result<ChatResponse, LlmError>)
    ensures
        response_view(r) == response_of(json.deep_view()),
{
    let id = match json.str_at("id") {
        Some(s) => s,
        None => {
            return Err(LlmError::Protocol("missing 'id' in response".to_owned()));
        },
    };
    let model = match json.str_at("model") {
        Some(s) => s,
        None => {
            return Err(LlmError::Protocol("missing 'model' in response".to_owned()));
        },
    };
    let choices = match json.list_at("choices") {
        Some(c) => c,
        None => {
            return Err(LlmError::Protocol("missing 'choices' array".to_owned()));
        },
    };
    if choices.len() == 0 {
        return Err(LlmError::Protocol("empty 'choices' array".to_owned()));
    }
    let first = &choices[0];
    let finish_reason = match first.str_at("finish_reason") {
        Some(f) => FinishReason::from_vendor_str(f.as_str()),
        None => FinishReason::Stop,
    };
    let message_json = match first.get("message") {
        Some(m) => m,
        None => {
            return Err(LlmError::Protocol("missing 'message' in choice".to_owned()));
        },
    };
    let usage = find_usage(json);
    let mut message = match parse_message(message_json) {
        Ok(m) => m,
        Err(e) => {
            return Err(e);
        },
    };
    message.usage = usage;
    Ok(ChatResponse { id, model, message, finish_reason, usage })
}

// ---------------------------------------------------------------------------
// Streams

/// A string that is not empty.
pub open spec fn nonempty(s: Option<Seq<char>>) -> Option<Seq<char>> {
    match s {
        Some(t) if t.len() > 0 => Some(t),
        _ => None,
    }
}

/// A string that is not empty.
pub fn keep_nonempty(s: Option<String>) -> (r: Option<String>)
    ensures
        r.deep_view() == nonempty(s.deep_view()),
{
    match s {
        Some(t) => if t.as_str().is_empty() {
            None
        } else {
            Some(t)
        },
        None => None,
    }
}

/// An addition to a tool call on the wire.
pub open spec fn call_delta_of(t: JsonView) -> ToolCallDeltaView {
    ToolCallDeltaView {
        index: match t.u64_at("index"@) {
            Some(n) => n as u32,
            None => 0,
        },
        id: t.str_at("id"@),
        function: match t.get("function"@) {
            Some(f) => Some(
                ToolCallFunctionDeltaView {
                    name: f.str_at("name"@),
                    arguments: f.str_at("arguments"@),
                },
            ),
            None => None,
        },
    }
}

/// An addition to a tool call on the wire.
pub fn parse_tool_call_delta(t: &Json) -> (r: ToolCallDelta)
    ensures
        r.deep_view() == call_delta_of(t.deep_view()),
{
    let index: u32 = match t.u64_at("index") {
        Some(n) => n as u32,
        None => 0,
    };
    let function = match t.get("function") {
        Some(f) => Some(
            ToolCallFunctionDelta { name: f.str_at("name"), arguments: f.str_at("arguments") },
        ),
        None => None,
    };
    ToolCallDelta { index, id: t.str_at("id"), function }
}

fn parse_call_deltas(list: &Vec<Json>) -> (r: Vec<ToolCallDelta>)
    ensures
        r.deep_view() == list.deep_view().map_values(|t: JsonView| call_delta_of(t)),
{
    let ghost wanted = list.deep_view().map_values(|t: JsonView| call_delta_of(t));
    let mut out: Vec<ToolCallDelta> = Vec::new();
    let mut i: usize = 0;
    while i < list.len()
        invariant
            i <= list@.len(),
            wanted == list.deep_view().map_values(|t: JsonView| call_delta_of(t)),
            out.deep_view() == wanted.take(i as int),
        decreases list@.len() - i,
    {
        let ghost before = out.deep_view();
        let d = parse_tool_call_delta(&list[i]);
        let ghost dv = d.deep_view();
        out.push(d);
        proof {
            assert(out.deep_view() =~= before.push(dv));
            assert(wanted.take(i + 1) =~= wanted.take(i as int).push(wanted[i as int]));
        }
        i = i + 1;
    }
    proof {
        assert(wanted.take(wanted.len() as int) =~= wanted);
    }
    out
}

/// The addition that the `delta` object of an event makes, where it makes one.
pub open spec fn delta_of(d: JsonView) -> Option<DeltaView> {
    let v = DeltaView {
        content: nonempty(d.str_at("content"@)),
        reasoning_content: nonempty(d.str_at("reasoning_content"@)),
        tool_calls: match d.list_at("tool_calls"@) {
            Some(list) => list.map_values(|t: JsonView| call_delta_of(t)),
            None => Seq::empty(),
        },
        role: match d.str_at("role"@) {
            Some(s) => role_of(s),
            None => None,
        },
    };
    if v.content is Some || v.reasoning_content is Some || v.tool_calls.len() > 0
        || v.role is Some {
        Some(v)
    } else {
        None
    }
}

/// What an event of a stream gives.
pub open spec fn chunk_of(json: JsonView) -> ChunkPartsView {
    let usage = usage_at(json);
    match json.list_at("choices"@) {
        Some(choices) if choices.len() > 0 => (
            match choices[0].get("delta"@) {
                Some(d) => match delta_of(d) {
                    Some(v) => Some(StreamChunkView::Delta(v)),
                    None => None,
                },
                None => None,
            },
            match choices[0].str_at("finish_reason"@) {
                Some(f) => Some(FinishReasonView::from_vendor(f)),
                None => None,
            },
            usage,
        ),
        _ => (None, None, usage),
    }
}

fn parse_delta(d: &Json) -> (r: Option<StreamChunk>)
    ensures
        r.deep_view() == (match delta_of(d.deep_view()) {
            Some(v) => Some(StreamChunkView::Delta(v)),
            None => None,
        }),
{
    let content = keep_nonempty(d.str_at("content"));
    let reasoning_content = keep_nonempty(d.str_at("reasoning_content"));
    let role = match d.str_at("role") {
        Some(s) => parse_role(s.as_str()),
        None => None,
    };
    let tool_calls = match d.list_at("tool_calls") {
        Some(list) => parse_call_deltas(list),
        None => {
            let none: Vec<ToolCallDelta> = Vec::new();
            proof {
                assert(none.deep_view() =~= Seq::empty());
            }
            none
        },
    };
    if content.is_some() || reasoning_content.is_some() || tool_calls.len() > 0 || role.is_some() {
        Some(StreamChunk::Delta { content, reasoning_content, tool_calls, role })
    } else {
        None
    }
}

/// What an event of a stream gives: an addition, the reason of the end, the
/// token usage.
pub fn parse_chunk_json(json: &Json) -> (r: Result<ChunkParts, LlmError>)
    ensures
        parts_view(r) == Ok::<ChunkPartsView, LlmErrorView>(chunk_of(json.deep_view())),
{
    let mut delta_chunk: Option<StreamChunk> = None;
    let mut finish_reason: Option<FinishReason> = None;
    if let Some(choices) = json.list_at("choices") {
        if choices.len() > 0 {
            let first = &choices[0];
            if let Some(f) = first.str_at("finish_reason") {
                finish_reason = Some(FinishReason::from_vendor_str(f.as_str()));
            }
            if let Some(d) = first.get("delta") {
                delta_chunk = parse_delta(d);
            }
        }
    }
    let usage = find_usage(json);
    Ok((delta_chunk, finish_reason, usage))
}

/// The id and model that an event carries, where it carries both.
pub open spec fn meta_of(json: JsonView) -> Option<(Seq<char>, Seq<char>)> {
    match (json.str_at("id"@), json.str_at("model"@)) {
        (Some(i), Some(m)) => Some((i, m)),
        _ => None,
    }
}

/// The id and model that an event carries, where it carries both.
pub fn openai_capture_meta(json: &Json) -> (r: Option<(String, String)>)
    ensures
        r.deep_view() == meta_of(json.deep_view()),
{
    match json.str_at("id") {
        Some(i) => match json.str_at("model") {
            Some(m) => Some((i, m)),
            None => None,
        },
        None => None,
    }
}

/// An event as this protocol reads it.
pub open spec fn mapped(json: JsonView) -> MappedEventView {
    MappedEventView { meta: meta_of(json), parts: Ok(chunk_of(json)) }
}

/// The events of a stream as this protocol reads them.
pub fn map_events(events: &Vec<Json>) -> (r: Vec<MappedEvent>)
    ensures
        r.deep_view() == events.deep_view().map_values(|e: JsonView| mapped(e)),
{
    let ghost wanted = events.deep_view().map_values(|e: JsonView| mapped(e));
    let mut out: Vec<MappedEvent> = Vec::new();
    let mut i: usize = 0;
    while i < events.len()
        invariant
            i <= events@.len(),
            wanted == events.deep_view().map_values(|e: JsonView| mapped(e)),
            out.deep_view() == wanted.take(i as int),
        decreases events@.len() - i,
    {
        let ghost before = out.deep_view();
        let e = MappedEvent {
            meta: openai_capture_meta(&events[i]),
            parts: parse_chunk_json(&events[i]),
        };
        let ghost ev = e.deep_view();
        out.push(e);
        proof {
            assert(out.deep_view() =~= before.push(ev));
            assert(wanted.take(i + 1) =~= wanted.take(i as int).push(wanted[i as int]));
        }
        i = i + 1;
    }
    proof {
        assert(wanted.take(wanted.len() as int) =~= wanted);
    }
    out
}

/// What a successful response body says: one JSON response, or the events of
/// one folded together.
pub open spec fn body_response(body: WireBodyView) -> Result<ChatResponseView, LlmErrorView> {
    match body {
        WireBodyView::Json(j) => response_of(j),
        WireBodyView::Sse(events) => match fold_events(
            events.map_values(|e: JsonView| mapped(e)),
        ) {
            Ok(f) => Ok(f.response(""@, ""@)),
            Err(e) => Err(e),
        },
    }
}

/// Reads a decoded body.
pub fn read_body(body: WireBody) -> (r: Result<ChatResponse, LlmError>)
    ensures
        response_view(r) == body_response(body.deep_view()),
{
    match body {
        WireBody::Json(j) => parse_chat_response(&j),
        WireBody::Sse(events) => sse_fold_into_response(map_events(&events), "", ""),
    }
}

/// Reads the body of a successful response.
pub fn decode_response(bytes: &[u8], content_type: Option<&str>) -> (r: Result<
    ChatResponse,
    LlmError,
>)
    ensures
        response_view(r) == (match wire_body(bytes@, content_type.deep_view()) {
            Ok(b) => body_response(b),
            Err(e) => Err(e),
        }),
{
    match parse_wire_body(bytes, content_type) {
        Ok(b) => read_body(b),
        Err(e) => Err(e),
    }
}

} // verus!
