//! What the chat completions format promises, said by the names and values on the
//! wire.

use vstd::prelude::*;
use vstd::string::*;

use crate::json::{find, law_find_put, JsonView, NumberView};
use crate::provider::content::{
    ContentPartView, ImageDetail, MediaResolution, MediaSourceView,
};
use crate::provider::openai_compat::{
    call_delta_of, call_json, call_of, calls_of, chunk_of, common_body, content_of, count_at,
    delta_of, law_role_roundtrip, message_json, message_of, meta_of, object1, object2, object3,
    part_json, parts_text, response_of, role_of, tool_json, usage_at, usage_of,
};
use crate::provider::{
    DeltaView, FinishReasonView, LlmErrorView, MessageContentView, MessageView, Role,
    StreamChunkView, TokenUsage, ToolCallView, ToolChoice, ToolDeclarationView,
};

verus! {

broadcast use vstd::string::group_string_axioms;

/// A text as a value.
pub open spec fn text_value(s: Seq<char>) -> Option<JsonView> {
    Some(JsonView::Text(s))
}

/// A text that may be absent, as a value that may be absent.
pub open spec fn opt_text_value(s: Option<Seq<char>>) -> Option<JsonView> {
    match s {
        Some(t) => Some(JsonView::Text(t)),
        None => None,
    }
}

/// A whole number as a value.
pub open spec fn count_value(n: int) -> Option<JsonView> {
    Some(JsonView::Number(NumberView::Unsigned(n as u64)))
}

/// A field that was put into an object is found there, and no other changes.
pub proof fn lemma_with(j: JsonView, key: Seq<char>, value: JsonView)
    requires
        j is Object,
    ensures
        j.with(key, value) is Object,
        forall|other: Seq<char>| #[trigger]
            j.with(key, value).get(other) == (if other == key {
                Some(value)
            } else {
                j.get(other)
            }),
{
    assert forall|other: Seq<char>| #[trigger]
        j.with(key, value).get(other) == (if other == key {
            Some(value)
        } else {
            j.get(other)
        }) by {
        law_find_put(j->Object_0, key, value, other);
    }
}

/// The field of an object of one.
pub proof fn lemma_object1(k: Seq<char>, v: JsonView)
    ensures
        object1(k, v) is Object,
        forall|other: Seq<char>| #[trigger]
            object1(k, v).get(other) == (if other == k {
                Some(v)
            } else {
                None
            }),
{
    reveal_with_fuel(find, 3);
    let f = seq![(k, v)];
    assert(f.drop_first() =~= Seq::empty());
}

/// The fields of an object of two.
pub proof fn lemma_object2(k1: Seq<char>, v1: JsonView, k2: Seq<char>, v2: JsonView)
    requires
        k1 != k2,
    ensures
        object2(k1, v1, k2, v2) is Object,
        forall|other: Seq<char>| #[trigger]
            object2(k1, v1, k2, v2).get(other) == (if other == k1 {
                Some(v1)
            } else if other == k2 {
                Some(v2)
            } else {
                None
            }),
{
    reveal_with_fuel(find, 4);
    let f = seq![(k1, v1), (k2, v2)];
    assert(f.drop_first() =~= seq![(k2, v2)]);
    assert(f.drop_first().drop_first() =~= Seq::empty());
}

/// The fields of an object of three.
pub proof fn lemma_object3(
    k1: Seq<char>,
    v1: JsonView,
    k2: Seq<char>,
    v2: JsonView,
    k3: Seq<char>,
    v3: JsonView,
)
    requires
        k1 != k2,
        k1 != k3,
        k2 != k3,
    ensures
        object3(k1, v1, k2, v2, k3, v3) is Object,
        forall|other: Seq<char>| #[trigger]
            object3(k1, v1, k2, v2, k3, v3).get(other) == (if other == k1 {
                Some(v1)
            } else if other == k2 {
                Some(v2)
            } else if other == k3 {
                Some(v3)
            } else {
                None
            }),
{
    reveal_with_fuel(find, 5);
    let f = seq![(k1, v1), (k2, v2), (k3, v3)];
    assert(f.drop_first() =~= seq![(k2, v2), (k3, v3)]);
    assert(f.drop_first().drop_first() =~= seq![(k3, v3)]);
    assert(f.drop_first().drop_first().drop_first() =~= Seq::empty());
}

/// The names of a tool call differ.
pub proof fn lemma_call_names()
    ensures
        "id"@ != "type"@,
        "id"@ != "function"@,
        "type"@ != "function"@,
{
    reveal_strlit("id");
    reveal_strlit("type");
    reveal_strlit("function");
    assert("id"@.len() == 2);
    assert("type"@.len() == 4);
    assert("function"@.len() == 8);
}

/// The names of a function differ.
pub proof fn lemma_function_names()
    ensures
        "name"@ != "arguments"@,
        "name"@ != "description"@,
        "name"@ != "parameters"@,
        "arguments"@ != "description"@,
        "arguments"@ != "parameters"@,
        "description"@ != "parameters"@,
{
    reveal_strlit("name");
    reveal_strlit("arguments");
    reveal_strlit("description");
    reveal_strlit("parameters");
    assert("name"@.len() == 4);
    assert("arguments"@.len() == 9);
    assert("description"@.len() == 11);
    assert("parameters"@.len() == 10);
}

/// The names of a message differ.
pub proof fn lemma_message_names()
    ensures
        "role"@ != "content"@,
        "role"@ != "reasoning_content"@,
        "role"@ != "tool_calls"@,
        "role"@ != "tool_call_id"@,
        "content"@ != "reasoning_content"@,
        "content"@ != "tool_calls"@,
        "content"@ != "tool_call_id"@,
        "reasoning_content"@ != "tool_calls"@,
        "reasoning_content"@ != "tool_call_id"@,
        "tool_calls"@ != "tool_call_id"@,
{
    reveal_strlit("role");
    reveal_strlit("content");
    reveal_strlit("reasoning_content");
    reveal_strlit("tool_calls");
    reveal_strlit("tool_call_id");
    assert("role"@.len() == 4);
    assert("content"@.len() == 7);
    assert("reasoning_content"@.len() == 17);
    assert("tool_calls"@.len() == 10);
    assert("tool_call_id"@.len() == 12);
}

/// The names of a body differ.
pub proof fn lemma_body_names()
    ensures
        "model"@ != "messages"@,
        "model"@ != "tools"@,
        "model"@ != "tool_choice"@,
        "model"@ != "temperature"@,
        "model"@ != "max_completion_tokens"@,
        "messages"@ != "tools"@,
        "messages"@ != "tool_choice"@,
        "messages"@ != "temperature"@,
        "messages"@ != "max_completion_tokens"@,
        "tools"@ != "tool_choice"@,
        "tools"@ != "temperature"@,
        "tools"@ != "max_completion_tokens"@,
        "tool_choice"@ != "temperature"@,
        "tool_choice"@ != "max_completion_tokens"@,
        "temperature"@ != "max_completion_tokens"@,
{
    reveal_strlit("model");
    reveal_strlit("messages");
    reveal_strlit("tools");
    reveal_strlit("tool_choice");
    reveal_strlit("temperature");
    reveal_strlit("max_completion_tokens");
    assert("model"@.len() == 5);
    assert("messages"@.len() == 8);
    assert("tools"@.len() == 5);
    assert("tool_choice"@.len() == 11);
    assert("temperature"@.len() == 11);
    assert("max_completion_tokens"@.len() == 21);
    assert("model"@[0] != "tools"@[0]);
    assert("tool_choice"@[1] != "temperature"@[1]);
}

/// The names of a part differ.
pub proof fn lemma_part_names()
    ensures
        "type"@ != "text"@,
        "type"@ != "image_url"@,
        "type"@ != "input_audio"@,
        "type"@ != "video_url"@,
        "type"@ != "fps"@,
        "type"@ != "media_resolution"@,
        "type"@ != "url"@,
        "type"@ != "data"@,
        "type"@ != "detail"@,
        "text"@ != "image_url"@,
        "text"@ != "input_audio"@,
        "text"@ != "video_url"@,
        "text"@ != "fps"@,
        "text"@ != "media_resolution"@,
        "text"@ != "url"@,
        "text"@ != "data"@,
        "text"@ != "detail"@,
        "image_url"@ != "input_audio"@,
        "image_url"@ != "video_url"@,
        "image_url"@ != "fps"@,
        "image_url"@ != "media_resolution"@,
        "image_url"@ != "url"@,
        "image_url"@ != "data"@,
        "image_url"@ != "detail"@,
        "input_audio"@ != "video_url"@,
        "input_audio"@ != "fps"@,
        "input_audio"@ != "media_resolution"@,
        "input_audio"@ != "url"@,
        "input_audio"@ != "data"@,
        "input_audio"@ != "detail"@,
        "video_url"@ != "fps"@,
        "video_url"@ != "media_resolution"@,
        "video_url"@ != "url"@,
        "video_url"@ != "data"@,
        "video_url"@ != "detail"@,
        "fps"@ != "media_resolution"@,
        "fps"@ != "url"@,
        "fps"@ != "data"@,
        "fps"@ != "detail"@,
        "media_resolution"@ != "url"@,
        "media_resolution"@ != "data"@,
        "media_resolution"@ != "detail"@,
        "url"@ != "data"@,
        "url"@ != "detail"@,
        "data"@ != "detail"@,
{
    reveal_strlit("type");
    reveal_strlit("text");
    reveal_strlit("image_url");
    reveal_strlit("input_audio");
    reveal_strlit("video_url");
    reveal_strlit("fps");
    reveal_strlit("media_resolution");
    reveal_strlit("url");
    reveal_strlit("data");
    reveal_strlit("detail");
    assert("type"@.len() == 4);
    assert("text"@.len() == 4);
    assert("image_url"@.len() == 9);
    assert("input_audio"@.len() == 11);
    assert("video_url"@.len() == 9);
    assert("fps"@.len() == 3);
    assert("media_resolution"@.len() == 16);
    assert("url"@.len() == 3);
    assert("data"@.len() == 4);
    assert("detail"@.len() == 6);
    assert("type"@[1] != "text"@[1]);
    assert("type"@[0] != "data"@[0]);
    assert("text"@[0] != "data"@[0]);
    assert("image_url"@[0] != "video_url"@[0]);
    assert("fps"@[0] != "url"@[0]);
}

/// On the wire a tool call has its id, its name and its arguments under their names,
/// and it is read back from there.
pub proof fn law_call_on_the_wire(c: ToolCallView)
    ensures
        call_json(c).get("id"@) == text_value(c.id),
        call_json(c).get("type"@) == text_value("function"@),
        call_json(c).get("function"@) matches Some(f) && f.get("name"@) == text_value(c.name)
            && f.get("arguments"@) == text_value(c.arguments),
        call_of(call_json(c)) == Some(c),
{
    lemma_call_names();
    lemma_function_names();
    let f = object2("name"@, JsonView::Text(c.name), "arguments"@, JsonView::Text(c.arguments));
    lemma_object2("name"@, JsonView::Text(c.name), "arguments"@, JsonView::Text(c.arguments));
    lemma_object3(
        "id"@,
        JsonView::Text(c.id),
        "type"@,
        JsonView::Text("function"@),
        "function"@,
        f,
    );
}

/// A tool call is read from an object that has an id and a function with a name and
/// arguments, all of them texts, and from no other.
pub proof fn law_call_is_read(t: JsonView)
    ensures
        call_of(t) matches Some(c) ==> t.get("id"@) == text_value(c.id) && (t.get(
            "function"@,
        ) matches Some(f) && f.get("name"@) == text_value(c.name) && f.get("arguments"@)
            == text_value(c.arguments)),
        call_of(t) is None ==> !(t.get("id"@) matches Some(JsonView::Text(_))) || !(t.get(
            "function"@,
        ) matches Some(f) && f.get("name"@) matches Some(JsonView::Text(_)) && f.get(
            "arguments"@,
        ) matches Some(JsonView::Text(_))),
{
}

/// The calls of a list are those of its elements that are calls, in their order.
pub proof fn law_calls_are_read(list: Seq<JsonView>, more: Seq<JsonView>)
    ensures
        calls_of(Seq::empty()).len() == 0,
        calls_of(list + more) == calls_of(list) + calls_of(more),
    decreases more.len(),
{
    if more.len() == 0 {
        assert(list + more =~= list);
        assert(calls_of(list) + calls_of(more) =~= calls_of(list));
    } else {
        law_calls_are_read(list, more.drop_last());
        assert((list + more).drop_last() =~= list + more.drop_last());
        assert((list + more).last() == more.last());
        if let Some(c) = call_of(more.last()) {
            assert(calls_of(list) + calls_of(more) =~= (calls_of(list) + calls_of(
                more.drop_last(),
            )).push(c));
        }
    }
}

/// Calls in their form on the wire are read back.
pub proof fn law_calls_roundtrip(calls: Seq<ToolCallView>)
    ensures
        calls_of(calls.map_values(|t: ToolCallView| call_json(t))) == calls,
    decreases calls.len(),
{
    let wire = calls.map_values(|t: ToolCallView| call_json(t));
    if calls.len() == 0 {
        assert(calls_of(wire) =~= calls);
    } else {
        law_calls_roundtrip(calls.drop_last());
        assert(wire.drop_last() =~= calls.drop_last().map_values(|t: ToolCallView| call_json(t)));
        law_call_on_the_wire(calls.last());
        assert(calls.drop_last().push(calls.last()) =~= calls);
    }
}

/// A message on the wire: its role by name, its text or its parts, and each of the
/// other fields exactly where the message has something to say there.
pub proof fn law_message_on_the_wire(m: MessageView)
    ensures
        m.role == Role::System ==> message_json(m).get("role"@) == text_value("system"@),
        m.role == Role::User ==> message_json(m).get("role"@) == text_value("user"@),
        m.role == Role::Assistant ==> message_json(m).get("role"@) == text_value("assistant"@),
        m.role == Role::Tool ==> message_json(m).get("role"@) == text_value("tool"@),
        m.content matches MessageContentView::Text(s) ==> message_json(m).get("content"@)
            == text_value(s),
        m.content matches MessageContentView::Multimodal(ps) ==> (message_json(m).get(
            "content"@,
        ) matches Some(JsonView::List(l)) && l.len() == ps.len() && forall|i: int|
            0 <= i < ps.len() ==> #[trigger] l[i] == part_json(ps[i])),
        message_json(m).get("reasoning_content"@) == opt_text_value(m.reasoning_content),
        message_json(m).get("tool_call_id"@) == opt_text_value(m.tool_call_id),
        m.tool_calls.len() == 0 ==> message_json(m).get("tool_calls"@) is None,
        m.tool_calls.len() > 0 ==> (message_json(m).get("tool_calls"@) matches Some(
            JsonView::List(l),
        ) && l.len() == m.tool_calls.len() && forall|i: int|
            0 <= i < l.len() ==> #[trigger] l[i] == call_json(m.tool_calls[i])),
        message_json(m) is Object,
{
    lemma_message_fields(m);
}

/// The fields of a message on the wire.
proof fn lemma_message_fields(m: MessageView)
    ensures
        message_json(m) is Object,
        message_json(m).get("role"@) == text_value(
            crate::provider::openai_compat::role_name(m.role),
        ),
        message_json(m).get("content"@) == Some(
            crate::provider::openai_compat::content_json(m.content),
        ),
        message_json(m).get("reasoning_content"@) == opt_text_value(m.reasoning_content),
        message_json(m).get("tool_call_id"@) == opt_text_value(m.tool_call_id),
        message_json(m).get("tool_calls"@) == (if m.tool_calls.len() > 0 {
            Some(JsonView::List(m.tool_calls.map_values(|t: ToolCallView| call_json(t))))
        } else {
            None
        }),
{
    lemma_message_names();
    let role = JsonView::Text(crate::provider::openai_compat::role_name(m.role));
    let content = crate::provider::openai_compat::content_json(m.content);
    let o = object1("role"@, role);
    lemma_object1("role"@, role);
    let a = o.with("content"@, content);
    lemma_with(o, "content"@, content);
    let b = match m.reasoning_content {
        Some(rc) => a.with("reasoning_content"@, JsonView::Text(rc)),
        None => a,
    };
    if let Some(rc) = m.reasoning_content {
        lemma_with(a, "reasoning_content"@, JsonView::Text(rc));
    }
    let list = JsonView::List(m.tool_calls.map_values(|t: ToolCallView| call_json(t)));
    let c = if m.tool_calls.len() > 0 {
        b.with("tool_calls"@, list)
    } else {
        b
    };
    if m.tool_calls.len() > 0 {
        lemma_with(b, "tool_calls"@, list);
    }
    if let Some(id) = m.tool_call_id {
        lemma_with(c, "tool_call_id"@, JsonView::Text(id));
    }
}

/// A message of text is read back from its form on the wire, but for its usage, which
/// is not sent.
pub proof fn law_message_roundtrip(m: MessageView)
    requires
        m.content is Text,
    ensures
        message_of(message_json(m)) == Ok::<MessageView, LlmErrorView>(
            MessageView { usage: None, ..m },
        ),
{
    lemma_message_fields(m);
    law_role_roundtrip(m.role);
    law_calls_roundtrip(m.tool_calls);
    if m.tool_calls.len() == 0 {
        assert(m.tool_calls =~= Seq::empty());
    }
}

/// Names of roles that no role has.
pub proof fn law_unknown_role(m: JsonView, name: Seq<char>)
    requires
        m.get("role"@) == text_value(name),
        name != "system"@,
        name != "user"@,
        name != "assistant"@,
        name != "tool"@,
    ensures
        message_of(m) == Err::<MessageView, LlmErrorView>(
            LlmErrorView::Protocol("unknown role: "@ + name),
        ),
{
}

/// What a medium is on the wire: an address as it is, data as a data URL, and a file
/// by its reference.
pub proof fn law_medium_on_the_wire(a: Seq<char>, b: Seq<char>)
    ensures
        crate::provider::openai_compat::media_wire(MediaSourceView::Url(a)) == a,
        crate::provider::openai_compat::media_wire(MediaSourceView::Base64(a, b)) == "data:"@ + a
            + ";base64,"@ + b,
        crate::provider::openai_compat::media_wire(MediaSourceView::FileId(a)) == "ms://"@ + a,
{
}

/// A part on the wire names its kind, and has what it shows under that name.
pub proof fn law_part_on_the_wire(p: ContentPartView)
    ensures
        p matches ContentPartView::Text(t) ==> part_json(p).get("type"@) == text_value("text"@)
            && part_json(p).get("text"@) == text_value(t),
        p matches ContentPartView::Image(s, d) ==> part_json(p).get("type"@) == text_value(
            "image_url"@,
        ) && (part_json(p).get("image_url"@) matches Some(u) && u.get("url"@) == text_value(
            crate::provider::openai_compat::media_wire(s),
        ) && u.get("detail"@) == (match d {
            Some(ImageDetail::Low) => text_value("low"@),
            Some(ImageDetail::High) => text_value("high"@),
            Some(ImageDetail::Original) => text_value("original"@),
            Some(ImageDetail::Auto) => text_value("auto"@),
            None => None,
        })),
        p matches ContentPartView::Audio(s) ==> part_json(p).get("type"@) == text_value(
            "input_audio"@,
        ) && (part_json(p).get("input_audio"@) matches Some(u) && u.get("data"@) == text_value(
            crate::provider::openai_compat::media_wire(s),
        )),
        p matches ContentPartView::Video(s, params) ==> part_json(p).get("type"@) == text_value(
            "video_url"@,
        ) && (part_json(p).get("video_url"@) matches Some(u) && u.get("url"@) == text_value(
            crate::provider::openai_compat::media_wire(s),
        )) && part_json(p).get("fps"@) == (match params.fps {
            Some(n) => Some(JsonView::Number(n)),
            None => None,
        }) && part_json(p).get("media_resolution"@) == (match params.media_resolution {
            Some(MediaResolution::Default) => text_value("default"@),
            Some(MediaResolution::Max) => text_value("max"@),
            None => None,
        }),
{
    lemma_part_names();
    match p {
        ContentPartView::Text(t) => {
            lemma_object2("type"@, JsonView::Text("text"@), "text"@, JsonView::Text(t));
        },
        ContentPartView::Image(s, d) => {
            let v = JsonView::Text(crate::provider::openai_compat::media_wire(s));
            let url = object1("url"@, v);
            lemma_object1("url"@, v);
            let inner = match d {
                Some(x) => url.with(
                    "detail"@,
                    JsonView::Text(crate::provider::openai_compat::detail_name(x)),
                ),
                None => url,
            };
            if let Some(x) = d {
                lemma_with(
                    url,
                    "detail"@,
                    JsonView::Text(crate::provider::openai_compat::detail_name(x)),
                );
            }
            lemma_object2("type"@, JsonView::Text("image_url"@), "image_url"@, inner);
        },
        ContentPartView::Audio(s) => {
            let v = JsonView::Text(crate::provider::openai_compat::media_wire(s));
            lemma_object1("data"@, v);
            lemma_object2(
                "type"@,
                JsonView::Text("input_audio"@),
                "input_audio"@,
                object1("data"@, v),
            );
        },
        ContentPartView::Video(s, params) => {
            let t = JsonView::Text(crate::provider::openai_compat::media_wire(s));
            lemma_object1("url"@, t);
            let v = object2("type"@, JsonView::Text("video_url"@), "video_url"@, object1("url"@, t));
            lemma_object2(
                "type"@,
                JsonView::Text("video_url"@),
                "video_url"@,
                object1("url"@, t),
            );
            let w = match params.fps {
                Some(n) => v.with("fps"@, JsonView::Number(n)),
                None => v,
            };
            if let Some(n) = params.fps {
                lemma_with(v, "fps"@, JsonView::Number(n));
            }
            if let Some(m) = params.media_resolution {
                lemma_with(
                    w,
                    "media_resolution"@,
                    JsonView::Text(crate::provider::openai_compat::resolution_name(m)),
                );
            }
        },
    }
}

/// A declaration on the wire has its name, its description and its parameters under
/// those names.
pub proof fn law_tool_on_the_wire(t: ToolDeclarationView)
    ensures
        tool_json(t).get("type"@) == text_value("function"@),
        tool_json(t).get("function"@) matches Some(f) && f.get("name"@) == text_value(t.name)
            && f.get("description"@) == text_value(t.description) && f.get("parameters"@) == Some(
            t.parameters,
        ),
{
    lemma_call_names();
    lemma_function_names();
    let f = object3(
        "name"@,
        JsonView::Text(t.name),
        "description"@,
        JsonView::Text(t.description),
        "parameters"@,
        t.parameters,
    );
    lemma_object3(
        "name"@,
        JsonView::Text(t.name),
        "description"@,
        JsonView::Text(t.description),
        "parameters"@,
        t.parameters,
    );
    lemma_object2("type"@, JsonView::Text("function"@), "function"@, f);
}

/// A body on the wire: the model, every message in order, every declaration in order
/// with the choice by its name, and the parameters that are set; nothing else.
pub proof fn law_body_on_the_wire(
    messages: Seq<MessageView>,
    tools: Seq<ToolDeclarationView>,
    choice: ToolChoice,
    temperature: Option<NumberView>,
    max_tokens: Option<usize>,
    model: Seq<char>,
    other: Seq<char>,
)
    ensures
        ({
            let b = common_body(messages, tools, choice, temperature, max_tokens, model);
            &&& b is Object
            &&& b.get("model"@) == text_value(model)
            &&& (b.get("messages"@) matches Some(JsonView::List(l)) && l.len() == messages.len()
                && forall|i: int|
                0 <= i < l.len() ==> #[trigger] l[i] == message_json(messages[i]))
            &&& tools.len() == 0 ==> b.get("tools"@) is None && b.get("tool_choice"@) is None
            &&& tools.len() > 0 ==> (b.get("tools"@) matches Some(JsonView::List(l)) && l.len()
                == tools.len() && forall|i: int|
                0 <= i < l.len() ==> #[trigger] l[i] == tool_json(tools[i]))
            &&& tools.len() > 0 && choice == ToolChoice::Auto ==> b.get("tool_choice"@)
                == text_value("auto"@)
            &&& tools.len() > 0 && choice == ToolChoice::Never ==> b.get("tool_choice"@)
                == text_value("none"@)
            &&& tools.len() > 0 && choice == ToolChoice::Required ==> b.get("tool_choice"@)
                == text_value("required"@)
            &&& b.get("temperature"@) == (match temperature {
                Some(t) => Some(JsonView::Number(t)),
                None => None,
            })
            &&& b.get("max_completion_tokens"@) == (match max_tokens {
                Some(n) => count_value(n as int),
                None => None,
            })
            &&& other != "model"@ && other != "messages"@ && other != "tools"@ && other
                != "tool_choice"@ && other != "temperature"@ && other != "max_completion_tokens"@
                ==> b.get(other) is None
        }),
{
    lemma_body_names();
    let mv = JsonView::Text(model);
    let lv = JsonView::List(messages.map_values(|m: MessageView| message_json(m)));
    let a = object2("model"@, mv, "messages"@, lv);
    lemma_object2("model"@, mv, "messages"@, lv);
    let tv = JsonView::List(tools.map_values(|t: ToolDeclarationView| tool_json(t)));
    let cv = JsonView::Text(crate::provider::openai_compat::choice_name(choice));
    let b = if tools.len() > 0 {
        a.with("tools"@, tv).with("tool_choice"@, cv)
    } else {
        a
    };
    if tools.len() > 0 {
        lemma_with(a, "tools"@, tv);
        lemma_with(a.with("tools"@, tv), "tool_choice"@, cv);
    }
    let c = match temperature {
        Some(t) => b.with("temperature"@, JsonView::Number(t)),
        None => b,
    };
    if let Some(t) = temperature {
        lemma_with(b, "temperature"@, JsonView::Number(t));
    }
    if let Some(m) = max_tokens {
        lemma_with(
            c,
            "max_completion_tokens"@,
            JsonView::Number(NumberView::Unsigned(m as u64)),
        );
    }
}

/// Where tools are offered, the body has one entry for each declaration, in their order,
/// with its name, its description and its parameters, and the choice by its name.
pub proof fn law_offered_tools_on_the_wire(
    messages: Seq<MessageView>,
    tools: Seq<ToolDeclarationView>,
    choice: ToolChoice,
    temperature: Option<NumberView>,
    max_tokens: Option<usize>,
    model: Seq<char>,
    i: int,
)
    requires
        0 <= i < tools.len(),
    ensures
        ({
            let b = common_body(messages, tools, choice, temperature, max_tokens, model);
            &&& b.get("tools"@) matches Some(JsonView::List(l))
            &&& l.len() == tools.len()
            &&& l[i].get("type"@) == text_value("function"@)
            &&& l[i].get("function"@) matches Some(f)
            &&& f.get("name"@) == text_value(tools[i].name)
            &&& f.get("description"@) == text_value(tools[i].description)
            &&& f.get("parameters"@) == Some(tools[i].parameters)
            &&& b.get("tool_choice"@) == (match choice {
                ToolChoice::Auto => text_value("auto"@),
                ToolChoice::Never => text_value("none"@),
                ToolChoice::Required => text_value("required"@),
            })
        }),
{
    law_body_on_the_wire(messages, tools, choice, temperature, max_tokens, model, Seq::empty());
    law_tool_on_the_wire(tools[i]);
}

/// The counts of a usage object are read from their names.
pub proof fn law_usage_is_read(u: JsonView, n: usize)
    ensures
        u.get("prompt_tokens"@) == count_value(n as int) ==> usage_of(u).prompt_tokens == n,
        u.get("prompt_tokens"@) is None ==> usage_of(u).prompt_tokens == 0,
        u.get("completion_tokens"@) == count_value(n as int) ==> usage_of(u).completion_tokens
            == n,
        u.get("completion_tokens"@) is None ==> usage_of(u).completion_tokens == 0,
        u.get("total_tokens"@) == count_value(n as int) ==> usage_of(u).total_tokens == n,
        u.get("total_tokens"@) is None && usage_of(u).prompt_tokens
            + usage_of(u).completion_tokens <= usize::MAX ==> usage_of(u).total_tokens
            == usage_of(u).prompt_tokens + usage_of(u).completion_tokens,
        u.get("prompt_cache_hit_tokens"@) == count_value(n as int)
            ==> usage_of(u).prompt_cache_hit_tokens == Some(n) && usage_of(u).cache_read_tokens
            == Some(n),
        u.get("prompt_cache_hit_tokens"@) is None ==> usage_of(u).prompt_cache_hit_tokens is None
            && usage_of(u).cache_read_tokens is None,
        u.get("prompt_cache_miss_tokens"@) == count_value(n as int)
            ==> usage_of(u).prompt_cache_miss_tokens == Some(n) && usage_of(u).cache_write_tokens
            == Some(n),
        u.get("prompt_cache_miss_tokens"@) is None ==> usage_of(u).prompt_cache_miss_tokens is None
            && usage_of(u).cache_write_tokens is None,
        (u.get("completion_tokens_details"@) matches Some(d) && d.get("reasoning_tokens"@)
            == count_value(n as int)) ==> usage_of(u).reasoning_tokens == Some(n),
        u.get("completion_tokens_details"@) is None ==> usage_of(u).reasoning_tokens is None,
{
}

/// Token usage is read where there is one that is not null, from under its name.
pub proof fn law_usage_is_found(j: JsonView, u: JsonView)
    ensures
        j.get("usage"@) == Some(u) && !(u is Null) ==> usage_at(j) == Some(usage_of(u)),
        j.get("usage"@) == Some(JsonView::Null) ==> usage_at(j) is None,
        j.get("usage"@) is None ==> usage_at(j) is None,
{
}

/// The reason of an end by its name.
pub proof fn law_reason_is_read(s: Seq<char>)
    ensures
        FinishReasonView::from_vendor("stop"@) == FinishReasonView::Stop,
        FinishReasonView::from_vendor("length"@) == FinishReasonView::Length,
        FinishReasonView::from_vendor("tool_calls"@) == FinishReasonView::ToolCalls,
        s != "stop"@ && s != "length"@ && s != "tool_calls"@ ==> FinishReasonView::from_vendor(s)
            == FinishReasonView::Other(s),
{
    reveal_strlit("stop");
    reveal_strlit("length");
    reveal_strlit("tool_calls");
    assert("stop"@.len() == 4);
    assert("length"@.len() == 6);
    assert("tool_calls"@.len() == 10);
}

/// A response that a vendor sends in one piece is read: its id, its model, the message
/// of its first choice as it was sent, the reason of its end and its usage.
pub proof fn law_response_is_read(
    json: JsonView,
    id: Seq<char>,
    model: Seq<char>,
    choices: Seq<JsonView>,
    m: MessageView,
    reason: Seq<char>,
)
    requires
        json.get("id"@) == text_value(id),
        json.get("model"@) == text_value(model),
        json.get("choices"@) == Some(JsonView::List(choices)),
        choices.len() > 0,
        m.content is Text,
        choices[0].get("message"@) == Some(message_json(m)),
    ensures
        response_of(json) matches Ok(r) && {
            &&& r.id == id
            &&& r.model == model
            &&& r.message.role == m.role
            &&& r.message.content == m.content
            &&& r.message.reasoning_content == m.reasoning_content
            &&& r.message.tool_calls == m.tool_calls
            &&& r.message.tool_call_id == m.tool_call_id
            &&& r.message.usage == r.usage
            &&& r.usage == usage_at(json)
            &&& choices[0].get("finish_reason"@) == text_value(reason) ==> r.finish_reason
                == FinishReasonView::from_vendor(reason)
            &&& choices[0].get("finish_reason"@) is None ==> r.finish_reason
                == FinishReasonView::Stop
        },
{
    law_message_roundtrip(m);
}

/// The text of a message on the wire: a string, nothing, or the text parts of a list
/// one after the other.
pub proof fn law_content_is_read(
    m: JsonView,
    s: Seq<char>,
    list: Seq<JsonView>,
    part: JsonView,
    other: JsonView,
)
    ensures
        m.get("content"@) == text_value(s) ==> content_of(m) == Ok::<Seq<char>, LlmErrorView>(s),
        m.get("content"@) is None || m.get("content"@) == Some(JsonView::Null) ==> (content_of(
            m,
        ) matches Ok(t) && t.len() == 0),
        m.get("content"@) == Some(JsonView::List(list)) ==> content_of(m) == Ok::<
            Seq<char>,
            LlmErrorView,
        >(parts_text(list)),
        parts_text(Seq::empty()).len() == 0,
        part.get("type"@) == text_value("text"@) && part.get("text"@) == text_value(s)
            ==> parts_text(list.push(part)) == parts_text(list) + s,
        part.get("type"@) != text_value("text"@) ==> parts_text(list.push(part)) == parts_text(
            list,
        ),
        m.get("content"@) == Some(other) && (other is Number || other is Bool || other is Object)
            ==> content_of(m) is Err,
{
    assert(list.push(part).drop_last() =~= list);
}

/// A response that lacks something is refused, and it is said what.
pub proof fn law_response_lacks(json: JsonView, id: Seq<char>, model: Seq<char>)
    ensures
        !(json.get("id"@) matches Some(JsonView::Text(_))) ==> response_of(json)
            == Err::<crate::provider::ChatResponseView, LlmErrorView>(
            LlmErrorView::Protocol("missing 'id' in response"@),
        ),
        json.get("id"@) == text_value(id) && !(json.get("model"@) matches Some(JsonView::Text(_)))
            ==> response_of(json) == Err::<crate::provider::ChatResponseView, LlmErrorView>(
            LlmErrorView::Protocol("missing 'model' in response"@),
        ),
        json.get("id"@) == text_value(id) && json.get("model"@) == text_value(model) && !(json.get(
            "choices"@,
        ) matches Some(JsonView::List(_))) ==> response_of(json) == Err::<
            crate::provider::ChatResponseView,
            LlmErrorView,
        >(LlmErrorView::Protocol("missing 'choices' array"@)),
        json.get("id"@) == text_value(id) && json.get("model"@) == text_value(model) && (json.get(
            "choices"@,
        ) matches Some(JsonView::List(l)) && l.len() == 0) ==> response_of(json) == Err::<
            crate::provider::ChatResponseView,
            LlmErrorView,
        >(LlmErrorView::Protocol("empty 'choices' array"@)),
{
}

/// An addition to a tool call: which call it belongs to, and what it adds.
pub proof fn law_call_delta_is_read(t: JsonView, n: u32, f: JsonView, s: Seq<char>)
    ensures
        t.get("index"@) == count_value(n as int) ==> call_delta_of(t).index == n,
        t.get("index"@) is None ==> call_delta_of(t).index == 0,
        t.get("id"@) == text_value(s) ==> call_delta_of(t).id == Some(s),
        t.get("id"@) is None ==> call_delta_of(t).id is None,
        t.get("function"@) is None ==> call_delta_of(t).function is None,
        t.get("function"@) == Some(f) ==> call_delta_of(t).function is Some,
        t.get("function"@) == Some(f) && f.get("name"@) == text_value(s) ==> call_delta_of(
            t,
        ).function->0.name == Some(s),
        t.get("function"@) == Some(f) && f.get("name"@) is None ==> call_delta_of(
            t,
        ).function->0.name is None,
        t.get("function"@) == Some(f) && f.get("arguments"@) == text_value(s) ==> call_delta_of(
            t,
        ).function->0.arguments == Some(s),
        t.get("function"@) == Some(f) && f.get("arguments"@) is None ==> call_delta_of(
            t,
        ).function->0.arguments is None,
{
}

/// The addition of an event: its text, its thoughts, its calls and its role, each where
/// it says one.
pub proof fn law_delta_is_read(d: JsonView, s: Seq<char>, list: Seq<JsonView>, r: Role)
    ensures
        d.get("content"@) == text_value(s) && s.len() > 0 ==> (delta_of(d) matches Some(v)
            && v.content == Some(s)),
        d.get("reasoning_content"@) == text_value(s) && s.len() > 0 ==> (delta_of(d) matches Some(
            v,
        ) && v.reasoning_content == Some(s)),
        d.get("tool_calls"@) == Some(JsonView::List(list)) && list.len() > 0 ==> (delta_of(
            d,
        ) matches Some(v) && v.tool_calls.len() == list.len() && forall|i: int|
            0 <= i < list.len() ==> #[trigger] v.tool_calls[i] == call_delta_of(list[i])),
        d.get("role"@) == text_value("system"@) ==> (delta_of(d) matches Some(v) && v.role
            == Some(Role::System)),
        d.get("role"@) == text_value("user"@) ==> (delta_of(d) matches Some(v) && v.role == Some(
            Role::User,
        )),
        d.get("role"@) == text_value("assistant"@) ==> (delta_of(d) matches Some(v) && v.role
            == Some(Role::Assistant)),
        d.get("role"@) == text_value("tool"@) ==> (delta_of(d) matches Some(v) && v.role == Some(
            Role::Tool,
        )),
        delta_of(d) matches Some(v) ==> {
            &&& (d.get("content"@) is None || d.get("content"@) == Some(JsonView::Null) || d.get(
                "content"@,
            ) == text_value(Seq::empty())) ==> v.content is None
            &&& (d.get("reasoning_content"@) is None || d.get("reasoning_content"@) == text_value(
                Seq::empty(),
            )) ==> v.reasoning_content is None
            &&& d.get("tool_calls"@) is None ==> v.tool_calls.len() == 0
            &&& d.get("role"@) is None ==> v.role is None
        },
        d.get("content"@) is None && d.get("reasoning_content"@) is None && d.get(
            "tool_calls"@,
        ) is None && d.get("role"@) is None ==> delta_of(d) is None,
{
    law_role_roundtrip(Role::System);
    law_role_roundtrip(Role::User);
    law_role_roundtrip(Role::Assistant);
    law_role_roundtrip(Role::Tool);
}

/// What an event gives comes from its first choice: the addition, the reason of the
/// end; and the usage from the event itself.
pub proof fn law_event_is_read(json: JsonView, choices: Seq<JsonView>, d: JsonView, f: Seq<char>)
    ensures
        chunk_of(json).2 == usage_at(json),
        json.get("choices"@) == Some(JsonView::List(choices)) && choices.len() > 0 ==> {
            &&& choices[0].get("delta"@) == Some(d) ==> chunk_of(json).0 == (match delta_of(d) {
                Some(v) => Some(StreamChunkView::Delta(v)),
                None => None,
            })
            &&& choices[0].get("delta"@) is None ==> chunk_of(json).0 is None
            &&& choices[0].get("finish_reason"@) == text_value(f) ==> chunk_of(json).1 == Some(
                FinishReasonView::from_vendor(f),
            )
            &&& choices[0].get("finish_reason"@) is None || choices[0].get("finish_reason"@)
                == Some(JsonView::Null) ==> chunk_of(json).1 is None
        },
        json.get("choices"@) is None || json.get("choices"@) == Some(
            JsonView::List(Seq::empty()),
        ) ==> chunk_of(json).0 is None && chunk_of(json).1 is None,
{
}

/// An event says which answer it belongs to where it has both an id and a model.
pub proof fn law_event_is_identified(json: JsonView, i: Seq<char>, m: Seq<char>)
    ensures
        json.get("id"@) == text_value(i) && json.get("model"@) == text_value(m) ==> meta_of(json)
            == Some((i, m)),
        json.get("id"@) is None || json.get("model"@) is None ==> meta_of(json) is None,
{
}

/// A message of a vendor is read: its role by name, its text, its thoughts, its calls and
/// the call that it answers.
pub proof fn law_message_is_read(
    j: JsonView,
    t: Seq<char>,
    s: Seq<char>,
    list: Seq<JsonView>,
)
    requires
        content_of(j) == Ok::<Seq<char>, LlmErrorView>(t),
    ensures
        j.get("role"@) == text_value("assistant"@) ==> (message_of(j) matches Ok(m) && m.role
            == Role::Assistant),
        j.get("role"@) == text_value("user"@) ==> (message_of(j) matches Ok(m) && m.role
            == Role::User),
        j.get("role"@) == text_value("system"@) ==> (message_of(j) matches Ok(m) && m.role
            == Role::System),
        j.get("role"@) == text_value("tool"@) ==> (message_of(j) matches Ok(m) && m.role
            == Role::Tool),
        message_of(j) matches Ok(m) ==> {
            &&& m.content == MessageContentView::Text(t)
            &&& j.get("reasoning_content"@) == text_value(s) ==> m.reasoning_content == Some(s)
            &&& j.get("reasoning_content"@) is None ==> m.reasoning_content is None
            &&& j.get("tool_calls"@) == Some(JsonView::List(list)) ==> m.tool_calls == calls_of(list)
            &&& j.get("tool_calls"@) is None ==> m.tool_calls.len() == 0
            &&& j.get("tool_call_id"@) == text_value(s) ==> m.tool_call_id == Some(s)
            &&& j.get("tool_call_id"@) is None ==> m.tool_call_id is None
            &&& m.usage is None
        },
        j.get("role"@) is None ==> message_of(j) == Err::<MessageView, LlmErrorView>(
            LlmErrorView::Protocol("missing 'role' in message"@),
        ),
{
    law_role_roundtrip(Role::System);
    law_role_roundtrip(Role::User);
    law_role_roundtrip(Role::Assistant);
    law_role_roundtrip(Role::Tool);
}

/// A call of a list is read where it stands.
pub proof fn law_one_call_is_read(list: Seq<JsonView>, t: JsonView, c: ToolCallView)
    ensures
        call_of(t) == Some(c) ==> calls_of(list.push(t)) == calls_of(list).push(c),
        call_of(t) is None ==> calls_of(list.push(t)) == calls_of(list),
{
    assert(list.push(t).drop_last() =~= list);
}

/// The message of a response is that of its first choice, with the usage of the response.
pub proof fn law_response_message(
    json: JsonView,
    id: Seq<char>,
    model: Seq<char>,
    choices: Seq<JsonView>,
    j: JsonView,
    m: MessageView,
    e: LlmErrorView,
)
    requires
        json.get("id"@) == text_value(id),
        json.get("model"@) == text_value(model),
        json.get("choices"@) == Some(JsonView::List(choices)),
        choices.len() > 0,
    ensures
        choices[0].get("message"@) == Some(j) && message_of(j) == Ok::<MessageView, LlmErrorView>(m)
            ==> (response_of(json) matches Ok(r) && r.message == (MessageView {
            role: m.role,
            content: m.content,
            reasoning_content: m.reasoning_content,
            tool_calls: m.tool_calls,
            tool_call_id: m.tool_call_id,
            usage: usage_at(json),
        })),
        choices[0].get("message"@) == Some(j) && message_of(j) == Err::<MessageView, LlmErrorView>(e)
            ==> response_of(json) == Err::<crate::provider::ChatResponseView, LlmErrorView>(e),
        choices[0].get("message"@) is None ==> response_of(json) == Err::<
            crate::provider::ChatResponseView,
            LlmErrorView,
        >(LlmErrorView::Protocol("missing 'message' in choice"@)),
{
}

/// The text of a content, and nothing for parts.
pub proof fn law_text_of_a_content(c: MessageContentView, t: Seq<char>)
    ensures
        c == MessageContentView::Text(t) ==> c.as_text() == Some(t) && c.text_or_empty() == t,
        c is Multimodal ==> c.as_text() is None && c.text_or_empty().len() == 0,
{
    reveal_strlit("");
    assert(""@.len() == 0);
}

/// A response is read only from what says its id, its model and its choices.
pub proof fn law_response_was_sent(json: JsonView)
    ensures
        response_of(json) matches Ok(r) ==> json.get("id"@) == text_value(r.id) && json.get(
            "model"@,
        ) == text_value(r.model) && (json.get("choices"@) matches Some(JsonView::List(l))
            && l.len() > 0 && l[0].get("message"@) is Some),
{
}

/// An addition is read only from what says something: text that is not empty, thoughts that
/// are not empty, calls, or a role that there is.
pub proof fn law_delta_was_sent(d: JsonView)
    ensures
        delta_of(d) matches Some(v) ==> {
            &&& v.content matches Some(s) ==> s.len() > 0 && d.get("content"@) == text_value(s)
            &&& v.reasoning_content matches Some(s) ==> s.len() > 0 && d.get("reasoning_content"@)
                == text_value(s)
            &&& v.tool_calls.len() > 0 ==> (d.get("tool_calls"@) matches Some(JsonView::List(l))
                && l.len() == v.tool_calls.len())
            &&& v.role == Some(Role::User) ==> d.get("role"@) == text_value("user"@)
            &&& v.role == Some(Role::Assistant) ==> d.get("role"@) == text_value("assistant"@)
            &&& v.role == Some(Role::System) ==> d.get("role"@) == text_value("system"@)
            &&& v.role == Some(Role::Tool) ==> d.get("role"@) == text_value("tool"@)
        },
{
}

} // verus!
