//! The form in which messages, requests and replies are kept and handed on, said by its
//! names and values.

use vstd::prelude::*;
use vstd::string::*;

use crate::codec::{
    call_json, calls_json, content_json, count_json, detail_name, empty_object, message_json,
    opt_count, opt_text, params_json, part_json, parts_json, read_call, read_message,
    read_opt_text, read_usage, source_json, usage_json, with_opt,
};
use crate::json::{parsed, JsonView, NumberView};
use crate::provider::completions_laws::{count_value, opt_text_value, text_value};
use crate::provider::content::{
    ContentPartView, ImageDetail, MediaResolution, MediaSourceView, VideoParamsView,
};
use crate::provider::{
    FinishReasonView, MessageContentView, MessageView, ReasoningEffort, Role, ThinkingConfig,
    TokenUsage, ToolCallView, ToolDeclarationView,
};
use crate::session::codec::{
    asked_json, declaration_json, declarations_json, effort_json, finish_json, kind_name,
    number_json, options_json, or_null, read_asked, read_depth_at, read_kind_at, read_options,
    read_options_at, read_reply, read_thinking, read_wait_at, reply_json, temperature_json,
    thinking_json, usage_or_null, wait_or_null,
};
use crate::session::message::{
    hex, hex_digit, id_text, ChatOptionsView, ErrorKind, MessageErrorView, SessionId,
    SessionMessageView, SessionReplyView,
};

verus! {

broadcast use vstd::string::group_string_axioms;

/// An empty object has no field.
proof fn lemma_nothing()
    ensures
        empty_object() is Object,
        forall|other: Seq<char>| #[trigger] empty_object().get(other) is None,
{
}

/// A field that is added is found, unless one of its name is there already.
proof fn lemma_plus(j: JsonView, key: Seq<char>, v: JsonView)
    requires
        j is Object,
    ensures
        j.plus(key, v) is Object,
        forall|other: Seq<char>| #[trigger]
            j.plus(key, v).get(other) == (if j.get(other) is Some {
                j.get(other)
            } else if other == key {
                Some(v)
            } else {
                None
            }),
{
    assert forall|other: Seq<char>| #[trigger]
        j.plus(key, v).get(other) == (if j.get(other) is Some {
            j.get(other)
        } else if other == key {
            Some(v)
        } else {
            None
        }) by {
        crate::codec::lemma_find_push(j->Object_0, key, v, other);
    }
}

/// A field that may be absent.
proof fn lemma_opt(j: JsonView, key: Seq<char>, v: Option<JsonView>)
    requires
        j is Object,
    ensures
        with_opt(j, key, v) is Object,
        forall|other: Seq<char>| #[trigger]
            with_opt(j, key, v).get(other) == (if j.get(other) is Some {
                j.get(other)
            } else if other == key {
                v
            } else {
                None
            }),
{
    if let Some(x) = v {
        lemma_plus(j, key, x);
    }
}

/// A count that may be absent, as a value.
pub open spec fn opt_count_value(n: Option<usize>) -> Option<JsonView> {
    match n {
        Some(x) => count_value(x as int),
        None => None,
    }
}

/// The names of a message differ.
pub proof fn lemma_message_keys()
    ensures
        "content"@ != "reasoning_content"@,
        "content"@ != "role"@,
        "content"@ != "tool_call_id"@,
        "content"@ != "tool_calls"@,
        "content"@ != "usage"@,
        "reasoning_content"@ != "role"@,
        "reasoning_content"@ != "tool_call_id"@,
        "reasoning_content"@ != "tool_calls"@,
        "reasoning_content"@ != "usage"@,
        "role"@ != "tool_call_id"@,
        "role"@ != "tool_calls"@,
        "role"@ != "usage"@,
        "tool_call_id"@ != "tool_calls"@,
        "tool_call_id"@ != "usage"@,
        "tool_calls"@ != "usage"@,
{
    reveal_strlit("content");
    reveal_strlit("reasoning_content");
    reveal_strlit("role");
    reveal_strlit("tool_call_id");
    reveal_strlit("tool_calls");
    reveal_strlit("usage");
    assert("content"@.len() == 7);
    assert("reasoning_content"@.len() == 17);
    assert("role"@.len() == 4);
    assert("tool_call_id"@.len() == 12);
    assert("tool_calls"@.len() == 10);
    assert("usage"@.len() == 5);
}

/// The names of counts differ.
pub proof fn lemma_usage_keys()
    ensures
        "cache_read_tokens"@ != "cache_write_tokens"@,
        "cache_read_tokens"@ != "completion_tokens"@,
        "cache_read_tokens"@ != "prompt_cache_hit_tokens"@,
        "cache_read_tokens"@ != "prompt_cache_miss_tokens"@,
        "cache_read_tokens"@ != "prompt_tokens"@,
        "cache_read_tokens"@ != "reasoning_tokens"@,
        "cache_read_tokens"@ != "total_tokens"@,
        "cache_write_tokens"@ != "completion_tokens"@,
        "cache_write_tokens"@ != "prompt_cache_hit_tokens"@,
        "cache_write_tokens"@ != "prompt_cache_miss_tokens"@,
        "cache_write_tokens"@ != "prompt_tokens"@,
        "cache_write_tokens"@ != "reasoning_tokens"@,
        "cache_write_tokens"@ != "total_tokens"@,
        "completion_tokens"@ != "prompt_cache_hit_tokens"@,
        "completion_tokens"@ != "prompt_cache_miss_tokens"@,
        "completion_tokens"@ != "prompt_tokens"@,
        "completion_tokens"@ != "reasoning_tokens"@,
        "completion_tokens"@ != "total_tokens"@,
        "prompt_cache_hit_tokens"@ != "prompt_cache_miss_tokens"@,
        "prompt_cache_hit_tokens"@ != "prompt_tokens"@,
        "prompt_cache_hit_tokens"@ != "reasoning_tokens"@,
        "prompt_cache_hit_tokens"@ != "total_tokens"@,
        "prompt_cache_miss_tokens"@ != "prompt_tokens"@,
        "prompt_cache_miss_tokens"@ != "reasoning_tokens"@,
        "prompt_cache_miss_tokens"@ != "total_tokens"@,
        "prompt_tokens"@ != "reasoning_tokens"@,
        "prompt_tokens"@ != "total_tokens"@,
        "reasoning_tokens"@ != "total_tokens"@,
{
    reveal_strlit("cache_read_tokens");
    reveal_strlit("cache_write_tokens");
    reveal_strlit("completion_tokens");
    reveal_strlit("prompt_cache_hit_tokens");
    reveal_strlit("prompt_cache_miss_tokens");
    reveal_strlit("prompt_tokens");
    reveal_strlit("reasoning_tokens");
    reveal_strlit("total_tokens");
    assert("cache_read_tokens"@.len() == 17);
    assert("cache_write_tokens"@.len() == 18);
    assert("completion_tokens"@.len() == 17);
    assert("prompt_cache_hit_tokens"@.len() == 23);
    assert("prompt_cache_miss_tokens"@.len() == 24);
    assert("prompt_tokens"@.len() == 13);
    assert("reasoning_tokens"@.len() == 16);
    assert("total_tokens"@.len() == 12);
    assert("cache_read_tokens"@[1] != "completion_tokens"@[1]);
}

/// The names of a call differ.
pub proof fn lemma_call_keys()
    ensures
        "function"@ != "id"@,
        "function"@ != "arguments"@,
        "function"@ != "name"@,
        "function"@ != "description"@,
        "function"@ != "parameters"@,
        "id"@ != "arguments"@,
        "id"@ != "name"@,
        "id"@ != "description"@,
        "id"@ != "parameters"@,
        "arguments"@ != "name"@,
        "arguments"@ != "description"@,
        "arguments"@ != "parameters"@,
        "name"@ != "description"@,
        "name"@ != "parameters"@,
        "description"@ != "parameters"@,
{
    reveal_strlit("function");
    reveal_strlit("id");
    reveal_strlit("arguments");
    reveal_strlit("name");
    reveal_strlit("description");
    reveal_strlit("parameters");
    assert("function"@.len() == 8);
    assert("id"@.len() == 2);
    assert("arguments"@.len() == 9);
    assert("name"@.len() == 4);
    assert("description"@.len() == 11);
    assert("parameters"@.len() == 10);
}

/// The names of a part differ.
pub proof fn lemma_part_keys()
    ensures
        "source"@ != "url"@,
        "source"@ != "data"@,
        "source"@ != "mime"@,
        "source"@ != "file_id"@,
        "source"@ != "fps"@,
        "source"@ != "media_resolution"@,
        "source"@ != "text"@,
        "source"@ != "type"@,
        "source"@ != "detail"@,
        "source"@ != "params"@,
        "url"@ != "data"@,
        "url"@ != "mime"@,
        "url"@ != "file_id"@,
        "url"@ != "fps"@,
        "url"@ != "media_resolution"@,
        "url"@ != "text"@,
        "url"@ != "type"@,
        "url"@ != "detail"@,
        "url"@ != "params"@,
        "data"@ != "mime"@,
        "data"@ != "file_id"@,
        "data"@ != "fps"@,
        "data"@ != "media_resolution"@,
        "data"@ != "text"@,
        "data"@ != "type"@,
        "data"@ != "detail"@,
        "data"@ != "params"@,
        "mime"@ != "file_id"@,
        "mime"@ != "fps"@,
        "mime"@ != "media_resolution"@,
        "mime"@ != "text"@,
        "mime"@ != "type"@,
        "mime"@ != "detail"@,
        "mime"@ != "params"@,
        "file_id"@ != "fps"@,
        "file_id"@ != "media_resolution"@,
        "file_id"@ != "text"@,
        "file_id"@ != "type"@,
        "file_id"@ != "detail"@,
        "file_id"@ != "params"@,
        "fps"@ != "media_resolution"@,
        "fps"@ != "text"@,
        "fps"@ != "type"@,
        "fps"@ != "detail"@,
        "fps"@ != "params"@,
        "media_resolution"@ != "text"@,
        "media_resolution"@ != "type"@,
        "media_resolution"@ != "detail"@,
        "media_resolution"@ != "params"@,
        "text"@ != "type"@,
        "text"@ != "detail"@,
        "text"@ != "params"@,
        "type"@ != "detail"@,
        "type"@ != "params"@,
        "detail"@ != "params"@,
{
    reveal_strlit("source");
    reveal_strlit("url");
    reveal_strlit("data");
    reveal_strlit("mime");
    reveal_strlit("file_id");
    reveal_strlit("fps");
    reveal_strlit("media_resolution");
    reveal_strlit("text");
    reveal_strlit("type");
    reveal_strlit("detail");
    reveal_strlit("params");
    assert("source"@.len() == 6);
    assert("url"@.len() == 3);
    assert("data"@.len() == 4);
    assert("mime"@.len() == 4);
    assert("file_id"@.len() == 7);
    assert("fps"@.len() == 3);
    assert("media_resolution"@.len() == 16);
    assert("text"@.len() == 4);
    assert("type"@.len() == 4);
    assert("detail"@.len() == 6);
    assert("params"@.len() == 6);
    assert("source"@[0] != "detail"@[0]);
    assert("source"@[0] != "params"@[0]);
    assert("url"@[0] != "fps"@[0]);
    assert("data"@[0] != "mime"@[0]);
    assert("data"@[0] != "text"@[0]);
    assert("data"@[0] != "type"@[0]);
    assert("mime"@[0] != "text"@[0]);
    assert("mime"@[0] != "type"@[0]);
    assert("text"@[1] != "type"@[1]);
    assert("detail"@[0] != "params"@[0]);
}

/// The names of options differ.
pub proof fn lemma_option_keys()
    ensures
        "max_tokens"@ != "system_prompt"@,
        "max_tokens"@ != "temperature"@,
        "max_tokens"@ != "thinking"@,
        "max_tokens"@ != "tools"@,
        "max_tokens"@ != "effort"@,
        "max_tokens"@ != "enabled"@,
        "system_prompt"@ != "temperature"@,
        "system_prompt"@ != "thinking"@,
        "system_prompt"@ != "tools"@,
        "system_prompt"@ != "effort"@,
        "system_prompt"@ != "enabled"@,
        "temperature"@ != "thinking"@,
        "temperature"@ != "tools"@,
        "temperature"@ != "effort"@,
        "temperature"@ != "enabled"@,
        "thinking"@ != "tools"@,
        "thinking"@ != "effort"@,
        "thinking"@ != "enabled"@,
        "tools"@ != "effort"@,
        "tools"@ != "enabled"@,
        "effort"@ != "enabled"@,
{
    reveal_strlit("max_tokens");
    reveal_strlit("system_prompt");
    reveal_strlit("temperature");
    reveal_strlit("thinking");
    reveal_strlit("tools");
    reveal_strlit("effort");
    reveal_strlit("enabled");
    assert("max_tokens"@.len() == 10);
    assert("system_prompt"@.len() == 13);
    assert("temperature"@.len() == 11);
    assert("thinking"@.len() == 8);
    assert("tools"@.len() == 5);
    assert("effort"@.len() == 6);
    assert("enabled"@.len() == 7);
}

/// The names of a request differ.
pub proof fn lemma_asked_keys()
    ensures
        "kind"@ != "message"@,
        "kind"@ != "options"@,
        "kind"@ != "peer_depth"@,
        "kind"@ != "session_id"@,
        "kind"@ != "result"@,
        "kind"@ != "tool_call_id"@,
        "kind"@ != "turn_id"@,
        "message"@ != "options"@,
        "message"@ != "peer_depth"@,
        "message"@ != "session_id"@,
        "message"@ != "result"@,
        "message"@ != "tool_call_id"@,
        "message"@ != "turn_id"@,
        "options"@ != "peer_depth"@,
        "options"@ != "session_id"@,
        "options"@ != "result"@,
        "options"@ != "tool_call_id"@,
        "options"@ != "turn_id"@,
        "peer_depth"@ != "session_id"@,
        "peer_depth"@ != "result"@,
        "peer_depth"@ != "tool_call_id"@,
        "peer_depth"@ != "turn_id"@,
        "session_id"@ != "result"@,
        "session_id"@ != "tool_call_id"@,
        "session_id"@ != "turn_id"@,
        "result"@ != "tool_call_id"@,
        "result"@ != "turn_id"@,
        "tool_call_id"@ != "turn_id"@,
{
    reveal_strlit("kind");
    reveal_strlit("message");
    reveal_strlit("options");
    reveal_strlit("peer_depth");
    reveal_strlit("session_id");
    reveal_strlit("result");
    reveal_strlit("tool_call_id");
    reveal_strlit("turn_id");
    assert("kind"@.len() == 4);
    assert("message"@.len() == 7);
    assert("options"@.len() == 7);
    assert("peer_depth"@.len() == 10);
    assert("session_id"@.len() == 10);
    assert("result"@.len() == 6);
    assert("tool_call_id"@.len() == 12);
    assert("turn_id"@.len() == 7);
    assert("message"@[0] != "options"@[0]);
    assert("message"@[0] != "turn_id"@[0]);
    assert("options"@[0] != "turn_id"@[0]);
    assert("peer_depth"@[0] != "session_id"@[0]);
}

/// The names of a reply differ.
pub proof fn lemma_reply_keys()
    ensures
        "finish_reason"@ != "id"@,
        "finish_reason"@ != "message"@,
        "finish_reason"@ != "model"@,
        "finish_reason"@ != "reply"@,
        "finish_reason"@ != "usage"@,
        "finish_reason"@ != "turn_id"@,
        "finish_reason"@ != "kind"@,
        "finish_reason"@ != "retry_after_ms"@,
        "finish_reason"@ != "reason"@,
        "id"@ != "message"@,
        "id"@ != "model"@,
        "id"@ != "reply"@,
        "id"@ != "usage"@,
        "id"@ != "turn_id"@,
        "id"@ != "kind"@,
        "id"@ != "retry_after_ms"@,
        "id"@ != "reason"@,
        "message"@ != "model"@,
        "message"@ != "reply"@,
        "message"@ != "usage"@,
        "message"@ != "turn_id"@,
        "message"@ != "kind"@,
        "message"@ != "retry_after_ms"@,
        "message"@ != "reason"@,
        "model"@ != "reply"@,
        "model"@ != "usage"@,
        "model"@ != "turn_id"@,
        "model"@ != "kind"@,
        "model"@ != "retry_after_ms"@,
        "model"@ != "reason"@,
        "reply"@ != "usage"@,
        "reply"@ != "turn_id"@,
        "reply"@ != "kind"@,
        "reply"@ != "retry_after_ms"@,
        "reply"@ != "reason"@,
        "usage"@ != "turn_id"@,
        "usage"@ != "kind"@,
        "usage"@ != "retry_after_ms"@,
        "usage"@ != "reason"@,
        "turn_id"@ != "kind"@,
        "turn_id"@ != "retry_after_ms"@,
        "turn_id"@ != "reason"@,
        "kind"@ != "retry_after_ms"@,
        "kind"@ != "reason"@,
        "retry_after_ms"@ != "reason"@,
{
    reveal_strlit("finish_reason");
    reveal_strlit("id");
    reveal_strlit("message");
    reveal_strlit("model");
    reveal_strlit("reply");
    reveal_strlit("usage");
    reveal_strlit("turn_id");
    reveal_strlit("kind");
    reveal_strlit("retry_after_ms");
    reveal_strlit("reason");
    assert("finish_reason"@.len() == 13);
    assert("id"@.len() == 2);
    assert("message"@.len() == 7);
    assert("model"@.len() == 5);
    assert("reply"@.len() == 5);
    assert("usage"@.len() == 5);
    assert("turn_id"@.len() == 7);
    assert("kind"@.len() == 4);
    assert("retry_after_ms"@.len() == 14);
    assert("reason"@.len() == 6);
    assert("message"@[0] != "turn_id"@[0]);
    assert("model"@[0] != "reply"@[0]);
    assert("model"@[0] != "usage"@[0]);
    assert("reply"@[0] != "usage"@[0]);
}

/// A message that is kept: its role by name, its content, and every other thing that it
/// has, each under its name.
pub proof fn law_kept_message(m: MessageView)
    ensures
        m.role == Role::System ==> message_json(m).get("role"@) == text_value("system"@),
        m.role == Role::User ==> message_json(m).get("role"@) == text_value("user"@),
        m.role == Role::Assistant ==> message_json(m).get("role"@) == text_value("assistant"@),
        m.role == Role::Tool ==> message_json(m).get("role"@) == text_value("tool"@),
        m.content matches MessageContentView::Text(t) ==> message_json(m).get("content"@)
            == text_value(t),
        m.content matches MessageContentView::Multimodal(ps) ==> (message_json(m).get(
            "content"@,
        ) matches Some(JsonView::List(l)) && l.len() == ps.len() && forall|i: int|
            0 <= i < l.len() ==> #[trigger] l[i] == part_json(ps[i])),
        message_json(m).get("reasoning_content"@) == opt_text_value(m.reasoning_content),
        message_json(m).get("tool_call_id"@) == opt_text_value(m.tool_call_id),
        m.tool_calls.len() == 0 ==> message_json(m).get("tool_calls"@) is None,
        m.tool_calls.len() > 0 ==> (message_json(m).get("tool_calls"@) matches Some(
            JsonView::List(l),
        ) && l.len() == m.tool_calls.len() && forall|i: int|
            0 <= i < l.len() ==> #[trigger] l[i] == call_json(m.tool_calls[i])),
        m.usage is None ==> message_json(m).get("usage"@) is None,
        m.usage matches Some(u) ==> message_json(m).get("usage"@) == Some(usage_json(u)),
{
    lemma_message_keys();
    let e0 = empty_object();
    lemma_nothing();
    let v0 = content_json(m.content);
    lemma_plus(e0, "content"@, v0);
    let j0 = e0.plus("content"@, v0);
    let v1 = opt_text(m.reasoning_content);
    lemma_opt(j0, "reasoning_content"@, v1);
    let j1 = with_opt(j0, "reasoning_content"@, v1);
    let v2 = JsonView::Text(crate::provider::openai_compat::role_name(m.role));
    lemma_plus(j1, "role"@, v2);
    let j2 = j1.plus("role"@, v2);
    let v3 = opt_text(m.tool_call_id);
    lemma_opt(j2, "tool_call_id"@, v3);
    let j3 = with_opt(j2, "tool_call_id"@, v3);
    let v4 = if m.tool_calls.len() > 0 {
        Some(JsonView::List(calls_json(m.tool_calls)))
    } else {
        None
    };
    lemma_opt(j3, "tool_calls"@, v4);
    let j4 = with_opt(j3, "tool_calls"@, v4);
    let v5 = match m.usage {
        Some(u) => Some(usage_json(u)),
        None => None,
    };
    lemma_opt(j4, "usage"@, v5);
    let j5 = with_opt(j4, "usage"@, v5);
}

/// A call that is kept.
pub proof fn law_kept_call(c: ToolCallView)
    ensures
        call_json(c).get("id"@) == text_value(c.id),
        call_json(c).get("function"@) matches Some(f) && f.get("name"@) == text_value(c.name)
            && f.get("arguments"@) == text_value(c.arguments),
        read_call(call_json(c)) == Some(c),
{
    lemma_call_keys();
    crate::codec::law_call(c);
    let e = empty_object();
    lemma_nothing();
    let a = JsonView::Text(c.arguments);
    let n = JsonView::Text(c.name);
    lemma_plus(e, "arguments"@, a);
    let f = e.plus("arguments"@, a).plus("name"@, n);
    lemma_plus(e.plus("arguments"@, a), "name"@, n);
    lemma_plus(e, "function"@, f);
    lemma_plus(e.plus("function"@, f), "id"@, JsonView::Text(c.id));
}

/// Counts that are kept, each under its name.
pub proof fn law_kept_usage(u: TokenUsage)
    ensures
        usage_json(u).get("prompt_tokens"@) == count_value(u.prompt_tokens as int),
        usage_json(u).get("completion_tokens"@) == count_value(u.completion_tokens as int),
        usage_json(u).get("total_tokens"@) == count_value(u.total_tokens as int),
        usage_json(u).get("reasoning_tokens"@) == opt_count_value(u.reasoning_tokens),
        usage_json(u).get("prompt_cache_hit_tokens"@) == opt_count_value(
            u.prompt_cache_hit_tokens,
        ),
        usage_json(u).get("prompt_cache_miss_tokens"@) == opt_count_value(
            u.prompt_cache_miss_tokens,
        ),
        usage_json(u).get("cache_read_tokens"@) == opt_count_value(u.cache_read_tokens),
        usage_json(u).get("cache_write_tokens"@) == opt_count_value(u.cache_write_tokens),
        read_usage(usage_json(u)) == Some(u),
{
    lemma_usage_keys();
    crate::codec::law_usage(u);
    let e0 = empty_object();
    lemma_nothing();
    let v0 = opt_count(u.cache_read_tokens);
    lemma_opt(e0, "cache_read_tokens"@, v0);
    let j0 = with_opt(e0, "cache_read_tokens"@, v0);
    let v1 = opt_count(u.cache_write_tokens);
    lemma_opt(j0, "cache_write_tokens"@, v1);
    let j1 = with_opt(j0, "cache_write_tokens"@, v1);
    let v2 = count_json(u.completion_tokens);
    lemma_plus(j1, "completion_tokens"@, v2);
    let j2 = j1.plus("completion_tokens"@, v2);
    let v3 = opt_count(u.prompt_cache_hit_tokens);
    lemma_opt(j2, "prompt_cache_hit_tokens"@, v3);
    let j3 = with_opt(j2, "prompt_cache_hit_tokens"@, v3);
    let v4 = opt_count(u.prompt_cache_miss_tokens);
    lemma_opt(j3, "prompt_cache_miss_tokens"@, v4);
    let j4 = with_opt(j3, "prompt_cache_miss_tokens"@, v4);
    let v5 = count_json(u.prompt_tokens);
    lemma_plus(j4, "prompt_tokens"@, v5);
    let j5 = j4.plus("prompt_tokens"@, v5);
    let v6 = opt_count(u.reasoning_tokens);
    lemma_opt(j5, "reasoning_tokens"@, v6);
    let j6 = with_opt(j5, "reasoning_tokens"@, v6);
    let v7 = count_json(u.total_tokens);
    lemma_plus(j6, "total_tokens"@, v7);
    let j7 = j6.plus("total_tokens"@, v7);
}

/// A medium that is kept names where it is.
pub proof fn law_kept_medium(a: Seq<char>, b: Seq<char>)
    ensures
        source_json(MediaSourceView::Url(a)).get("source"@) == text_value("url"@),
        source_json(MediaSourceView::Url(a)).get("url"@) == text_value(a),
        source_json(MediaSourceView::Base64(a, b)).get("source"@) == text_value("base64"@),
        source_json(MediaSourceView::Base64(a, b)).get("mime"@) == text_value(a),
        source_json(MediaSourceView::Base64(a, b)).get("data"@) == text_value(b),
        source_json(MediaSourceView::FileId(a)).get("source"@) == text_value("file_id"@),
        source_json(MediaSourceView::FileId(a)).get("file_id"@) == text_value(a),
{
    lemma_part_keys();
    lemma_nothing();
    let e = empty_object();
    let ta = JsonView::Text(a);
    let tb = JsonView::Text(b);
    lemma_plus(e, "source"@, JsonView::Text("url"@));
    lemma_plus(e.plus("source"@, JsonView::Text("url"@)), "url"@, ta);
    lemma_plus(e, "data"@, tb);
    lemma_plus(e.plus("data"@, tb), "mime"@, ta);
    lemma_plus(e.plus("data"@, tb).plus("mime"@, ta), "source"@, JsonView::Text("base64"@));
    lemma_plus(e, "file_id"@, ta);
    lemma_plus(e.plus("file_id"@, ta), "source"@, JsonView::Text("file_id"@));
}

/// A part that is kept names its kind.
pub proof fn law_kept_part(p: ContentPartView)
    ensures
        p matches ContentPartView::Text(t) ==> part_json(p).get("type"@) == text_value("text"@)
            && part_json(p).get("text"@) == text_value(t),
        p matches ContentPartView::Image(s, d) ==> part_json(p).get("type"@) == text_value(
            "image"@,
        ) && part_json(p).get("source"@) == Some(source_json(s)) && part_json(p).get("detail"@) == (
        match d {
            Some(ImageDetail::Low) => text_value("low"@),
            Some(ImageDetail::High) => text_value("high"@),
            Some(ImageDetail::Original) => text_value("original"@),
            Some(ImageDetail::Auto) => text_value("auto"@),
            None => None,
        }),
        p matches ContentPartView::Audio(s) ==> part_json(p).get("type"@) == text_value("audio"@)
            && part_json(p).get("source"@) == Some(source_json(s)),
        p matches ContentPartView::Video(s, params) ==> part_json(p).get("type"@) == text_value(
            "video"@,
        ) && part_json(p).get("source"@) == Some(source_json(s)) && (part_json(p).get(
            "params"@,
        ) matches Some(k) && k.get("fps"@) == Some(
            match params.fps {
                Some(n) => JsonView::Number(n),
                None => JsonView::Null,
            },
        ) && k.get("media_resolution"@) == Some(
            match params.media_resolution {
                Some(MediaResolution::Default) => JsonView::Text("default"@),
                Some(MediaResolution::Max) => JsonView::Text("max"@),
                None => JsonView::Null,
            },
        )),
{
    lemma_part_keys();
    lemma_nothing();
    let e = empty_object();
    match p {
        ContentPartView::Text(t) => {
            lemma_plus(e, "text"@, JsonView::Text(t));
            lemma_plus(e.plus("text"@, JsonView::Text(t)), "type"@, JsonView::Text("text"@));
        },
        ContentPartView::Image(s, d) => {
            let dv = match d {
                Some(x) => Some(JsonView::Text(detail_name(x))),
                None => None,
            };
            lemma_opt(e, "detail"@, dv);
            let a = with_opt(e, "detail"@, dv);
            lemma_plus(a, "source"@, source_json(s));
            lemma_plus(a.plus("source"@, source_json(s)), "type"@, JsonView::Text("image"@));
        },
        ContentPartView::Audio(s) => {
            lemma_plus(e, "source"@, source_json(s));
            lemma_plus(e.plus("source"@, source_json(s)), "type"@, JsonView::Text("audio"@));
        },
        ContentPartView::Video(s, params) => {
            let f = match params.fps {
                Some(n) => JsonView::Number(n),
                None => JsonView::Null,
            };
            let r = match params.media_resolution {
                Some(r) => JsonView::Text(crate::codec::resolution_name(r)),
                None => JsonView::Null,
            };
            lemma_plus(e, "fps"@, f);
            lemma_plus(e.plus("fps"@, f), "media_resolution"@, r);
            lemma_plus(e, "params"@, params_json(params));
            let a = e.plus("params"@, params_json(params));
            lemma_plus(a, "source"@, source_json(s));
            lemma_plus(a.plus("source"@, source_json(s)), "type"@, JsonView::Text("video"@));
        },
    }
}

/// A declaration that is kept.
pub proof fn law_kept_declaration(t: ToolDeclarationView)
    ensures
        declaration_json(t).get("name"@) == text_value(t.name),
        declaration_json(t).get("description"@) == text_value(t.description),
        declaration_json(t).get("parameters"@) == Some(t.parameters),
{
    lemma_call_keys();
    let e0 = empty_object();
    lemma_nothing();
    let v0 = JsonView::Text(t.description);
    lemma_plus(e0, "description"@, v0);
    let j0 = e0.plus("description"@, v0);
    let v1 = JsonView::Text(t.name);
    lemma_plus(j0, "name"@, v1);
    let j1 = j0.plus("name"@, v1);
    let v2 = t.parameters;
    lemma_plus(j1, "parameters"@, v2);
    let j2 = j1.plus("parameters"@, v2);
}

/// Options that are kept; what is not set is null.
pub proof fn law_kept_options(o: ChatOptionsView)
    ensures
        options_json(o).get("max_tokens"@) == Some(
            match o.max_tokens {
                Some(n) => JsonView::Number(NumberView::Unsigned(n as u64)),
                None => JsonView::Null,
            },
        ),
        options_json(o).get("system_prompt"@) == Some(
            match o.system_prompt {
                Some(t) => JsonView::Text(t),
                None => JsonView::Null,
            },
        ),
        options_json(o).get("temperature"@) == Some(
            match o.temperature {
                Some(n) => JsonView::Number(n),
                None => JsonView::Null,
            },
        ),
        options_json(o).get("thinking"@) matches Some(t) && t.get("enabled"@) == Some(
            JsonView::Bool(o.thinking.enabled),
        ) && t.get("effort"@) == Some(
            match o.thinking.effort {
                Some(ReasoningEffort::Low) => JsonView::Text("low"@),
                Some(ReasoningEffort::High) => JsonView::Text("high"@),
                Some(ReasoningEffort::Max) => JsonView::Text("max"@),
                None => JsonView::Null,
            },
        ),
        options_json(o).get("tools"@) matches Some(JsonView::List(l)) && l.len() == o.tools.len()
            && forall|i: int|
            0 <= i < l.len() ==> #[trigger] l[i] == declaration_json(o.tools[i]),
{
    lemma_option_keys();
    let th = empty_object();
    lemma_nothing();
    let ev = effort_json(o.thinking.effort);
    lemma_plus(th, "effort"@, ev);
    lemma_plus(th.plus("effort"@, ev), "enabled"@, JsonView::Bool(o.thinking.enabled));
    let e0 = empty_object();
    lemma_nothing();
    let v0 = or_null(opt_count(o.max_tokens));
    lemma_plus(e0, "max_tokens"@, v0);
    let j0 = e0.plus("max_tokens"@, v0);
    let v1 = or_null(opt_text(o.system_prompt));
    lemma_plus(j0, "system_prompt"@, v1);
    let j1 = j0.plus("system_prompt"@, v1);
    let v2 = temperature_json(o.temperature);
    lemma_plus(j1, "temperature"@, v2);
    let j2 = j1.plus("temperature"@, v2);
    let v3 = thinking_json(o.thinking);
    lemma_plus(j2, "thinking"@, v3);
    let j3 = j2.plus("thinking"@, v3);
    let v4 = JsonView::List(declarations_json(o.tools));
    lemma_plus(j3, "tools"@, v4);
    let j4 = j3.plus("tools"@, v4);
}

/// Options that say nothing are the usual ones.
pub proof fn law_unsaid_options(fields: Seq<(Seq<char>, JsonView)>)
    requires
        fields.len() == 0,
    ensures
        read_options(JsonView::Object(fields)) matches Some(o) && o.tools.len() == 0
            && o.temperature is None && o.max_tokens is None && o.system_prompt is None
            && o.thinking.enabled && o.thinking.effort is None,
        read_thinking(JsonView::Object(fields)) == Some(
            (ThinkingConfig { enabled: true, effort: None }),
        ),
        read_options_at(JsonView::Object(fields)) matches Some(o) && o.tools.len() == 0
            && o.thinking.enabled,
        read_depth_at(JsonView::Object(fields)) == Some(0u32),
        read_kind_at(JsonView::Object(fields)) == Some(ErrorKind::Internal),
        read_wait_at(JsonView::Object(fields)) == Some(None::<u64>),
{
    assert(fields =~= Seq::empty());
}

/// A request to a session names its kind and its session, and carries what it asks.
pub proof fn law_kept_request(m: SessionMessageView)
    ensures
        asked_json(m).get("session_id"@) == text_value(id_text(m.asked())),
        m matches SessionMessageView::Chat(id, p) ==> m.asked() == id && asked_json(m).get(
            "kind"@,
        ) == text_value("chat"@) && asked_json(m).get("message"@) == Some(message_json(p.message))
            && asked_json(m).get("options"@) == Some(options_json(p.options)) && asked_json(m).get(
            "peer_depth"@,
        ) == count_value(p.peer_depth as int),
        m matches SessionMessageView::Interrupt(id) ==> m.asked() == id && asked_json(m).get(
            "kind"@,
        ) == text_value("interrupt"@),
        m matches SessionMessageView::ToolResult(id, turn, call, result) ==> m.asked() == id
            && asked_json(m).get("kind"@) == text_value("tool_result"@) && asked_json(m).get(
            "turn_id"@,
        ) == count_value(turn as int) && asked_json(m).get("tool_call_id"@) == text_value(call)
            && asked_json(m).get("result"@) == text_value(result),
        m matches SessionMessageView::Resume(id, turn) ==> m.asked() == id && asked_json(m).get(
            "kind"@,
        ) == text_value("resume"@) && asked_json(m).get("turn_id"@) == count_value(turn as int),
        m.urgency() == (if m is Interrupt {
            0u8
        } else {
            100u8
        }),
{
    lemma_asked_keys();
    let sid = JsonView::Text(id_text(m.asked()));
    match m {
        SessionMessageView::Chat(id, p) => {
            let e0 = empty_object();
            lemma_nothing();
            let v0 = JsonView::Text("chat"@);
            lemma_plus(e0, "kind"@, v0);
            let j0 = e0.plus("kind"@, v0);
            let v1 = message_json(p.message);
            lemma_plus(j0, "message"@, v1);
            let j1 = j0.plus("message"@, v1);
            let v2 = options_json(p.options);
            lemma_plus(j1, "options"@, v2);
            let j2 = j1.plus("options"@, v2);
            let v3 = number_json(p.peer_depth as u64);
            lemma_plus(j2, "peer_depth"@, v3);
            let j3 = j2.plus("peer_depth"@, v3);
            let v4 = sid;
            lemma_plus(j3, "session_id"@, v4);
            let j4 = j3.plus("session_id"@, v4);
        },
        SessionMessageView::Interrupt(id) => {
            let e0 = empty_object();
            lemma_nothing();
            let v0 = JsonView::Text("interrupt"@);
            lemma_plus(e0, "kind"@, v0);
            let j0 = e0.plus("kind"@, v0);
            let v1 = sid;
            lemma_plus(j0, "session_id"@, v1);
            let j1 = j0.plus("session_id"@, v1);
        },
        SessionMessageView::ToolResult(id, turn, call, result) => {
            let e0 = empty_object();
            lemma_nothing();
            let v0 = JsonView::Text("tool_result"@);
            lemma_plus(e0, "kind"@, v0);
            let j0 = e0.plus("kind"@, v0);
            let v1 = JsonView::Text(result);
            lemma_plus(j0, "result"@, v1);
            let j1 = j0.plus("result"@, v1);
            let v2 = sid;
            lemma_plus(j1, "session_id"@, v2);
            let j2 = j1.plus("session_id"@, v2);
            let v3 = JsonView::Text(call);
            lemma_plus(j2, "tool_call_id"@, v3);
            let j3 = j2.plus("tool_call_id"@, v3);
            let v4 = number_json(turn);
            lemma_plus(j3, "turn_id"@, v4);
            let j4 = j3.plus("turn_id"@, v4);
        },
        SessionMessageView::Resume(id, turn) => {
            let e0 = empty_object();
            lemma_nothing();
            let v0 = JsonView::Text("resume"@);
            lemma_plus(e0, "kind"@, v0);
            let j0 = e0.plus("kind"@, v0);
            let v1 = sid;
            lemma_plus(j0, "session_id"@, v1);
            let j1 = j0.plus("session_id"@, v1);
            let v2 = number_json(turn);
            lemma_plus(j1, "turn_id"@, v2);
            let j2 = j1.plus("turn_id"@, v2);
        },
    }
}

/// A reply of a session names its kind, and carries what it says.
pub proof fn law_kept_reply(m: SessionReplyView)
    ensures
        m matches SessionReplyView::Success(r) ==> reply_json(m).get("reply"@) == text_value(
            "success"@,
        ) && reply_json(m).get("id"@) == text_value(r.id) && reply_json(m).get("model"@)
            == text_value(r.model) && reply_json(m).get("message"@) == Some(message_json(r.message))
            && reply_json(m).get("finish_reason"@) == Some(finish_json(r.finish_reason))
            && reply_json(m).get("usage"@) == Some(
            match r.usage {
                Some(u) => usage_json(u),
                None => JsonView::Null,
            },
        ),
        m matches SessionReplyView::Busy(turn) ==> reply_json(m).get("reply"@) == text_value(
            "busy"@,
        ) && reply_json(m).get("turn_id"@) == count_value(turn as int),
        m matches SessionReplyView::Error(text, kind, wait) ==> reply_json(m).get("reply"@)
            == text_value("error"@) && reply_json(m).get("message"@) == text_value(text)
            && reply_json(m).get("kind"@) == (match kind {
            ErrorKind::Timeout => text_value("timeout"@),
            ErrorKind::RateLimited => text_value("rate_limited"@),
            ErrorKind::Llm => text_value("llm"@),
            ErrorKind::Budget => text_value("budget"@),
            ErrorKind::Internal => text_value("internal"@),
        }) && reply_json(m).get("retry_after_ms"@) == Some(
            match wait {
                Some(n) => JsonView::Number(NumberView::Unsigned(n)),
                None => JsonView::Null,
            },
        ),
        m is Cancelled ==> reply_json(m).get("reply"@) == text_value("cancelled"@),
        m matches SessionReplyView::Unhandled(why) ==> reply_json(m).get("reply"@) == text_value(
            "unhandled"@,
        ) && reply_json(m).get("reason"@) == text_value(why),
{
    lemma_reply_keys();
    match m {
        SessionReplyView::Success(r) => {
            let e0 = empty_object();
            lemma_nothing();
            let v0 = finish_json(r.finish_reason);
            lemma_plus(e0, "finish_reason"@, v0);
            let j0 = e0.plus("finish_reason"@, v0);
            let v1 = JsonView::Text(r.id);
            lemma_plus(j0, "id"@, v1);
            let j1 = j0.plus("id"@, v1);
            let v2 = message_json(r.message);
            lemma_plus(j1, "message"@, v2);
            let j2 = j1.plus("message"@, v2);
            let v3 = JsonView::Text(r.model);
            lemma_plus(j2, "model"@, v3);
            let j3 = j2.plus("model"@, v3);
            let v4 = JsonView::Text("success"@);
            lemma_plus(j3, "reply"@, v4);
            let j4 = j3.plus("reply"@, v4);
            let v5 = usage_or_null(r.usage);
            lemma_plus(j4, "usage"@, v5);
            let j5 = j4.plus("usage"@, v5);
        },
        SessionReplyView::Busy(turn) => {
            let e0 = empty_object();
            lemma_nothing();
            let v0 = JsonView::Text("busy"@);
            lemma_plus(e0, "reply"@, v0);
            let j0 = e0.plus("reply"@, v0);
            let v1 = number_json(turn);
            lemma_plus(j0, "turn_id"@, v1);
            let j1 = j0.plus("turn_id"@, v1);
        },
        SessionReplyView::Error(text, kind, wait) => {
            let e0 = empty_object();
            lemma_nothing();
            let v0 = JsonView::Text(kind_name(kind));
            lemma_plus(e0, "kind"@, v0);
            let j0 = e0.plus("kind"@, v0);
            let v1 = JsonView::Text(text);
            lemma_plus(j0, "message"@, v1);
            let j1 = j0.plus("message"@, v1);
            let v2 = JsonView::Text("error"@);
            lemma_plus(j1, "reply"@, v2);
            let j2 = j1.plus("reply"@, v2);
            let v3 = wait_or_null(wait);
            lemma_plus(j2, "retry_after_ms"@, v3);
            let j3 = j2.plus("retry_after_ms"@, v3);
        },
        SessionReplyView::Cancelled => {
            let e0 = empty_object();
            lemma_nothing();
            let v0 = JsonView::Text("cancelled"@);
            lemma_plus(e0, "reply"@, v0);
            let j0 = e0.plus("reply"@, v0);
        },
        SessionReplyView::Unhandled(why) => {
            let e0 = empty_object();
            lemma_nothing();
            let v0 = JsonView::Text(why);
            lemma_plus(e0, "reason"@, v0);
            let j0 = e0.plus("reason"@, v0);
            let v1 = JsonView::Text("unhandled"@);
            lemma_plus(j0, "reply"@, v1);
            let j1 = j0.plus("reply"@, v1);
        },
    }
}

/// Why a model stopped, as it is kept.
pub proof fn law_kept_reason(s: Seq<char>)
    ensures
        finish_json(FinishReasonView::Stop) == JsonView::Text("stop"@),
        finish_json(FinishReasonView::Length) == JsonView::Text("length"@),
        finish_json(FinishReasonView::ToolCalls) == JsonView::Text("tool_calls"@),
        finish_json(FinishReasonView::Other(s)).get("other"@) == text_value(s),
{
    lemma_nothing();
    lemma_plus(empty_object(), "other"@, JsonView::Text(s));
}

/// Digits to the base of sixteen, from the greatest down, are those of the number.
pub proof fn law_hex(n: nat, width: nat)
    ensures
        hex(n, width).len() == width,
        width > 0 ==> hex(n, width).last() == hex_digit(n % 16),
        width > 0 ==> hex(n, width).drop_last() == hex(n / 16, (width - 1) as nat),
        hex_digit(0) == '0',
        hex_digit(9) == '9',
        hex_digit(10) == 'a',
        hex_digit(15) == 'f',
    decreases width,
{
    if width > 0 {
        law_hex(n / 16, (width - 1) as nat);
        assert(hex(n, width).drop_last() =~= hex(n / 16, (width - 1) as nat));
    }
}

/// The text of an identity has five groups of digits, parted by signs.
pub proof fn law_id_text(id: SessionId)
    ensures
        id_text(id).len() == 36,
        id_text(id)[8] == '-',
        id_text(id)[13] == '-',
        id_text(id)[18] == '-',
        id_text(id)[23] == '-',
        id_text(id).last() == hex_digit(id.lo as nat % 16),
        id_text(id).subrange(24, 36) == hex(id.lo as nat, 12),
        id_text(id).subrange(0, 8) == hex(id.hi as nat / 0x1_0000_0000, 8),
{
    reveal_strlit("-");
    assert("-"@.len() == 1);
    assert("-"@[0] == '-');
    law_hex(id.hi as nat / 0x1_0000_0000, 8);
    law_hex(id.hi as nat / 0x1_0000, 4);
    law_hex(id.hi as nat, 4);
    law_hex(id.lo as nat / 0x1_0000_0000_0000, 4);
    law_hex(id.lo as nat, 12);
    assert(id_text(id).subrange(24, 36) =~= hex(id.lo as nat, 12));
    assert(id_text(id).subrange(0, 8) =~= hex(id.hi as nat / 0x1_0000_0000, 8));
}

/// A text that holds no request, and an envelope that holds no text, are told apart.
pub proof fn law_unread_request(
    env: crate::session::message::Envelope,
    text: Seq<char>,
    j: JsonView,
    m: SessionMessageView,
    why: Seq<char>,
)
    ensures
        env.lookup("_msg"@) is None ==> crate::session::codec::asked_by(env) == Err::<
            SessionMessageView,
            MessageErrorView,
        >(MessageErrorView::MissingKey("_msg"@)),
        env.lookup("_msg"@) == Some(text) ==> crate::session::codec::asked_by(env)
            == crate::session::codec::asked_in(text),
        parsed(text) == Err::<JsonView, Seq<char>>(why) ==> crate::session::codec::asked_in(text)
            == Err::<SessionMessageView, MessageErrorView>(MessageErrorView::Decode(why)),
        parsed(text) == Ok::<JsonView, Seq<char>>(j) && read_asked(j) == Some(m)
            ==> crate::session::codec::asked_in(text) == Ok::<SessionMessageView, MessageErrorView>(
            m,
        ),
        parsed(text) == Ok::<JsonView, Seq<char>>(j) && read_asked(j) is None
            ==> crate::session::codec::asked_in(text) is Err,
{
}

/// The same of a reply.
pub proof fn law_unread_reply(
    env: crate::session::message::Envelope,
    text: Seq<char>,
    j: JsonView,
    m: SessionReplyView,
    why: Seq<char>,
)
    ensures
        env.lookup("_reply"@) is None ==> crate::session::codec::reply_by(env) == Err::<
            SessionReplyView,
            MessageErrorView,
        >(MessageErrorView::MissingKey("_reply"@)),
        env.lookup("_reply"@) == Some(text) ==> crate::session::codec::reply_by(env)
            == crate::session::codec::reply_in(text),
        parsed(text) == Err::<JsonView, Seq<char>>(why) ==> crate::session::codec::reply_in(text)
            == Err::<SessionReplyView, MessageErrorView>(MessageErrorView::Decode(why)),
        parsed(text) == Ok::<JsonView, Seq<char>>(j) && read_reply(j) == Some(m)
            ==> crate::session::codec::reply_in(text) == Ok::<SessionReplyView, MessageErrorView>(
            m,
        ),
        parsed(text) == Ok::<JsonView, Seq<char>>(j) && read_reply(j) is None
            ==> crate::session::codec::reply_in(text) is Err,
{
}

/// A request of a kind that there is not, or without a session, is none; so is a reply of
/// a kind that there is not.
pub proof fn law_no_request(j: JsonView, kind: Seq<char>)
    ensures
        j.get("kind"@) is None || j.get("session_id"@) is None ==> read_asked(j) is None,
        j.get("kind"@) == text_value(kind) && kind != "chat"@ && kind != "interrupt"@ && kind
            != "tool_result"@ && kind != "resume"@ ==> read_asked(j) is None,
        j.get("reply"@) is None ==> read_reply(j) is None,
        j.get("reply"@) == text_value(kind) && kind != "success"@ && kind != "busy"@ && kind
            != "error"@ && kind != "cancelled"@ && kind != "unhandled"@ ==> read_reply(j) is None,
{
}

/// A message is read only from what says all of it: its role by name, its content as a text
/// or as parts, and nothing of another kind where something else is said.
pub proof fn law_message_was_kept(j: JsonView, m: MessageView)
    requires
        read_message(j) == Some(m),
    ensures
        m.role == Role::System ==> j.get("role"@) == text_value("system"@),
        m.role == Role::User ==> j.get("role"@) == text_value("user"@),
        m.role == Role::Assistant ==> j.get("role"@) == text_value("assistant"@),
        m.role == Role::Tool ==> j.get("role"@) == text_value("tool"@),
        m.content matches MessageContentView::Text(t) ==> j.get("content"@) == text_value(t),
        m.content is Multimodal ==> (j.get("content"@) matches Some(JsonView::List(_))),
        m.reasoning_content matches Some(t) ==> j.get("reasoning_content"@) == text_value(t),
        m.reasoning_content is None ==> j.get("reasoning_content"@) is None || j.get(
            "reasoning_content"@,
        ) == Some(JsonView::Null),
        m.tool_call_id matches Some(t) ==> j.get("tool_call_id"@) == text_value(t),
        m.tool_call_id is None ==> j.get("tool_call_id"@) is None || j.get("tool_call_id"@) == Some(
            JsonView::Null,
        ),
        m.tool_calls.len() > 0 ==> (j.get("tool_calls"@) matches Some(JsonView::List(_))),
        m.usage is Some ==> j.get("usage"@) is Some,
{
}

/// A call is read only from what says its id, its name and its arguments.
pub proof fn law_call_was_kept(j: JsonView, c: ToolCallView)
    requires
        read_call(j) == Some(c),
    ensures
        j.get("id"@) == text_value(c.id),
        j.get("function"@) matches Some(f) && f.get("name"@) == text_value(c.name) && f.get(
            "arguments"@,
        ) == text_value(c.arguments),
{
}

/// Counts are read only from what says the three that are always told.
pub proof fn law_usage_was_kept(j: JsonView, u: TokenUsage)
    requires
        read_usage(j) == Some(u),
    ensures
        j.get("prompt_tokens"@) == count_value(u.prompt_tokens as int),
        j.get("completion_tokens"@) == count_value(u.completion_tokens as int),
        j.get("total_tokens"@) == count_value(u.total_tokens as int),
        u.reasoning_tokens matches Some(n) ==> j.get("reasoning_tokens"@) == count_value(n as int),
        u.cache_read_tokens matches Some(n) ==> j.get("cache_read_tokens"@) == count_value(
            n as int,
        ),
        u.cache_write_tokens matches Some(n) ==> j.get("cache_write_tokens"@) == count_value(
            n as int,
        ),
{
}

/// A request is read only from what names its kind and carries all of it.
pub proof fn law_request_was_kept(j: JsonView, m: SessionMessageView)
    requires
        read_asked(j) == Some(m),
    ensures
        j.get("session_id"@) is Some,
        m is Chat ==> j.get("kind"@) == text_value("chat"@) && j.get("message"@) is Some,
        m is Interrupt ==> j.get("kind"@) == text_value("interrupt"@),
        m matches SessionMessageView::ToolResult(id, turn, call, result) ==> j.get("kind"@)
            == text_value("tool_result"@) && j.get("turn_id"@) == count_value(turn as int) && j.get(
            "tool_call_id"@,
        ) == text_value(call) && j.get("result"@) == text_value(result),
        m matches SessionMessageView::Resume(id, turn) ==> j.get("kind"@) == text_value("resume"@)
            && j.get("turn_id"@) == count_value(turn as int),
{
}

/// A reply is read only from what names its kind and carries all of it.
pub proof fn law_reply_was_kept(j: JsonView, m: SessionReplyView)
    requires
        read_reply(j) == Some(m),
    ensures
        m matches SessionReplyView::Success(r) ==> j.get("reply"@) == text_value("success"@)
            && j.get("id"@) == text_value(r.id) && j.get("model"@) == text_value(r.model) && j.get(
            "message"@,
        ) is Some && j.get("finish_reason"@) is Some,
        m matches SessionReplyView::Busy(turn) ==> j.get("reply"@) == text_value("busy"@) && j.get(
            "turn_id"@,
        ) == count_value(turn as int),
        m matches SessionReplyView::Error(text, kind, wait) ==> j.get("reply"@) == text_value(
            "error"@,
        ) && j.get("message"@) == text_value(text) && (wait matches Some(n) ==> j.get(
            "retry_after_ms"@,
        ) == count_value(n as int)),
        m is Cancelled ==> j.get("reply"@) == text_value("cancelled"@),
        m matches SessionReplyView::Unhandled(why) ==> j.get("reply"@) == text_value("unhandled"@)
            && j.get("reason"@) == text_value(why),
{
}

} // verus!
