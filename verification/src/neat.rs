//! The forms of messages are neat: their text is read back as it was written.

use vstd::prelude::*;
use vstd::string::*;

use crate::codec::{
    call_json, calls_json, content_json, count_json, detail_name, empty_object, message_json,
    opt_count, opt_text, params_json, part_json, parts_json, source_json, usage_json, with_opt,
};
use crate::json::{lemma_neat_more, neat, raw_mark, JsonView, NumberView};
use crate::provider::content::{ContentPartView, MediaSourceView, VideoParamsView};
use crate::provider::openai_compat::role_name;
use crate::provider::{MessageContentView, MessageView, TokenUsage, ToolCallView};
use crate::text::{law_precedes_total, law_precedes_transitive, precedes};

verus! {

broadcast use vstd::string::group_string_axioms;

/// Whether every name of an object comes before a name, and so does the mark of raw
/// text.
pub open spec fn below(j: JsonView, key: Seq<char>) -> bool {
    &&& precedes(raw_mark(), key)
    &&& j matches JsonView::Object(fields)
    &&& forall|i: int| 0 <= i < fields.len() ==> precedes((#[trigger] fields[i]).0, key)
}

/// One text comes before another where they first differ, or where it ends.
pub proof fn lemma_precedes_at(a: Seq<char>, b: Seq<char>, n: int)
    requires
        0 <= n <= a.len(),
        n < b.len(),
        forall|i: int| 0 <= i < n ==> #[trigger] a[i] == b[i],
        n < a.len() ==> a[n] < b[n],
    ensures
        precedes(a, b),
    decreases n,
{
    if n > 0 {
        assert(a[0] == b[0]);
        assert forall|i: int| 0 <= i < n - 1 implies #[trigger] a.drop_first()[i]
            == b.drop_first()[i] by {
            assert(a[i + 1] == b[i + 1]);
        }
        lemma_precedes_at(a.drop_first(), b.drop_first(), n - 1);
    }
}

/// A neat object with a neat field behind its others is neat.
pub proof fn lemma_neat_plus(j: JsonView, key: Seq<char>, v: JsonView, next: Seq<char>, n: nat)
    requires
        neat(j, n),
        below(j, key),
        n > 0,
        neat(v, (n - 1) as nat),
        precedes(key, next),
    ensures
        neat(j.plus(key, v), n),
        below(j.plus(key, v), next),
{
    law_precedes_transitive(raw_mark(), key, next);
    law_precedes_total(raw_mark(), key);
    if let JsonView::Object(fields) = j {
        let after = fields.push((key, v));
        assert forall|i: int| 0 <= i < after.len() implies precedes(
            (#[trigger] after[i]).0,
            next,
        ) && neat(after[i].1, (n - 1) as nat) by {
            if i < fields.len() {
                assert(after[i] == fields[i]);
                law_precedes_transitive(fields[i].0, key, next);
            }
        }
        assert forall|a: int, b: int| 0 <= a < b < after.len() implies precedes(
            (#[trigger] after[a]).0,
            (#[trigger] after[b]).0,
        ) by {
            assert(after[a] == fields[a]);
            if b < fields.len() {
                assert(after[b] == fields[b]);
            }
        }
    }
}

/// The same of a field that may be absent.
pub proof fn lemma_neat_opt(
    j: JsonView,
    key: Seq<char>,
    v: Option<JsonView>,
    next: Seq<char>,
    n: nat,
)
    requires
        neat(j, n),
        below(j, key),
        n > 0,
        v matches Some(x) ==> neat(x, (n - 1) as nat),
        precedes(key, next),
    ensures
        neat(with_opt(j, key, v), n),
        below(with_opt(j, key, v), next),
{
    law_precedes_transitive(raw_mark(), key, next);
    match v {
        Some(x) => {
            lemma_neat_plus(j, key, x, next, n);
        },
        None => {
            if let JsonView::Object(fields) = j {
                assert forall|i: int| 0 <= i < fields.len() implies precedes(
                    (#[trigger] fields[i]).0,
                    next,
                ) by {
                    law_precedes_transitive(fields[i].0, key, next);
                }
            }
        },
    }
}

/// An object without fields is neat, and below every name that starts with a
/// character behind the one that starts the mark of raw text.
pub proof fn lemma_neat_empty(key: Seq<char>, n: nat)
    requires
        n > 0,
        key.len() > 0,
        key[0] > '$',
    ensures
        neat(empty_object(), n),
        below(empty_object(), key),
{
    reveal_strlit("$serde_json::private::RawValue");
    lemma_first(raw_mark(), key);
}

/// The names of forms that start with different characters are in order.
proof fn lemma_first(a: Seq<char>, b: Seq<char>)
    requires
        a.len() > 0,
        b.len() > 0,
        a[0] < b[0],
    ensures
        precedes(a, b),
{
}

proof fn lemma_source_is_neat(s: MediaSourceView)
    ensures
        neat(source_json(s), 1),
{
    reveal_strlit("source");
    reveal_strlit("url");
    reveal_strlit("file_id");
    reveal_strlit("mime");
    reveal_strlit("data");
    reveal_strlit("~");
    lemma_first("source"@, "url"@);
    lemma_first("url"@, "~"@);
    lemma_first("data"@, "mime"@);
    lemma_first("mime"@, "source"@);
    lemma_first("source"@, "~"@);
    lemma_first("file_id"@, "source"@);
    match s {
        MediaSourceView::Url(url) => {
            lemma_neat_empty("source"@, 1);
            let a = empty_object().plus("source"@, JsonView::Text("url"@));
            lemma_neat_plus(empty_object(), "source"@, JsonView::Text("url"@), "url"@, 1);
            lemma_neat_plus(a, "url"@, JsonView::Text(url), "~"@, 1);
        },
        MediaSourceView::Base64(mime, data) => {
            lemma_neat_empty("data"@, 1);
            let a = empty_object().plus("data"@, JsonView::Text(data));
            let b = a.plus("mime"@, JsonView::Text(mime));
            lemma_neat_plus(empty_object(), "data"@, JsonView::Text(data), "mime"@, 1);
            lemma_neat_plus(a, "mime"@, JsonView::Text(mime), "source"@, 1);
            lemma_neat_plus(b, "source"@, JsonView::Text("base64"@), "~"@, 1);
        },
        MediaSourceView::FileId(id) => {
            lemma_neat_empty("file_id"@, 1);
            let a = empty_object().plus("file_id"@, JsonView::Text(id));
            lemma_neat_plus(empty_object(), "file_id"@, JsonView::Text(id), "source"@, 1);
            lemma_neat_plus(a, "source"@, JsonView::Text("file_id"@), "~"@, 1);
        },
    }
}

/// Whether a number is whole.
pub open spec fn whole(n: NumberView) -> bool {
    match n {
        NumberView::Unsigned(_) => true,
        NumberView::Negative(i) => i < 0,
        NumberView::Decimal(_) => false,
    }
}

/// Whether the numbers of a part are whole.
pub open spec fn whole_part(p: ContentPartView) -> bool {
    match p {
        ContentPartView::Video(_, params) => params.fps matches Some(n) ==> whole(n),
        _ => true,
    }
}

/// Whether the numbers of a message are whole.
pub open spec fn whole_message(m: MessageView) -> bool {
    m.content matches MessageContentView::Multimodal(ps) ==> forall|i: int|
        0 <= i < ps.len() ==> whole_part(#[trigger] ps[i])
}

proof fn lemma_params_are_neat(p: VideoParamsView)
    requires
        p.fps matches Some(n) ==> whole(n),
    ensures
        neat(params_json(p), 1),
{
    reveal_strlit("fps");
    reveal_strlit("media_resolution");
    reveal_strlit("~");
    lemma_first("fps"@, "media_resolution"@);
    lemma_first("media_resolution"@, "~"@);
    lemma_neat_empty("fps"@, 1);
    let fps = match p.fps {
        Some(n) => JsonView::Number(n),
        None => JsonView::Null,
    };
    let res = match p.media_resolution {
        Some(r) => JsonView::Text(crate::codec::resolution_name(r)),
        None => JsonView::Null,
    };
    lemma_neat_plus(empty_object(), "fps"@, fps, "media_resolution"@, 1);
    lemma_neat_plus(empty_object().plus("fps"@, fps), "media_resolution"@, res, "~"@, 1);
}

proof fn lemma_part_is_neat(p: ContentPartView)
    requires
        whole_part(p),
    ensures
        neat(part_json(p), 2),
{
    reveal_strlit("type");
    reveal_strlit("text");
    reveal_strlit("source");
    reveal_strlit("detail");
    reveal_strlit("params");
    reveal_strlit("~");
    lemma_first("detail"@, "source"@);
    lemma_first("source"@, "type"@);
    lemma_first("params"@, "source"@);
    lemma_first("type"@, "~"@);
    assert("text"@[0] == "type"@[0]);
    lemma_precedes_at("text"@, "type"@, 1);
    match p {
        ContentPartView::Text(text) => {
            lemma_neat_empty("text"@, 2);
            let a = empty_object().plus("text"@, JsonView::Text(text));
            lemma_neat_plus(empty_object(), "text"@, JsonView::Text(text), "type"@, 2);
            lemma_neat_plus(a, "type"@, JsonView::Text("text"@), "~"@, 2);
        },
        ContentPartView::Image(source, detail) => {
            lemma_source_is_neat(source);
            lemma_neat_empty("detail"@, 2);
            let d = match detail {
                Some(x) => Some(JsonView::Text(detail_name(x))),
                None => None,
            };
            let a = with_opt(empty_object(), "detail"@, d);
            let b = a.plus("source"@, source_json(source));
            lemma_neat_opt(empty_object(), "detail"@, d, "source"@, 2);
            lemma_neat_plus(a, "source"@, source_json(source), "type"@, 2);
            lemma_neat_plus(b, "type"@, JsonView::Text("image"@), "~"@, 2);
        },
        ContentPartView::Audio(source) => {
            lemma_source_is_neat(source);
            lemma_neat_empty("source"@, 2);
            let a = empty_object().plus("source"@, source_json(source));
            lemma_neat_plus(empty_object(), "source"@, source_json(source), "type"@, 2);
            lemma_neat_plus(a, "type"@, JsonView::Text("audio"@), "~"@, 2);
        },
        ContentPartView::Video(source, params) => {
            lemma_source_is_neat(source);
            lemma_params_are_neat(params);
            lemma_neat_empty("params"@, 2);
            let a = empty_object().plus("params"@, params_json(params));
            let b = a.plus("source"@, source_json(source));
            lemma_neat_plus(empty_object(), "params"@, params_json(params), "source"@, 2);
            lemma_neat_plus(a, "source"@, source_json(source), "type"@, 2);
            lemma_neat_plus(b, "type"@, JsonView::Text("video"@), "~"@, 2);
        },
    }
}

proof fn lemma_call_is_neat(c: ToolCallView)
    ensures
        neat(call_json(c), 2),
{
    reveal_strlit("id");
    reveal_strlit("function");
    reveal_strlit("name");
    reveal_strlit("arguments");
    reveal_strlit("~");
    lemma_first("arguments"@, "name"@);
    lemma_first("name"@, "~"@);
    lemma_first("function"@, "id"@);
    lemma_first("id"@, "~"@);
    lemma_neat_empty("arguments"@, 1);
    let a = empty_object().plus("arguments"@, JsonView::Text(c.arguments));
    let f = a.plus("name"@, JsonView::Text(c.name));
    lemma_neat_plus(empty_object(), "arguments"@, JsonView::Text(c.arguments), "name"@, 1);
    lemma_neat_plus(a, "name"@, JsonView::Text(c.name), "~"@, 1);
    lemma_neat_empty("function"@, 2);
    let b = empty_object().plus("function"@, f);
    lemma_neat_plus(empty_object(), "function"@, f, "id"@, 2);
    lemma_neat_plus(b, "id"@, JsonView::Text(c.id), "~"@, 2);
}

/// The names of token counts are in order.
proof fn lemma_usage_names()
    ensures
        precedes("cache_read_tokens"@, "cache_write_tokens"@),
        precedes("cache_write_tokens"@, "completion_tokens"@),
        precedes("completion_tokens"@, "prompt_cache_hit_tokens"@),
        precedes("prompt_cache_hit_tokens"@, "prompt_cache_miss_tokens"@),
        precedes("prompt_cache_miss_tokens"@, "prompt_tokens"@),
        precedes("prompt_tokens"@, "reasoning_tokens"@),
        precedes("reasoning_tokens"@, "total_tokens"@),
        precedes("total_tokens"@, "~"@),
{
    reveal_strlit("prompt_tokens");
    reveal_strlit("completion_tokens");
    reveal_strlit("total_tokens");
    reveal_strlit("reasoning_tokens");
    reveal_strlit("prompt_cache_hit_tokens");
    reveal_strlit("prompt_cache_miss_tokens");
    reveal_strlit("cache_read_tokens");
    reveal_strlit("cache_write_tokens");
    reveal_strlit("~");
    let read = "cache_read_tokens"@;
    let write = "cache_write_tokens"@;
    assert(read.take(6) =~= write.take(6));
    lemma_same_start(read, write, 6);
    lemma_precedes_at(read, write, 6);
    let done = "completion_tokens"@;
    assert(write.take(1) =~= done.take(1));
    lemma_same_start(write, done, 1);
    lemma_precedes_at(write, done, 1);
    lemma_first(done, "prompt_cache_hit_tokens"@);
    let hit = "prompt_cache_hit_tokens"@;
    let miss = "prompt_cache_miss_tokens"@;
    let prompt = "prompt_tokens"@;
    assert(hit.take(13) =~= miss.take(13));
    lemma_same_start(hit, miss, 13);
    lemma_precedes_at(hit, miss, 13);
    assert(miss.take(7) =~= prompt.take(7));
    lemma_same_start(miss, prompt, 7);
    lemma_precedes_at(miss, prompt, 7);
    lemma_first(prompt, "reasoning_tokens"@);
    lemma_first("reasoning_tokens"@, "total_tokens"@);
    lemma_first("total_tokens"@, "~"@);
}

pub proof fn lemma_same_start(a: Seq<char>, b: Seq<char>, n: int)
    requires
        0 <= n <= a.len(),
        n <= b.len(),
        a.take(n) == b.take(n),
    ensures
        forall|i: int| 0 <= i < n ==> #[trigger] a[i] == b[i],
{
    assert forall|i: int| 0 <= i < n implies #[trigger] a[i] == b[i] by {
        assert(a.take(n)[i] == a[i] && b.take(n)[i] == b[i]);
    }
}

pub proof fn lemma_usage_is_neat(u: TokenUsage)
    ensures
        neat(usage_json(u), 1),
{
    lemma_usage_names();
    reveal_strlit("cache_read_tokens");
    lemma_neat_empty("cache_read_tokens"@, 1);
    let j0 = empty_object();
    let v1 = opt_count(u.cache_read_tokens);
    let j1 = with_opt(j0, "cache_read_tokens"@, v1);
    lemma_neat_opt(j0, "cache_read_tokens"@, v1, "cache_write_tokens"@, 1);
    let v2 = opt_count(u.cache_write_tokens);
    let j2 = with_opt(j1, "cache_write_tokens"@, v2);
    lemma_neat_opt(j1, "cache_write_tokens"@, v2, "completion_tokens"@, 1);
    let v3 = count_json(u.completion_tokens);
    let j3 = j2.plus("completion_tokens"@, v3);
    lemma_neat_plus(j2, "completion_tokens"@, v3, "prompt_cache_hit_tokens"@, 1);
    let v4 = opt_count(u.prompt_cache_hit_tokens);
    let j4 = with_opt(j3, "prompt_cache_hit_tokens"@, v4);
    lemma_neat_opt(j3, "prompt_cache_hit_tokens"@, v4, "prompt_cache_miss_tokens"@, 1);
    let v5 = opt_count(u.prompt_cache_miss_tokens);
    let j5 = with_opt(j4, "prompt_cache_miss_tokens"@, v5);
    lemma_neat_opt(j4, "prompt_cache_miss_tokens"@, v5, "prompt_tokens"@, 1);
    let v6 = count_json(u.prompt_tokens);
    let j6 = j5.plus("prompt_tokens"@, v6);
    lemma_neat_plus(j5, "prompt_tokens"@, v6, "reasoning_tokens"@, 1);
    let v7 = opt_count(u.reasoning_tokens);
    let j7 = with_opt(j6, "reasoning_tokens"@, v7);
    lemma_neat_opt(j6, "reasoning_tokens"@, v7, "total_tokens"@, 1);
    lemma_neat_plus(j7, "total_tokens"@, count_json(u.total_tokens), "~"@, 1);
}

proof fn lemma_content_is_neat(m: MessageView)
    requires
        whole_message(m),
    ensures
        neat(content_json(m.content), 3),
{
    if let MessageContentView::Multimodal(ps) = m.content {
        let js = parts_json(ps);
        assert forall|i: int| 0 <= i < js.len() implies neat(#[trigger] js[i], 2) by {
            assert(whole_part(ps[i]));
            lemma_part_is_neat(ps[i]);
        }
    }
}

proof fn lemma_calls_are_neat(cs: Seq<ToolCallView>)
    ensures
        neat(JsonView::List(calls_json(cs)), 3),
{
    let js = calls_json(cs);
    assert forall|i: int| 0 <= i < js.len() implies neat(#[trigger] js[i], 2) by {
        lemma_call_is_neat(cs[i]);
    }
}

/// The form of a message with whole numbers is neat.
pub proof fn law_message_is_neat(m: MessageView)
    requires
        whole_message(m),
    ensures
        neat(message_json(m), 4),
{
    reveal_strlit("role");
    reveal_strlit("content");
    reveal_strlit("reasoning_content");
    reveal_strlit("tool_calls");
    reveal_strlit("tool_call_id");
    reveal_strlit("usage");
    reveal_strlit("~");
    lemma_first("content"@, "reasoning_content"@);
    assert("reasoning_content"@.take(1) =~= "role"@.take(1));
    lemma_same_start("reasoning_content"@, "role"@, 1);
    lemma_precedes_at("reasoning_content"@, "role"@, 1);
    lemma_first("role"@, "tool_call_id"@);
    assert("tool_call_id"@.take(9) =~= "tool_calls"@.take(9));
    lemma_same_start("tool_call_id"@, "tool_calls"@, 9);
    lemma_precedes_at("tool_call_id"@, "tool_calls"@, 9);
    lemma_first("tool_calls"@, "usage"@);
    lemma_first("usage"@, "~"@);
    lemma_neat_empty("content"@, 4);
    lemma_content_is_neat(m);
    let j0 = empty_object();
    let j1 = j0.plus("content"@, content_json(m.content));
    lemma_neat_plus(j0, "content"@, content_json(m.content), "reasoning_content"@, 4);
    let v2 = opt_text(m.reasoning_content);
    let j2 = with_opt(j1, "reasoning_content"@, v2);
    lemma_neat_opt(j1, "reasoning_content"@, v2, "role"@, 4);
    let v3 = JsonView::Text(role_name(m.role));
    let j3 = j2.plus("role"@, v3);
    lemma_neat_plus(j2, "role"@, v3, "tool_call_id"@, 4);
    let v4 = opt_text(m.tool_call_id);
    let j4 = with_opt(j3, "tool_call_id"@, v4);
    lemma_neat_opt(j3, "tool_call_id"@, v4, "tool_calls"@, 4);
    let v5 = if m.tool_calls.len() > 0 {
        Some(JsonView::List(calls_json(m.tool_calls)))
    } else {
        None
    };
    let j5 = with_opt(j4, "tool_calls"@, v5);
    lemma_calls_are_neat(m.tool_calls);
    lemma_neat_opt(j4, "tool_calls"@, v5, "usage"@, 4);
    let v6 = match m.usage {
        Some(u) => Some(usage_json(u)),
        None => None,
    };
    if let Some(u) = m.usage {
        lemma_usage_is_neat(u);
        lemma_neat_more(usage_json(u), 1, 3);
    }
    lemma_neat_opt(j5, "usage"@, v6, "~"@, 4);
}

} // verus!
