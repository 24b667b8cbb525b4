//! What goes to each vendor, and what its refusals mean, said by names, numbers and
//! values.

use vstd::prelude::*;
use vstd::string::*;

use crate::json::{JsonView, NumberView};
use crate::provider::agnes::{self, AgnesModel};
use crate::provider::client::{
    asked_seconds, error_for, header_name, headers_of, put_header, valid_value, wait_after,
};
use crate::provider::completions_laws::{
    count_value, law_body_on_the_wire, lemma_object1, lemma_with, text_value,
};
use crate::provider::deepseek::{self, DeepSeekModel};
use crate::provider::kimi::{self, KimiModel};
use crate::provider::minimax::{self, MiniMaxModel};
use crate::provider::openai;
use crate::provider::openai_compat::{message_json, object1, tool_json, with_extras};
use crate::provider::openrouter::{self, site_headers};
use crate::provider::vendor::{effort_name, law_extras_win, last_value, shared_body, with_effort};
use crate::provider::{
    doubled_up_to, ChatRequestView, LlmErrorView, ReasoningEffort, RetryPolicy, ToolChoice,
};
use crate::text::{decimal, number_value, trim};
use crate::time::Duration;

verus! {

broadcast use vstd::string::group_string_axioms;

/// The names of fields differ.
pub proof fn lemma_vendor_names()
    ensures
        "model"@ != "messages"@,
        "model"@ != "tools"@,
        "model"@ != "tool_choice"@,
        "model"@ != "temperature"@,
        "model"@ != "max_completion_tokens"@,
        "model"@ != "thinking"@,
        "model"@ != "reasoning_effort"@,
        "model"@ != "max_tokens"@,
        "model"@ != "stream"@,
        "model"@ != "chat_template_kwargs"@,
        "model"@ != "system"@,
        "messages"@ != "tools"@,
        "messages"@ != "tool_choice"@,
        "messages"@ != "temperature"@,
        "messages"@ != "max_completion_tokens"@,
        "messages"@ != "thinking"@,
        "messages"@ != "reasoning_effort"@,
        "messages"@ != "max_tokens"@,
        "messages"@ != "stream"@,
        "messages"@ != "chat_template_kwargs"@,
        "messages"@ != "system"@,
        "tools"@ != "tool_choice"@,
        "tools"@ != "temperature"@,
        "tools"@ != "max_completion_tokens"@,
        "tools"@ != "thinking"@,
        "tools"@ != "reasoning_effort"@,
        "tools"@ != "max_tokens"@,
        "tools"@ != "stream"@,
        "tools"@ != "chat_template_kwargs"@,
        "tools"@ != "system"@,
        "tool_choice"@ != "temperature"@,
        "tool_choice"@ != "max_completion_tokens"@,
        "tool_choice"@ != "thinking"@,
        "tool_choice"@ != "reasoning_effort"@,
        "tool_choice"@ != "max_tokens"@,
        "tool_choice"@ != "stream"@,
        "tool_choice"@ != "chat_template_kwargs"@,
        "tool_choice"@ != "system"@,
        "temperature"@ != "max_completion_tokens"@,
        "temperature"@ != "thinking"@,
        "temperature"@ != "reasoning_effort"@,
        "temperature"@ != "max_tokens"@,
        "temperature"@ != "stream"@,
        "temperature"@ != "chat_template_kwargs"@,
        "temperature"@ != "system"@,
        "max_completion_tokens"@ != "thinking"@,
        "max_completion_tokens"@ != "reasoning_effort"@,
        "max_completion_tokens"@ != "max_tokens"@,
        "max_completion_tokens"@ != "stream"@,
        "max_completion_tokens"@ != "chat_template_kwargs"@,
        "max_completion_tokens"@ != "system"@,
        "thinking"@ != "reasoning_effort"@,
        "thinking"@ != "max_tokens"@,
        "thinking"@ != "stream"@,
        "thinking"@ != "chat_template_kwargs"@,
        "thinking"@ != "system"@,
        "reasoning_effort"@ != "max_tokens"@,
        "reasoning_effort"@ != "stream"@,
        "reasoning_effort"@ != "chat_template_kwargs"@,
        "reasoning_effort"@ != "system"@,
        "max_tokens"@ != "stream"@,
        "max_tokens"@ != "chat_template_kwargs"@,
        "max_tokens"@ != "system"@,
        "stream"@ != "chat_template_kwargs"@,
        "stream"@ != "system"@,
        "chat_template_kwargs"@ != "system"@,
{
    reveal_strlit("model");
    reveal_strlit("messages");
    reveal_strlit("tools");
    reveal_strlit("tool_choice");
    reveal_strlit("temperature");
    reveal_strlit("max_completion_tokens");
    reveal_strlit("thinking");
    reveal_strlit("reasoning_effort");
    reveal_strlit("max_tokens");
    reveal_strlit("stream");
    reveal_strlit("chat_template_kwargs");
    reveal_strlit("system");
    assert("model"@.len() == 5);
    assert("messages"@.len() == 8);
    assert("tools"@.len() == 5);
    assert("tool_choice"@.len() == 11);
    assert("temperature"@.len() == 11);
    assert("max_completion_tokens"@.len() == 21);
    assert("thinking"@.len() == 8);
    assert("reasoning_effort"@.len() == 16);
    assert("max_tokens"@.len() == 10);
    assert("stream"@.len() == 6);
    assert("chat_template_kwargs"@.len() == 20);
    assert("system"@.len() == 6);
    assert("model"@[0] != "tools"@[0]);
    assert("messages"@[0] != "thinking"@[0]);
    assert("tool_choice"@[1] != "temperature"@[1]);
    assert("stream"@[1] != "system"@[1]);
}

/// The names of models differ.
pub proof fn lemma_model_names()
    ensures
        "deepseek-v4-flash"@ != "deepseek-v4-pro"@,
        "deepseek-v4-flash"@ != "deepseek-v4-flash-vision-exp"@,
        "deepseek-v4-flash"@ != "deepseek/deepseek-v4-flash"@,
        "deepseek-v4-flash"@ != "deepseek/deepseek-v4-pro"@,
        "deepseek-v4-flash"@ != "deepseek/deepseek-v4-flash-vision-exp"@,
        "deepseek-v4-pro"@ != "deepseek-v4-flash-vision-exp"@,
        "deepseek-v4-pro"@ != "deepseek/deepseek-v4-flash"@,
        "deepseek-v4-pro"@ != "deepseek/deepseek-v4-pro"@,
        "deepseek-v4-pro"@ != "deepseek/deepseek-v4-flash-vision-exp"@,
        "deepseek-v4-flash-vision-exp"@ != "deepseek/deepseek-v4-flash"@,
        "deepseek-v4-flash-vision-exp"@ != "deepseek/deepseek-v4-pro"@,
        "deepseek-v4-flash-vision-exp"@ != "deepseek/deepseek-v4-flash-vision-exp"@,
        "deepseek/deepseek-v4-flash"@ != "deepseek/deepseek-v4-pro"@,
        "deepseek/deepseek-v4-flash"@ != "deepseek/deepseek-v4-flash-vision-exp"@,
        "deepseek/deepseek-v4-pro"@ != "deepseek/deepseek-v4-flash-vision-exp"@,
{
    reveal_strlit("deepseek-v4-flash");
    reveal_strlit("deepseek-v4-pro");
    reveal_strlit("deepseek-v4-flash-vision-exp");
    reveal_strlit("deepseek/deepseek-v4-flash");
    reveal_strlit("deepseek/deepseek-v4-pro");
    reveal_strlit("deepseek/deepseek-v4-flash-vision-exp");
    assert("deepseek-v4-flash"@.len() == 17);
    assert("deepseek-v4-pro"@.len() == 15);
    assert("deepseek-v4-flash-vision-exp"@.len() == 28);
    assert("deepseek/deepseek-v4-flash"@.len() == 26);
    assert("deepseek/deepseek-v4-pro"@.len() == 24);
    assert("deepseek/deepseek-v4-flash-vision-exp"@.len() == 37);
}

/// What an answer with an error status means.
pub proof fn law_statuses(status: u16, wait: Option<Duration>, body: Seq<char>)
    ensures
        status == 401 || status == 403 ==> error_for(status, wait, body) is Auth,
        status == 408 ==> error_for(status, wait, body) is Timeout,
        status == 429 ==> error_for(status, wait, body) == LlmErrorView::RateLimited(wait),
        status == 402 ==> error_for(status, wait, body) == LlmErrorView::InsufficientBalance(
            "HTTP "@ + decimal(status as nat) + ": "@ + body,
        ),
        status == 421 ==> error_for(status, wait, body) == LlmErrorView::ContentBlocked(
            "HTTP "@ + decimal(status as nat) + ": "@ + body,
        ),
        status == 400 || status == 404 || status == 422 ==> error_for(status, wait, body)
            == LlmErrorView::BadRequest("HTTP "@ + decimal(status as nat) + ": "@ + body),
        status >= 500 ==> error_for(status, wait, body) == LlmErrorView::Server(status, body),
        status != 400 && status != 401 && status != 402 && status != 403 && status != 404
            && status != 408 && status != 421 && status != 422 && status != 429 ==> error_for(
            status,
            wait,
            body,
        ) == LlmErrorView::Server(status, body),
{
}

/// The wait that a vendor asks for is a number of seconds.
pub proof fn law_asked_seconds(n: u64, header: Option<Seq<char>>)
    ensures
        asked_seconds(Some(decimal(n as nat))) == Some((Duration { secs: n, nanos: 0 })),
        asked_seconds(None) is None,
        header matches Some(h) ==> (number_value(h, u64::MAX as nat) is None ==> asked_seconds(
            header,
        ) is None),
{
    crate::text_laws::law_decimal(n as nat, u64::MAX as nat);
}

/// Only what a later try can mend is tried again: a network error, an error of the
/// server, and a limit on the rate; and only a limit on the rate asks for a wait.
pub proof fn law_what_is_tried_again(e: LlmErrorView)
    ensures
        e.retryable() <==> (match e {
            LlmErrorView::Network(_) => true,
            LlmErrorView::Server(_, _) => true,
            LlmErrorView::RateLimited(_) => true,
            LlmErrorView::Timeout => false,
            LlmErrorView::Auth => false,
            LlmErrorView::InsufficientBalance(_) => false,
            LlmErrorView::BadRequest(_) => false,
            LlmErrorView::ContentBlocked(_) => false,
            LlmErrorView::Protocol(_) => false,
        }),
        e matches LlmErrorView::RateLimited(w) ==> e.asked_wait() == w,
        !(e is RateLimited) ==> e.asked_wait() is None,
{
}

/// Before another try there is the wait that the vendor asked for; where it asked for
/// none, a wait that starts at the base and doubles from try to try, up to the longest.
pub proof fn law_waits(policy: RetryPolicy, e: LlmErrorView, w: Duration, attempt: u32)
    requires
        policy.wf(),
        attempt < u32::MAX,
    ensures
        e == LlmErrorView::RateLimited(Some(w)) && w.total() != 0 ==> wait_after(policy, e, attempt)
            == w.total(),
        !(e is RateLimited) || e == LlmErrorView::RateLimited(None) ==> {
            let base = policy.base_delay.total();
            let cap = policy.max_delay.total();
            &&& base <= cap ==> wait_after(policy, e, 0) == base
            &&& base > cap ==> wait_after(policy, e, 0) == cap
            &&& 2 * wait_after(policy, e, attempt) <= cap ==> wait_after(
                policy,
                e,
                (attempt + 1) as u32,
            ) == 2 * wait_after(policy, e, attempt)
            &&& 2 * wait_after(policy, e, attempt) > cap ==> wait_after(
                policy,
                e,
                (attempt + 1) as u32,
            ) == cap
        },
{
}

/// A header that is put stands under its name with its value; the others stay.
pub proof fn law_header_is_put(
    headers: Seq<(Seq<char>, Seq<char>)>,
    name: Seq<char>,
    value: Seq<char>,
    other: (Seq<char>, Seq<char>),
)
    ensures
        put_header(headers, name, value).contains((name, value)),
        other.0 != name ==> (put_header(headers, name, value).contains(other)
            <==> headers.contains(other)),
    decreases headers.len(),
{
    let after = put_header(headers, name, value);
    if headers.len() == 0 {
        assert(after[0] == (name, value));
    } else if headers[0].0 == name {
        assert(after[0] == (name, value));
        if headers.contains(other) && other.0 != name {
            let i = choose|i: int| 0 <= i < headers.len() && headers[i] == other;
            assert(after[i] == other);
        }
        if after.contains(other) && other.0 != name {
            let i = choose|i: int| 0 <= i < after.len() && after[i] == other;
            assert(headers[i] == other);
        }
    } else {
        let rest = headers.drop_first();
        let tail = put_header(rest, name, value);
        law_header_is_put(rest, name, value, other);
        let i = choose|i: int| 0 <= i < tail.len() && tail[i] == (name, value);
        assert(after[i + 1] == (name, value));
        if other.0 != name {
            if headers.contains(other) {
                let j = choose|j: int| 0 <= j < headers.len() && headers[j] == other;
                if j == 0 {
                    assert(after[0] == other);
                } else {
                    assert(rest[j - 1] == other);
                    assert(rest.contains(other));
                    let k = choose|k: int| 0 <= k < tail.len() && tail[k] == other;
                    assert(after[k + 1] == other);
                }
            }
            if after.contains(other) {
                let j = choose|j: int| 0 <= j < after.len() && after[j] == other;
                if j == 0 {
                    assert(headers[0] == other);
                } else {
                    assert(tail[j - 1] == other);
                    assert(tail.contains(other));
                    let k = choose|k: int| 0 <= k < rest.len() && rest[k] == other;
                    assert(headers[k + 1] == other);
                }
            }
        }
    }
}

/// A header that can be sent is sent, with the value given last; one that cannot be sent
/// is left out.
pub proof fn law_headers_are_sent(
    pairs: Seq<(Seq<char>, Seq<char>)>,
    name: Seq<char>,
    n: Seq<char>,
    value: Seq<char>,
)
    ensures
        header_name(name) == Some(n) && valid_value(value) ==> headers_of(
            pairs.push((name, value)),
        ).contains((n, value)),
        header_name(name) is None || !valid_value(value) ==> headers_of(pairs.push((name, value)))
            == headers_of(pairs),
        headers_of(Seq::empty()).len() == 0,
{
    assert(pairs.push((name, value)).drop_last() =~= pairs);
    if header_name(name) == Some(n) {
        law_header_is_put(headers_of(pairs), n, value, (n, value));
    }
}

/// A field that a caller adds under a name nothing is set under.
pub open spec fn unset(extra: Seq<(Seq<char>, JsonView)>, key: Seq<char>) -> bool {
    forall|i: int| 0 <= i < extra.len() ==> (#[trigger] extra[i]).0 != key
}

/// Fields of another name change nothing.
proof fn lemma_unset(extra: Seq<(Seq<char>, JsonView)>, key: Seq<char>)
    requires
        unset(extra, key),
    ensures
        last_value(extra, key) is None,
    decreases extra.len(),
{
    if extra.len() > 0 {
        assert(extra[extra.len() - 1].0 != key);
        assert forall|i: int| 0 <= i < extra.drop_last().len() implies (
        #[trigger] extra.drop_last()[i]).0 != key by {
            assert(extra[i].0 != key);
        }
        lemma_unset(extra.drop_last(), key);
    }
}

/// What a caller adds to a body is in it, whatever stood there; everything else stays.
pub proof fn law_extras_are_added(
    body: JsonView,
    extra: Seq<(Seq<char>, JsonView)>,
    key: Seq<char>,
    value: JsonView,
)
    requires
        body is Object,
    ensures
        with_extras(body, extra.push((key, value))).get(key) == Some(value),
        unset(extra, key) ==> with_extras(body, extra).get(key) == body.get(key),
        with_extras(body, extra) is Object,
{
    law_extras_win(body, extra.push((key, value)), key);
    law_extras_win(body, extra, key);
    if unset(extra, key) {
        lemma_unset(extra, key);
    }
}

/// What every body in the chat completions format has: the model, all messages, all
/// tools with the choice, and the parameters.
pub open spec fn asks(body: JsonView, req: ChatRequestView, model: Seq<char>) -> bool {
    &&& body.get("model"@) == text_value(model)
    &&& (body.get("messages"@) matches Some(JsonView::List(l)) && l.len() == req.messages.len()
        && forall|i: int| 0 <= i < l.len() ==> #[trigger] l[i] == message_json(req.messages[i]))
    &&& req.tools.len() > 0 ==> (body.get("tools"@) matches Some(JsonView::List(l)) && l.len()
        == req.tools.len() && forall|i: int|
        0 <= i < l.len() ==> #[trigger] l[i] == tool_json(req.tools[i]))
    &&& req.tools.len() > 0 ==> body.get("tool_choice"@) == (match req.tool_choice {
        ToolChoice::Auto => text_value("auto"@),
        ToolChoice::Never => text_value("none"@),
        ToolChoice::Required => text_value("required"@),
    })
    &&& req.tools.len() == 0 ==> body.get("tools"@) is None && body.get("tool_choice"@) is None
    &&& body.get("temperature"@) == (match req.temperature {
        Some(t) => Some(JsonView::Number(t)),
        None => None,
    })
}

/// The body that vendors share asks for what the request asks for.
pub proof fn law_shared_body(req: ChatRequestView, model: Seq<char>)
    ensures
        asks(shared_body(req, model), req, model),
        shared_body(req, model).get("max_completion_tokens"@) == (match req.max_tokens {
            Some(n) => count_value(n as int),
            None => None,
        }),
        shared_body(req, model).get("thinking"@) is None,
        shared_body(req, model).get("reasoning_effort"@) is None,
        shared_body(req, model).get("max_tokens"@) is None,
        shared_body(req, model).get("stream"@) is None,
        shared_body(req, model) is Object,
{
    lemma_vendor_names();
    law_body_on_the_wire(
        req.messages,
        req.tools,
        req.tool_choice,
        req.temperature,
        req.max_tokens,
        model,
        "thinking"@,
    );
    law_body_on_the_wire(
        req.messages,
        req.tools,
        req.tool_choice,
        req.temperature,
        req.max_tokens,
        model,
        "reasoning_effort"@,
    );
    law_body_on_the_wire(
        req.messages,
        req.tools,
        req.tool_choice,
        req.temperature,
        req.max_tokens,
        model,
        "max_tokens"@,
    );
    law_body_on_the_wire(
        req.messages,
        req.tools,
        req.tool_choice,
        req.temperature,
        req.max_tokens,
        model,
        "stream"@,
    );
}

/// The effort asked for, by its name; nothing where none is asked for.
pub open spec fn effort_value(effort: Option<ReasoningEffort>) -> Option<JsonView> {
    match effort {
        Some(ReasoningEffort::Low) => text_value("low"@),
        Some(ReasoningEffort::High) => text_value("high"@),
        Some(ReasoningEffort::Max) => text_value("max"@),
        None => None,
    }
}

/// What DeepSeek is sent: what the request asks, for the model by its name, whether to
/// think, and the effort.
pub proof fn law_deepseek_body(model: DeepSeekModel, req: ChatRequestView)
    requires
        req.extra.len() == 0,
    ensures
        ({
            let b = deepseek::body_of(model, req);
            let name = match model {
                DeepSeekModel::V4Flash => "deepseek-v4-flash"@,
                DeepSeekModel::V4Pro => "deepseek-v4-pro"@,
                DeepSeekModel::V4FlashVisionExp => "deepseek-v4-flash-vision-exp"@,
            };
            &&& asks(b, req, name)
            &&& b.get("max_completion_tokens"@) == (match req.max_tokens {
                Some(n) => count_value(n as int),
                None => None,
            })
            &&& (b.get("thinking"@) matches Some(t) && t.get("type"@) == (
            if req.thinking.enabled {
                text_value("enabled"@)
            } else {
                text_value("disabled"@)
            }))
            &&& b.get("reasoning_effort"@) == effort_value(req.thinking.effort)
        }),
{
    lemma_vendor_names();
    law_shared_body(req, model.name());
    let a = shared_body(req, model.name());
    let kind = JsonView::Text(
        if req.thinking.enabled {
            "enabled"@
        } else {
            "disabled"@
        },
    );
    lemma_object1("type"@, kind);
    let t = object1("type"@, kind);
    lemma_with(a, "thinking"@, t);
    let c = a.with("thinking"@, t);
    if let Some(e) = req.thinking.effort {
        lemma_with(c, "reasoning_effort"@, JsonView::Text(effort_name(e)));
    }
    assert(c.get("tools"@) == a.get("tools"@));
}

/// What Moonshot is sent: what the request asks, and the effort.
pub proof fn law_kimi_body(model: KimiModel, req: ChatRequestView)
    requires
        req.extra.len() == 0,
    ensures
        asks(kimi::body_of(model, req), req, "kimi-k3"@),
        kimi::body_of(model, req).get("max_completion_tokens"@) == (match req.max_tokens {
            Some(n) => count_value(n as int),
            None => None,
        }),
        kimi::body_of(model, req).get("thinking"@) is None,
        kimi::body_of(model, req).get("reasoning_effort"@) == effort_value(req.thinking.effort),
{
    lemma_vendor_names();
    law_shared_body(req, model.name());
    let a = shared_body(req, model.name());
    if let Some(e) = req.thinking.effort {
        lemma_with(a, "reasoning_effort"@, JsonView::Text(effort_name(e)));
    }
}

/// What Agnes is sent: what the request asks, with the limit under another name, and
/// whether to think.
pub proof fn law_agnes_body(model: AgnesModel, req: ChatRequestView)
    requires
        req.extra.len() == 0,
    ensures
        asks(agnes::body_of(model, req), req, "agnes-2.5-flash"@),
        agnes::body_of(model, req).get("max_tokens"@) == (match req.max_tokens {
            Some(n) => count_value(n as int),
            None => None,
        }),
        agnes::body_of(model, req).get("max_completion_tokens"@) is None,
        agnes::body_of(model, req).get("chat_template_kwargs"@) matches Some(k) && k.get(
            "enable_thinking"@,
        ) == Some(JsonView::Bool(req.thinking.enabled)),
{
    lemma_vendor_names();
    law_shared_body(req, model.name());
    let a = shared_body(req, model.name());
    let on = JsonView::Bool(req.thinking.enabled);
    lemma_object1("enable_thinking"@, on);
    let b = match req.max_tokens {
        Some(m) => {
            let cut = a.without("max_completion_tokens"@);
            let f = a->Object_0;
            let limit = JsonView::Number(NumberView::Unsigned(m as u64));
            crate::json::law_find_without(f, "max_completion_tokens"@, "model"@);
            crate::json::law_find_without(f, "max_completion_tokens"@, "messages"@);
            crate::json::law_find_without(f, "max_completion_tokens"@, "tools"@);
            crate::json::law_find_without(f, "max_completion_tokens"@, "tool_choice"@);
            crate::json::law_find_without(f, "max_completion_tokens"@, "temperature"@);
            crate::json::law_find_without(
                f,
                "max_completion_tokens"@,
                "max_completion_tokens"@,
            );
            lemma_with(cut, "max_tokens"@, limit);
            cut.with("max_tokens"@, limit)
        },
        None => a,
    };
    lemma_with(b, "chat_template_kwargs"@, object1("enable_thinking"@, on));
    assert(b.get("tools"@) == a.get("tools"@));
    assert(b.get("messages"@) == a.get("messages"@));
}

/// What other services of the chat completions format are sent: what the request asks,
/// for the model that was named.
pub proof fn law_open_bodies(model: Seq<char>, req: ChatRequestView)
    requires
        req.extra.len() == 0,
    ensures
        asks(openai::body_of(model, req), req, model),
        asks(openrouter::body_of(model, req), req, model),
        openai::body_of(model, req).get("max_completion_tokens"@) == (match req.max_tokens {
            Some(n) => count_value(n as int),
            None => None,
        }),
        openrouter::body_of(model, req).get("max_completion_tokens"@) == (match req.max_tokens {
            Some(n) => count_value(n as int),
            None => None,
        }),
{
    law_shared_body(req, model);
}

/// What MiniMax is sent: the model by its name, the limit or the most that it can write,
/// and whether to think.
pub proof fn law_minimax_body(model: MiniMaxModel, req: ChatRequestView)
    requires
        req.extra.len() == 0,
    ensures
        ({
            let b = minimax::body_of(model, req);
            &&& b.get("model"@) == text_value("MiniMax-M3"@)
            &&& b.get("max_tokens"@) == (match req.max_tokens {
                Some(n) => count_value(n as int),
                None => count_value(65536),
            })
            &&& b.get("messages"@) == Some(
                JsonView::List(crate::provider::anthropic_compat::other_messages(req.messages)),
            )
            &&& b.get("temperature"@) == (match req.temperature {
                Some(t) => Some(JsonView::Number(t)),
                None => None,
            })
            &&& req.tools.len() > 0 ==> (b.get("tools"@) matches Some(JsonView::List(l)) && l.len()
                == req.tools.len())
            &&& (b.get("thinking"@) matches Some(t) && t.get("type"@) == (
            if req.thinking.enabled {
                text_value("adaptive"@)
            } else {
                text_value("disabled"@)
            }))
        }),
{
    lemma_vendor_names();
    let limit = match req.max_tokens {
        Some(m) => m,
        None => minimax::MAX_OUTPUT_TOKENS,
    };
    let a = crate::provider::anthropic_compat::common_body(
        req.messages,
        req.tools,
        req.tool_choice,
        req.temperature,
        limit,
        model.name(),
    );
    crate::provider::messages_laws::law_body_on_the_wire(
        req.messages,
        req.tools,
        req.tool_choice,
        req.temperature,
        limit,
        model.name(),
        "thinking"@,
    );
    let kind = JsonView::Text(
        if req.thinking.enabled {
            "adaptive"@
        } else {
            "disabled"@
        },
    );
    lemma_object1("type"@, kind);
    lemma_with(a, "thinking"@, object1("type"@, kind));
}

/// Models are named apart: the identity of a model is the vendor, a slash and its name.
pub proof fn law_models_are_told_apart(a: DeepSeekModel, b: DeepSeekModel)
    ensures
        a != b ==> a.name() != b.name() && a.id() != b.id(),
        a.id() == "deepseek/"@ + a.name(),
        KimiModel::K3.id() == "moonshot/"@ + KimiModel::K3.name(),
        AgnesModel::V25Flash.id() == "agnes/"@ + AgnesModel::V25Flash.name(),
        deepseek::takes(a).image <==> a == DeepSeekModel::V4FlashVisionExp,
        !deepseek::takes(a).audio,
        !deepseek::takes(a).video,
        !deepseek::takes(a).file_upload,
{
    lemma_model_names();
    reveal_strlit("deepseek-v4-flash");
    reveal_strlit("deepseek-v4-pro");
    reveal_strlit("deepseek-v4-flash-vision-exp");
    reveal_strlit("deepseek/deepseek-v4-flash");
    reveal_strlit("deepseek/deepseek-v4-pro");
    reveal_strlit("deepseek/deepseek-v4-flash-vision-exp");
    reveal_strlit("deepseek/");
    reveal_strlit("moonshot/");
    reveal_strlit("kimi-k3");
    reveal_strlit("moonshot/kimi-k3");
    reveal_strlit("agnes/");
    reveal_strlit("agnes-2.5-flash");
    reveal_strlit("agnes/agnes-2.5-flash");
    assert(a.id() =~= "deepseek/"@ + a.name());
    assert(KimiModel::K3.id() =~= "moonshot/"@ + KimiModel::K3.name());
    assert(AgnesModel::V25Flash.id() =~= "agnes/"@ + AgnesModel::V25Flash.name());
}

/// The site that asks is told in headers, so far as it has said who it is.
pub proof fn law_site_is_told(url: Seq<char>, title: Seq<char>)
    ensures
        trim(url).len() > 0 ==> site_headers(Some(url), None) == seq![("HTTP-Referer"@, url)],
        trim(title).len() > 0 ==> site_headers(None, Some(title)) == seq![
            ("X-OpenRouter-Title"@, title),
        ],
        trim(url).len() > 0 && trim(title).len() > 0 ==> site_headers(Some(url), Some(title))
            == seq![("HTTP-Referer"@, url), ("X-OpenRouter-Title"@, title)],
        trim(url).len() == 0 && trim(title).len() == 0 ==> site_headers(Some(url), Some(title)).len()
            == 0,
        site_headers(None, None).len() == 0,
{
    if trim(url).len() > 0 {
        assert(site_headers(Some(url), None) =~= seq![("HTTP-Referer"@, url)]);
        if trim(title).len() > 0 {
            assert(site_headers(Some(url), Some(title)) =~= seq![
                ("HTTP-Referer"@, url),
                ("X-OpenRouter-Title"@, title),
            ]);
        }
    }
    if trim(title).len() > 0 {
        assert(site_headers(None, Some(title)) =~= seq![("X-OpenRouter-Title"@, title)]);
    }
}

/// Errors in words say their kind, and what came with them.
pub proof fn law_errors_in_words(s: Seq<char>, status: u16, w: Option<Duration>)
    ensures
        LlmErrorView::Network(s).message() == "network error: "@ + s,
        LlmErrorView::Timeout.message() == "request timeout"@,
        LlmErrorView::Auth.message() == "authentication failed"@,
        LlmErrorView::RateLimited(w).message() == "rate limited"@,
        LlmErrorView::InsufficientBalance(s).message() == "insufficient balance: "@ + s,
        LlmErrorView::BadRequest(s).message() == "bad request: "@ + s,
        LlmErrorView::ContentBlocked(s).message() == "content blocked: "@ + s,
        LlmErrorView::Server(status, s).message() == "server error "@ + decimal(status as nat)
            + ": "@ + s,
        LlmErrorView::Protocol(s).message() == "protocol error: "@ + s,
{
}

/// A value of plain characters can be sent where none of them is a control, but for the
/// tab.
pub proof fn law_values_that_can_be_sent(c: char, v: Seq<char>)
    requires
        (c as u32) <= 0x7f,
    ensures
        valid_value(Seq::empty()),
        c == '\t' || 32 <= (c as u32) && (c as u32) != 127 ==> (valid_value(seq![c] + v)
            <==> valid_value(v)),
        c != '\t' && ((c as u32) < 32 || (c as u32) == 127) ==> !valid_value(seq![c] + v),
{
    let all = seq![c] + v;
    assert(all[0] == c);
    assert(all.drop_first() =~= v);
    let bytes = vstd::utf8::encode_utf8(all);
    let rest = vstd::utf8::encode_utf8(v);
    let u = c as u32;
    assert((u & 0x7f) as u8 == u as u8) by (bit_vector)
        requires
            u <= 0x7f,
    ;
    assert(bytes =~= seq![u as u8] + rest);
    assert(bytes[0] == u as u8);
    assert forall|i: int| 0 <= i < rest.len() implies bytes[i + 1] == rest[i] by {}
    if valid_value(all) {
        assert forall|i: int| 0 <= i < rest.len() implies crate::provider::client::value_byte(
            #[trigger] rest[i],
        ) by {
            assert(crate::provider::client::value_byte(bytes[i + 1]));
        }
        assert(crate::provider::client::value_byte(bytes[0]));
    }
    if valid_value(v) && crate::provider::client::value_byte(u as u8) {
        assert forall|i: int| 0 <= i < bytes.len() implies crate::provider::client::value_byte(
            #[trigger] bytes[i],
        ) by {
            if i > 0 {
                assert(crate::provider::client::value_byte(rest[i - 1]));
            }
        }
    }
    assert(vstd::utf8::encode_utf8(Seq::empty()).len() == 0);
}

} // verus!
