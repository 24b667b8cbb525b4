//! The JSON form in which sessions are asked and answer, and the envelopes that
//! carry it.

use vstd::prelude::*;
use vstd::string::*;

use crate::codec::{
    empty_object, get_opt_count, get_opt_text, law_message, law_usage, lemma_get_plus,
    message_from_json, message_json, message_to_json, opt_count, opt_text, read_message,
    read_opt_count, read_opt_text, read_usage, usage_from_json, usage_json, usage_to_json,
};
use crate::json::{
    json_text, neat, parse_text, parsed, reads_as, write_text, Json, JsonView, Number, NumberView,
};
use crate::neat::{
    law_message_is_neat, lemma_neat_empty, lemma_neat_plus, lemma_precedes_at, lemma_same_start,
    lemma_usage_is_neat, whole, whole_message,
};
use crate::provider::{
    ChatResponseView, FinishReason, FinishReasonView, ReasoningEffort, ThinkingConfig, TokenUsage,
    ToolDeclaration, ToolDeclarationView,
};
use crate::session::message::{
    id_of_text, id_text, ChatOptions, ChatOptionsView, ChatPayload, ChatPayloadView, Envelope,
    ErrorKind, MessageError, MessageErrorView, SessionId, SessionMessage, SessionMessageView,
    SessionReply, SessionReplyView,
};
use crate::text::{precedes, same};

verus! {

broadcast use vstd::string::group_string_axioms;

// ---------------------------------------------------------------------------
// Fields

/// A value, or null where there is none.
pub open spec fn or_null(v: Option<JsonView>) -> JsonView {
    match v {
        Some(x) => x,
        None => JsonView::Null,
    }
}

/// A number of 64 bits.
pub open spec fn number_json(n: u64) -> JsonView {
    JsonView::Number(NumberView::Unsigned(n))
}

/// The names that forms have are in order.
proof fn lemma_names()
    ensures
        precedes("description"@, "name"@),
        precedes("name"@, "parameters"@),
        precedes("parameters"@, "~"@),
        precedes("effort"@, "enabled"@),
        precedes("enabled"@, "~"@),
        precedes("max_tokens"@, "system_prompt"@),
        precedes("system_prompt"@, "temperature"@),
        precedes("temperature"@, "thinking"@),
        precedes("thinking"@, "tools"@),
        precedes("tools"@, "~"@),
{
    reveal_strlit("description");
    reveal_strlit("name");
    reveal_strlit("parameters");
    reveal_strlit("effort");
    reveal_strlit("enabled");
    reveal_strlit("max_tokens");
    reveal_strlit("system_prompt");
    reveal_strlit("temperature");
    reveal_strlit("thinking");
    reveal_strlit("tools");
    reveal_strlit("~");
    lemma_precedes_at("description"@, "name"@, 0);
    lemma_precedes_at("name"@, "parameters"@, 0);
    lemma_precedes_at("parameters"@, "~"@, 0);
    assert("effort"@.take(1) =~= "enabled"@.take(1));
    lemma_same_start("effort"@, "enabled"@, 1);
    lemma_precedes_at("effort"@, "enabled"@, 1);
    lemma_precedes_at("enabled"@, "~"@, 0);
    lemma_precedes_at("max_tokens"@, "system_prompt"@, 0);
    lemma_precedes_at("system_prompt"@, "temperature"@, 0);
    assert("temperature"@.take(1) =~= "thinking"@.take(1));
    lemma_same_start("temperature"@, "thinking"@, 1);
    lemma_precedes_at("temperature"@, "thinking"@, 1);
    assert("thinking"@.take(1) =~= "tools"@.take(1));
    lemma_same_start("thinking"@, "tools"@, 1);
    lemma_precedes_at("thinking"@, "tools"@, 1);
    lemma_precedes_at("tools"@, "~"@, 0);
}

// ---------------------------------------------------------------------------
// Options

/// The form of the declaration of a tool.
pub open spec fn declaration_json(t: ToolDeclarationView) -> JsonView {
    empty_object().plus("description"@, JsonView::Text(t.description)).plus(
        "name"@,
        JsonView::Text(t.name),
    ).plus("parameters"@, t.parameters)
}

/// The declaration of a form.
pub open spec fn read_declaration(j: JsonView) -> Option<ToolDeclarationView> {
    match (j.str_at("description"@), j.str_at("name"@), j.get("parameters"@)) {
        (Some(description), Some(name), Some(parameters)) => Some(
            ToolDeclarationView { name, description, parameters },
        ),
        _ => None,
    }
}

fn declaration_to_json(t: &ToolDeclaration) -> (r: Json)
    ensures
        r.deep_view() == declaration_json(t.deep_view()),
{
    Json::object().plus("description", Json::text(t.description.as_str())).plus(
        "name",
        Json::text(t.name.as_str()),
    ).plus("parameters", t.parameters.clone())
}

fn declaration_from_json(j: &Json) -> (r: Option<ToolDeclaration>)
    ensures
        r.deep_view() == read_declaration(j.deep_view()),
{
    match (j.str_at("description"), j.str_at("name"), j.get("parameters")) {
        (Some(description), Some(name), Some(parameters)) => Some(
            ToolDeclaration { name, description, parameters: parameters.clone() },
        ),
        _ => None,
    }
}

proof fn lemma_declaration(t: ToolDeclarationView)
    ensures
        read_declaration(declaration_json(t)) == Some(t),
        neat(t.parameters, 122) ==> neat(declaration_json(t), 123),
{
    broadcast use lemma_get_plus;

    lemma_names();
    reveal_strlit("description");
    reveal_strlit("name");
    reveal_strlit("parameters");
    assert("description"@.len() == 11 && "name"@.len() == 4 && "parameters"@.len() == 10);
    assert(empty_object().get("description"@) is None);
    assert(empty_object().get("name"@) is None);
    assert(empty_object().get("parameters"@) is None);
    if neat(t.parameters, 122) {
        lemma_neat_empty("description"@, 123);
        let a = empty_object().plus("description"@, JsonView::Text(t.description));
        let b = a.plus("name"@, JsonView::Text(t.name));
        lemma_neat_plus(
            empty_object(),
            "description"@,
            JsonView::Text(t.description),
            "name"@,
            123,
        );
        lemma_neat_plus(a, "name"@, JsonView::Text(t.name), "parameters"@, 123);
        lemma_neat_plus(b, "parameters"@, t.parameters, "~"@, 123);
    }
}

/// The forms of declarations.
pub open spec fn declarations_json(ts: Seq<ToolDeclarationView>) -> Seq<JsonView> {
    ts.map_values(|t: ToolDeclarationView| declaration_json(t))
}

/// The declarations of forms.
pub open spec fn read_declarations(js: Seq<JsonView>) -> Option<Seq<ToolDeclarationView>>
    decreases js.len(),
{
    if js.len() == 0 {
        Some(Seq::empty())
    } else {
        match (read_declarations(js.drop_last()), read_declaration(js.last())) {
            (Some(before), Some(t)) => Some(before.push(t)),
            _ => None,
        }
    }
}

fn declarations_to_json(ts: &Vec<ToolDeclaration>) -> (r: Vec<Json>)
    ensures
        r.deep_view() == declarations_json(ts.deep_view()),
{
    let ghost wanted = declarations_json(ts.deep_view());
    let mut out: Vec<Json> = Vec::new();
    let mut i: usize = 0;
    proof {
        assert(out.deep_view() =~= wanted.take(0));
    }
    while i < ts.len()
        invariant
            i <= ts@.len(),
            wanted == declarations_json(ts.deep_view()),
            out.deep_view() == wanted.take(i as int),
        decreases ts@.len() - i,
    {
        let ghost before = out.deep_view();
        let j = declaration_to_json(&ts[i]);
        out.push(j);
        proof {
            assert(out.deep_view() =~= before.push(j.deep_view()));
            assert(wanted.take(i + 1) =~= wanted.take(i as int).push(wanted[i as int]));
        }
        i = i + 1;
    }
    proof {
        assert(wanted.take(wanted.len() as int) =~= wanted);
    }
    out
}

proof fn lemma_read_declarations_none(js: Seq<JsonView>, n: int)
    requires
        0 <= n <= js.len(),
        read_declarations(js.take(n)) is None,
    ensures
        read_declarations(js) is None,
    decreases js.len(),
{
    if n < js.len() {
        assert(js.drop_last().take(n) =~= js.take(n));
        lemma_read_declarations_none(js.drop_last(), n);
    } else {
        assert(js.take(n) =~= js);
    }
}

fn declarations_from_json(js: &Vec<Json>) -> (r: Option<Vec<ToolDeclaration>>)
    ensures
        r.deep_view() == read_declarations(js.deep_view()),
{
    let ghost all = js.deep_view();
    let mut out: Vec<ToolDeclaration> = Vec::new();
    let mut i: usize = 0;
    proof {
        assert(all.take(0) =~= Seq::empty());
        assert(out.deep_view() =~= Seq::empty());
    }
    while i < js.len()
        invariant
            i <= js@.len(),
            all == js.deep_view(),
            read_declarations(all.take(i as int)) == Some(out.deep_view()),
        decreases js@.len() - i,
    {
        let ghost before = out.deep_view();
        proof {
            assert(all.take(i + 1).drop_last() =~= all.take(i as int));
            assert(all.take(i + 1).last() == all[i as int]);
        }
        match declaration_from_json(&js[i]) {
            Some(t) => {
                out.push(t);
                proof {
                    assert(out.deep_view() =~= before.push(t.deep_view()));
                }
            },
            None => {
                proof {
                    lemma_read_declarations_none(all, i + 1);
                }
                return None;
            },
        }
        i = i + 1;
    }
    proof {
        assert(all.take(all.len() as int) =~= all);
    }
    Some(out)
}

proof fn lemma_declarations(ts: Seq<ToolDeclarationView>)
    ensures
        read_declarations(declarations_json(ts)) == Some(ts),
    decreases ts.len(),
{
    let js = declarations_json(ts);
    if ts.len() == 0 {
        assert(ts =~= Seq::empty());
    } else {
        lemma_declarations(ts.drop_last());
        lemma_declaration(ts.last());
        assert(js.drop_last() =~= declarations_json(ts.drop_last()));
        assert(ts.drop_last().push(ts.last()) =~= ts);
    }
}

/// The name of an effort.
pub open spec fn effort_json(e: Option<ReasoningEffort>) -> JsonView {
    match e {
        Some(x) => JsonView::Text(crate::provider::vendor::effort_name(x)),
        None => JsonView::Null,
    }
}

/// The effort of a form.
pub open spec fn read_effort(j: JsonView) -> Option<Option<ReasoningEffort>> {
    match read_opt_text(j, "effort"@) {
        Some(None) => Some(None),
        Some(Some(s)) => if s == "low"@ {
            Some(Some(ReasoningEffort::Low))
        } else if s == "high"@ {
            Some(Some(ReasoningEffort::High))
        } else if s == "max"@ {
            Some(Some(ReasoningEffort::Max))
        } else {
            None
        },
        None => None,
    }
}

/// The form of how to think.
pub open spec fn thinking_json(t: ThinkingConfig) -> JsonView {
    empty_object().plus("effort"@, effort_json(t.effort)).plus(
        "enabled"@,
        JsonView::Bool(t.enabled),
    )
}

/// How to think, of a form.
pub open spec fn read_thinking(j: JsonView) -> Option<ThinkingConfig> {
    match (read_effort(j), j.get("enabled"@)) {
        (Some(effort), Some(JsonView::Bool(enabled))) => Some(ThinkingConfig { enabled, effort }),
        (Some(effort), None) => if j is Object {
            Some(ThinkingConfig { enabled: true, effort })
        } else {
            None
        },
        _ => None,
    }
}

fn thinking_to_json(t: &ThinkingConfig) -> (r: Json)
    ensures
        r.deep_view() == thinking_json(*t),
{
    let effort = match t.effort {
        Some(ReasoningEffort::Low) => Json::text("low"),
        Some(ReasoningEffort::High) => Json::text("high"),
        Some(ReasoningEffort::Max) => Json::text("max"),
        None => Json::Null,
    };
    Json::object().plus("effort", effort).plus("enabled", Json::Bool(t.enabled))
}

fn thinking_from_json(j: &Json) -> (r: Option<ThinkingConfig>)
    ensures
        r == read_thinking(j.deep_view()),
{
    let effort = match get_opt_text(j, "effort") {
        Some(None) => None,
        Some(Some(s)) => if same(s.as_str(), "low") {
            Some(ReasoningEffort::Low)
        } else if same(s.as_str(), "high") {
            Some(ReasoningEffort::High)
        } else if same(s.as_str(), "max") {
            Some(ReasoningEffort::Max)
        } else {
            return None;
        },
        None => {
            return None;
        },
    };
    match j.get("enabled") {
        Some(Json::Bool(b)) => Some(ThinkingConfig { enabled: *b, effort }),
        Some(_) => None,
        None => match j {
            Json::Object(_) => Some(ThinkingConfig { enabled: true, effort }),
            _ => None,
        },
    }
}

proof fn lemma_thinking(t: ThinkingConfig)
    ensures
        read_thinking(thinking_json(t)) == Some(t),
        neat(thinking_json(t), 124),
{
    broadcast use lemma_get_plus;

    lemma_names();
    reveal_strlit("effort");
    reveal_strlit("enabled");
    reveal_strlit("low");
    reveal_strlit("high");
    reveal_strlit("max");
    assert("low"@.len() == 3 && "high"@.len() == 4 && "max"@.len() == 3);
    assert("low"@[0] != "max"@[0]);
    assert("effort"@.len() == 6 && "enabled"@.len() == 7);
    assert(empty_object().get("effort"@) is None);
    assert(empty_object().get("enabled"@) is None);
    lemma_neat_empty("effort"@, 124);
    let e = effort_json(t.effort);
    let a = empty_object().plus("effort"@, e);
    lemma_neat_plus(empty_object(), "effort"@, e, "enabled"@, 124);
    lemma_neat_plus(a, "enabled"@, JsonView::Bool(t.enabled), "~"@, 124);
}

/// The temperature as a value.
pub open spec fn temperature_json(t: Option<NumberView>) -> JsonView {
    match t {
        Some(n) => JsonView::Number(n),
        None => JsonView::Null,
    }
}

/// The form of options.
pub open spec fn options_json(o: ChatOptionsView) -> JsonView {
    empty_object().plus("max_tokens"@, or_null(opt_count(o.max_tokens))).plus(
        "system_prompt"@,
        or_null(opt_text(o.system_prompt)),
    ).plus("temperature"@, temperature_json(o.temperature)).plus(
        "thinking"@,
        thinking_json(o.thinking),
    ).plus("tools"@, JsonView::List(declarations_json(o.tools)))
}

/// The temperature of a form.
pub open spec fn read_temperature(j: JsonView) -> Option<Option<NumberView>> {
    match j.get("temperature"@) {
        None => Some(None),
        Some(JsonView::Null) => Some(None),
        Some(JsonView::Number(n)) => Some(Some(n)),
        Some(_) => None,
    }
}

/// How to think, in a form.
pub open spec fn read_thinking_at(j: JsonView) -> Option<ThinkingConfig> {
    match j.get("thinking"@) {
        None => Some((ThinkingConfig { enabled: true, effort: None })),
        Some(t) => read_thinking(t),
    }
}

/// The tools in a form.
pub open spec fn read_tools_at(j: JsonView) -> Option<Seq<ToolDeclarationView>> {
    match j.get("tools"@) {
        None => Some(Seq::empty()),
        Some(JsonView::List(js)) => read_declarations(js),
        Some(_) => None,
    }
}

/// The options of a form. What is absent is left at its default.
pub open spec fn read_options(j: JsonView) -> Option<ChatOptionsView> {
    match (
        j,
        read_opt_count(j, "max_tokens"@),
        read_opt_text(j, "system_prompt"@),
        read_temperature(j),
        read_thinking_at(j),
        read_tools_at(j),
    ) {
        (
            JsonView::Object(_),
            Some(max_tokens),
            Some(system_prompt),
            Some(temperature),
            Some(thinking),
            Some(tools),
        ) => Some(ChatOptionsView { tools, temperature, max_tokens, thinking, system_prompt }),
        _ => None,
    }
}

fn options_to_json(o: &ChatOptions) -> (r: Json)
    ensures
        r.deep_view() == options_json(o.deep_view()),
{
    let max_tokens = match o.max_tokens {
        Some(n) => Json::unsigned(n as u64),
        None => Json::Null,
    };
    let system_prompt = match &o.system_prompt {
        Some(t) => Json::text(t.as_str()),
        None => Json::Null,
    };
    let temperature = match &o.temperature {
        Some(n) => Json::Number(n.clone()),
        None => Json::Null,
    };
    Json::object().plus("max_tokens", max_tokens).plus("system_prompt", system_prompt).plus(
        "temperature",
        temperature,
    ).plus("thinking", thinking_to_json(&o.thinking)).plus(
        "tools",
        Json::list(declarations_to_json(&o.tools)),
    )
}

fn options_from_json(j: &Json) -> (r: Option<ChatOptions>)
    ensures
        r.deep_view() == read_options(j.deep_view()),
{
    broadcast use crate::json::lemma_list_view;

    match j {
        Json::Object(_) => {},
        _ => {
            return None;
        },
    }
    let max_tokens = match get_opt_count(j, "max_tokens") {
        Some(n) => n,
        None => {
            return None;
        },
    };
    let system_prompt = match get_opt_text(j, "system_prompt") {
        Some(t) => t,
        None => {
            return None;
        },
    };
    let temperature = match j.get("temperature") {
        None => None,
        Some(Json::Null) => None,
        Some(Json::Number(n)) => Some(n.clone()),
        Some(_) => {
            return None;
        },
    };
    let thinking = match j.get("thinking") {
        None => ThinkingConfig { enabled: true, effort: None },
        Some(t) => match thinking_from_json(t) {
            Some(x) => x,
            None => {
                return None;
            },
        },
    };
    let tools = match j.get("tools") {
        None => {
            let none: Vec<ToolDeclaration> = Vec::new();
            proof {
                assert(none.deep_view() =~= Seq::empty());
            }
            none
        },
        Some(Json::List(js)) => match declarations_from_json(js) {
            Some(ts) => ts,
            None => {
                return None;
            },
        },
        Some(_) => {
            return None;
        },
    };
    Some(ChatOptions { tools, temperature, max_tokens, thinking, system_prompt })
}

/// Whether the text of options is read back as it was written: their numbers are
/// whole, and the parameters of their tools are neat.
pub open spec fn plain_options(o: ChatOptionsView) -> bool {
    &&& o.temperature matches Some(n) ==> whole(n)
    &&& forall|i: int| 0 <= i < o.tools.len() ==> neat((#[trigger] o.tools[i]).parameters, 122)
}

proof fn lemma_options(o: ChatOptionsView)
    ensures
        read_options(options_json(o)) == Some(o),
        plain_options(o) ==> neat(options_json(o), 125),
{
    broadcast use lemma_get_plus;

    lemma_names();
    lemma_declarations(o.tools);
    lemma_thinking(o.thinking);
    reveal_strlit("max_tokens");
    reveal_strlit("system_prompt");
    reveal_strlit("temperature");
    reveal_strlit("thinking");
    reveal_strlit("tools");
    assert("max_tokens"@.len() == 10 && "system_prompt"@.len() == 13 && "temperature"@.len() == 11);
    assert("thinking"@.len() == 8 && "tools"@.len() == 5);
    assert(empty_object().get("max_tokens"@) is None);
    assert(empty_object().get("system_prompt"@) is None);
    assert(empty_object().get("temperature"@) is None);
    assert(empty_object().get("thinking"@) is None);
    assert(empty_object().get("tools"@) is None);
    if plain_options(o) {
        let js = declarations_json(o.tools);
        assert forall|i: int| 0 <= i < js.len() implies neat(#[trigger] js[i], 123) by {
            assert(neat(o.tools[i].parameters, 122));
            lemma_declaration(o.tools[i]);
        }
        let j0 = empty_object();
        lemma_neat_empty("max_tokens"@, 125);
        let v1 = or_null(opt_count(o.max_tokens));
        let j1 = j0.plus("max_tokens"@, v1);
        lemma_neat_plus(j0, "max_tokens"@, v1, "system_prompt"@, 125);
        let v2 = or_null(opt_text(o.system_prompt));
        let j2 = j1.plus("system_prompt"@, v2);
        lemma_neat_plus(j1, "system_prompt"@, v2, "temperature"@, 125);
        let v3 = temperature_json(o.temperature);
        let j3 = j2.plus("temperature"@, v3);
        lemma_neat_plus(j2, "temperature"@, v3, "thinking"@, 125);
        let v4 = thinking_json(o.thinking);
        let j4 = j3.plus("thinking"@, v4);
        lemma_neat_plus(j3, "thinking"@, v4, "tools"@, 125);
        lemma_neat_plus(j4, "tools"@, JsonView::List(js), "~"@, 125);
    }
}

// ---------------------------------------------------------------------------
// Messages to a session

/// The form of what a session is asked.
pub open spec fn asked_json(m: SessionMessageView) -> JsonView {
    match m {
        SessionMessageView::Chat(id, p) => empty_object().plus(
            "kind"@,
            JsonView::Text("chat"@),
        ).plus("message"@, message_json(p.message)).plus("options"@, options_json(p.options)).plus(
            "peer_depth"@,
            number_json(p.peer_depth as u64),
        ).plus("session_id"@, JsonView::Text(id_text(id))),
        SessionMessageView::Interrupt(id) => empty_object().plus(
            "kind"@,
            JsonView::Text("interrupt"@),
        ).plus("session_id"@, JsonView::Text(id_text(id))),
        SessionMessageView::ToolResult(id, turn, call, result) => empty_object().plus(
            "kind"@,
            JsonView::Text("tool_result"@),
        ).plus("result"@, JsonView::Text(result)).plus(
            "session_id"@,
            JsonView::Text(id_text(id)),
        ).plus("tool_call_id"@, JsonView::Text(call)).plus("turn_id"@, number_json(turn)),
        SessionMessageView::Resume(id, turn) => empty_object().plus(
            "kind"@,
            JsonView::Text("resume"@),
        ).plus("session_id"@, JsonView::Text(id_text(id))).plus("turn_id"@, number_json(turn)),
    }
}

/// The session in a form.
pub open spec fn read_session_at(j: JsonView) -> Option<SessionId> {
    match j.str_at("session_id"@) {
        Some(t) => id_of_text(t),
        None => None,
    }
}

/// The message in a form.
pub open spec fn read_message_at(j: JsonView) -> Option<crate::provider::MessageView> {
    match j.get("message"@) {
        Some(m) => read_message(m),
        None => None,
    }
}

/// The options in a form; where there are none, nothing is changed.
pub open spec fn read_options_at(j: JsonView) -> Option<ChatOptionsView> {
    match j.get("options"@) {
        None => Some(ChatOptionsView::none()),
        Some(o) => read_options(o),
    }
}

/// The depth in a form; where there is none, the session is the first.
pub open spec fn read_depth_at(j: JsonView) -> Option<u32> {
    match j.get("peer_depth"@) {
        None => Some(0),
        Some(JsonView::Number(NumberView::Unsigned(n))) => if n <= u32::MAX {
            Some(n as u32)
        } else {
            None
        },
        Some(_) => None,
    }
}

/// What a session is asked, of a form.
pub open spec fn read_asked(j: JsonView) -> Option<SessionMessageView> {
    match (j.str_at("kind"@), read_session_at(j)) {
        (Some(kind), Some(id)) => if kind == "chat"@ {
            match (read_message_at(j), read_options_at(j), read_depth_at(j)) {
                (Some(message), Some(options), Some(peer_depth)) => Some(
                    SessionMessageView::Chat(id, ChatPayloadView { message, options, peer_depth }),
                ),
                _ => None,
            }
        } else if kind == "interrupt"@ {
            Some(SessionMessageView::Interrupt(id))
        } else if kind == "tool_result"@ {
            match (j.u64_at("turn_id"@), j.str_at("tool_call_id"@), j.str_at("result"@)) {
                (Some(turn), Some(call), Some(result)) => Some(
                    SessionMessageView::ToolResult(id, turn, call, result),
                ),
                _ => None,
            }
        } else if kind == "resume"@ {
            match j.u64_at("turn_id"@) {
                Some(turn) => Some(SessionMessageView::Resume(id, turn)),
                None => None,
            }
        } else {
            None
        },
        _ => None,
    }
}

/// The form of what a session is asked. The text of its session is read back.
pub fn asked_to_json(m: &SessionMessage) -> (r: Json)
    ensures
        r.deep_view() == asked_json(m.deep_view()),
        id_of_text(id_text(m.deep_view().asked())) == Some(m.deep_view().asked()),
{
    match m {
        SessionMessage::Chat { session_id, payload } => Json::object().plus(
            "kind",
            Json::text("chat"),
        ).plus("message", message_to_json(&payload.message)).plus(
            "options",
            options_to_json(&payload.options),
        ).plus("peer_depth", Json::unsigned(payload.peer_depth as u64)).plus(
            "session_id",
            Json::Text(session_id.to_text()),
        ),
        SessionMessage::Interrupt { session_id } => Json::object().plus(
            "kind",
            Json::text("interrupt"),
        ).plus("session_id", Json::Text(session_id.to_text())),
        SessionMessage::ToolResult { session_id, turn_id, tool_call_id, result } => {
            Json::object().plus("kind", Json::text("tool_result")).plus(
                "result",
                Json::text(result.as_str()),
            ).plus("session_id", Json::Text(session_id.to_text())).plus(
                "tool_call_id",
                Json::text(tool_call_id.as_str()),
            ).plus("turn_id", Json::unsigned(*turn_id))
        },
        SessionMessage::Resume { session_id, turn_id } => Json::object().plus(
            "kind",
            Json::text("resume"),
        ).plus("session_id", Json::Text(session_id.to_text())).plus(
            "turn_id",
            Json::unsigned(*turn_id),
        ),
    }
}

/// What a session is asked, of a form.
pub fn asked_from_json(j: &Json) -> (r: Option<SessionMessage>)
    ensures
        r.deep_view() == read_asked(j.deep_view()),
{
    let kind = match j.str_at("kind") {
        Some(k) => k,
        None => {
            return None;
        },
    };
    let session_id = match j.str_at("session_id") {
        Some(t) => match SessionId::from_text(t.as_str()) {
            Some(id) => id,
            None => {
                return None;
            },
        },
        None => {
            return None;
        },
    };
    if same(kind.as_str(), "chat") {
        let message = match j.get("message") {
            Some(m) => match message_from_json(m) {
                Some(x) => x,
                None => {
                    return None;
                },
            },
            None => {
                return None;
            },
        };
        let options = match j.get("options") {
            Some(o) => match options_from_json(o) {
                Some(x) => x,
                None => {
                    return None;
                },
            },
            None => ChatOptions::default(),
        };
        let peer_depth: u32 = match j.get("peer_depth") {
            None => 0,
            Some(Json::Number(Number::Unsigned(n))) => if *n <= u32::MAX as u64 {
                *n as u32
            } else {
                return None;
            },
            Some(_) => {
                return None;
            },
        };
        Some(
            SessionMessage::Chat {
                session_id,
                payload: ChatPayload { message, options, peer_depth },
            },
        )
    } else if same(kind.as_str(), "interrupt") {
        Some(SessionMessage::Interrupt { session_id })
    } else if same(kind.as_str(), "tool_result") {
        match (j.u64_at("turn_id"), j.str_at("tool_call_id"), j.str_at("result")) {
            (Some(turn_id), Some(tool_call_id), Some(result)) => Some(
                SessionMessage::ToolResult { session_id, turn_id, tool_call_id, result },
            ),
            _ => None,
        }
    } else if same(kind.as_str(), "resume") {
        match j.u64_at("turn_id") {
            Some(turn_id) => Some(SessionMessage::Resume { session_id, turn_id }),
            None => None,
        }
    } else {
        None
    }
}

/// Whether the text of what a session is asked is read back as it was written.
pub open spec fn plain_asked(m: SessionMessageView) -> bool {
    m matches SessionMessageView::Chat(_, p) ==> whole_message(p.message) && plain_options(
        p.options,
    )
}

/// The kinds of messages and the names of their fields are told apart.
proof fn lemma_asked_names()
    ensures
        precedes("kind"@, "message"@),
        precedes("message"@, "options"@),
        precedes("options"@, "peer_depth"@),
        precedes("peer_depth"@, "session_id"@),
        precedes("session_id"@, "~"@),
        precedes("kind"@, "session_id"@),
        precedes("kind"@, "result"@),
        precedes("result"@, "session_id"@),
        precedes("session_id"@, "tool_call_id"@),
        precedes("tool_call_id"@, "turn_id"@),
        precedes("session_id"@, "turn_id"@),
        precedes("turn_id"@, "~"@),
        "chat"@ != "interrupt"@,
        "chat"@ != "tool_result"@,
        "chat"@ != "resume"@,
        "interrupt"@ != "tool_result"@,
        "interrupt"@ != "resume"@,
        "tool_result"@ != "resume"@,
        "kind"@ != "message"@,
        "kind"@ != "session_id"@,
        "kind"@ != "options"@,
        "kind"@ != "peer_depth"@,
        "kind"@ != "result"@,
        "kind"@ != "tool_call_id"@,
        "kind"@ != "turn_id"@,
        "session_id"@ != "message"@,
        "session_id"@ != "options"@,
        "session_id"@ != "peer_depth"@,
        "session_id"@ != "result"@,
        "session_id"@ != "tool_call_id"@,
        "session_id"@ != "turn_id"@,
        "message"@ != "options"@,
        "message"@ != "peer_depth"@,
        "options"@ != "peer_depth"@,
        "result"@ != "tool_call_id"@,
        "result"@ != "turn_id"@,
        "tool_call_id"@ != "turn_id"@,
{
    reveal_strlit("kind");
    reveal_strlit("message");
    reveal_strlit("options");
    reveal_strlit("peer_depth");
    reveal_strlit("session_id");
    reveal_strlit("result");
    reveal_strlit("tool_call_id");
    reveal_strlit("turn_id");
    reveal_strlit("chat");
    reveal_strlit("interrupt");
    reveal_strlit("tool_result");
    reveal_strlit("resume");
    reveal_strlit("~");
    assert("chat"@.len() == 4 && "interrupt"@.len() == 9 && "tool_result"@.len() == 11
        && "resume"@.len() == 6);
    assert("kind"@[0] == 'k' && "message"@[0] == 'm' && "options"@[0] == 'o' && "peer_depth"@[0]
        == 'p' && "session_id"@[0] == 's' && "result"@[0] == 'r' && "tool_call_id"@[1] == 'o'
        && "turn_id"@[1] == 'u' && "turn_id"@[0] == 't' && "tool_call_id"@[0] == 't');
    lemma_precedes_at("kind"@, "message"@, 0);
    lemma_precedes_at("message"@, "options"@, 0);
    lemma_precedes_at("options"@, "peer_depth"@, 0);
    lemma_precedes_at("peer_depth"@, "session_id"@, 0);
    lemma_precedes_at("session_id"@, "~"@, 0);
    lemma_precedes_at("kind"@, "session_id"@, 0);
    lemma_precedes_at("kind"@, "result"@, 0);
    lemma_precedes_at("result"@, "session_id"@, 0);
    lemma_precedes_at("session_id"@, "tool_call_id"@, 0);
    lemma_precedes_at("tool_call_id"@, "turn_id"@, 1);
    lemma_precedes_at("session_id"@, "turn_id"@, 0);
    lemma_precedes_at("turn_id"@, "~"@, 0);
}

/// What a session is asked is read back from its form as it was written.
pub proof fn law_asked(m: SessionMessageView)
    requires
        id_of_text(id_text(m.asked())) == Some(m.asked()),
    ensures
        read_asked(asked_json(m)) == Some(m),
{
    broadcast use lemma_get_plus;

    lemma_asked_names();
    assert(empty_object().get("kind"@) is None);
    assert(empty_object().get("message"@) is None);
    assert(empty_object().get("options"@) is None);
    assert(empty_object().get("peer_depth"@) is None);
    assert(empty_object().get("session_id"@) is None);
    assert(empty_object().get("result"@) is None);
    assert(empty_object().get("tool_call_id"@) is None);
    assert(empty_object().get("turn_id"@) is None);
    if let SessionMessageView::Chat(_, p) = m {
        law_message(p.message);
        lemma_options(p.options);
    }
}

/// The form of what a session is asked is neat, where its numbers are whole.
proof fn lemma_asked_is_neat(m: SessionMessageView)
    requires
        plain_asked(m),
    ensures
        neat(asked_json(m), 127),
{
    lemma_asked_names();
    reveal_strlit("kind");
    lemma_neat_empty("kind"@, 127);
    let j0 = empty_object();
    match m {
        SessionMessageView::Chat(id, p) => {
            law_message_is_neat(p.message);
            crate::json::lemma_neat_more(message_json(p.message), 4, 126);
            lemma_options(p.options);
            crate::json::lemma_neat_more(options_json(p.options), 125, 126);
            let j1 = j0.plus("kind"@, JsonView::Text("chat"@));
            lemma_neat_plus(j0, "kind"@, JsonView::Text("chat"@), "message"@, 127);
            let j2 = j1.plus("message"@, message_json(p.message));
            lemma_neat_plus(j1, "message"@, message_json(p.message), "options"@, 127);
            let j3 = j2.plus("options"@, options_json(p.options));
            lemma_neat_plus(j2, "options"@, options_json(p.options), "peer_depth"@, 127);
            let d = number_json(p.peer_depth as u64);
            let j4 = j3.plus("peer_depth"@, d);
            lemma_neat_plus(j3, "peer_depth"@, d, "session_id"@, 127);
            lemma_neat_plus(j4, "session_id"@, JsonView::Text(id_text(id)), "~"@, 127);
        },
        SessionMessageView::Interrupt(id) => {
            let j1 = j0.plus("kind"@, JsonView::Text("interrupt"@));
            lemma_neat_plus(j0, "kind"@, JsonView::Text("interrupt"@), "session_id"@, 127);
            lemma_neat_plus(j1, "session_id"@, JsonView::Text(id_text(id)), "~"@, 127);
        },
        SessionMessageView::ToolResult(id, turn, call, result) => {
            let j1 = j0.plus("kind"@, JsonView::Text("tool_result"@));
            lemma_neat_plus(j0, "kind"@, JsonView::Text("tool_result"@), "result"@, 127);
            let j2 = j1.plus("result"@, JsonView::Text(result));
            lemma_neat_plus(j1, "result"@, JsonView::Text(result), "session_id"@, 127);
            let j3 = j2.plus("session_id"@, JsonView::Text(id_text(id)));
            lemma_neat_plus(
                j2,
                "session_id"@,
                JsonView::Text(id_text(id)),
                "tool_call_id"@,
                127,
            );
            let j4 = j3.plus("tool_call_id"@, JsonView::Text(call));
            lemma_neat_plus(j3, "tool_call_id"@, JsonView::Text(call), "turn_id"@, 127);
            lemma_neat_plus(j4, "turn_id"@, number_json(turn), "~"@, 127);
        },
        SessionMessageView::Resume(id, turn) => {
            let j1 = j0.plus("kind"@, JsonView::Text("resume"@));
            lemma_neat_plus(j0, "kind"@, JsonView::Text("resume"@), "session_id"@, 127);
            let j2 = j1.plus("session_id"@, JsonView::Text(id_text(id)));
            lemma_neat_plus(j1, "session_id"@, JsonView::Text(id_text(id)), "turn_id"@, 127);
            lemma_neat_plus(j2, "turn_id"@, number_json(turn), "~"@, 127);
        },
    }
}

/// What a text asks a session, or why it asks nothing.
pub open spec fn asked_in(text: Seq<char>) -> Result<SessionMessageView, MessageErrorView> {
    match parsed(text) {
        Err(e) => Err(MessageErrorView::Decode(e)),
        Ok(j) => match read_asked(j) {
            Some(m) => Ok(m),
            None => Err(MessageErrorView::Decode("not a session message"@)),
        },
    }
}

/// What an envelope asks a session, or why it asks nothing.
pub open spec fn asked_by(env: Envelope) -> Result<SessionMessageView, MessageErrorView> {
    match env.lookup("_msg"@) {
        Some(text) => asked_in(text),
        None => Err(MessageErrorView::MissingKey("_msg"@)),
    }
}

/// The result of a reading, of views alone.
pub open spec fn asked_view(r: Result<SessionMessage, MessageError>) -> Result<
    SessionMessageView,
    MessageErrorView,
> {
    match r {
        Ok(m) => Ok(m.deep_view()),
        Err(e) => Err(e.deep_view()),
    }
}

impl SessionMessage {
    /// What a text asks a session.
    pub fn from_text(text: &str) -> (r: Result<SessionMessage, MessageError>)
        ensures
            asked_view(r) == asked_in(text@),
    {
        match parse_text(text) {
            Err(e) => Err(MessageError::Decode(e)),
            Ok(j) => match asked_from_json(&j) {
                Some(m) => Ok(m),
                None => Err(MessageError::Decode("not a session message".to_owned())),
            },
        }
    }

    /// Puts the message into an envelope of its urgency. It is read back from
    /// there, where its numbers are whole.
    pub fn to_envelope(&self) -> (r: Envelope)
        ensures
            r.lookup("_msg"@) == Some(json_text(asked_json(self.deep_view()))),
            r.priority == self.deep_view().urgency(),
            plain_asked(self.deep_view()) ==> asked_by(r) == Ok::<
                SessionMessageView,
                MessageErrorView,
            >(self.deep_view()),
    {
        let form = asked_to_json(self);
        let text = write_text(&form);
        proof {
            let m = self.deep_view();
            if plain_asked(m) {
                lemma_asked_is_neat(m);
                law_asked(m);
                assert(reads_as(text@, asked_json(m)));
            }
        }
        let mut env = Envelope::new();
        env.priority = self.priority();
        env.insert("_msg", text);
        env
    }

    /// What an envelope asks a session.
    pub fn from_envelope(env: &Envelope) -> (r: Result<SessionMessage, MessageError>)
        ensures
            asked_view(r) == asked_by(*env),
    {
        match env.get("_msg") {
            Some(text) => SessionMessage::from_text(text.as_str()),
            None => Err(MessageError::MissingKey("_msg".to_owned())),
        }
    }
}

// ---------------------------------------------------------------------------
// Replies

/// The form of why a model stopped.
pub open spec fn finish_json(f: FinishReasonView) -> JsonView {
    match f {
        FinishReasonView::Stop => JsonView::Text("stop"@),
        FinishReasonView::Length => JsonView::Text("length"@),
        FinishReasonView::ToolCalls => JsonView::Text("tool_calls"@),
        FinishReasonView::Other(s) => empty_object().plus("other"@, JsonView::Text(s)),
    }
}

/// Why a model stopped, of a form.
pub open spec fn read_finish(j: JsonView) -> Option<FinishReasonView> {
    match j {
        JsonView::Text(s) => if s == "stop"@ {
            Some(FinishReasonView::Stop)
        } else if s == "length"@ {
            Some(FinishReasonView::Length)
        } else if s == "tool_calls"@ {
            Some(FinishReasonView::ToolCalls)
        } else {
            None
        },
        _ => match j.str_at("other"@) {
            Some(s) => Some(FinishReasonView::Other(s)),
            None => None,
        },
    }
}

fn finish_to_json(f: &FinishReason) -> (r: Json)
    ensures
        r.deep_view() == finish_json(f.deep_view()),
{
    match f {
        FinishReason::Stop => Json::text("stop"),
        FinishReason::Length => Json::text("length"),
        FinishReason::ToolCalls => Json::text("tool_calls"),
        FinishReason::Other(s) => Json::object().plus("other", Json::text(s.as_str())),
    }
}

fn finish_from_json(j: &Json) -> (r: Option<FinishReason>)
    ensures
        r.deep_view() == read_finish(j.deep_view()),
{
    match j {
        Json::Text(s) => if same(s.as_str(), "stop") {
            Some(FinishReason::Stop)
        } else if same(s.as_str(), "length") {
            Some(FinishReason::Length)
        } else if same(s.as_str(), "tool_calls") {
            Some(FinishReason::ToolCalls)
        } else {
            None
        },
        _ => match j.str_at("other") {
            Some(s) => Some(FinishReason::Other(s)),
            None => None,
        },
    }
}

proof fn lemma_finish(f: FinishReasonView)
    ensures
        read_finish(finish_json(f)) == Some(f),
        neat(finish_json(f), 1),
{
    broadcast use lemma_get_plus;

    reveal_strlit("stop");
    reveal_strlit("length");
    reveal_strlit("tool_calls");
    reveal_strlit("other");
    reveal_strlit("~");
    assert("stop"@.len() == 4 && "length"@.len() == 6 && "tool_calls"@.len() == 10);
    assert(empty_object().get("other"@) is None);
    lemma_neat_empty("other"@, 1);
    lemma_precedes_at("other"@, "~"@, 0);
    if let FinishReasonView::Other(s) = f {
        lemma_neat_plus(empty_object(), "other"@, JsonView::Text(s), "~"@, 1);
    }
}

/// The name of a kind of failure.
pub open spec fn kind_name(k: ErrorKind) -> Seq<char> {
    match k {
        ErrorKind::Timeout => "timeout"@,
        ErrorKind::RateLimited => "rate_limited"@,
        ErrorKind::Llm => "llm"@,
        ErrorKind::Budget => "budget"@,
        ErrorKind::Internal => "internal"@,
    }
}

/// The kind of failure in a form; where there is none, it is an internal one.
pub open spec fn read_kind_at(j: JsonView) -> Option<ErrorKind> {
    match j.get("kind"@) {
        None => Some(ErrorKind::Internal),
        Some(JsonView::Text(s)) => if s == "timeout"@ {
            Some(ErrorKind::Timeout)
        } else if s == "rate_limited"@ {
            Some(ErrorKind::RateLimited)
        } else if s == "llm"@ {
            Some(ErrorKind::Llm)
        } else if s == "budget"@ {
            Some(ErrorKind::Budget)
        } else if s == "internal"@ {
            Some(ErrorKind::Internal)
        } else {
            None
        },
        Some(_) => None,
    }
}

fn kind_str(k: ErrorKind) -> (r: &'static str)
    ensures
        r@ == kind_name(k),
{
    match k {
        ErrorKind::Timeout => "timeout",
        ErrorKind::RateLimited => "rate_limited",
        ErrorKind::Llm => "llm",
        ErrorKind::Budget => "budget",
        ErrorKind::Internal => "internal",
    }
}

fn kind_at(j: &Json) -> (r: Option<ErrorKind>)
    ensures
        r == read_kind_at(j.deep_view()),
{
    match j.get("kind") {
        None => Some(ErrorKind::Internal),
        Some(Json::Text(s)) => if same(s.as_str(), "timeout") {
            Some(ErrorKind::Timeout)
        } else if same(s.as_str(), "rate_limited") {
            Some(ErrorKind::RateLimited)
        } else if same(s.as_str(), "llm") {
            Some(ErrorKind::Llm)
        } else if same(s.as_str(), "budget") {
            Some(ErrorKind::Budget)
        } else if same(s.as_str(), "internal") {
            Some(ErrorKind::Internal)
        } else {
            None
        },
        Some(_) => None,
    }
}

/// The wait in a form, where one is asked for.
pub open spec fn read_wait_at(j: JsonView) -> Option<Option<u64>> {
    match j.get("retry_after_ms"@) {
        None => Some(None),
        Some(JsonView::Null) => Some(None),
        Some(JsonView::Number(NumberView::Unsigned(n))) => Some(Some(n)),
        Some(_) => None,
    }
}

/// The token counts as a value.
pub open spec fn usage_or_null(u: Option<TokenUsage>) -> JsonView {
    match u {
        Some(x) => usage_json(x),
        None => JsonView::Null,
    }
}

/// The wait as a value.
pub open spec fn wait_or_null(w: Option<u64>) -> JsonView {
    match w {
        Some(n) => number_json(n),
        None => JsonView::Null,
    }
}

/// The form of what a session answers.
pub open spec fn reply_json(m: SessionReplyView) -> JsonView {
    match m {
        SessionReplyView::Success(r) => empty_object().plus(
            "finish_reason"@,
            finish_json(r.finish_reason),
        ).plus("id"@, JsonView::Text(r.id)).plus("message"@, message_json(r.message)).plus(
            "model"@,
            JsonView::Text(r.model),
        ).plus("reply"@, JsonView::Text("success"@)).plus("usage"@, usage_or_null(r.usage)),
        SessionReplyView::Busy(turn) => empty_object().plus(
            "reply"@,
            JsonView::Text("busy"@),
        ).plus("turn_id"@, number_json(turn)),
        SessionReplyView::Error(message, kind, wait) => empty_object().plus(
            "kind"@,
            JsonView::Text(kind_name(kind)),
        ).plus("message"@, JsonView::Text(message)).plus("reply"@, JsonView::Text("error"@)).plus(
            "retry_after_ms"@,
            wait_or_null(wait),
        ),
        SessionReplyView::Cancelled => empty_object().plus(
            "reply"@,
            JsonView::Text("cancelled"@),
        ),
        SessionReplyView::Unhandled(reason) => empty_object().plus(
            "reason"@,
            JsonView::Text(reason),
        ).plus("reply"@, JsonView::Text("unhandled"@)),
    }
}

/// The token counts in a form.
pub open spec fn read_counts_at(j: JsonView) -> Option<Option<TokenUsage>> {
    match j.get("usage"@) {
        None => Some(None),
        Some(JsonView::Null) => Some(None),
        Some(u) => match read_usage(u) {
            Some(x) => Some(Some(x)),
            None => None,
        },
    }
}

/// Why a model stopped, in a form.
pub open spec fn read_finish_at(j: JsonView) -> Option<FinishReasonView> {
    match j.get("finish_reason"@) {
        Some(f) => read_finish(f),
        None => None,
    }
}

/// What a session answers, of a form.
pub open spec fn read_reply(j: JsonView) -> Option<SessionReplyView> {
    match j.str_at("reply"@) {
        Some(kind) => if kind == "success"@ {
            match (
                j.str_at("id"@),
                j.str_at("model"@),
                read_message_at(j),
                read_finish_at(j),
                read_counts_at(j),
            ) {
                (Some(id), Some(model), Some(message), Some(finish_reason), Some(usage)) => Some(
                    SessionReplyView::Success(
                        ChatResponseView { id, model, message, finish_reason, usage },
                    ),
                ),
                _ => None,
            }
        } else if kind == "busy"@ {
            match j.u64_at("turn_id"@) {
                Some(turn) => Some(SessionReplyView::Busy(turn)),
                None => None,
            }
        } else if kind == "error"@ {
            match (j.str_at("message"@), read_kind_at(j), read_wait_at(j)) {
                (Some(message), Some(kind), Some(wait)) => Some(
                    SessionReplyView::Error(message, kind, wait),
                ),
                _ => None,
            }
        } else if kind == "cancelled"@ {
            Some(SessionReplyView::Cancelled)
        } else if kind == "unhandled"@ {
            match j.str_at("reason"@) {
                Some(reason) => Some(SessionReplyView::Unhandled(reason)),
                None => None,
            }
        } else {
            None
        },
        None => None,
    }
}

/// The form of what a session answers.
pub fn reply_to_json(m: &SessionReply) -> (r: Json)
    ensures
        r.deep_view() == reply_json(m.deep_view()),
{
    match m {
        SessionReply::Success { id, model, message, finish_reason, usage } => {
            let counts = match usage {
                Some(u) => usage_to_json(u),
                None => Json::Null,
            };
            Json::object().plus("finish_reason", finish_to_json(finish_reason)).plus(
                "id",
                Json::text(id.as_str()),
            ).plus("message", message_to_json(message)).plus(
                "model",
                Json::text(model.as_str()),
            ).plus("reply", Json::text("success")).plus("usage", counts)
        },
        SessionReply::Busy { turn_id } => Json::object().plus("reply", Json::text("busy")).plus(
            "turn_id",
            Json::unsigned(*turn_id),
        ),
        SessionReply::Error { message, kind, retry_after_ms } => {
            let wait = match retry_after_ms {
                Some(n) => Json::unsigned(*n),
                None => Json::Null,
            };
            Json::object().plus("kind", Json::text(kind_str(*kind))).plus(
                "message",
                Json::text(message.as_str()),
            ).plus("reply", Json::text("error")).plus("retry_after_ms", wait)
        },
        SessionReply::Cancelled => Json::object().plus("reply", Json::text("cancelled")),
        SessionReply::Unhandled { reason } => Json::object().plus(
            "reason",
            Json::text(reason.as_str()),
        ).plus("reply", Json::text("unhandled")),
    }
}

fn success_from_json(j: &Json) -> (r: Option<SessionReply>)
    ensures
        r.deep_view() == (match (
            j.deep_view().str_at("id"@),
            j.deep_view().str_at("model"@),
            read_message_at(j.deep_view()),
            read_finish_at(j.deep_view()),
            read_counts_at(j.deep_view()),
        ) {
            (Some(id), Some(model), Some(message), Some(finish_reason), Some(usage)) => Some(
                SessionReplyView::Success(
                    ChatResponseView { id, model, message, finish_reason, usage },
                ),
            ),
            _ => None,
        }),
{
    let (id, model) = match (j.str_at("id"), j.str_at("model")) {
        (Some(id), Some(model)) => (id, model),
        _ => {
            return None;
        },
    };
    let message = match j.get("message") {
        Some(m) => match message_from_json(m) {
            Some(x) => x,
            None => {
                return None;
            },
        },
        None => {
            return None;
        },
    };
    let finish_reason = match j.get("finish_reason") {
        Some(f) => match finish_from_json(f) {
            Some(x) => x,
            None => {
                return None;
            },
        },
        None => {
            return None;
        },
    };
    let usage = match j.get("usage") {
        None => None,
        Some(Json::Null) => None,
        Some(u) => match usage_from_json(u) {
            Some(x) => Some(x),
            None => {
                return None;
            },
        },
    };
    Some(SessionReply::Success { id, model, message: Box::new(message), finish_reason, usage })
}

/// What a session answers, of a form.
pub fn reply_from_json(j: &Json) -> (r: Option<SessionReply>)
    ensures
        r.deep_view() == read_reply(j.deep_view()),
{
    let kind = match j.str_at("reply") {
        Some(k) => k,
        None => {
            return None;
        },
    };
    if same(kind.as_str(), "success") {
        success_from_json(j)
    } else if same(kind.as_str(), "busy") {
        match j.u64_at("turn_id") {
            Some(turn_id) => Some(SessionReply::Busy { turn_id }),
            None => None,
        }
    } else if same(kind.as_str(), "error") {
        let message = match j.str_at("message") {
            Some(m) => m,
            None => {
                return None;
            },
        };
        let kind = match kind_at(j) {
            Some(k) => k,
            None => {
                return None;
            },
        };
        let retry_after_ms = match j.get("retry_after_ms") {
            None => None,
            Some(Json::Null) => None,
            Some(Json::Number(Number::Unsigned(n))) => Some(*n),
            Some(_) => {
                return None;
            },
        };
        Some(SessionReply::Error { message, kind, retry_after_ms })
    } else if same(kind.as_str(), "cancelled") {
        Some(SessionReply::Cancelled)
    } else if same(kind.as_str(), "unhandled") {
        match j.str_at("reason") {
            Some(reason) => Some(SessionReply::Unhandled { reason }),
            None => None,
        }
    } else {
        None
    }
}

/// Whether the text of an answer is read back as it was written.
pub open spec fn plain_reply(m: SessionReplyView) -> bool {
    m matches SessionReplyView::Success(r) ==> whole_message(r.message)
}

/// The kinds of answers and the names of their fields are told apart.
proof fn lemma_reply_names()
    ensures
        precedes("finish_reason"@, "id"@),
        precedes("id"@, "message"@),
        precedes("message"@, "model"@),
        precedes("model"@, "reply"@),
        precedes("reply"@, "usage"@),
        precedes("usage"@, "~"@),
        precedes("reply"@, "turn_id"@),
        precedes("turn_id"@, "~"@),
        precedes("kind"@, "message"@),
        precedes("message"@, "reply"@),
        precedes("reply"@, "retry_after_ms"@),
        precedes("retry_after_ms"@, "~"@),
        precedes("reply"@, "~"@),
        precedes("reason"@, "reply"@),
        "success"@ != "busy"@,
        "success"@ != "error"@,
        "success"@ != "cancelled"@,
        "success"@ != "unhandled"@,
        "busy"@ != "error"@,
        "busy"@ != "cancelled"@,
        "busy"@ != "unhandled"@,
        "error"@ != "cancelled"@,
        "error"@ != "unhandled"@,
        "cancelled"@ != "unhandled"@,
        "reply"@ != "finish_reason"@,
        "reply"@ != "id"@,
        "reply"@ != "message"@,
        "reply"@ != "model"@,
        "reply"@ != "usage"@,
        "reply"@ != "turn_id"@,
        "reply"@ != "kind"@,
        "reply"@ != "retry_after_ms"@,
        "reply"@ != "reason"@,
        "finish_reason"@ != "id"@,
        "finish_reason"@ != "message"@,
        "finish_reason"@ != "model"@,
        "finish_reason"@ != "usage"@,
        "id"@ != "message"@,
        "id"@ != "model"@,
        "id"@ != "usage"@,
        "message"@ != "model"@,
        "message"@ != "usage"@,
        "model"@ != "usage"@,
        "kind"@ != "message"@,
        "kind"@ != "retry_after_ms"@,
        "message"@ != "retry_after_ms"@,
{
    reveal_strlit("finish_reason");
    reveal_strlit("id");
    reveal_strlit("message");
    reveal_strlit("model");
    reveal_strlit("reply");
    reveal_strlit("usage");
    reveal_strlit("turn_id");
    reveal_strlit("kind");
    reveal_strlit("retry_after_ms");
    reveal_strlit("reason");
    reveal_strlit("success");
    reveal_strlit("busy");
    reveal_strlit("error");
    reveal_strlit("cancelled");
    reveal_strlit("unhandled");
    reveal_strlit("~");
    assert("success"@[0] == 's' && "busy"@[0] == 'b' && "error"@[0] == 'e' && "cancelled"@[0]
        == 'c' && "unhandled"@[0] == 'u');
    assert("finish_reason"@[0] == 'f' && "id"@[0] == 'i' && "message"@[0] == 'm' && "usage"@[0]
        == 'u' && "turn_id"@[0] == 't' && "kind"@[0] == 'k' && "reply"@[0] == 'r');
    assert("message"@[1] == 'e' && "model"@[1] == 'o' && "model"@[0] == 'm');
    assert("reply"@.len() == 5 && "reason"@.len() == 6 && "retry_after_ms"@.len() == 14);
    assert("reply"@[1] == 'e' && "reason"@[1] == 'e' && "retry_after_ms"@[1] == 'e');
    assert("reply"@[2] == 'p' && "reason"@[2] == 'a' && "retry_after_ms"@[2] == 't');
    lemma_precedes_at("finish_reason"@, "id"@, 0);
    lemma_precedes_at("id"@, "message"@, 0);
    lemma_precedes_at("message"@, "model"@, 1);
    lemma_precedes_at("model"@, "reply"@, 0);
    lemma_precedes_at("reply"@, "usage"@, 0);
    lemma_precedes_at("usage"@, "~"@, 0);
    lemma_precedes_at("reply"@, "turn_id"@, 0);
    lemma_precedes_at("turn_id"@, "~"@, 0);
    lemma_precedes_at("kind"@, "message"@, 0);
    lemma_precedes_at("message"@, "reply"@, 0);
    assert("reply"@.take(2) =~= "retry_after_ms"@.take(2));
    lemma_same_start("reply"@, "retry_after_ms"@, 2);
    lemma_precedes_at("reply"@, "retry_after_ms"@, 2);
    lemma_precedes_at("retry_after_ms"@, "~"@, 0);
    lemma_precedes_at("reply"@, "~"@, 0);
    assert("reason"@.take(2) =~= "reply"@.take(2));
    lemma_same_start("reason"@, "reply"@, 2);
    lemma_precedes_at("reason"@, "reply"@, 2);
}

/// The names of the kinds of failures are told apart.
proof fn lemma_kind(k: ErrorKind, j: JsonView)
    requires
        j.get("kind"@) == Some(JsonView::Text(kind_name(k))),
    ensures
        read_kind_at(j) == Some(k),
{
    reveal_strlit("timeout");
    reveal_strlit("rate_limited");
    reveal_strlit("llm");
    reveal_strlit("budget");
    reveal_strlit("internal");
    assert("timeout"@[0] == 't' && "rate_limited"@[0] == 'r' && "llm"@[0] == 'l' && "budget"@[0]
        == 'b' && "internal"@[0] == 'i');
}

/// What a session answers is read back from its form as it was written.
pub proof fn law_reply(m: SessionReplyView)
    ensures
        read_reply(reply_json(m)) == Some(m),
{
    broadcast use lemma_get_plus;

    lemma_reply_names();
    assert(empty_object().get("finish_reason"@) is None);
    assert(empty_object().get("id"@) is None);
    assert(empty_object().get("message"@) is None);
    assert(empty_object().get("model"@) is None);
    assert(empty_object().get("reply"@) is None);
    assert(empty_object().get("usage"@) is None);
    assert(empty_object().get("turn_id"@) is None);
    assert(empty_object().get("kind"@) is None);
    assert(empty_object().get("retry_after_ms"@) is None);
    assert(empty_object().get("reason"@) is None);
    match m {
        SessionReplyView::Success(r) => {
            law_message(r.message);
            lemma_finish(r.finish_reason);
            if let Some(u) = r.usage {
                law_usage(u);
                assert(!(usage_json(u) is Null));
            }
        },
        SessionReplyView::Error(_, kind, _) => {
            assert(reply_json(m).get("kind"@) == Some(JsonView::Text(kind_name(kind))));
            lemma_kind(kind, reply_json(m));
        },
        _ => {},
    }
}

/// The form of an answer is neat, where its numbers are whole.
proof fn lemma_reply_is_neat(m: SessionReplyView)
    requires
        plain_reply(m),
    ensures
        neat(reply_json(m), 127),
{
    lemma_reply_names();
    let j0 = empty_object();
    match m {
        SessionReplyView::Success(r) => {
            lemma_finish(r.finish_reason);
            crate::json::lemma_neat_more(finish_json(r.finish_reason), 1, 126);
            law_message_is_neat(r.message);
            crate::json::lemma_neat_more(message_json(r.message), 4, 126);
            if let Some(u) = r.usage {
                lemma_usage_is_neat(u);
                crate::json::lemma_neat_more(usage_json(u), 1, 126);
            }
            reveal_strlit("finish_reason");
            lemma_neat_empty("finish_reason"@, 127);
            let f = finish_json(r.finish_reason);
            let j1 = j0.plus("finish_reason"@, f);
            lemma_neat_plus(j0, "finish_reason"@, f, "id"@, 127);
            let j2 = j1.plus("id"@, JsonView::Text(r.id));
            lemma_neat_plus(j1, "id"@, JsonView::Text(r.id), "message"@, 127);
            let j3 = j2.plus("message"@, message_json(r.message));
            lemma_neat_plus(j2, "message"@, message_json(r.message), "model"@, 127);
            let j4 = j3.plus("model"@, JsonView::Text(r.model));
            lemma_neat_plus(j3, "model"@, JsonView::Text(r.model), "reply"@, 127);
            let j5 = j4.plus("reply"@, JsonView::Text("success"@));
            lemma_neat_plus(j4, "reply"@, JsonView::Text("success"@), "usage"@, 127);
            lemma_neat_plus(j5, "usage"@, usage_or_null(r.usage), "~"@, 127);
        },
        SessionReplyView::Busy(turn) => {
            reveal_strlit("reply");
            lemma_neat_empty("reply"@, 127);
            let j1 = j0.plus("reply"@, JsonView::Text("busy"@));
            lemma_neat_plus(j0, "reply"@, JsonView::Text("busy"@), "turn_id"@, 127);
            lemma_neat_plus(j1, "turn_id"@, number_json(turn), "~"@, 127);
        },
        SessionReplyView::Error(message, kind, wait) => {
            reveal_strlit("kind");
            lemma_neat_empty("kind"@, 127);
            let k = JsonView::Text(kind_name(kind));
            let j1 = j0.plus("kind"@, k);
            lemma_neat_plus(j0, "kind"@, k, "message"@, 127);
            let j2 = j1.plus("message"@, JsonView::Text(message));
            lemma_neat_plus(j1, "message"@, JsonView::Text(message), "reply"@, 127);
            let j3 = j2.plus("reply"@, JsonView::Text("error"@));
            lemma_neat_plus(j2, "reply"@, JsonView::Text("error"@), "retry_after_ms"@, 127);
            lemma_neat_plus(j3, "retry_after_ms"@, wait_or_null(wait), "~"@, 127);
        },
        SessionReplyView::Cancelled => {
            reveal_strlit("reply");
            lemma_neat_empty("reply"@, 127);
            lemma_neat_plus(j0, "reply"@, JsonView::Text("cancelled"@), "~"@, 127);
        },
        SessionReplyView::Unhandled(reason) => {
            reveal_strlit("reason");
            lemma_neat_empty("reason"@, 127);
            let j1 = j0.plus("reason"@, JsonView::Text(reason));
            lemma_neat_plus(j0, "reason"@, JsonView::Text(reason), "reply"@, 127);
            lemma_neat_plus(j1, "reply"@, JsonView::Text("unhandled"@), "~"@, 127);
        },
    }
}

/// What a text answers, or why it answers nothing.
pub open spec fn reply_in(text: Seq<char>) -> Result<SessionReplyView, MessageErrorView> {
    match parsed(text) {
        Err(e) => Err(MessageErrorView::Decode(e)),
        Ok(j) => match read_reply(j) {
            Some(m) => Ok(m),
            None => Err(MessageErrorView::Decode("not a session reply"@)),
        },
    }
}

/// What an envelope answers, or why it answers nothing.
pub open spec fn reply_by(env: Envelope) -> Result<SessionReplyView, MessageErrorView> {
    match env.lookup("_reply"@) {
        Some(text) => reply_in(text),
        None => Err(MessageErrorView::MissingKey("_reply"@)),
    }
}

/// The result of a reading, of views alone.
pub open spec fn reply_view(r: Result<SessionReply, MessageError>) -> Result<
    SessionReplyView,
    MessageErrorView,
> {
    match r {
        Ok(m) => Ok(m.deep_view()),
        Err(e) => Err(e.deep_view()),
    }
}

impl SessionReply {
    /// What a text answers.
    pub fn from_text(text: &str) -> (r: Result<SessionReply, MessageError>)
        ensures
            reply_view(r) == reply_in(text@),
    {
        match parse_text(text) {
            Err(e) => Err(MessageError::Decode(e)),
            Ok(j) => match reply_from_json(&j) {
                Some(m) => Ok(m),
                None => Err(MessageError::Decode("not a session reply".to_owned())),
            },
        }
    }

    /// Puts the answer into an envelope. It is read back from there, where its
    /// numbers are whole.
    pub fn to_envelope(&self) -> (r: Envelope)
        ensures
            r.lookup("_reply"@) == Some(json_text(reply_json(self.deep_view()))),
            r.priority == crate::session::message::PRIORITY_NORMAL,
            plain_reply(self.deep_view()) ==> reply_by(r) == Ok::<
                SessionReplyView,
                MessageErrorView,
            >(self.deep_view()),
    {
        let form = reply_to_json(self);
        let text = write_text(&form);
        proof {
            let m = self.deep_view();
            if plain_reply(m) {
                lemma_reply_is_neat(m);
                law_reply(m);
                assert(reads_as(text@, reply_json(m)));
            }
        }
        let mut env = Envelope::new();
        env.insert("_reply", text);
        env
    }

    /// What an envelope answers.
    pub fn from_envelope(env: &Envelope) -> (r: Result<SessionReply, MessageError>)
        ensures
            reply_view(r) == reply_by(*env),
    {
        match env.get("_reply") {
            Some(text) => SessionReply::from_text(text.as_str()),
            None => Err(MessageError::MissingKey("_reply".to_owned())),
        }
    }
}

} // verus!
