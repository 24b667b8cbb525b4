//! What the adapters of the vendors share.

use vstd::prelude::*;
use vstd::string::*;

use crate::json::{law_find_put, Json, JsonView};
use crate::provider::openai_compat::{build_common_body, common_body, with_extras};
use crate::provider::{
    ChatRequest, ChatRequestView, MultimodalCapabilities, ProviderCapabilities, ReasoningEffort,
};

verus! {

broadcast use vstd::string::group_string_axioms;

/// The name of an effort on the wire.
pub open spec fn effort_name(e: ReasoningEffort) -> Seq<char> {
    match e {
        ReasoningEffort::Low => "low"@,
        ReasoningEffort::High => "high"@,
        ReasoningEffort::Max => "max"@,
    }
}

/// A body with the effort of thinking, where one is asked for.
pub open spec fn with_effort(body: JsonView, effort: Option<ReasoningEffort>) -> JsonView {
    match effort {
        Some(e) => body.with("reasoning_effort"@, JsonView::Text(effort_name(e))),
        None => body,
    }
}

/// A body with the effort of thinking, where one is asked for.
pub fn add_effort(body: Json, effort: Option<ReasoningEffort>) -> (r: Json)
    ensures
        r.deep_view() == with_effort(body.deep_view(), effort),
{
    match effort {
        Some(e) => {
            let name = match e {
                ReasoningEffort::Low => "low",
                ReasoningEffort::High => "high",
                ReasoningEffort::Max => "max",
            };
            body.with("reasoning_effort", Json::text(name))
        },
        None => body,
    }
}

/// The shared fields of a request to a model.
pub open spec fn shared_body(req: ChatRequestView, model: Seq<char>) -> JsonView {
    common_body(
        req.messages,
        req.tools,
        req.tool_choice,
        req.temperature,
        req.max_tokens,
        model,
    )
}

/// The shared fields of a request to a model.
pub fn build_shared_body(req: &ChatRequest, model: &str) -> (r: Json)
    ensures
        r.deep_view() == shared_body(req.deep_view(), model@),
{
    build_common_body(
        &req.messages,
        &req.tools,
        req.tool_choice,
        &req.temperature,
        req.max_tokens,
        model,
    )
}

/// The value that comes last under a name.
pub open spec fn last_value(fields: Seq<(Seq<char>, JsonView)>, key: Seq<char>) -> Option<JsonView>
    decreases fields.len(),
{
    if fields.len() == 0 {
        None
    } else if fields.last().0 == key {
        Some(fields.last().1)
    } else {
        last_value(fields.drop_last(), key)
    }
}

/// What a caller adds to a body stands there in place of everything else, and
/// every other field stays as it was.
pub proof fn law_extras_win(
    body: JsonView,
    extra: Seq<(Seq<char>, JsonView)>,
    key: Seq<char>,
)
    requires
        body is Object,
    ensures
        with_extras(body, extra) is Object,
        with_extras(body, extra).get(key) == (match last_value(extra, key) {
            Some(v) => Some(v),
            None => body.get(key),
        }),
    decreases extra.len(),
{
    if extra.len() > 0 {
        let before = extra.drop_last();
        law_extras_win(body, before, key);
        if let JsonView::Object(fields) = with_extras(body, before) {
            law_find_put(fields, extra.last().0, extra.last().1, key);
        }
    }
}

/// What a text model with everything else can do.
pub open spec fn plain_capabilities(multimodal: MultimodalCapabilities) -> ProviderCapabilities {
    ProviderCapabilities {
        parallel_tool_calls: true,
        system_role: true,
        streaming: true,
        usage_reported: true,
        multimodal,
    }
}

/// What a text model with everything else can do.
pub fn capabilities_with(multimodal: MultimodalCapabilities) -> (r: ProviderCapabilities)
    ensures
        r == plain_capabilities(multimodal),
{
    ProviderCapabilities {
        parallel_tool_calls: true,
        system_role: true,
        streaming: true,
        usage_reported: true,
        multimodal,
    }
}

} // verus!
