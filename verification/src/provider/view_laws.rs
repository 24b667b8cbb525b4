//! The views of what is exchanged with a vendor say everything that the values hold.

use vstd::prelude::*;
use vstd::string::*;

use crate::json::{Json, JsonView, Number, NumberView};
use crate::provider::content::{ContentPart, ContentPartView, MediaSource, MediaSourceView};
use crate::provider::{
    ChatRequest, ChatResponse, FinishReason, FinishReasonView, LlmError, LlmErrorView, Message,
    MessageContent, MessageContentView, StreamChunk, StreamChunkView, ToolCall, ToolCallDelta,
    ToolDeclaration,
};
use crate::time::Duration;

verus! {

/// An optional text and its view.
pub open spec fn same_text(a: Option<String>, b: Option<Seq<char>>) -> bool {
    match a {
        Some(s) => b == Some(s@),
        None => b is None,
    }
}

/// A message.
pub proof fn law_message_view(m: Message, i: int)
    ensures
        m.deep_view().role == m.role,
        m.content matches MessageContent::Text(s) ==> m.deep_view().content
            == MessageContentView::Text(s@),
        m.content matches MessageContent::Multimodal(ps) ==> (m.deep_view().content matches MessageContentView::Multimodal(
            vs,
        ) && vs.len() == ps@.len() && (0 <= i < ps@.len() ==> vs[i] == ps@[i].deep_view())),
        same_text(m.reasoning_content, m.deep_view().reasoning_content),
        same_text(m.tool_call_id, m.deep_view().tool_call_id),
        m.deep_view().usage == m.usage,
        m.deep_view().tool_calls.len() == m.tool_calls@.len(),
        0 <= i < m.tool_calls@.len() ==> m.deep_view().tool_calls[i]
            == m.tool_calls@[i].deep_view(),
{
}

/// A call, an addition to one, and a declaration.
pub proof fn law_call_views(c: ToolCall, d: ToolCallDelta, t: ToolDeclaration)
    ensures
        c.deep_view().id == c.id@,
        c.deep_view().name == c.function.name@,
        c.deep_view().arguments == c.function.arguments@,
        d.deep_view().index == d.index,
        same_text(d.id, d.deep_view().id),
        d.function matches Some(f) ==> (d.deep_view().function matches Some(g) && same_text(
            f.name,
            g.name,
        ) && same_text(f.arguments, g.arguments)),
        d.function is None ==> d.deep_view().function is None,
        t.deep_view().name == t.name@,
        t.deep_view().description == t.description@,
        t.deep_view().parameters == t.parameters.deep_view(),
{
}

/// A request.
pub proof fn law_request_view(r: ChatRequest, i: int)
    ensures
        r.deep_view().messages.len() == r.messages@.len(),
        0 <= i < r.messages@.len() ==> r.deep_view().messages[i] == r.messages@[i].deep_view(),
        r.deep_view().tools.len() == r.tools@.len(),
        0 <= i < r.tools@.len() ==> r.deep_view().tools[i] == r.tools@[i].deep_view(),
        r.deep_view().tool_choice == r.tool_choice,
        r.temperature matches Some(n) ==> r.deep_view().temperature == Some(n.deep_view()),
        r.temperature is None ==> r.deep_view().temperature is None,
        r.deep_view().max_tokens == r.max_tokens,
        r.deep_view().thinking == r.thinking,
        r.deep_view().extra.len() == r.extra@.len(),
        0 <= i < r.extra@.len() ==> r.deep_view().extra[i].0 == r.extra@[i].0@
            && r.deep_view().extra[i].1 == r.extra@[i].1.deep_view(),
{
}

/// A response.
pub proof fn law_response_view(r: ChatResponse)
    ensures
        r.deep_view().id == r.id@,
        r.deep_view().model == r.model@,
        r.deep_view().message == r.message.deep_view(),
        r.deep_view().usage == r.usage,
        r.finish_reason is Stop ==> r.deep_view().finish_reason is Stop,
        r.finish_reason is Length ==> r.deep_view().finish_reason is Length,
        r.finish_reason is ToolCalls ==> r.deep_view().finish_reason is ToolCalls,
        r.finish_reason matches FinishReason::Other(s) ==> r.deep_view().finish_reason
            == FinishReasonView::Other(s@),
{
}

/// A chunk of a stream.
pub proof fn law_chunk_view(c: StreamChunk, i: int)
    ensures
        c matches StreamChunk::Delta { content, reasoning_content, tool_calls, role } ==> (
        c.deep_view() matches StreamChunkView::Delta(d) && same_text(content, d.content)
            && same_text(reasoning_content, d.reasoning_content) && d.role == role
            && d.tool_calls.len() == tool_calls@.len() && (0 <= i < tool_calls@.len()
            ==> d.tool_calls[i] == tool_calls@[i].deep_view())),
        c matches StreamChunk::Finish { finish_reason, usage } ==> c.deep_view()
            == StreamChunkView::Finish(finish_reason.deep_view(), usage),
{
}

/// An error.
pub proof fn law_error_view(e: LlmError)
    ensures
        e matches LlmError::Network(s) ==> e.deep_view() == LlmErrorView::Network(s@),
        e is Timeout ==> e.deep_view() is Timeout,
        e is Auth ==> e.deep_view() is Auth,
        e matches LlmError::RateLimited { retry_after } ==> e.deep_view()
            == LlmErrorView::RateLimited(retry_after),
        e matches LlmError::InsufficientBalance(s) ==> e.deep_view()
            == LlmErrorView::InsufficientBalance(s@),
        e matches LlmError::BadRequest(s) ==> e.deep_view() == LlmErrorView::BadRequest(s@),
        e matches LlmError::ContentBlocked(s) ==> e.deep_view() == LlmErrorView::ContentBlocked(s@),
        e matches LlmError::Server { status, body } ==> e.deep_view() == LlmErrorView::Server(
            status,
            body@,
        ),
        e matches LlmError::Protocol(s) ==> e.deep_view() == LlmErrorView::Protocol(s@),
{
}

/// A part of a content, and a medium.
pub proof fn law_part_views(p: ContentPart, s: MediaSource)
    ensures
        p matches ContentPart::Text { text } ==> p.deep_view() == ContentPartView::Text(text@),
        p matches ContentPart::Image { source, detail } ==> p.deep_view() == ContentPartView::Image(
            source.deep_view(),
            detail,
        ),
        p matches ContentPart::Audio { source } ==> p.deep_view() == ContentPartView::Audio(
            source.deep_view(),
        ),
        p matches ContentPart::Video { source, params } ==> (p.deep_view() matches ContentPartView::Video(
            v,
            w,
        ) && v == source.deep_view() && w.media_resolution == params.media_resolution
            && w.fps == params.fps.deep_view()),
        s matches MediaSource::Url { url } ==> s.deep_view() == MediaSourceView::Url(url@),
        s matches MediaSource::Base64 { mime, data } ==> s.deep_view() == MediaSourceView::Base64(
            mime@,
            data@,
        ),
        s matches MediaSource::FileId { file_id } ==> s.deep_view() == MediaSourceView::FileId(
            file_id@,
        ),
{
}

/// A value in JSON.
pub proof fn law_json_view(j: Json, i: int)
    ensures
        j is Null ==> j.deep_view() is Null,
        j matches Json::Bool(b) ==> j.deep_view() == JsonView::Bool(b),
        j matches Json::Number(Number::Unsigned(n)) ==> j.deep_view() == JsonView::Number(
            NumberView::Unsigned(n),
        ),
        j matches Json::Number(Number::Negative(n)) ==> j.deep_view() == JsonView::Number(
            NumberView::Negative(n),
        ),
        j matches Json::Number(Number::Decimal(t)) ==> j.deep_view() == JsonView::Number(
            NumberView::Decimal(t@),
        ),
        j matches Json::Text(s) ==> j.deep_view() == JsonView::Text(s@),
        j matches Json::List(v) ==> (j.deep_view() matches JsonView::List(l) && l.len() == v@.len()
            && (0 <= i < v@.len() ==> l[i] == v@[i].deep_view())),
        j matches Json::Object(v) ==> (j.deep_view() matches JsonView::Object(f) && f.len()
            == v@.len() && (0 <= i < v@.len() ==> f[i].0 == v@[i].0@ && f[i].1
            == v@[i].1.deep_view())),
{
}

} // verus!
