//! Answers gathered from a stream.

use referee::cache::synthetic_stream;
use referee::engine::stream::{
    chunk_deltas, on_stream_event, DeltaEvent, StreamAccumulator, StreamEvent, StreamStep,
};
use referee::provider::{
    ChatResponse, FinishReason, LlmError, Message, Role, StreamChunk, TokenUsage, ToolCallDelta,
    ToolCallFunctionDelta,
};
use referee::session::TurnOutcome;

fn delta(content: Option<&str>, reasoning: Option<&str>, role: Option<Role>) -> StreamChunk {
    StreamChunk::Delta {
        content: content.map(String::from),
        reasoning_content: reasoning.map(String::from),
        tool_calls: vec![],
        role,
    }
}

fn end() -> StreamChunk {
    StreamChunk::Finish { finish_reason: FinishReason::Stop, usage: None }
}

#[test]
fn accumulator_merges_delta_and_tool_calls() {
    let mut acc = StreamAccumulator::new();
    acc.push(delta(Some("Hello"), None, Some(Role::Assistant)));
    acc.push(StreamChunk::Delta {
        content: Some(" world".into()),
        reasoning_content: Some("think".into()),
        tool_calls: vec![
            ToolCallDelta {
                index: 0,
                id: Some("tc_1".into()),
                function: Some(ToolCallFunctionDelta {
                    name: Some("echo".into()),
                    arguments: Some("{\"x\":".into()),
                }),
            },
            ToolCallDelta {
                index: 0,
                id: None,
                function: Some(ToolCallFunctionDelta {
                    name: None,
                    arguments: Some("\"1\"}".into()),
                }),
            },
        ],
        role: None,
    });
    acc.push(StreamChunk::Finish {
        finish_reason: FinishReason::ToolCalls,
        usage: Some(TokenUsage { total_tokens: 5, ..TokenUsage::default() }),
    });

    let (message, finish_reason, usage) = acc.finish().expect("finish");
    assert_eq!(message.content.as_text().unwrap(), "Hello world");
    assert_eq!(message.reasoning_content.as_deref(), Some("think"));
    assert_eq!(message.tool_calls.len(), 1);
    assert_eq!(message.tool_calls[0].id, "tc_1");
    assert_eq!(message.tool_calls[0].function.name, "echo");
    assert_eq!(message.tool_calls[0].function.arguments, r#"{"x":"1"}"#);
    assert_eq!(finish_reason, FinishReason::ToolCalls);
    assert_eq!(usage.unwrap().total_tokens, 5);
}

#[test]
fn accumulator_without_finish_returns_none() {
    let mut acc = StreamAccumulator::new();
    acc.push(delta(Some("no finish"), None, Some(Role::Assistant)));
    assert!(acc.finish().is_none());
}

#[test]
fn a_kept_answer_streams_back_to_itself() {
    let response = ChatResponse {
        id: "cached".into(),
        model: "mock".into(),
        message: Message::assistant("twenty-five letters, or so"),
        finish_reason: FinishReason::Stop,
        usage: None,
    };
    let mut acc = StreamAccumulator::new();
    for chunk in synthetic_stream(response) {
        acc.push(chunk);
    }
    let (message, reason, _) = acc.finish().unwrap();
    assert_eq!(message.content.as_text(), Some("twenty-five letters, or so"));
    assert_eq!(reason, FinishReason::Stop);
}

#[test]
fn every_event_of_a_stream_has_its_answer() {
    let acc = StreamAccumulator::new();
    let hi = StreamEvent::Chunk(delta(Some("hi"), None, None));
    let (acc, step) = on_stream_event(acc, hi, "mock");
    assert!(matches!(step, StreamStep::Forward(StreamChunk::Delta { .. })));
    let (acc, step) = on_stream_event(acc, StreamEvent::Chunk(end()), "mock");
    assert!(matches!(step, StreamStep::Forward(StreamChunk::Finish { .. })));
    match on_stream_event(acc, StreamEvent::End, "mock").1 {
        StreamStep::Done(TurnOutcome::Success(r)) => {
            assert_eq!(r.message.content.as_text(), Some("hi"));
        }
        other => panic!("not an answer: {other:?}"),
    }

    let mut cut = StreamAccumulator::new();
    cut.push(delta(Some("hi"), None, None));
    let step = on_stream_event(cut, StreamEvent::End, "mock").1;
    assert!(matches!(step, StreamStep::Done(TurnOutcome::Error(LlmError::Protocol(_)))));

    let step_of = |e| on_stream_event(StreamAccumulator::new(), e, "mock").1;
    assert!(matches!(
        step_of(StreamEvent::Failed(LlmError::Timeout)),
        StreamStep::ForwardError(LlmError::Timeout, TurnOutcome::Error(LlmError::Timeout))
    ));
    assert!(matches!(step_of(StreamEvent::Cancelled), StreamStep::Done(TurnOutcome::Cancelled)));
    assert!(matches!(step_of(StreamEvent::TimedOut), StreamStep::Done(TurnOutcome::Timeout)));
    match step_of(StreamEvent::Panicked("boom".into())) {
        StreamStep::Done(TurnOutcome::Panic(s)) => assert_eq!(s, "boom"),
        other => panic!("not a panic: {other:?}"),
    }
}

#[test]
fn thinking_comes_before_text() {
    let events = chunk_deltas(&delta(Some("text"), Some("thought"), None));
    assert_eq!(events.len(), 2);
    assert!(matches!(&events[0], DeltaEvent::Thinking(t) if t == "thought"));
    assert!(matches!(&events[1], DeltaEvent::Text(t) if t == "text"));
    assert!(chunk_deltas(&end()).is_empty());
}
