//! The two protocols, and event streams.

use referee::codec::{
    message_from_json, message_to_json, part_from_json, part_to_json, parts_from_json,
    parts_to_json,
};
use referee::json::{parse_slice, parse_text, write_text, Json, Number};
use referee::provider::anthropic_compat;
use referee::provider::chunks::chunks_of;
use referee::provider::content::{
    ContentPart, ImageDetail, MediaResolution, MediaSource, VideoParams,
};
use referee::provider::openai_compat;
use referee::provider::sse::{
    parse_wire_body, sse_fold_into_response, ChunkParts, MappedEvent, Polled, SseState, WireBody,
};
use referee::provider::{
    ChatResponse, FinishReason, LlmError, Message, MessageContent, Role, StreamChunk, TokenUsage,
    ToolChoice, ToolDeclaration,
};

fn json(text: &str) -> Json {
    parse_text(text).unwrap()
}

/// A value as it stands on the wire.
fn wire(j: &Json) -> Json {
    json(&write_text(j))
}

fn at(j: &Json, key: &str) -> Json {
    wire(j.get(key).unwrap_or(&Json::Null))
}

fn url(url: &str) -> MediaSource {
    MediaSource::Url { url: url.into() }
}

fn user_with(parts: Vec<ContentPart>) -> Message {
    Message::of(Role::User, MessageContent::multimodal(parts))
}

fn blocks(body: &Json, message: usize) -> Vec<Json> {
    let messages = body.list_at("messages").unwrap();
    messages[message].list_at("content").unwrap().iter().map(wire).collect()
}

#[test]
fn build_common_body_maps_anthropic_fields() {
    let body = anthropic_compat::build_common_body(
        &vec![
            Message::system("你是智能助手"),
            user_with(vec![
                ContentPart::image(url("https://example.com/img.jpeg")),
                ContentPart::text("图中是什么？"),
            ]),
        ],
        &vec![],
        ToolChoice::Auto,
        &None,
        500,
        "minimax-m3",
    );
    assert_eq!(at(&body, "model"), Json::text("minimax-m3"));
    assert_eq!(at(&body, "max_tokens"), Json::unsigned(500));
    assert_eq!(at(&body, "system"), Json::text("你是智能助手"));
    assert_eq!(body.list_at("messages").unwrap().len(), 1);
    let blocks = blocks(&body, 0);
    assert_eq!(
        blocks[0],
        json(r#"{"type":"image","source":{"type":"url","url":"https://example.com/img.jpeg"}}"#)
    );
    assert_eq!(blocks[1], json(r#"{"type":"text","text":"图中是什么？"}"#));
}

#[test]
fn parse_chat_response_maps_thinking_and_usage() {
    let resp = anthropic_compat::parse_chat_response(&json(
        r#"{
            "id": "066a381bdc3c0ded310e27c9a46d16e7",
            "type": "message",
            "role": "assistant",
            "model": "MiniMax-M3",
            "content": [
                {"type": "thinking", "thinking": "思考一下", "signature": "sig-1"},
                {"type": "text", "text": "回答正文"}
            ],
            "usage": {
                "input_tokens": 1209,
                "output_tokens": 211,
                "cache_creation_input_tokens": 0,
                "cache_read_input_tokens": 156
            },
            "stop_reason": "end_turn"
        }"#,
    ))
    .expect("parse");
    assert_eq!(resp.id, "066a381bdc3c0ded310e27c9a46d16e7");
    assert_eq!(resp.message.content.as_text().unwrap(), "回答正文");
    assert_eq!(resp.message.reasoning_content.as_deref(), Some("思考一下"));
    assert_eq!(resp.finish_reason, FinishReason::Stop);
    let u = resp.usage.expect("usage");
    assert_eq!(u.prompt_tokens, 1209);
    assert_eq!(u.completion_tokens, 211);
    assert_eq!(u.total_tokens, 1420);
    assert_eq!(u.cache_read_tokens, Some(156));
    assert_eq!(u.cache_write_tokens, Some(0));
}

#[test]
fn anth_stream_accumulates_deltas_and_finish() {
    let events = [
        r#"{"type": "message_start", "message": {"id": "x"}}"#,
        r#"{"type": "content_block_start", "index": 0,
            "content_block": {"type": "thinking", "thinking": ""}}"#,
        r#"{"type": "content_block_delta", "index": 0,
            "delta": {"type": "thinking_delta", "thinking": "推理"}}"#,
        r#"{"type": "content_block_delta", "index": 1,
            "delta": {"type": "text_delta", "text": "正文"}}"#,
        r#"{"type": "content_block_delta", "index": 2,
            "delta": {"type": "input_json_delta", "partial_json": "{\"x\":"}}"#,
        r#"{"type": "message_delta",
            "delta": {"stop_reason": "end_turn"},
            "usage": {"input_tokens": 10, "output_tokens": 5}}"#,
        r#"{"type": "message_stop"}"#,
    ];
    let parts: Vec<ChunkParts> =
        events.iter().map(|e| anthropic_compat::parse_anth_chunk(&json(e))).collect();
    let mut reasoning = String::new();
    let mut content = String::new();
    let mut finish: Option<StreamChunk> = None;
    for chunk in chunks_of(parts) {
        match chunk {
            StreamChunk::Delta { content: c, reasoning_content: r, .. } => {
                content.push_str(c.as_deref().unwrap_or(""));
                reasoning.push_str(r.as_deref().unwrap_or(""));
            }
            f @ StreamChunk::Finish { .. } => finish = Some(f),
        }
    }
    assert_eq!(reasoning, "推理");
    assert_eq!(content, "正文");
    match finish.expect("finish") {
        StreamChunk::Finish { finish_reason, usage } => {
            assert_eq!(finish_reason, FinishReason::Stop);
            assert_eq!(usage.expect("usage").prompt_tokens, 10);
        }
        StreamChunk::Delta { .. } => panic!("expected finish"),
    }
}

#[test]
fn tools_serialize_as_input_schema() {
    let body = anthropic_compat::build_common_body(
        &vec![Message::user("hi")],
        &vec![ToolDeclaration {
            name: "get_weather".into(),
            description: "查询天气".into(),
            parameters: json(r#"{"type": "object", "properties": {"city": {"type": "string"}}}"#),
        }],
        ToolChoice::Required,
        &None,
        500,
        "m",
    );
    assert_eq!(at(&body, "tool_choice"), json(r#"{"type": "any"}"#));
    let tool = &body.list_at("tools").unwrap()[0];
    assert_eq!(at(tool, "name"), Json::text("get_weather"));
    let city = at(&at(&at(tool, "input_schema"), "properties"), "city");
    assert_eq!(at(&city, "type"), Json::text("string"));
}

#[test]
fn max_tokens_always_present() {
    let body = anthropic_compat::build_common_body(
        &vec![Message::user("hi")],
        &vec![],
        ToolChoice::Auto,
        &None,
        1024,
        "m",
    );
    assert_eq!(at(&body, "max_tokens"), Json::unsigned(1024));
}

fn two() -> Number {
    Number::Decimal("2.0".into())
}

#[test]
fn content_part_serde_roundtrip() {
    let parts = vec![
        ContentPart::text("describe this"),
        ContentPart::image(url("https://example.png")),
        ContentPart::image_with_detail(
            MediaSource::Base64 { mime: "image/png".into(), data: "aGVsbG8=".into() },
            ImageDetail::Low,
        ),
        ContentPart::video(
            MediaSource::Base64 { mime: "video/mp4".into(), data: "AAAA".into() },
            VideoParams { fps: Some(two()), media_resolution: Some(MediaResolution::Max) },
        ),
    ];
    let written: Vec<Json> = parts_to_json(&parts).iter().map(wire).collect();
    assert_eq!(parts_from_json(&written).unwrap(), parts);
    assert!(written[1].get("detail").is_none());
    assert_eq!(at(&written[2], "detail"), Json::text("low"));
}

#[test]
fn video_params_default_roundtrip() {
    let part = ContentPart::video(url("https://v.mp4"), VideoParams::default_());
    let back = part_from_json(&wire(&part_to_json(&part))).unwrap();
    assert_eq!(back, part);
}

/// The bytes of an event stream.
fn stream_bytes(payloads: &[&str]) -> Vec<u8> {
    payloads.iter().map(|p| format!("data: {p}\n\n")).collect::<Vec<_>>().concat().into_bytes()
}

/// The events of a stream that comes in pieces.
fn read_stream(bytes: &[u8], piece: usize) -> Vec<Result<Json, LlmError>> {
    let mut state = SseState::new();
    let mut out = Vec::new();
    for chunk in bytes.chunks(piece) {
        state.push(chunk);
        loop {
            match state.poll() {
                Polled::Item(item) => out.push(item),
                Polled::Starved => break,
                Polled::Done => return out,
            }
        }
    }
    while let Some(item) = state.finish() {
        out.push(item);
    }
    out
}

fn events_of(bytes: &[u8], piece: usize) -> Vec<Json> {
    read_stream(bytes, piece).into_iter().map(|e| e.expect("ok")).collect()
}

fn parse_chunks(payloads: &[&str]) -> Vec<StreamChunk> {
    let parts: Vec<ChunkParts> = events_of(&stream_bytes(payloads), 7)
        .iter()
        .map(|e| openai_compat::parse_chunk_json(e).expect("parse ok"))
        .collect();
    chunks_of(parts)
}

#[test]
fn sse_delta_and_finish_are_accumulated() {
    let chunks = parse_chunks(&[
        r#"{"id":"1","choices":[{"index":0,"delta":{"content":"你好"}}]}"#,
        r#"{"id":"1","choices":[{"index":0,"delta":{"content":"世界"}}]}"#,
        r#"{"id":"1","choices":[{"index":0,"delta":{},"finish_reason":"stop"}],"usage":{"prompt_tokens":4,"completion_tokens":2,"total_tokens":6}}"#,
        "[DONE]",
    ]);
    let mut joined = String::new();
    let mut finish: Option<StreamChunk> = None;
    for c in chunks {
        match c {
            StreamChunk::Delta { content, .. } => {
                joined.push_str(content.as_deref().unwrap_or(""))
            }
            f @ StreamChunk::Finish { .. } => finish = Some(f),
        }
    }
    assert_eq!(joined, "你好世界");
    match finish.expect("must have Finish") {
        StreamChunk::Finish { finish_reason, usage } => {
            assert_eq!(finish_reason, FinishReason::Stop);
            let u = usage.expect("usage present");
            assert_eq!(u.total_tokens, 6);
        }
        StreamChunk::Delta { .. } => panic!("expected Finish"),
    }
}

#[test]
fn sse_done_terminates_without_extra() {
    let chunks = parse_chunks(&[
        r#"{"id":"1","choices":[{"index":0,"delta":{"content":"hi"}}]}"#,
        "[DONE]",
    ]);
    let deltas = chunks.iter().filter(|c| matches!(c, StreamChunk::Delta { .. })).count();
    assert_eq!(deltas, 1);
}

fn common_body(messages: Vec<Message>) -> Json {
    openai_compat::build_common_body(&messages, &vec![], ToolChoice::Auto, &None, None, "m")
}

#[test]
fn build_common_body_serializes_multimodal_content() {
    let body = common_body(vec![
        Message::user("plain text"),
        user_with(vec![
            ContentPart::text("describe this image"),
            ContentPart::image(url("https://example.png")),
            ContentPart::image(MediaSource::Base64 {
                mime: "image/png".into(),
                data: "aGVsbG8=".into(),
            }),
            ContentPart::audio(url("https://example.wav")),
            ContentPart::video(
                url("https://example.mp4"),
                VideoParams { fps: Some(two()), media_resolution: Some(MediaResolution::Max) },
            ),
        ]),
    ]);
    assert_eq!(at(&body.list_at("messages").unwrap()[0], "content"), Json::text("plain text"));
    let parts = blocks(&body, 1);
    assert_eq!(parts[0], json(r#"{"type":"text","text":"describe this image"}"#));
    assert_eq!(
        parts[1],
        json(r#"{"type":"image_url","image_url":{"url":"https://example.png"}}"#)
    );
    assert_eq!(
        parts[2],
        json(r#"{"type":"image_url","image_url":{"url":"data:image/png;base64,aGVsbG8="}}"#)
    );
    assert_eq!(
        parts[3],
        json(r#"{"type":"input_audio","input_audio":{"data":"https://example.wav"}}"#)
    );
    assert_eq!(
        parts[4],
        json(
            r#"{"type":"video_url","video_url":{"url":"https://example.mp4"},
                "fps":2.0,"media_resolution":"max"}"#
        )
    );
}

#[test]
fn image_detail_serialized_into_image_url() {
    let body = common_body(vec![user_with(vec![
        ContentPart::image_with_detail(url("https://example.png"), ImageDetail::Low),
        ContentPart::image(url("https://example2.png")),
    ])]);
    let parts = blocks(&body, 0);
    assert_eq!(
        parts[0],
        json(r#"{"type":"image_url","image_url":{"url":"https://example.png","detail":"low"}}"#)
    );
    assert_eq!(
        parts[1],
        json(r#"{"type":"image_url","image_url":{"url":"https://example2.png"}}"#)
    );
}

#[test]
fn non_stream_response_parses_tool_calls_and_reasoning() {
    let resp = openai_compat::parse_chat_response(&json(
        r#"{
            "id": "r1", "model": "m",
            "choices": [{
                "finish_reason": "tool_calls",
                "message": {
                    "role": "assistant",
                    "content": null,
                    "reasoning_content": "thinking...",
                    "tool_calls": [{"id":"call_1","type":"function",
                        "function":{"name":"f","arguments":"{\"x\":1}"}}]
                }
            }],
            "usage": {"prompt_tokens":1,"completion_tokens":2,"total_tokens":3}
        }"#,
    ))
    .expect("parse");
    assert_eq!(resp.finish_reason, FinishReason::ToolCalls);
    assert_eq!(resp.message.reasoning_content.as_deref(), Some("thinking..."));
    assert_eq!(resp.message.tool_calls.len(), 1);
    assert_eq!(resp.usage.map(|u| u.total_tokens), Some(3));
}

#[test]
fn sse_fallback_folds_into_response() {
    let events: Vec<Json> = [
        r#"{"id":"chat-1","model":"reasoner",
            "choices":[{"index":0,"delta":{"role":"assistant"}}]}"#,
        r#"{"id":"chat-1","model":"reasoner",
            "choices":[{"index":0,"delta":{"reasoning_content":"推理文本"}}]}"#,
        r#"{"id":"chat-1","model":"reasoner",
            "choices":[{"index":0,"delta":{"content":"回答正文"}}]}"#,
        r#"{"id":"chat-1","model":"reasoner",
            "choices":[{"index":0,"delta":{"tool_calls":[
                {"index":0,"id":"c","function":{"name":"f","arguments":"{\"x\":"}}]}}]}"#,
        r#"{"id":"chat-1","model":"reasoner",
            "choices":[{"index":0,"delta":{"tool_calls":[
                {"index":0,"function":{"arguments":"1}"}}]}}]}"#,
        r#"{"id":"chat-1","model":"reasoner",
            "choices":[{"index":0,"delta":{},"finish_reason":"stop"}],
            "usage":{"prompt_tokens":1,"completion_tokens":2,"total_tokens":3}}"#,
    ]
    .iter()
    .map(|e| json(e))
    .collect();
    let resp =
        sse_fold_into_response(openai_compat::map_events(&events), "", "").expect("fold");
    assert_eq!(resp.id, "chat-1");
    assert_eq!(resp.model, "reasoner");
    assert_eq!(resp.message.content.as_text().unwrap(), "回答正文");
    assert_eq!(resp.message.reasoning_content.as_deref(), Some("推理文本"));
    assert_eq!(resp.finish_reason, FinishReason::Stop);
    assert_eq!(resp.usage.map(|u| u.total_tokens), Some(3));
    assert_eq!(resp.message.tool_calls.len(), 1);
    assert_eq!(resp.message.tool_calls[0].function.arguments, "{\"x\":1}");
}

fn types(events: &[Json]) -> Vec<String> {
    events.iter().map(|e| e.str_at("type").unwrap()).collect()
}

#[test]
fn parses_events_across_fragment_boundaries() {
    let out = events_of(&stream_bytes(&[r#"{"type":"a"}"#, r#"{"type":"b"}"#]), 7);
    assert_eq!(types(&out), vec!["a", "b"]);
}

#[test]
fn parses_crlf_delimited_events() {
    let bytes =
        format!("data: {}\r\n\r\ndata: {}\r\n\r\n", r#"{"type":"a"}"#, r#"{"type":"b"}"#);
    let out = events_of(bytes.as_bytes(), bytes.len());
    assert_eq!(out.len(), 2, "both CRLF events must be cut");
    assert_eq!(types(&out), vec!["a", "b"]);
}

#[test]
fn parses_cr_cr_delimited_events() {
    let bytes = format!("data: {}\r\rdata: {}\r\r", r#"{"type":"a"}"#, r#"{"type":"b"}"#);
    let out = events_of(bytes.as_bytes(), bytes.len());
    assert_eq!(types(&out), vec!["a", "b"]);
}

#[test]
fn done_terminates_stream() {
    let bytes = stream_bytes(&[r#"{"type":"a"}"#, "[DONE]", r#"{"type":"b"}"#]);
    assert_eq!(events_of(&bytes, 7).len(), 1);
}

#[test]
fn parse_wire_body_rejects_real_json() {
    let body = br#"{"id":"x","model":"m","choices":[]}"#;
    match parse_wire_body(body, None).expect("ok") {
        WireBody::Json(v) => assert_eq!(v.str_at("id").as_deref(), Some("x")),
        WireBody::Sse(_) => panic!("expected JSON"),
    }
}

#[test]
fn parse_wire_body_detects_sse_by_prefix() {
    let body = b"data: {\"type\":\"a\"}\n\ndata: [DONE]\n\n";
    match parse_wire_body(body, None).expect("ok") {
        WireBody::Sse(events) => {
            assert_eq!(events.len(), 1);
            assert_eq!(types(&events), vec!["a"]);
        }
        WireBody::Json(_) => panic!("expected SSE"),
    }
}

#[test]
fn parse_wire_body_detects_sse_by_content_type() {
    let body = b"data: {\"type\":\"a\"}\n\n";
    match parse_wire_body(body, Some("text/event-stream")).expect("ok") {
        WireBody::Sse(events) => assert_eq!(events.len(), 1),
        WireBody::Json(_) => panic!("expected SSE"),
    }
}

#[test]
fn parse_wire_body_is_json_even_when_content_type_mislabels_sse() {
    let body = br#"{"id":"x","choices":[]}"#;
    match parse_wire_body(body, Some("text/event-stream")).expect("ok") {
        WireBody::Json(v) => assert_eq!(v.str_at("id").as_deref(), Some("x")),
        WireBody::Sse(_) => panic!("expected JSON fallback"),
    }
}

#[test]
fn parse_wire_body_errors_with_diagnostic_for_garbage() {
    match parse_wire_body(b"not json nor sse", None) {
        Err(LlmError::Protocol(msg)) => {
            assert!(msg.contains("content-type"));
            assert!(msg.contains("head"));
        }
        _ => panic!("expected Protocol"),
    }
}

#[test]
fn a_diagnostic_shows_how_a_body_begins() {
    let err = match parse_wire_body(b"?\"\xff", Some("text/plain")) {
        Err(e) => e,
        Ok(_) => panic!("not a body"),
    };
    assert_eq!(
        err,
        LlmError::Protocol(
            "response decode failed: JSON (expected value at line 1 column 1); not parseable as \
             SSE (content-type=\"text/plain\", head=\"?\\\"\u{fffd}\")"
                .into()
        )
    );
    match parse_wire_body(&[b'x'; 500], None) {
        Err(LlmError::Protocol(m)) => assert!(m.ends_with(&format!("{}\")", "x".repeat(180)))),
        _ => panic!("not a body"),
    }
}

#[test]
fn sse_fold_accumulates_content_finish_usage_and_tool_calls() {
    let events: Vec<MappedEvent> = [
        r#"{"id":"r1","model":"m"}"#,
        r#"{"choices":[{"delta":{"role":"assistant"}}]}"#,
        r#"{"choices":[{"delta":{"content":"你好"}}]}"#,
        r#"{"choices":[{"delta":{"content":"世界"}}]}"#,
        r#"{"choices":[{"delta":{"tool_calls":[{"index":0,"id":"c1","function":{"name":"f","arguments":"{\"x\":"}}]}}]}"#,
        r#"{"choices":[{"delta":{"tool_calls":[{"index":0,"function":{"arguments":"1}"}}]}}]}"#,
        r#"{"choices":[{"delta":{},"finish_reason":"stop"}],"usage":{"prompt_tokens":4,"completion_tokens":2,"total_tokens":6}}"#,
    ]
    .iter()
    .map(|e| {
        let e = json(e);
        MappedEvent {
            meta: openai_compat::openai_capture_meta(&e),
            parts: openai_compat::parse_chunk_json(&e),
        }
    })
    .collect();
    let resp = sse_fold_into_response(events, "fb", "fb").expect("fold");
    assert_eq!(resp.id, "r1");
    assert_eq!(resp.model, "m");
    assert_eq!(resp.message.content.as_text().unwrap(), "你好世界");
    assert_eq!(resp.message.role, Role::Assistant);
    assert_eq!(resp.finish_reason, FinishReason::Stop);
    let u = resp.usage.expect("usage");
    assert_eq!(u.prompt_tokens, 4);
    assert_eq!(u.completion_tokens, 2);
    assert_eq!(resp.message.tool_calls.len(), 1);
    assert_eq!(resp.message.tool_calls[0].function.name, "f");
    assert_eq!(resp.message.tool_calls[0].function.arguments, "{\"x\":1}");
    assert_eq!(resp.message.tool_calls[0].id, "c1");
}

// What else is promised.

#[test]
fn a_stream_that_names_no_model_takes_the_names_given() {
    let event = json(r#"{"choices":[{"delta":{"content":"hi"},"finish_reason":"stop"}]}"#);
    let events = vec![MappedEvent {
        meta: openai_compat::openai_capture_meta(&event),
        parts: openai_compat::parse_chunk_json(&event),
    }];
    let resp: ChatResponse = sse_fold_into_response(events, "id", "model").expect("fold");
    assert_eq!((resp.id.as_str(), resp.model.as_str()), ("id", "model"));
}

#[test]
fn a_broken_event_ends_the_fold() {
    let events =
        vec![MappedEvent { meta: None, parts: Err(LlmError::Protocol("broken".into())) }];
    let err = sse_fold_into_response(events, "", "").unwrap_err();
    assert_eq!(err, LlmError::Protocol("broken".into()));
}

#[test]
fn the_last_event_needs_no_blank_line() {
    let out = events_of(b"data: {\"type\":\"a\"}\n\ndata: {\"type\":\"b\"}", 5);
    assert_eq!(types(&out), vec!["a", "b"]);
}

#[test]
fn an_event_that_is_no_json_is_an_error() {
    let out = read_stream(b"data: nonsense\n\n", 64);
    assert_eq!(out.len(), 1);
    assert!(matches!(&out[0], Err(LlmError::Protocol(_))));
}

#[test]
fn responses_without_their_fields_are_refused() {
    for text in [
        r#"{"model":"m","choices":[]}"#,
        r#"{"id":"r","choices":[]}"#,
        r#"{"id":"r","model":"m"}"#,
        r#"{"id":"r","model":"m","choices":[]}"#,
    ] {
        let err = openai_compat::parse_chat_response(&json(text)).unwrap_err();
        assert!(matches!(err, LlmError::Protocol(_)), "{text}");
    }
    let err = anthropic_compat::parse_chat_response(&json(r#"{"model":"m"}"#)).unwrap_err();
    assert!(matches!(err, LlmError::Protocol(_)));
}

#[test]
fn a_body_is_read_whichever_way_it_comes() {
    let plain = br#"{"id":"r","model":"m","choices":[{"finish_reason":"stop",
        "message":{"role":"assistant","content":"hi"}}]}"#;
    let resp = openai_compat::decode_response(plain, None).unwrap();
    assert_eq!(resp.message.content.as_text(), Some("hi"));
    let streamed =
        b"data: {\"id\":\"r\",\"model\":\"m\",\"choices\":[{\"delta\":{\"content\":\"hi\"},\"finish_reason\":\"stop\"}]}\n\n";
    let resp = openai_compat::decode_response(streamed, Some("text/event-stream")).unwrap();
    assert_eq!(resp.message.content.as_text(), Some("hi"));
    assert_eq!(resp.finish_reason, FinishReason::Stop);
}

#[test]
fn a_body_of_blocks_is_read() {
    let body = br#"{"id":"r","model":"m","content":[{"type":"text","text":"hi"}]}"#;
    let resp = anthropic_compat::decode_response(body).unwrap();
    assert_eq!(resp.message.content.as_text(), Some("hi"));
    match anthropic_compat::decode_response(b"<html>") {
        Err(LlmError::Protocol(m)) => assert!(m.starts_with("response decode: ")),
        other => panic!("not refused: {other:?}"),
    }
}

#[test]
fn roles_keep_their_names() {
    for role in [Role::System, Role::User, Role::Assistant, Role::Tool] {
        assert_eq!(openai_compat::parse_role(openai_compat::role_str(role)), Some(role));
    }
    assert_eq!(openai_compat::parse_role("nobody"), None);
}

#[test]
fn vendors_end_an_answer_in_their_own_words() {
    assert_eq!(FinishReason::from_vendor_str("stop"), FinishReason::Stop);
    assert_eq!(FinishReason::from_vendor_str("length"), FinishReason::Length);
    assert_eq!(FinishReason::from_vendor_str("tool_calls"), FinishReason::ToolCalls);
    assert_eq!(
        FinishReason::from_vendor_str("content_filter"),
        FinishReason::Other("content_filter".into())
    );
    assert_eq!(anthropic_compat::map_stop_reason("tool_use"), FinishReason::ToolCalls);
    assert_eq!(anthropic_compat::map_stop_reason("max_tokens"), FinishReason::Length);
}

#[test]
fn a_message_comes_back_from_its_json() {
    let message = Message {
        reasoning_content: Some("thought".into()),
        usage: Some(TokenUsage { total_tokens: 3, ..TokenUsage::default() }),
        ..Message::assistant("answer")
    };
    assert_eq!(message_from_json(&wire(&message_to_json(&message))).unwrap(), message);
    assert_eq!(message_from_json(&Json::Null), None);
}

#[test]
fn json_is_read_and_written() {
    let j = json(r#" { "b" : [ 1 , -2 , 0.5 , null , true ] , "a" : "x\ny" } "#);
    assert_eq!(write_text(&j), r#"{"a":"x\ny","b":[1,-2,0.5,null,true]}"#);
    assert_eq!(parse_slice(write_text(&j).as_bytes()).unwrap(), j);
    assert!(parse_text("{").is_err());
    assert!(parse_slice(b"\xff").is_err());
    let list = j.list_at("b").unwrap();
    assert_eq!(list[0].as_u64(), Some(1));
    assert_eq!(list[1], Json::Number(Number::Negative(-2)));
    assert!(list[3].is_null());
    assert_eq!(list[4].as_bool(), Some(true));
    assert_eq!(j.clone().without("a").get("a"), None);
    assert_eq!(j.with("a", Json::Null).get("a"), Some(&Json::Null));
}
