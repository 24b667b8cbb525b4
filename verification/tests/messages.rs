//! Messages between sessions, and the record of one.

use std::cell::Cell;
use std::rc::Rc;

use referee::json::parse_text;
use referee::provider::{FinishReason, Message, ReasoningEffort, ThinkingConfig};
use referee::session::codec::{asked_from_json, asked_to_json, reply_from_json, reply_to_json};
use referee::session::log::{LogError, PersistedSessionLog, SessionLog, SessionLogSink};
use referee::session::message::{
    ChatOptions, ChatPayload, Envelope, ErrorKind, MessageError, SessionId, SessionMessage,
    SessionReply, PRIORITY_INTERRUPT, PRIORITY_NORMAL,
};

const SOME_ID: SessionId = SessionId { hi: 0x0123_4567_89ab_4def, lo: 0x8123_4567_89ab_cdef };

fn chat(text: &str, peer_depth: u32) -> SessionMessage {
    SessionMessage::Chat {
        session_id: SessionId::new_v4(),
        payload: ChatPayload {
            message: Message::user(text),
            options: ChatOptions::default(),
            peer_depth,
        },
    }
}

#[test]
fn chat_message_roundtrip() {
    let msg = chat("hello", 0);
    let env = msg.to_envelope();
    let decoded = SessionMessage::from_envelope(&env).unwrap();
    assert_eq!(msg.session_id(), decoded.session_id());
    assert_eq!(env.priority, PRIORITY_NORMAL);
}

#[test]
fn interrupt_uses_high_priority() {
    let msg = SessionMessage::Interrupt { session_id: SessionId::new_v4() };
    let env = msg.to_envelope();
    assert_eq!(env.priority, PRIORITY_INTERRUPT);
    assert!(PRIORITY_INTERRUPT < PRIORITY_NORMAL);
}

#[test]
fn chat_payload_peer_depth_roundtrip() {
    let env = chat("hi", 2).to_envelope();
    match SessionMessage::from_envelope(&env).unwrap() {
        SessionMessage::Chat { payload, .. } => assert_eq!(payload.peer_depth, 2),
        other => panic!("expected Chat, got {other:?}"),
    }
}

#[test]
fn chat_payload_peer_depth_defaults_zero_on_decode() {
    let json = r#"{"kind":"chat","session_id":"00000000-0000-0000-0000-000000000000","message":{"role":"user","content":"hi"},"options":{}}"#;
    match SessionMessage::from_text(json).unwrap() {
        SessionMessage::Chat { payload, session_id } => {
            assert_eq!(payload.peer_depth, 0);
            assert_eq!(session_id, SessionId::nil());
        }
        other => panic!("expected Chat, got {other:?}"),
    }
}

#[test]
fn error_reply_old_json_defaults_internal() {
    let json = r#"{"reply":"error","message":"boom"}"#;
    match SessionReply::from_text(json).unwrap() {
        SessionReply::Error { message, kind, retry_after_ms } => {
            assert_eq!(message, "boom");
            assert_eq!(kind, ErrorKind::Internal);
            assert_eq!(retry_after_ms, None);
        }
        other => panic!("expected Error, got {other:?}"),
    }
}

#[test]
fn error_reply_roundtrip_with_kind_and_retry_after() {
    let reply = SessionReply::Error {
        message: "rate limited".into(),
        kind: ErrorKind::RateLimited,
        retry_after_ms: Some(1200),
    };
    match SessionReply::from_envelope(&reply.to_envelope()).unwrap() {
        SessionReply::Error { kind, retry_after_ms, .. } => {
            assert_eq!(kind, ErrorKind::RateLimited);
            assert_eq!(retry_after_ms, Some(1200));
        }
        other => panic!("expected Error, got {other:?}"),
    }
}

#[test]
fn every_message_comes_back_from_its_envelope() {
    let payload = ChatPayload {
        message: Message::tool("tc", "result"),
        options: ChatOptions {
            max_tokens: Some(9),
            thinking: ThinkingConfig { enabled: true, effort: Some(ReasoningEffort::Low) },
            system_prompt: Some("be brief".into()),
            ..ChatOptions::default()
        },
        peer_depth: 1,
    };
    let messages = [
        SessionMessage::Chat { session_id: SOME_ID, payload },
        SessionMessage::Interrupt { session_id: SOME_ID },
        SessionMessage::ToolResult {
            session_id: SOME_ID,
            turn_id: u64::MAX,
            tool_call_id: "tc".into(),
            result: "\"quoted\"".into(),
        },
        SessionMessage::Resume { session_id: SOME_ID, turn_id: 4 },
    ];
    for m in messages {
        let back = SessionMessage::from_envelope(&m.to_envelope()).unwrap();
        assert_eq!(format!("{m:?}"), format!("{back:?}"));
        let again = asked_from_json(&asked_to_json(&m)).unwrap();
        assert_eq!(format!("{m:?}"), format!("{again:?}"));
    }
}

#[test]
fn every_reply_comes_back_from_its_envelope() {
    let replies = [
        SessionReply::Success {
            id: "i".into(),
            model: "m".into(),
            message: Box::new(Message::assistant("hi")),
            finish_reason: FinishReason::Other("odd".into()),
            usage: None,
        },
        SessionReply::Busy { turn_id: 3 },
        SessionReply::Error { message: "e".into(), kind: ErrorKind::Budget, retry_after_ms: None },
    ];
    for r in replies {
        let back = SessionReply::from_envelope(&r.to_envelope()).unwrap();
        assert_eq!(format!("{r:?}"), format!("{back:?}"));
        let again = reply_from_json(&reply_to_json(&r)).unwrap();
        assert_eq!(format!("{r:?}"), format!("{again:?}"));
    }
}

#[test]
fn an_envelope_without_a_message_is_refused() {
    let err = SessionMessage::from_envelope(&Envelope::new()).unwrap_err();
    assert!(matches!(&err, MessageError::MissingKey(_)));
    assert!(err.message().starts_with("missing metadata key: "));
    for text in ["not json", "{}", r#"{"kind":"dance","session_id":"x"}"#] {
        let err = SessionMessage::from_text(text).unwrap_err();
        assert!(matches!(&err, MessageError::Decode(_)));
        assert!(err.message().starts_with("payload decode error: "));
    }
    assert!(SessionReply::from_text(r#"{"reply":"nothing"}"#).is_err());
}

#[test]
fn an_id_is_drawn_at_random() {
    let id = SessionId::new_v4();
    assert_eq!(id.to_text().as_bytes()[14], b'4');
    assert!(b"89ab".contains(&id.to_text().as_bytes()[19]));
    assert_ne!(id, SessionId::new_v4());
}

#[test]
fn an_id_is_written_as_a_uuid() {
    assert_eq!(SOME_ID.to_text(), "01234567-89ab-4def-8123-456789abcdef");
    assert_eq!(SessionId::from_text(&SOME_ID.to_text()), Some(SOME_ID));
    assert_eq!(SessionId::from_text("0123456789AB4DEF8123456789abcdef"), Some(SOME_ID));
    assert_eq!(SessionId::from_text("not an id"), None);
    assert_eq!(SessionId::nil().to_text(), "00000000-0000-0000-0000-000000000000");
}

// The record.

fn texts(facts: &[Message]) -> Vec<&str> {
    facts.iter().filter_map(|m| m.content.as_text()).collect()
}

#[test]
fn compact_drops_head_keeps_tail() {
    let mut log = SessionLog::new(8);
    for i in 0..5 {
        log.append(Message::user(&format!("m{i}"))).unwrap();
    }
    assert_eq!(log.compact(2), 2);
    assert_eq!(texts(log.snapshot()), vec!["m3", "m4"]);
    assert_eq!(log.compact(10), 2);
}

#[test]
fn compact_frees_room_for_append() {
    let mut log = SessionLog::new(2);
    log.append(Message::user("a")).unwrap();
    log.append(Message::user("b")).unwrap();
    log.compact(1);
    log.append(Message::user("c")).unwrap();
    assert_eq!(log.len(), 2);
    assert_eq!(texts(log.snapshot()), vec!["b", "c"]);
}

#[test]
fn a_full_record_refuses_more() {
    let mut log = SessionLog::new(1);
    assert!(log.is_empty());
    assert_eq!(log.append(Message::user("a")), Ok(0));
    assert_eq!(log.append(Message::user("b")), Err(LogError::CapacityExceeded { max: 1 }));
    assert_eq!(texts(log.tail(3)), vec!["a"]);
    assert!(log.tail(0).is_empty());
}

struct CountingSink {
    count: Rc<Cell<usize>>,
}

impl SessionLogSink for CountingSink {
    fn append(&self, _session_id: &SessionId, _msg: &Message) -> Result<(), LogError> {
        self.count.set(self.count.get() + 1);
        Ok(())
    }
}

#[test]
fn persisted_log_append_forwards_to_sink() {
    let count = Rc::new(Cell::new(0));
    let mut log =
        PersistedSessionLog::new(16, SessionId::new_v4(), CountingSink { count: count.clone() });
    log.append(Message::user("hi")).unwrap();
    assert_eq!(log.len(), 1);
    assert_eq!(count.get(), 1);
}

#[test]
fn persisted_log_capacity_blocks_without_sink_call() {
    let count = Rc::new(Cell::new(0));
    let mut log = PersistedSessionLog::new(1, SessionId::new_v4(), CountingSink { count: count.clone() });
    log.append(Message::user("a")).unwrap();
    let err = log.append(Message::user("b")).unwrap_err();
    assert_eq!(err, LogError::CapacityExceeded { max: 1 });
    assert_eq!(count.get(), 1);
}

struct BrokenSink;

impl SessionLogSink for BrokenSink {
    fn append(&self, _session_id: &SessionId, _msg: &Message) -> Result<(), LogError> {
        Err(LogError::Io("disk full".into()))
    }
}

#[test]
fn a_broken_sink_loses_no_fact() {
    let mut log = PersistedSessionLog::new(4, SOME_ID, BrokenSink);
    assert_eq!(log.append(Message::user("a")), Ok(0));
    assert_eq!(texts(log.snapshot()), vec!["a"]);
    let failure = Some(LogError::Io("disk full".into()));
    assert_eq!(log.append_reported(Message::user("b")), Ok((1, failure)));
    assert_eq!(texts(log.snapshot()), vec!["a", "b"]);
}

#[test]
fn a_sink_that_keeps_a_fact_reports_nothing() {
    let count = Rc::new(Cell::new(0));
    let mut log = PersistedSessionLog::new(1, SOME_ID, CountingSink { count: count.clone() });
    assert_eq!(log.append_reported(Message::user("a")), Ok((0, None)));
    assert_eq!(
        log.append_reported(Message::user("b")),
        Err(LogError::CapacityExceeded { max: 1 })
    );
    assert_eq!(count.get(), 1);
}

#[test]
fn a_message_as_it_stands_on_the_wire() {
    let j = asked_to_json(&SessionMessage::Resume { session_id: SOME_ID, turn_id: 4 });
    let expected = parse_text(
        r#"{"kind":"resume","session_id":"01234567-89ab-4def-8123-456789abcdef","turn_id":4}"#,
    );
    assert_eq!(Ok(j), expected);
}
