//! The states of a session.

use referee::json::Number;
use referee::provider::{
    ChatResponse, FinishReason, LlmError, Message, Role, TokenUsage, ToolCall, ToolCallFunction,
};
use referee::session::message::{ChatOptions, SessionId};
use referee::session::{
    FinishAction, Session, SessionConfig, SessionState, ToolCallAction, TurnOutcome,
};
use referee::text::{
    comes_before, decimal_text, join_text, parse_number, split_text, strip_all_text,
    strip_end_text, take_chars, trim_text,
};
use referee::time::Duration;

fn session() -> Session {
    Session::new(SessionConfig::default(), 0).with_session_id(SessionId { hi: 0, lo: 1 })
}

fn call(id: &str) -> ToolCall {
    ToolCall {
        id: id.into(),
        function: ToolCallFunction { name: "t".into(), arguments: "{}".into() },
    }
}

fn answer(text: &str, calls: Vec<ToolCall>) -> TurnOutcome {
    TurnOutcome::Success(Box::new(ChatResponse {
        id: "r".into(),
        model: "m".into(),
        message: Message { tool_calls: calls, ..Message::assistant(text) },
        finish_reason: FinishReason::Stop,
        usage: Some(TokenUsage { total_tokens: 5, ..TokenUsage::default() }),
    }))
}

fn thinking() -> (Session, u64) {
    let mut s = session();
    s.push_history(Message::user("q")).unwrap();
    let turn = s.start_thinking().unwrap();
    (s, turn)
}

#[test]
fn a_round_begins_thinks_and_ends() {
    let (mut s, turn) = thinking();
    assert!(s.is_busy());
    assert_eq!(s.start_thinking(), None);
    match s.finish_thinking(turn, answer("a", vec![])) {
        FinishAction::Idle { response: Some(r) } => {
            assert_eq!(r.message.content.as_text(), Some("a"))
        }
        other => panic!("not idle: {other:?}"),
    }
    assert!(s.is_idle());
    assert_eq!(s.consumed_tokens(), 5);
    assert_eq!(s.facts().len(), 2);
    assert!(matches!(
        s.finish_thinking(turn, answer("late", vec![])),
        FinishAction::Idle { response: None }
    ));
    assert_eq!(s.facts().len(), 2);
}

#[test]
fn a_failure_leaves_no_trace() {
    for outcome in [
        TurnOutcome::Error(LlmError::Timeout),
        TurnOutcome::Cancelled,
        TurnOutcome::Timeout,
        TurnOutcome::Panic("p".into()),
    ] {
        let (mut s, turn) = thinking();
        assert!(matches!(
            s.finish_thinking(turn, outcome),
            FinishAction::Idle { response: None }
        ));
        assert_eq!((s.facts().len(), s.consumed_tokens(), s.is_idle()), (1, 0, true));
    }
}

#[test]
fn calls_are_answered_before_the_next_round() {
    let (mut s, turn) = thinking();
    let action = s.finish_thinking(turn, answer("", vec![call("a"), call("b")]));
    assert!(matches!(action, FinishAction::AwaitingCalls { .. }));
    assert!(matches!(s.state(), SessionState::AwaitingCalls { .. }));
    assert_eq!(s.finish_tool_call("c", "?".into()), ToolCallAction::Ignored);
    assert_eq!(s.finish_tool_call("b", "second".into()), ToolCallAction::Pending);
    assert_eq!(s.finish_tool_call("a", "first".into()), ToolCallAction::AllDone);
    let round = s.resume_thinking().unwrap();
    assert!(round.turn_id > turn);
    let roles: Vec<Role> = round.request.messages.iter().map(|m| m.role).collect();
    assert_eq!(roles, vec![Role::User, Role::Assistant, Role::Tool, Role::Tool]);
}

#[test]
fn a_session_that_awaits_nothing_does_not_go_on() {
    let mut s = session();
    assert!(s.resume_thinking().is_none());
    assert!(!s.settle_dispatched());
    assert_eq!(s.finish_tool_call("a", "x".into()), ToolCallAction::Ignored);
    assert!(!s.cancel_thinking());
}

#[test]
fn a_round_can_be_interrupted() {
    let (mut s, _) = thinking();
    s.raise_interrupt();
    assert!(s.is_interrupted());
    assert!(s.cancel_thinking());
    s.force_idle();
    assert!(s.is_idle());
}

#[test]
fn options_go_before_defaults() {
    let mut config = SessionConfig::default();
    config.default_max_tokens = Some(10);
    config.default_temperature = Some(Number::Decimal("0.1".into()));
    config.default_system_prompt = Some("default".into());
    let mut s = Session::new(config, 0);
    s.push_history(Message::user("q")).unwrap();
    let plain = s.build_chat_request(&ChatOptions::default());
    assert_eq!(plain.max_tokens, Some(10));
    assert_eq!(plain.temperature, Some(Number::Decimal("0.1".into())));
    assert_eq!(plain.messages[0].content.as_text(), Some("default"));
    let options = ChatOptions {
        max_tokens: Some(20),
        system_prompt: Some("mine".into()),
        ..ChatOptions::default()
    };
    let asked = s.build_chat_request(&options);
    assert_eq!(asked.max_tokens, Some(20));
    assert_eq!(asked.messages[0].content.as_text(), Some("mine"));
}

#[test]
fn results_that_come_later_go_into_the_next_round() {
    let mut s = session();
    s.inject_tool_result("later".into(), 9);
    assert_eq!(s.last_active(), 9);
    let round = s
        .start_round(Message::user("q"), &ChatOptions::default(), 3, 10)
        .unwrap();
    let texts: Vec<_> =
        round.request.messages.iter().map(|m| m.content.as_text().unwrap()).collect();
    assert!(texts.contains(&"later") && texts.contains(&"q"));
    assert_eq!(s.peer_depth(), 3);
    assert_eq!(s.turn_id(), round.turn_id);
    assert!(s.start_round(Message::user("q"), &ChatOptions::default(), 0, 11).is_none());
}

// Text and time.

#[test]
fn texts_are_cut_and_joined() {
    assert_eq!(trim_text(" \u{3000}你 好\n"), "你 好");
    assert_eq!(take_chars("你好吗", 2), "你好");
    assert_eq!(strip_end_text("https://x//", '/'), "https://x");
    assert_eq!(strip_all_text("ababc", "ab"), "c");
    let parts = split_text("a,,b", ',');
    assert_eq!(parts, vec!["a", "", "b"]);
    assert_eq!(join_text(&parts, "-"), "a--b");
    assert!(comes_before("a", "ab") && comes_before("Z", "a") && !comes_before("b", "ab"));
}

#[test]
fn numbers_are_read_and_written() {
    assert_eq!(decimal_text(u64::MAX), "18446744073709551615");
    assert_eq!(parse_number("18446744073709551615"), Some(u64::MAX));
    assert_eq!(parse_number("18446744073709551616"), None);
    assert_eq!(parse_number("+7"), Some(7));
    assert_eq!(parse_number(""), None);
    assert_eq!(parse_number(" 7"), None);
}

#[test]
fn spans_of_time_are_compared() {
    assert_eq!(Duration::from_millis(1500), Duration { secs: 1, nanos: 500_000_000 });
    assert_eq!(Duration::from_millis(1500).as_millis(), 1500);
    assert!(Duration::from_secs(2).at_least(&Duration::from_millis(2000)));
    assert_eq!(Duration::from_secs(1).shorter(Duration::from_millis(1)).as_millis(), 1);
    assert_eq!(Duration::from_millis(600).doubled().as_millis(), 1200);
    assert!(Duration::from_secs(0).is_zero());
}

#[test]
fn a_session_tells_what_is_cut_of_its_prompt() {
    let config = SessionConfig { prompt_budget_tokens: 10, ..SessionConfig::default() };
    let mut s = Session::new(config, 0);
    s.push_history(Message::user("a question of some length")).unwrap();
    assert!(s.prompt_cuts().is_empty(), "the input of the round is never cut");
    s.push_history(Message::user("another")).unwrap();
    assert_eq!(s.prompt_cuts(), vec!["history"]);
}
