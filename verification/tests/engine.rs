//! Chats from their first message to their answer.

use std::collections::VecDeque;

use referee::budget::BudgetConfig;
use referee::cache::CacheConfig;
use referee::engine::reply::{
    outcome_label, to_session_reply, EngineError, EngineReply, EngineStartError, SessionPhase,
};
use referee::engine::retry::{after_call, retry_wait, RetryStep};
use referee::engine::{ChatRun, ChatStep, Engine, EngineConfig, ProviderInfo};
use referee::json::{parse_text, Json};
use referee::provider::{
    ChatRequest, ChatResponse, FinishReason, LlmError, Message, ModelSpec, MultimodalCapabilities,
    ProviderCapabilities, ProviderId, TokenUsage, ToolCall, ToolCallFunction,
};
use referee::session::message::{
    ChatOptions, ChatPayload, ErrorKind, SessionId, SessionReply,
};
use referee::session::timeout::TimeoutConfig;
use referee::session::{SessionConfig, TurnOutcome};
use referee::time::Duration;
use referee::tool::definition::{ToolError, ToolInfo};
use referee::tool::executor::{conclude, prepare, ExecutedTool, ExecutorConfig, ToolEnd, ToolExecutor};
use referee::tool::registry::{RegistryError, ToolRegistry};

fn info(parallel: bool) -> ProviderInfo {
    ProviderInfo {
        id: ProviderId::new("mock"),
        capabilities: ProviderCapabilities {
            parallel_tool_calls: parallel,
            system_role: true,
            streaming: false,
            usage_reported: true,
            multimodal: MultimodalCapabilities::none(),
        },
        model_spec: ModelSpec { context_window_tokens: 8192, max_output_tokens: 1024 },
    }
}

fn config() -> EngineConfig {
    EngineConfig {
        session: SessionConfig {
            timeout: TimeoutConfig {
                thinking_timeout: Duration::from_secs(5),
                awaiting_calls_timeout: Duration::from_secs(5),
            },
            ..SessionConfig::default()
        },
        ..EngineConfig::default()
    }
}

fn engine(config: EngineConfig) -> Engine {
    Engine::new(info(true), config)
}

fn engine_with(tools: Vec<ToolInfo>, config: EngineConfig) -> Engine {
    let executor = ToolExecutor::new(ExecutorConfig {
        max_per_turn: 10,
        tool_timeout: Duration::from_secs(2),
        max_concurrency: 5,
    });
    let mut engine = engine(config).with_tools(ToolRegistry::with_defaults(), executor);
    for t in tools {
        engine.register_tool(t).unwrap();
    }
    engine
}

fn tool(name: &str) -> ToolInfo {
    ToolInfo::new(name, "a tool", Json::object().plus("type", Json::text("object")))
}

fn waiting_tool(name: &str) -> ToolInfo {
    ToolInfo { default_wait: true, ..tool(name) }
}

fn sid(n: u64) -> SessionId {
    SessionId { hi: 0, lo: n }
}

fn chat_payload(text: &str) -> ChatPayload {
    deep_payload(text, 0)
}

fn deep_payload(text: &str, peer_depth: u32) -> ChatPayload {
    ChatPayload { message: Message::user(text), options: ChatOptions::default(), peer_depth }
}

fn tool_call(name: &str) -> ToolCall {
    ToolCall {
        id: format!("tc_{name}"),
        function: ToolCallFunction { name: name.to_string(), arguments: "{}".to_string() },
    }
}

fn resp_using(text: &str, tool_calls: Vec<ToolCall>, total_tokens: usize) -> ChatResponse {
    let finish_reason =
        if tool_calls.is_empty() { FinishReason::Stop } else { FinishReason::ToolCalls };
    ChatResponse {
        id: "mock".into(),
        model: "mock".into(),
        message: Message { tool_calls, ..Message::assistant(text) },
        finish_reason,
        usage: Some(TokenUsage {
            prompt_tokens: total_tokens - 3,
            completion_tokens: 3,
            total_tokens,
            ..TokenUsage::default()
        }),
    }
}

fn resp(text: &str, tool_calls: Vec<ToolCall>) -> ChatResponse {
    resp_using(text, tool_calls, 8)
}

/// A model that answers from a list, and what it was asked.
struct Mock {
    answers: VecDeque<Result<ChatResponse, LlmError>>,
    asked: Vec<ChatRequest>,
}

fn mock(answers: Vec<Result<ChatResponse, LlmError>>) -> Mock {
    Mock { answers: answers.into(), asked: vec![] }
}

impl Mock {
    /// Calls the model as often as the engine allows.
    fn call(&mut self, request: &ChatRequest, max_retries: u32) -> TurnOutcome {
        let mut attempt = 0;
        loop {
            self.asked.push(request.clone());
            let answer = self
                .answers
                .pop_front()
                .unwrap_or_else(|| Err(LlmError::Protocol("no more mock responses".into())));
            let outcome = match answer {
                Ok(r) => TurnOutcome::Success(Box::new(r)),
                Err(e) => TurnOutcome::Error(e),
            };
            match after_call(outcome, attempt, max_retries) {
                RetryStep::Again(_) => attempt += 1,
                RetryStep::Stop(outcome) => return outcome,
            }
        }
    }

    fn texts_of_last(&self) -> String {
        let last = self.asked.last().unwrap();
        let texts: Vec<_> =
            last.messages.iter().map(|m| m.content.as_text().unwrap_or("")).collect();
        texts.join("\n")
    }

    fn tools_of(&self, n: usize) -> Vec<String> {
        self.asked[n].tools.iter().map(|t| t.name.clone()).collect()
    }
}

const FAILS: &str = "fails whenever it is called";

/// Runs a tool by its name and description.
fn run_tool(engine: &Engine, call: &ToolCall) -> ExecutedTool {
    let tools = engine.tools().unwrap();
    let name = call.function.name.as_str();
    let end = match (prepare(call, tools), tools.get(name)) {
        (Some(_), Some(info)) => match name {
            "boom" => ToolEnd::Panicked("boom".into()),
            _ if info.description == FAILS => ToolEnd::Failed(ToolError::Execution("boom".into())),
            _ => ToolEnd::Output("ok".into()),
        },
        _ => ToolEnd::NotFound,
    };
    conclude(call, end, 1)
}

/// Runs a chat to its end. The calls that were dispatched are left in `later`.
fn run_chat(
    engine: &mut Engine,
    model: &mut Mock,
    id: SessionId,
    payload: ChatPayload,
    later: &mut Vec<ToolCall>,
) -> EngineReply {
    let round = engine.prepare_round(id, payload, 0).unwrap();
    let mut run = ChatRun::new(id, false);
    let mut step = engine.enter_round(&mut run, round, 0);
    loop {
        step = match step {
            ChatStep::Call { turn_id, request, key } => {
                let outcome = model.call(&request, engine.config().max_retries);
                engine.finish_round(&mut run, turn_id, key, outcome, 0)
            }
            ChatStep::Tools(round) => {
                later.extend(round.dispatched.iter().cloned());
                let results = round.waiting.iter().map(|c| run_tool(engine, c)).collect();
                engine.finish_tools(&mut run, round, results, 0)
            }
            ChatStep::Done(reply) => return reply,
        };
    }
}

fn chat(engine: &mut Engine, model: &mut Mock, id: SessionId, text: &str) -> EngineReply {
    run_chat(engine, model, id, chat_payload(text), &mut vec![])
}

fn text_of(reply: &EngineReply) -> &str {
    match reply {
        EngineReply::Success(r) => r.message.content.as_text().unwrap(),
        other => panic!("expected Success, got {other:?}"),
    }
}

#[test]
fn tests_minimal_loop_success() {
    let mut engine = engine(config());
    let reply = chat(&mut engine, &mut mock(vec![Ok(resp("hello there", vec![]))]), sid(1), "hi");
    assert_eq!(text_of(&reply), "hello there");
    assert_eq!(outcome_label(&reply), "success");
}

#[test]
fn tests_multi_turn_tool_loop() {
    let mut model =
        mock(vec![Ok(resp("", vec![tool_call("echo")])), Ok(resp("done", vec![]))]);
    let mut engine = engine_with(vec![waiting_tool("echo")], config());
    let reply = chat(&mut engine, &mut model, sid(1), "call echo");
    assert_eq!(text_of(&reply), "done");
    assert!(model.texts_of_last().contains("ok"));
    assert_eq!(engine.history_len(sid(1)), Some(4));
}

#[test]
fn tests_busy_rejected() {
    let mut engine = engine(config());
    engine.prepare_round(sid(1), chat_payload("a"), 0).unwrap();
    match engine.prepare_round(sid(1), chat_payload("b"), 0) {
        Err(EngineStartError::Busy) => {}
        other => panic!("expected Busy, got {other:?}"),
    }
}

#[test]
fn tests_interrupt_cancels_pending() {
    let mut engine = engine(config());
    let round = engine.prepare_round(sid(1), chat_payload("a"), 0).unwrap();
    let mut run = ChatRun::new(sid(1), false);
    let turn = round.turn_id;
    assert!(matches!(engine.enter_round(&mut run, round, 0), ChatStep::Call { .. }));
    assert!(engine.interrupt(sid(1)));
    assert!(engine.is_interrupted(sid(1)));
    let step = engine.finish_round(&mut run, turn, None, TurnOutcome::Cancelled, 0);
    assert!(matches!(step, ChatStep::Done(EngineReply::Cancelled)));
}

#[test]
fn tests_timeout_returns() {
    let mut engine = engine(config());
    let round = engine.prepare_round(sid(1), chat_payload("a"), 0).unwrap();
    let mut run = ChatRun::new(sid(1), false);
    let turn = round.turn_id;
    engine.enter_round(&mut run, round, 0);
    match engine.finish_round(&mut run, turn, None, TurnOutcome::Timeout, 0) {
        ChatStep::Done(reply) => {
            assert!(matches!(reply, EngineReply::Timeout | EngineReply::Error(_)))
        }
        other => panic!("expected an end, got {other:?}"),
    }
    assert_eq!(engine.session_info(sid(1)).unwrap().state, SessionPhase::Idle);
}

#[test]
fn tests_budget_session_rejected() {
    let mut cfg = config();
    cfg.budget = BudgetConfig { session_limit: 5, global_limit: 1_000_000 };
    let mut engine = engine(cfg);
    chat(&mut engine, &mut mock(vec![Ok(resp("x", vec![]))]), sid(1), "a");
    match engine.prepare_round(sid(1), chat_payload("b"), 0) {
        Err(e @ EngineStartError::Budget(_)) => assert_eq!(e.kind(), ErrorKind::Budget),
        other => panic!("expected Budget error, got {other:?}"),
    }
}

#[test]
fn tests_cache_hit_skips_llm() {
    let mut cfg = config();
    cfg.cache = CacheConfig { enabled: true, ..CacheConfig::default() };
    let mut engine = engine(cfg);
    let mut model = mock(vec![Ok(resp("same", vec![]))]);
    chat(&mut engine, &mut model, sid(1), "duplicate");
    let reply = chat(&mut engine, &mut model, sid(2), "duplicate");
    assert_eq!(text_of(&reply), "same");
    assert_eq!(model.asked.len(), 1, "cache must skip second LLM call");
    assert_eq!(engine.session_consumed_tokens(sid(2)), Some(0));
    assert_eq!(engine.cache_len(), 1);
}

#[test]
fn tests_tool_panic_isolated() {
    let mut model =
        mock(vec![Ok(resp("", vec![tool_call("boom")])), Ok(resp("after panic", vec![]))]);
    let mut engine = engine_with(vec![waiting_tool("boom")], config());
    let reply = chat(&mut engine, &mut model, sid(1), "go");
    assert_eq!(text_of(&reply), "after panic");
    assert!(model.texts_of_last().contains("tool panicked: boom"));
}

#[test]
fn tests_max_sessions_rejected() {
    let mut cfg = config();
    cfg.max_sessions = 1;
    let mut engine = engine(cfg);
    engine.prepare_round(sid(1), chat_payload("a"), 0).unwrap();
    assert!(matches!(
        engine.prepare_round(sid(2), chat_payload("b"), 0),
        Err(EngineStartError::MaxSessions)
    ));
    assert_eq!(engine.session_count(), 1);
}

#[test]
fn tests_multi_turn_accumulates_all_round_tokens() {
    let mut model =
        mock(vec![Ok(resp("", vec![tool_call("accum_echo")])), Ok(resp("done", vec![]))]);
    let mut engine = engine_with(vec![waiting_tool("accum_echo")], config());
    chat(&mut engine, &mut model, sid(1), "go");
    assert_eq!(
        engine.total_consumed_tokens(),
        16,
        "every round must count toward global budget"
    );
}

#[test]
fn tests_concurrent_chat_same_session_only_one_ok() {
    let mut engine = engine(config());
    assert!(engine.prepare_round(sid(1), chat_payload("first"), 0).is_ok());
    for n in 0..15 {
        let again = engine.prepare_round(sid(1), chat_payload(&format!("m{n}")), 0);
        assert!(matches!(again, Err(EngineStartError::Busy)));
    }
    assert_eq!(
        engine.history_len(sid(1)),
        Some(1),
        "rejected concurrent chats must not pollute history"
    );
}

#[test]
fn tests_many_new_sessions_start_safely() {
    let mut engine = engine(config());
    for n in 0..8 {
        assert!(engine.prepare_round(sid(n), chat_payload("x"), 0).is_ok());
    }
    assert_eq!(engine.session_count(), 8);
}

#[test]
fn interrupt_semantics_idle_vs_active() {
    let mut engine = engine(config());
    assert!(!engine.interrupt(sid(1)), "idle session must not report interruptible");
    engine.prepare_round(sid(1), chat_payload("a"), 0).unwrap();
    assert!(engine.interrupt(sid(1)), "active round must be interruptible");
    assert!(engine.interrupt(sid(1)), "still thinking → interrupt still true");
}

#[test]
fn session_reusable_after_cancel() {
    let mut engine = engine(config());
    for text in ["first", "second"] {
        let round = engine.prepare_round(sid(1), chat_payload(text), 0).unwrap();
        let mut run = ChatRun::new(sid(1), false);
        let turn = round.turn_id;
        engine.enter_round(&mut run, round, 0);
        assert!(engine.interrupt(sid(1)));
        let step = engine.finish_round(&mut run, turn, None, TurnOutcome::Cancelled, 0);
        assert!(matches!(step, ChatStep::Done(EngineReply::Cancelled)));
        assert!(!engine.interrupt(sid(1)), "idle after cancel");
    }
    assert_eq!(engine.history_len(sid(1)), Some(2));
}

#[test]
fn async_dispatch_injected_on_next_round() {
    let mut model = mock(vec![
        Ok(resp("dispatching", vec![tool_call("slow_async")])),
        Ok(resp("done", vec![])),
    ]);
    let mut engine = engine_with(vec![tool("slow_async")], config());
    let mut later = vec![];
    let reply = run_chat(&mut engine, &mut model, sid(1), chat_payload("go"), &mut later);
    assert_eq!(text_of(&reply), "dispatching");
    assert_eq!(later.len(), 1);

    let result = conclude(&later[0], ToolEnd::Output("async_result".into()), 150);
    assert!(engine.inject_result(sid(1), &result, 0));

    let reply = chat(&mut engine, &mut model, sid(1), "again");
    assert_eq!(text_of(&reply), "done");
    let last = model.texts_of_last();
    assert!(
        last.contains("async_result"),
        "async result must be injected into next-round context: {last}"
    );
    assert!(
        last.contains("[async tool 'slow_async' completed]"),
        "injection must carry tool name: {last}"
    );
}

#[test]
fn subagent_depth_limit_enforced() {
    let mut cfg = config();
    cfg.max_subagent_depth = 2;
    let mut engine =
        engine_with(vec![ToolInfo { depth_limited: true, ..waiting_tool("sub") }], cfg);
    let mut model = mock(vec![
        Ok(resp("call sub", vec![tool_call("sub")])),
        Ok(resp("b done", vec![])),
        Ok(resp("call sub again", vec![tool_call("sub")])),
    ]);
    let r1 = run_chat(&mut engine, &mut model, sid(1), deep_payload("go", 1), &mut vec![]);
    assert_eq!(text_of(&r1), "b done");
    assert_eq!(model.tools_of(0), vec!["sub"], "depth 1 must keep subagent tool declaration");

    let r2 = run_chat(&mut engine, &mut model, sid(2), deep_payload("go", 2), &mut vec![]);
    assert_eq!(text_of(&r2), "call sub again");
    assert_eq!(
        model.asked.len(),
        3,
        "depth-limited call must be rejected without a resume round"
    );
    assert!(model.tools_of(2).is_empty(), "depth 2 must drop subagent tool declaration");
}

#[test]
fn session_lifecycle_remove_list_info() {
    let mut engine = engine(config());
    engine.prepare_round(sid(1), chat_payload("a"), 0).unwrap();
    engine.prepare_round(sid(2), chat_payload("b"), 0).unwrap();
    assert_eq!(engine.list_sessions(), vec![sid(1), sid(2)]);

    let info = engine.session_info(sid(1)).expect("session must exist");
    assert_eq!(info.state, SessionPhase::Thinking);
    assert_eq!(info.history_len, 1);

    assert!(engine.remove_session(sid(1)));
    assert!(!engine.remove_session(sid(1)));
    assert_eq!(engine.session_count(), 1);
    assert!(engine.session_info(sid(1)).is_none());
    assert!(engine.session_info(sid(2)).is_some());
}

#[test]
fn idle_reaper_removes_stale_sessions() {
    let mut engine = engine(config());
    let mut model = mock(vec![Ok(resp("ok", vec![])), Ok(resp("ok", vec![]))]);
    chat(&mut engine, &mut model, sid(1), "a");
    chat(&mut engine, &mut model, sid(2), "b");
    let idle = Duration::from_millis(100);
    assert!(engine.sweep_idle(99, idle).is_empty());
    assert_eq!(engine.sweep_idle(300, idle), vec![sid(1), sid(2)]);
    assert_eq!(engine.session_count(), 0, "idle sessions must be reaped");
}

#[test]
fn idle_reaper_skips_active_sessions() {
    let mut engine = engine(config());
    engine.prepare_round(sid(1), chat_payload("a"), 0).unwrap();
    assert!(engine.sweep_idle(200, Duration::from_millis(100)).is_empty());
    assert_eq!(engine.session_count(), 1, "Thinking session must survive");
}

#[test]
fn retry_recovers_from_rate_limited() {
    let mut model = mock(vec![
        Err(LlmError::RateLimited { retry_after: None }),
        Err(LlmError::RateLimited { retry_after: None }),
        Ok(resp("recovered", vec![])),
    ]);
    let mut cfg = config();
    cfg.max_retries = 2;
    let reply = chat(&mut engine(cfg), &mut model, sid(1), "hi");
    assert_eq!(text_of(&reply), "recovered");
    assert_eq!(model.asked.len(), 3, "two retries then success");
}

#[test]
fn max_retries_zero_keeps_old_behavior() {
    let mut model = mock(vec![Err(LlmError::RateLimited { retry_after: None })]);
    let mut cfg = config();
    cfg.max_retries = 0;
    let reply = chat(&mut engine(cfg), &mut model, sid(1), "hi");
    assert!(matches!(reply, EngineReply::Error(_)));
    assert_eq!(model.asked.len(), 1);
}

#[test]
fn non_retryable_error_not_retried() {
    let mut model = mock(vec![Err(LlmError::BadRequest("bad".into()))]);
    let mut cfg = config();
    cfg.max_retries = 2;
    let reply = chat(&mut engine(cfg), &mut model, sid(1), "hi");
    assert!(matches!(reply, EngineReply::Error(_)));
    assert_eq!(model.asked.len(), 1, "BadRequest must not retry");
}

/// The step after a model asked for some tools.
fn asked_for(engine: &mut Engine, calls: Vec<ToolCall>) -> (ChatRun, ChatStep) {
    let round = engine.prepare_round(sid(1), chat_payload("go"), 0).unwrap();
    let mut run = ChatRun::new(sid(1), false);
    let turn = round.turn_id;
    engine.enter_round(&mut run, round, 0);
    let outcome = TurnOutcome::Success(Box::new(resp("", calls)));
    let step = engine.finish_round(&mut run, turn, None, outcome, 0);
    (run, step)
}

#[test]
fn serial_tool_execution_when_parallel_unsupported() {
    for parallel in [true, false] {
        let mut engine = Engine::new(info(parallel), config())
            .with_tools(ToolRegistry::with_defaults(), ToolExecutor::with_defaults());
        engine.register_tool(waiting_tool("slow_remote")).unwrap();
        let calls = vec![tool_call("slow_remote"), tool_call("slow_remote")];
        match asked_for(&mut engine, calls).1 {
            ChatStep::Tools(round) => assert_eq!(round.serial, !parallel),
            other => panic!("expected tools, got {other:?}"),
        }
    }
}

fn submit() -> ToolInfo {
    ToolInfo { terminal: true, ..waiting_tool("submit_plan") }
}

#[test]
fn terminal_tool_converges_without_closing_round() {
    let mut engine = engine_with(vec![waiting_tool("echo"), submit()], config());
    let mut model = mock(vec![Ok(resp("submitting", vec![tool_call("submit_plan")]))]);
    match chat(&mut engine, &mut model, sid(1), "go") {
        EngineReply::Success(r) => {
            assert_eq!(r.message.tool_calls.len(), 1);
            assert_eq!(r.message.tool_calls[0].function.name, "submit_plan");
            assert_eq!(r.usage.as_ref().unwrap().total_tokens, 8);
        }
        other => panic!("expected Success, got {other:?}"),
    }
    assert_eq!(model.asked.len(), 1);
    assert_eq!(engine.session_info(sid(1)).unwrap().state, SessionPhase::Idle);
}

#[test]
fn terminal_convergence_aggregates_usage_across_rounds() {
    let mut engine = engine_with(vec![waiting_tool("echo"), submit()], config());
    let mut model = mock(vec![
        Ok(resp_using("working", vec![tool_call("echo")], 8)),
        Ok(resp_using("submitting", vec![tool_call("submit_plan")], 13)),
    ]);
    match chat(&mut engine, &mut model, sid(1), "go") {
        EngineReply::Success(r) => assert_eq!(r.usage.as_ref().unwrap().total_tokens, 21),
        other => panic!("expected Success, got {other:?}"),
    }
    assert_eq!(model.asked.len(), 2);
}

#[test]
fn terminal_tool_failure_resumes_for_correction() {
    let failing =
        ToolInfo { terminal: true, description: FAILS.into(), ..waiting_tool("submit_plan") };
    let mut engine = engine_with(vec![failing], config());
    let mut model = mock(vec![
        Ok(resp_using("submitting", vec![tool_call("submit_plan")], 8)),
        Ok(resp_using("submission failed, I see", vec![], 10)),
    ]);
    match chat(&mut engine, &mut model, sid(1), "go") {
        EngineReply::Success(r) => {
            assert_eq!(r.message.content.as_text().unwrap(), "submission failed, I see");
            assert_eq!(r.usage.as_ref().unwrap().total_tokens, 10);
        }
        other => panic!("expected Success, got {other:?}"),
    }
    assert_eq!(model.asked.len(), 2);
}

#[test]
fn max_rounds_per_chat_stops_runaway_loop() {
    let mut cfg = config();
    cfg.session.max_rounds_per_chat = Some(1);
    let mut engine = engine_with(vec![waiting_tool("echo")], cfg);
    let mut model = mock(vec![Ok(resp("calling", vec![tool_call("echo")]))]);
    match chat(&mut engine, &mut model, sid(1), "go") {
        EngineReply::Error(EngineError::MaxRoundsExceeded { rounds }) => assert_eq!(rounds, 1),
        other => panic!("expected MaxRoundsExceeded, got {other:?}"),
    }
    assert_eq!(model.asked.len(), 1);
    assert_eq!(engine.session_info(sid(1)).unwrap().state, SessionPhase::Idle);
    assert_eq!(engine.history_len(sid(1)), Some(3));
}

#[test]
fn max_rounds_none_keeps_current_behavior() {
    let mut engine = engine_with(vec![waiting_tool("echo")], config());
    let mut model =
        mock(vec![Ok(resp("calling", vec![tool_call("echo")])), Ok(resp("done", vec![]))]);
    let reply = chat(&mut engine, &mut model, sid(1), "go");
    assert!(matches!(reply, EngineReply::Success(_)));
    assert_eq!(model.asked.len(), 2);
}

// What else is promised.

#[test]
fn a_prompt_larger_than_the_window_is_refused() {
    let mut engine = engine(config());
    let long = "x".repeat(100_000);
    match engine.prepare_round(sid(1), chat_payload(&long), 0) {
        Err(EngineStartError::PromptTooLarge { window, estimated }) => {
            assert_eq!(window, 8192);
            assert!(estimated > 8192);
        }
        other => panic!("expected PromptTooLarge, got {other:?}"),
    }
    assert_eq!(engine.session_info(sid(1)).unwrap().state, SessionPhase::Idle);
}

#[test]
fn the_global_budget_counts_every_session() {
    let mut cfg = config();
    cfg.budget = BudgetConfig { session_limit: 0, global_limit: 10 };
    let mut engine = engine(cfg).with_global_budget(4);
    assert!(engine.check_budget(sid(1)).is_ok());
    chat(&mut engine, &mut mock(vec![Ok(resp("x", vec![]))]), sid(1), "a");
    assert_eq!(engine.total_consumed_tokens(), 12);
    assert!(engine.check_budget(sid(2)).is_err());
    engine.set_global_used(3);
    assert!(engine.check_budget(sid(2)).is_ok());
}

#[test]
fn an_old_end_of_a_call_changes_nothing() {
    let mut engine = engine(config());
    let round = engine.prepare_round(sid(1), chat_payload("a"), 0).unwrap();
    let mut run = ChatRun::new(sid(1), false);
    let turn = round.turn_id;
    engine.enter_round(&mut run, round, 0);
    let late = TurnOutcome::Success(Box::new(resp("late", vec![])));
    engine.finish_round(&mut run, turn + 7, None, late, 0);
    assert_eq!(engine.history_len(sid(1)), Some(1));
    assert_eq!(engine.session_info(sid(1)).unwrap().state, SessionPhase::Thinking);
}

#[test]
fn every_call_of_a_response_is_answered() {
    let mut engine = engine_with(
        vec![waiting_tool("echo"), tool("later"), ToolInfo { depth_limited: true, ..tool("sub") }],
        config(),
    );
    let mut model = mock(vec![
        Ok(resp("", vec![tool_call("echo"), tool_call("later"), tool_call("missing")])),
        Ok(resp("done", vec![])),
    ]);
    let mut later = vec![];
    run_chat(&mut engine, &mut model, sid(1), chat_payload("go"), &mut later);
    let ids: Vec<_> = model
        .asked
        .last()
        .unwrap()
        .messages
        .iter()
        .filter_map(|m| m.tool_call_id.clone())
        .collect();
    assert_eq!(ids.len(), 3);
    for name in ["echo", "later", "missing"] {
        assert!(ids.contains(&format!("tc_{name}")));
    }
    assert!(model.texts_of_last().contains("Tool 'missing' not found"));
    assert!(model.texts_of_last().contains("Task dispatched"));
}

#[test]
fn calls_beyond_the_limit_are_turned_away() {
    let executor = ToolExecutor::new(ExecutorConfig {
        max_per_turn: 1,
        tool_timeout: Duration::from_secs(2),
        max_concurrency: 5,
    });
    let mut engine = engine(config()).with_tools(ToolRegistry::with_defaults(), executor);
    engine.register_tool(waiting_tool("a")).unwrap();
    engine.register_tool(waiting_tool("b")).unwrap();
    match asked_for(&mut engine, vec![tool_call("a"), tool_call("b")]).1 {
        ChatStep::Tools(round) => {
            assert_eq!(round.waiting.len(), 1);
            assert!(round.refused);
        }
        other => panic!("expected tools, got {other:?}"),
    }
}

#[test]
fn an_engine_without_tools_takes_none() {
    let mut engine = engine(config());
    assert_eq!(engine.register_tool(tool("a")), Err(RegistryError::NotEnabled));
    assert!(engine.tools().is_none());
}

#[test]
fn a_history_is_restored_as_far_as_there_is_room() {
    let mut cfg = config();
    cfg.session.max_events = 3;
    cfg.max_sessions = 1;
    let mut engine = engine(cfg);
    let said = || vec![Message::user("q"), Message::assistant("a")];
    assert_eq!(engine.restore_session_history(sid(1), said(), 0).unwrap(), 2);
    assert_eq!(engine.replay_history(sid(1), said(), 0), Ok(1));
    assert_eq!(engine.session(sid(1)).unwrap().facts().len(), 3);
    let refused = engine.restore_session_history(sid(2), said(), 0).unwrap_err();
    assert!(matches!(refused, EngineError::StateConflict(_)));
}

#[test]
fn everybody_is_told_to_stop() {
    let mut engine = engine(config());
    engine.prepare_round(sid(1), chat_payload("a"), 0).unwrap();
    assert!(engine.ensure_session(sid(2), 0));
    engine.interrupt_all();
    assert!(engine.is_interrupted(sid(1)));
    assert!(!engine.is_interrupted(sid(2)));
}

#[test]
fn a_wait_before_another_try_is_bounded() {
    let asked = |s| LlmError::RateLimited { retry_after: Some(Duration::from_secs(s)) };
    assert_eq!(retry_wait(&asked(3), 1), Duration::from_secs(3));
    assert_eq!(retry_wait(&asked(60), 1), Duration::from_secs(10));
    assert_eq!(retry_wait(&LlmError::Timeout, 0).as_millis(), 250);
    assert_eq!(retry_wait(&LlmError::Timeout, 1).as_millis(), 500);
    assert_eq!(retry_wait(&LlmError::Timeout, 9).as_millis(), 8000);
}

#[test]
fn replies_go_to_other_sessions_as_they_are() {
    let ok = to_session_reply(EngineReply::Success(Box::new(resp("hi", vec![]))));
    assert!(matches!(ok, SessionReply::Success { .. }));
    let busy = to_session_reply(EngineReply::Busy { turn_id: 4 });
    assert!(matches!(busy, SessionReply::Busy { turn_id: 4 }));
    let kind_of = |reply| match to_session_reply(reply) {
        SessionReply::Error { kind, retry_after_ms, .. } => (kind, retry_after_ms),
        other => panic!("not an error: {other:?}"),
    };
    assert_eq!(kind_of(EngineReply::Timeout).0, ErrorKind::Timeout);
    let limited = LlmError::RateLimited { retry_after: Some(Duration::from_millis(1200)) };
    assert_eq!(
        kind_of(EngineReply::Error(EngineError::Llm(limited))),
        (ErrorKind::RateLimited, Some(1200))
    );
    assert_eq!(
        kind_of(EngineReply::Error(EngineError::Llm(LlmError::Auth))).0,
        ErrorKind::Llm
    );
    assert_eq!(kind_of(EngineReply::Error(EngineError::TurnIncomplete)).0, ErrorKind::Internal);
    assert!(!EngineError::MaxRoundsExceeded { rounds: 3 }.message().is_empty());
}

#[test]
fn tools_are_told_to_the_model() {
    let mut engine = engine_with(vec![waiting_tool("echo")], config());
    let round = engine.prepare_round(sid(1), chat_payload("go"), 0).unwrap();
    assert_eq!(round.request.tools.len(), 1);
    assert_eq!(round.request.tools[0].parameters, parse_text(r#"{"type":"object"}"#).unwrap());
}
