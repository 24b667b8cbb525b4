//! The daemon: arguments, dates, instances and their recovery.

use referee::aura::args::{parse_args, Command, DEFAULT_HTTP_BIND};
use referee::aura::calendar::{civil, iso8601, Date};
use referee::aura::instance::{
    bind_agent, InstanceManager, InstanceManagerConfig, RecoveryResult,
};
use referee::aura::protocol::{
    build_provider, checked_name, provider_info, InstanceId, InstanceSpec, InstanceState, ProviderConfig,
    ERR_INSTANCE_FULL, ERR_INSTANCE_NOT_FOUND, ERR_INVALID_SPEC,
};
use referee::aura::tools::{register_tools, FsToolConfig, InstanceTools, ToolSet};
use referee::engine::reply::EngineStartError;
use referee::engine::{ChatRun, ChatStep, EngineConfig};
use referee::observe::{
    budget_rejected, cache_access, llm_retry, prompt_truncated, record_turn_duration,
    tool_completed, turn_completed, Timer,
};
use referee::provider::{ChatResponse, FinishReason, Message, TokenUsage};
use referee::session::message::{ChatOptions, ChatPayload, SessionId};
use referee::session::TurnOutcome;
use referee::time::Duration;

fn parsed(args: &[&str]) -> Command {
    let args: Vec<String> = args.iter().map(|a| a.to_string()).collect();
    let is_address: Vec<bool> = args.iter().map(|a| a.contains(':')).collect();
    parse_args(&args, &is_address)
}

#[test]
fn arguments_say_how_the_daemon_runs() {
    match parsed(&[]) {
        Command::Run(a) => {
            assert_eq!((a.max_instances, a.max_sessions), (64, 100));
            assert!(a.state_dir.is_none() && a.bind.is_none() && a.http_bind.is_none());
        }
        other => panic!("does not run: {other:?}"),
    }
    match parsed(&[
        "--state-dir", "/var/aura", "--bind", "127.0.0.1:7100", "--http-bind",
        "--max-instances", "3", "--max-sessions", "many",
    ]) {
        Command::Run(a) => {
            assert_eq!(a.state_dir.as_deref(), Some("/var/aura"));
            assert_eq!(a.bind.as_deref(), Some("127.0.0.1:7100"));
            assert_eq!(a.http_bind.as_deref(), Some(DEFAULT_HTTP_BIND));
            assert_eq!((a.max_instances, a.max_sessions), (3, 100));
        }
        other => panic!("does not run: {other:?}"),
    }
    match parsed(&["--http-bind", "0.0.0.0:80", "--bind", "nowhere"]) {
        Command::Run(a) => {
            assert_eq!(a.http_bind.as_deref(), Some("0.0.0.0:80"));
            assert_eq!(a.bind, None);
        }
        other => panic!("does not run: {other:?}"),
    }
    assert!(matches!(parsed(&["-h"]), Command::Help));
    assert!(matches!(parsed(&["--help", "--odd"]), Command::Help));
    assert!(matches!(parsed(&["--odd"]), Command::Unknown(s) if s == "--odd"));
}

#[test]
fn seconds_make_a_date() {
    assert_eq!(civil(0), Date { year: 1970, month: 1, day: 1 });
    assert_eq!(civil(59), Date { year: 1970, month: 3, day: 1 });
    assert_eq!(civil(11_016), Date { year: 2000, month: 2, day: 29 });
    assert_eq!(civil(47_540), Date { year: 2100, month: 2, day: 28 });
    assert_eq!(civil(47_541), Date { year: 2100, month: 3, day: 1 });
    assert_eq!(iso8601(0), "1970-01-01T00:00:00Z");
    assert_eq!(iso8601(951_827_696), "2000-02-29T12:34:56Z");
    assert_eq!(iso8601(1_735_689_599), "2024-12-31T23:59:59Z");
}

fn deepseek(model: Option<&str>) -> ProviderConfig {
    ProviderConfig::DeepSeek {
        api_key: "key".into(),
        base_url: Some("https://example.com/".into()),
        model: model.map(String::from),
    }
}

fn spec(provider: ProviderConfig) -> InstanceSpec {
    InstanceSpec {
        model: "deepseek/deepseek-v3".into(),
        sections: vec!["You help.".into(), String::new(), "Be brief.".into()],
        engine: EngineConfig::default(),
        provider,
    }
}

fn id(name: &str) -> InstanceId {
    InstanceId { name: name.into() }
}

fn manager() -> InstanceManager {
    InstanceManager::new(InstanceManagerConfig {
        max_instances: 2,
        max_sessions_per_instance: 1,
        global_budget_limit: 10,
    })
}

fn sid(n: u64) -> SessionId {
    SessionId { hi: 1, lo: n }
}

fn payload() -> ChatPayload {
    ChatPayload { message: Message::user("hi"), options: ChatOptions::default(), peer_depth: 0 }
}

#[test]
fn a_vendor_is_built_where_there_is_an_adapter() {
    let p = match build_provider(&deepseek(Some("deepseek-v4-pro"))) {
        Ok(p) => p,
        Err(e) => panic!("{e:?}"),
    };
    assert_eq!(p.client.endpoint(), "https://example.com/chat/completions");
    assert_eq!(provider_info(&p).id.as_str(), "deepseek/deepseek-v4-pro");
    assert_eq!(p.client.timeout, Duration::from_secs(120));
    assert_eq!(p.client.retry.max_retries, 2);
    assert!(p.client.extra_headers.is_empty());
    for cfg in [
        ProviderConfig::XiaoMi { api_key: "k".into(), base_url: None },
        ProviderConfig::OpenAI { api_key: "k".into(), base_url: None, model: "m".into() },
    ] {
        match build_provider(&cfg) {
            Err(e) => assert_eq!(e.code, ERR_INVALID_SPEC),
            Ok(_) => panic!("there is no adapter"),
        }
    }
}

#[test]
fn sections_make_a_system_prompt() {
    assert_eq!(bind_agent(&spec(deepseek(None)).sections), "You help.\n\nBe brief.");
    assert_eq!(bind_agent(&vec![]), "");
}

#[test]
fn instances_are_made_listed_and_removed() {
    let mut m = manager();
    assert_eq!(m.create(Ok(id("one")), spec(deepseek(None)), 0).unwrap(), id("one"));
    m.create(Ok(id("two")), spec(deepseek(None)), 0).unwrap();
    let err = m.create(Ok(id("three")), spec(deepseek(None)), 0).unwrap_err();
    assert_eq!(err.code, ERR_INSTANCE_FULL);
    let infos = m.list();
    assert_eq!(infos.len(), 2);
    assert_eq!(infos[0].created_at, "1970-01-01T00:00:00Z");
    assert_eq!(infos[0].state, InstanceState::Running);
    assert_eq!(m.iter(), vec![id("one"), id("two")]);
    let gone = m.remove(&id("one")).unwrap();
    assert_eq!(gone.id, id("one"));
    assert_eq!(m.remove(&id("one")).unwrap_err().code, ERR_INSTANCE_NOT_FOUND);
    assert!(m.get(&id("one")).is_err());
    assert!(m.get(&id("two")).is_ok());
}

#[test]
fn a_specification_that_is_no_good_is_refused() {
    let mut m = manager();
    let err = m.create(Err("bad name".into()), spec(deepseek(None)), 0).unwrap_err();
    assert_eq!(err.code, ERR_INVALID_SPEC);
    let xiaomi = ProviderConfig::XiaoMi { api_key: "k".into(), base_url: None };
    let err = m.create(Ok(id("one")), spec(xiaomi), 0).unwrap_err();
    assert_eq!(err.code, ERR_INVALID_SPEC);
    assert!(m.list().is_empty());
}

#[test]
fn a_budget_is_shared_between_instances() {
    let mut m = manager();
    m.create(Ok(id("one")), spec(deepseek(None)), 0).unwrap();
    m.create(Ok(id("two")), spec(deepseek(None)), 0).unwrap();
    let one = m.place(&id("one")).unwrap();
    let two = m.place(&id("two")).unwrap();
    m.lend_budget(one);
    let instance = m.at_mut(one);
    let round = instance.chat(sid(1), payload(), 0).unwrap();
    assert_eq!(
        round.request.messages[0].content.as_text(),
        Some("You help.\n\nBe brief.")
    );
    let mut run = ChatRun::new(sid(1), false);
    let turn = round.turn_id;
    let engine = instance.engine_mut();
    engine.enter_round(&mut run, round, 0);
    let response = ChatResponse {
        id: "r".into(),
        model: "m".into(),
        message: Message::assistant("hello"),
        finish_reason: FinishReason::Stop,
        usage: Some(TokenUsage { total_tokens: 12, ..TokenUsage::default() }),
    };
    let outcome = TurnOutcome::Success(Box::new(response));
    let step = engine.finish_round(&mut run, turn, None, outcome, 0);
    assert!(matches!(step, ChatStep::Done(_)));
    m.collect_budget(one);
    m.lend_budget(two);
    match m.at_mut(two).chat(sid(2), payload(), 0) {
        Err(EngineStartError::Budget(_)) => {}
        other => panic!("the budget is used up: {other:?}"),
    }
    let infos = m.get(&id("one")).unwrap().session_infos();
    assert_eq!(infos.len(), 1);
    assert_eq!((infos[0].messages, infos[0].consumed_tokens), (2, 12));
    assert_eq!(infos[0].id, sid(1).to_text());
}

#[test]
fn an_instance_that_stops_tells_its_rounds() {
    let mut m = manager();
    m.create(Ok(id("one")), spec(deepseek(None)), 0).unwrap();
    let i = m.place(&id("one")).unwrap();
    let instance = m.at_mut(i);
    instance.chat(sid(1), payload(), 0).unwrap();
    instance.stop();
    assert!(instance.engine().is_interrupted(sid(1)));
    assert_eq!(instance.snapshot().state, InstanceState::Stopped);
    assert!(instance.interrupt(sid(1)));
    assert!(!instance.interrupt(sid(9)));
}

#[test]
fn what_was_there_comes_back() {
    let mut m = manager();
    let mut result =
        RecoveryResult { recovered_instances: 0, recovered_sessions: 0, broken: vec![] };
    let xiaomi = ProviderConfig::XiaoMi { api_key: "k".into(), base_url: None };
    let mut small = spec(deepseek(None));
    small.engine.max_sessions = 1;
    m.recover(
        vec![(id("one"), small), (id("odd"), spec(xiaomi))],
        0,
        &mut result,
    );
    assert_eq!(result.recovered_instances, 1);
    assert_eq!(result.broken.len(), 1);
    assert_eq!(result.broken[0].path, "odd");
    let i = m.place(&id("one")).unwrap();
    let said = || vec![Message::user("q"), Message::assistant("a")];
    m.recover_sessions(i, vec![(sid(1), said()), (sid(2), said())], 0, &mut result);
    assert_eq!(result.recovered_sessions, 2, "two messages were put back");
    assert_eq!(result.broken.len(), 2, "there is room for one session");
    assert_eq!(m.get(&id("one")).unwrap().engine().history_len(sid(1)), Some(2));
}

#[test]
fn measures_have_their_labels() {
    let label = |m: referee::observe::Metric| m.label.map(|l| l.1);
    assert_eq!(label(turn_completed("success")).as_deref(), Some("success"));
    assert_eq!(label(record_turn_duration("error")).as_deref(), Some("error"));
    assert_eq!(turn_completed("x").name, "referee_base_turns_total");
    assert_eq!(label(cache_access(true)).as_deref(), Some("hit"));
    assert_eq!(label(cache_access(false)).as_deref(), Some("miss"));
    assert_eq!(label(tool_completed(true)).as_deref(), Some("ok"));
    assert_eq!(label(tool_completed(false)).as_deref(), Some("fail"));
    assert_eq!(label(budget_rejected("global")).as_deref(), Some("global"));
    assert_eq!(label(prompt_truncated("history")).as_deref(), Some("history"));
    assert_eq!(llm_retry().label, None);
    assert_eq!(Timer::start(5).finish(12), Duration::from_millis(7));
    assert_eq!(Timer::start(5).finish(3), Duration::from_millis(0));
}

#[test]
fn tools_are_registered_as_asked_for() {
    assert!(register_tools(&InstanceTools { fs: None, artifact: false }).is_empty());
    let fs = FsToolConfig {
        root: Some("/work".into()),
        max_file_bytes: 1_048_576,
        default_limit_chars: 3000,
    };
    let sets = register_tools(&InstanceTools { fs: Some(fs), artifact: true });
    assert_eq!(sets.len(), 3);
    match &sets[0] {
        ToolSet::Read(c) => {
            assert_eq!(c.default_limit_chars, 3000);
            assert_eq!(c.max_limit_chars, 20_000);
            assert_eq!(c.max_file_bytes, 1_048_576);
            assert_eq!(c.root.as_deref(), Some("/work"));
        }
        other => panic!("{other:?}"),
    }
    match &sets[1] {
        ToolSet::Write(c) => {
            assert_eq!(c.max_file_bytes, 1_048_576);
            assert_eq!(c.root.as_deref(), Some("/work"));
        }
        other => panic!("{other:?}"),
    }
    assert!(matches!(sets[2], ToolSet::Artifacts));
}

#[test]
fn a_name_can_stand_in_a_path() {
    assert_eq!(checked_name("my-agent_1").unwrap().as_str(), "my-agent_1");
    for bad in ["", "../x", "a b", "名"] {
        assert_eq!(checked_name(bad).unwrap_err(), format!("invalid instance id: {bad}"));
    }
}
