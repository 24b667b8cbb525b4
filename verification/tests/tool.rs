//! The tools of an agent, and batches of calls.

use referee::json::{parse_text, Json};
use referee::provider::{ToolCall, ToolCallFunction};
use referee::tool::definition::{ToolCategory, ToolError, ToolInfo};
use referee::tool::executor::{
    completion_message, conclude, prepare, Batch, ExecutedTool, ExecutorConfig, ToolEnd,
    ToolExecutor, ToolOutcome,
};
use referee::tool::registry::{RegistryConfig, RegistryError, ToolRegistry};
use referee::time::Duration;

fn object_schema() -> Json {
    Json::object().plus("type", Json::text("object"))
}

fn tool(name: &str) -> ToolInfo {
    ToolInfo::new(name, "dummy", object_schema())
}

fn make_registry(tools: Vec<ToolInfo>) -> ToolRegistry {
    let mut reg = ToolRegistry::new(RegistryConfig { max_tools: 64 });
    for t in tools {
        reg.register(t).unwrap();
    }
    reg
}

fn make_call(name: &str, args: &str) -> ToolCall {
    ToolCall {
        id: format!("tc_{}", name),
        function: ToolCallFunction { name: name.to_string(), arguments: args.to_string() },
    }
}

#[test]
fn registry_register_and_get() {
    let mut reg = ToolRegistry::with_defaults();
    reg.register(tool("foo")).unwrap();
    assert!(reg.get("foo").is_some());
    assert_eq!(reg.len(), 1);
}

#[test]
fn registry_duplicate_rejected() {
    let mut reg = ToolRegistry::with_defaults();
    reg.register(tool("foo")).unwrap();
    let err = reg.register(tool("foo")).unwrap_err();
    assert!(matches!(err, RegistryError::Duplicate(_)));
}

#[test]
fn registry_full_rejected() {
    let mut reg = ToolRegistry::new(RegistryConfig { max_tools: 2 });
    reg.register(tool("a")).unwrap();
    reg.register(tool("b")).unwrap();
    let err = reg.register(tool("c")).unwrap_err();
    assert!(matches!(err, RegistryError::Full(2)));
}

#[test]
fn registry_declarations_snapshot() {
    let reg = make_registry(vec![tool("a"), tool("b")]);
    let decls = reg.declarations();
    assert_eq!(decls.len(), 2);
    assert_eq!(decls[0].parameters, object_schema());
}

#[test]
fn registry_unregister() {
    let mut reg = ToolRegistry::with_defaults();
    reg.register(tool("foo")).unwrap();
    assert!(reg.unregister("foo"));
    assert!(!reg.unregister("foo"));
    assert_eq!(reg.len(), 0);
    assert!(reg.is_empty());
}

#[test]
fn declarations_for_depth_filters_subagent_tools_at_limit() {
    let sub = ToolInfo { depth_limited: true, ..tool("sub") };
    let reg = make_registry(vec![tool("plain"), sub]);

    let decls = reg.declarations_for_depth(1, 2);
    let names: Vec<_> = decls.iter().map(|d| d.name.as_str()).collect();
    assert!(names.contains(&"sub"));

    let decls = reg.declarations_for_depth(2, 2);
    let names: Vec<_> = decls.iter().map(|d| d.name.as_str()).collect();
    assert!(!names.contains(&"sub"));
    assert!(names.contains(&"plain"));
}

#[test]
fn declarations_visible_filters_by_whitelist() {
    let reg = make_registry(vec![tool("a"), tool("b")]);
    assert_eq!(reg.declarations_visible(None, 0, 2).len(), 2);

    let allow = vec!["a".to_string()];
    let visible = reg.declarations_visible(Some(&allow), 0, 2);
    let vis: Vec<_> = visible.iter().map(|d| d.name.as_str()).collect();
    assert_eq!(vis, vec!["a"]);

    let nobody: Vec<String> = vec![];
    assert!(reg.declarations_visible(Some(&nobody), 0, 2).is_empty());
}

#[test]
fn terminal_dispatch_tool_rejected_at_registration() {
    let mut reg = ToolRegistry::with_defaults();
    let bad = ToolInfo { terminal: true, default_wait: false, ..tool("bad_terminal") };
    let err = reg.register(bad).unwrap_err();
    assert!(
        matches!(&err, RegistryError::TerminalRequiresWait(n) if n == "bad_terminal"),
        "expected TerminalRequiresWait, got {err:?}"
    );
    assert!(err.message().contains("bad_terminal"));
    let good = ToolInfo { terminal: true, default_wait: true, ..tool("good_terminal") };
    assert!(reg.register(good).is_ok());
}

#[test]
fn truncation() {
    let exec = ToolExecutor::new(ExecutorConfig {
        max_per_turn: 2,
        tool_timeout: Duration::from_secs(5),
        max_concurrency: 5,
    });
    let calls: Vec<ToolCall> =
        (0..5).map(|i| make_call("a", &format!("{{\"i\":{}}}", i))).collect();
    let (head, tail) = exec.truncate(calls);
    assert_eq!(head.len(), 2);
    assert_eq!(tail.len(), 3);
    assert_eq!(tail[0].function.arguments, "{\"i\":2}");
}

fn find<'a>(results: &'a [ExecutedTool], id: &str) -> &'a ExecutedTool {
    results.iter().find(|r| r.tool_call_id == id).unwrap()
}

#[test]
fn panic_isolation() {
    let calls = vec![make_call("panic", "{}"), make_call("ok", "{}")];
    let mut batch = Batch::new(&calls);
    batch.complete(0, conclude(&calls[0], ToolEnd::Panicked("boom".into()), 1));
    assert!(!batch.is_done());
    batch.complete(1, conclude(&calls[1], ToolEnd::Output("ok_result".into()), 10));
    assert!(batch.is_done());
    let results = batch.into_results();
    assert_eq!(results.len(), 2);
    assert!(find(&results, "tc_panic").result.contains("panicked"));
    assert_eq!(find(&results, "tc_ok").result, "ok_result");
}

#[test]
fn timeout_isolation() {
    let r = conclude(&make_call("slow", "{}"), ToolEnd::TimedOut, 50);
    assert!(r.result.contains("timed out"));
    assert_eq!(r.outcome, ToolOutcome::Timeout);
}

#[test]
fn batch_deadline_converges_partial_results() {
    let calls = vec![make_call("fast", "{}"), make_call("very_slow", "{}")];
    let mut batch = Batch::new(&calls);
    batch.complete(0, conclude(&calls[0], ToolEnd::Output("fast_result".into()), 20));
    batch.expire(100);
    assert!(batch.is_done());
    let results = batch.into_results();
    assert_eq!(results.len(), 2, "each input yields exactly one result");
    assert_eq!(find(&results, "tc_fast").result, "fast_result");
    let slow = find(&results, "tc_very_slow");
    assert!(
        slow.result.contains("batch deadline"),
        "unfinished item must carry deadline message: {}",
        slow.result
    );
    assert_eq!(slow.outcome, ToolOutcome::BatchDeadline);
}

#[test]
fn calls_of_one_id_each_have_a_result() {
    let first = make_call("a", "{}");
    let second = ToolCall { id: first.id.clone(), ..make_call("b", "{}") };
    let calls = vec![first, second];
    let mut batch = Batch::new(&calls);
    batch.expire(100);
    let results = batch.into_results();
    let names: Vec<_> = results.iter().map(|r| r.tool_name.as_str()).collect();
    assert_eq!(names, vec!["a", "b"]);
    assert!(results.iter().all(|r| r.outcome == ToolOutcome::BatchDeadline));

    let mut batch = Batch::new(&calls);
    assert!(batch.complete(1, conclude(&calls[1], ToolEnd::Output("b_done".into()), 5)));
    assert!(!batch.complete(1, conclude(&calls[1], ToolEnd::Output("again".into()), 6)));
    assert!(!batch.complete(2, conclude(&calls[1], ToolEnd::Output("nobody".into()), 6)));
    assert!(!batch.is_done());
    batch.expire(100);
    assert!(batch.is_done());
    let results = batch.into_results();
    assert_eq!(results.len(), 2);
    assert_eq!(results[0].result, "b_done");
    assert_eq!(results[1].tool_name, "a");
    assert_eq!(results[1].tool_call_id, "tc_a");
    assert!(results[1].result.contains("batch deadline"));
}

#[test]
fn parallel_execution() {
    let calls = vec![make_call("a", "{}"), make_call("b", "{}")];
    let mut batch = Batch::new(&calls);
    batch.complete(1, conclude(&calls[1], ToolEnd::Output("b_done".into()), 50));
    batch.complete(0, conclude(&calls[0], ToolEnd::Output("a_done".into()), 51));
    let results = batch.into_results();
    assert_eq!(results.len(), 2);
    let ids: Vec<_> = results.iter().map(|r| r.tool_call_id.as_str()).collect();
    assert!(ids.contains(&"tc_a"));
    assert!(ids.contains(&"tc_b"));
}

#[test]
fn tool_not_found() {
    let reg = ToolRegistry::with_defaults();
    let call = make_call("nonexistent", "{}");
    assert!(prepare(&call, &reg).is_none());
    let r = conclude(&call, ToolEnd::NotFound, 0);
    assert!(r.result.contains("not found"));
    assert_eq!(r.outcome, ToolOutcome::NotFound);
}

#[test]
fn local_tools_bypass_semaphore() {
    let local = ToolInfo { category: ToolCategory::Local, ..tool("local_a") };
    let reg = make_registry(vec![local]);
    assert!(!prepare(&make_call("local_a", "{}"), &reg).unwrap().needs_permit);
}

#[test]
fn remote_tools_respect_semaphore() {
    let remote = ToolInfo { category: ToolCategory::Remote, ..tool("r_a") };
    let reg = make_registry(vec![remote]);
    assert!(prepare(&make_call("r_a", "{}"), &reg).unwrap().needs_permit);
}

#[test]
fn split_by_wait_override_default_and_missing() {
    let reg = make_registry(vec![ToolInfo { default_wait: true, ..tool("wait_default") }]);
    let exec = ToolExecutor::with_defaults();
    let calls = vec![
        make_call("wait_default", r#"{"wait":true}"#),
        make_call("wait_default", r#"{"wait":false}"#),
        make_call("wait_default", "{}"),
        make_call("missing", "{}"),
    ];
    let (waiting, dispatched) = exec.split_by_wait(calls, &reg);
    assert_eq!(waiting.len(), 3);
    assert_eq!(dispatched.len(), 1);
    assert_eq!(dispatched[0].id, "tc_wait_default");
    assert!(waiting.iter().any(|c| c.id == "tc_missing"));
}

#[test]
fn wait_override_wins_for_dispatch() {
    let reg = make_registry(vec![tool("a")]);
    let exec = ToolExecutor::with_defaults();
    let (waiting, dispatched) =
        exec.split_by_wait(vec![make_call("a", r#"{"wait":false}"#)], &reg);
    assert!(waiting.is_empty());
    assert_eq!(dispatched.len(), 1);
}

#[test]
fn reserved_wait_key_is_stripped_before_execute() {
    let reg = make_registry(vec![tool("record_args")]);
    let call = make_call("record_args", r#"{"x":1,"wait":true}"#);
    let ready = prepare(&call, &reg).expect("tool must run");
    assert_eq!(ready.args.get("x"), Some(&Json::unsigned(1)));
    assert!(ready.args.get("wait").is_none(), "reserved wait key must be stripped");
    assert!(ready.wait);
}

#[test]
fn arguments_that_are_no_json_are_null() {
    let reg = make_registry(vec![tool("a")]);
    assert_eq!(prepare(&make_call("a", "not json"), &reg).unwrap().args, Json::Null);
    let kept = parse_text(r#"{"x":[1,2]}"#).unwrap();
    assert_eq!(prepare(&make_call("a", r#"{"x":[1,2]}"#), &reg).unwrap().args, kept);
}

#[test]
fn every_end_of_a_call_has_its_words() {
    let call = make_call("t", "{}");
    let end = |e| conclude(&call, e, 7);
    let failed = end(ToolEnd::Failed(ToolError::Execution("no".into())));
    assert_eq!(failed.result, "tool execution failed: no");
    assert_eq!(failed.outcome, ToolOutcome::Completed);
    assert!(failed.failed);
    assert_eq!(failed.duration_ms, 7);
    assert_eq!(end(ToolEnd::TimedOut).result, "tool execution timed out");
    assert_eq!(end(ToolEnd::Panicked("p".into())).result, "tool panicked: p");
    assert_eq!(end(ToolEnd::PanickedBefore).result, "tool panicked: <pre-execute panic>");
    assert_eq!(end(ToolEnd::NotFound).result, "Tool 't' not found");
    assert_eq!(end(ToolEnd::NoPermit).outcome, ToolOutcome::PermitUnavailable);
    let ok = end(ToolEnd::Output("r".into()));
    assert!(!ok.failed);
    assert_eq!(completion_message(&ok), "[async tool 't' completed]\nr");
}
