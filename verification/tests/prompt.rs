//! Prompts cut to a budget.

use referee::budget::TokenEstimator;
use referee::json::{write_text, Json, Number};
use referee::prompt::{
    assemble, build_prompt, build_prompt_noted, fragment_kind, priority, section_parts,
    split_round_input, AssembleParts, PromptFragment, PromptParts, SystemSection,
};
use referee::provider::{
    ChatRequest, Message, MessageContent, Role, ThinkingConfig, ToolCall, ToolCallFunction,
    ToolDeclaration,
};

fn parts(
    system: Option<Message>,
    tools: Vec<ToolDeclaration>,
    history: Vec<Message>,
    memory: Vec<Message>,
    artifacts: Vec<Message>,
    prompt_budget: usize,
) -> PromptParts {
    PromptParts {
        system,
        tools,
        history,
        memory,
        artifacts,
        temperature: None,
        max_tokens: None,
        thinking: ThinkingConfig::default(),
        prompt_budget,
    }
}

fn msg(role: Role, text: &str) -> Message {
    Message {
        role,
        content: MessageContent::text(text),
        reasoning_content: None,
        tool_calls: Vec::new(),
        tool_call_id: None,
        usage: None,
    }
}

/// A text that costs about `tokens` tokens.
fn text_of_tokens(tokens: u64) -> String {
    let chars = ((tokens - 1) * 3 / 2) as usize;
    "x".repeat(chars)
}

fn one_tool() -> Vec<ToolDeclaration> {
    vec![ToolDeclaration {
        name: "tool".into(),
        description: "d".into(),
        parameters: Json::object(),
    }]
}

fn texts(req: &ChatRequest) -> Vec<&str> {
    req.messages.iter().map(|m| m.content.as_text().unwrap_or("")).collect()
}

fn call_round() -> Vec<Message> {
    let mut a = msg(Role::Assistant, "");
    a.tool_calls = vec![ToolCall {
        id: "tc_1".into(),
        function: ToolCallFunction { name: "t".into(), arguments: "{}".into() },
    }];
    vec![a, msg(Role::Tool, "result")]
}

#[test]
fn mod_truncation_respects_priority_order() {
    let req = build_prompt(parts(
        Some(msg(Role::System, &text_of_tokens(50))),
        one_tool(),
        vec![msg(Role::User, &text_of_tokens(200))],
        vec![msg(Role::User, &text_of_tokens(200))],
        vec![msg(Role::User, &text_of_tokens(200))],
        150,
    ));
    assert_eq!(req.messages.len(), 2);
    assert_eq!(req.messages[0].role, Role::System);
    assert_eq!(
        req.messages[1].content.as_text(),
        Some(text_of_tokens(200).as_str()),
        "current-round request input must be kept in full"
    );
    assert_eq!(req.tools.len(), 1);
    let user_count = req.messages.iter().filter(|m| m.role == Role::User).count();
    assert_eq!(user_count, 1, "only the core request input may remain, got {req:?}");
}

#[test]
fn mod_system_truncates_text_not_dropped() {
    let req = build_prompt(parts(
        Some(msg(Role::System, &text_of_tokens(500))),
        vec![],
        vec![],
        vec![],
        vec![],
        100,
    ));
    assert_eq!(req.messages.len(), 1);
    assert_eq!(req.messages[0].role, Role::System);
    let text = req.messages[0].content.as_text().unwrap();
    assert!(text.ends_with("[Truncated]"));
    let cost = TokenEstimator::estimate(text);
    assert!(cost <= 100, "truncated system cost {cost} exceeds 100");
}

#[test]
fn mod_system_truncate_cjk_no_panic() {
    let system = "系统提示词：".to_string()
        + &"这是一个很长的中文系统提示词，用来验证预算不足时的文本截断逻辑不会因为多字节字符而崩溃。"
            .repeat(50);
    let req =
        build_prompt(parts(Some(msg(Role::System, &system)), vec![], vec![], vec![], vec![], 50));
    let text = req.messages[0].content.as_text().unwrap();
    assert!(text.ends_with("[Truncated]"));
    assert!(TokenEstimator::estimate(text) <= 50);
}

#[test]
fn core_input_exceeding_budget_kept_in_full() {
    let long = text_of_tokens(100);
    let req = build_prompt(parts(None, vec![], vec![msg(Role::User, &long)], vec![], vec![], 5));
    assert_eq!(req.messages.len(), 1);
    assert_eq!(req.messages[0].content.as_text(), Some(long.as_str()));
}

#[test]
fn mod_history_sliding_window_keeps_recent() {
    let req = build_prompt(parts(
        None,
        vec![],
        vec![
            msg(Role::User, "oldest msg"),
            msg(Role::User, "old msg"),
            msg(Role::User, "mid msg"),
            msg(Role::User, "new msg"),
        ],
        vec![],
        vec![],
        11,
    ));
    assert_eq!(req.messages.len(), 3);
    assert_eq!(req.messages[0].content.as_text(), Some("old msg"));
    assert_eq!(req.messages[1].content.as_text(), Some("mid msg"));
    assert_eq!(req.messages[2].content.as_text(), Some("new msg"));
}

fn four_messages() -> Vec<Message> {
    vec![
        msg(Role::User, "q1"),
        msg(Role::Assistant, "a1"),
        msg(Role::User, "q2"),
        msg(Role::Assistant, "a2"),
    ]
}

#[test]
fn mod_history_window_fixes_leading_role() {
    let req = build_prompt(parts(None, vec![], four_messages(), vec![], vec![], 6));
    assert_eq!(req.messages.len(), 2);
    assert_eq!(req.messages[0].role, Role::User);
    assert_eq!(req.messages[1].role, Role::Assistant);
}

#[test]
fn mod_history_keeps_tool_call_round() {
    let req = build_prompt(parts(None, vec![], call_round(), vec![], vec![], 100));
    assert_eq!(req.messages.len(), 2, "tool-call round must be kept intact");
    assert_eq!(req.messages[0].role, Role::Assistant);
    assert!(req.messages[0].tool_calls.len() == 1);
    assert_eq!(req.messages[1].role, Role::Tool);
}

#[test]
fn mod_budget_zero_means_no_truncation() {
    let req = build_prompt(parts(
        None,
        vec![],
        vec![msg(Role::User, "a"), msg(Role::User, "b")],
        vec![],
        vec![],
        0,
    ));
    assert_eq!(req.messages.len(), 2);
}

fn with_params() -> PromptParts {
    PromptParts {
        temperature: Some(Number::Decimal("0.7".into())),
        max_tokens: Some(256),
        ..parts(None, vec![], vec![msg(Role::User, "hi")], vec![], vec![], 100)
    }
}

#[test]
fn mod_params_preserved_through_truncation() {
    let req = build_prompt(with_params());
    assert_eq!(req.temperature, Some(Number::Decimal("0.7".into())));
    assert_eq!(req.max_tokens, Some(256));
}

// The prompt that keeps what comes first.

#[test]
fn truncation_respects_priority_order() {
    let req = priority::build_prompt(parts(
        Some(msg(Role::System, &text_of_tokens(50))),
        one_tool(),
        vec![msg(Role::User, &text_of_tokens(200))],
        vec![msg(Role::User, &text_of_tokens(100))],
        vec![msg(Role::User, &text_of_tokens(100))],
        150,
    ));
    assert_eq!(req.messages.len(), 1);
    assert_eq!(req.messages[0].role, Role::System);
    assert_eq!(req.tools.len(), 1);
    assert!(
        req.messages.iter().all(|m| m.role != Role::User),
        "history/artifacts must be dropped, got {:?}",
        req.messages
    );
    let total: u64 = req
        .messages
        .iter()
        .map(|m| TokenEstimator::estimate(m.content.as_text().unwrap_or("")))
        .sum::<u64>()
        + req
            .tools
            .iter()
            .map(|t| {
                TokenEstimator::estimate(&t.name)
                    + TokenEstimator::estimate(&t.description)
                    + TokenEstimator::estimate(&write_text(&t.parameters))
            })
            .sum::<u64>();
    assert!(total <= 150, "total {total} exceeds budget 150");
}

#[test]
fn system_truncates_text_not_dropped() {
    let req = priority::build_prompt(parts(
        Some(msg(Role::System, &text_of_tokens(500))),
        vec![],
        vec![],
        vec![],
        vec![],
        100,
    ));
    assert_eq!(req.messages.len(), 1);
    assert_eq!(req.messages[0].role, Role::System);
    let text = req.messages[0].content.as_text().unwrap();
    assert!(text.ends_with("[Truncated]"));
    assert!(TokenEstimator::estimate(text) <= 100);
}

#[test]
fn history_sliding_window_keeps_recent() {
    let req = priority::build_prompt(parts(
        None,
        vec![],
        vec![msg(Role::User, "old msg"), msg(Role::User, "mid msg"), msg(Role::User, "new msg")],
        vec![],
        vec![],
        11,
    ));
    assert_eq!(texts(&req), vec!["mid msg", "new msg"]);
}

#[test]
fn history_window_fixes_leading_role() {
    let req = priority::build_prompt(parts(None, vec![], four_messages(), vec![], vec![], 6));
    assert_eq!(req.messages.len(), 2);
    assert_eq!(req.messages[0].role, Role::User);
    assert_eq!(req.messages[1].role, Role::Assistant);
}

#[test]
fn history_keeps_tool_call_round() {
    let req = priority::build_prompt(parts(None, vec![], call_round(), vec![], vec![], 100));
    assert_eq!(req.messages.len(), 2);
    assert_eq!(req.messages[0].tool_calls.len(), 1);
    assert_eq!(req.messages[1].role, Role::Tool);
}

#[test]
fn budget_zero_means_no_truncation() {
    let req = priority::build_prompt(parts(
        None,
        vec![],
        vec![msg(Role::User, "a"), msg(Role::User, "b")],
        vec![],
        vec![],
        0,
    ));
    assert_eq!(req.messages.len(), 2);
}

#[test]
fn params_preserved_through_truncation() {
    let req = priority::build_prompt(with_params());
    assert_eq!(req.temperature, Some(Number::Decimal("0.7".into())));
    assert_eq!(req.max_tokens, Some(256));
}

// Sections.

fn assemble_one(sections: Vec<SystemSection>, budget: usize) -> ChatRequest {
    assemble(AssembleParts {
        sections,
        tools: vec![],
        history: vec![msg(Role::User, "hi")],
        temperature: None,
        max_tokens: None,
        thinking: ThinkingConfig::default(),
        prompt_budget: budget,
    })
}

#[test]
fn assemble_omits_empty_sections() {
    let req = assemble_one(
        vec![
            SystemSection::stable("identity"),
            SystemSection { stable: true, text: "   ".into(), omit_if_empty: true },
            SystemSection { stable: false, text: "volatile".into(), omit_if_empty: false },
        ],
        0,
    );
    let text = req.messages[0].content.as_text().unwrap();
    assert!(text.contains("identity"));
    assert!(text.contains("volatile"));
    assert!(!text.contains("   \n"));
}

#[test]
fn assemble_orders_stable_first() {
    let req = assemble_one(
        vec![
            SystemSection { stable: false, text: "volatile".into(), omit_if_empty: false },
            SystemSection::stable("stable-a"),
            SystemSection::stable("stable-b"),
        ],
        0,
    );
    let text = req.messages[0].content.as_text().unwrap();
    let stable_a = text.find("stable-a").unwrap();
    let stable_b = text.find("stable-b").unwrap();
    let volatile = text.find("volatile").unwrap();
    assert!(stable_a < volatile, "stable-a must precede volatile");
    assert!(stable_b < volatile, "stable-b must precede volatile");
    assert!(stable_a < stable_b, "stable-a before stable-b (stable order kept)");
}

#[test]
fn assemble_empty_system_means_no_system_message() {
    let req = assemble_one(
        vec![SystemSection { stable: true, text: String::new(), omit_if_empty: true }],
        0,
    );
    assert!(req.messages.iter().all(|m| m.role != Role::System));
    assert_eq!(req.messages.len(), 1, "only history remains");
}

#[test]
fn assemble_respects_budget() {
    let req = assemble_one(vec![SystemSection::stable(&text_of_tokens(500))], 100);
    let sys = req.messages[0].content.as_text().unwrap();
    assert!(sys.ends_with("[Truncated]"));
    assert!(TokenEstimator::estimate(sys) <= 100);
}

// What else is promised.

#[test]
fn an_estimate_is_two_thirds_of_the_characters_and_one() {
    assert_eq!(TokenEstimator::estimate(""), 1);
    assert_eq!(TokenEstimator::estimate("abc"), 3);
    assert_eq!(TokenEstimator::estimate("abcdefg"), 5);
    assert_eq!(TokenEstimator::estimate("你好世界"), 3);
}

#[test]
fn the_input_of_a_round_is_its_last_user_message() {
    let (input, rest) = split_round_input(vec![msg(Role::Assistant, "a"), msg(Role::User, "q")]);
    assert_eq!(input.unwrap().content.as_text(), Some("q"));
    assert_eq!(rest.len(), 1);
    let (none, all) = split_round_input(vec![msg(Role::User, "q"), msg(Role::Assistant, "a")]);
    assert!(none.is_none());
    assert_eq!(all.len(), 2);
}

#[test]
fn a_round_that_ends_in_results_keeps_them_all() {
    let req = build_prompt(parts(None, vec![], call_round(), vec![], vec![], 0));
    assert_eq!(texts(&req), vec!["", "result"]);
}

#[test]
fn the_system_prompt_leads_and_the_input_is_kept() {
    let all = |budget| {
        parts(
            Some(msg(Role::System, "s")),
            vec![],
            vec![msg(Role::User, "old"), msg(Role::Assistant, "answer"), msg(Role::User, "now")],
            vec![msg(Role::User, "memory")],
            vec![msg(Role::User, "artifact")],
            budget,
        )
    };
    let whole = build_prompt(all(0));
    assert_eq!(texts(&whole), vec!["s", "old", "answer", "now", "memory", "artifact"]);
    let cut = build_prompt(all(1000));
    assert_eq!(texts(&cut), vec!["s", "old", "answer", "memory", "artifact", "now"]);
}

#[test]
fn a_fragment_that_does_not_fit_is_dropped_or_cut() {
    let system = PromptFragment::System(msg(Role::System, &text_of_tokens(50)));
    let (cut, cost) = system.truncate(20).expect("a system prompt is cut, not dropped");
    assert!(cost <= 20);
    assert_eq!(fragment_kind(&cut), fragment_kind(&system));
    let tools = PromptFragment::Tools(one_tool());
    assert!(tools.estimate_tokens() > 1);
    assert!(tools.truncate(1).is_none());
}

#[test]
fn the_cost_of_a_cut_history_is_that_of_what_is_kept() {
    let history = PromptFragment::History(vec![
        msg(Role::User, "q1"),
        msg(Role::Assistant, "a1"),
        msg(Role::User, "q2"),
        msg(Role::Assistant, "a2"),
    ]);
    assert_eq!(history.estimate_tokens(), 8);
    match history.truncate(6) {
        Some((PromptFragment::History(kept), cost)) => {
            let texts: Vec<_> = kept.iter().map(|m| m.content.as_text().unwrap_or("")).collect();
            assert_eq!(texts, vec!["q2", "a2"]);
            assert_eq!(cost, 4);
        }
        other => panic!("{other:?}"),
    }
}

#[test]
fn a_stable_section_is_left_out_when_empty() {
    let s = SystemSection::stable("");
    assert!(s.stable && s.omit_if_empty && s.text.is_empty());
    assert!(!SystemSection::new(true, "").omit_if_empty);
}

#[test]
fn what_is_cut_is_named() {
    let given = |budget: usize| {
        parts(
            Some(msg(Role::System, &text_of_tokens(40))),
            one_tool(),
            vec![
                msg(Role::User, &text_of_tokens(20)),
                msg(Role::User, "q"),
                msg(Role::User, "now"),
            ],
            vec![msg(Role::User, &text_of_tokens(30))],
            vec![msg(Role::User, "a")],
            budget,
        )
    };
    assert!(build_prompt_noted(given(0)).1.is_empty());
    assert!(build_prompt_noted(given(1000)).1.is_empty());
    let (req, cut) = build_prompt_noted(given(50));
    assert_eq!(cut, vec!["history", "memory"]);
    assert_eq!(texts(&req)[1..], ["q", "a", "now"]);
    let (req, cut) = build_prompt_noted(given(20));
    assert_eq!(cut, vec!["system", "tools", "history", "memory", "artifacts"]);
    assert_eq!(texts(&req)[1..], ["q", "now"]);
}

#[test]
fn sections_that_are_cut_are_named() {
    let sections = vec![SystemSection::stable(&text_of_tokens(500))];
    let made = section_parts(AssembleParts {
        sections,
        tools: Vec::new(),
        history: vec![msg(Role::User, "now")],
        temperature: None,
        max_tokens: None,
        thinking: ThinkingConfig::default(),
        prompt_budget: 100,
    });
    assert_eq!(build_prompt_noted(made).1, vec!["system"]);
}
