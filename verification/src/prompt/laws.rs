//! What a prompt is made of, said by roles and texts.

use vstd::prelude::*;
use vstd::string::*;

use crate::budget::{
    budget_verdict, counted, estimate, message_cost, response_tokens, BudgetConfig, BudgetError,
};
use crate::json::json_text;
use crate::prompt::{
    cut_kinds, fit, fit_system, fit_text, from_leader, keep_all, keep_history, keep_tools,
    kept_context, law_from_leader, law_window, messages_cost, omitted, optional, priority,
    prompt_of, section_texts, split_input, stacked, suffix, system_text, tool_cost, tools_cost,
    window, PromptFragmentView, PromptPartsView, SystemSectionView,
};
use crate::provider::{
    ChatResponseView, MessageContentView, MessageView, Role, ToolDeclarationView,
};
use crate::text::trim;

verus! {

broadcast use vstd::string::group_string_axioms;

/// A message that a history can begin with: of the user or of the system, or of the
/// assistant with a tool call.
pub open spec fn begins_a_history(m: MessageView) -> bool {
    ||| m.role == Role::User
    ||| m.role == Role::System
    ||| m.role == Role::Assistant && m.tool_calls.len() > 0
}

/// What is kept of a history is an end of it that begins with a message of the user or
/// of the system, or with one of the assistant that calls a tool; never with the result
/// of a tool. What it fails to take of the messages that would have fitted could not
/// have begun it.
pub proof fn law_history_begins_well(msgs: Seq<MessageView>, budget: int)
    requires
        budget >= 0,
    ensures
        ({
            let kept = keep_history(msgs, budget).0;
            &&& kept.len() > 0 ==> begins_a_history(kept[0]) && kept[0].role != Role::Tool
            &&& kept.len() <= msgs.len()
            &&& kept == msgs.skip(msgs.len() - kept.len())
            &&& messages_cost(kept) <= budget
            &&& keep_history(msgs, budget).1 == budget - messages_cost(kept)
            &&& forall|i: int|
                msgs.len() - window(msgs, budget).len() <= i < msgs.len() - kept.len()
                    ==> !begins_a_history(#[trigger] msgs[i])
        }),
        fit(PromptFragmentView::History(msgs), budget) matches Some((f, c)) ==> {
            &&& f matches PromptFragmentView::History(kept)
            &&& kept.len() > 0
            &&& begins_a_history(kept[0])
            &&& kept[0].role != Role::Tool
            &&& kept == msgs.skip(msgs.len() - kept.len())
            &&& c == messages_cost(kept)
        },
{
    let w = window(msgs, budget);
    let kept = keep_history(msgs, budget).0;
    law_window(msgs, budget);
    law_from_leader(w);
    crate::prompt::lemma_history_fits(msgs, budget);
    assert(from_leader(w) =~= msgs.skip(msgs.len() - from_leader(w).len()));
    if from_leader(w).len() == 0 {
        assert(messages_cost(kept) == 0);
        assert(kept =~= msgs.skip(msgs.len() - kept.len()));
    }
    assert forall|i: int| msgs.len() - w.len() <= i < msgs.len() - kept.len() implies
        !begins_a_history(#[trigger] msgs[i]) by {
        assert(w[i - (msgs.len() - w.len())] == msgs[i]);
    }
}

/// A history that fits its budget and begins well is kept whole.
pub proof fn law_fitting_history_is_kept(msgs: Seq<MessageView>, budget: int)
    requires
        messages_cost(msgs) <= budget,
        msgs.len() > 0,
        begins_a_history(msgs[0]),
    ensures
        keep_history(msgs, budget).0 == msgs,
{
    lemma_costs_are_positive(msgs);
    lemma_fitting_window(msgs, budget);
}

/// Costs are not negative.
proof fn lemma_costs_are_positive(msgs: Seq<MessageView>)
    ensures
        messages_cost(msgs) >= 0,
    decreases msgs.len(),
{
    if msgs.len() > 0 {
        lemma_costs_are_positive(msgs.drop_last());
    }
}

/// A history that fits is its own window.
proof fn lemma_fitting_window(msgs: Seq<MessageView>, budget: int)
    requires
        messages_cost(msgs) <= budget,
    ensures
        window(msgs, budget) == msgs,
    decreases msgs.len(),
{
    if msgs.len() > 0 {
        lemma_costs_are_positive(msgs.drop_last());
        lemma_fitting_window(msgs.drop_last(), budget - message_cost(msgs.last()));
        assert(msgs.drop_last().push(msgs.last()) =~= msgs);
    }
}

/// Behind the system message, a prompt under a budget never begins with the result of a
/// tool, nor with an answer of the assistant that calls none.
pub proof fn law_prompt_begins_well(p: PromptPartsView)
    requires
        p.prompt_budget > 0,
        forall|i: int| 0 <= i < p.memory.len() ==> begins_a_history(#[trigger] p.memory[i]),
        forall|i: int| 0 <= i < p.artifacts.len() ==> begins_a_history(#[trigger] p.artifacts[i]),
    ensures
        ({
            let k = optional(p.system).len();
            &&& prompt_of(p).messages.len() > k ==> prompt_of(p).messages[k as int].role
                != Role::Tool && begins_a_history(prompt_of(p).messages[k as int])
            &&& priority::prompt_of(p).messages.len() > k ==> priority::prompt_of(
                p,
            ).messages[k as int].role != Role::Tool && begins_a_history(
                priority::prompt_of(p).messages[k as int],
            )
        }),
{
    let k = optional(p.system).len();
    let (tools, b1) = keep_tools(p.tools, crate::prompt::budget_after_system(p));
    let before = split_input(p.history).1;
    lemma_tools_cost_is_positive(p.tools);
    law_history_begins_well(before, b1);
    let (c1, d1) = priority::tools_step(p.tools, priority::budget_after_system(p));
    law_history_begins_well(p.history, d1);
}

/// Costs are not negative.
proof fn lemma_tools_cost_is_positive(tools: Seq<ToolDeclarationView>)
    ensures
        tools_cost(tools) >= 0,
    decreases tools.len(),
{
    if tools.len() > 0 {
        lemma_tools_cost_is_positive(tools.drop_last());
    }
}

/// The order of a prompt: the system message, what is kept of the history, the memory,
/// the artifacts, and last the input of the round. Without a budget everything is there.
pub proof fn law_prompt_order(p: PromptPartsView)
    ensures
        p.prompt_budget == 0 && p.system is None ==> prompt_of(p).messages == p.history
            + p.memory + p.artifacts,
        p.prompt_budget == 0 ==> (p.system matches Some(m) ==> prompt_of(p).messages == seq![m]
            + p.history + p.memory + p.artifacts),
        p.prompt_budget == 0 ==> prompt_of(p).tools == p.tools,
        priority::prompt_of(p).tools == p.tools || priority::prompt_of(p).tools.len() == 0,
        prompt_of(p).tools == p.tools || prompt_of(p).tools.len() == 0,
        p.prompt_budget > 0 && p.history.len() > 0 && p.history.last().role == Role::User ==> {
            let rest = p.history.drop_last();
            let (tools, history, memory, artifacts, left) = kept_context(p);
            &&& memory == p.memory || memory.len() == 0
            &&& artifacts == p.artifacts || artifacts.len() == 0
            &&& exists|n: int|
                0 <= n <= rest.len() && prompt_of(p).messages == optional(
                    crate::prompt::kept_system(p),
                ) + #[trigger] rest.skip(n) + memory + artifacts + seq![p.history.last()]
        },
{
    if p.prompt_budget == 0 {
        assert(optional(None) + p.history =~= p.history);
    } else if p.history.len() > 0 && p.history.last().role == Role::User {
        let rest = p.history.drop_last();
        lemma_tools_cost_is_positive(p.tools);
        let (tools, b1) = keep_tools(p.tools, crate::prompt::budget_after_system(p));
        law_history_begins_well(rest, b1);
        let (t, history, memory, artifacts, left) = kept_context(p);
        let n = rest.len() - history.len();
        assert(rest.skip(n) == history);
    }
}

/// A part that fits what is left is kept whole, and its cost is taken off; one that does
/// not fit is left out, and nothing is taken off.
pub proof fn law_parts_are_whole(
    tools: Seq<ToolDeclarationView>,
    msgs: Seq<MessageView>,
    budget: int,
)
    requires
        0 <= budget <= u64::MAX,
    ensures
        tools_cost(tools) <= budget ==> keep_tools(tools, budget) == (
            tools,
            budget - tools_cost(tools),
        ),
        budget < tools_cost(tools) && budget < u64::MAX ==> keep_tools(tools, budget).0.len() == 0
            && keep_tools(tools, budget).1 == budget,
        messages_cost(msgs) <= budget ==> keep_all(msgs, budget) == (
            msgs,
            budget - messages_cost(msgs),
        ),
        budget < messages_cost(msgs) && budget < u64::MAX ==> keep_all(msgs, budget).0.len() == 0
            && keep_all(msgs, budget).1 == budget,
{
}

/// A text is estimated at two tokens for three characters, and one more; messages,
/// declarations and lists of them at the sum of their texts.
pub proof fn law_estimates(
    text: Seq<char>,
    k: nat,
    m: MessageView,
    t: ToolDeclarationView,
    msgs: Seq<MessageView>,
    tools: Seq<ToolDeclarationView>,
)
    ensures
        text.len() == 3 * k ==> estimate(text) == 2 * k + 1,
        text.len() == 3 * k + 1 ==> estimate(text) == 2 * k + 1,
        text.len() == 3 * k + 2 ==> estimate(text) == 2 * k + 2,
        m.content == MessageContentView::Text(text) ==> message_cost(m) == estimate(text),
        m.content is Multimodal ==> message_cost(m) == 1,
        tool_cost(t) == estimate(t.name) + estimate(t.description) + estimate(
            json_text(t.parameters),
        ),
        messages_cost(Seq::empty()) == 0,
        messages_cost(msgs.push(m)) == messages_cost(msgs) + message_cost(m),
        tools_cost(Seq::empty()) == 0,
        tools_cost(tools.push(t)) == tools_cost(tools) + tool_cost(t),
{
    reveal_strlit("");
    assert(""@.len() == 0);
    assert(msgs.push(m).drop_last() =~= msgs);
    assert(tools.push(t).drop_last() =~= tools);
}

/// A text that is over its budget keeps a beginning and says that it was cut; a text
/// that is not stays as it is.
pub proof fn law_cut_text(text: Seq<char>, budget: int)
    ensures
        estimate(text) <= budget ==> fit_text(text, budget) == text,
        estimate(text) > budget ==> exists|n: int|
            0 <= n <= text.len() && fit_text(text, budget) == #[trigger] text.take(n)
                + "...[Truncated]"@,
        budget >= estimate("...[Truncated]"@) ==> estimate(fit_text(text, budget)) <= budget,
{
    if estimate(text) > budget {
        let n = if crate::prompt::kept_chars(budget) <= text.len() {
            crate::prompt::kept_chars(budget)
        } else {
            text.len() as int
        };
        assert(fit_text(text, budget) == text.take(n) + "...[Truncated]"@);
    }
    if budget >= estimate(suffix()) {
        crate::prompt::law_fit_text(text, budget);
    }
}

/// The system message stays one of its role; only its text is cut.
pub proof fn law_system_is_kept(m: MessageView, text: Seq<char>, budget: int)
    requires
        m.content == MessageContentView::Text(text),
    ensures
        fit_system(m, budget).role == m.role,
        fit_system(m, budget).tool_calls == m.tool_calls,
        fit_system(m, budget).tool_call_id == m.tool_call_id,
        fit_system(m, budget).reasoning_content == m.reasoning_content,
        estimate(text) <= budget ==> fit_system(m, budget) == m,
        estimate(text) > budget ==> exists|n: int|
            0 <= n <= text.len() && fit_system(m, budget).content == MessageContentView::Text(
                #[trigger] text.take(n) + "...[Truncated]"@,
            ),
{
    law_cut_text(text, budget);
    if estimate(text) > budget {
        let n = choose|n: int|
            0 <= n <= text.len() && fit_text(text, budget) == #[trigger] text.take(n)
                + "...[Truncated]"@;
        assert(fit_system(m, budget).content == MessageContentView::Text(
            text.take(n) + "...[Truncated]"@,
        ));
    }
}

/// The input of a round is the last message of a history, where that is the user's.
pub proof fn law_input_is_split(history: Seq<MessageView>, m: MessageView)
    ensures
        m.role == Role::User ==> split_input(history.push(m)) == (Some(m), history),
        m.role != Role::User ==> split_input(history.push(m)) == (
            None::<MessageView>,
            history.push(m),
        ),
{
    assert(history.push(m).drop_last() =~= history);
}

/// What was cut is named, and nothing else is.
pub proof fn law_cuts_are_named(p: PromptPartsView)
    requires
        p.prompt_budget > 0,
    ensures
        ({
            let (tools, history, memory, artifacts, left) = kept_context(p);
            let inner = split_input(p.history).1;
            &&& cut_kinds(p).contains("tools"@) <==> tools.len() < p.tools.len()
            &&& cut_kinds(p).contains("history"@) <==> history.len() < inner.len()
            &&& cut_kinds(p).contains("memory"@) <==> memory.len() < p.memory.len()
            &&& cut_kinds(p).contains("artifacts"@) <==> artifacts.len() < p.artifacts.len()
            &&& cut_kinds(p).contains("system"@) <==> (p.system matches Some(m) && message_cost(m)
                > p.prompt_budget)
        }),
{
    lemma_kinds();
    let (tools, history, memory, artifacts, left) = kept_context(p);
    let a = crate::prompt::named_if(
        p.system matches Some(m) && message_cost(m) > p.prompt_budget,
        "system"@,
    );
    let b = crate::prompt::named_if(tools.len() < p.tools.len(), "tools"@);
    let c = crate::prompt::named_if(history.len() < split_input(p.history).1.len(), "history"@);
    let d = crate::prompt::named_if(memory.len() < p.memory.len(), "memory"@);
    let e = crate::prompt::named_if(artifacts.len() < p.artifacts.len(), "artifacts"@);
    lemma_contains_sum(a, b, c, d, e, "system"@);
    lemma_contains_sum(a, b, c, d, e, "tools"@);
    lemma_contains_sum(a, b, c, d, e, "history"@);
    lemma_contains_sum(a, b, c, d, e, "memory"@);
    lemma_contains_sum(a, b, c, d, e, "artifacts"@);
    lemma_named(p.system matches Some(m) && message_cost(m) > p.prompt_budget, "system"@);
    lemma_named(tools.len() < p.tools.len(), "tools"@);
    lemma_named(history.len() < split_input(p.history).1.len(), "history"@);
    lemma_named(memory.len() < p.memory.len(), "memory"@);
    lemma_named(artifacts.len() < p.artifacts.len(), "artifacts"@);
}

/// A name is there where there is something to name.
proof fn lemma_named(cut: bool, kind: Seq<char>)
    ensures
        forall|x: Seq<char>| #[trigger]
            crate::prompt::named_if(cut, kind).contains(x) <==> cut && x == kind,
{
    assert(seq![kind][0] == kind);
}

/// What a sum holds, one of its parts holds.
proof fn lemma_contains_sum(
    a: Seq<Seq<char>>,
    b: Seq<Seq<char>>,
    c: Seq<Seq<char>>,
    d: Seq<Seq<char>>,
    e: Seq<Seq<char>>,
    x: Seq<char>,
)
    ensures
        (a + b + c + d + e).contains(x) <==> a.contains(x) || b.contains(x) || c.contains(x)
            || d.contains(x) || e.contains(x),
{
    lemma_contains_both(a, b, x);
    lemma_contains_both(a + b, c, x);
    lemma_contains_both(a + b + c, d, x);
    lemma_contains_both(a + b + c + d, e, x);
}

/// What a sum of two holds.
proof fn lemma_contains_both(a: Seq<Seq<char>>, b: Seq<Seq<char>>, x: Seq<char>)
    ensures
        (a + b).contains(x) <==> a.contains(x) || b.contains(x),
{
    if a.contains(x) {
        let i = choose|i: int| 0 <= i < a.len() && a[i] == x;
        assert((a + b)[i] == x);
    }
    if b.contains(x) {
        let i = choose|i: int| 0 <= i < b.len() && b[i] == x;
        assert((a + b)[a.len() + i] == x);
    }
}

/// The names of parts differ.
pub proof fn lemma_kinds()
    ensures
        "system"@ != "tools"@,
        "system"@ != "history"@,
        "system"@ != "memory"@,
        "system"@ != "artifacts"@,
        "tools"@ != "history"@,
        "tools"@ != "memory"@,
        "tools"@ != "artifacts"@,
        "history"@ != "memory"@,
        "history"@ != "artifacts"@,
        "memory"@ != "artifacts"@,
{
    reveal_strlit("system");
    reveal_strlit("tools");
    reveal_strlit("history");
    reveal_strlit("memory");
    reveal_strlit("artifacts");
    assert("system"@.len() == 6);
    assert("tools"@.len() == 5);
    assert("history"@.len() == 7);
    assert("memory"@.len() == 6);
    assert("artifacts"@.len() == 9);
    assert("system"@[0] != "memory"@[0]);
}

/// A section that changes is put behind the system text, on a line of its own; a stable
/// one behind the stable ones. One that is blank and may be left out is left out.
pub proof fn law_sections_are_stacked(sections: Seq<SystemSectionView>, s: SystemSectionView)
    ensures
        s.omit_if_empty && trim(s.text).len() == 0 ==> system_text(sections.push(s))
            == system_text(sections),
        !s.stable && !(s.omit_if_empty && trim(s.text).len() == 0) && system_text(sections).len()
            > 0 ==> system_text(sections.push(s)) == system_text(sections) + seq!['\n'] + s.text,
        !s.stable && !(s.omit_if_empty && trim(s.text).len() == 0) && system_text(sections).len()
            == 0 ==> system_text(sections.push(s)) == s.text,
        s.stable && !(s.omit_if_empty && trim(s.text).len() == 0) && stacked(
            section_texts(sections, true),
        ).len() > 0 ==> stacked(section_texts(sections.push(s), true)) == stacked(
            section_texts(sections, true),
        ) + seq!['\n'] + s.text,
        system_text(Seq::empty()).len() == 0,
{
    let a = section_texts(sections, true);
    let b = section_texts(sections, false);
    assert(sections.push(s).drop_last() =~= sections);
    assert(section_texts(Seq::empty(), true) + section_texts(Seq::empty(), false)
        =~= Seq::<Seq<char>>::empty());
    if !omitted(s) {
        if s.stable {
            assert(a.push(s.text).drop_last() =~= a);
            let before = stacked(a);
            assert(before.push('\n') + s.text =~= before + seq!['\n'] + s.text);
        } else {
            assert(a + b.push(s.text) =~= (a + b).push(s.text));
            assert((a + b).push(s.text).drop_last() =~= a + b);
            let before = stacked(a + b);
            assert(before.push('\n') + s.text =~= before + seq!['\n'] + s.text);
        }
    }
}

/// A budget is refused exactly where a limit that is set has been reached, and it is
/// said which limit, how much was used, and how much is allowed.
pub proof fn law_budget_is_checked(cfg: BudgetConfig, session_used: u64, global_used: u64)
    ensures
        budget_verdict(cfg, session_used, global_used) is Ok <==> (cfg.session_limit == 0
            || session_used < cfg.session_limit) && (cfg.global_limit == 0 || global_used
            < cfg.global_limit),
        cfg.session_limit != 0 && session_used >= cfg.session_limit ==> budget_verdict(
            cfg,
            session_used,
            global_used,
        ) == Err::<(), BudgetError>(
            BudgetError::SessionExceeded { used: session_used, limit: cfg.session_limit },
        ),
        (cfg.session_limit == 0 || session_used < cfg.session_limit) && cfg.global_limit != 0
            && global_used >= cfg.global_limit ==> budget_verdict(cfg, session_used, global_used)
            == Err::<(), BudgetError>(
            BudgetError::GlobalExceeded { used: global_used, limit: cfg.global_limit },
        ),
{
}

/// What a response cost is the total that it reports, and is added up.
pub proof fn law_tokens_are_counted(r: ChatResponseView, a: u64, b: u64)
    ensures
        r.usage matches Some(u) ==> response_tokens(r) == u.total_tokens,
        r.usage is None ==> response_tokens(r) == 0,
        a + b <= u64::MAX ==> counted(a, b) == a + b,
        a + b > u64::MAX ==> counted(a, b) == u64::MAX,
{
}

/// The cost of a message that may be absent.
proof fn lemma_optional_cost(m: Option<MessageView>)
    ensures
        m matches Some(x) ==> messages_cost(optional(m)) == message_cost(x),
        m is None ==> messages_cost(optional(m)) == 0,
{
    if let Some(x) = m {
        assert(optional(m).drop_last() =~= Seq::empty());
        assert(messages_cost(Seq::empty()) == 0);
    }
}

/// Where everything fits, everything is kept.
pub proof fn law_all_is_kept_where_all_fits(p: PromptPartsView)
    requires
        p.prompt_budget > 0,
        ({
            let rest = split_input(p.history).1;
            &&& messages_cost(optional(p.system)) + tools_cost(p.tools) + messages_cost(rest)
                + messages_cost(p.memory) + messages_cost(p.artifacts) <= p.prompt_budget
            &&& rest.len() > 0 ==> begins_a_history(rest[0])
        }),
    ensures
        prompt_of(p).tools == p.tools,
        prompt_of(p).messages == optional(p.system) + split_input(p.history).1 + p.memory
            + p.artifacts + optional(split_input(p.history).0),
{
    let rest = split_input(p.history).1;
    lemma_tools_cost_is_positive(p.tools);
    lemma_costs_are_positive(rest);
    lemma_costs_are_positive(p.memory);
    lemma_costs_are_positive(p.artifacts);
    lemma_optional_cost(p.system);
    let b0 = p.prompt_budget - messages_cost(optional(p.system));
    lemma_fitting_window(rest, b0 - tools_cost(p.tools));
    if rest.len() == 0 {
        assert(rest =~= Seq::empty());
    }
}

/// The same of prompts that are put together by priority, whose history has no input
/// apart.
pub proof fn law_all_is_kept_by_priority(p: PromptPartsView)
    requires
        p.prompt_budget > 0,
        messages_cost(optional(p.system)) + tools_cost(p.tools) + messages_cost(p.history)
            + messages_cost(p.memory) + messages_cost(p.artifacts) < p.prompt_budget,
        p.history.len() > 0 ==> begins_a_history(p.history[0]),
    ensures
        priority::prompt_of(p).tools == p.tools,
        priority::prompt_of(p).messages == optional(p.system) + p.history + p.memory + p.artifacts,
{
    lemma_tools_cost_is_positive(p.tools);
    lemma_costs_are_positive(p.history);
    lemma_costs_are_positive(p.memory);
    lemma_costs_are_positive(p.artifacts);
    lemma_optional_cost(p.system);
    let b1 = p.prompt_budget - messages_cost(optional(p.system)) - tools_cost(p.tools);
    lemma_fitting_window(p.history, b1);
    if p.history.len() == 0 {
        assert(p.history =~= Seq::empty());
    }
}

/// A fragment is kept whole where it fits, at its cost, and else left out; only a history
/// is kept in part, and a system message always stays.
pub proof fn law_fragments_are_fitted(
    tools: Seq<ToolDeclarationView>,
    msgs: Seq<MessageView>,
    m: MessageView,
    budget: int,
)
    requires
        0 <= budget <= u64::MAX,
        tools_cost(tools) <= u64::MAX,
        messages_cost(msgs) <= u64::MAX,
    ensures
        tools_cost(tools) <= budget ==> fit(PromptFragmentView::Tools(tools), budget) == Some(
            (PromptFragmentView::Tools(tools), tools_cost(tools)),
        ),
        tools_cost(tools) > budget ==> fit(PromptFragmentView::Tools(tools), budget) is None,
        messages_cost(msgs) <= budget ==> fit(PromptFragmentView::Memory(msgs), budget) == Some(
            (PromptFragmentView::Memory(msgs), messages_cost(msgs)),
        ),
        messages_cost(msgs) > budget ==> fit(PromptFragmentView::Memory(msgs), budget) is None,
        messages_cost(msgs) <= budget ==> fit(PromptFragmentView::Artifacts(msgs), budget) == Some(
            (PromptFragmentView::Artifacts(msgs), messages_cost(msgs)),
        ),
        messages_cost(msgs) > budget ==> fit(PromptFragmentView::Artifacts(msgs), budget) is None,
        fit(PromptFragmentView::System(m), budget) == Some(
            (
                PromptFragmentView::System(fit_system(m, budget)),
                message_cost(fit_system(m, budget)),
            ),
        ),
        message_cost(m) <= budget ==> fit(PromptFragmentView::System(m), budget) == Some(
            (PromptFragmentView::System(m), message_cost(m)),
        ),
        crate::prompt::fragment_cost(PromptFragmentView::System(m)) == message_cost(m),
        crate::prompt::fragment_cost(PromptFragmentView::Tools(tools)) == tools_cost(tools),
        crate::prompt::fragment_cost(PromptFragmentView::History(msgs)) == messages_cost(msgs),
        crate::prompt::fragment_cost(PromptFragmentView::Memory(msgs)) == messages_cost(msgs),
        crate::prompt::fragment_cost(PromptFragmentView::Artifacts(msgs)) == messages_cost(msgs),
{
}

/// What comes first is cut last: what is kept of tools and history does not depend on
/// memory and artifacts, nor what is kept of the memory on the artifacts.
pub proof fn law_first_things_first(p: PromptPartsView, q: PromptPartsView)
    requires
        q.system == p.system,
        q.tools == p.tools,
        q.history == p.history,
        q.prompt_budget == p.prompt_budget,
    ensures
        kept_context(q).0 == kept_context(p).0,
        kept_context(q).1 == kept_context(p).1,
        q.memory == p.memory ==> kept_context(q).2 == kept_context(p).2,
{
}

/// A prompt by priority stays within its budget.
pub proof fn law_priority_fits(p: PromptPartsView)
    requires
        p.prompt_budget >= estimate("...[Truncated]"@),
    ensures
        ({
            let (tools, b1) = priority::tools_step(p.tools, priority::budget_after_system(p));
            let (history, b2) = priority::history_step(p.history, b1);
            let (memory, b3) = priority::messages_step(p.memory, b2);
            let (artifacts, b4) = priority::messages_step(p.artifacts, b3);
            &&& b4 >= 0
            &&& p.system matches Some(m) ==> message_cost(
                fit_system(m, p.prompt_budget as int),
            ) + crate::prompt::capped(tools_cost(tools)) + messages_cost(history)
                + crate::prompt::capped(messages_cost(memory)) + crate::prompt::capped(
                messages_cost(artifacts),
            ) <= p.prompt_budget
        }),
{
    let budget = p.prompt_budget as int;
    if let Some(m) = p.system {
        law_cut_text(m.content.text_or_empty(), budget);
    }
    let (tools, b1) = priority::tools_step(p.tools, priority::budget_after_system(p));
    lemma_tools_cost_is_positive(p.tools);
    law_history_begins_well(p.history, b1);
    let (history, b2) = priority::history_step(p.history, b1);
    lemma_costs_are_positive(p.memory);
    lemma_costs_are_positive(p.artifacts);
    lemma_costs_are_positive(history);
    assert(messages_cost(Seq::empty()) == 0);
    assert(tools_cost(Seq::empty()) == 0);
}

/// A prompt that is put together from sections has them as its system message, and
/// everything else as it was given.
pub proof fn law_sections_are_the_system(p: crate::prompt::AssembleParts)
    ensures
        ({
            let a = crate::prompt::assembled(p);
            let text = system_text(p.sections.deep_view());
            &&& text.len() == 0 ==> a.system is None
            &&& text.len() > 0 ==> (a.system matches Some(m) && m.role == Role::System && m.content
                == MessageContentView::Text(text))
            &&& a.tools == p.tools.deep_view()
            &&& a.history == p.history.deep_view()
            &&& a.memory.len() == 0
            &&& a.artifacts.len() == 0
            &&& a.temperature == p.temperature.deep_view()
            &&& a.max_tokens == p.max_tokens
            &&& a.thinking == p.thinking
            &&& a.prompt_budget == p.prompt_budget
        }),
{
}

/// A prompt asks for what was set, and adds nothing.
pub proof fn law_prompt_parameters(p: PromptPartsView)
    ensures
        prompt_of(p).tool_choice == crate::provider::ToolChoice::Auto,
        prompt_of(p).extra.len() == 0,
        priority::prompt_of(p).temperature == p.temperature,
        priority::prompt_of(p).max_tokens == p.max_tokens,
        priority::prompt_of(p).thinking == p.thinking,
        priority::prompt_of(p).tool_choice == crate::provider::ToolChoice::Auto,
        priority::prompt_of(p).extra.len() == 0,
        p.prompt_budget == 0 ==> priority::prompt_of(p).messages == optional(p.system) + p.history
            + p.memory + p.artifacts && priority::prompt_of(p).tools == p.tools,
{
}

/// How much of a text is kept: where room is left for the words that say so, and for one
/// token and two for every three characters more, as many characters as that, or all.
pub proof fn law_how_much_is_kept(text: Seq<char>, k: nat)
    ensures
        ({
            let budget = estimate("...[Truncated]"@) + 1 + 2 * k;
            let n = if 3 * k <= text.len() {
                3 * k as int
            } else {
                text.len() as int
            };
            estimate(text) > budget ==> fit_text(text, budget) == text.take(n)
                + "...[Truncated]"@
        }),
        estimate(text) > 0 ==> fit_text(text, 0) == "...[Truncated]"@,
{
    let budget = estimate("...[Truncated]"@) + 1 + 2 * k;
    assert(crate::prompt::kept_chars(budget) == 3 * k);
    assert(text.take(0) + "...[Truncated]"@ =~= "...[Truncated]"@);
    assert(crate::prompt::kept_chars(0) == 0);
}

} // verus!
