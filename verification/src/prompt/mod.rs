//! Putting a prompt together under a token budget.
//!
//! The pieces are, in the order of their importance: the system prompt, the
//! tool declarations, the history, memories and artifacts. The system prompt is
//! always kept, its text cut where it is too long. The last message of the
//! history, where it is the user's, is the input of the round: it is kept whole
//! and stays at the end. Everything else has to fit into what the system prompt
//! leaves of the budget.

use vstd::prelude::*;
use vstd::string::*;

use crate::budget::{estimate, message_cost, TokenEstimator};
use crate::json::{json_text, write_text, Number, NumberView};
use crate::provider::{
    ChatRequest, ChatRequestView, Message, MessageContent, MessageContentView, MessageView, Role,
    ThinkingConfig, ToolDeclaration, ToolDeclarationView,
};
use crate::text::{trim, trim_text};

pub mod laws;
pub mod priority;

verus! {

broadcast use vstd::string::group_string_axioms;

/// What marks a text that was cut.
pub open spec fn suffix() -> Seq<char> {
    "...[Truncated]"@
}

/// A piece of a prompt.
#[derive(Debug)]
pub enum PromptFragment {
    System(Message),
    Tools(Vec<ToolDeclaration>),
    History(Vec<Message>),
    Memory(Vec<Message>),
    Artifacts(Vec<Message>),
}

pub enum PromptFragmentView {
    System(MessageView),
    Tools(Seq<ToolDeclarationView>),
    History(Seq<MessageView>),
    Memory(Seq<MessageView>),
    Artifacts(Seq<MessageView>),
}

impl DeepView for PromptFragment {
    type V = PromptFragmentView;

    open spec fn deep_view(&self) -> PromptFragmentView {
        match *self {
            PromptFragment::System(m) => PromptFragmentView::System(m.deep_view()),
            PromptFragment::Tools(t) => PromptFragmentView::Tools(t.deep_view()),
            PromptFragment::History(m) => PromptFragmentView::History(m.deep_view()),
            PromptFragment::Memory(m) => PromptFragmentView::Memory(m.deep_view()),
            PromptFragment::Artifacts(m) => PromptFragmentView::Artifacts(m.deep_view()),
        }
    }
}

/// The input of the round, where the history ends with it, and the history
/// before it.
pub open spec fn split_input(history: Seq<MessageView>) -> (Option<MessageView>, Seq<MessageView>) {
    if history.len() > 0 && history.last().role == Role::User {
        (Some(history.last()), history.drop_last())
    } else {
        (None, history)
    }
}

/// Splits the input of the round off the history.
pub fn split_round_input(history: Vec<Message>) -> (r: (Option<Message>, Vec<Message>))
    ensures
        r.deep_view() == split_input(history.deep_view()),
{
    let mut history = history;
    let n: usize = history.len();
    if n > 0 && history[n - 1].role == Role::User {
        let ghost all = history.deep_view();
        let core = history.pop();
        proof {
            assert(history.deep_view() =~= all.drop_last());
        }
        (core, history)
    } else {
        (None, history)
    }
}

/// The name of a kind of piece.
pub fn fragment_kind(f: &PromptFragment) -> (r: &'static str)
    ensures
        r@ == (match f.deep_view() {
            PromptFragmentView::System(_) => "system"@,
            PromptFragmentView::Tools(_) => "tools"@,
            PromptFragmentView::History(_) => "history"@,
            PromptFragmentView::Memory(_) => "memory"@,
            PromptFragmentView::Artifacts(_) => "artifacts"@,
        }),
{
    match f {
        PromptFragment::System(_) => "system",
        PromptFragment::Tools(_) => "tools",
        PromptFragment::History(_) => "history",
        PromptFragment::Memory(_) => "memory",
        PromptFragment::Artifacts(_) => "artifacts",
    }
}

/// The estimated cost of a tool declaration: of its name, its description and
/// its schema as JSON text.
pub open spec fn tool_cost(t: ToolDeclarationView) -> int {
    estimate(t.name) + estimate(t.description) + estimate(json_text(t.parameters))
}

/// The estimated cost of tool declarations.
pub open spec fn tools_cost(tools: Seq<ToolDeclarationView>) -> int
    decreases tools.len(),
{
    if tools.len() == 0 {
        0
    } else {
        tools_cost(tools.drop_last()) + tool_cost(tools.last())
    }
}

/// The estimated cost of messages.
pub open spec fn messages_cost(msgs: Seq<MessageView>) -> int
    decreases msgs.len(),
{
    if msgs.len() == 0 {
        0
    } else {
        messages_cost(msgs.drop_last()) + message_cost(msgs.last())
    }
}

/// An estimate as far as 64 bits go.
pub open spec fn capped(n: int) -> int {
    if n <= u64::MAX {
        n
    } else {
        u64::MAX as int
    }
}

/// The estimated cost of a piece.
pub open spec fn fragment_cost(f: PromptFragmentView) -> int {
    match f {
        PromptFragmentView::System(m) => message_cost(m),
        PromptFragmentView::Tools(t) => capped(tools_cost(t)),
        PromptFragmentView::History(m) => capped(messages_cost(m)),
        PromptFragmentView::Memory(m) => capped(messages_cost(m)),
        PromptFragmentView::Artifacts(m) => capped(messages_cost(m)),
    }
}

/// Costs are never negative.
pub proof fn lemma_costs(tools: Seq<ToolDeclarationView>, msgs: Seq<MessageView>)
    ensures
        tools_cost(tools) >= 0,
        messages_cost(msgs) >= 0,
    decreases tools.len() + msgs.len(),
{
    if tools.len() > 0 {
        lemma_costs(tools.drop_last(), msgs);
    }
    if msgs.len() > 0 {
        lemma_costs(tools, msgs.drop_last());
    }
}

fn sum_messages(msgs: &Vec<Message>) -> (r: u64)
    ensures
        r == capped(messages_cost(msgs.deep_view())),
{
    let ghost all = msgs.deep_view();
    let mut sum: u64 = 0;
    let mut i: usize = 0;
    while i < msgs.len()
        invariant
            i <= msgs@.len(),
            all == msgs.deep_view(),
            sum == capped(messages_cost(all.take(i as int))),
        decreases msgs@.len() - i,
    {
        proof {
            assert(all.take(i + 1).drop_last() =~= all.take(i as int));
            assert(all.take(i + 1).last() == all[i as int]);
            lemma_costs(Seq::empty(), all.take(i as int));
        }
        sum = sum.saturating_add(TokenEstimator::estimate_message(&msgs[i]));
        i = i + 1;
    }
    proof {
        assert(all.take(all.len() as int) =~= all);
    }
    sum
}

fn sum_tools(tools: &Vec<ToolDeclaration>) -> (r: u64)
    ensures
        r == capped(tools_cost(tools.deep_view())),
{
    let ghost all = tools.deep_view();
    let mut sum: u64 = 0;
    let mut i: usize = 0;
    while i < tools.len()
        invariant
            i <= tools@.len(),
            all == tools.deep_view(),
            sum == capped(tools_cost(all.take(i as int))),
        decreases tools@.len() - i,
    {
        proof {
            assert(all.take(i + 1).drop_last() =~= all.take(i as int));
            assert(all.take(i + 1).last() == all[i as int]);
            lemma_costs(all.take(i as int), Seq::empty());
        }
        let schema = write_text(&tools[i].parameters);
        sum = sum.saturating_add(TokenEstimator::estimate(tools[i].name.as_str()));
        sum = sum.saturating_add(TokenEstimator::estimate(tools[i].description.as_str()));
        sum = sum.saturating_add(TokenEstimator::estimate(schema.as_str()));
        i = i + 1;
    }
    proof {
        assert(all.take(all.len() as int) =~= all);
    }
    sum
}

/// How many characters a cut text keeps under a budget.
pub open spec fn kept_chars(budget: int) -> int {
    let content = if budget >= estimate(suffix()) {
        budget - estimate(suffix())
    } else {
        0
    };
    if content >= 1 {
        (content - 1) * 3 / 2
    } else {
        0
    }
}

/// A system text under a budget: whole where it fits, else its beginning and a
/// mark.
pub open spec fn fit_text(text: Seq<char>, budget: int) -> Seq<char> {
    if estimate(text) <= budget {
        text
    } else {
        text.take(if kept_chars(budget) <= text.len() {
            kept_chars(budget)
        } else {
            text.len() as int
        }) + suffix()
    }
}

/// A system message under a budget.
pub open spec fn fit_system(m: MessageView, budget: int) -> MessageView {
    if message_cost(m) <= budget {
        m
    } else {
        MessageView {
            content: MessageContentView::Text(fit_text(m.content.text_or_empty(), budget)),
            ..m
        }
    }
}

/// The newest messages that fit into a budget together.
pub open spec fn window(msgs: Seq<MessageView>, budget: int) -> Seq<MessageView>
    decreases msgs.len(),
{
    if msgs.len() == 0 || message_cost(msgs.last()) > budget {
        Seq::empty()
    } else {
        window(msgs.drop_last(), budget - message_cost(msgs.last())).push(msgs.last())
    }
}

/// Whether a history may begin with a message: a tool's result, or an
/// assistant's message without tool calls, would hang in the air.
pub open spec fn may_lead(m: MessageView) -> bool {
    match m.role {
        Role::User => true,
        Role::System => true,
        Role::Assistant => m.tool_calls.len() > 0,
        Role::Tool => false,
    }
}

/// The messages from the first one on that may lead.
pub open spec fn from_leader(msgs: Seq<MessageView>) -> Seq<MessageView>
    decreases msgs.len(),
{
    if msgs.len() == 0 || may_lead(msgs[0]) {
        msgs
    } else {
        from_leader(msgs.drop_first())
    }
}

/// A piece under a budget, with its cost: the system prompt is cut, the history
/// keeps a window, and any other piece is kept whole or not at all.
pub open spec fn fit(f: PromptFragmentView, budget: int) -> Option<(PromptFragmentView, int)> {
    match f {
        PromptFragmentView::System(m) => Some(
            (
                PromptFragmentView::System(fit_system(m, budget)),
                message_cost(fit_system(m, budget)),
            ),
        ),
        PromptFragmentView::History(msgs) => {
            let w = window(msgs, budget);
            if from_leader(w).len() == 0 {
                None
            } else {
                Some((PromptFragmentView::History(from_leader(w)), messages_cost(from_leader(w))))
            }
        },
        _ => if fragment_cost(f) <= budget {
            Some((f, fragment_cost(f)))
        } else {
            None
        },
    }
}

/// The window costs no more than the budget, and it is the end of the history.
pub proof fn law_window(msgs: Seq<MessageView>, budget: int)
    requires
        budget >= 0,
    ensures
        messages_cost(window(msgs, budget)) <= budget,
        window(msgs, budget).len() <= msgs.len(),
        window(msgs, budget) == msgs.skip(msgs.len() - window(msgs, budget).len()),
        window(msgs, budget).len() < msgs.len() ==> messages_cost(window(msgs, budget))
            + message_cost(msgs[msgs.len() - window(msgs, budget).len() - 1]) > budget,
    decreases msgs.len(),
{
    let w = window(msgs, budget);
    if msgs.len() == 0 || message_cost(msgs.last()) > budget {
        assert(w =~= msgs.skip(msgs.len() as int));
    } else {
        let last = msgs.last();
        let inner = window(msgs.drop_last(), budget - message_cost(last));
        law_window(msgs.drop_last(), budget - message_cost(last));
        assert(w.drop_last() =~= inner);
        assert(w =~= msgs.skip(msgs.len() - w.len()));
    }
}

/// What is kept of a history begins with a message that may lead, and is the
/// end of the window.
pub proof fn law_from_leader(msgs: Seq<MessageView>)
    ensures
        from_leader(msgs).len() <= msgs.len(),
        from_leader(msgs) == msgs.skip(msgs.len() - from_leader(msgs).len()),
        from_leader(msgs).len() > 0 ==> may_lead(from_leader(msgs)[0]),
        forall|i: int| 0 <= i < msgs.len() - from_leader(msgs).len() ==> !may_lead(
            #[trigger] msgs[i],
        ),
    decreases msgs.len(),
{
    if msgs.len() == 0 || may_lead(msgs[0]) {
        assert(msgs.skip(0) =~= msgs);
    } else {
        let rest = msgs.drop_first();
        law_from_leader(rest);
        assert(from_leader(msgs) =~= msgs.skip(msgs.len() - from_leader(msgs).len()));
        assert forall|i: int| 0 <= i < msgs.len() - from_leader(msgs).len() implies !may_lead(
            #[trigger] msgs[i],
        ) by {
            if i > 0 {
                assert(rest[i - 1] == msgs[i]);
            }
        }
    }
}

/// A system text that was cut costs no more than the budget, as long as the
/// budget has room for the mark.
pub proof fn law_fit_text(text: Seq<char>, budget: int)
    requires
        budget >= estimate(suffix()),
    ensures
        estimate(fit_text(text, budget)) <= budget,
{
    reveal_strlit("...[Truncated]");
    assert(suffix().len() == 14);
}

/// The end of messages costs no more than all of them.
proof fn lemma_suffix_cost(msgs: Seq<MessageView>, n: int)
    requires
        0 <= n <= msgs.len(),
    ensures
        0 <= messages_cost(msgs.skip(n)) <= messages_cost(msgs),
    decreases msgs.len(),
{
    lemma_costs(Seq::empty(), msgs);
    if n == msgs.len() {
        assert(msgs.skip(n) =~= Seq::empty());
    } else {
        lemma_suffix_cost(msgs.drop_last(), n);
        assert(msgs.skip(n).drop_last() =~= msgs.drop_last().skip(n));
        assert(msgs.skip(n).last() == msgs.last());
    }
}

impl Clone for PromptFragment {
    fn clone(&self) -> (r: Self)
        ensures
            r.deep_view() == self.deep_view(),
    {
        match self {
            PromptFragment::System(m) => PromptFragment::System(m.clone()),
            PromptFragment::Tools(t) => {
                let c = t.clone();
                proof {
                    assert(c.deep_view() =~= t.deep_view());
                }
                PromptFragment::Tools(c)
            },
            PromptFragment::History(m) => {
                let c = m.clone();
                proof {
                    assert(c.deep_view() =~= m.deep_view());
                }
                PromptFragment::History(c)
            },
            PromptFragment::Memory(m) => {
                let c = m.clone();
                proof {
                    assert(c.deep_view() =~= m.deep_view());
                }
                PromptFragment::Memory(c)
            },
            PromptFragment::Artifacts(m) => {
                let c = m.clone();
                proof {
                    assert(c.deep_view() =~= m.deep_view());
                }
                PromptFragment::Artifacts(c)
            },
        }
    }
}

/// What is kept of a history costs no more than the budget.
pub proof fn lemma_history_fits(msgs: Seq<MessageView>, budget: int)
    requires
        budget >= 0,
    ensures
        from_leader(window(msgs, budget)).len() <= msgs.len(),
        0 <= messages_cost(from_leader(window(msgs, budget))) <= budget,
{
    let w = window(msgs, budget);
    law_window(msgs, budget);
    law_from_leader(w);
    lemma_suffix_cost(w, w.len() - from_leader(w).len());
}

/// The newest messages that fit into a budget.
fn keep_window(msgs: &Vec<Message>, budget: u64) -> (r: Vec<Message>)
    ensures
        r.deep_view() == window(msgs.deep_view(), budget as int),
{
    let ghost all = msgs.deep_view();
    let ghost whole = window(all, budget as int);
    let mut start: usize = msgs.len();
    let mut used: u64 = 0;
    proof {
        assert(all.take(all.len() as int) =~= all);
        assert(all.skip(all.len() as int) =~= Seq::empty());
        assert(window(all, budget as int) + Seq::empty() =~= window(all, budget as int));
    }
    while start > 0
        invariant_except_break
            start <= msgs@.len(),
            all == msgs.deep_view(),
            used <= budget,
            used == messages_cost(all.skip(start as int)),
            whole == window(all.take(start as int), budget - used) + all.skip(start as int),
        invariant
            all == msgs.deep_view(),
            start <= msgs@.len(),
        ensures
            whole == all.skip(start as int),
        decreases start,
    {
        let cost: u64 = TokenEstimator::estimate_message(&msgs[start - 1]);
        proof {
            assert(all.take(start as int).last() == all[start - 1]);
            assert(all.take(start as int).drop_last() =~= all.take(start - 1));
        }
        if cost > budget - used {
            proof {
                assert(Seq::empty() + all.skip(start as int) =~= all.skip(start as int));
            }
            break;
        }
        proof {
            let rest = window(all.take(start - 1), budget - used - cost);
            assert(rest.push(all[start - 1]) + all.skip(start as int) =~= rest + all.skip(
                start - 1,
            ));
            lemma_cons_cost(all.skip(start - 1));
            assert(all.skip(start - 1).drop_first() =~= all.skip(start as int));
        }
        used = used + cost;
        start = start - 1;
        proof {
            if start == 0 {
                assert(all.take(0) =~= Seq::empty());
                assert(window(all.take(0), budget - used) + all.skip(0) =~= all.skip(0));
            }
        }
    }
    let mut kept: Vec<Message> = Vec::new();
    let mut i: usize = start;
    while i < msgs.len()
        invariant
            start <= i <= msgs@.len(),
            all == msgs.deep_view(),
            kept.deep_view() == all.subrange(start as int, i as int),
        decreases msgs@.len() - i,
    {
        let ghost before = kept.deep_view();
        let m = msgs[i].clone();
        let ghost mv = m.deep_view();
        kept.push(m);
        proof {
            assert(kept.deep_view() =~= before.push(mv));
            assert(all.subrange(start as int, i + 1) =~= all.subrange(start as int, i as int).push(
                all[i as int],
            ));
        }
        i = i + 1;
    }
    proof {
        assert(all.subrange(start as int, all.len() as int) =~= all.skip(start as int));
    }
    kept
}

/// The cost of messages from the front.
proof fn lemma_cons_cost(msgs: Seq<MessageView>)
    requires
        msgs.len() > 0,
    ensures
        messages_cost(msgs) == message_cost(msgs[0]) + messages_cost(msgs.drop_first()),
    decreases msgs.len(),
{
    if msgs.len() == 1 {
        assert(msgs.drop_first() =~= Seq::empty());
        assert(msgs.drop_last() =~= Seq::empty());
    } else {
        lemma_cons_cost(msgs.drop_last());
        assert(msgs.drop_first().drop_last() =~= msgs.drop_last().drop_first());
        assert(msgs.drop_first().last() == msgs.last());
    }
}

/// Drops the messages before the first one that may lead.
fn drop_to_leader(msgs: Vec<Message>) -> (r: Vec<Message>)
    ensures
        r.deep_view() == from_leader(msgs.deep_view()),
{
    let mut kept = msgs;
    let ghost whole = from_leader(msgs.deep_view());
    while kept.len() > 0
        invariant_except_break
            whole == from_leader(kept.deep_view()),
        ensures
            whole == kept.deep_view(),
        decreases kept@.len(),
    {
        let lead = match kept[0].role {
            Role::User => true,
            Role::System => true,
            Role::Assistant => kept[0].tool_calls.len() > 0,
            Role::Tool => false,
        };
        proof {
            assert(lead == may_lead(kept.deep_view()[0]));
        }
        if lead {
            break;
        }
        let ghost before = kept.deep_view();
        kept.remove(0);
        proof {
            assert(kept.deep_view() =~= before.drop_first());
        }
    }
    kept
}

impl PromptFragment {
    /// The estimated cost of the piece.
    pub fn estimate_tokens(&self) -> (r: u64)
        ensures
            r == fragment_cost(self.deep_view()),
    {
        match self {
            PromptFragment::System(m) => TokenEstimator::estimate_message(m),
            PromptFragment::Tools(t) => sum_tools(t),
            PromptFragment::History(m) => sum_messages(m),
            PromptFragment::Memory(m) => sum_messages(m),
            PromptFragment::Artifacts(m) => sum_messages(m),
        }
    }

    /// The piece under a budget, with the estimated cost of what is returned; nothing
    /// where it has to go.
    pub fn truncate(&self, budget: u64) -> (r: Option<(PromptFragment, u64)>)
        ensures
            r is Some <==> fit(self.deep_view(), budget as int) is Some,
            r matches Some((f, c)) ==> {
                let (g, d) = fit(self.deep_view(), budget as int)->0;
                f.deep_view() == g && c == d && c == fragment_cost(g)
            },
    {
        match self {
            PromptFragment::System(msg) => {
                let cost: u64 = self.estimate_tokens();
                if cost <= budget {
                    return Some((self.clone(), cost));
                }
                let text = msg.content.text_or_empty();
                let cut_mark = "...[Truncated]";
                let mark_cost: u64 = TokenEstimator::estimate(cut_mark);
                let content_budget: u64 = if budget >= mark_cost {
                    budget - mark_cost
                } else {
                    0
                };
                let max_chars: u128 = if content_budget >= 1 {
                    (content_budget as u128 - 1) * 3 / 2
                } else {
                    0
                };
                let len: usize = text.unicode_len();
                let n: usize = if max_chars <= len as u128 {
                    max_chars as usize
                } else {
                    len
                };
                let mut cut = text.substring_char(0, n).to_owned();
                cut.append(cut_mark);
                proof {
                    assert(text@.subrange(0, n as int) =~= text@.take(n as int));
                    assert(cut@ == fit_text(text@, budget as int));
                }
                let new_cost: u64 = TokenEstimator::estimate(cut.as_str());
                let mut new_msg = msg.clone();
                new_msg.content = MessageContent::Text(cut);
                Some((PromptFragment::System(new_msg), new_cost))
            },
            PromptFragment::History(msgs) => {
                let kept = drop_to_leader(keep_window(msgs, budget));
                if kept.len() == 0 {
                    None
                } else {
                    proof {
                        lemma_history_fits(msgs.deep_view(), budget as int);
                    }
                    let cost: u64 = sum_messages(&kept);
                    Some((PromptFragment::History(kept), cost))
                }
            },
            _ => {
                let cost: u64 = self.estimate_tokens();
                if cost <= budget {
                    Some((self.clone(), cost))
                } else {
                    None
                }
            },
        }
    }
}

/// The pieces of a prompt, and the parameters of the request. A budget of zero
/// is no budget.
#[derive(Debug)]
pub struct PromptParts {
    pub system: Option<Message>,
    pub tools: Vec<ToolDeclaration>,
    pub history: Vec<Message>,
    pub memory: Vec<Message>,
    pub artifacts: Vec<Message>,
    pub temperature: Option<Number>,
    pub max_tokens: Option<usize>,
    pub thinking: ThinkingConfig,
    pub prompt_budget: usize,
}

pub struct PromptPartsView {
    pub system: Option<MessageView>,
    pub tools: Seq<ToolDeclarationView>,
    pub history: Seq<MessageView>,
    pub memory: Seq<MessageView>,
    pub artifacts: Seq<MessageView>,
    pub temperature: Option<NumberView>,
    pub max_tokens: Option<usize>,
    pub thinking: ThinkingConfig,
    pub prompt_budget: usize,
}

impl DeepView for PromptParts {
    type V = PromptPartsView;

    open spec fn deep_view(&self) -> PromptPartsView {
        PromptPartsView {
            system: self.system.deep_view(),
            tools: self.tools.deep_view(),
            history: self.history.deep_view(),
            memory: self.memory.deep_view(),
            artifacts: self.artifacts.deep_view(),
            temperature: self.temperature.deep_view(),
            max_tokens: self.max_tokens,
            thinking: self.thinking,
            prompt_budget: self.prompt_budget,
        }
    }
}

/// A list of one message or none.
pub open spec fn optional(m: Option<MessageView>) -> Seq<MessageView> {
    match m {
        Some(x) => seq![x],
        None => Seq::empty(),
    }
}

/// What is left of a budget.
pub open spec fn left_of(budget: int, cost: int) -> int {
    if cost <= budget {
        budget - cost
    } else {
        0
    }
}

/// What is kept of the tool declarations, and what is left of the budget.
pub open spec fn keep_tools(tools: Seq<ToolDeclarationView>, budget: int) -> (
    Seq<ToolDeclarationView>,
    int,
) {
    if capped(tools_cost(tools)) <= budget {
        (tools, budget - capped(tools_cost(tools)))
    } else {
        (Seq::empty(), budget)
    }
}

/// What is kept of messages that stay or go together, and what is left of the
/// budget.
pub open spec fn keep_all(msgs: Seq<MessageView>, budget: int) -> (Seq<MessageView>, int) {
    if capped(messages_cost(msgs)) <= budget {
        (msgs, budget - capped(messages_cost(msgs)))
    } else {
        (Seq::empty(), budget)
    }
}

/// What is kept of the history, and what is left of the budget.
pub open spec fn keep_history(msgs: Seq<MessageView>, budget: int) -> (Seq<MessageView>, int) {
    let w = window(msgs, budget);
    if from_leader(w).len() == 0 {
        (Seq::empty(), budget)
    } else {
        (from_leader(w), budget - messages_cost(from_leader(w)))
    }
}

/// The system message under the budget of the parts.
pub open spec fn kept_system(p: PromptPartsView) -> Option<MessageView> {
    match p.system {
        Some(m) => Some(fit_system(m, p.prompt_budget as int)),
        None => None,
    }
}

/// What the system message leaves of the budget.
pub open spec fn budget_after_system(p: PromptPartsView) -> int {
    match kept_system(p) {
        Some(m) => left_of(p.prompt_budget as int, message_cost(m)),
        None => p.prompt_budget as int,
    }
}

/// What is kept of everything that may be cut: tools, history, memories and
/// artifacts, and what is left of the budget.
pub open spec fn kept_context(p: PromptPartsView) -> (
    Seq<ToolDeclarationView>,
    Seq<MessageView>,
    Seq<MessageView>,
    Seq<MessageView>,
    int,
) {
    let (tools, b1) = keep_tools(p.tools, budget_after_system(p));
    let (history, b2) = keep_history(split_input(p.history).1, b1);
    let (memory, b3) = keep_all(p.memory, b2);
    let (artifacts, b4) = keep_all(p.artifacts, b3);
    (tools, history, memory, artifacts, b4)
}

/// The request that the parts make.
pub open spec fn prompt_of(p: PromptPartsView) -> ChatRequestView {
    let shape = ChatRequestView {
        temperature: p.temperature,
        max_tokens: p.max_tokens,
        thinking: p.thinking,
        ..ChatRequestView::of(Seq::empty())
    };
    if p.prompt_budget == 0 {
        ChatRequestView {
            messages: optional(p.system) + p.history + p.memory + p.artifacts,
            tools: p.tools,
            ..shape
        }
    } else {
        let (tools, history, memory, artifacts, _) = kept_context(p);
        ChatRequestView {
            messages: optional(kept_system(p)) + history + memory + artifacts + optional(
                split_input(p.history).0,
            ),
            tools,
            ..shape
        }
    }
}

/// The name of a piece, if it was cut.
pub open spec fn named_if(cut: bool, kind: Seq<char>) -> Seq<Seq<char>> {
    if cut {
        seq![kind]
    } else {
        Seq::empty()
    }
}

/// The kinds of the pieces that are cut or dropped to fit the budget, each once, in
/// the order of their importance. The input of the round is never among them.
pub open spec fn cut_kinds(p: PromptPartsView) -> Seq<Seq<char>> {
    if p.prompt_budget == 0 {
        Seq::empty()
    } else {
        let (tools, history, memory, artifacts, _) = kept_context(p);
        named_if(p.system matches Some(m) && message_cost(m) > p.prompt_budget, "system"@)
            + named_if(tools.len() < p.tools.len(), "tools"@) + named_if(
            history.len() < split_input(p.history).1.len(),
            "history"@,
        ) + named_if(memory.len() < p.memory.len(), "memory"@) + named_if(
            artifacts.len() < p.artifacts.len(),
            "artifacts"@,
        )
    }
}

/// Nothing is lost without being told: where no kind is named, every piece is in
/// the request as it was given.
pub proof fn law_nothing_is_lost_in_silence(p: PromptPartsView)
    requires
        cut_kinds(p).len() == 0,
    ensures
        prompt_of(p).tools == p.tools,
        p.prompt_budget == 0 ==> prompt_of(p).messages == optional(p.system) + p.history
            + p.memory + p.artifacts,
        p.prompt_budget > 0 ==> prompt_of(p).messages == optional(p.system) + split_input(
            p.history,
        ).1 + p.memory + p.artifacts + optional(split_input(p.history).0),
{
    if p.prompt_budget > 0 {
        let (tools, history, memory, artifacts, _) = kept_context(p);
        let given = split_input(p.history).1;
        let (_, b1) = keep_tools(p.tools, budget_after_system(p));
        lemma_costs(p.tools, given);
        lemma_history_fits(given, b1);
        let w = window(given, b1);
        law_window(given, b1);
        law_from_leader(w);
        assert(history.len() == given.len());
        if given.len() > 0 {
            assert(w =~= given);
            assert(from_leader(w) =~= w);
        }
        assert(history =~= given);
        assert(tools =~= p.tools);
        assert(memory =~= p.memory);
        assert(artifacts =~= p.artifacts);
    }
}

/// Names a piece, if it was cut.
fn note(noted: &mut Vec<&'static str>, cut: bool, kind: &'static str)
    ensures
        final(noted).deep_view() == old(noted).deep_view() + named_if(cut, kind@),
{
    let ghost before = noted.deep_view();
    if cut {
        noted.push(kind);
    }
    proof {
        assert(noted.deep_view() =~= before + named_if(cut, kind@));
    }
}

/// Appends messages.
pub fn extend(to: &mut Vec<Message>, more: Vec<Message>)
    ensures
        final(to).deep_view() == old(to).deep_view() + more.deep_view(),
{
    let ghost before = to.deep_view();
    let ghost added = more.deep_view();
    let mut more = more;
    to.append(&mut more);
    proof {
        assert(to.deep_view() =~= before + added);
    }
}

/// What is kept of messages of one kind, what is left of the budget, and whether
/// something was lost.
fn trim_messages(fragment: PromptFragment, budget: u64) -> (r: (Vec<Message>, u64, bool))
    requires
        fragment is History || fragment is Memory || fragment is Artifacts,
    ensures
        (r.0.deep_view(), r.1 as int) == (match fragment.deep_view() {
            PromptFragmentView::History(m) => keep_history(m, budget as int),
            PromptFragmentView::Memory(m) => keep_all(m, budget as int),
            PromptFragmentView::Artifacts(m) => keep_all(m, budget as int),
            _ => (Seq::<MessageView>::empty(), budget as int),
        }),
        r.2 == (r.0.deep_view().len() < (match fragment.deep_view() {
            PromptFragmentView::History(m) => m.len(),
            PromptFragmentView::Memory(m) => m.len(),
            PromptFragmentView::Artifacts(m) => m.len(),
            _ => 0,
        })),
{
    let given: usize = match &fragment {
        PromptFragment::History(m) => m.len(),
        PromptFragment::Memory(m) => m.len(),
        PromptFragment::Artifacts(m) => m.len(),
        _ => 0,
    };
    proof {
        if let PromptFragmentView::History(m) = fragment.deep_view() {
            lemma_history_fits(m, budget as int);
        }
    }
    let (kept, left) = match fragment.truncate(budget) {
        Some((kept, cost)) => match kept {
            PromptFragment::History(m) => (m, budget - cost),
            PromptFragment::Memory(m) => (m, budget - cost),
            PromptFragment::Artifacts(m) => (m, budget - cost),
            _ => {
                let none: Vec<Message> = Vec::new();
                (none, budget)
            },
        },
        None => {
            let none: Vec<Message> = Vec::new();
            proof {
                assert(none.deep_view() =~= Seq::empty());
            }
            (none, budget)
        },
    };
    let cut = kept.len() < given;
    (kept, left, cut)
}

/// Puts the request together, and names the kinds of the pieces that were cut or
/// dropped: the system prompt and the input of the round are always kept, and the
/// rest is cut to what the system prompt leaves.
pub fn build_prompt_noted(parts: PromptParts) -> (r: (ChatRequest, Vec<&'static str>))
    ensures
        r.0.deep_view() == prompt_of(parts.deep_view()),
        r.1.deep_view() == cut_kinds(parts.deep_view()),
{
    let ghost p = parts.deep_view();
    let PromptParts {
        system,
        tools,
        history,
        memory,
        artifacts,
        temperature,
        max_tokens,
        thinking,
        prompt_budget,
    } = parts;
    let mut messages: Vec<Message> = Vec::new();
    let mut noted: Vec<&'static str> = Vec::new();
    proof {
        assert(messages.deep_view() =~= Seq::empty());
        assert(noted.deep_view() =~= Seq::empty());
    }
    if prompt_budget == 0 {
        if let Some(sys) = system {
            let ghost sv = sys.deep_view();
            messages.push(sys);
            proof {
                assert(messages.deep_view() =~= seq![sv]);
            }
        }
        extend(&mut messages, history);
        extend(&mut messages, memory);
        extend(&mut messages, artifacts);
        let mut req = ChatRequest::of(messages);
        req.tools = tools;
        req.temperature = temperature;
        req.max_tokens = max_tokens;
        req.thinking = thinking;
        return (req, noted);
    }
    let (core, history) = split_round_input(history);
    let mut remaining: u64 = prompt_budget as u64;
    if let Some(sys) = system {
        let fragment = PromptFragment::System(sys);
        let cut = fragment.estimate_tokens() > prompt_budget as u64;
        note(&mut noted, cut, fragment_kind(&fragment));
        if let Some((PromptFragment::System(m), cost)) = fragment.truncate(prompt_budget as u64) {
            remaining = remaining.saturating_sub(cost);
            let ghost mv = m.deep_view();
            messages.push(m);
            proof {
                assert(messages.deep_view() =~= seq![mv]);
            }
        }
    }
    let ghost said = noted.deep_view();
    proof {
        assert(remaining == budget_after_system(p));
        assert(messages.deep_view() == optional(kept_system(p)));
        assert(said =~= named_if(
            p.system matches Some(m) && message_cost(m) > p.prompt_budget,
            "system"@,
        ));
    }
    let mut final_tools: Vec<ToolDeclaration> = Vec::new();
    proof {
        assert(final_tools.deep_view() =~= Seq::empty());
    }
    let given: usize = tools.len();
    let fragment = PromptFragment::Tools(tools);
    if let Some((PromptFragment::Tools(t), cost)) = fragment.truncate(remaining) {
        final_tools = t;
        remaining = remaining - cost;
    }
    note(&mut noted, final_tools.len() < given, fragment_kind(&fragment));
    let fragment = PromptFragment::History(history);
    let kind = fragment_kind(&fragment);
    let (kept_history, left, cut) = trim_messages(fragment, remaining);
    note(&mut noted, cut, kind);
    extend(&mut messages, kept_history);
    let fragment = PromptFragment::Memory(memory);
    let kind = fragment_kind(&fragment);
    let (kept_memory, left, cut) = trim_messages(fragment, left);
    note(&mut noted, cut, kind);
    extend(&mut messages, kept_memory);
    let fragment = PromptFragment::Artifacts(artifacts);
    let kind = fragment_kind(&fragment);
    let (kept_artifacts, _left, cut) = trim_messages(fragment, left);
    note(&mut noted, cut, kind);
    extend(&mut messages, kept_artifacts);
    let ghost body = messages.deep_view();
    if let Some(c) = core {
        let ghost cv = c.deep_view();
        messages.push(c);
        proof {
            assert(messages.deep_view() =~= body + seq![cv]);
        }
    } else {
        proof {
            assert(body + Seq::empty() =~= body);
        }
    }
    let mut req = ChatRequest::of(messages);
    req.tools = final_tools;
    req.temperature = temperature;
    req.max_tokens = max_tokens;
    req.thinking = thinking;
    (req, noted)
}

/// Puts the request together.
pub fn finalize(parts: PromptParts) -> (r: ChatRequest)
    ensures
        r.deep_view() == prompt_of(parts.deep_view()),
{
    build_prompt_noted(parts).0
}

/// Puts the request together from its pieces.
pub fn build_prompt(parts: PromptParts) -> (r: ChatRequest)
    ensures
        r.deep_view() == prompt_of(parts.deep_view()),
{
    finalize(parts)
}

/// What may be cut is cut to the budget: together with the system prompt it
/// costs no more, as long as the budget has room for the mark of a cut text.
pub proof fn law_prompt_fits(p: PromptPartsView)
    requires
        p.prompt_budget >= estimate(suffix()),
    ensures
        ({
            let (tools, history, memory, artifacts, left) = kept_context(p);
            &&& left >= 0
            &&& messages_cost(optional(kept_system(p))) + capped(tools_cost(tools))
                + messages_cost(history) + capped(messages_cost(memory)) + capped(
                messages_cost(artifacts),
            ) <= p.prompt_budget
        }),
{
    let budget = p.prompt_budget as int;
    let start = budget_after_system(p);
    if let Some(m) = p.system {
        law_fit_text(m.content.text_or_empty(), budget);
        let k = fit_system(m, budget);
        assert(message_cost(k) <= budget);
        assert(optional(Some(k)).drop_last() =~= Seq::empty());
        assert(messages_cost(optional(Some(k))) == message_cost(k)) by {
            assert(optional(Some(k)).last() == k);
            assert(messages_cost(Seq::empty()) == 0);
        }
    }
    assert(messages_cost(optional(kept_system(p))) + start <= budget);
    let hist = split_input(p.history).1;
    let (tools, b1) = keep_tools(p.tools, start);
    lemma_costs(p.tools, hist);
    law_window(hist, b1);
    let w = window(hist, b1);
    law_from_leader(w);
    lemma_suffix_cost(w, w.len() - from_leader(w).len());
    lemma_costs(Seq::empty(), p.memory);
    lemma_costs(Seq::empty(), p.artifacts);
}

/// The input of the round is delivered whole, whatever the budget, and under a
/// budget it comes last.
pub proof fn law_input_is_kept(p: PromptPartsView)
    requires
        p.history.len() > 0,
        p.history.last().role == Role::User,
    ensures
        prompt_of(p).messages.contains(p.history.last()),
        p.prompt_budget > 0 ==> prompt_of(p).messages.last() == p.history.last(),
{
    let messages = prompt_of(p).messages;
    if p.prompt_budget > 0 {
        assert(messages[messages.len() - 1] == p.history.last());
    } else {
        let lead: int = if p.system is Some {
            1
        } else {
            0
        };
        assert(messages[lead + p.history.len() - 1] == p.history.last());
    }
}

/// The system prompt is never dropped, and it leads.
pub proof fn law_system_leads(p: PromptPartsView)
    requires
        p.system is Some,
    ensures
        prompt_of(p).messages.len() > 0,
        p.prompt_budget == 0 ==> prompt_of(p).messages[0] == p.system->0,
        p.prompt_budget > 0 ==> prompt_of(p).messages[0] == fit_system(
            p.system->0,
            p.prompt_budget as int,
        ),
        prompt_of(p).messages[0].role == p.system->0.role,
{
}

/// The parameters of the request are those of the parts, whatever is cut.
pub proof fn law_parameters_are_kept(p: PromptPartsView)
    ensures
        prompt_of(p).temperature == p.temperature,
        prompt_of(p).max_tokens == p.max_tokens,
        prompt_of(p).thinking == p.thinking,
{
}

// ---------------------------------------------------------------------------
// Sections

/// A section of a system prompt. Sections that stay the same from round to
/// round go first, so that a vendor's prefix cache can serve them.
#[derive(Debug)]
pub struct SystemSection {
    pub stable: bool,
    pub text: String,
    pub omit_if_empty: bool,
}

pub struct SystemSectionView {
    pub stable: bool,
    pub text: Seq<char>,
    pub omit_if_empty: bool,
}

impl DeepView for SystemSection {
    type V = SystemSectionView;

    open spec fn deep_view(&self) -> SystemSectionView {
        SystemSectionView {
            stable: self.stable,
            text: self.text@,
            omit_if_empty: self.omit_if_empty,
        }
    }
}

impl SystemSection {
    pub fn new(stable: bool, text: &str) -> (r: SystemSection)
        ensures
            r.deep_view() == (SystemSectionView { stable, text: text@, omit_if_empty: false }),
    {
        SystemSection { stable, text: text.to_owned(), omit_if_empty: false }
    }

    /// A section that stays the same from round to round and is left out where it is
    /// empty.
    pub fn stable(text: &str) -> (r: SystemSection)
        ensures
            r.deep_view() == (SystemSectionView { stable: true, text: text@, omit_if_empty: true }),
    {
        SystemSection { omit_if_empty: true, ..SystemSection::new(true, text) }
    }
}

/// The sections of a system prompt, and the rest of a request.
#[derive(Debug)]
pub struct AssembleParts {
    pub sections: Vec<SystemSection>,
    pub tools: Vec<ToolDeclaration>,
    pub history: Vec<Message>,
    pub temperature: Option<Number>,
    pub max_tokens: Option<usize>,
    pub thinking: ThinkingConfig,
    pub prompt_budget: usize,
}

/// Whether a section is left out.
pub open spec fn omitted(s: SystemSectionView) -> bool {
    s.omit_if_empty && trim(s.text).len() == 0
}

/// The texts of the sections of one kind that are not left out, in their order.
pub open spec fn section_texts(sections: Seq<SystemSectionView>, stable: bool) -> Seq<Seq<char>>
    decreases sections.len(),
{
    if sections.len() == 0 {
        Seq::empty()
    } else {
        let before = section_texts(sections.drop_last(), stable);
        let s = sections.last();
        if s.stable == stable && !omitted(s) {
            before.push(s.text)
        } else {
            before
        }
    }
}

/// Texts one after the other, with a line feed before each one that follows
/// something.
pub open spec fn stacked(texts: Seq<Seq<char>>) -> Seq<char>
    decreases texts.len(),
{
    if texts.len() == 0 {
        Seq::empty()
    } else {
        let before = stacked(texts.drop_last());
        if before.len() == 0 {
            texts.last()
        } else {
            before.push('\n') + texts.last()
        }
    }
}

/// The system text that sections make: the stable ones first.
pub open spec fn system_text(sections: Seq<SystemSectionView>) -> Seq<char> {
    stacked(section_texts(sections, true) + section_texts(sections, false))
}

/// The parts of a prompt that sections and the rest make.
pub open spec fn assembled(p: AssembleParts) -> PromptPartsView {
    let text = system_text(p.sections.deep_view());
    PromptPartsView {
        system: if text.len() == 0 {
            None
        } else {
            Some(MessageView::plain(Role::System, text))
        },
        tools: p.tools.deep_view(),
        history: p.history.deep_view(),
        memory: Seq::empty(),
        artifacts: Seq::empty(),
        temperature: p.temperature.deep_view(),
        max_tokens: p.max_tokens,
        thinking: p.thinking,
        prompt_budget: p.prompt_budget,
    }
}

/// Puts texts one after the other behind a text.
fn stack(out: &mut String, texts: &Vec<String>, Ghost(done): Ghost<Seq<Seq<char>>>)
    requires
        old(out)@ == stacked(done),
    ensures
        final(out)@ == stacked(done + texts.deep_view()),
{
    let ghost all = texts.deep_view();
    let mut i: usize = 0;
    proof {
        assert(done + all.take(0) =~= done);
    }
    while i < texts.len()
        invariant
            i <= texts@.len(),
            all == texts.deep_view(),
            out@ == stacked(done + all.take(i as int)),
        decreases texts@.len() - i,
    {
        proof {
            let next = done + all.take(i + 1);
            assert(next.drop_last() =~= done + all.take(i as int));
            assert(next.last() == all[i as int]);
        }
        if !out.as_str().is_empty() {
            out.push('\n');
            out.append(texts[i].as_str());
        } else {
            *out = texts[i].clone();
        }
        i = i + 1;
    }
    proof {
        assert(all.take(all.len() as int) =~= all);
    }
}

/// The parts that sections make: those that are empty and may be left out are, and
/// the stable ones go first.
pub fn section_parts(parts: AssembleParts) -> (r: PromptParts)
    ensures
        r.deep_view() == assembled(parts),
{
    let ghost all = parts.sections.deep_view();
    let mut stable: Vec<String> = Vec::new();
    let mut volatile: Vec<String> = Vec::new();
    let mut i: usize = 0;
    proof {
        assert(stable.deep_view() =~= section_texts(all.take(0), true));
        assert(volatile.deep_view() =~= section_texts(all.take(0), false));
    }
    while i < parts.sections.len()
        invariant
            i <= parts.sections@.len(),
            all == parts.sections.deep_view(),
            stable.deep_view() == section_texts(all.take(i as int), true),
            volatile.deep_view() == section_texts(all.take(i as int), false),
        decreases parts.sections@.len() - i,
    {
        let s = &parts.sections[i];
        let ghost before_s = stable.deep_view();
        let ghost before_v = volatile.deep_view();
        proof {
            assert(all.take(i + 1).drop_last() =~= all.take(i as int));
            assert(all.take(i + 1).last() == all[i as int]);
        }
        if !(s.omit_if_empty && trim_text(s.text.as_str()).as_str().is_empty()) {
            let t = s.text.clone();
            if s.stable {
                stable.push(t);
                proof {
                    assert(stable.deep_view() =~= before_s.push(t@));
                }
            } else {
                volatile.push(t);
                proof {
                    assert(volatile.deep_view() =~= before_v.push(t@));
                }
            }
        }
        i = i + 1;
    }
    proof {
        assert(all.take(all.len() as int) =~= all);
    }
    let mut text = String::new();
    proof {
        assert(text@ =~= stacked(Seq::empty()));
    }
    stack(&mut text, &stable, Ghost(Seq::empty()));
    proof {
        assert(Seq::empty() + stable.deep_view() =~= stable.deep_view());
    }
    stack(&mut text, &volatile, Ghost(stable.deep_view()));
    let system = if text.as_str().is_empty() {
        None
    } else {
        Some(Message::system(text.as_str()))
    };
    let memory: Vec<Message> = Vec::new();
    let artifacts: Vec<Message> = Vec::new();
    proof {
        assert(memory.deep_view() =~= Seq::empty());
        assert(artifacts.deep_view() =~= Seq::empty());
    }
    PromptParts {
        system,
        tools: parts.tools,
        history: parts.history,
        memory,
        artifacts,
        temperature: parts.temperature,
        max_tokens: parts.max_tokens,
        thinking: parts.thinking,
        prompt_budget: parts.prompt_budget,
    }
}

/// Puts a request together from sections; the rest is as for [`build_prompt`].
pub fn assemble(parts: AssembleParts) -> (r: ChatRequest)
    ensures
        r.deep_view() == prompt_of(assembled(parts)),
{
    finalize(section_parts(parts))
}

/// Changing or adding sections that vary leaves the part of the system text
/// that the stable ones make as it was: that part is always a prefix.
pub proof fn law_stable_prefix(sections: Seq<SystemSectionView>)
    ensures
        ({
            let head = stacked(section_texts(sections, true));
            let whole = system_text(sections);
            head.len() <= whole.len() && whole.take(head.len() as int) == head
        }),
{
    lemma_stacked_prefix(section_texts(sections, true), section_texts(sections, false));
}

proof fn lemma_stacked_prefix(a: Seq<Seq<char>>, b: Seq<Seq<char>>)
    ensures
        stacked(a).len() <= stacked(a + b).len(),
        stacked(a + b).take(stacked(a).len() as int) == stacked(a),
    decreases b.len(),
{
    let head = stacked(a);
    if b.len() == 0 {
        assert(a + b =~= a);
        assert(head.take(head.len() as int) =~= head);
    } else {
        lemma_stacked_prefix(a, b.drop_last());
        assert((a + b).drop_last() =~= a + b.drop_last());
        let before = stacked(a + b.drop_last());
        let whole = stacked(a + b);
        assert((a + b).last() == b.last());
        assert(whole.take(head.len() as int) =~= before.take(head.len() as int));
    }
}

} // verus!
