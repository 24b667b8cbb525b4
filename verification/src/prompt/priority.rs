//! Putting a prompt together strictly by importance: each piece in turn takes
//! what it needs of the budget, and nothing is exempt but the system prompt.

use vstd::prelude::*;

use crate::prompt::{
    extend, fit_system, keep_all, keep_history, keep_tools, left_of, lemma_history_fits,
    optional, PromptFragment, PromptFragmentView, PromptParts, PromptPartsView,
};
use crate::budget::message_cost;
use crate::provider::{
    ChatRequest, ChatRequestView, Message, MessageView, ToolDeclaration, ToolDeclarationView,
};

verus! {

/// What the system prompt leaves of the budget.
pub open spec fn budget_after_system(p: PromptPartsView) -> int {
    match p.system {
        Some(m) => left_of(
            p.prompt_budget as int,
            message_cost(fit_system(m, p.prompt_budget as int)),
        ),
        None => p.prompt_budget as int,
    }
}

/// The tool declarations that are kept, and what is left of the budget. With
/// nothing left, no further piece is looked at.
pub open spec fn tools_step(tools: Seq<ToolDeclarationView>, budget: int) -> (
    Seq<ToolDeclarationView>,
    int,
) {
    if budget == 0 {
        (Seq::empty(), 0)
    } else {
        keep_tools(tools, budget)
    }
}

/// The history that is kept, and what is left of the budget.
pub open spec fn history_step(msgs: Seq<MessageView>, budget: int) -> (Seq<MessageView>, int) {
    if budget == 0 {
        (Seq::empty(), 0)
    } else {
        keep_history(msgs, budget)
    }
}

/// The messages of another piece that are kept, and what is left of the budget.
pub open spec fn messages_step(msgs: Seq<MessageView>, budget: int) -> (Seq<MessageView>, int) {
    if budget == 0 {
        (Seq::empty(), 0)
    } else {
        keep_all(msgs, budget)
    }
}

/// The request that the parts make.
pub open spec fn prompt_of(p: PromptPartsView) -> ChatRequestView {
    let shape = ChatRequestView {
        temperature: p.temperature,
        max_tokens: p.max_tokens,
        thinking: p.thinking,
        ..ChatRequestView::of(Seq::empty())
    };
    if p.prompt_budget == 0 {
        ChatRequestView {
            messages: optional(p.system) + p.history + p.memory + p.artifacts,
            tools: p.tools,
            ..shape
        }
    } else {
        let system = match p.system {
            Some(m) => Some(fit_system(m, p.prompt_budget as int)),
            None => None,
        };
        let (tools, b1) = tools_step(p.tools, budget_after_system(p));
        let (history, b2) = history_step(p.history, b1);
        let (memory, b3) = messages_step(p.memory, b2);
        let (artifacts, b4) = messages_step(p.artifacts, b3);
        ChatRequestView {
            messages: optional(system) + history + memory + artifacts,
            tools,
            ..shape
        }
    }
}

fn no_messages() -> (r: Vec<Message>)
    ensures
        r.deep_view() == Seq::<MessageView>::empty(),
{
    let none: Vec<Message> = Vec::new();
    proof {
        assert(none.deep_view() =~= Seq::empty());
    }
    none
}

/// The messages of one piece that are kept, and what is left of the budget.
fn step(fragment: PromptFragment, budget: u64) -> (r: (Vec<Message>, u64))
    requires
        fragment is History || fragment is Memory || fragment is Artifacts,
    ensures
        (r.0.deep_view(), r.1 as int) == (match fragment.deep_view() {
            PromptFragmentView::History(m) => history_step(m, budget as int),
            PromptFragmentView::Memory(m) => messages_step(m, budget as int),
            PromptFragmentView::Artifacts(m) => messages_step(m, budget as int),
            _ => (Seq::<MessageView>::empty(), budget as int),
        }),
{
    if budget == 0 {
        return (no_messages(), 0);
    }
    proof {
        if let PromptFragmentView::History(m) = fragment.deep_view() {
            lemma_history_fits(m, budget as int);
        }
    }
    match fragment.truncate(budget) {
        Some((kept, cost)) => match kept {
            PromptFragment::History(m) => (m, budget - cost),
            PromptFragment::Memory(m) => (m, budget - cost),
            PromptFragment::Artifacts(m) => (m, budget - cost),
            _ => (no_messages(), budget),
        },
        None => (no_messages(), budget),
    }
}

/// Puts the request together, piece by piece in the order of importance.
pub fn build_prompt(parts: PromptParts) -> (r: ChatRequest)
    ensures
        r.deep_view() == prompt_of(parts.deep_view()),
{
    let ghost p = parts.deep_view();
    let PromptParts {
        system,
        tools,
        history,
        memory,
        artifacts,
        temperature,
        max_tokens,
        thinking,
        prompt_budget,
    } = parts;
    let mut messages: Vec<Message> = no_messages();
    let mut final_tools: Vec<ToolDeclaration> = Vec::new();
    proof {
        assert(final_tools.deep_view() =~= Seq::empty());
    }
    if prompt_budget == 0 {
        if let Some(sys) = system {
            let ghost sv = sys.deep_view();
            messages.push(sys);
            proof {
                assert(messages.deep_view() =~= seq![sv]);
            }
        }
        extend(&mut messages, history);
        extend(&mut messages, memory);
        extend(&mut messages, artifacts);
        final_tools = tools;
    } else {
        let mut remaining: u64 = prompt_budget as u64;
        if let Some(sys) = system {
            let fragment = PromptFragment::System(sys);
            if let Some((PromptFragment::System(m), cost)) = fragment.truncate(remaining) {
                remaining = remaining.saturating_sub(cost);
                let ghost mv = m.deep_view();
                messages.push(m);
                proof {
                    assert(messages.deep_view() =~= seq![mv]);
                }
            }
        }
        proof {
            assert(remaining == budget_after_system(p));
        }
        if remaining > 0 {
            if let Some((PromptFragment::Tools(t), cost)) = PromptFragment::Tools(tools).truncate(
                remaining,
            ) {
                final_tools = t;
                remaining = remaining - cost;
            }
        }
        let (kept_history, left) = step(PromptFragment::History(history), remaining);
        extend(&mut messages, kept_history);
        let (kept_memory, left) = step(PromptFragment::Memory(memory), left);
        extend(&mut messages, kept_memory);
        let (kept_artifacts, _left) = step(PromptFragment::Artifacts(artifacts), left);
        extend(&mut messages, kept_artifacts);
    }
    let mut req = ChatRequest::of(messages);
    req.tools = final_tools;
    req.temperature = temperature;
    req.max_tokens = max_tokens;
    req.thinking = thinking;
    req
}

} // verus!
