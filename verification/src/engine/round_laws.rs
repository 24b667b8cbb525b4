//! What a chat does, step by step: what is recorded, what is answered, and what it
//! costs.

use vstd::prelude::*;
use vstd::string::*;

use crate::budget::{budget_verdict, estimate, BudgetError};
use crate::engine::reply::{
    budget_message, error_kind, session_reply, EngineErrorView, EngineReplyView, EngineStartError,
    SessionPhase,
};
use crate::engine::retry::{tries_again, wait_before};
use crate::engine::{
    answer_all, answer_plan, answer_results, barred, by_bar, converges, core_cost,
    depth_limit_message, dispatched_message, effective_options, ends_chat, failed_reply, id_of,
    interrupted, one_more_round, plan_calls, reaped, session_key, snapshot_of, stale, summed,
    survivors, too_many_message, CallPlan, ChatRun, ChatStepView, EngineView, RoundStartView,
    ToolRoundView,
};
use crate::provider::{
    ChatResponseView, FinishReasonView, LlmErrorView, MessageContentView, MessageView, Role,
    TokenUsage, ToolCallView,
};
use crate::session::laws::{
    answers_with, calls_id, law_question_alone, law_response_is_recorded,
};
use crate::session::message::{ChatOptionsView, ErrorKind, SessionId, SessionReplyView};
use crate::session::{
    law_put_result, ordered, result_of, FinishActionView, OutcomeView, SessionView, StateView,
};
use crate::table::{law_lookup_put, lookup, put, KeyView};
use crate::text::decimal;
use crate::time::Duration;
use crate::tool::executor::{chosen, ExecutedToolView, ToolOutcome};
use crate::tool::registry::{offers, ToolRegistryView};

verus! {

broadcast use vstd::string::group_string_axioms;

/// A session that was put is there; the others stay.
proof fn lemma_put(e: EngineView, id: SessionId, s: SessionView, other: SessionId)
    ensures
        e.with_session(id, s).session(other) == (if other == id {
            Some(s)
        } else {
            e.session(other)
        }),
        e.with_session(id, s).total == e.total,
        e.with_session(id, s).config == e.config,
        e.with_session(id, s).tools == e.tools,
        e.with_session(id, s).executor == e.executor,
        e.with_session(id, s).cache == e.cache,
        e.with_session(id, s).provider == e.provider,
{
    law_lookup_put(e.sessions, session_key(id), s, session_key(other));
}

/// A chat begins exactly where no budget is used up, what is always sent fits the
/// model's window, and the session is idle and has room; else it is said what stands
/// against it.
pub proof fn law_chat_may_begin(
    e: EngineView,
    id: SessionId,
    m: MessageView,
    options: ChatOptionsView,
    depth: u32,
    now: u64,
    s: SessionView,
    text: Seq<char>,
)
    requires
        e.session(id) == Some(s),
        m.content == MessageContentView::Text(text),
        options.system_prompt is None,
        s.config.default_system_prompt is None,
        estimate(text) <= u64::MAX,
    ensures
        ({
            let answer = e.begun(id, m, options, depth, now).1;
            let window = e.provider.model_spec.context_window_tokens;
            let b = e.config.budget;
            let in_budget = (b.session_limit == 0 || s.consumed_tokens < b.session_limit) && (
            b.global_limit == 0 || e.total < b.global_limit);
            &&& answer is Ok <==> in_budget && estimate(text) < window && s.state is Idle
                && s.log.facts.len() < s.log.max_events
            &&& b.session_limit > 0 && s.consumed_tokens >= b.session_limit ==> answer == Err::<
                RoundStartView,
                EngineStartError,
            >(
                EngineStartError::Budget(
                    BudgetError::SessionExceeded {
                        used: s.consumed_tokens,
                        limit: b.session_limit,
                    },
                ),
            )
            &&& in_budget && estimate(text) >= window ==> answer == Err::<
                RoundStartView,
                EngineStartError,
            >(EngineStartError::PromptTooLarge { estimated: estimate(text) as u64, window })
            &&& in_budget && estimate(text) < window && !(s.state is Idle) ==> answer == Err::<
                RoundStartView,
                EngineStartError,
            >(EngineStartError::Busy)
        }),
{
}

/// What is always sent costs what its texts are estimated at.
pub proof fn law_core_cost(system: Seq<char>, text: Seq<char>, m: MessageView)
    requires
        m.content == MessageContentView::Text(text),
        estimate(system) + estimate(text) <= u64::MAX,
    ensures
        core_cost(Some(system), m) == estimate(system) + estimate(text),
        core_cost(None, m) == estimate(text),
{
}

/// A chat that begins has its question recorded behind what was there, and asks the
/// model for an answer to it with the tools that are offered.
pub proof fn law_chat_begins(
    e: EngineView,
    id: SessionId,
    m: MessageView,
    options: ChatOptionsView,
    depth: u32,
    now: u64,
    s: SessionView,
)
    requires
        e.session(id) == Some(s),
        s.wf(),
        s.injections.len() == 0,
        e.begun(id, m, options, depth, now).1 is Ok,
    ensures
        ({
            let (after, answer) = e.begun(id, m, options, depth, now);
            let round = answer->Ok_0;
            &&& after.session(id) matches Some(t)
            &&& t.log.facts == s.log.facts.push(m)
            &&& t.state == (StateView::Thinking { turn_id: round.turn_id, cancel: true })
            &&& round.turn_id != s.turn_id
            &&& t.last_active == now
            &&& t.peer_depth == depth
            &&& t.consumed_tokens == s.consumed_tokens
            &&& options.tools.len() > 0 || e.tools is None ==> t.options == options
            &&& options.tools.len() == 0 ==> (e.tools matches Some(reg) ==> t.options.tools
                == offers(reg.tools, None, depth, e.config.max_subagent_depth)
                && t.options.system_prompt == options.system_prompt && t.options.temperature
                == options.temperature && t.options.max_tokens == options.max_tokens
                && t.options.thinking == options.thinking)
            &&& round.request == t.request(t.options)
            &&& after.total == e.total
        }),
{
    let offered = effective_options(options, e.tools, depth, e.config.max_subagent_depth);
    let t = s.started(m, offered, depth, now);
    lemma_put(e, id, t, id);
    law_question_alone(s, m, offered, depth, now);
}

/// The first chat of a session makes the session, with the settings for sessions.
pub proof fn law_session_is_made(e: EngineView, id: SessionId, other: SessionId, now: u64)
    ensures
        e.session(id) is Some ==> e.ensured(id, now) == Some(e),
        e.session(id) is None && e.sessions.len() < e.config.max_sessions ==> {
            &&& e.ensured(id, now) matches Some(after)
            &&& after.session(id) matches Some(s)
            &&& s.state is Idle
            &&& s.log.facts.len() == 0
            &&& s.log.max_events == e.config.session.max_events
            &&& s.config == e.config.session
            &&& s.session_id == id
            &&& s.consumed_tokens == 0
            &&& s.last_active == now
            &&& other != id ==> after.session(other) == e.session(other)
        },
        e.session(id) is None && e.sessions.len() >= e.config.max_sessions ==> e.ensured(
            id,
            now,
        ) is None,
{
    let fresh = SessionView { session_id: id, ..SessionView::fresh(e.config.session, now) };
    lemma_put(e, id, fresh, id);
    lemma_put(e, id, fresh, other);
}

/// An answer without calls ends the chat: it is what is replied and what is recorded,
/// and what it cost is counted, for the session and for all sessions.
pub proof fn law_answer_ends_the_chat(
    e: EngineView,
    run: ChatRun,
    turn: u64,
    key: Option<KeyView>,
    r: ChatResponseView,
    now: u64,
    s: SessionView,
)
    requires
        e.session(run.session_id) == Some(s),
        s.state matches StateView::Thinking { turn_id, .. } && turn_id == turn,
        s.log.facts.len() < s.log.max_events,
        r.message.tool_calls.len() == 0,
    ensures
        ({
            let (after, step) = e.after_call(run, turn, key, OutcomeView::Success(r), now);
            &&& step == ChatStepView::Done(EngineReplyView::Success(r))
            &&& after.session(run.session_id) matches Some(t)
            &&& t.log.facts == s.log.facts + seq![r.message]
            &&& t.state is Idle
            &&& r.usage matches Some(u) ==> (s.consumed_tokens + u.total_tokens <= u64::MAX
                && e.total + u.total_tokens <= u64::MAX ==> t.consumed_tokens == s.consumed_tokens
                + u.total_tokens && after.total == e.total + u.total_tokens)
            &&& r.usage is None ==> t.consumed_tokens == s.consumed_tokens && after.total == e.total
            &&& key matches Some(k) ==> (e.cache matches Some(c) ==> after.cache == Some(
                c.kept(k, r, now),
            ))
            &&& key is None ==> after.cache == e.cache
        }),
{
    let outcome = OutcomeView::Success(r);
    let id = run.session_id;
    let counted = e.accounted(outcome, key, now);
    assert(counted.session(id) == Some(s));
    lemma_put(counted, id, s.finished(turn, outcome), id);
    law_response_is_recorded(s, turn, outcome, r, Seq::empty());
}

/// An answer with calls, where there are tools, opens a round of them: the answer is
/// recorded and counted, and it is not kept for other chats.
pub proof fn law_calls_open_a_round(
    e: EngineView,
    run: ChatRun,
    turn: u64,
    key: Option<KeyView>,
    r: ChatResponseView,
    now: u64,
    s: SessionView,
)
    requires
        e.session(run.session_id) == Some(s),
        s.state matches StateView::Thinking { turn_id, .. } && turn_id == turn,
        s.log.facts.len() < s.log.max_events,
        r.message.tool_calls.len() > 0,
        e.tools is Some,
        e.executor is Some,
    ensures
        ({
            let (after, step) = e.after_call(run, turn, key, OutcomeView::Success(r), now);
            let p = plan_calls(
                r.message.tool_calls,
                e.tools->0,
                e.executor->0.max_per_turn,
                s.peer_depth >= e.config.max_subagent_depth,
            );
            &&& step matches ChatStepView::Tools(round)
            &&& round.turn_id == turn
            &&& round.response == r
            &&& round.waiting == p.waiting
            &&& round.dispatched == p.dispatched
            &&& round.refused <==> p.blocked.len() > 0 || p.cut.len() > 0
            &&& round.depth == s.peer_depth
            &&& round.serial <==> !e.provider.capabilities.parallel_tool_calls
            &&& after.session(run.session_id) matches Some(t)
            &&& t.log.facts == s.log.facts + seq![r.message]
            &&& t.state is AwaitingCalls
            &&& after.cache == e.cache
            &&& r.usage matches Some(u) ==> (e.total + u.total_tokens <= u64::MAX ==> after.total
                == e.total + u.total_tokens)
        }),
{
    let outcome = OutcomeView::Success(r);
    let id = run.session_id;
    let counted = e.accounted(outcome, key, now);
    assert(counted.session(id) == Some(s));
    let f = s.finished(turn, outcome);
    let done = counted.with_session(id, f);
    lemma_put(counted, id, f, id);
    law_response_is_recorded(s, turn, outcome, r, Seq::empty());
    let p = done.plan(id, r.message.tool_calls);
    let max = done.executor->0.max_per_turn;
    assert(done.depth(id) == s.peer_depth);
    lemma_answers_leave_the_record(f, p.blocked, depth_limit_message());
    let a = answer_all(f, p.blocked, depth_limit_message());
    lemma_answers_leave_the_record(a, p.cut, too_many_message(max));
    let b = answer_all(a, p.cut, too_many_message(max));
    lemma_answers_leave_the_record(b, p.dispatched, dispatched_message());
    lemma_put(done, id, answer_plan(f, p, max), id);
}

/// Answers wait for the round to go on; the record stays.
proof fn lemma_answers_leave_the_record(s: SessionView, calls: Seq<ToolCallView>, text: Seq<char>)
    ensures
        answer_all(s, calls, text).log == s.log,
        s.state is AwaitingCalls ==> answer_all(s, calls, text).state is AwaitingCalls,
        s.state is AwaitingCalls && ordered(s.state->tool_results) ==> ordered(
            answer_all(s, calls, text).state->tool_results,
        ),
    decreases calls.len(),
{
    if calls.len() > 0 {
        let t = answer_all(s, calls.drop_last(), text);
        lemma_answers_leave_the_record(s, calls.drop_last(), text);
        if s.state is AwaitingCalls && ordered(s.state->tool_results) {
            law_put_result(t.state->tool_results, calls.last().id, text, calls.last().id);
        }
    }
}

/// Without tools, an answer with calls ends the chat.
pub proof fn law_calls_without_tools(
    e: EngineView,
    run: ChatRun,
    turn: u64,
    key: Option<KeyView>,
    r: ChatResponseView,
    now: u64,
    s: SessionView,
)
    requires
        e.session(run.session_id) == Some(s),
        s.state matches StateView::Thinking { turn_id, .. } && turn_id == turn,
        s.log.facts.len() < s.log.max_events,
        r.message.tool_calls.len() > 0,
        e.tools is None || e.executor is None,
    ensures
        ({
            let (after, step) = e.after_call(run, turn, key, OutcomeView::Success(r), now);
            &&& step == ChatStepView::Done(EngineReplyView::Success(r))
            &&& after.session(run.session_id) matches Some(t)
            &&& t.log.facts == s.log.facts + seq![r.message]
            &&& t.state is Idle
        }),
{
    let outcome = OutcomeView::Success(r);
    let id = run.session_id;
    let counted = e.accounted(outcome, key, now);
    assert(counted.session(id) == Some(s));
    let f = s.finished(turn, outcome);
    let done = counted.with_session(id, f);
    lemma_put(counted, id, f, id);
    lemma_put(done, id, SessionView { state: StateView::Idle, ..f }, id);
    law_response_is_recorded(s, turn, outcome, r, Seq::empty());
}

/// A call that fails ends the chat with what went wrong, leaves the session idle with
/// its record as it was, and costs nothing.
pub proof fn law_failure_ends_the_chat(
    e: EngineView,
    run: ChatRun,
    turn: u64,
    key: Option<KeyView>,
    x: LlmErrorView,
    why: Seq<char>,
    now: u64,
    s: SessionView,
)
    requires
        e.session(run.session_id) == Some(s),
        s.state matches StateView::Thinking { turn_id, .. } && turn_id == turn,
    ensures
        !s.interrupt ==> {
            &&& e.after_call(run, turn, key, OutcomeView::Error(x), now).1 == ChatStepView::Done(
                EngineReplyView::Error(EngineErrorView::Llm(x)),
            )
            &&& e.after_call(run, turn, key, OutcomeView::Timeout, now).1 == ChatStepView::Done(
                EngineReplyView::Timeout,
            )
            &&& e.after_call(run, turn, key, OutcomeView::Panic(why), now).1 == ChatStepView::Done(
                EngineReplyView::Error(EngineErrorView::TurnIncomplete),
            )
        },
        s.interrupt ==> e.after_call(run, turn, key, OutcomeView::Error(x), now).1
            == ChatStepView::Done(EngineReplyView::Cancelled),
        ({
            let after = e.after_call(run, turn, key, OutcomeView::Error(x), now).0;
            &&& after.session(run.session_id) matches Some(t)
            &&& t.state is Idle
            &&& t.log == s.log
            &&& t.consumed_tokens == s.consumed_tokens
            &&& after.total == e.total
            &&& after.cache == e.cache
        }),
{
    lemma_put(e, run.session_id, s.finished(turn, OutcomeView::Error(x)), run.session_id);
}

/// A round that begins asks the model exactly what was prepared, unless the chat was
/// told to stop or the answer is known.
pub proof fn law_round_asks_the_model(
    e: EngineView,
    run: ChatRun,
    round: RoundStartView,
    now: u64,
    s: SessionView,
    k: KeyView,
)
    requires
        e.session(run.session_id) == Some(s),
    ensures
        s.interrupt ==> e.entered(run, round, now).1 == ChatStepView::Done(
            EngineReplyView::Cancelled,
        ),
        !s.interrupt && (run.streaming || e.cache is None) ==> e.entered(run, round, now) == (
            e,
            ChatStepView::Call(round.turn_id, round.request, None),
        ),
        !s.interrupt && !run.streaming ==> (e.cache matches Some(c) ==> ({
            let key = crate::cache::request_key(round.request, e.provider.id);
            c.answer(key, now) is None ==> e.entered(run, round, now).1 == ChatStepView::Call(
                round.turn_id,
                round.request,
                Some(key),
            ) && e.entered(run, round, now).0.sessions == e.sessions
        })),
{
}

/// Where a call cannot be run now, it is answered with the reason: first the depth, then
/// the number of calls, and a call that nobody waits for with its dispatch. Every other
/// call is still waited for.
pub proof fn law_plan_is_answered(s: SessionView, p: CallPlan, max: usize, id: Seq<char>)
    requires
        s.state is AwaitingCalls,
        ordered(s.state->tool_results),
        s.awaiting(id),
    ensures
        ({
            let t = answer_plan(s, p, max);
            &&& t.state is AwaitingCalls
            &&& calls_id(p.blocked, id) ==> result_of(t.state->tool_results, id) == Some(
                "Rejected: subagent nesting depth limit reached. This agent cannot call sub-agents."@,
            )
            &&& !calls_id(p.blocked, id) && calls_id(p.cut, id) ==> result_of(
                t.state->tool_results,
                id,
            ) == Some(
                "Exceeds max_tools_per_turn limit ("@ + decimal(max as nat)
                    + "). Please re-issue this tool call in the next turn."@,
            )
            &&& !calls_id(p.blocked, id) && !calls_id(p.cut, id) && calls_id(p.dispatched, id)
                ==> result_of(t.state->tool_results, id) == Some(
                "Task dispatched (async execution); real result will be injected into a later turn."@,
            )
            &&& !calls_id(p.blocked, id) && !calls_id(p.cut, id) && !calls_id(p.dispatched, id)
                ==> t.awaiting(id) && result_of(t.state->tool_results, id) == result_of(
                s.state->tool_results,
                id,
            )
        }),
{
    lemma_answers(s, p.blocked, depth_limit_message(), id);
    let a = answer_all(s, p.blocked, depth_limit_message());
    lemma_answers(a, p.cut, too_many_message(max), id);
    let b = answer_all(a, p.cut, too_many_message(max));
    lemma_answers(b, p.dispatched, dispatched_message(), id);
}

/// One text for several calls.
proof fn lemma_answers(s: SessionView, calls: Seq<ToolCallView>, text: Seq<char>, id: Seq<char>)
    requires
        s.state is AwaitingCalls,
        ordered(s.state->tool_results),
    ensures
        ({
            let t = answer_all(s, calls, text);
            &&& t.state is AwaitingCalls
            &&& ordered(t.state->tool_results)
            &&& t.awaiting(id) <==> s.awaiting(id) && !calls_id(calls, id)
            &&& s.awaiting(id) && calls_id(calls, id) ==> result_of(t.state->tool_results, id)
                == Some(text)
            &&& !s.awaiting(id) || !calls_id(calls, id) ==> result_of(t.state->tool_results, id)
                == result_of(s.state->tool_results, id)
        }),
    decreases calls.len(),
{
    if calls.len() > 0 {
        let front = calls.drop_last();
        let last = calls.last().id;
        lemma_answers(s, front, text, id);
        lemma_answers_leave_the_record(s, front, text);
        let t = answer_all(s, front, text);
        law_put_result(t.state->tool_results, last, text, id);
        crate::session::law_without_id(t.state->pending, last, id);
        if last == id {
            assert(calls[calls.len() - 1].id == id);
        }
        if calls_id(front, id) {
            let j = choose|j: int| 0 <= j < front.len() && (#[trigger] front[j]).id == id;
            assert(calls[j].id == id);
        }
        if calls_id(calls, id) && last != id {
            let j = choose|j: int| 0 <= j < calls.len() && (#[trigger] calls[j]).id == id;
            assert(front[j].id == id);
        }
    }
}

/// Which calls are run: at the depth limit none that calls another agent; of the rest
/// the first ones, as many as may be; and each is waited for or dispatched as it asks.
pub proof fn law_calls_are_planned(
    calls: Seq<ToolCallView>,
    reg: ToolRegistryView,
    max: usize,
    c: ToolCallView,
)
    ensures
        ({
            let p = plan_calls(calls, reg, max, false);
            &&& p.blocked.len() == 0
            &&& calls.len() <= max ==> p.cut.len() == 0 && p.waiting == chosen(calls, reg, true)
                && p.dispatched == chosen(calls, reg, false)
            &&& calls.len() > max ==> p.cut == calls.skip(max as int) && p.waiting == chosen(
                calls.take(max as int),
                reg,
                true,
            ) && p.dispatched == chosen(calls.take(max as int), reg, false)
        }),
        ({
            let p = plan_calls(calls, reg, max, true);
            let rest = by_bar(calls, reg, false);
            &&& p.blocked == by_bar(calls, reg, true)
            &&& rest.len() <= max ==> p.cut.len() == 0
            &&& rest.len() > max ==> p.cut == rest.skip(max as int)
        }),
        by_bar(Seq::empty(), reg, true).len() == 0,
        by_bar(Seq::empty(), reg, false).len() == 0,
        (reg.tool(c.name) matches Some(t) && t.depth_limited) ==> by_bar(calls.push(c), reg, true)
            == by_bar(calls, reg, true).push(c) && by_bar(calls.push(c), reg, false) == by_bar(
            calls,
            reg,
            false,
        ),
        !(reg.tool(c.name) matches Some(t) && t.depth_limited) ==> by_bar(
            calls.push(c),
            reg,
            false,
        ) == by_bar(calls, reg, false).push(c) && by_bar(calls.push(c), reg, true) == by_bar(
            calls,
            reg,
            true,
        ),
{
    assert(calls.push(c).drop_last() =~= calls);
}

/// A result of a tool that is waited for is the answer to its call.
pub proof fn law_results_are_answers(
    s: SessionView,
    results: Seq<ExecutedToolView>,
    k: int,
    id: Seq<char>,
)
    requires
        s.state is AwaitingCalls,
        ordered(s.state->tool_results),
        s.awaiting(id),
        0 <= k < results.len(),
        results[k].tool_call_id == id,
        forall|i: int| 0 <= i < k ==> (#[trigger] results[i]).tool_call_id != id,
    ensures
        answer_results(s, results).state is AwaitingCalls,
        result_of(answer_results(s, results).state->tool_results, id) == Some(results[k].result),
        !answer_results(s, results).awaiting(id),
        answer_results(s, results).log == s.log,
    decreases results.len(),
{
    let front = results.drop_last();
    let last = results.last();
    lemma_results_keep(s, front, id);
    let t = answer_results(s, front);
    law_put_result(t.state->tool_results, last.tool_call_id, last.result, id);
    crate::session::law_without_id(t.state->pending, last.tool_call_id, id);
    if k < results.len() - 1 {
        assert forall|i: int| 0 <= i < k implies (#[trigger] front[i]).tool_call_id != id by {
            assert(front[i] == results[i]);
        }
        law_results_are_answers(s, front, k, id);
    } else {
        assert forall|i: int| 0 <= i < front.len() implies (#[trigger] front[i]).tool_call_id
            != id by {
            assert(front[i] == results[i]);
        }
    }
}

/// Results of other calls leave a call waiting.
proof fn lemma_results_keep(s: SessionView, results: Seq<ExecutedToolView>, id: Seq<char>)
    requires
        s.state is AwaitingCalls,
        ordered(s.state->tool_results),
    ensures
        answer_results(s, results).state is AwaitingCalls,
        ordered(answer_results(s, results).state->tool_results),
        answer_results(s, results).log == s.log,
        (forall|i: int| 0 <= i < results.len() ==> (#[trigger] results[i]).tool_call_id != id)
            ==> answer_results(s, results).awaiting(id) == s.awaiting(id),
    decreases results.len(),
{
    if results.len() > 0 {
        let front = results.drop_last();
        let last = results.last();
        lemma_results_keep(s, front, id);
        let t = answer_results(s, front);
        law_put_result(t.state->tool_results, last.tool_call_id, last.result, id);
        crate::session::law_without_id(t.state->pending, last.tool_call_id, id);
        if forall|i: int| 0 <= i < results.len() ==> (#[trigger] results[i]).tool_call_id != id {
            assert(results[results.len() - 1].tool_call_id != id);
            assert forall|i: int| 0 <= i < front.len() implies (#[trigger] front[i]).tool_call_id
                != id by {
                assert(front[i] == results[i]);
            }
        }
    }
}

/// After its tools a chat ends where nothing was waited for, or where every tool
/// succeeded and one of them ends the chat; else the model is asked again, with the
/// results on record, or the chat has used up its rounds.
pub proof fn law_after_tools(
    e: EngineView,
    run: ChatRun,
    round: ToolRoundView,
    results: Seq<ExecutedToolView>,
    now: u64,
    s: SessionView,
)
    requires
        e.session(run.session_id) == Some(s),
        s.state is AwaitingCalls,
        ordered(s.state->tool_results),
        run.streaming || e.cache is None,
        !s.interrupt,
    ensures
        ({
            let (after, step) = e.after_tools(run, round, results, now);
            let t = answer_results(s, results);
            let over = !round.refused && round.dispatched.len() == 0 && (e.tools matches Some(reg)
                && (forall|i: int|
                0 <= i < results.len() ==> (#[trigger] results[i]).outcome
                    == ToolOutcome::Completed && !results[i].failed) && (exists|i: int|
                0 <= i < results.len() && (reg.tool((#[trigger] results[i]).tool_name) matches Some(
                    tool,
                ) && tool.terminal)));
            &&& round.waiting.len() == 0 ==> step == ChatStepView::Done(
                EngineReplyView::Success(round.response),
            )
            &&& round.waiting.len() > 0 && over ==> (step matches ChatStepView::Done(
                EngineReplyView::Success(r),
            ) && r.message == round.response.message && r.id == round.response.id && r.model
                == round.response.model && r.finish_reason == round.response.finish_reason
                && r.usage == run.usage_sum)
            &&& round.waiting.len() > 0 && !over ==> (e.config.session.max_rounds_per_chat matches Some(
                max,
            ) ==> (run.rounds_used >= max ==> step == ChatStepView::Done(
                EngineReplyView::Error(EngineErrorView::MaxRoundsExceeded(run.rounds_used)),
            )))
            &&& round.waiting.len() > 0 && !over && (e.config.session.max_rounds_per_chat matches Some(
                max,
            ) ==> run.rounds_used < max) ==> {
                &&& step == ChatStepView::Call(
                    t.resumed().turn_id,
                    t.resumed().request(s.options),
                    None,
                )
                &&& after.session(run.session_id) == Some(t.resumed())
            }
        }),
{
    let id = run.session_id;
    let t = answer_results(s, results);
    lemma_results_keep(s, results, Seq::empty());
    lemma_results_stay(s, results);
    lemma_put(e, id, s.settled(), id);
    lemma_put(e, id, t, id);
    let taken = e.with_session(id, t);
    lemma_put(taken, id, t.settled(), id);
    lemma_put(taken, id, t.resumed(), id);
    if let Some(reg) = e.tools {
        if forall|i: int|
            0 <= i < results.len() ==> (#[trigger] results[i]).outcome == ToolOutcome::Completed
                && !results[i].failed {
            assert forall|i: int| 0 <= i < results.len() implies crate::engine::succeeded(
                #[trigger] results[i],
            ) by {}
        }
        if converges(results, reg) {
            assert forall|i: int| 0 <= i < results.len() implies (#[trigger] results[i]).outcome
                == ToolOutcome::Completed && !results[i].failed by {
                assert(crate::engine::succeeded(results[i]));
            }
        }
    }
}

/// Results leave the rest of a session as it is.
proof fn lemma_results_stay(s: SessionView, results: Seq<ExecutedToolView>)
    ensures
        answer_results(s, results).interrupt == s.interrupt,
        answer_results(s, results).options == s.options,
        answer_results(s, results).config == s.config,
    decreases results.len(),
{
    if results.len() > 0 {
        lemma_results_stay(s, results.drop_last());
    }
}

/// Rounds are counted one by one.
pub proof fn law_rounds_are_counted(run: ChatRun)
    ensures
        run.rounds_used < u32::MAX ==> one_more_round(run).rounds_used == run.rounds_used + 1,
        one_more_round(run).session_id == run.session_id,
        one_more_round(run).usage_sum == run.usage_sum,
        one_more_round(run).streaming == run.streaming,
{
}

/// Usage adds up, count by count; what is not told adds nothing.
pub proof fn law_usage_adds_up(a: TokenUsage, b: TokenUsage, x: usize, y: usize)
    ensures
        summed(None, Some(b)) == Some(b),
        summed(Some(a), None) == Some(a),
        summed(None, None) is None,
        summed(Some(a), Some(b)) == Some(a.plus(b)),
        a.prompt_tokens + b.prompt_tokens <= usize::MAX ==> a.plus(b).prompt_tokens
            == a.prompt_tokens + b.prompt_tokens,
        a.completion_tokens + b.completion_tokens <= usize::MAX ==> a.plus(b).completion_tokens
            == a.completion_tokens + b.completion_tokens,
        a.total_tokens + b.total_tokens <= usize::MAX ==> a.plus(b).total_tokens == a.total_tokens
            + b.total_tokens,
        a.reasoning_tokens == Some(x) && b.reasoning_tokens == Some(y) && x + y <= usize::MAX
            ==> a.plus(b).reasoning_tokens == Some((x + y) as usize),
        a.reasoning_tokens is None ==> a.plus(b).reasoning_tokens == b.reasoning_tokens,
        b.reasoning_tokens is None ==> a.plus(b).reasoning_tokens == a.reasoning_tokens,
        a.cache_read_tokens == Some(x) && b.cache_read_tokens == Some(y) && x + y <= usize::MAX
            ==> a.plus(b).cache_read_tokens == Some((x + y) as usize),
        a.cache_read_tokens is None ==> a.plus(b).cache_read_tokens == b.cache_read_tokens,
        a.cache_write_tokens == Some(x) && b.cache_write_tokens == Some(y) && x + y <= usize::MAX
            ==> a.plus(b).cache_write_tokens == Some((x + y) as usize),
        a.cache_write_tokens is None ==> a.plus(b).cache_write_tokens == b.cache_write_tokens,
        a.prompt_cache_hit_tokens == Some(x) && b.prompt_cache_hit_tokens == Some(y) && x + y
            <= usize::MAX ==> a.plus(b).prompt_cache_hit_tokens == Some((x + y) as usize),
        a.prompt_cache_hit_tokens is None ==> a.plus(b).prompt_cache_hit_tokens
            == b.prompt_cache_hit_tokens,
        a.prompt_cache_miss_tokens == Some(x) && b.prompt_cache_miss_tokens == Some(y) && x + y
            <= usize::MAX ==> a.plus(b).prompt_cache_miss_tokens == Some((x + y) as usize),
        a.prompt_cache_miss_tokens is None ==> a.plus(b).prompt_cache_miss_tokens
            == b.prompt_cache_miss_tokens,
{
}

/// A session that is interrupted is told so, and a call of the model that is under way
/// can be cancelled no more; nothing else changes.
pub proof fn law_interrupt(s: SessionView)
    ensures
        interrupted(s).interrupt,
        interrupted(s).log == s.log,
        interrupted(s).turn_id == s.turn_id,
        interrupted(s).options == s.options,
        interrupted(s).consumed_tokens == s.consumed_tokens,
        interrupted(s).injections == s.injections,
        s.state is Idle ==> interrupted(s).state is Idle,
        s.state matches StateView::Thinking { turn_id, .. } ==> interrupted(s).state == (
        StateView::Thinking { turn_id, cancel: false }),
        s.state is AwaitingCalls ==> interrupted(s).state == s.state,
{
}

/// A session is removed for idleness where it is idle and as long inactive as allowed;
/// the others stay, in their order.
pub proof fn law_idle_sessions_go(
    items: Seq<(KeyView, SessionView)>,
    key: KeyView,
    s: SessionView,
    now: u64,
    limit: Duration,
)
    requires
        s.last_active <= now,
    ensures
        ({
            let goes = s.state is Idle && (now - s.last_active) * 1_000_000 >= limit.total();
            &&& goes ==> survivors(items.push((key, s)), now, limit) == survivors(items, now, limit)
                && reaped(items.push((key, s)), now, limit) == reaped(items, now, limit).push(
                (SessionId { hi: key.1, lo: key.2 }),
            )
            &&& !goes ==> survivors(items.push((key, s)), now, limit) == survivors(
                items,
                now,
                limit,
            ).push((key, s)) && reaped(items.push((key, s)), now, limit) == reaped(
                items,
                now,
                limit,
            )
        }),
        survivors(Seq::empty(), now, limit).len() == 0,
        reaped(Seq::empty(), now, limit).len() == 0,
{
    assert(items.push((key, s)).drop_last() =~= items);
}

/// A history that is restored stands behind what was recorded, message for message, so
/// far as there is room; and it is said how many messages that are.
pub proof fn law_history_is_restored(
    e: EngineView,
    id: SessionId,
    messages: Seq<MessageView>,
    now: u64,
    s: SessionView,
)
    requires
        e.session(id) == Some(s),
        s.log.facts.len() + messages.len() <= s.log.max_events,
    ensures
        ({
            let (after, n) = e.restored(id, messages, now);
            &&& n == Some(messages.len() as int)
            &&& after.session(id) matches Some(t)
            &&& t.log.facts == s.log.facts + messages
            &&& t.state == s.state
            &&& t.consumed_tokens == s.consumed_tokens
        }),
{
    let log = s.log.plus_all(messages);
    lemma_put(e, id, SessionView { log, ..s }, id);
    if s.log.facts.len() == s.log.max_events {
        assert(s.log.facts + messages =~= s.log.facts);
    }
}

/// What is told of a session.
pub proof fn law_snapshot(s: SessionView)
    ensures
        s.state is Idle ==> snapshot_of(s).state == SessionPhase::Idle,
        s.state is Thinking ==> snapshot_of(s).state == SessionPhase::Thinking,
        s.state is AwaitingCalls ==> snapshot_of(s).state == SessionPhase::AwaitingCalls,
        s.log.facts.len() <= s.config.max_history ==> snapshot_of(s).history_len
            == s.log.facts.len() as usize,
        s.log.facts.len() > s.config.max_history ==> snapshot_of(s).history_len
            == s.config.max_history,
        snapshot_of(s).consumed_tokens == s.consumed_tokens,
        snapshot_of(s).peer_depth == s.peer_depth,
{
}

/// The reply of a chat as a session gives it.
pub proof fn law_replies(
    r: ChatResponseView,
    turn: u64,
    x: LlmErrorView,
    w: Duration,
    s: Seq<char>,
    n: u32,
)
    ensures
        session_reply(EngineReplyView::Success(r)) == SessionReplyView::Success(r),
        session_reply(EngineReplyView::Busy(turn)) == SessionReplyView::Busy(turn),
        session_reply(EngineReplyView::Cancelled) is Cancelled,
        session_reply(EngineReplyView::Timeout) == SessionReplyView::Error(
            "turn timeout"@,
            ErrorKind::Timeout,
            None,
        ),
        !(x is RateLimited) ==> session_reply(EngineReplyView::Error(EngineErrorView::Llm(x)))
            == SessionReplyView::Error("llm error: "@ + x.message(), ErrorKind::Llm, None),
        w.total_millis() <= u64::MAX ==> session_reply(
            EngineReplyView::Error(EngineErrorView::Llm(LlmErrorView::RateLimited(Some(w)))),
        ) == SessionReplyView::Error(
            "llm error: "@ + "rate limited"@,
            ErrorKind::RateLimited,
            Some(w.total_millis() as u64),
        ),
        session_reply(
            EngineReplyView::Error(EngineErrorView::Llm(LlmErrorView::RateLimited(None))),
        ) == SessionReplyView::Error(
            "llm error: "@ + "rate limited"@,
            ErrorKind::RateLimited,
            None,
        ),
        session_reply(EngineReplyView::Error(EngineErrorView::StateConflict(s)))
            == SessionReplyView::Error("state conflict: "@ + s, ErrorKind::Internal, None),
        session_reply(EngineReplyView::Error(EngineErrorView::TurnIncomplete))
            == SessionReplyView::Error("turn ended without success"@, ErrorKind::Internal, None),
        session_reply(EngineReplyView::Error(EngineErrorView::ChannelClosed))
            == SessionReplyView::Error("chat channel closed"@, ErrorKind::Internal, None),
        session_reply(EngineReplyView::Error(EngineErrorView::MaxRoundsExceeded(n)))
            == SessionReplyView::Error(
            "max rounds per chat exceeded ("@ + decimal(n as nat) + ")"@,
            ErrorKind::Internal,
            None,
        ),
{
}

/// Refusals of a chat in words.
pub proof fn law_refusals_in_words(used: u64, limit: u64, window: usize)
    ensures
        EngineStartError::MaxSessions.words() == "max sessions reached"@,
        EngineStartError::Busy.words() == "session busy"@,
        EngineStartError::Budget((BudgetError::SessionExceeded { used, limit })).words()
            == "budget limit reached: "@ + ("session token budget exceeded (used "@ + decimal(
            used as nat,
        ) + ", limit "@ + decimal(limit as nat) + ")"@),
        EngineStartError::Budget((BudgetError::GlobalExceeded { used, limit })).words()
            == "budget limit reached: "@ + ("global token budget exceeded (used "@ + decimal(
            used as nat,
        ) + ", limit "@ + decimal(limit as nat) + ")"@),
        (EngineStartError::PromptTooLarge { estimated: used, window }).words()
            == "request input exceeds model context window (estimated "@ + decimal(used as nat)
            + ", window "@ + decimal(window as nat) + ")"@,
{
}

/// Before a call is tried again there is the wait that was asked for, but no more than
/// ten seconds; where none was asked for, a quarter of a second that doubles from try
/// to try, five times at most.
pub proof fn law_waits_between_tries(e: LlmErrorView, w: Duration, attempt: u32)
    ensures
        e == LlmErrorView::RateLimited(Some(w)) && w.total() <= 10_000_000_000 && w.total() != 0 ==> wait_before(
            e,
            attempt,
        ) == w.total(),
        e == LlmErrorView::RateLimited(Some(w)) && w.total() > 10_000_000_000 ==> wait_before(
            e,
            attempt,
        ) == 10_000_000_000,
        !(e is RateLimited) ==> wait_before(e, 0) == 250_000_000,
        !(e is RateLimited) && attempt < 5 ==> wait_before(e, (attempt + 1) as u32) == 2
            * wait_before(e, attempt),
        !(e is RateLimited) && attempt >= 5 ==> wait_before(e, attempt) == 8_000_000_000,
{
    reveal_with_fuel(crate::provider::doubled_up_to, 7);
}

/// A call is tried again after a failure that can pass, so long as tries are left.
pub proof fn law_when_to_try_again(outcome: OutcomeView, attempt: u32, max: u32)
    ensures
        tries_again(outcome, attempt, max) <==> attempt < max && (match outcome {
            OutcomeView::Error(LlmErrorView::Network(_)) => true,
            OutcomeView::Error(LlmErrorView::Server(_, _)) => true,
            OutcomeView::Error(LlmErrorView::RateLimited(_)) => true,
            _ => false,
        }),
{
}

/// All sessions that have a round under way are told to stop; the others stay.
pub proof fn law_all_are_interrupted(items: Seq<(KeyView, SessionView)>, i: int)
    requires
        0 <= i < items.len(),
    ensures
        crate::engine::all_interrupted(items).len() == items.len(),
        crate::engine::all_interrupted(items)[i].0 == items[i].0,
        items[i].1.state is Idle ==> crate::engine::all_interrupted(items)[i] == items[i],
        !(items[i].1.state is Idle) ==> crate::engine::all_interrupted(items)[i].1.interrupt
            && crate::engine::all_interrupted(items)[i].1.log == items[i].1.log,
{
}

/// What a known answer reports is added to what the chat has used; a round that asks the
/// model adds nothing yet.
pub proof fn law_usage_of_a_round(
    e: EngineView,
    run: ChatRun,
    round: RoundStartView,
    now: u64,
    s: SessionView,
)
    requires
        e.session(run.session_id) == Some(s),
    ensures
        e.entered_run(run, round, now).rounds_used == run.rounds_used,
        e.entered_run(run, round, now).session_id == run.session_id,
        s.interrupt || run.streaming || e.cache is None ==> e.entered_run(run, round, now) == run,
        !s.interrupt && !run.streaming ==> (e.cache matches Some(c) ==> ({
            let key = crate::cache::request_key(round.request, e.provider.id);
            &&& c.answer(key, now) is None ==> e.entered_run(run, round, now) == run
            &&& c.answer(key, now) matches Some(r) ==> e.entered_run(run, round, now).usage_sum
                == summed(run.usage_sum, r.usage)
        })),
{
}

/// A chat that goes on after its tools has one more round; one that ends has not.
pub proof fn law_rounds_after_tools(
    e: EngineView,
    run: ChatRun,
    round: ToolRoundView,
    results: Seq<ExecutedToolView>,
    now: u64,
    s: SessionView,
)
    requires
        e.session(run.session_id) == Some(s),
        s.state is AwaitingCalls,
        ordered(s.state->tool_results),
        run.rounds_used < u32::MAX,
    ensures
        round.waiting.len() == 0 ==> e.tools_run(run, round, results, now) == run,
        e.after_tools(run, round, results, now).1 is Call ==> e.tools_run(
            run,
            round,
            results,
            now,
        ).rounds_used == run.rounds_used + 1 && e.tools_run(run, round, results, now).usage_sum
            == run.usage_sum,
{
    let id = run.session_id;
    let t = answer_results(s, results);
    lemma_results_keep(s, results, Seq::empty());
    lemma_results_stay(s, results);
    lemma_put(e, id, t, id);
    let taken = e.with_session(id, t);
    lemma_put(taken, id, t.resumed(), id);
}

/// Sessions are found under their identities, each under its own.
pub proof fn law_identities(a: SessionId, b: SessionId)
    ensures
        session_key(a) == session_key(b) <==> a == b,
        id_of(session_key(a)) == a,
{
}

/// The system prompt counts for what is always sent: the one of the chat, or else the one
/// that is set.
pub proof fn law_system_prompt_counts(
    e: EngineView,
    id: SessionId,
    m: MessageView,
    options: ChatOptionsView,
    depth: u32,
    now: u64,
    s: SessionView,
    text: Seq<char>,
    system: Seq<char>,
)
    requires
        e.session(id) == Some(s),
        m.content == MessageContentView::Text(text),
        options.system_prompt == Some(system) || options.system_prompt is None
            && s.config.default_system_prompt == Some(system),
        estimate(system) + estimate(text) <= u64::MAX,
        e.config.budget.session_limit == 0,
        e.config.budget.global_limit == 0,
    ensures
        ({
            let answer = e.begun(id, m, options, depth, now).1;
            let window = e.provider.model_spec.context_window_tokens;
            let cost = estimate(system) + estimate(text);
            &&& cost >= window ==> answer == Err::<RoundStartView, EngineStartError>(
                EngineStartError::PromptTooLarge { estimated: cost as u64, window },
            )
            &&& cost < window && s.state is Idle && s.log.facts.len() < s.log.max_events
                ==> answer is Ok
        }),
{
}

/// A call whose session is gone is counted, and ends as it came.
pub proof fn law_session_is_gone(
    e: EngineView,
    run: ChatRun,
    turn: u64,
    key: Option<KeyView>,
    r: ChatResponseView,
    x: LlmErrorView,
    now: u64,
)
    requires
        e.session(run.session_id) is None,
    ensures
        e.after_call(run, turn, key, OutcomeView::Success(r), now).1 == ChatStepView::Done(
            EngineReplyView::Error(EngineErrorView::TurnIncomplete),
        ),
        e.after_call(run, turn, key, OutcomeView::Error(x), now).1 == ChatStepView::Done(
            EngineReplyView::Error(EngineErrorView::Llm(x)),
        ),
        r.usage matches Some(u) ==> (e.total + u.total_tokens <= u64::MAX ==> e.after_call(
            run,
            turn,
            key,
            OutcomeView::Success(r),
            now,
        ).0.total == e.total + u.total_tokens),
{
}

} // verus!
