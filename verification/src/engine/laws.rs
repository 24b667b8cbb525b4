//! What holds of every chat.

use vstd::prelude::*;

use crate::engine::{
    answer_all, answer_plan, answer_results, barred, by_bar, interrupted, plan_calls, session_key,
    stale, survivors, ChatRun, ChatStepView, EngineView, ToolRoundView,
};
use crate::engine::reply::{EngineErrorView, EngineReplyView, EngineStartError};
use crate::provider::{MessageView, ToolCallView};
use crate::session::message::{ChatOptionsView, SessionId};
use crate::session::{law_without_id, OutcomeView, RoundStartView, SessionView, StateView};
use crate::table::{law_lookup_put, KeyView};
use crate::time::Duration;
use crate::tool::executor::{chosen, law_split, ExecutedToolView, ToolOutcome};
use crate::tool::registry::ToolRegistryView;

verus! {

/// What is seen of the sessions after a change of one.
proof fn lemma_seen(e: EngineView, id: SessionId, s: SessionView, other: SessionId)
    ensures
        e.with_session(id, s).session(other) == (if other == id {
            Some(s)
        } else {
            e.session(other)
        }),
{
    law_lookup_put(e.sessions, session_key(id), s, session_key(other));
}

/// Answers leave a session where it stands: it goes on awaiting.
proof fn lemma_still_awaiting(s: SessionView, calls: Seq<ToolCallView>, text: Seq<char>)
    ensures
        answer_all(s, calls, text).state is AwaitingCalls <==> s.state is AwaitingCalls,
        answer_all(s, calls, text).peer_depth == s.peer_depth,
        answer_all(s, calls, text).log == s.log,
        answer_all(s, calls, text).consumed_tokens == s.consumed_tokens,
    decreases calls.len(),
{
    if calls.len() > 0 {
        lemma_still_awaiting(s, calls.drop_last(), text);
    }
}

/// As above, for results.
proof fn lemma_results_awaiting(s: SessionView, results: Seq<ExecutedToolView>)
    ensures
        answer_results(s, results).state is AwaitingCalls <==> s.state is AwaitingCalls,
        answer_results(s, results).log == s.log,
    decreases results.len(),
{
    if results.len() > 0 {
        lemma_results_awaiting(s, results.drop_last());
    }
}

/// Where a session stands after a step: idle once the chat is over, thinking of
/// the round that the model is called for, and awaiting calls that are run.
pub open spec fn stands(e: EngineView, id: SessionId, step: ChatStepView) -> bool {
    e.session(id) matches Some(s) && match step {
        ChatStepView::Done(_) => !s.busy(),
        ChatStepView::Call(turn, _, _) => s.thinks(turn),
        ChatStepView::Tools(_) => s.state is AwaitingCalls,
    }
}

/// However a call of the model ends, its session is never left behind: the chat
/// is over and the session idle, or its tool calls are awaited.
pub proof fn law_call_leaves_nothing_behind(
    e: EngineView,
    run: ChatRun,
    turn: u64,
    key: Option<KeyView>,
    outcome: OutcomeView,
    now: u64,
)
    requires
        e.session(run.session_id) matches Some(s) && s.thinks(turn),
    ensures
        ({
            let (after, step) = e.after_call(run, turn, key, outcome, now);
            stands(after, run.session_id, step) && !(step is Call)
        }),
{
    let id = run.session_id;
    let counted = e.accounted(outcome, key, now);
    let s = e.session(id)->0;
    let t = s.finished(turn, outcome);
    let done = counted.with_session(id, t);
    lemma_seen(counted, id, t, id);
    lemma_seen(done, id, SessionView { state: StateView::Idle, ..t }, id);
    if let Some(resp) = outcome.response() {
        let calls = resp.message.tool_calls;
        let plan = done.plan(id, calls);
        let max = done.executor->0.max_per_turn;
        lemma_still_awaiting(t, plan.blocked, crate::engine::depth_limit_message());
        let a = answer_all(t, plan.blocked, crate::engine::depth_limit_message());
        lemma_still_awaiting(a, plan.cut, crate::engine::too_many_message(max));
        let b = answer_all(a, plan.cut, crate::engine::too_many_message(max));
        lemma_still_awaiting(b, plan.dispatched, crate::engine::dispatched_message());
        lemma_seen(done, id, answer_plan(t, plan, max), id);
    }
}

/// The same of a round that begins.
pub proof fn law_round_leaves_nothing_behind(
    e: EngineView,
    run: ChatRun,
    round: RoundStartView,
    now: u64,
)
    requires
        e.session(run.session_id) matches Some(s) && s.thinks(round.turn_id),
    ensures
        ({
            let (after, step) = e.entered(run, round, now);
            stands(after, run.session_id, step)
        }),
{
    let id = run.session_id;
    let s = e.session(id)->0;
    lemma_seen(e, id, s.finished(round.turn_id, OutcomeView::Cancelled), id);
    let key = e.cache_key(round.request, run.streaming);
    if !e.told_to_stop(id) {
        if let Some(k) = key {
            let asked = EngineView { cache: Some(e.cache->0.asked(k, now)), ..e };
            if let Some(resp) = e.cache->0.answer(k, now) {
                law_call_leaves_nothing_behind(
                    asked,
                    run,
                    round.turn_id,
                    key,
                    OutcomeView::Cached(resp),
                    now,
                );
            }
        }
    }
}

/// The same of the round after tool calls.
proof fn lemma_next_round(e: EngineView, run: ChatRun, now: u64)
    requires
        e.session(run.session_id) matches Some(s) && s.state is AwaitingCalls,
    ensures
        ({
            let (after, step) = e.next_round(run, now);
            stands(after, run.session_id, step)
        }),
{
    let id = run.session_id;
    let s = e.session(id)->0;
    lemma_seen(e, id, s.settled(), id);
    lemma_seen(e, id, s.resumed(), id);
    if !e.limit_reached(run.rounds_used) {
        let round = RoundStartView {
            turn_id: s.resumed().turn_id,
            request: s.resumed().request(s.options),
        };
        law_round_leaves_nothing_behind(
            e.with_session(id, s.resumed()),
            crate::engine::one_more_round(run),
            round,
            now,
        );
    }
}

/// The same of tool calls that have ended, whatever came of them.
pub proof fn law_tools_leave_nothing_behind(
    e: EngineView,
    run: ChatRun,
    round: ToolRoundView,
    results: Seq<ExecutedToolView>,
    now: u64,
)
    requires
        e.session(run.session_id) matches Some(s) && s.state is AwaitingCalls,
    ensures
        ({
            let (after, step) = e.after_tools(run, round, results, now);
            stands(after, run.session_id, step)
        }),
{
    let id = run.session_id;
    let s = e.session(id)->0;
    lemma_seen(e, id, s.settled(), id);
    let t = answer_results(s, results);
    lemma_results_awaiting(s, results);
    lemma_seen(e, id, t, id);
    let taken = e.with_session(id, t);
    lemma_seen(taken, id, t.settled(), id);
    lemma_next_round(taken, run, now);
}

/// Whether two engines have the same session of an identity.
pub open spec fn untouched(a: EngineView, b: EngineView, id: SessionId) -> bool {
    a.session(id) == b.session(id)
}

/// No step of a chat touches another session.
pub proof fn law_sessions_are_apart(
    e: EngineView,
    run: ChatRun,
    turn: u64,
    key: Option<KeyView>,
    outcome: OutcomeView,
    round: RoundStartView,
    tools: ToolRoundView,
    results: Seq<ExecutedToolView>,
    now: u64,
    other: SessionId,
)
    requires
        other != run.session_id,
    ensures
        untouched(e.after_call(run, turn, key, outcome, now).0, e, other),
        untouched(e.entered(run, round, now).0, e, other),
        untouched(e.after_tools(run, tools, results, now).0, e, other),
{
    lemma_apart_after_call(e, run, turn, key, outcome, now, other);
    lemma_apart_entered(e, run, round, now, other);
    let id = run.session_id;
    if let Some(s) = e.session(id) {
        lemma_seen(e, id, s.settled(), other);
        let t = answer_results(s, results);
        lemma_seen(e, id, t, other);
        lemma_seen(e, id, t, id);
        let taken = e.with_session(id, t);
        lemma_seen(taken, id, t.settled(), other);
        lemma_apart_next(taken, run, now, other);
    } else {
        lemma_apart_next(e, run, now, other);
    }
}

proof fn lemma_apart_after_call(
    e: EngineView,
    run: ChatRun,
    turn: u64,
    key: Option<KeyView>,
    outcome: OutcomeView,
    now: u64,
    other: SessionId,
)
    requires
        other != run.session_id,
    ensures
        untouched(e.after_call(run, turn, key, outcome, now).0, e, other),
{
    let id = run.session_id;
    let counted = e.accounted(outcome, key, now);
    if let Some(s) = counted.session(id) {
        let t = s.finished(turn, outcome);
        let done = counted.with_session(id, t);
        lemma_seen(counted, id, t, other);
        lemma_seen(counted, id, t, id);
        lemma_seen(done, id, SessionView { state: StateView::Idle, ..t }, other);
        if let Some(resp) = outcome.response() {
            let calls = resp.message.tool_calls;
            lemma_seen(
                done,
                id,
                answer_plan(t, done.plan(id, calls), done.executor->0.max_per_turn),
                other,
            );
        }
    }
}

proof fn lemma_apart_entered(
    e: EngineView,
    run: ChatRun,
    round: RoundStartView,
    now: u64,
    other: SessionId,
)
    requires
        other != run.session_id,
    ensures
        untouched(e.entered(run, round, now).0, e, other),
{
    let id = run.session_id;
    if e.told_to_stop(id) {
        lemma_seen(
            e,
            id,
            e.session(id)->0.finished(round.turn_id, OutcomeView::Cancelled),
            other,
        );
    } else {
        let key = e.cache_key(round.request, run.streaming);
        if let Some(k) = key {
            let asked = EngineView { cache: Some(e.cache->0.asked(k, now)), ..e };
            if let Some(resp) = e.cache->0.answer(k, now) {
                lemma_apart_after_call(
                    asked,
                    run,
                    round.turn_id,
                    key,
                    OutcomeView::Cached(resp),
                    now,
                    other,
                );
            }
        }
    }
}

proof fn lemma_apart_next(e: EngineView, run: ChatRun, now: u64, other: SessionId)
    requires
        other != run.session_id,
    ensures
        untouched(e.next_round(run, now).0, e, other),
{
    let id = run.session_id;
    if let Some(s) = e.session(id) {
        lemma_seen(e, id, s.settled(), other);
        lemma_seen(e, id, s.resumed(), other);
        if !e.limit_reached(run.rounds_used) && s.state is AwaitingCalls {
            let round = RoundStartView {
                turn_id: s.resumed().turn_id,
                request: s.resumed().request(s.options),
            };
            lemma_apart_entered(
                e.with_session(id, s.resumed()),
                crate::engine::one_more_round(run),
                round,
                now,
                other,
            );
        }
    }
}

/// A chat that is refused leaves every conversation as it was, and nothing is
/// counted.
pub proof fn law_refusal_leaves_no_trace(
    e: EngineView,
    id: SessionId,
    message: MessageView,
    options: ChatOptionsView,
    depth: u32,
    now: u64,
    other: SessionId,
)
    requires
        e.begun(id, message, options, depth, now).1 is Err,
    ensures
        ({
            let after = e.begun(id, message, options, depth, now).0;
            &&& after.total == e.total
            &&& e.session(other) is Some ==> untouched(after, e, other)
            &&& e.session(other) is None && after.session(other) is Some ==> {
                &&& other == id
                &&& after.session(other)->0.log.facts.len() == 0
                &&& !after.session(other)->0.busy()
            }
        }),
{
    lemma_seen(
        e,
        id,
        SessionView { session_id: id, ..SessionView::fresh(e.config.session, now) },
        other,
    );
}

/// A chat in a session with a round under way is refused, whatever it says,
/// unless it is refused for a budget or its size before.
pub proof fn law_busy_is_refused(
    e: EngineView,
    id: SessionId,
    message: MessageView,
    options: ChatOptionsView,
    depth: u32,
    now: u64,
)
    requires
        e.session(id) matches Some(s) && s.busy(),
    ensures
        e.begun(id, message, options, depth, now).0 == e,
        match e.begun(id, message, options, depth, now).1 {
            Ok(_) => false,
            Err(x) => x is Busy || x is Budget || x is PromptTooLarge,
        },
{
}

/// A chat that begins has a round under way of the number that is handed out.
pub proof fn law_begun_is_under_way(
    e: EngineView,
    id: SessionId,
    message: MessageView,
    options: ChatOptionsView,
    depth: u32,
    now: u64,
)
    requires
        e.begun(id, message, options, depth, now).1 is Ok,
    ensures
        ({
            let (after, answer) = e.begun(id, message, options, depth, now);
            &&& after.session(id) matches Some(s)
            &&& s.thinks(answer->Ok_0.turn_id)
            &&& !s.interrupt
            &&& s.peer_depth == depth
        }),
{
    let fresh = SessionView { session_id: id, ..SessionView::fresh(e.config.session, now) };
    lemma_seen(e, id, fresh, id);
    let there = e.ensured(id, now)->0;
    let offered = crate::engine::effective_options(
        options,
        e.tools,
        depth,
        e.config.max_subagent_depth,
    );
    lemma_seen(there, id, there.session(id)->0.started(message, offered, depth, now), id);
}

/// The sessions never grow beyond their bound: a chat for one more is refused.
pub proof fn law_full_engine_refuses(
    e: EngineView,
    id: SessionId,
    message: MessageView,
    options: ChatOptionsView,
    depth: u32,
    now: u64,
)
    requires
        e.session(id) is None,
        e.sessions.len() >= e.config.max_sessions,
    ensures
        e.begun(id, message, options, depth, now) == (
            e,
            Err::<RoundStartView, EngineStartError>(EngineStartError::MaxSessions),
        ),
{
}

/// A chat calls the model no more often than it may.
pub proof fn law_rounds_are_bounded(
    e: EngineView,
    run: ChatRun,
    round: ToolRoundView,
    results: Seq<ExecutedToolView>,
    now: u64,
    max: u32,
)
    requires
        e.config.session.max_rounds_per_chat == Some(max),
        run.rounds_used >= max,
    ensures
        e.after_tools(run, round, results, now).1 is Done,
        round.waiting.len() > 0 && !crate::engine::ends_chat(e.tools, round, results)
            ==> e.after_tools(run, round, results, now).1 == ChatStepView::Done(
            EngineReplyView::Error(EngineErrorView::MaxRoundsExceeded(run.rounds_used)),
        ),
{
}

/// An answer from the cache uses nothing up, and it is the answer that was kept.
pub proof fn law_cached_answer_is_free(
    e: EngineView,
    run: ChatRun,
    round: RoundStartView,
    now: u64,
    k: KeyView,
)
    requires
        e.session(run.session_id) matches Some(s) && s.thinks(round.turn_id) && !s.interrupt,
        e.cache_key(round.request, run.streaming) == Some(k),
        e.cache->0.answer(k, now) is Some,
    ensures
        ({
            let (after, step) = e.entered(run, round, now);
            let resp = e.cache->0.answer(k, now)->0;
            &&& !(step is Call)
            &&& after.total == e.total
            &&& after.session(run.session_id) matches Some(t)
            &&& t.consumed_tokens == e.session(run.session_id)->0.consumed_tokens
            &&& resp.message.tool_calls.len() == 0 ==> step == ChatStepView::Done(
                EngineReplyView::Success(resp),
            )
        }),
{
    let id = run.session_id;
    let resp = e.cache->0.answer(k, now)->0;
    let outcome = OutcomeView::Cached(resp);
    let asked = EngineView { cache: Some(e.cache->0.asked(k, now)), ..e };
    law_call_leaves_nothing_behind(asked, run, round.turn_id, Some(k), outcome, now);
    let s = e.session(id)->0;
    let t = s.finished(round.turn_id, outcome);
    lemma_seen(asked, id, t, id);
    let done = asked.with_session(id, t);
    lemma_seen(done, id, SessionView { state: StateView::Idle, ..t }, id);
    let plan = done.plan(id, resp.message.tool_calls);
    let max = done.executor->0.max_per_turn;
    let a = answer_all(t, plan.blocked, crate::engine::depth_limit_message());
    let b = answer_all(a, plan.cut, crate::engine::too_many_message(max));
    lemma_still_awaiting(t, plan.blocked, crate::engine::depth_limit_message());
    lemma_still_awaiting(a, plan.cut, crate::engine::too_many_message(max));
    lemma_still_awaiting(b, plan.dispatched, crate::engine::dispatched_message());
    lemma_seen(done, id, answer_plan(t, plan, max), id);
}

/// A chat that was told to stop makes no further call of the model.
pub proof fn law_interrupted_chat_stops(
    e: EngineView,
    run: ChatRun,
    round: RoundStartView,
    now: u64,
)
    requires
        e.session(run.session_id) matches Some(s) && s.busy(),
    ensures
        ({
            let told = e.with_session(run.session_id, interrupted(e.session(run.session_id)->0));
            told.entered(run, round, now).1 == ChatStepView::Done(EngineReplyView::Cancelled)
        }),
{
    let id = run.session_id;
    lemma_seen(e, id, interrupted(e.session(id)->0), id);
}

/// A call of the model that was told to stop and fails ends its chat as
/// cancelled.
pub proof fn law_interrupted_call_is_cancelled(
    e: EngineView,
    run: ChatRun,
    turn: u64,
    key: Option<KeyView>,
    outcome: OutcomeView,
    now: u64,
)
    requires
        e.told_to_stop(run.session_id),
        outcome.response() is None,
    ensures
        e.after_call(run, turn, key, outcome, now).1 == ChatStepView::Done(
            EngineReplyView::Cancelled,
        ),
{
}

// ---------------------------------------------------------------------------
// Tool calls

/// Parting by what the depth allows keeps every call, once.
proof fn lemma_by_bar(calls: Seq<ToolCallView>, registry: ToolRegistryView)
    ensures
        by_bar(calls, registry, true).to_multiset().add(
            by_bar(calls, registry, false).to_multiset(),
        ) == calls.to_multiset(),
    decreases calls.len(),
{
    broadcast use vstd::seq_lib::group_to_multiset_ensures;

    let y = by_bar(calls, registry, true);
    let n = by_bar(calls, registry, false);
    if calls.len() == 0 {
        assert(y.to_multiset().add(n.to_multiset()) =~= calls.to_multiset());
    } else {
        let before = calls.drop_last();
        lemma_by_bar(before, registry);
        assert(calls =~= before.push(calls.last()));
        assert(y.to_multiset().add(n.to_multiset()) =~= calls.to_multiset());
    }
}

/// Every call of a response is refused, cut off, waited for or dispatched, and
/// only one of these.
pub proof fn law_every_call_is_planned(
    calls: Seq<ToolCallView>,
    registry: ToolRegistryView,
    max_per_turn: usize,
    at_limit: bool,
)
    ensures
        ({
            let p = plan_calls(calls, registry, max_per_turn, at_limit);
            p.blocked.to_multiset().add(p.cut.to_multiset()).add(p.waiting.to_multiset()).add(
                p.dispatched.to_multiset(),
            ) == calls.to_multiset()
        }),
{
    broadcast use vstd::seq_lib::group_to_multiset_ensures;

    let p = plan_calls(calls, registry, max_per_turn, at_limit);
    lemma_by_bar(calls, registry);
    let rest = if at_limit {
        by_bar(calls, registry, false)
    } else {
        calls
    };
    let head = if rest.len() <= max_per_turn {
        rest
    } else {
        rest.take(max_per_turn as int)
    };
    law_split(head, registry);
    assert(head + p.cut =~= rest);
    vstd::seq_lib::lemma_multiset_commutative(head, p.cut);
    assert(p.blocked.to_multiset().add(p.cut.to_multiset()).add(p.waiting.to_multiset()).add(
        p.dispatched.to_multiset(),
    ) =~= calls.to_multiset());
}

/// No more calls of a response are run than may be, and where the depth is
/// reached none that calls another agent.
pub proof fn law_plan_is_bounded(
    calls: Seq<ToolCallView>,
    registry: ToolRegistryView,
    max_per_turn: usize,
    at_limit: bool,
    call: ToolCallView,
)
    ensures
        ({
            let p = plan_calls(calls, registry, max_per_turn, at_limit);
            &&& p.waiting.len() + p.dispatched.len() <= max_per_turn
            &&& at_limit && (p.waiting.contains(call) || p.dispatched.contains(call)) ==> !barred(
                call,
                registry,
            )
        }),
{
    let p = plan_calls(calls, registry, max_per_turn, at_limit);
    let rest = if at_limit {
        by_bar(calls, registry, false)
    } else {
        calls
    };
    let head = if rest.len() <= max_per_turn {
        rest
    } else {
        rest.take(max_per_turn as int)
    };
    law_split(head, registry);
    lemma_chosen_from(head, registry, true, call);
    lemma_chosen_from(head, registry, false, call);
    if at_limit && head.contains(call) {
        let i = choose|i: int| 0 <= i < head.len() && head[i] == call;
        assert(rest[i] == call);
        lemma_allowed(calls, registry, i);
    }
}

proof fn lemma_chosen_from(
    calls: Seq<ToolCallView>,
    registry: ToolRegistryView,
    wait: bool,
    call: ToolCallView,
)
    ensures
        chosen(calls, registry, wait).contains(call) ==> calls.contains(call),
    decreases calls.len(),
{
    let c = chosen(calls, registry, wait);
    if calls.len() > 0 && c.contains(call) {
        let before = calls.drop_last();
        let b = chosen(before, registry, wait);
        lemma_chosen_from(before, registry, wait, call);
        let i = choose|i: int| 0 <= i < c.len() && c[i] == call;
        if i < b.len() {
            assert(b[i] == call);
            let j = choose|j: int| 0 <= j < before.len() && before[j] == call;
            assert(calls[j] == call);
        } else {
            assert(calls[calls.len() - 1] == call);
        }
    }
}

proof fn lemma_allowed(calls: Seq<ToolCallView>, registry: ToolRegistryView, i: int)
    requires
        0 <= i < by_bar(calls, registry, false).len(),
    ensures
        !barred(by_bar(calls, registry, false)[i], registry),
    decreases calls.len(),
{
    let before = by_bar(calls.drop_last(), registry, false);
    if i < before.len() {
        lemma_allowed(calls.drop_last(), registry, i);
    }
}

/// Whether a list of calls has one of an id.
pub open spec fn has_id(calls: Seq<ToolCallView>, id: Seq<char>) -> bool {
    exists|i: int| 0 <= i < calls.len() && (#[trigger] calls[i]).id == id
}

/// What is awaited once calls are answered: what was, without these.
pub proof fn law_answers_are_taken(
    s: SessionView,
    calls: Seq<ToolCallView>,
    text: Seq<char>,
    id: Seq<char>,
)
    ensures
        answer_all(s, calls, text).awaiting(id) <==> s.awaiting(id) && !has_id(calls, id),
    decreases calls.len(),
{
    if calls.len() > 0 {
        let before = calls.drop_last();
        law_answers_are_taken(s, before, text, id);
        let t = answer_all(s, before, text);
        let last = calls.last().id;
        if let StateView::AwaitingCalls { pending, .. } = t.state {
            law_without_id(pending, last, id);
        }
        if has_id(before, id) {
            let i = choose|i: int| 0 <= i < before.len() && (#[trigger] before[i]).id == id;
            assert(calls[i].id == id);
        }
        if last == id {
            assert(calls[calls.len() - 1].id == id);
        }
        if has_id(calls, id) && last != id {
            let i = choose|i: int| 0 <= i < calls.len() && (#[trigger] calls[i]).id == id;
            assert(before[i].id == id);
        }
    }
}

/// As above, for results.
pub proof fn law_results_are_taken(s: SessionView, results: Seq<ExecutedToolView>, id: Seq<char>)
    ensures
        answer_results(s, results).awaiting(id) <==> s.awaiting(id) && !(exists|i: int|
            0 <= i < results.len() && (#[trigger] results[i]).tool_call_id == id),
    decreases results.len(),
{
    if results.len() > 0 {
        let before = results.drop_last();
        law_results_are_taken(s, before, id);
        let t = answer_results(s, before);
        let last = results.last().tool_call_id;
        if let StateView::AwaitingCalls { pending, .. } = t.state {
            law_without_id(pending, last, id);
        }
        if exists|i: int| 0 <= i < before.len() && (#[trigger] before[i]).tool_call_id == id {
            let i = choose|i: int|
                0 <= i < before.len() && (#[trigger] before[i]).tool_call_id == id;
            assert(results[i].tool_call_id == id);
        }
        if last == id {
            assert(results[results.len() - 1].tool_call_id == id);
        } else if exists|i: int|
            0 <= i < results.len() && (#[trigger] results[i]).tool_call_id == id {
            let i = choose|i: int|
                0 <= i < results.len() && (#[trigger] results[i]).tool_call_id == id;
            assert(before[i].tool_call_id == id);
        }
    }
}

/// A tool that failed, was cancelled, ran out of time or broke down never ends
/// the chat: the model is told and may correct itself.
pub proof fn law_failure_goes_back_to_the_model(
    tools: Option<ToolRegistryView>,
    round: ToolRoundView,
    results: Seq<ExecutedToolView>,
    i: int,
)
    requires
        0 <= i < results.len(),
        results[i].failed || results[i].outcome != ToolOutcome::Completed,
    ensures
        !crate::engine::ends_chat(tools, round, results),
{
    assert(!crate::engine::succeeded(results[i]));
}

// ---------------------------------------------------------------------------
// Idle sessions

/// A session survives exactly where it has not been idle for so long; one with a
/// round under way always does.
pub proof fn law_survivors(
    items: Seq<(KeyView, SessionView)>,
    now: u64,
    idle_timeout: Duration,
    entry: (KeyView, SessionView),
)
    ensures
        survivors(items, now, idle_timeout).contains(entry) <==> items.contains(entry) && !stale(
            entry.1,
            now,
            idle_timeout,
        ),
        entry.1.busy() ==> !stale(entry.1, now, idle_timeout),
    decreases items.len(),
{
    let kept = survivors(items, now, idle_timeout);
    if items.len() > 0 {
        let before = items.drop_last();
        let b = survivors(before, now, idle_timeout);
        law_survivors(before, now, idle_timeout, entry);
        if kept.contains(entry) {
            let i = choose|i: int| 0 <= i < kept.len() && kept[i] == entry;
            if i < b.len() {
                assert(b[i] == entry);
                let j = choose|j: int| 0 <= j < before.len() && before[j] == entry;
                assert(items[j] == entry);
            } else {
                assert(items[items.len() - 1] == entry);
            }
        }
        if items.contains(entry) && !stale(entry.1, now, idle_timeout) {
            let i = choose|i: int| 0 <= i < items.len() && items[i] == entry;
            if i < before.len() {
                assert(before[i] == entry);
                let j = choose|j: int| 0 <= j < b.len() && b[j] == entry;
                assert(kept[j] == entry);
            } else {
                assert(kept[b.len() as int] == entry);
            }
        }
    }
}

} // verus!
