//! What a session records, and in which order.

use vstd::prelude::*;
use vstd::string::*;

use crate::provider::{
    ChatResponseView, MessageContentView, MessageView, Role, ThinkingConfig, ToolCallView,
};
use crate::session::log::last_of;
use crate::session::message::ChatOptionsView;
use crate::session::{
    awaits, injected_messages, law_pending_of, law_put_result, ordered, pending_of, put_result,
    result_messages, result_of, without_id, FinishActionView, OutcomeView, SessionConfigView,
    SessionView, StateView, ToolCallAction, MAX_PENDING_INJECTIONS,
};

verus! {

broadcast use vstd::string::group_string_axioms;

/// A response that came from the model, or that was known already.
pub open spec fn answers_with(outcome: OutcomeView, r: ChatResponseView) -> bool {
    outcome == OutcomeView::Success(r) || outcome == OutcomeView::Cached(r)
}

/// A call of an id stands among calls.
pub open spec fn calls_id(calls: Seq<ToolCallView>, id: Seq<char>) -> bool {
    exists|j: int| 0 <= j < calls.len() && (#[trigger] calls[j]).id == id
}

/// A response that is taken for the round under way is recorded as it is, behind what
/// was recorded before. The session then waits for exactly the calls of the response,
/// and is idle where there are none. Only a response that came from the model costs
/// tokens, and nothing else changes.
pub proof fn law_response_is_recorded(
    s: SessionView,
    turn: u64,
    outcome: OutcomeView,
    r: ChatResponseView,
    id: Seq<char>,
)
    requires
        s.state matches StateView::Thinking { turn_id, .. } && turn_id == turn,
        s.log.facts.len() < s.log.max_events,
        answers_with(outcome, r),
    ensures
        ({
            let t = s.finished(turn, outcome);
            let m = t.log.facts[s.log.facts.len() as int];
            &&& t.log.facts == s.log.facts + seq![r.message]
            &&& t.log.max_events == s.log.max_events
            &&& m.role == r.message.role
            &&& m.content == r.message.content
            &&& m.reasoning_content == r.message.reasoning_content
            &&& m.tool_calls == r.message.tool_calls
            &&& m.tool_call_id == r.message.tool_call_id
            &&& m.usage == r.message.usage
            &&& r.message.tool_calls.len() == 0 ==> t.state is Idle && s.finish_action(
                turn,
                outcome,
            ) == FinishActionView::Idle(Some(r))
            &&& r.message.tool_calls.len() > 0 ==> {
                &&& t.state matches StateView::AwaitingCalls { turn_id, pending, tool_results }
                &&& turn_id == turn
                &&& tool_results.len() == 0
                &&& t.awaiting(id) <==> calls_id(r.message.tool_calls, id)
                &&& s.finish_action(turn, outcome) == FinishActionView::AwaitingCalls(r)
            }
            &&& outcome is Cached ==> t.consumed_tokens == s.consumed_tokens
            &&& outcome is Success ==> (r.usage matches Some(u) ==> (s.consumed_tokens
                + u.total_tokens <= u64::MAX ==> t.consumed_tokens == s.consumed_tokens
                + u.total_tokens))
            &&& outcome is Success ==> (r.usage is None ==> t.consumed_tokens == s.consumed_tokens)
            &&& t.session_id == s.session_id
            &&& t.turn_id == s.turn_id
            &&& t.config == s.config
            &&& t.interrupt == s.interrupt
            &&& t.peer_depth == s.peer_depth
            &&& t.options == s.options
            &&& t.injections == s.injections
            &&& t.last_active == s.last_active
        }),
{
    assert(s.log.facts.push(r.message) =~= s.log.facts + seq![r.message]);
    law_pending_of(r.message.tool_calls, id);
}

/// A round that fails, or one that is not under way any more, records nothing.
pub proof fn law_nothing_is_recorded(s: SessionView, turn: u64, outcome: OutcomeView)
    requires
        !(outcome is Success) && !(outcome is Cached) || !(s.state is Thinking) || s.state->Thinking_turn_id
            != turn,
    ensures
        s.finished(turn, outcome).log.facts == s.log.facts,
        s.finished(turn, outcome).consumed_tokens == s.consumed_tokens,
        s.finish_action(turn, outcome) == FinishActionView::Idle(None),
{
}

/// A session after some results came in.
pub open spec fn answered_all(s: SessionView, answers: Seq<(Seq<char>, Seq<char>)>) -> SessionView
    decreases answers.len(),
{
    if answers.len() == 0 {
        s
    } else {
        answered_all(s, answers.drop_last()).answered(answers.last().0, answers.last().1)
    }
}

/// Every call that is waited for, and every result that came in, is of one of some calls.
pub open spec fn of_calls(s: SessionView, calls: Seq<ToolCallView>) -> bool {
    s.state matches StateView::AwaitingCalls { pending, tool_results, .. } ==> {
        &&& forall|i: int|
            0 <= i < pending.len() ==> calls_id(calls, (#[trigger] pending[i]).0)
        &&& forall|i: int|
            0 <= i < tool_results.len() ==> calls_id(calls, (#[trigger] tool_results[i]).0)
    }
}

/// What is left of waiting was waited for.
proof fn lemma_without_id(
    pending: Seq<(Seq<char>, crate::session::PendingKind)>,
    id: Seq<char>,
    i: int,
)
    requires
        0 <= i < without_id(pending, id).len(),
    ensures
        pending.contains(without_id(pending, id)[i]),
        without_id(pending, id)[i].0 != id,
    decreases pending.len(),
{
    let before = pending.drop_last();
    if i < without_id(before, id).len() {
        lemma_without_id(before, id, i);
        let j = choose|j: int| 0 <= j < before.len() && before[j] == without_id(before, id)[i];
        assert(pending[j] == without_id(pending, id)[i]);
    } else {
        assert(pending[pending.len() - 1] == without_id(pending, id)[i]);
    }
}

/// Results keep to the calls.
proof fn lemma_answers_keep_to_calls(
    s: SessionView,
    answers: Seq<(Seq<char>, Seq<char>)>,
    calls: Seq<ToolCallView>,
)
    requires
        of_calls(s, calls),
        s.state is AwaitingCalls,
        ordered(s.state->tool_results),
    ensures
        of_calls(answered_all(s, answers), calls),
        answered_all(s, answers).log == s.log,
        answered_all(s, answers).injections == s.injections,
        answered_all(s, answers).config == s.config,
        answered_all(s, answers).state is AwaitingCalls,
        ordered(answered_all(s, answers).state->tool_results),
    decreases answers.len(),
{
    if answers.len() > 0 {
        let t = answered_all(s, answers.drop_last());
        lemma_answers_keep_to_calls(s, answers.drop_last(), calls);
        let id = answers.last().0;
        let text = answers.last().1;
        let pending = t.state->pending;
        let results = t.state->tool_results;
        if awaits(pending, id) {
            law_put_result(results, id, text, id);
            let k = choose|k: int| 0 <= k < pending.len() && (#[trigger] pending[k]).0 == id;
            assert(calls_id(calls, pending[k].0));
            assert forall|i: int| 0 <= i < without_id(pending, id).len() implies calls_id(
                calls,
                (#[trigger] without_id(pending, id)[i]).0,
            ) by {
                lemma_without_id(pending, id, i);
                let j = choose|j: int|
                    0 <= j < pending.len() && pending[j] == without_id(pending, id)[i];
                assert(calls_id(calls, pending[j].0));
            }
            let put = put_result(results, id, text);
            assert forall|i: int| 0 <= i < put.len() implies calls_id(
                calls,
                (#[trigger] put[i]).0,
            ) by {
                if put[i].0 != id {
                    let j = choose|j: int| 0 <= j < results.len() && #[trigger] results[j] == put[i];
                    assert(calls_id(calls, results[j].0));
                }
            }
        }
    }
}

/// The ids that are waited for are those of the calls.
proof fn lemma_pending_keeps_to_calls(calls: Seq<ToolCallView>, i: int)
    requires
        0 <= i < pending_of(calls).len(),
    ensures
        calls_id(calls, pending_of(calls)[i].0),
{
    law_pending_of(calls, pending_of(calls)[i].0);
    assert(awaits(pending_of(calls), pending_of(calls)[i].0));
}

/// Whatever results come in after a response, and in whatever order, every tool message
/// that resuming records stands behind the message of that response, whose calls hold
/// its id.
pub proof fn law_results_follow_their_calls(
    s: SessionView,
    turn: u64,
    outcome: OutcomeView,
    r: ChatResponseView,
    answers: Seq<(Seq<char>, Seq<char>)>,
    k: int,
)
    requires
        s.state matches StateView::Thinking { turn_id, .. } && turn_id == turn,
        s.log.facts.len() < s.log.max_events,
        answers_with(outcome, r),
        r.message.tool_calls.len() > 0,
        s.log.facts.len() < k < answered_all(
            s.finished(turn, outcome),
            answers,
        ).resumed().log.facts.len(),
    ensures
        ({
            let facts = answered_all(s.finished(turn, outcome), answers).resumed().log.facts;
            let asked = facts[s.log.facts.len() as int];
            &&& asked == r.message
            &&& facts[k].role == Role::Tool || facts[k].role == Role::User
            &&& facts[k].role == Role::Tool ==> (facts[k].tool_call_id matches Some(id)
                && exists|j: int|
                0 <= j < asked.tool_calls.len() && (#[trigger] asked.tool_calls[j]).id == id)
        }),
{
    let calls = r.message.tool_calls;
    let t = s.finished(turn, outcome);
    assert forall|i: int| 0 <= i < pending_of(calls).len() implies calls_id(
        calls,
        (#[trigger] pending_of(calls)[i]).0,
    ) by {
        lemma_pending_keeps_to_calls(calls, i);
    }
    lemma_answers_keep_to_calls(t, answers, calls);
    let u = answered_all(t, answers);
    let n = s.log.facts.len() as int;
    let results = u.state->tool_results;
    assert(u.log.facts == s.log.facts.push(r.message));
    let v = u.settled();
    let facts = u.resumed().log.facts;
    assert(v.log.facts[n] == r.message);
    assert(facts[n] == r.message);
    if k < v.log.facts.len() {
        assert(facts[k] == v.log.facts[k]);
        assert(v.log.facts[k] == result_messages(results)[k - n - 1]);
        let id = results[k - n - 1].0;
        assert(calls_id(calls, id));
        let j = choose|j: int| 0 <= j < calls.len() && (#[trigger] calls[j]).id == id;
        assert(facts[n].tool_calls[j].id == id);
    } else {
        assert(facts[k] == injected_messages(u.injections)[k - v.log.facts.len()]);
    }
}

/// A result that is waited for is recorded on resuming, once, with its text, as a
/// message of a tool; where the record has room.
pub proof fn law_result_is_recorded(s: SessionView, id: Seq<char>, text: Seq<char>)
    requires
        s.wf(),
        s.awaiting(id),
        s.log.facts.len() + s.answered(id, text).state->tool_results.len() <= s.log.max_events,
    ensures
        ({
            let facts = s.answered(id, text).resumed().log.facts;
            exists|k: int|
                {
                    &&& s.log.facts.len() <= k < facts.len()
                    &&& (#[trigger] facts[k]).role == Role::Tool
                    &&& facts[k].tool_call_id == Some(id)
                    &&& facts[k].content == MessageContentView::Text(text)
                    &&& facts[k].tool_calls.len() == 0
                    &&& facts[k].reasoning_content is None
                    &&& forall|l: int|
                        s.log.facts.len() <= l < facts.len() && l != k ==> (#[trigger] facts[l]).tool_call_id
                            != Some(id)
                }
        }),
{
    let t = s.answered(id, text);
    let results = t.state->tool_results;
    law_put_result(s.state->tool_results, id, text, id);
    lemma_result_stands(results, id);
    let i = choose|i: int| 0 <= i < results.len() && #[trigger] results[i] == (id, text);
    let n = s.log.facts.len() as int;
    let facts = t.resumed().log.facts;
    let v = t.settled().log.facts;
    assert(v == s.log.facts + result_messages(results));
    assert(forall|l: int| 0 <= l < v.len() ==> facts[l] == v[l]);
    assert(v[n + i] == result_messages(results)[i]);
    assert(facts[n + i].role == Role::Tool);
    assert forall|l: int| n <= l < facts.len() && l != n + i implies (#[trigger] facts[l]).tool_call_id
        != Some(id) by {
        if l < v.len() {
            assert(v[l] == result_messages(results)[l - n]);
            if results[l - n].0 == id {
                crate::text::law_precedes_total(id, id);
            }
        } else {
            assert(facts[l] == injected_messages(t.injections)[l - v.len()]);
        }
    }
}

/// A result that is found stands at a place.
proof fn lemma_result_stands(results: Seq<(Seq<char>, Seq<char>)>, id: Seq<char>)
    ensures
        result_of(results, id) matches Some(text) ==> exists|i: int|
            0 <= i < results.len() && #[trigger] results[i] == (id, text),
    decreases results.len(),
{
    if results.len() > 0 {
        if results[0].0 == id {
            assert(results[0] == (id, results[0].1));
        } else {
            let rest = results.drop_first();
            lemma_result_stands(rest, id);
            if let Some(text) = result_of(rest, id) {
                let i = choose|i: int| 0 <= i < rest.len() && #[trigger] rest[i] == (id, text);
                assert(results[i + 1] == (id, text));
            }
        }
    }
}

/// An answer to a call is taken where it is waited for, and the last of them says that
/// all is done; any other answer changes nothing.
pub proof fn law_answers_are_told(s: SessionView, id: Seq<char>, text: Seq<char>)
    requires
        s.wf(),
    ensures
        !s.awaiting(id) ==> s.answer_action(id) == ToolCallAction::Ignored && s.answered(id, text)
            == s,
        s.awaiting(id) && (exists|other: Seq<char>| other != id && #[trigger] s.awaiting(other))
            ==> s.answer_action(id) == ToolCallAction::Pending,
        s.awaiting(id) && (forall|other: Seq<char>| other != id ==> !#[trigger] s.awaiting(other))
            ==> s.answer_action(id) == ToolCallAction::AllDone,
{
    if s.awaiting(id) {
        let left = without_id(s.state->pending, id);
        if exists|other: Seq<char>| other != id && #[trigger] s.awaiting(other) {
            let other = choose|other: Seq<char>| other != id && #[trigger] s.awaiting(other);
            crate::session::law_without_id(s.state->pending, id, other);
        }
        if left.len() > 0 {
            lemma_without_id(s.state->pending, id, 0);
            let j = choose|j: int| 0 <= j < s.state->pending.len() && s.state->pending[j] == left[0];
            assert(s.state->pending[j].0 == left[0].0);
            assert(s.awaiting(left[0].0));
        }
    }
}

/// A round begins with its question recorded behind everything before it, and behind
/// the question, as messages of the user, what was injected since the last round.
pub proof fn law_question_is_recorded(
    s: SessionView,
    m: MessageView,
    options: ChatOptionsView,
    depth: u32,
    now: u64,
    i: int,
)
    requires
        s.wf(),
        s.state is Idle,
        s.log.facts.len() < s.log.max_events,
        s.log.facts.len() + 1 + s.injections.len() <= s.log.max_events,
        0 <= i < s.injections.len(),
    ensures
        ({
            let t = s.started(m, options, depth, now);
            let n = s.log.facts.len() as int;
            &&& s.can_start()
            &&& t.log.facts.len() == n + 1 + s.injections.len()
            &&& t.log.facts.take(n) == s.log.facts
            &&& t.log.facts[n] == m
            &&& t.log.facts[n + 1 + i].role == Role::User
            &&& t.log.facts[n + 1 + i].content == MessageContentView::Text(s.injections[i])
            &&& t.log.facts[n + 1 + i].tool_calls.len() == 0
            &&& t.log.facts[n + 1 + i].tool_call_id is None
            &&& t.injections.len() == 0
            &&& t.state == (StateView::Thinking { turn_id: t.turn_id, cancel: true })
            &&& t.turn_id != s.turn_id
            &&& !t.interrupt
            &&& t.last_active == now
            &&& t.options == options
            &&& t.peer_depth == depth
            &&& t.config == s.config
            &&& t.session_id == s.session_id
            &&& t.consumed_tokens == s.consumed_tokens
        }),
{
    let t = s.started(m, options, depth, now);
    assert(t.log.facts == s.log.facts.push(m) + injected_messages(s.injections));
    assert(t.log.facts.take(s.log.facts.len() as int) =~= s.log.facts);
}

/// A question with nothing injected is all that a round begins with.
pub proof fn law_question_alone(
    s: SessionView,
    m: MessageView,
    options: ChatOptionsView,
    depth: u32,
    now: u64,
)
    requires
        s.wf(),
        s.state is Idle,
        s.log.facts.len() < s.log.max_events,
        s.injections.len() == 0,
    ensures
        s.can_start(),
        s.started(m, options, depth, now).log.facts == s.log.facts.push(m),
        s.started(m, options, depth, now).turn_id != s.turn_id,
        s.started(m, options, depth, now).turn_id == s.turn_id + 1 || s.turn_id == u64::MAX,
        s.started(m, options, depth, now).state == (StateView::Thinking {
            turn_id: s.started(m, options, depth, now).turn_id,
            cancel: true,
        }),
        s.started(m, options, depth, now).options == options,
{
    assert(s.log.facts.push(m) + injected_messages(s.injections) =~= s.log.facts.push(m));
}

/// A busy session begins no round, nor does one whose record is full.
pub proof fn law_start_is_refused(s: SessionView)
    ensures
        s.can_start() <==> s.state is Idle && s.log.facts.len() < s.log.max_events,
{
}

/// On resuming the results are recorded behind the calls, then what was injected, and a
/// new round begins.
pub proof fn law_resuming_begins_a_round(s: SessionView)
    requires
        s.wf(),
        s.state is AwaitingCalls,
        s.log.facts.len() + s.state->tool_results.len() + s.injections.len() <= s.log.max_events,
    ensures
        ({
            let t = s.resumed();
            let n = s.log.facts.len() as int;
            let results = s.state->tool_results;
            &&& t.log.facts.len() == n + results.len() + s.injections.len()
            &&& t.log.facts.take(n) == s.log.facts
            &&& forall|i: int|
                n <= i < n + results.len() ==> {
                    &&& (#[trigger] t.log.facts[i]).role == Role::Tool
                    &&& t.log.facts[i].tool_call_id == Some(results[i - n].0)
                    &&& t.log.facts[i].content == MessageContentView::Text(results[i - n].1)
                }
            &&& forall|i: int|
                n + results.len() <= i < t.log.facts.len() ==> {
                    &&& (#[trigger] t.log.facts[i]).role == Role::User
                    &&& t.log.facts[i].content == MessageContentView::Text(
                        s.injections[i - n - results.len()],
                    )
                }
            &&& t.injections.len() == 0
            &&& t.turn_id != s.turn_id
            &&& t.state == (StateView::Thinking { turn_id: t.turn_id, cancel: true })
            &&& t.options == s.options
            &&& t.config == s.config
            &&& t.consumed_tokens == s.consumed_tokens
            &&& t.interrupt == s.interrupt
        }),
{
    let t = s.resumed();
    let n = s.log.facts.len() as int;
    let results = s.state->tool_results;
    let v = s.settled().log.facts;
    if n == s.log.max_events {
        assert(v =~= s.log.facts + result_messages(results));
    }
    assert(v == s.log.facts + result_messages(results));
    if v.len() == s.log.max_events {
        assert(t.log.facts =~= v + injected_messages(s.injections));
    }
    assert(t.log.facts == v + injected_messages(s.injections));
    assert(t.log.facts.take(n) =~= s.log.facts);
    assert forall|i: int| n <= i < n + results.len() implies {
        &&& (#[trigger] t.log.facts[i]).role == Role::Tool
        &&& t.log.facts[i].tool_call_id == Some(results[i - n].0)
        &&& t.log.facts[i].content == MessageContentView::Text(results[i - n].1)
    } by {
        assert(t.log.facts[i] == result_messages(results)[i - n]);
    }
    assert forall|i: int| n + results.len() <= i < t.log.facts.len() implies {
        &&& (#[trigger] t.log.facts[i]).role == Role::User
        &&& t.log.facts[i].content == MessageContentView::Text(s.injections[i - n - results.len()])
    } by {
        assert(t.log.facts[i] == injected_messages(s.injections)[i - n - results.len()]);
    }
}

/// What is injected is kept in its order; where too much waits, the oldest gives way.
pub proof fn law_injections_are_kept(s: SessionView, text: Seq<char>, now: u64)
    requires
        s.wf(),
    ensures
        text.len() == 0 ==> s.injected(text, now) == s,
        text.len() > 0 && s.injections.len() < 64 ==> s.injected(text, now).injections
            == s.injections.push(text),
        text.len() > 0 && s.injections.len() == 64 ==> s.injected(text, now).injections
            == s.injections.skip(1).push(text),
        text.len() > 0 ==> s.injected(text, now).last_active == now,
        s.injected(text, now).log == s.log,
        s.injected(text, now).state == s.state,
        s.injected(text, now).turn_id == s.turn_id,
{
    assert(s.injections.drop_first() =~= s.injections.skip(1));
}

/// The model is shown the last messages of the record, as many as the limit allows.
pub proof fn law_window_is_the_end(s: SessionView, i: int)
    requires
        0 <= i < s.window().len(),
    ensures
        s.window().len() == s.log.facts.len() || s.window().len() == s.config.max_history,
        s.window().len() <= s.log.facts.len(),
        s.window().len() <= s.config.max_history,
        s.window()[i] == s.log.facts[s.log.facts.len() - s.window().len() + i],
{
}

/// What is asked for a chat comes before what is set for the session.
pub proof fn law_options_come_first(s: SessionView, o: ChatOptionsView, text: Seq<char>)
    ensures
        o.system_prompt == Some(text) ==> (s.parts(o).system matches Some(m) && m.role
            == Role::System && m.content == MessageContentView::Text(text)),
        o.system_prompt is None && s.config.default_system_prompt == Some(text) ==> (s.parts(
            o,
        ).system matches Some(m) && m.role == Role::System && m.content
            == MessageContentView::Text(text)),
        o.system_prompt is None && s.config.default_system_prompt is None ==> s.parts(
            o,
        ).system is None,
        o.temperature is Some ==> s.parts(o).temperature == o.temperature,
        o.temperature is None ==> s.parts(o).temperature == s.config.default_temperature,
        o.max_tokens is Some ==> s.parts(o).max_tokens == o.max_tokens,
        o.max_tokens is None ==> s.parts(o).max_tokens == s.config.default_max_tokens,
        s.parts(o).tools == o.tools,
        s.parts(o).thinking == o.thinking,
        s.parts(o).prompt_budget == s.config.prompt_budget_tokens,
        s.parts(o).history.len() <= s.log.facts.len(),
        s.log.facts.len() <= s.config.max_history ==> s.parts(o).history == s.log.facts,
        s.parts(o).memory.len() == 0,
        s.parts(o).artifacts.len() == 0,
{
}

/// A message of a role with a text has nothing else.
pub proof fn law_plain_message(role: Role, text: Seq<char>)
    ensures
        MessageView::plain(role, text).role == role,
        MessageView::plain(role, text).content == MessageContentView::Text(text),
        MessageView::plain(role, text).reasoning_content is None,
        MessageView::plain(role, text).tool_calls.len() == 0,
        MessageView::plain(role, text).tool_call_id is None,
        MessageView::plain(role, text).usage is None,
{
}

/// A new session is idle, empty and has used nothing.
pub proof fn law_fresh_session(config: SessionConfigView, now: u64)
    ensures
        ({
            let s = SessionView::fresh(config, now);
            &&& s.state is Idle
            &&& s.log.facts.len() == 0
            &&& s.log.max_events == config.max_events
            &&& s.config == config
            &&& s.turn_id == 0
            &&& !s.interrupt
            &&& s.consumed_tokens == 0
            &&& s.injections.len() == 0
            &&& s.last_active == now
            &&& s.peer_depth == 0
            &&& s.options.tools.len() == 0
            &&& s.options.system_prompt is None
            &&& s.options.thinking == (ThinkingConfig { enabled: true, effort: None })
        }),
{
}

/// The last of a sequence, by places.
pub proof fn law_last_of(s: Seq<MessageView>, max: int, i: int)
    requires
        0 <= max,
        0 <= i < last_of(s, max).len(),
    ensures
        last_of(s, max).len() == s.len() || last_of(s, max).len() == max,
        last_of(s, max).len() <= s.len(),
        last_of(s, max).len() <= max,
        last_of(s, max)[i] == s[s.len() - last_of(s, max).len() + i],
{
}

/// A record that is full stays as it is; one that is not takes what comes, in its order, so
/// far as there is room.
pub proof fn law_record_takes_what_it_can(
    log: crate::session::log::SessionLogView,
    ms: Seq<MessageView>,
    m: MessageView,
)
    requires
        log.wf(),
    ensures
        log.facts.len() == log.max_events ==> log.plus(m) == log && log.plus_all(ms) == log,
        log.facts.len() < log.max_events ==> log.plus(m).facts == log.facts.push(m),
        log.plus(m).max_events == log.max_events,
        log.facts.len() + ms.len() <= log.max_events ==> log.plus_all(ms).facts == log.facts + ms,
        log.facts.len() + ms.len() > log.max_events ==> log.plus_all(ms).facts == log.facts
            + ms.take(log.max_events - log.facts.len()),
{
    if log.facts.len() == log.max_events {
        if ms.len() == 0 {
            assert(log.facts + ms =~= log.facts);
        } else {
            assert(log.facts + ms.take(0) =~= log.facts);
        }
    }
}

/// A response that comes when the record is full is answered with all the same, and is
/// counted.
pub proof fn law_response_to_a_full_record(
    s: SessionView,
    turn: u64,
    outcome: OutcomeView,
    r: ChatResponseView,
)
    requires
        s.state matches StateView::Thinking { turn_id, .. } && turn_id == turn,
        s.log.facts.len() >= s.log.max_events,
        answers_with(outcome, r),
    ensures
        s.finished(turn, outcome).log == s.log,
        r.message.tool_calls.len() == 0 ==> s.finish_action(turn, outcome)
            == FinishActionView::Idle(Some(r)) && s.finished(turn, outcome).state is Idle,
        r.message.tool_calls.len() > 0 ==> s.finish_action(turn, outcome)
            == FinishActionView::AwaitingCalls(r),
{
}

/// The request of a round is the prompt of what the options ask, what is set, and the
/// window of the record.
pub proof fn law_request_shows_the_window(s: SessionView, o: ChatOptionsView)
    requires
        s.config.prompt_budget_tokens == 0,
        o.system_prompt is None,
        s.config.default_system_prompt is None,
    ensures
        s.request(o).messages == s.window(),
        s.request(o).tools == o.tools,
{
    assert(Seq::<MessageView>::empty() + s.window() + Seq::<MessageView>::empty() + Seq::<
        MessageView,
    >::empty() =~= s.window());
}

} // verus!
