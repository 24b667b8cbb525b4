//! What tools are offered, how calls of them are run, and what is told of their ends.

use vstd::prelude::*;
use vstd::string::*;

use crate::json::{law_find_without, parsed, JsonView};
use crate::provider::{ToolCallView, ToolDeclarationView};
use crate::table::KeyView;
use crate::text::decimal;
use crate::tool::definition::{ToolErrorView, ToolInfoView};
use crate::tool::executor::{
    arguments_of, call_waits, chosen, completion_text, concluded, stripped, waits, BatchView,
    ExecutedToolView, ToolEndView, ToolOutcome,
};
use crate::tool::registry::{
    named, offers, RegistryErrorView, ToolRegistryView,
};

verus! {

broadcast use vstd::string::group_string_axioms;

/// A tool is registered exactly where there is room, its name is free, and it does not
/// end a chat without being waited for; else it is said which of these fails, the wait
/// before the room, and the room before the name.
pub proof fn law_registration(r: ToolRegistryView, t: ToolInfoView)
    ensures
        r.verdict(t) is Ok <==> (!t.terminal || t.default_wait) && r.tools.len() < r.max_tools
            && r.tool(t.name) is None,
        t.terminal && !t.default_wait ==> r.verdict(t) == Err::<(), RegistryErrorView>(
            RegistryErrorView::TerminalRequiresWait(t.name),
        ),
        (!t.terminal || t.default_wait) && r.tools.len() >= r.max_tools ==> r.verdict(t) == Err::<
            (),
            RegistryErrorView,
        >(RegistryErrorView::Full(r.max_tools)),
        (!t.terminal || t.default_wait) && r.tools.len() < r.max_tools && r.tool(t.name) is Some
            ==> r.verdict(t) == Err::<(), RegistryErrorView>(RegistryErrorView::Duplicate(t.name)),
{
}

/// Refusals in words.
pub proof fn law_refusals_in_words(s: Seq<char>, n: usize)
    ensures
        RegistryErrorView::Duplicate(s).message() == "tool name '"@ + s + "' already registered"@,
        RegistryErrorView::Full(n).message() == "registry full: max "@ + decimal(n as nat)
            + " tools"@,
        RegistryErrorView::NotEnabled.message()
            == "tools are not enabled on this runtime (call with_tools first)"@,
{
}

/// A tool is offered where it is allowed and not too deep, behind the tools registered
/// before it, with its name, its description and its parameters.
pub proof fn law_tools_are_offered(
    tools: Seq<(KeyView, ToolInfoView)>,
    key: KeyView,
    t: ToolInfoView,
    allowed: Option<Seq<Seq<char>>>,
    depth: u32,
    max_depth: u32,
)
    ensures
        offers(Seq::empty(), allowed, depth, max_depth).len() == 0,
        ({
            let may = (allowed matches Some(names) ==> names.contains(t.name)) && (!t.depth_limited
                || depth < max_depth);
            let before = offers(tools, allowed, depth, max_depth);
            let after = offers(tools.push((key, t)), allowed, depth, max_depth);
            &&& !may ==> after == before
            &&& may ==> {
                &&& after.len() == before.len() + 1
                &&& after.drop_last() == before
                &&& after.last().name == t.name
                &&& after.last().description == t.description
                &&& after.last().parameters == t.input_schema
            }
        }),
{
    assert(tools.push((key, t)).drop_last() =~= tools);
    let before = offers(tools, allowed, depth, max_depth);
    assert(before.push(t.declaration()).drop_last() =~= before);
    if let Some(names) = allowed {
        if names.contains(t.name) {
            let i = choose|i: int| 0 <= i < names.len() && names[i] == t.name;
            assert(names[i] == t.name);
        }
    }
}

/// Whether a round waits for a call: as the call says; where it does not say, as the
/// tool says; and else it waits.
pub proof fn law_who_is_waited_for(a: JsonView, b: bool, default_wait: Option<bool>)
    ensures
        a.get("wait"@) == Some(JsonView::Bool(b)) ==> waits(Some(a), default_wait) == b,
        a.get("wait"@) is None && default_wait == Some(b) ==> waits(Some(a), default_wait) == b,
        a.get("wait"@) is None && default_wait is None ==> waits(Some(a), default_wait),
        default_wait == Some(b) ==> waits(None, default_wait) == b,
        default_wait is None ==> waits(None, default_wait),
{
}

/// A call is waited for as its arguments say, and else as its tool says.
pub proof fn law_calls_are_waited_for(
    c: ToolCallView,
    r: ToolRegistryView,
    a: JsonView,
    t: ToolInfoView,
    b: bool,
)
    ensures
        parsed(c.arguments) == Ok::<JsonView, Seq<char>>(a) && a.get("wait"@) == Some(
            JsonView::Bool(b),
        ) ==> call_waits(c, r) == b,
        (parsed(c.arguments) is Err || parsed(c.arguments) == Ok::<JsonView, Seq<char>>(a) && a.get(
            "wait"@,
        ) is None) && r.tool(c.name) == Some(t) ==> call_waits(c, r) == t.default_wait,
        (parsed(c.arguments) is Err || parsed(c.arguments) == Ok::<JsonView, Seq<char>>(a) && a.get(
            "wait"@,
        ) is None) && r.tool(c.name) is None ==> call_waits(c, r),
{
}

/// A tool gets its arguments without the wish to wait, and all the others as they are.
pub proof fn law_arguments_are_passed(
    a: JsonView,
    fields: Seq<(Seq<char>, JsonView)>,
    key: Seq<char>,
)
    ensures
        a == JsonView::Object(fields) ==> stripped(Some(a)).get("wait"@) is None,
        a == JsonView::Object(fields) && key != "wait"@ ==> stripped(Some(a)).get(key) == a.get(
            key,
        ),
        !(a is Object) ==> stripped(Some(a)) == a,
        stripped(None) is Null,
{
    if a is Object {
        law_find_without(a->Object_0, "wait"@, "wait"@);
        law_find_without(a->Object_0, "wait"@, key);
    }
}

/// The calls of a kind are those of it, in their order.
pub proof fn law_calls_are_chosen(
    calls: Seq<ToolCallView>,
    c: ToolCallView,
    r: ToolRegistryView,
    wait: bool,
)
    ensures
        chosen(Seq::empty(), r, wait).len() == 0,
        call_waits(c, r) == wait ==> chosen(calls.push(c), r, wait) == chosen(calls, r, wait).push(c),
        call_waits(c, r) != wait ==> chosen(calls.push(c), r, wait) == chosen(calls, r, wait),
{
    assert(calls.push(c).drop_last() =~= calls);
}

/// What is told of the end of a call goes under the id and the name of the call.
pub proof fn law_ends_are_told(c: ToolCallView, s: Seq<char>, e: ToolErrorView, ms: u64)
    ensures
        forall|end: ToolEndView|
            {
                &&& (#[trigger] concluded(c, end, ms)).tool_call_id == c.id
                &&& concluded(c, end, ms).tool_name == c.name
                &&& concluded(c, end, ms).duration_ms == ms
                &&& concluded(c, end, ms).failed <==> end is Failed
            },
        concluded(c, ToolEndView::Output(s), ms).result == s,
        concluded(c, ToolEndView::Output(s), ms).outcome == ToolOutcome::Completed,
        concluded(c, ToolEndView::Failed(ToolErrorView::Execution(s)), ms).result
            == "tool execution failed: "@ + s,
        concluded(c, ToolEndView::Failed(ToolErrorView::Timeout), ms).result
            == "tool execution timed out"@,
        concluded(c, ToolEndView::Failed(ToolErrorView::Panic(s)), ms).result == "tool panicked: "@
            + s,
        concluded(c, ToolEndView::Failed(e), ms).outcome == ToolOutcome::Completed,
        concluded(c, ToolEndView::TimedOut, ms).result == "tool execution timed out"@,
        concluded(c, ToolEndView::TimedOut, ms).outcome == ToolOutcome::Timeout,
        concluded(c, ToolEndView::Panicked(s), ms).result == "tool panicked: "@ + s,
        concluded(c, ToolEndView::Panicked(s), ms).outcome == ToolOutcome::Panic,
        concluded(c, ToolEndView::PanickedBefore, ms).result == "tool panicked: "@
            + "<pre-execute panic>"@,
        concluded(c, ToolEndView::PanickedBefore, ms).outcome == ToolOutcome::Panic,
        concluded(c, ToolEndView::NotFound, ms).result == "Tool '"@ + c.name + "' not found"@,
        concluded(c, ToolEndView::NotFound, ms).outcome == ToolOutcome::NotFound,
        concluded(c, ToolEndView::NoPermit, ms).result == "Failed to acquire concurrency permit"@,
        concluded(c, ToolEndView::NoPermit, ms).outcome == ToolOutcome::PermitUnavailable,
{
}

/// The end of a call of a batch is kept under the id and the name of that call, with
/// what was told of it; the results before it stay, and the other calls stay open.
pub proof fn law_result_of_a_batch(b: BatchView, place: int, r: ExecutedToolView, other: int)
    requires
        b.wf(),
        b.is_out(place),
        0 <= other < b.calls.len(),
    ensures
        ({
            let after = b.completed(place, r);
            &&& after.results.len() == b.results.len() + 1
            &&& after.results.drop_last() == b.results
            &&& after.results.last().tool_call_id == b.calls[place].0
            &&& after.results.last().tool_name == b.calls[place].1
            &&& after.results.last().result == r.result
            &&& after.results.last().outcome == r.outcome
            &&& after.results.last().failed == r.failed
            &&& after.results.last().duration_ms == r.duration_ms
            &&& after.calls == b.calls
            &&& !after.is_out(place)
            &&& other != place ==> after.is_out(other) == b.is_out(other)
        }),
{
    let after = b.completed(place, r);
    assert(after.results.drop_last() =~= b.results);
}

/// Where time is up, a call that is still open is told that it should be asked again;
/// what ended before stays as it was told.
pub proof fn law_time_is_up(b: BatchView, place: int, ms: u64)
    requires
        b.wf(),
        b.is_out(place),
    ensures
        ({
            let after = b.expired(ms);
            &&& !after.is_out(place)
            &&& after.results.take(b.results.len() as int) == b.results
            &&& exists|i: int|
                {
                    &&& b.results.len() <= i < after.results.len()
                    &&& (#[trigger] after.results[i]).tool_call_id == b.calls[place].0
                    &&& after.results[i].tool_name == b.calls[place].1
                    &&& after.results[i].result
                        == "Timed out: waiting-tool batch deadline exceeded. Re-issue this tool call in the next turn."@
                    &&& after.results[i].outcome == ToolOutcome::BatchDeadline
                    &&& !after.results[i].failed
                    &&& after.results[i].duration_ms == ms
                }
        }),
{
    let after = b.expired(ms);
    assert(after.results.take(b.results.len() as int) =~= b.results);
    lemma_open_stands(b.calls, b.ended, place);
    let out = b.outstanding();
    let k = choose|k: int| 0 <= k < out.len() && #[trigger] out[k] == b.calls[place];
    assert(after.results[b.results.len() + k] == crate::tool::executor::cut_off(out[k], ms));
}

/// An open call stands among the open ones.
proof fn lemma_open_stands(calls: Seq<(Seq<char>, Seq<char>)>, ended: Seq<bool>, place: int)
    requires
        calls.len() == ended.len(),
        0 <= place < calls.len(),
        !ended[place],
    ensures
        exists|k: int|
            0 <= k < crate::tool::executor::unended(calls, ended).len()
                && #[trigger] crate::tool::executor::unended(calls, ended)[k] == calls[place],
    decreases calls.len(),
{
    let out = crate::tool::executor::unended(calls, ended);
    if place == calls.len() - 1 {
        assert(out[out.len() - 1] == calls[place]);
    } else {
        let before = crate::tool::executor::unended(calls.drop_last(), ended.drop_last());
        lemma_open_stands(calls.drop_last(), ended.drop_last(), place);
        let k = choose|k: int| 0 <= k < before.len() && #[trigger] before[k] == calls[place];
        assert(out[k] == calls[place]);
    }
}

/// What a session is told of a tool that nobody waited for.
pub proof fn law_completion_is_told(name: Seq<char>, result: Seq<char>)
    ensures
        completion_text(name, result) == "[async tool '"@ + name + "' completed]\n"@ + result,
{
}

} // verus!
