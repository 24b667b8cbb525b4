//! The scheduling of tool calls: how many run, which ones a round waits for,
//! what a call is given, and what becomes of its end.

use vstd::prelude::*;
use vstd::string::*;

use crate::json::{parse_text, parsed, Json, JsonView};
use crate::provider::{ToolCall, ToolCallView};
use crate::time::Duration;
use crate::tool::definition::{ToolCategory, ToolError, ToolErrorView};
use crate::tool::registry::{ToolRegistry, ToolRegistryView};

verus! {

broadcast use vstd::string::group_string_axioms;

/// The limits on tool calls.
#[derive(Debug, Clone, Copy, PartialEq, Eq)]
pub struct ExecutorConfig {
    /// How many calls of one response are run.
    pub max_per_turn: usize,
    /// How long one call may take.
    pub tool_timeout: Duration,
    /// How many calls run at once.
    pub max_concurrency: usize,
}

impl ExecutorConfig {
    /// Ten calls of a response, five at once, half a minute each.
    pub open spec fn usual() -> ExecutorConfig {
        ExecutorConfig {
            max_per_turn: 10,
            tool_timeout: Duration { secs: 30, nanos: 0 },
            max_concurrency: 5,
        }
    }
}

impl Default for ExecutorConfig {
    fn default() -> (r: Self)
        ensures
            r == ExecutorConfig::usual(),
    {
        ExecutorConfig {
            max_per_turn: 10,
            tool_timeout: Duration::from_secs(30),
            max_concurrency: 5,
        }
    }
}

/// How a tool call ended.
#[derive(Debug, Clone, Copy, PartialEq, Eq, Structural)]
pub enum ToolOutcome {
    /// The tool answered, be it with an error of its own.
    Completed,
    Timeout,
    Panic,
    NotFound,
    PermitUnavailable,
    BatchDeadline,
}

/// A tool call that has ended.
#[derive(Debug)]
pub struct ExecutedTool {
    pub tool_call_id: String,
    pub tool_name: String,
    pub result: String,
    pub outcome: ToolOutcome,
    /// Whether the tool answered with an error of its own.
    pub failed: bool,
    pub duration_ms: u64,
}

pub struct ExecutedToolView {
    pub tool_call_id: Seq<char>,
    pub tool_name: Seq<char>,
    pub result: Seq<char>,
    pub outcome: ToolOutcome,
    pub failed: bool,
    pub duration_ms: u64,
}

impl DeepView for ExecutedTool {
    type V = ExecutedToolView;

    open spec fn deep_view(&self) -> ExecutedToolView {
        ExecutedToolView {
            tool_call_id: self.tool_call_id@,
            tool_name: self.tool_name@,
            result: self.result@,
            outcome: self.outcome,
            failed: self.failed,
            duration_ms: self.duration_ms,
        }
    }
}

/// What came of running a tool.
#[derive(Debug)]
pub enum ToolEnd {
    /// The tool answered.
    Output(String),
    /// The tool answered with an error of its own.
    Failed(ToolError),
    TimedOut,
    Panicked(String),
    /// It panicked before the tool was called.
    PanickedBefore,
    NotFound,
    NoPermit,
}

pub enum ToolEndView {
    Output(Seq<char>),
    Failed(ToolErrorView),
    TimedOut,
    Panicked(Seq<char>),
    PanickedBefore,
    NotFound,
    NoPermit,
}

impl DeepView for ToolEnd {
    type V = ToolEndView;

    open spec fn deep_view(&self) -> ToolEndView {
        match *self {
            ToolEnd::Output(s) => ToolEndView::Output(s@),
            ToolEnd::Failed(e) => ToolEndView::Failed(e.deep_view()),
            ToolEnd::TimedOut => ToolEndView::TimedOut,
            ToolEnd::Panicked(s) => ToolEndView::Panicked(s@),
            ToolEnd::PanickedBefore => ToolEndView::PanickedBefore,
            ToolEnd::NotFound => ToolEndView::NotFound,
            ToolEnd::NoPermit => ToolEndView::NoPermit,
        }
    }
}

impl ToolEndView {
    /// What the model is told.
    pub open spec fn result(self, name: Seq<char>) -> Seq<char> {
        match self {
            ToolEndView::Output(s) => s,
            ToolEndView::Failed(e) => e.message(),
            ToolEndView::TimedOut => ToolErrorView::Timeout.message(),
            ToolEndView::Panicked(s) => ToolErrorView::Panic(s).message(),
            ToolEndView::PanickedBefore => ToolErrorView::Panic("<pre-execute panic>"@).message(),
            ToolEndView::NotFound => "Tool '"@ + name + "' not found"@,
            ToolEndView::NoPermit => "Failed to acquire concurrency permit"@,
        }
    }

    pub open spec fn outcome(self) -> ToolOutcome {
        match self {
            ToolEndView::Output(_) => ToolOutcome::Completed,
            ToolEndView::Failed(_) => ToolOutcome::Completed,
            ToolEndView::TimedOut => ToolOutcome::Timeout,
            ToolEndView::Panicked(_) => ToolOutcome::Panic,
            ToolEndView::PanickedBefore => ToolOutcome::Panic,
            ToolEndView::NotFound => ToolOutcome::NotFound,
            ToolEndView::NoPermit => ToolOutcome::PermitUnavailable,
        }
    }
}

/// What becomes of the end of a call.
pub open spec fn concluded(call: ToolCallView, end: ToolEndView, duration_ms: u64) -> ExecutedToolView {
    ExecutedToolView {
        tool_call_id: call.id,
        tool_name: call.name,
        result: end.result(call.name),
        outcome: end.outcome(),
        failed: end is Failed,
        duration_ms,
    }
}

/// Turns the end of a call into its result.
pub fn conclude(call: &ToolCall, end: ToolEnd, duration_ms: u64) -> (r: ExecutedTool)
    ensures
        r.deep_view() == concluded(call.deep_view(), end.deep_view(), duration_ms),
{
    let (result, outcome, failed) = match end {
        ToolEnd::Output(s) => (s, ToolOutcome::Completed, false),
        ToolEnd::Failed(e) => (e.message(), ToolOutcome::Completed, true),
        ToolEnd::TimedOut => (ToolError::Timeout.message(), ToolOutcome::Timeout, false),
        ToolEnd::Panicked(s) => (ToolError::Panic(s).message(), ToolOutcome::Panic, false),
        ToolEnd::PanickedBefore => (
            ToolError::Panic("<pre-execute panic>".to_owned()).message(),
            ToolOutcome::Panic,
            false,
        ),
        ToolEnd::NotFound => {
            let mut t = "Tool '".to_owned();
            t.append(call.function.name.as_str());
            t.append("' not found");
            (t, ToolOutcome::NotFound, false)
        },
        ToolEnd::NoPermit => (
            "Failed to acquire concurrency permit".to_owned(),
            ToolOutcome::PermitUnavailable,
            false,
        ),
    };
    ExecutedTool {
        tool_call_id: call.id.clone(),
        tool_name: call.function.name.clone(),
        result,
        outcome,
        failed,
        duration_ms,
    }
}

/// Whether a round waits for a call: as its arguments say, else as the tool is
/// by default. A tool that is not there is waited for.
pub open spec fn waits(args: Option<JsonView>, default_wait: Option<bool>) -> bool {
    let said = match args {
        Some(a) => match a.get("wait"@) {
            Some(w) => w.as_bool(),
            None => None,
        },
        None => None,
    };
    match said {
        Some(w) => w,
        None => match default_wait {
            Some(d) => d,
            None => true,
        },
    }
}

/// Whether a round waits for a call with the arguments given.
pub fn wait_choice(args: Option<&Json>, default_wait: Option<bool>) -> (r: bool)
    ensures
        r == waits(args.deep_view(), default_wait),
{
    if let Some(a) = args {
        if let Some(w) = a.get("wait") {
            if let Some(b) = w.as_bool() {
                return b;
            }
        }
    }
    match default_wait {
        Some(d) => d,
        None => true,
    }
}

/// What the arguments of a call say, where they are JSON.
pub open spec fn arguments_of(call: ToolCallView) -> Option<JsonView> {
    match parsed(call.arguments) {
        Ok(v) => Some(v),
        Err(_) => None,
    }
}

/// Whether a round waits for a call.
pub open spec fn call_waits(call: ToolCallView, registry: ToolRegistryView) -> bool {
    waits(
        arguments_of(call),
        match registry.tool(call.name) {
            Some(t) => Some(t.default_wait),
            None => None,
        },
    )
}

/// Whether a round waits for a call.
pub fn wants_wait(call: &ToolCall, registry: &ToolRegistry) -> (r: bool)
    requires
        registry.wf(),
    ensures
        r == call_waits(call.deep_view(), registry.deep_view()),
{
    let default_wait: Option<bool> = match registry.get(call.function.name.as_str()) {
        Some(t) => Some(t.default_wait),
        None => None,
    };
    match parse_text(call.function.arguments.as_str()) {
        Ok(args) => wait_choice(Some(&args), default_wait),
        Err(_) => wait_choice(None, default_wait),
    }
}

/// The calls that a round waits for, or those that it does not wait for.
pub open spec fn chosen(
    calls: Seq<ToolCallView>,
    registry: ToolRegistryView,
    wait: bool,
) -> Seq<ToolCallView>
    decreases calls.len(),
{
    if calls.len() == 0 {
        Seq::empty()
    } else {
        let before = chosen(calls.drop_last(), registry, wait);
        if call_waits(calls.last(), registry) == wait {
            before.push(calls.last())
        } else {
            before
        }
    }
}

/// What a tool is given: the arguments without the one that is meant for the
/// scheduling, or null where they are no JSON.
pub open spec fn stripped(args: Option<JsonView>) -> JsonView {
    match args {
        Some(a) => a.without("wait"@),
        None => JsonView::Null,
    }
}

/// What a tool is given of its arguments.
pub fn strip_wait(args: Option<Json>) -> (r: Json)
    ensures
        r.deep_view() == stripped(args.deep_view()),
{
    match args {
        Some(a) => a.without("wait"),
        None => Json::Null,
    }
}

/// A call that is ready to run.
#[derive(Debug)]
pub struct ReadyCall {
    pub args: Json,
    pub wait: bool,
    /// Whether it takes one of the places for calls that run at once.
    pub needs_permit: bool,
}

/// Readies a call; a tool that is not there has none.
pub fn prepare(call: &ToolCall, registry: &ToolRegistry) -> (r: Option<ReadyCall>)
    requires
        registry.wf(),
    ensures
        r is Some <==> registry.deep_view().tool(call.function.name@) is Some,
        r matches Some(ready) ==> {
            &&& ready.args.deep_view() == stripped(arguments_of(call.deep_view()))
            &&& ready.wait == call_waits(call.deep_view(), registry.deep_view())
            &&& ready.needs_permit == (registry.deep_view().tool(
                call.function.name@,
            )->0.category == ToolCategory::Remote)
        },
{
    let tool = match registry.get(call.function.name.as_str()) {
        Some(t) => t,
        None => {
            return None;
        },
    };
    let wait = wants_wait(call, registry);
    let args = match parse_text(call.function.arguments.as_str()) {
        Ok(a) => Some(a),
        Err(_) => None,
    };
    Some(
        ReadyCall {
            args: strip_wait(args),
            wait,
            needs_permit: tool.category == ToolCategory::Remote,
        },
    )
}

/// The limits by which tool calls are scheduled.
#[derive(Debug, Clone, Copy)]
pub struct ToolExecutor {
    config: ExecutorConfig,
}

impl DeepView for ToolExecutor {
    type V = ExecutorConfig;

    closed spec fn deep_view(&self) -> ExecutorConfig {
        self.config
    }
}

impl ToolExecutor {
    pub fn new(config: ExecutorConfig) -> (r: ToolExecutor)
        ensures
            r.deep_view() == config,
    {
        ToolExecutor { config }
    }

    pub fn with_defaults() -> (r: ToolExecutor)
        ensures
            r.deep_view() == ExecutorConfig::usual(),
    {
        ToolExecutor::new(ExecutorConfig::default())
    }

    pub fn config(&self) -> (r: &ExecutorConfig)
        ensures
            *r == self.deep_view(),
    {
        &self.config
    }

    /// Cuts calls to as many as one response may make: those that run, and the
    /// rest.
    pub fn truncate(&self, tool_calls: Vec<ToolCall>) -> (r: (Vec<ToolCall>, Vec<ToolCall>))
        ensures
            tool_calls@.len() <= self.deep_view().max_per_turn ==> r.0.deep_view()
                == tool_calls.deep_view() && r.1@.len() == 0,
            tool_calls@.len() > self.deep_view().max_per_turn ==> {
                &&& r.0.deep_view() == tool_calls.deep_view().take(
                    self.deep_view().max_per_turn as int,
                )
                &&& r.1.deep_view() == tool_calls.deep_view().skip(
                    self.deep_view().max_per_turn as int,
                )
            },
            r.0.deep_view() + r.1.deep_view() == tool_calls.deep_view(),
            r.0@.len() <= self.deep_view().max_per_turn,
    {
        let ghost all = tool_calls.deep_view();
        let mut head = tool_calls;
        if head.len() <= self.config.max_per_turn {
            let tail: Vec<ToolCall> = Vec::new();
            proof {
                assert(head.deep_view() + tail.deep_view() =~= all);
            }
            return (head, tail);
        }
        let tail = head.split_off(self.config.max_per_turn);
        proof {
            assert(head.deep_view() =~= all.take(self.config.max_per_turn as int));
            assert(tail.deep_view() =~= all.skip(self.config.max_per_turn as int));
            assert(head.deep_view() + tail.deep_view() =~= all);
        }
        (head, tail)
    }

    /// Parts calls into those that a round waits for and those that it does not.
    pub fn split_by_wait(&self, tool_calls: Vec<ToolCall>, registry: &ToolRegistry) -> (r: (
        Vec<ToolCall>,
        Vec<ToolCall>,
    ))
        requires
            registry.wf(),
        ensures
            r.0.deep_view() == chosen(tool_calls.deep_view(), registry.deep_view(), true),
            r.1.deep_view() == chosen(tool_calls.deep_view(), registry.deep_view(), false),
    {
        let ghost all = tool_calls.deep_view();
        let ghost reg = registry.deep_view();
        let ghost kept = tool_calls@;
        let mut rest = tool_calls;
        let mut waiting: Vec<ToolCall> = Vec::new();
        let mut dispatched: Vec<ToolCall> = Vec::new();
        let n: usize = rest.len();
        let mut i: usize = 0;
        proof {
            assert(waiting.deep_view() =~= chosen(all.take(0), reg, true));
            assert(dispatched.deep_view() =~= chosen(all.take(0), reg, false));
        }
        while i < n
            invariant
                i <= n,
                n == kept.len(),
                registry.wf(),
                reg == registry.deep_view(),
                rest@ == kept.skip(i as int),
                all == kept.map_values(|c: ToolCall| c.deep_view()),
                waiting.deep_view() == chosen(all.take(i as int), reg, true),
                dispatched.deep_view() == chosen(all.take(i as int), reg, false),
            decreases n - i,
        {
            let call = rest.remove(0);
            let ghost cv = call.deep_view();
            let ghost w = waiting.deep_view();
            let ghost d = dispatched.deep_view();
            proof {
                assert(call == kept[i as int]);
                assert(rest@ =~= kept.skip(i + 1));
                assert(all.take(i + 1).drop_last() =~= all.take(i as int));
                assert(all.take(i + 1).last() == cv);
            }
            if wants_wait(&call, registry) {
                waiting.push(call);
                proof {
                    assert(waiting.deep_view() =~= w.push(cv));
                }
            } else {
                dispatched.push(call);
                proof {
                    assert(dispatched.deep_view() =~= d.push(cv));
                }
            }
            i = i + 1;
        }
        proof {
            assert(all.take(n as int) =~= all);
        }
        (waiting, dispatched)
    }
}

/// Every call is waited for or not, and none is lost or doubled.
pub proof fn law_split(calls: Seq<ToolCallView>, registry: ToolRegistryView)
    ensures
        chosen(calls, registry, true).len() + chosen(calls, registry, false).len() == calls.len(),
        chosen(calls, registry, true).to_multiset().add(
            chosen(calls, registry, false).to_multiset(),
        ) == calls.to_multiset(),
    decreases calls.len(),
{
    broadcast use vstd::seq_lib::group_to_multiset_ensures;

    if calls.len() == 0 {
        assert(chosen(calls, registry, true).to_multiset().add(
            chosen(calls, registry, false).to_multiset(),
        ) =~= calls.to_multiset());
    } else {
        let before = calls.drop_last();
        law_split(before, registry);
        let w = chosen(before, registry, true);
        let d = chosen(before, registry, false);
        assert(calls =~= before.push(calls.last()));
        if call_waits(calls.last(), registry) {
            assert(w.push(calls.last()).to_multiset().add(d.to_multiset()) =~= before.push(
                calls.last(),
            ).to_multiset());
        } else {
            assert(w.to_multiset().add(d.push(calls.last()).to_multiset()) =~= before.push(
                calls.last(),
            ).to_multiset());
        }
    }
}

/// Only calls that are waited for are among those that are.
pub proof fn law_split_is_right(
    calls: Seq<ToolCallView>,
    registry: ToolRegistryView,
    wait: bool,
    i: int,
)
    requires
        0 <= i < chosen(calls, registry, wait).len(),
    ensures
        call_waits(chosen(calls, registry, wait)[i], registry) == wait,
    decreases calls.len(),
{
    let before = chosen(calls.drop_last(), registry, wait);
    if i < before.len() {
        law_split_is_right(calls.drop_last(), registry, wait, i);
    }
}

// ---------------------------------------------------------------------------
// A batch under a deadline

/// Calls that run together under one deadline. A call is known by its place, for
/// two calls may have the same id.
#[derive(Debug)]
pub struct Batch {
    /// The ids and names of the calls.
    calls: Vec<(String, String)>,
    /// Whether a call has ended, for each.
    ended: Vec<bool>,
    results: Vec<ExecutedTool>,
}

pub struct BatchView {
    pub calls: Seq<(Seq<char>, Seq<char>)>,
    pub ended: Seq<bool>,
    pub results: Seq<ExecutedToolView>,
}

impl DeepView for Batch {
    type V = BatchView;

    closed spec fn deep_view(&self) -> BatchView {
        BatchView {
            calls: self.calls.deep_view(),
            ended: self.ended@,
            results: self.results.deep_view(),
        }
    }
}

/// The calls that have not ended, in their order.
pub open spec fn unended(calls: Seq<(Seq<char>, Seq<char>)>, ended: Seq<bool>) -> Seq<
    (Seq<char>, Seq<char>),
>
    decreases calls.len(),
{
    if calls.len() == 0 {
        Seq::empty()
    } else {
        let before = unended(calls.drop_last(), ended.drop_last());
        if ended.last() {
            before
        } else {
            before.push(calls.last())
        }
    }
}

/// Whose results they are, by id and name.
pub open spec fn owners(results: Seq<ExecutedToolView>) -> Seq<(Seq<char>, Seq<char>)> {
    results.map_values(|r: ExecutedToolView| (r.tool_call_id, r.tool_name))
}

/// What the model is told of a call that the deadline cut off.
pub open spec fn deadline_message() -> Seq<char> {
    "Timed out: waiting-tool batch deadline exceeded. Re-issue this tool call in the next turn."@
}

/// The result of a call that the deadline cut off.
pub open spec fn cut_off(call: (Seq<char>, Seq<char>), elapsed_ms: u64) -> ExecutedToolView {
    ExecutedToolView {
        tool_call_id: call.0,
        tool_name: call.1,
        result: deadline_message(),
        outcome: ToolOutcome::BatchDeadline,
        failed: false,
        duration_ms: elapsed_ms,
    }
}

/// The results of the calls that the deadline cut off.
pub open spec fn all_cut_off(
    calls: Seq<(Seq<char>, Seq<char>)>,
    elapsed_ms: u64,
) -> Seq<ExecutedToolView> {
    calls.map_values(|c: (Seq<char>, Seq<char>)| cut_off(c, elapsed_ms))
}

impl BatchView {
    /// A batch that begins.
    pub open spec fn begun(calls: Seq<ToolCallView>) -> BatchView {
        BatchView {
            calls: calls.map_values(|c: ToolCallView| (c.id, c.name)),
            ended: Seq::new(calls.len(), |i: int| false),
            results: Seq::empty(),
        }
    }

    /// The calls that have not ended.
    pub open spec fn outstanding(self) -> Seq<(Seq<char>, Seq<char>)> {
        unended(self.calls, self.ended)
    }

    /// Whether a call has not ended.
    pub open spec fn is_out(self, place: int) -> bool {
        0 <= place < self.ended.len() && !self.ended[place]
    }

    /// The results and the calls that have not ended are those of the calls, each
    /// call once.
    pub open spec fn wf(self) -> bool {
        &&& self.ended.len() == self.calls.len()
        &&& owners(self.results).to_multiset().add(self.outstanding().to_multiset())
            == self.calls.to_multiset()
    }

    /// The batch once a call has ended. Its result goes under its id and name.
    pub open spec fn completed(self, place: int, r: ExecutedToolView) -> BatchView {
        BatchView {
            calls: self.calls,
            ended: self.ended.update(place, true),
            results: self.results.push(
                ExecutedToolView {
                    tool_call_id: self.calls[place].0,
                    tool_name: self.calls[place].1,
                    ..r
                },
            ),
        }
    }

    /// The batch once the deadline has come.
    pub open spec fn expired(self, elapsed_ms: u64) -> BatchView {
        BatchView {
            calls: self.calls,
            ended: Seq::new(self.calls.len(), |i: int| true),
            results: self.results + all_cut_off(self.outstanding(), elapsed_ms),
        }
    }
}

/// With a call ended, it alone is no longer among those that have not.
proof fn lemma_ends(calls: Seq<(Seq<char>, Seq<char>)>, ended: Seq<bool>, place: int)
    requires
        ended.len() == calls.len(),
        0 <= place < calls.len(),
        !ended[place],
    ensures
        unended(calls, ended.update(place, true)).to_multiset().insert(calls[place])
            == unended(calls, ended).to_multiset(),
    decreases calls.len(),
{
    broadcast use vstd::seq_lib::group_to_multiset_ensures;

    let after = ended.update(place, true);
    let before = unended(calls.drop_last(), ended.drop_last());
    let kept = unended(calls.drop_last(), after.drop_last());
    if place == calls.len() - 1 {
        assert(after.drop_last() =~= ended.drop_last());
    } else {
        assert(after.drop_last() =~= ended.drop_last().update(place, true));
        lemma_ends(calls.drop_last(), ended.drop_last(), place);
        assert(after.last() == ended.last());
        if !ended.last() {
            assert(kept.to_multiset().insert(calls.last()).insert(calls[place])
                =~= kept.to_multiset().insert(calls[place]).insert(calls.last()));
        }
    }
}

/// Where no call has ended, all are among those that have not; where all have, none
/// is.
proof fn lemma_all_or_none(calls: Seq<(Seq<char>, Seq<char>)>, ended: Seq<bool>)
    requires
        ended.len() == calls.len(),
    ensures
        (forall|i: int| 0 <= i < ended.len() ==> !ended[i]) ==> unended(calls, ended) == calls,
        (forall|i: int| 0 <= i < ended.len() ==> ended[i]) ==> unended(calls, ended).len() == 0,
        unended(calls, ended).len() == 0 ==> forall|i: int| 0 <= i < ended.len() ==> ended[i],
    decreases calls.len(),
{
    if calls.len() > 0 {
        lemma_all_or_none(calls.drop_last(), ended.drop_last());
        let before = unended(calls.drop_last(), ended.drop_last());
        if forall|i: int| 0 <= i < ended.len() ==> !ended[i] {
            assert(before == calls.drop_last());
            assert(unended(calls, ended) =~= calls);
        }
        if unended(calls, ended).len() == 0 {
            assert forall|i: int| 0 <= i < ended.len() implies ended[i] by {
                if i < ended.len() - 1 {
                    assert(ended.drop_last()[i]);
                }
            }
        }
    } else {
        assert(unended(calls, ended) =~= calls);
    }
}

/// A batch begins with all of its calls out, whatever their ids.
pub proof fn law_batch_begins(calls: Seq<ToolCallView>)
    ensures
        BatchView::begun(calls).wf(),
        BatchView::begun(calls).outstanding() == calls.map_values(
            |c: ToolCallView| (c.id, c.name),
        ),
{
    broadcast use vstd::seq_lib::group_to_multiset_ensures;

    let b = BatchView::begun(calls);
    lemma_all_or_none(b.calls, b.ended);
    assert(owners(b.results) =~= Seq::empty());
    assert(owners(b.results).to_multiset().add(b.calls.to_multiset()) =~= b.calls.to_multiset());
}

/// Every call has exactly one result. A call that ends moves from those that have
/// not ended to the results; at the deadline what has ended keeps its result, and
/// each call that has not gets one that says so. The ids and names of the results
/// are then those of the calls, also where two calls have the same id.
pub proof fn law_every_call_has_one_result(
    b: BatchView,
    place: int,
    r: ExecutedToolView,
    elapsed_ms: u64,
)
    requires
        b.wf(),
    ensures
        b.outstanding().len() + b.results.len() == b.calls.len(),
        b.is_out(place) ==> b.completed(place, r).wf(),
        b.expired(elapsed_ms).wf(),
        b.expired(elapsed_ms).outstanding().len() == 0,
        b.expired(elapsed_ms).results.len() == b.calls.len(),
        owners(b.expired(elapsed_ms).results).to_multiset() == b.calls.to_multiset(),
        b.expired(elapsed_ms).results.take(b.results.len() as int) == b.results,
        forall|i: int|
            b.results.len() <= i < b.calls.len() ==> (#[trigger] b.expired(
                elapsed_ms,
            ).results[i]).outcome == ToolOutcome::BatchDeadline && b.expired(
                elapsed_ms,
            ).results[i].result == deadline_message(),
        b.outstanding().len() == 0 ==> owners(b.results).to_multiset() == b.calls.to_multiset(),
{
    broadcast use vstd::seq_lib::group_to_multiset_ensures;

    let out = b.outstanding();
    let done = owners(b.results);
    assert(done.to_multiset().add(out.to_multiset()).len() == b.calls.to_multiset().len());
    if b.is_out(place) {
        let c = b.completed(place, r);
        lemma_ends(b.calls, b.ended, place);
        assert(owners(c.results) =~= done.push(b.calls[place]));
        assert(owners(c.results).to_multiset().add(c.outstanding().to_multiset())
            =~= done.to_multiset().add(c.outstanding().to_multiset().insert(b.calls[place])));
    }
    let e = b.expired(elapsed_ms);
    lemma_all_or_none(e.calls, e.ended);
    assert(owners(e.results) =~= done + out);
    vstd::seq_lib::lemma_multiset_commutative(done, out);
    assert(e.outstanding() =~= Seq::empty());
    assert(owners(e.results).to_multiset().add(e.outstanding().to_multiset())
        =~= owners(e.results).to_multiset());
    assert(e.results.take(b.results.len() as int) =~= b.results);
    assert forall|i: int| b.results.len() <= i < b.calls.len() implies (
    #[trigger] e.results[i]).outcome == ToolOutcome::BatchDeadline && e.results[i].result
        == deadline_message() by {
        assert(e.results[i] == cut_off(out[i - b.results.len()], elapsed_ms));
    }
    if out.len() == 0 {
        assert(done.to_multiset().add(out.to_multiset()) =~= done.to_multiset());
    }
}

impl Batch {
    /// What has ended and what has not makes up the calls.
    pub open spec fn wf(self) -> bool {
        self.deep_view().wf()
    }

    /// Begins a batch.
    pub fn new(calls: &Vec<ToolCall>) -> (r: Batch)
        ensures
            r.wf(),
            r.deep_view() == BatchView::begun(calls.deep_view()),
    {
        let ghost all = calls.deep_view();
        let ghost wanted = BatchView::begun(all);
        let mut known: Vec<(String, String)> = Vec::new();
        let mut ended: Vec<bool> = Vec::new();
        let results: Vec<ExecutedTool> = Vec::new();
        let mut i: usize = 0;
        proof {
            law_batch_begins(all);
            assert(known.deep_view() =~= wanted.calls.take(0));
            assert(ended@ =~= wanted.ended.take(0));
            assert(results.deep_view() =~= Seq::empty());
        }
        while i < calls.len()
            invariant
                i <= calls@.len(),
                all == calls.deep_view(),
                wanted == BatchView::begun(all),
                known.deep_view() == wanted.calls.take(i as int),
                ended@ == wanted.ended.take(i as int),
            decreases calls@.len() - i,
        {
            let ghost before = known.deep_view();
            let c = (calls[i].id.clone(), calls[i].function.name.clone());
            known.push(c);
            ended.push(false);
            proof {
                assert(known.deep_view() =~= before.push(wanted.calls[i as int]));
                assert(known.deep_view() =~= wanted.calls.take(i + 1));
                assert(ended@ =~= wanted.ended.take(i + 1));
            }
            i = i + 1;
        }
        proof {
            assert(wanted.calls.take(all.len() as int) =~= wanted.calls);
            assert(wanted.ended.take(all.len() as int) =~= wanted.ended);
        }
        Batch { calls: known, ended, results }
    }

    /// Whether every call has ended.
    pub fn is_done(&self) -> (r: bool)
        requires
            self.wf(),
        ensures
            r == (self.deep_view().outstanding().len() == 0),
    {
        let mut i: usize = 0;
        proof {
            lemma_all_or_none(self.deep_view().calls, self.deep_view().ended);
        }
        while i < self.ended.len()
            invariant
                i <= self.ended@.len(),
                self.wf(),
                forall|j: int| 0 <= j < i ==> self.ended@[j],
            decreases self.ended@.len() - i,
        {
            if !self.ended[i] {
                proof {
                    lemma_all_or_none(self.deep_view().calls, self.deep_view().ended);
                }
                return false;
            }
            i = i + 1;
        }
        true
    }

    /// Takes the end of the call at a place, and says whether that call had not ended
    /// before; if it had, nothing changes.
    pub fn complete(&mut self, place: usize, result: ExecutedTool) -> (r: bool)
        requires
            old(self).wf(),
        ensures
            final(self).wf(),
            r == old(self).deep_view().is_out(place as int),
            r ==> final(self).deep_view() == old(self).deep_view().completed(
                place as int,
                result.deep_view(),
            ),
            !r ==> final(self).deep_view() == old(self).deep_view(),
    {
        if place >= self.ended.len() || self.ended[place] {
            return false;
        }
        let ghost b = self.deep_view();
        let ghost rs = self.results.deep_view();
        proof {
            law_every_call_has_one_result(b, place as int, result.deep_view(), 0);
        }
        let mut result = result;
        result.tool_call_id = self.calls[place].0.clone();
        result.tool_name = self.calls[place].1.clone();
        let ghost rv = result.deep_view();
        self.ended.set(place, true);
        self.results.push(result);
        proof {
            assert(self.results.deep_view() =~= rs.push(rv));
        }
        true
    }

    /// Ends the batch at its deadline: what has ended keeps its result, and the
    /// rest is told that it was cut off.
    pub fn expire(&mut self, elapsed_ms: u64)
        requires
            old(self).wf(),
        ensures
            final(self).wf(),
            final(self).deep_view() == old(self).deep_view().expired(elapsed_ms),
    {
        let ghost b = self.deep_view();
        let ghost start = self.results.deep_view();
        let n: usize = self.calls.len();
        let mut i: usize = 0;
        proof {
            law_every_call_has_one_result(
                b,
                -1,
                cut_off((Seq::empty(), Seq::empty()), elapsed_ms),
                elapsed_ms,
            );
            assert(start + all_cut_off(unended(b.calls.take(0), b.ended.take(0)), elapsed_ms)
                =~= start);
        }
        while i < n
            invariant
                i <= n,
                n == b.calls.len(),
                b.ended.len() == b.calls.len(),
                self.calls.deep_view() == b.calls,
                self.ended@.len() == n,
                forall|j: int| 0 <= j < i ==> self.ended@[j],
                forall|j: int| i <= j < n ==> self.ended@[j] == b.ended[j],
                self.results.deep_view() == start + all_cut_off(
                    unended(b.calls.take(i as int), b.ended.take(i as int)),
                    elapsed_ms,
                ),
            decreases n - i,
        {
            let ghost out = unended(b.calls.take(i as int), b.ended.take(i as int));
            proof {
                assert(b.calls.take(i + 1).drop_last() =~= b.calls.take(i as int));
                assert(b.ended.take(i + 1).drop_last() =~= b.ended.take(i as int));
                assert(b.calls.take(i + 1).last() == b.calls[i as int]);
                assert(b.ended.take(i + 1).last() == b.ended[i as int]);
            }
            if !self.ended[i] {
                let ghost before = self.results.deep_view();
                let r = ExecutedTool {
                    tool_call_id: self.calls[i].0.clone(),
                    tool_name: self.calls[i].1.clone(),
                    result: "Timed out: waiting-tool batch deadline exceeded. Re-issue this tool call in the next turn.".to_owned(),
                    outcome: ToolOutcome::BatchDeadline,
                    failed: false,
                    duration_ms: elapsed_ms,
                };
                let ghost rv = r.deep_view();
                self.results.push(r);
                self.ended.set(i, true);
                proof {
                    assert(rv == cut_off(b.calls[i as int], elapsed_ms));
                    assert(self.results.deep_view() =~= before.push(rv));
                    assert(start + all_cut_off(out.push(b.calls[i as int]), elapsed_ms)
                        =~= before.push(rv));
                }
            }
            i = i + 1;
        }
        proof {
            assert(b.calls.take(n as int) =~= b.calls);
            assert(b.ended.take(n as int) =~= b.ended);
            assert(self.ended@ =~= b.expired(elapsed_ms).ended);
        }
    }

    /// The results so far.
    pub fn into_results(self) -> (r: Vec<ExecutedTool>)
        ensures
            r.deep_view() == self.deep_view().results,
    {
        self.results
    }
}

/// The text by which the result of a dispatched tool reaches the next round.
pub open spec fn completion_text(name: Seq<char>, result: Seq<char>) -> Seq<char> {
    "[async tool '"@ + name + "' completed]\n"@ + result
}

/// The text by which the result of a dispatched tool reaches the next round.
pub fn completion_message(r: &ExecutedTool) -> (t: String)
    ensures
        t@ == completion_text(r.tool_name@, r.result@),
{
    let mut t = "[async tool '".to_owned();
    t.append(r.tool_name.as_str());
    t.append("' completed]\n");
    t.append(r.result.as_str());
    t
}

} // verus!
