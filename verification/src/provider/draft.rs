//! A response under construction: additions from a stream are absorbed one by
//! one, and a message comes out at the end.

use vstd::prelude::*;
use vstd::string::*;

use crate::provider::{
    DeltaView, Message, MessageContent, MessageContentView, MessageView, Role, StreamChunk,
    StreamChunkView, TokenUsage, ToolCall, ToolCallDelta, ToolCallDeltaView, ToolCallFunction,
    ToolCallView,
};

verus! {

broadcast use vstd::string::group_string_axioms;

/// What has come of a response so far. The tool calls stand in the order of
/// their indices.
#[derive(Debug)]
pub struct Draft {
    pub content: String,
    pub reasoning: String,
    pub role: Option<Role>,
    pub calls: Vec<(u32, ToolCall)>,
}

pub struct DraftView {
    pub content: Seq<char>,
    pub reasoning: Seq<char>,
    pub role: Option<Role>,
    pub calls: Seq<(u32, ToolCallView)>,
}

impl DeepView for Draft {
    type V = DraftView;

    open spec fn deep_view(&self) -> DraftView {
        DraftView {
            content: self.content@,
            reasoning: self.reasoning@,
            role: self.role,
            calls: self.calls.deep_view(),
        }
    }
}

/// A string followed by another that may be absent.
pub open spec fn followed(s: Seq<char>, more: Option<Seq<char>>) -> Seq<char> {
    match more {
        Some(t) => s + t,
        None => s,
    }
}

/// `new` where it is there, else `old`.
pub open spec fn replaced<T>(before: T, new: Option<T>) -> T {
    match new {
        Some(x) => x,
        None => before,
    }
}

/// A tool call of which nothing is known yet.
pub open spec fn blank_call() -> ToolCallView {
    ToolCallView { id: Seq::empty(), name: Seq::empty(), arguments: Seq::empty() }
}

/// A tool call with one addition: a new id or name replaces the one before, and
/// arguments are appended.
pub open spec fn extended(call: ToolCallView, d: ToolCallDeltaView) -> ToolCallView {
    let named = match d.function {
        Some(f) => ToolCallView {
            name: replaced(call.name, f.name),
            arguments: followed(call.arguments, f.arguments),
            ..call
        },
        None => call,
    };
    ToolCallView { id: replaced(call.id, d.id), ..named }
}

/// The tool calls with one addition to the call of its index.
pub open spec fn merge_call(calls: Seq<(u32, ToolCallView)>, d: ToolCallDeltaView) -> Seq<
    (u32, ToolCallView),
>
    decreases calls.len(),
{
    if calls.len() == 0 {
        seq![(d.index, extended(blank_call(), d))]
    } else if calls[0].0 == d.index {
        calls.update(0, (d.index, extended(calls[0].1, d)))
    } else if d.index < calls[0].0 {
        seq![(d.index, extended(blank_call(), d))] + calls
    } else {
        seq![calls[0]] + merge_call(calls.drop_first(), d)
    }
}

/// The tool calls with several additions, one after the other.
pub open spec fn merge_calls(
    calls: Seq<(u32, ToolCallView)>,
    ds: Seq<ToolCallDeltaView>,
) -> Seq<(u32, ToolCallView)>
    decreases ds.len(),
{
    if ds.len() == 0 {
        calls
    } else {
        merge_call(merge_calls(calls, ds.drop_last()), ds.last())
    }
}

/// Whether the indices go up strictly.
pub open spec fn ascending(calls: Seq<(u32, ToolCallView)>) -> bool {
    forall|i: int, j: int|
        0 <= i < j < calls.len() ==> (#[trigger] calls[i]).0 < (#[trigger] calls[j]).0
}

/// The call of an index, as far as there is one.
pub open spec fn call_at(calls: Seq<(u32, ToolCallView)>, index: u32) -> Option<ToolCallView>
    decreases calls.len(),
{
    if calls.len() == 0 {
        None
    } else if calls[0].0 == index {
        Some(calls[0].1)
    } else {
        call_at(calls.drop_first(), index)
    }
}

impl DraftView {
    /// Nothing has come yet.
    pub open spec fn blank() -> DraftView {
        DraftView {
            content: Seq::empty(),
            reasoning: Seq::empty(),
            role: None,
            calls: Seq::empty(),
        }
    }

    /// The draft with one addition.
    pub open spec fn absorb(self, d: DeltaView) -> DraftView {
        DraftView {
            content: followed(self.content, d.content),
            reasoning: followed(self.reasoning, d.reasoning_content),
            role: match d.role {
                Some(r) => Some(r),
                None => self.role,
            },
            calls: merge_calls(self.calls, d.tool_calls),
        }
    }

    /// The message that the draft makes.
    pub open spec fn message(self, usage: Option<TokenUsage>) -> MessageView {
        MessageView {
            role: replaced(Role::Assistant, self.role),
            content: MessageContentView::Text(self.content),
            reasoning_content: if self.reasoning.len() == 0 {
                None
            } else {
                Some(self.reasoning)
            },
            tool_calls: self.calls.map_values(|c: (u32, ToolCallView)| c.1),
            tool_call_id: None,
            usage,
        }
    }
}

/// An addition touches the call of its own index and no other, and the calls
/// stay in the order of their indices.
pub proof fn law_merge_call(calls: Seq<(u32, ToolCallView)>, d: ToolCallDeltaView, index: u32)
    requires
        ascending(calls),
    ensures
        ascending(merge_call(calls, d)),
        call_at(merge_call(calls, d), index) == (if index == d.index {
            Some(extended(replaced(blank_call(), call_at(calls, index)), d))
        } else {
            call_at(calls, index)
        }),
        forall|i: int|
            0 <= i < merge_call(calls, d).len() ==> (#[trigger] merge_call(calls, d)[i]).0
                == d.index || exists|j: int|
                0 <= j < calls.len() && #[trigger] calls[j] == merge_call(calls, d)[i],
    decreases calls.len(),
{
    let after = merge_call(calls, d);
    if calls.len() == 0 {
        assert(call_at(after.drop_first(), index) is None);
    } else if calls[0].0 == d.index {
        assert(after.drop_first() =~= calls.drop_first());
        assert forall|i: int| 0 <= i < after.len() implies (#[trigger] after[i]).0 == d.index
            || exists|j: int| 0 <= j < calls.len() && #[trigger] calls[j] == after[i] by {
            if i > 0 {
                assert(calls[i] == after[i]);
            }
        }
    } else if d.index < calls[0].0 {
        assert(after.drop_first() =~= calls);
        assert forall|i: int| 0 <= i < after.len() implies (#[trigger] after[i]).0 == d.index
            || exists|j: int| 0 <= j < calls.len() && #[trigger] calls[j] == after[i] by {
            if i > 0 {
                assert(calls[i - 1] == after[i]);
            }
        }
        lemma_absent_before(calls, d.index);
    } else {
        let rest = calls.drop_first();
        assert(ascending(rest)) by {
            assert forall|i: int, j: int| 0 <= i < j < rest.len() implies (#[trigger] rest[i]).0
                < (#[trigger] rest[j]).0 by {
                assert(rest[i] == calls[i + 1]);
                assert(rest[j] == calls[j + 1]);
            }
        }
        law_merge_call(rest, d, index);
        let tail = merge_call(rest, d);
        assert(after.drop_first() =~= tail);
        assert forall|i: int| 0 <= i < after.len() implies (#[trigger] after[i]).0 == d.index
            || exists|j: int| 0 <= j < calls.len() && #[trigger] calls[j] == after[i] by {
            if i == 0 {
                assert(calls[0] == after[0]);
            } else {
                assert(after[i] == tail[i - 1]);
                if tail[i - 1].0 != d.index {
                    let j = choose|j: int|
                        0 <= j < rest.len() && #[trigger] rest[j] == tail[i - 1];
                    assert(calls[j + 1] == after[i]);
                }
            }
        }
        assert(ascending(after)) by {
            assert forall|i: int, j: int| 0 <= i < j < after.len() implies (#[trigger] after[i]).0
                < (#[trigger] after[j]).0 by {
                if i == 0 {
                    assert(after[j] == tail[j - 1]);
                    if tail[j - 1].0 != d.index {
                        let k = choose|k: int|
                            0 <= k < rest.len() && #[trigger] rest[k] == tail[j - 1];
                        assert(calls[k + 1] == after[j]);
                    }
                } else {
                    assert(after[i] == tail[i - 1] && after[j] == tail[j - 1]);
                }
            }
        }
    }
}

/// An index below every other is not among them.
proof fn lemma_absent_before(calls: Seq<(u32, ToolCallView)>, index: u32)
    requires
        ascending(calls),
        calls.len() > 0 ==> index < calls[0].0,
    ensures
        call_at(calls, index) is None,
    decreases calls.len(),
{
    if calls.len() > 0 {
        let rest = calls.drop_first();
        assert(ascending(rest)) by {
            assert forall|i: int, j: int| 0 <= i < j < rest.len() implies (#[trigger] rest[i]).0
                < (#[trigger] rest[j]).0 by {
                assert(rest[i] == calls[i + 1]);
                assert(rest[j] == calls[j + 1]);
            }
        }
        if rest.len() > 0 {
            assert(rest[0] == calls[1]);
            assert(calls[0].0 < calls[1].0);
        }
        lemma_absent_before(rest, index);
    }
}

/// What several additions make of the call of an index: those of that index,
/// one after the other.
pub open spec fn extended_all(
    call: Option<ToolCallView>,
    ds: Seq<ToolCallDeltaView>,
    index: u32,
) -> Option<ToolCallView>
    decreases ds.len(),
{
    if ds.len() == 0 {
        call
    } else {
        let before = extended_all(call, ds.drop_last(), index);
        if ds.last().index == index {
            Some(extended(replaced(blank_call(), before), ds.last()))
        } else {
            before
        }
    }
}

/// Several additions keep the calls in order, and every call is made of the
/// additions of its own index alone.
pub proof fn law_merge_calls(
    calls: Seq<(u32, ToolCallView)>,
    ds: Seq<ToolCallDeltaView>,
    index: u32,
)
    requires
        ascending(calls),
    ensures
        ascending(merge_calls(calls, ds)),
        call_at(merge_calls(calls, ds), index) == extended_all(call_at(calls, index), ds, index),
    decreases ds.len(),
{
    if ds.len() > 0 {
        law_merge_calls(calls, ds.drop_last(), index);
        law_merge_call(merge_calls(calls, ds.drop_last()), ds.last(), index);
    }
}

/// Where in the calls an index stands or belongs.
proof fn lemma_merge_at(calls: Seq<(u32, ToolCallView)>, d: ToolCallDeltaView, n: int)
    requires
        0 <= n <= calls.len(),
        forall|i: int| 0 <= i < n ==> (#[trigger] calls[i]).0 < d.index,
        n < calls.len() ==> d.index <= calls[n].0,
    ensures
        n < calls.len() && calls[n].0 == d.index ==> merge_call(calls, d) == calls.update(
            n,
            (d.index, extended(calls[n].1, d)),
        ),
        n == calls.len() || calls[n].0 != d.index ==> merge_call(calls, d) == calls.insert(
            n,
            (d.index, extended(blank_call(), d)),
        ),
    decreases n,
{
    if n == 0 {
        if calls.len() == 0 || calls[0].0 != d.index {
            assert(merge_call(calls, d) =~= calls.insert(
                0,
                (d.index, extended(blank_call(), d)),
            ));
        }
    } else {
        let rest = calls.drop_first();
        assert(calls[0].0 < d.index);
        assert forall|i: int| 0 <= i < n - 1 implies (#[trigger] rest[i]).0 < d.index by {
            assert(rest[i] == calls[i + 1]);
        }
        lemma_merge_at(rest, d, n - 1);
        if n < calls.len() && calls[n].0 == d.index {
            assert(merge_call(calls, d) =~= calls.update(
                n,
                (d.index, extended(calls[n].1, d)),
            ));
        } else {
            assert(merge_call(calls, d) =~= calls.insert(
                n,
                (d.index, extended(blank_call(), d)),
            ));
        }
    }
}

/// Adds to one tool call.
fn extend_call(call: &mut ToolCall, d: ToolCallDelta)
    ensures
        final(call).deep_view() == extended(old(call).deep_view(), d.deep_view()),
{
    if let Some(id) = d.id {
        call.id = id;
    }
    if let Some(f) = d.function {
        if let Some(n) = f.name {
            call.function.name = n;
        }
        if let Some(a) = f.arguments {
            call.function.arguments.append(a.as_str());
        }
    }
}

impl Draft {
    pub fn new() -> (r: Draft)
        ensures
            r.deep_view() == DraftView::blank(),
    {
        let calls: Vec<(u32, ToolCall)> = Vec::new();
        proof {
            assert(calls.deep_view() =~= Seq::empty());
        }
        Draft { content: String::new(), reasoning: String::new(), role: None, calls }
    }

    /// Adds to the tool call of an index.
    fn merge(&mut self, d: ToolCallDelta)
        ensures
            final(self).deep_view() == (DraftView {
                calls: merge_call(old(self).deep_view().calls, d.deep_view()),
                ..old(self).deep_view()
            }),
    {
        let ghost before = self.calls.deep_view();
        let ghost dv = d.deep_view();
        let mut n: usize = 0;
        while n < self.calls.len() && self.calls[n].0 < d.index
            invariant
                n <= self.calls@.len(),
                before == self.calls.deep_view(),
                dv == d.deep_view(),
                forall|i: int| 0 <= i < n ==> (#[trigger] before[i]).0 < d.index,
            decreases self.calls@.len() - n,
        {
            assert(before[n as int].0 == self.calls@[n as int].0);
            n = n + 1;
        }
        proof {
            if n < self.calls@.len() {
                assert(before[n as int].0 == self.calls@[n as int].0);
            }
            lemma_merge_at(before, dv, n as int);
        }
        let index: u32 = d.index;
        let ghost stands = n < before.len() && before[n as int].0 == index;
        let mut call = if n < self.calls.len() && self.calls[n].0 == index {
            let c = self.calls.remove(n);
            c.1
        } else {
            ToolCall {
                id: String::new(),
                function: ToolCallFunction { name: String::new(), arguments: String::new() },
            }
        };
        let ghost start = call.deep_view();
        extend_call(&mut call, d);
        let ghost done = call.deep_view();
        proof {
            assert(done == extended(start, dv));
            if stands {
                assert(start == before[n as int].1);
            } else {
                assert(start == blank_call()) by {
                    assert(start.id =~= Seq::empty());
                    assert(start.name =~= Seq::empty());
                    assert(start.arguments =~= Seq::empty());
                }
            }
        }
        self.calls.insert(n, (index, call));
        proof {
            if stands {
                assert(self.calls.deep_view() =~= before.update(n as int, (index, done)));
            } else {
                assert(self.calls.deep_view() =~= before.insert(n as int, (index, done)));
            }
        }
    }

    /// Absorbs an addition; the end of a stream adds nothing.
    pub fn absorb(&mut self, chunk: StreamChunk)
        ensures
            final(self).deep_view() == (match chunk.deep_view() {
                StreamChunkView::Delta(d) => old(self).deep_view().absorb(d),
                StreamChunkView::Finish(_, _) => old(self).deep_view(),
            }),
    {
        match chunk {
            StreamChunk::Delta { content, reasoning_content, tool_calls, role } => {
                if let Some(c) = content {
                    self.content.append(c.as_str());
                }
                if let Some(r) = reasoning_content {
                    self.reasoning.append(r.as_str());
                }
                if let Some(r) = role {
                    self.role = Some(r);
                }
                let ghost start = self.deep_view();
                let ghost all = tool_calls.deep_view();
                let mut rest = tool_calls;
                let mut i: usize = 0;
                let n: usize = rest.len();
                let ghost kept = rest@;
                proof {
                    assert(all.take(0) =~= Seq::empty());
                }
                while i < n
                    invariant
                        i <= n,
                        n == kept.len(),
                        rest@ == kept.skip(i as int),
                        all == kept.map_values(|d: ToolCallDelta| d.deep_view()),
                        self.deep_view() == (DraftView {
                            calls: merge_calls(start.calls, all.take(i as int)),
                            ..start
                        }),
                    decreases n - i,
                {
                    let d = rest.remove(0);
                    proof {
                        assert(d == kept[i as int]);
                        assert(rest@ =~= kept.skip(i + 1));
                        assert(all.take(i + 1).drop_last() =~= all.take(i as int));
                        assert(all.take(i + 1).last() == d.deep_view());
                    }
                    self.merge(d);
                    i = i + 1;
                }
                proof {
                    assert(all.take(n as int) =~= all);
                }
            },
            StreamChunk::Finish { .. } => {},
        }
    }

    /// The message that the draft makes.
    pub fn message(self, usage: Option<TokenUsage>) -> (r: Message)
        ensures
            r.deep_view() == self.deep_view().message(usage),
    {
        let mut tool_calls: Vec<ToolCall> = Vec::new();
        let ghost all = self.calls.deep_view();
        let ghost wanted = all.map_values(|c: (u32, ToolCallView)| c.1);
        let mut i: usize = 0;
        while i < self.calls.len()
            invariant
                i <= self.calls@.len(),
                all == self.calls.deep_view(),
                wanted == all.map_values(|c: (u32, ToolCallView)| c.1),
                tool_calls.deep_view() == wanted.take(i as int),
            decreases self.calls@.len() - i,
        {
            let ghost before = tool_calls.deep_view();
            let c = self.calls[i].1.clone();
            tool_calls.push(c);
            proof {
                assert(tool_calls.deep_view() =~= before.push(c.deep_view()));
                assert(wanted.take(i + 1) =~= wanted.take(i as int).push(wanted[i as int]));
            }
            i = i + 1;
        }
        proof {
            assert(wanted.take(wanted.len() as int) =~= wanted);
        }
        Message {
            role: match self.role {
                Some(r) => r,
                None => Role::Assistant,
            },
            reasoning_content: if self.reasoning.as_str().is_empty() {
                None
            } else {
                Some(self.reasoning.clone())
            },
            content: MessageContent::Text(self.content),
            tool_calls,
            tool_call_id: None,
            usage,
        }
    }
}

} // verus!
