//! What a streamed answer adds up to: every piece of it, where it belongs, in the
//! order in which the pieces came.

use vstd::prelude::*;
use vstd::string::*;

use crate::engine::stream::{delta_events, AccumulatorView, DeltaEventView};
use crate::json::JsonView;
use crate::provider::chunks::{chunks_from, ChunkStateView};
use crate::provider::completions_laws::{count_value, law_call_delta_is_read, law_delta_is_read};
use crate::provider::draft::{
    ascending, blank_call, call_at, extended_all, law_merge_calls, merge_call, merge_calls,
    DraftView,
};
use crate::provider::openai_compat::{call_delta_of, chunk_of, delta_of, mapped};
use crate::provider::sse::{
    fold_events, ChunkPartsView, FoldView, MappedEventView, WireBodyView,
};
use crate::provider::{
    FinishReasonView, LlmErrorView, MessageContentView, Role, StreamChunkView,
    TokenUsage, ToolCallDeltaView, ToolCallView,
};

verus! {

broadcast use vstd::string::group_string_axioms;

/// Some addition belongs to the call under an index.
pub open spec fn mentioned(ds: Seq<ToolCallDeltaView>, n: u32) -> bool {
    exists|i: int| 0 <= i < ds.len() && (#[trigger] ds[i]).index == n
}

/// The pieces of arguments that came under an index, one after the other.
pub open spec fn joined_arguments(ds: Seq<ToolCallDeltaView>, n: u32) -> Seq<char>
    decreases ds.len(),
{
    if ds.len() == 0 {
        Seq::empty()
    } else {
        let before = joined_arguments(ds.drop_last(), n);
        match ds.last().function {
            Some(f) if ds.last().index == n => match f.arguments {
                Some(a) => before + a,
                None => before,
            },
            _ => before,
        }
    }
}

/// The last id that came under an index.
pub open spec fn given_id(ds: Seq<ToolCallDeltaView>, n: u32) -> Seq<char>
    decreases ds.len(),
{
    if ds.len() == 0 {
        Seq::empty()
    } else if ds.last().index == n && ds.last().id is Some {
        ds.last().id->0
    } else {
        given_id(ds.drop_last(), n)
    }
}

/// The last name that came under an index.
pub open spec fn given_name(ds: Seq<ToolCallDeltaView>, n: u32) -> Seq<char>
    decreases ds.len(),
{
    if ds.len() == 0 {
        Seq::empty()
    } else if ds.last().index == n && ds.last().function is Some
        && ds.last().function->0.name is Some {
        ds.last().function->0.name->0
    } else {
        given_name(ds.drop_last(), n)
    }
}

/// The call that the additions under an index make.
proof fn lemma_extended_all(ds: Seq<ToolCallDeltaView>, n: u32)
    ensures
        extended_all(None, ds, n) == (if mentioned(ds, n) {
            Some(
                ToolCallView {
                    id: given_id(ds, n),
                    name: given_name(ds, n),
                    arguments: joined_arguments(ds, n),
                },
            )
        } else {
            None
        }),
        !mentioned(ds, n) ==> given_id(ds, n).len() == 0 && given_name(ds, n).len() == 0
            && joined_arguments(ds, n).len() == 0,
    decreases ds.len(),
{
    if ds.len() > 0 {
        let before = ds.drop_last();
        lemma_extended_all(before, n);
        if ds.last().index == n {
            assert(ds[ds.len() - 1].index == n);
            if !mentioned(before, n) {
                assert(given_id(before, n) =~= Seq::empty());
                assert(given_name(before, n) =~= Seq::empty());
                assert(joined_arguments(before, n) =~= Seq::empty());
            }
        } else {
            if mentioned(ds, n) {
                let i = choose|i: int| 0 <= i < ds.len() && (#[trigger] ds[i]).index == n;
                assert(before[i].index == n);
            }
            if mentioned(before, n) {
                let i = choose|i: int| 0 <= i < before.len() && (#[trigger] before[i]).index == n;
                assert(ds[i].index == n);
            }
        }
    }
}

/// A call that is found under an index stands at a place; one that is not found stands
/// at none.
proof fn lemma_call_at(calls: Seq<(u32, ToolCallView)>, n: u32)
    ensures
        call_at(calls, n) matches Some(c) ==> exists|i: int|
            0 <= i < calls.len() && #[trigger] calls[i] == (n, c),
        call_at(calls, n) is None ==> forall|i: int|
            0 <= i < calls.len() ==> (#[trigger] calls[i]).0 != n,
    decreases calls.len(),
{
    if calls.len() > 0 {
        if calls[0].0 == n {
            assert(calls[0] == (n, calls[0].1));
        } else {
            let rest = calls.drop_first();
            lemma_call_at(rest, n);
            if let Some(c) = call_at(rest, n) {
                let i = choose|i: int| 0 <= i < rest.len() && #[trigger] rest[i] == (n, c);
                assert(calls[i + 1] == (n, c));
            } else {
                assert forall|i: int| 0 <= i < calls.len() implies (#[trigger] calls[i]).0 != n by {
                    if i > 0 {
                        assert(rest[i - 1].0 != n);
                    }
                }
            }
        }
    }
}

/// Additions fold into one call for each index among them, in the order of the indices.
/// The call has the last id and the last name that came under its index, and as its
/// arguments exactly the pieces that came under it, joined in their order.
pub proof fn law_calls_are_joined(ds: Seq<ToolCallDeltaView>, n: u32)
    ensures
        ({
            let calls = merge_calls(Seq::empty(), ds);
            &&& forall|i: int, j: int|
                0 <= i < j < calls.len() ==> (#[trigger] calls[i]).0 < (#[trigger] calls[j]).0
            &&& mentioned(ds, n) ==> exists|i: int|
                {
                    &&& 0 <= i < calls.len()
                    &&& (#[trigger] calls[i]).0 == n
                    &&& calls[i].1.id == given_id(ds, n)
                    &&& calls[i].1.name == given_name(ds, n)
                    &&& calls[i].1.arguments == joined_arguments(ds, n)
                }
            &&& !mentioned(ds, n) ==> forall|i: int|
                0 <= i < calls.len() ==> (#[trigger] calls[i]).0 != n
        }),
{
    let calls = merge_calls(Seq::empty(), ds);
    law_merge_calls(Seq::empty(), ds, n);
    lemma_extended_all(ds, n);
    lemma_call_at(calls, n);
    if mentioned(ds, n) {
        let c = call_at(calls, n)->0;
        let i = choose|i: int| 0 <= i < calls.len() && #[trigger] calls[i] == (n, c);
        assert(calls[i].0 == n);
    }
}

/// Additions in two parts are the additions of both.
pub proof fn law_calls_in_parts(
    calls: Seq<(u32, ToolCallView)>,
    a: Seq<ToolCallDeltaView>,
    b: Seq<ToolCallDeltaView>,
)
    ensures
        merge_calls(merge_calls(calls, a), b) == merge_calls(calls, a + b),
    decreases b.len(),
{
    if b.len() == 0 {
        assert(a + b =~= a);
    } else {
        law_calls_in_parts(calls, a, b.drop_last());
        assert((a + b).drop_last() =~= a + b.drop_last());
        assert((a + b).last() == b.last());
    }
}

/// The pieces of text of a stream, one after the other.
pub open spec fn all_text(chunks: Seq<StreamChunkView>) -> Seq<char>
    decreases chunks.len(),
{
    if chunks.len() == 0 {
        Seq::empty()
    } else {
        let before = all_text(chunks.drop_last());
        match chunks.last() {
            StreamChunkView::Delta(d) if d.content is Some => before + d.content->0,
            _ => before,
        }
    }
}

/// The pieces of thought of a stream, one after the other.
pub open spec fn all_thoughts(chunks: Seq<StreamChunkView>) -> Seq<char>
    decreases chunks.len(),
{
    if chunks.len() == 0 {
        Seq::empty()
    } else {
        let before = all_thoughts(chunks.drop_last());
        match chunks.last() {
            StreamChunkView::Delta(d) if d.reasoning_content is Some => before
                + d.reasoning_content->0,
            _ => before,
        }
    }
}

/// The additions to tool calls of a stream, in their order.
pub open spec fn all_call_deltas(chunks: Seq<StreamChunkView>) -> Seq<ToolCallDeltaView>
    decreases chunks.len(),
{
    if chunks.len() == 0 {
        Seq::empty()
    } else {
        let before = all_call_deltas(chunks.drop_last());
        match chunks.last() {
            StreamChunkView::Delta(d) => before + d.tool_calls,
            _ => before,
        }
    }
}

/// The last role that a stream names; that of the assistant where it names none.
pub open spec fn named_role(chunks: Seq<StreamChunkView>) -> Role
    decreases chunks.len(),
{
    if chunks.len() == 0 {
        Role::Assistant
    } else {
        match chunks.last() {
            StreamChunkView::Delta(d) if d.role is Some => d.role->0,
            _ => named_role(chunks.drop_last()),
        }
    }
}

/// A draft that holds exactly what a stream said.
pub open spec fn holds(draft: DraftView, chunks: Seq<StreamChunkView>) -> bool {
    &&& draft.content == all_text(chunks)
    &&& draft.reasoning == all_thoughts(chunks)
    &&& draft.calls == merge_calls(Seq::empty(), all_call_deltas(chunks))
    &&& (match draft.role {
        Some(r) => r,
        None => Role::Assistant,
    }) == named_role(chunks)
}

/// One more addition.
proof fn lemma_holds(draft: DraftView, chunks: Seq<StreamChunkView>, chunk: StreamChunkView)
    requires
        holds(draft, chunks),
    ensures
        holds(
            match chunk {
                StreamChunkView::Delta(d) => draft.absorb(d),
                _ => draft,
            },
            chunks.push(chunk),
        ),
{
    assert(chunks.push(chunk).drop_last() =~= chunks);
    if let StreamChunkView::Delta(d) = chunk {
        law_calls_in_parts(Seq::empty(), all_call_deltas(chunks), d.tool_calls);
    }
}

/// The message of a draft that holds what a stream said.
proof fn lemma_held_message(
    draft: DraftView,
    chunks: Seq<StreamChunkView>,
    usage: Option<TokenUsage>,
    n: u32,
)
    requires
        holds(draft, chunks),
    ensures
        draft.message(usage).content == MessageContentView::Text(all_text(chunks)),
        draft.message(usage).reasoning_content == (if all_thoughts(chunks).len() > 0 {
            Some(all_thoughts(chunks))
        } else {
            None
        }),
        draft.message(usage).role == named_role(chunks),
        draft.message(usage).usage == usage,
        draft.message(usage).tool_call_id is None,
        mentioned(all_call_deltas(chunks), n) ==> exists|i: int|
            {
                &&& 0 <= i < draft.message(usage).tool_calls.len()
                &&& (#[trigger] draft.message(usage).tool_calls[i]).arguments == joined_arguments(
                    all_call_deltas(chunks),
                    n,
                )
                &&& draft.message(usage).tool_calls[i].id == given_id(all_call_deltas(chunks), n)
                &&& draft.message(usage).tool_calls[i].name == given_name(
                    all_call_deltas(chunks),
                    n,
                )
            },
        all_call_deltas(chunks).len() == 0 ==> draft.message(usage).tool_calls.len() == 0,
{
    let ds = all_call_deltas(chunks);
    law_calls_are_joined(ds, n);
    let calls = draft.calls;
    if mentioned(ds, n) {
        let i = choose|i: int|
            {
                &&& 0 <= i < calls.len()
                &&& (#[trigger] calls[i]).0 == n
                &&& calls[i].1.id == given_id(ds, n)
                &&& calls[i].1.name == given_name(ds, n)
                &&& calls[i].1.arguments == joined_arguments(ds, n)
            };
        assert(draft.message(usage).tool_calls[i] == calls[i].1);
    }
}

/// The last end that a stream tells.
pub open spec fn told_end(chunks: Seq<StreamChunkView>) -> Option<
    (FinishReasonView, Option<TokenUsage>),
>
    decreases chunks.len(),
{
    if chunks.len() == 0 {
        None
    } else {
        match chunks.last() {
            StreamChunkView::Finish(r, u) => Some((r, u)),
            _ => told_end(chunks.drop_last()),
        }
    }
}

/// What is gathered of a stream.
proof fn lemma_gathered(chunks: Seq<StreamChunkView>)
    ensures
        holds(AccumulatorView::blank().plus_all(chunks).draft, chunks),
        AccumulatorView::blank().plus_all(chunks).end == told_end(chunks),
    decreases chunks.len(),
{
    if chunks.len() > 0 {
        lemma_gathered(chunks.drop_last());
        lemma_holds(
            AccumulatorView::blank().plus_all(chunks.drop_last()).draft,
            chunks.drop_last(),
            chunks.last(),
        );
        assert(chunks.drop_last().push(chunks.last()) =~= chunks);
    }
}

/// A stream that tells its end is answered with all its text, all its thoughts, and one
/// call for each index with all its own pieces; the reason and the usage are those told.
/// One that tells no end is answered with nothing.
pub proof fn law_stream_is_gathered(chunks: Seq<StreamChunkView>, provider: Seq<char>, n: u32)
    ensures
        told_end(chunks) is None ==> AccumulatorView::blank().plus_all(chunks).response(
            provider,
        ) is None,
        told_end(chunks) matches Some((reason, usage)) ==> {
            &&& AccumulatorView::blank().plus_all(chunks).response(provider) matches Some(r)
            &&& r.finish_reason == reason
            &&& r.usage == usage
            &&& r.id == provider
            &&& r.model == provider
            &&& r.message.usage == usage
            &&& r.message.role == named_role(chunks)
            &&& r.message.content == MessageContentView::Text(all_text(chunks))
            &&& r.message.reasoning_content == (if all_thoughts(chunks).len() > 0 {
                Some(all_thoughts(chunks))
            } else {
                None
            })
            &&& r.message.tool_call_id is None
            &&& mentioned(all_call_deltas(chunks), n) ==> exists|i: int|
                {
                    &&& 0 <= i < r.message.tool_calls.len()
                    &&& (#[trigger] r.message.tool_calls[i]).arguments == joined_arguments(
                        all_call_deltas(chunks),
                        n,
                    )
                    &&& r.message.tool_calls[i].id == given_id(all_call_deltas(chunks), n)
                    &&& r.message.tool_calls[i].name == given_name(all_call_deltas(chunks), n)
                }
            &&& all_call_deltas(chunks).len() == 0 ==> r.message.tool_calls.len() == 0
        },
{
    lemma_gathered(chunks);
    if let Some((reason, usage)) = told_end(chunks) {
        lemma_held_message(AccumulatorView::blank().plus_all(chunks).draft, chunks, usage, n);
    }
}

/// What a chunk shows while it streams is what it adds: its thoughts, and after them
/// its text.
pub proof fn law_chunk_is_shown(chunk: StreamChunkView, s: Seq<char>)
    ensures
        delta_events(chunk).contains(DeltaEventView::Text(s)) <==> (chunk matches StreamChunkView::Delta(d)
            && d.content == Some(s)),
        delta_events(chunk).contains(DeltaEventView::Thinking(s)) <==> (chunk matches StreamChunkView::Delta(
            d,
        ) && d.reasoning_content == Some(s)),
        chunk matches StreamChunkView::Delta(d) ==> (d.content is Some && d.reasoning_content is Some
            ==> delta_events(chunk).len() == 2 && delta_events(chunk)[0] is Thinking
            && delta_events(chunk)[1] is Text),
{
    if let StreamChunkView::Delta(d) = chunk {
        if let Some(t) = d.content {
            assert(delta_events(chunk).last() == DeltaEventView::Text(t));
        }
        if let Some(t) = d.reasoning_content {
            assert(delta_events(chunk)[0] == DeltaEventView::Thinking(t));
        }
    }
}

/// The additions of events, in their order.
pub open spec fn additions(events: Seq<ChunkPartsView>) -> Seq<StreamChunkView>
    decreases events.len(),
{
    if events.len() == 0 {
        Seq::empty()
    } else {
        match events.last().0 {
            Some(c) => additions(events.drop_last()).push(c),
            None => additions(events.drop_last()),
        }
    }
}

/// The last reason that events give.
pub open spec fn given_reason(events: Seq<ChunkPartsView>) -> Option<FinishReasonView>
    decreases events.len(),
{
    if events.len() == 0 {
        None
    } else if events.last().1 is Some {
        events.last().1
    } else {
        given_reason(events.drop_last())
    }
}

/// The last usage that events give.
pub open spec fn given_usage(events: Seq<ChunkPartsView>) -> Option<TokenUsage>
    decreases events.len(),
{
    if events.len() == 0 {
        None
    } else if events.last().2 is Some {
        events.last().2
    } else {
        given_usage(events.drop_last())
    }
}

/// The first id that is not empty.
pub open spec fn first_id(events: Seq<MappedEventView>) -> Seq<char>
    decreases events.len(),
{
    if events.len() == 0 {
        Seq::empty()
    } else if first_id(events.drop_last()).len() > 0 {
        first_id(events.drop_last())
    } else {
        match events.last().meta {
            Some((i, m)) => i,
            None => Seq::empty(),
        }
    }
}

/// The first model that is not empty.
pub open spec fn first_model(events: Seq<MappedEventView>) -> Seq<char>
    decreases events.len(),
{
    if events.len() == 0 {
        Seq::empty()
    } else if first_model(events.drop_last()).len() > 0 {
        first_model(events.drop_last())
    } else {
        match events.last().meta {
            Some((i, m)) => m,
            None => Seq::empty(),
        }
    }
}

/// Every event could be read, as these parts.
pub open spec fn read_as(events: Seq<MappedEventView>, parts: Seq<ChunkPartsView>) -> bool {
    &&& events.len() == parts.len()
    &&& forall|i: int|
        0 <= i < events.len() ==> (#[trigger] events[i]).parts == Ok::<
            ChunkPartsView,
            LlmErrorView,
        >(parts[i])
}

/// What is folded out of events.
proof fn lemma_folded(events: Seq<MappedEventView>, parts: Seq<ChunkPartsView>)
    requires
        read_as(events, parts),
    ensures
        fold_events(events) matches Ok(f) && {
            &&& holds(f.draft, additions(parts))
            &&& f.finish == given_reason(parts)
            &&& f.usage == given_usage(parts)
            &&& f.id == first_id(events)
            &&& f.model == first_model(events)
        },
    decreases events.len(),
{
    if events.len() > 0 {
        let es = events.drop_last();
        let ps = parts.drop_last();
        assert forall|i: int| 0 <= i < es.len() implies (#[trigger] es[i]).parts == Ok::<
            ChunkPartsView,
            LlmErrorView,
        >(ps[i]) by {
            assert(es[i] == events[i]);
        }
        lemma_folded(es, ps);
        assert(events[events.len() - 1].parts == Ok::<ChunkPartsView, LlmErrorView>(
            parts[parts.len() - 1],
        ));
        let f = fold_events(es)->Ok_0;
        if let Some(c) = parts.last().0 {
            lemma_holds(f.draft, additions(ps), c);
        }
        assert(f.id.len() == 0 ==> f.id =~= Seq::empty());
        assert(f.model.len() == 0 ==> f.model =~= Seq::empty());
    }
}

/// An answer that came as events is the message of all their text, all their thoughts
/// and, for each index, a call of all its own pieces; with the first id and model, and
/// the last reason and usage.
pub proof fn law_events_are_folded(
    events: Seq<MappedEventView>,
    parts: Seq<ChunkPartsView>,
    id: Seq<char>,
    model: Seq<char>,
    n: u32,
)
    requires
        read_as(events, parts),
    ensures
        ({
            let chunks = additions(parts);
            &&& fold_events(events) matches Ok(f)
            &&& ({
                let r = f.response(id, model);
                &&& r.id == (if first_id(events).len() > 0 {
                    first_id(events)
                } else {
                    id
                })
                &&& r.model == (if first_model(events).len() > 0 {
                    first_model(events)
                } else {
                    model
                })
                &&& r.finish_reason == (match given_reason(parts) {
                    Some(f) => f,
                    None => FinishReasonView::Stop,
                })
                &&& r.usage == given_usage(parts)
                &&& r.message.usage == given_usage(parts)
                &&& r.message.role == named_role(chunks)
                &&& r.message.content == MessageContentView::Text(all_text(chunks))
                &&& r.message.reasoning_content == (if all_thoughts(chunks).len() > 0 {
                    Some(all_thoughts(chunks))
                } else {
                    None
                })
                &&& mentioned(all_call_deltas(chunks), n) ==> exists|i: int|
                    {
                        &&& 0 <= i < r.message.tool_calls.len()
                        &&& (#[trigger] r.message.tool_calls[i]).arguments == joined_arguments(
                            all_call_deltas(chunks),
                            n,
                        )
                        &&& r.message.tool_calls[i].id == given_id(all_call_deltas(chunks), n)
                        &&& r.message.tool_calls[i].name == given_name(all_call_deltas(chunks), n)
                    }
                &&& all_call_deltas(chunks).len() == 0 ==> r.message.tool_calls.len() == 0
            })
        }),
{
    lemma_folded(events, parts);
    let f = fold_events(events)->Ok_0;
    lemma_held_message(f.draft, additions(parts), f.usage, n);
}

/// An event that could not be read is the answer, if it is the first such event.
pub proof fn law_first_error_is_told(events: Seq<MappedEventView>, k: int, e: LlmErrorView)
    requires
        0 <= k < events.len(),
        events[k].parts == Err::<ChunkPartsView, LlmErrorView>(e),
        forall|i: int| 0 <= i < k ==> (#[trigger] events[i]).parts is Ok,
    ensures
        fold_events(events) == Err::<FoldView, LlmErrorView>(e),
    decreases events.len(),
{
    let es = events.drop_last();
    if k == events.len() - 1 {
        let ps = Seq::new(es.len(), |i: int| es[i].parts->Ok_0);
        assert forall|i: int| 0 <= i < es.len() implies (#[trigger] es[i]).parts == Ok::<
            ChunkPartsView,
            LlmErrorView,
        >(ps[i]) by {
            assert(events[i].parts is Ok);
        }
        lemma_folded(es, ps);
    } else {
        assert forall|i: int| 0 <= i < k implies (#[trigger] es[i]).parts is Ok by {
            assert(es[i] == events[i]);
        }
        law_first_error_is_told(es, k, e);
    }
}

/// Reason and usage after some more events.
proof fn lemma_told_first(e: ChunkPartsView, events: Seq<ChunkPartsView>)
    ensures
        given_reason(seq![e] + events) == (if given_reason(events) is Some {
            given_reason(events)
        } else {
            e.1
        }),
        given_usage(seq![e] + events) == (if given_usage(events) is Some {
            given_usage(events)
        } else {
            e.2
        }),
        additions(seq![e] + events) == (match e.0 {
            Some(c) => seq![c] + additions(events),
            None => additions(events),
        }),
    decreases events.len(),
{
    let all = seq![e] + events;
    if events.len() == 0 {
        assert(all =~= seq![e]);
        assert(all.drop_last() =~= Seq::empty());
        assert(additions(all.drop_last()) =~= Seq::empty());
        assert(given_reason(all.drop_last()) is None && given_reason(events) is None);
        assert(given_usage(all.drop_last()) is None && given_usage(events) is None);
        if let Some(c) = e.0 {
            assert(additions(all) =~= seq![c] + additions(events));
        }
    } else {
        lemma_told_first(e, events.drop_last());
        assert(all.drop_last() =~= seq![e] + events.drop_last());
        assert(all.last() == events.last());
        if let Some(c) = events.last().0 {
            if let Some(d) = e.0 {
                assert((seq![d] + additions(events.drop_last())).push(c) =~= seq![d] + additions(
                    events,
                ));
            }
        }
    }
}

/// A later of two values that may be absent.
pub open spec fn later<T>(before: Option<T>, after: Option<T>) -> Option<T> {
    if after is Some {
        after
    } else {
        before
    }
}

/// What goes out from a state.
proof fn lemma_passed_on(s: ChunkStateView, events: Seq<ChunkPartsView>)
    requires
        !s.finish_emitted,
        forall|k: int|
            0 <= k < events.len() ==> later(
                s.pending_finish,
                given_reason(#[trigger] events.take(k)),
            ) is None || later(s.pending_usage, given_usage(events.take(k))) is None,
    ensures
        chunks_from(s, events) == additions(events) + (match later(
            s.pending_finish,
            given_reason(events),
        ) {
            Some(f) => seq![
                StreamChunkView::Finish(f, later(s.pending_usage, given_usage(events))),
            ],
            None => Seq::empty(),
        }),
    decreases events.len(),
{
    let end = match later(s.pending_finish, given_reason(events)) {
        Some(f) => seq![StreamChunkView::Finish(f, later(s.pending_usage, given_usage(events)))],
        None => Seq::empty(),
    };
    if events.len() == 0 {
        assert(additions(events) + end =~= end);
    } else {
        let e = events[0];
        let rest = events.drop_first();
        let t = s.note(e);
        assert(events.take(0) =~= Seq::empty());
        assert(seq![e] + rest =~= events);
        lemma_told_first(e, rest);
        assert forall|k: int| 0 <= k < rest.len() implies later(
            t.pending_finish,
            given_reason(#[trigger] rest.take(k)),
        ) is None || later(t.pending_usage, given_usage(rest.take(k))) is None by {
            assert(events.take(k + 1) =~= seq![e] + rest.take(k));
            lemma_told_first(e, rest.take(k));
        }
        lemma_passed_on(t, rest);
        if let Some(d) = e.0 {
            assert(seq![d] + (additions(rest) + end) =~= (seq![d] + additions(rest)) + end);
        }
    }
}

/// Every addition of a stream goes out, in its order, and after them the end with the
/// last reason and the last usage, where a reason was given; so long as reason and
/// usage were not both known before the last event.
pub proof fn law_additions_pass_on(events: Seq<ChunkPartsView>)
    requires
        forall|k: int|
            0 <= k < events.len() ==> given_reason(#[trigger] events.take(k)) is None
                || given_usage(events.take(k)) is None,
    ensures
        chunks_from(ChunkStateView::start(), events) == additions(events) + (match given_reason(
            events,
        ) {
            Some(f) => seq![StreamChunkView::Finish(f, given_usage(events))],
            None => Seq::empty(),
        }),
{
    lemma_passed_on(ChunkStateView::start(), events);
}

/// The texts of arguments of elements under an index, one after the other.
pub open spec fn wire_arguments(ts: Seq<JsonView>, n: u32) -> Seq<char>
    decreases ts.len(),
{
    if ts.len() == 0 {
        Seq::empty()
    } else {
        let before = wire_arguments(ts.drop_last(), n);
        if ts.last().get("index"@) == count_value(n as int) {
            match ts.last().get("function"@) {
                Some(f) => match f.get("arguments"@) {
                    Some(JsonView::Text(a)) => before + a,
                    _ => before,
                },
                None => before,
            }
        } else {
            before
        }
    }
}

/// The additions read from elements.
pub open spec fn read_deltas(ts: Seq<JsonView>) -> Seq<ToolCallDeltaView> {
    ts.map_values(|t: JsonView| call_delta_of(t))
}

/// The pieces that are read are the pieces that were sent.
proof fn lemma_wire_arguments(ts: Seq<JsonView>, n: u32)
    requires
        forall|i: int|
            0 <= i < ts.len() ==> exists|k: u32|
                (#[trigger] ts[i]).get("index"@) == #[trigger] count_value(k as int),
    ensures
        joined_arguments(read_deltas(ts), n) == wire_arguments(ts, n),
    decreases ts.len(),
{
    if ts.len() > 0 {
        let front = ts.drop_last();
        assert forall|i: int| 0 <= i < front.len() implies exists|k: u32|
            (#[trigger] front[i]).get("index"@) == #[trigger] count_value(k as int) by {
            assert(front[i] == ts[i]);
        }
        lemma_wire_arguments(front, n);
        assert(read_deltas(ts).drop_last() =~= read_deltas(front));
        let t = ts[ts.len() - 1];
        assert(ts.last() == t);
        let k = choose|k: u32| t.get("index"@) == #[trigger] count_value(k as int);
        law_call_delta_is_read(t, k, JsonView::Null, Seq::empty());
        assert(read_deltas(ts).last() == call_delta_of(t));
        if k != n {
            assert(count_value(k as int) != count_value(n as int));
        }
    }
}

/// Elements of a streamed list of tool calls that have different numbers under their
/// index make different calls: the call of a number has exactly the argument texts of
/// the elements with that number, joined in their order.
pub proof fn law_streamed_calls_are_kept_apart(d: JsonView, ts: Seq<JsonView>, m: int)
    requires
        d.get("tool_calls"@) == Some(JsonView::List(ts)),
        0 <= m < ts.len(),
        forall|i: int|
            0 <= i < ts.len() ==> exists|k: u32|
                (#[trigger] ts[i]).get("index"@) == #[trigger] count_value(k as int),
    ensures
        delta_of(d) matches Some(v) && {
            let calls = DraftView::blank().absorb(v).calls;
            &&& forall|i: int, j: int|
                0 <= i < j < calls.len() ==> (#[trigger] calls[i]).0 < (#[trigger] calls[j]).0
            &&& exists|i: int|
                {
                    &&& 0 <= i < calls.len()
                    &&& ts[m].get("index"@) == count_value((#[trigger] calls[i]).0 as int)
                    &&& calls[i].1.arguments == wire_arguments(ts, calls[i].0)
                }
        },
{
    law_delta_is_read(d, Seq::empty(), ts, Role::User);
    let v = delta_of(d)->0;
    assert(v.tool_calls =~= read_deltas(ts));
    let k = choose|k: u32| ts[m].get("index"@) == #[trigger] count_value(k as int);
    law_call_delta_is_read(ts[m], k, JsonView::Null, Seq::empty());
    assert(read_deltas(ts)[m].index == k);
    law_calls_are_joined(read_deltas(ts), k);
    lemma_wire_arguments(ts, k);
    let calls = DraftView::blank().absorb(v).calls;
    let i = choose|i: int|
        {
            &&& 0 <= i < calls.len()
            &&& (#[trigger] calls[i]).0 == k
            &&& calls[i].1.id == given_id(read_deltas(ts), k)
            &&& calls[i].1.name == given_name(read_deltas(ts), k)
            &&& calls[i].1.arguments == joined_arguments(read_deltas(ts), k)
        };
    assert(ts[m].get("index"@) == count_value(calls[i].0 as int));
}

/// A body of events is answered with the message that the events make together: all
/// their text, all their thoughts, and one call for each index; a body in one piece with
/// the response that it holds.
pub proof fn law_streamed_body(events: Seq<JsonView>, j: JsonView, n: u32)
    ensures
        crate::provider::openai_compat::body_response(WireBodyView::Json(j))
            == crate::provider::openai_compat::response_of(j),
        ({
            let parts = events.map_values(|e: JsonView| chunk_of(e));
            let chunks = additions(parts);
            &&& crate::provider::openai_compat::body_response(
                WireBodyView::Sse(events),
            ) matches Ok(r)
            &&& r.message.content == MessageContentView::Text(all_text(chunks))
            &&& r.message.reasoning_content == (if all_thoughts(chunks).len() > 0 {
                Some(all_thoughts(chunks))
            } else {
                None
            })
            &&& r.message.role == named_role(chunks)
            &&& r.usage == given_usage(parts)
            &&& r.finish_reason == (match given_reason(parts) {
                Some(f) => f,
                None => FinishReasonView::Stop,
            })
            &&& mentioned(all_call_deltas(chunks), n) ==> exists|i: int|
                {
                    &&& 0 <= i < r.message.tool_calls.len()
                    &&& (#[trigger] r.message.tool_calls[i]).arguments == joined_arguments(
                        all_call_deltas(chunks),
                        n,
                    )
                    &&& r.message.tool_calls[i].id == given_id(all_call_deltas(chunks), n)
                    &&& r.message.tool_calls[i].name == given_name(all_call_deltas(chunks), n)
                }
        }),
{
    let read = events.map_values(|e: JsonView| mapped(e));
    let parts = events.map_values(|e: JsonView| chunk_of(e));
    assert forall|i: int| 0 <= i < read.len() implies (#[trigger] read[i]).parts == Ok::<
        ChunkPartsView,
        LlmErrorView,
    >(parts[i]) by {}
    law_events_are_folded(read, parts, ""@, ""@, n);
}

} // verus!
