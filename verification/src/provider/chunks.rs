//! From the events of a stream to its chunks: additions pass through, and the
//! end of the stream is announced once.
//!
//! The reason of the end and the token usage may come in different events. The
//! end is announced as soon as both are there, or when the stream is over.

use vstd::prelude::*;

use crate::provider::sse::{ChunkParts, ChunkPartsView};
use crate::provider::{FinishReason, FinishReasonView, StreamChunk, StreamChunkView, TokenUsage};

verus! {

/// What a stream has said of its end so far.
#[derive(Debug)]
pub struct ChunkState {
    pub pending_finish: Option<FinishReason>,
    pub pending_usage: Option<TokenUsage>,
    pub finish_emitted: bool,
}

pub struct ChunkStateView {
    pub pending_finish: Option<FinishReasonView>,
    pub pending_usage: Option<TokenUsage>,
    pub finish_emitted: bool,
}

impl DeepView for ChunkState {
    type V = ChunkStateView;

    open spec fn deep_view(&self) -> ChunkStateView {
        ChunkStateView {
            pending_finish: self.pending_finish.deep_view(),
            pending_usage: self.pending_usage,
            finish_emitted: self.finish_emitted,
        }
    }
}

impl ChunkStateView {
    pub open spec fn start() -> ChunkStateView {
        ChunkStateView { pending_finish: None, pending_usage: None, finish_emitted: false }
    }

    /// Whether the end can be announced now.
    pub open spec fn complete(self) -> bool {
        !self.finish_emitted && self.pending_finish is Some && self.pending_usage is Some
    }

    /// The state after an announcement of the end.
    pub open spec fn announced(self) -> ChunkStateView {
        ChunkStateView { pending_finish: None, pending_usage: None, finish_emitted: true }
    }

    /// The state with what an event said of the end.
    pub open spec fn note(self, parts: ChunkPartsView) -> ChunkStateView {
        ChunkStateView {
            pending_finish: match parts.1 {
                Some(f) => Some(f),
                None => self.pending_finish,
            },
            pending_usage: match parts.2 {
                Some(u) => Some(u),
                None => self.pending_usage,
            },
            ..self
        }
    }
}

/// What comes next.
#[derive(Debug)]
pub enum ChunkStep {
    /// A chunk goes out.
    Emit(StreamChunk),
    /// The next event is needed.
    Pull,
    /// The stream is over.
    End,
}

impl ChunkState {
    pub fn new() -> (r: ChunkState)
        ensures
            r.deep_view() == ChunkStateView::start(),
    {
        ChunkState { pending_finish: None, pending_usage: None, finish_emitted: false }
    }

    /// What comes before the next event: the announcement of the end once it is
    /// complete, and nothing more after it.
    pub fn ready(&mut self) -> (r: ChunkStep)
        ensures
            old(self).deep_view().complete() ==> {
                &&& r matches ChunkStep::Emit(c)
                &&& c.deep_view() == StreamChunkView::Finish(
                    old(self).deep_view().pending_finish->0,
                    old(self).deep_view().pending_usage,
                )
                &&& final(self).deep_view() == old(self).deep_view().announced()
            },
            !old(self).deep_view().complete() ==> final(self).deep_view() == old(self).deep_view(),
            r is End <==> old(self).finish_emitted,
            r is Pull <==> !old(self).finish_emitted && !old(self).deep_view().complete(),
    {
        if self.finish_emitted {
            return ChunkStep::End;
        }
        if self.pending_usage.is_some() {
            if let Some(finish_reason) = self.pending_finish.take() {
                self.finish_emitted = true;
                let usage = self.pending_usage.take();
                return ChunkStep::Emit(StreamChunk::Finish { finish_reason, usage });
            }
        }
        ChunkStep::Pull
    }

    /// Takes what an event gives; its addition goes out.
    pub fn accept(&mut self, parts: ChunkParts) -> (r: Option<StreamChunk>)
        ensures
            final(self).deep_view() == old(self).deep_view().note(parts.deep_view()),
            r.deep_view() == parts.deep_view().0,
    {
        let (delta, finish, usage) = parts;
        if let Some(f) = finish {
            self.pending_finish = Some(f);
        }
        if let Some(u) = usage {
            self.pending_usage = Some(u);
        }
        delta
    }

    /// The announcement of the end where the events are over and only the
    /// reason was said.
    pub fn close(&mut self) -> (r: Option<StreamChunk>)
        ensures
            r is Some <==> !old(self).finish_emitted && old(self).pending_finish is Some,
            r is Some ==> r->0.deep_view() == StreamChunkView::Finish(
                old(self).deep_view().pending_finish->0,
                old(self).deep_view().pending_usage,
            ),
            r is Some ==> final(self).deep_view() == old(self).deep_view().announced(),
            r is None ==> final(self).deep_view() == old(self).deep_view(),
    {
        if self.finish_emitted {
            return None;
        }
        match self.pending_finish.take() {
            Some(finish_reason) => {
                self.finish_emitted = true;
                let usage = self.pending_usage.take();
                Some(StreamChunk::Finish { finish_reason, usage })
            },
            None => None,
        }
    }
}

/// The chunks that a series of events gives from a state on.
pub open spec fn chunks_from(s: ChunkStateView, events: Seq<ChunkPartsView>) -> Seq<
    StreamChunkView,
>
    decreases events.len(),
{
    if s.finish_emitted {
        Seq::empty()
    } else if s.complete() {
        seq![StreamChunkView::Finish(s.pending_finish->0, s.pending_usage)]
    } else if events.len() == 0 {
        match s.pending_finish {
            Some(f) => seq![StreamChunkView::Finish(f, s.pending_usage)],
            None => Seq::empty(),
        }
    } else {
        let rest = chunks_from(s.note(events[0]), events.drop_first());
        match events[0].0 {
            Some(d) => seq![d] + rest,
            None => rest,
        }
    }
}

/// Whether no event passes for the end of the stream by itself.
pub open spec fn only_additions(events: Seq<ChunkPartsView>) -> bool {
    forall|i: int|
        0 <= i < events.len() ==> ((#[trigger] events[i]).0 matches Some(c) ==> c is Delta)
}

/// The end of a stream is announced at most once, and nothing follows it.
pub proof fn law_finish_comes_last(s: ChunkStateView, events: Seq<ChunkPartsView>, i: int)
    requires
        only_additions(events),
        0 <= i < chunks_from(s, events).len(),
        chunks_from(s, events)[i] is Finish,
    ensures
        i == chunks_from(s, events).len() - 1,
    decreases events.len(),
{
    if !s.finish_emitted && !s.complete() && events.len() > 0 {
        let tail = events.drop_first();
        assert forall|j: int| 0 <= j < tail.len() implies ((#[trigger] tail[j]).0 matches Some(
            c,
        ) ==> c is Delta) by {
            assert(tail[j] == events[j + 1]);
        }
        let rest = chunks_from(s.note(events[0]), tail);
        if events[0].0 is Some {
            assert(chunks_from(s, events) == seq![events[0].0->0] + rest);
            if i > 0 {
                assert(rest[i - 1] == chunks_from(s, events)[i]);
                law_finish_comes_last(s.note(events[0]), tail, i - 1);
            }
        } else {
            law_finish_comes_last(s.note(events[0]), tail, i);
        }
    }
}

/// A stream that says why it ends has its end announced.
pub proof fn law_reason_is_announced(s: ChunkStateView, events: Seq<ChunkPartsView>)
    requires
        !s.finish_emitted,
        s.pending_finish is Some || exists|i: int|
            0 <= i < events.len() && (#[trigger] events[i]).1 is Some,
    ensures
        chunks_from(s, events).len() > 0,
        chunks_from(s, events).last() is Finish,
    decreases events.len(),
{
    if !s.complete() && events.len() > 0 {
        let tail = events.drop_first();
        let next = s.note(events[0]);
        if next.pending_finish is None {
            let i = choose|i: int| 0 <= i < events.len() && (#[trigger] events[i]).1 is Some;
            assert(tail[i - 1] == events[i]);
        }
        law_reason_is_announced(next, tail);
        let rest = chunks_from(next, tail);
        if events[0].0 is Some {
            let all = seq![events[0].0->0] + rest;
            assert(all.last() == rest.last());
        }
    }
}

/// The chunks of a whole stream of events.
pub fn chunks_of(events: Vec<ChunkParts>) -> (r: Vec<StreamChunk>)
    ensures
        r.deep_view() == chunks_from(ChunkStateView::start(), events.deep_view()),
{
    let mut state = ChunkState::new();
    let mut out: Vec<StreamChunk> = Vec::new();
    let mut rest = events;
    let ghost all = chunks_from(ChunkStateView::start(), events.deep_view());
    proof {
        assert(out.deep_view() + all =~= all);
    }
    loop
        invariant
            all == chunks_from(ChunkStateView::start(), events.deep_view()),
            all == out.deep_view() + chunks_from(state.deep_view(), rest.deep_view()),
        decreases rest@.len() + (if state.finish_emitted { 0int } else { 1 }),
    {
        let ghost before = out.deep_view();
        let ghost was = state.deep_view();
        match state.ready() {
            ChunkStep::End => {
                proof {
                    assert(before + Seq::empty() =~= before);
                }
                return out;
            },
            ChunkStep::Emit(c) => {
                let ghost cv = c.deep_view();
                out.push(c);
                proof {
                    assert(out.deep_view() =~= before.push(cv));
                    assert(before + seq![cv] =~= before.push(cv) + Seq::empty());
                }
            },
            ChunkStep::Pull => {
                if rest.len() == 0 {
                    if let Some(c) = state.close() {
                        let ghost cv = c.deep_view();
                        out.push(c);
                        proof {
                            assert(out.deep_view() =~= before.push(cv));
                            assert(before + seq![cv] =~= before.push(cv));
                        }
                    } else {
                        proof {
                            assert(before + Seq::empty() =~= before);
                        }
                    }
                    return out;
                }
                let ghost was_rest = rest.deep_view();
                let parts = rest.remove(0);
                proof {
                    assert(parts.deep_view() == was_rest[0]);
                    assert(rest.deep_view() =~= was_rest.drop_first());
                }
                if let Some(c) = state.accept(parts) {
                    let ghost cv = c.deep_view();
                    out.push(c);
                    proof {
                        let tail = chunks_from(state.deep_view(), rest.deep_view());
                        assert(out.deep_view() =~= before.push(cv));
                        assert(before + (seq![cv] + tail) =~= before.push(cv) + tail);
                    }
                }
            },
        }
    }
}

} // verus!
