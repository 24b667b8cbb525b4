//! A streamed answer: its chunks are passed on and put together.

use vstd::prelude::*;
use vstd::string::*;

use crate::cache::{concat, pieces, synthetic_chunks, text_delta};
use crate::provider::draft::{Draft, DraftView};
use crate::provider::{
    ChatResponse, ChatResponseView, FinishReason, FinishReasonView, LlmError, LlmErrorView, Message,
    StreamChunk, StreamChunkView, TokenUsage,
};
use crate::session::{OutcomeView, TurnOutcome};

verus! {

broadcast use vstd::string::group_string_axioms;

/// What has come of a streamed answer.
#[derive(Debug)]
pub struct StreamAccumulator {
    pub draft: Draft,
    pub end: Option<(FinishReason, Option<TokenUsage>)>,
}

pub struct AccumulatorView {
    pub draft: DraftView,
    pub end: Option<(FinishReasonView, Option<TokenUsage>)>,
}

impl DeepView for StreamAccumulator {
    type V = AccumulatorView;

    open spec fn deep_view(&self) -> AccumulatorView {
        AccumulatorView {
            draft: self.draft.deep_view(),
            end: match self.end {
                Some((reason, usage)) => Some((reason.deep_view(), usage)),
                None => None,
            },
        }
    }
}

impl AccumulatorView {
    /// Nothing has come yet.
    pub open spec fn blank() -> AccumulatorView {
        AccumulatorView { draft: DraftView::blank(), end: None }
    }

    /// What has come with one more chunk.
    pub open spec fn plus(self, chunk: StreamChunkView) -> AccumulatorView {
        match chunk {
            StreamChunkView::Delta(d) => AccumulatorView { draft: self.draft.absorb(d), ..self },
            StreamChunkView::Finish(reason, usage) => AccumulatorView {
                end: Some((reason, usage)),
                ..self
            },
        }
    }

    /// What has come with more chunks.
    pub open spec fn plus_all(self, chunks: Seq<StreamChunkView>) -> AccumulatorView
        decreases chunks.len(),
    {
        if chunks.len() == 0 {
            self
        } else {
            self.plus_all(chunks.drop_last()).plus(chunks.last())
        }
    }

    /// The answer of a vendor, where its end has come.
    pub open spec fn response(self, provider: Seq<char>) -> Option<ChatResponseView> {
        match self.end {
            Some((reason, usage)) => Some(
                ChatResponseView {
                    id: provider,
                    model: provider,
                    message: self.draft.message(usage),
                    finish_reason: reason,
                    usage,
                },
            ),
            None => None,
        }
    }

    /// How the call of the model ends when the stream is over.
    pub open spec fn outcome(self, provider: Seq<char>) -> OutcomeView {
        match self.response(provider) {
            Some(r) => OutcomeView::Success(r),
            None => OutcomeView::Error(
                LlmErrorView::Protocol("stream ended without finish chunk"@),
            ),
        }
    }
}

impl StreamAccumulator {
    pub fn new() -> (r: StreamAccumulator)
        ensures
            r.deep_view() == AccumulatorView::blank(),
    {
        StreamAccumulator { draft: Draft::new(), end: None }
    }

    /// Takes a chunk.
    pub fn push(&mut self, chunk: StreamChunk)
        ensures
            final(self).deep_view() == old(self).deep_view().plus(chunk.deep_view()),
    {
        match chunk {
            StreamChunk::Finish { finish_reason, usage } => {
                self.end = Some((finish_reason, usage));
            },
            delta => {
                self.draft.absorb(delta);
            },
        }
    }

    /// The whole message, where the end of the stream has come.
    pub fn finish(self) -> (r: Option<(Message, FinishReason, Option<TokenUsage>)>)
        ensures
            r is Some <==> self.deep_view().end is Some,
            r matches Some((message, reason, usage)) ==> {
                &&& self.deep_view().end == Some((reason.deep_view(), usage))
                &&& message.deep_view() == self.deep_view().draft.message(usage)
            },
    {
        match self.end {
            Some((reason, usage)) => Some((self.draft.message(usage), reason, usage)),
            None => None,
        }
    }

    /// How the call of the model ends when the stream is over: an answer under
    /// the name of its vendor, or an error where its end never came.
    pub fn converge(self, provider: &str) -> (r: TurnOutcome)
        ensures
            r.deep_view() == self.deep_view().outcome(provider@),
    {
        match self.finish() {
            Some((message, finish_reason, usage)) => TurnOutcome::Success(
                Box::new(
                    ChatResponse {
                        id: provider.to_owned(),
                        model: provider.to_owned(),
                        message,
                        finish_reason,
                        usage,
                    },
                ),
            ),
            None => TurnOutcome::Error(
                LlmError::Protocol("stream ended without finish chunk".to_owned()),
            ),
        }
    }
}

/// What happens while a stream is read.
#[derive(Debug)]
pub enum StreamEvent {
    Chunk(StreamChunk),
    Failed(LlmError),
    End,
    Cancelled,
    TimedOut,
    Panicked(String),
}

/// What follows.
#[derive(Debug)]
pub enum StreamStep {
    /// The chunk is passed on, and the next one is read.
    Forward(StreamChunk),
    /// The error is passed on, and reading is over.
    ForwardError(LlmError, TurnOutcome),
    /// Reading is over.
    Done(TurnOutcome),
}

/// Decides what follows an event of a stream. Every way out ends the call of the
/// model.
pub fn on_stream_event(
    acc: StreamAccumulator,
    event: StreamEvent,
    provider: &str,
) -> (r: (StreamAccumulator, StreamStep))
    ensures
        match event {
            StreamEvent::Chunk(c) => {
                &&& r.0.deep_view() == acc.deep_view().plus(c.deep_view())
                &&& r.1 matches StreamStep::Forward(d)
                &&& d.deep_view() == c.deep_view()
            },
            StreamEvent::Failed(e) => {
                &&& r.1 matches StreamStep::ForwardError(f, o)
                &&& f.deep_view() == e.deep_view()
                &&& o.deep_view() == OutcomeView::Error(e.deep_view())
            },
            StreamEvent::End => {
                &&& r.1 matches StreamStep::Done(o)
                &&& o.deep_view() == acc.deep_view().outcome(provider@)
            },
            StreamEvent::Cancelled => r.1 matches StreamStep::Done(o) && o is Cancelled,
            StreamEvent::TimedOut => r.1 matches StreamStep::Done(o) && o is Timeout,
            StreamEvent::Panicked(s) => {
                &&& r.1 matches StreamStep::Done(o)
                &&& o.deep_view() == OutcomeView::Panic(s@)
            },
        },
{
    match event {
        StreamEvent::Chunk(c) => {
            let mut acc = acc;
            let copy = c.clone();
            acc.push(c);
            (acc, StreamStep::Forward(copy))
        },
        StreamEvent::Failed(e) => {
            let copy = e.clone();
            (acc, StreamStep::ForwardError(copy, TurnOutcome::Error(e)))
        },
        StreamEvent::End => {
            let outcome = acc.converge(provider);
            (StreamAccumulator::new(), StreamStep::Done(outcome))
        },
        StreamEvent::Cancelled => (acc, StreamStep::Done(TurnOutcome::Cancelled)),
        StreamEvent::TimedOut => (acc, StreamStep::Done(TurnOutcome::Timeout)),
        StreamEvent::Panicked(s) => (acc, StreamStep::Done(TurnOutcome::Panic(s))),
    }
}

/// What an observer is told of a chunk.
#[derive(Debug)]
pub enum DeltaEvent {
    Thinking(String),
    Text(String),
}

pub enum DeltaEventView {
    Thinking(Seq<char>),
    Text(Seq<char>),
}

impl DeepView for DeltaEvent {
    type V = DeltaEventView;

    open spec fn deep_view(&self) -> DeltaEventView {
        match *self {
            DeltaEvent::Thinking(s) => DeltaEventView::Thinking(s@),
            DeltaEvent::Text(s) => DeltaEventView::Text(s@),
        }
    }
}

/// What an observer is told of a chunk: of thought before text.
pub open spec fn delta_events(chunk: StreamChunkView) -> Seq<DeltaEventView> {
    match chunk {
        StreamChunkView::Delta(d) => {
            let thought = match d.reasoning_content {
                Some(s) => seq![DeltaEventView::Thinking(s)],
                None => Seq::empty(),
            };
            match d.content {
                Some(s) => thought.push(DeltaEventView::Text(s)),
                None => thought,
            }
        },
        StreamChunkView::Finish(_, _) => Seq::empty(),
    }
}

/// What an observer is told of a chunk.
pub fn chunk_deltas(chunk: &StreamChunk) -> (r: Vec<DeltaEvent>)
    ensures
        r.deep_view() == delta_events(chunk.deep_view()),
{
    let mut out: Vec<DeltaEvent> = Vec::new();
    proof {
        assert(out.deep_view() =~= Seq::empty());
    }
    if let StreamChunk::Delta { content, reasoning_content, .. } = chunk {
        if let Some(s) = reasoning_content {
            out.push(DeltaEvent::Thinking(s.clone()));
            proof {
                assert(out.deep_view() =~= seq![DeltaEventView::Thinking(s@)]);
            }
        }
        let ghost before = out.deep_view();
        if let Some(s) = content {
            out.push(DeltaEvent::Text(s.clone()));
            proof {
                assert(out.deep_view() =~= before.push(DeltaEventView::Text(s@)));
            }
        }
    }
    out
}

// ---------------------------------------------------------------------------
// Laws

/// A stream without an end gives no answer, whatever else it brought.
pub proof fn law_no_end_no_answer(chunks: Seq<StreamChunkView>, provider: Seq<char>)
    requires
        forall|i: int| 0 <= i < chunks.len() ==> !((#[trigger] chunks[i]) is Finish),
    ensures
        AccumulatorView::blank().plus_all(chunks).response(provider) is None,
    decreases chunks.len(),
{
    if chunks.len() > 0 {
        let before = chunks.drop_last();
        assert forall|i: int| 0 <= i < before.len() implies !((#[trigger] before[i]) is Finish) by {
            assert(before[i] == chunks[i]);
        }
        law_no_end_no_answer(before, provider);
        assert(!(chunks[chunks.len() - 1] is Finish));
    }
}

/// Chunks that are texts alone add those texts.
proof fn lemma_text_chunks(acc: AccumulatorView, texts: Seq<Seq<char>>)
    ensures
        acc.plus_all(texts.map_values(|p: Seq<char>| text_delta(p))) == (AccumulatorView {
            draft: DraftView { content: acc.draft.content + concat(texts), ..acc.draft },
            ..acc
        }),
    decreases texts.len(),
{
    let chunks = texts.map_values(|p: Seq<char>| text_delta(p));
    if texts.len() == 0 {
        assert(acc.draft.content + concat(texts) =~= acc.draft.content);
    } else {
        let before = texts.drop_last();
        lemma_text_chunks(acc, before);
        assert(chunks.drop_last() =~= before.map_values(|p: Seq<char>| text_delta(p)));
        lemma_concat_last(texts);
        assert((acc.draft.content + concat(before)) + texts.last() =~= acc.draft.content + (concat(
            before,
        ) + texts.last()));
        let mid = acc.plus_all(chunks.drop_last());
        assert(mid.draft.absorb(chunks.last()->Delta_0).calls =~= mid.draft.calls);
    }
}

/// Texts one after the other end with the last one.
proof fn lemma_concat_last(texts: Seq<Seq<char>>)
    requires
        texts.len() > 0,
    ensures
        concat(texts) == concat(texts.drop_last()) + texts.last(),
    decreases texts.len(),
{
    if texts.len() == 1 {
        assert(texts.drop_first() =~= Seq::empty());
        assert(texts.drop_last() =~= Seq::empty());
        assert(concat(texts.drop_first()) =~= Seq::empty());
        assert(concat(texts.drop_last()) =~= Seq::empty());
        assert(texts[0] + Seq::empty() =~= Seq::empty() + texts.last());
    } else {
        let tail = texts.drop_first();
        lemma_concat_last(tail);
        assert(tail.drop_last() =~= texts.drop_last().drop_first());
        assert(texts.drop_last()[0] == texts[0]);
        assert(texts[0] + (concat(tail.drop_last()) + tail.last()) =~= (texts[0] + concat(
            tail.drop_last(),
        )) + tail.last());
    }
}

/// A stream that is made from a response gives the text of the response back,
/// with its reason and its token counts.
pub proof fn law_synthetic_stream_reassembles(r: ChatResponseView)
    ensures
        ({
            let acc = AccumulatorView::blank().plus_all(synthetic_chunks(r));
            &&& acc.end == Some((r.finish_reason, r.usage))
            &&& acc.draft.content == r.message.content.text_or_empty()
        }),
{
    let text = r.message.content.text_or_empty();
    let chunks = synthetic_chunks(r);
    let deltas = pieces(text).map_values(|p: Seq<char>| text_delta(p));
    assert(chunks.drop_last() =~= deltas);
    lemma_text_chunks(AccumulatorView::blank(), pieces(text));
    crate::cache::law_pieces_reassemble(text);
    assert(Seq::<char>::empty() + text =~= text);
}

} // verus!
