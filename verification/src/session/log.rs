//! The facts of a session: an append-only record of its messages, with a bound.
//!
//! What a model is shown is the end of the record. A full record refuses more
//! facts; making room for them is an explicit act that drops the oldest.

use vstd::prelude::*;
use vstd::slice::slice_subrange;

use crate::provider::{Message, MessageView};
use crate::session::message::SessionId;

verus! {

/// Why a fact was not recorded.
#[derive(Debug, PartialEq, Eq)]
pub enum LogError {
    /// The record is full.
    CapacityExceeded { max: usize },
    /// A sink could not keep the fact.
    Io(String),
}

/// The record of a session.
#[derive(Debug)]
pub struct SessionLog {
    pub facts: Vec<Message>,
    pub max_events: usize,
}

pub struct SessionLogView {
    pub facts: Seq<MessageView>,
    pub max_events: usize,
}

impl DeepView for SessionLog {
    type V = SessionLogView;

    open spec fn deep_view(&self) -> SessionLogView {
        SessionLogView { facts: self.facts.deep_view(), max_events: self.max_events }
    }
}

/// The last `max` items of a sequence, or all of them where there are fewer.
pub open spec fn last_of<T>(s: Seq<T>, max: int) -> Seq<T> {
    if s.len() <= max {
        s
    } else {
        s.skip(s.len() - max)
    }
}

impl SessionLogView {
    /// The record keeps its bound.
    pub open spec fn wf(self) -> bool {
        self.facts.len() <= self.max_events
    }

    /// Whether there is no room for another fact.
    pub open spec fn full(self) -> bool {
        self.facts.len() >= self.max_events
    }

    /// The record with one more fact, where there is room for it.
    pub open spec fn plus(self, m: MessageView) -> SessionLogView {
        if self.full() {
            self
        } else {
            SessionLogView { facts: self.facts.push(m), ..self }
        }
    }

    /// The record with more facts, one after the other, as far as there is room.
    pub open spec fn plus_all(self, ms: Seq<MessageView>) -> SessionLogView {
        if self.full() {
            self
        } else if self.facts.len() + ms.len() <= self.max_events {
            SessionLogView { facts: self.facts + ms, ..self }
        } else {
            SessionLogView { facts: self.facts + ms.take(self.max_events - self.facts.len()), ..self }
        }
    }
}

/// Facts recorded one after the other: adding one more behind others is adding
/// the others and then that one.
pub proof fn lemma_plus_all(log: SessionLogView, ms: Seq<MessageView>, m: MessageView)
    ensures
        log.plus_all(ms.push(m)) == log.plus_all(ms).plus(m),
{
    let room = log.max_events - log.facts.len();
    if !log.full() {
        if log.facts.len() + ms.len() < log.max_events {
            assert(log.facts + ms.push(m) =~= (log.facts + ms).push(m));
        } else if log.facts.len() + ms.len() == log.max_events {
            assert(ms.push(m).take(room) =~= ms);
        } else {
            assert(ms.push(m).take(room) =~= ms.take(room));
        }
    }
}

impl SessionLog {
    /// An empty record with room for `max_events` facts.
    pub fn new(max_events: usize) -> (r: SessionLog)
        ensures
            r.deep_view() == (SessionLogView { facts: Seq::empty(), max_events }),
            r.deep_view().wf(),
    {
        let facts: Vec<Message> = Vec::new();
        proof {
            assert(facts.deep_view() =~= Seq::empty());
        }
        SessionLog { facts, max_events }
    }

    /// Records a fact and returns its place; a full record refuses it and stays
    /// as it is.
    pub fn append(&mut self, msg: Message) -> (r: Result<usize, LogError>)
        ensures
            final(self).deep_view() == old(self).deep_view().plus(msg.deep_view()),
            old(self).deep_view().full() ==> r == Err::<usize, LogError>(
                LogError::CapacityExceeded { max: old(self).max_events },
            ),
            !old(self).deep_view().full() ==> r == Ok::<usize, LogError>(old(self).facts@.len() as usize),
            old(self).deep_view().wf() ==> final(self).deep_view().wf(),
    {
        if self.facts.len() >= self.max_events {
            return Err(LogError::CapacityExceeded { max: self.max_events });
        }
        let ghost before = self.facts.deep_view();
        let ghost mv = msg.deep_view();
        self.facts.push(msg);
        proof {
            assert(self.facts.deep_view() =~= before.push(mv));
        }
        Ok(self.facts.len() - 1)
    }

    /// Makes room: keeps the last `keep_last` facts and drops the older ones.
    /// Returns how many are left.
    pub fn compact(&mut self, keep_last: usize) -> (r: usize)
        ensures
            final(self).deep_view() == (SessionLogView {
                facts: last_of(old(self).deep_view().facts, keep_last as int),
                ..old(self).deep_view()
            }),
            r == final(self).facts@.len(),
    {
        let ghost all = self.facts.deep_view();
        let len: usize = self.facts.len();
        if len > keep_last {
            let kept = self.facts.split_off(len - keep_last);
            proof {
                assert(kept.deep_view() =~= all.skip(len - keep_last));
            }
            self.facts = kept;
        }
        self.facts.len()
    }

    /// The last `max` facts: what a model is shown.
    pub fn tail(&self, max: usize) -> (r: &[Message])
        ensures
            r.deep_view() == last_of(self.deep_view().facts, max as int),
    {
        let start: usize = self.facts.len().saturating_sub(max);
        let r = slice_subrange(self.facts.as_slice(), start, self.facts.len());
        proof {
            assert(r.deep_view() =~= last_of(self.deep_view().facts, max as int));
        }
        r
    }

    /// Every fact.
    pub fn snapshot(&self) -> (r: &[Message])
        ensures
            r.deep_view() == self.deep_view().facts,
    {
        let r = self.facts.as_slice();
        proof {
            assert(r.deep_view() =~= self.deep_view().facts);
        }
        r
    }

    pub fn len(&self) -> (r: usize)
        ensures
            r == self.deep_view().facts.len(),
    {
        self.facts.len()
    }

    pub fn is_empty(&self) -> (r: bool)
        ensures
            r == (self.deep_view().facts.len() == 0),
    {
        self.facts.len() == 0
    }
}

/// Recorded facts are never changed: a fact keeps its place and its content
/// whatever is recorded after it.
pub proof fn law_append_only(log: SessionLogView, ms: Seq<MessageView>, i: int)
    requires
        0 <= i < log.facts.len(),
    ensures
        i < log.plus_all(ms).facts.len(),
        log.plus_all(ms).facts[i] == log.facts[i],
{
}

/// The bound is kept whatever is recorded.
pub proof fn law_bounded(log: SessionLogView, ms: Seq<MessageView>)
    requires
        log.wf(),
    ensures
        log.plus_all(ms).wf(),
{
}

/// Making room does not show: a model that is shown the last `max` facts is
/// shown the same ones after it, as long as that many are kept.
pub proof fn law_compact_keeps_window(facts: Seq<MessageView>, keep: int, max: int)
    requires
        0 <= max <= keep,
    ensures
        last_of(last_of(facts, keep), max) == last_of(facts, max),
{
    assert(last_of(last_of(facts, keep), max) =~= last_of(facts, max));
}

/// Making room makes room: a record that keeps fewer facts than its bound takes
/// another one.
pub proof fn law_compact_makes_room(log: SessionLogView, keep: int, m: MessageView)
    requires
        0 <= keep < log.max_events,
    ensures
        ({
            let kept = SessionLogView { facts: last_of(log.facts, keep), ..log };
            !kept.full() && kept.plus(m).facts == kept.facts.push(m)
        }),
{
}

/// Keeps facts outside of the process.
pub trait SessionLogSink {
    /// Keeps a fact of a session.
    fn append(&self, session_id: &SessionId, msg: &Message) -> Result<(), LogError>;
}

/// A record whose facts also go to a sink. The record is the authority: a sink
/// that fails changes nothing of it.
#[derive(Debug)]
pub struct PersistedSessionLog<S: SessionLogSink> {
    pub inner: SessionLog,
    pub sink: S,
    pub session_id: SessionId,
}

impl<S: SessionLogSink> PersistedSessionLog<S> {
    pub fn new(max_events: usize, session_id: SessionId, sink: S) -> (r: Self)
        ensures
            r.inner.deep_view() == (SessionLogView { facts: Seq::empty(), max_events }),
            r.session_id == session_id,
            r.sink == sink,
    {
        PersistedSessionLog { inner: SessionLog::new(max_events), sink, session_id }
    }

    /// Records a fact and hands it to the sink. A full record refuses the fact,
    /// and the sink is not called. With the place of the fact comes the error of the
    /// sink, if it failed.
    pub fn append_reported(&mut self, msg: Message) -> (r: Result<(usize, Option<LogError>), LogError>)
        ensures
            final(self).inner.deep_view() == old(self).inner.deep_view().plus(msg.deep_view()),
            final(self).session_id == old(self).session_id,
            final(self).sink == old(self).sink,
            old(self).inner.deep_view().full() ==> r == Err::<(usize, Option<LogError>), LogError>(
                LogError::CapacityExceeded { max: old(self).inner.max_events },
            ),
            !old(self).inner.deep_view().full() ==> r is Ok,
            r matches Ok((place, failure)) ==> place == old(self).inner.facts@.len() && exists|
                m: Message,
                kept: Result<(), LogError>,
            |
                m.deep_view() == msg.deep_view() && #[trigger] call_ensures(
                    S::append,
                    (&old(self).sink, &old(self).session_id, &m),
                    kept,
                ) && failure == kept.err(),
    {
        let copy = msg.clone();
        match self.inner.append(msg) {
            Ok(place) => {
                let kept = self.sink.append(&self.session_id, &copy);
                let ghost told = kept;
                let failure = match kept {
                    Ok(_) => None,
                    Err(e) => Some(e),
                };
                proof {
                    assert(call_ensures(S::append, (&self.sink, &self.session_id, &copy), told));
                }
                Ok((place, failure))
            },
            Err(e) => Err(e),
        }
    }

    /// Records a fact and hands it to the sink, whatever becomes of it there.
    pub fn append(&mut self, msg: Message) -> (r: Result<usize, LogError>)
        ensures
            final(self).inner.deep_view() == old(self).inner.deep_view().plus(msg.deep_view()),
            final(self).session_id == old(self).session_id,
            final(self).sink == old(self).sink,
            old(self).inner.deep_view().full() ==> r == Err::<usize, LogError>(
                LogError::CapacityExceeded { max: old(self).inner.max_events },
            ),
            !old(self).inner.deep_view().full() ==> r == Ok::<usize, LogError>(
                old(self).inner.facts@.len() as usize,
            ),
            r is Ok ==> exists|m: Message, kept: Result<(), LogError>|
                m.deep_view() == msg.deep_view() && #[trigger] call_ensures(
                    S::append,
                    (&old(self).sink, &old(self).session_id, &m),
                    kept,
                ),
    {
        match self.append_reported(msg) {
            Ok((place, _)) => Ok(place),
            Err(e) => Err(e),
        }
    }

    /// Every fact.
    pub fn snapshot(&self) -> (r: &[Message])
        ensures
            r.deep_view() == self.inner.deep_view().facts,
    {
        self.inner.snapshot()
    }

    pub fn len(&self) -> (r: usize)
        ensures
            r == self.inner.deep_view().facts.len(),
    {
        self.inner.len()
    }

    pub fn is_empty(&self) -> (r: bool)
        ensures
            r == (self.inner.deep_view().facts.len() == 0),
    {
        self.inner.is_empty()
    }
}

} // verus!
