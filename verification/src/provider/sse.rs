//! Server-sent events: cutting a byte stream into events, reading their data
//! as JSON, and folding a whole series of them into one response.
//!
//! An event ends at the first of `\n\n`, `\r\r` and `\r\n\r\n`. The data of an
//! event are its `data:` lines, joined by line feeds, and the data `[DONE]` end
//! the stream. What an event means is up to the protocol on top.

use vstd::prelude::*;
use vstd::string::*;
use vstd::utf8::*;

use crate::json::{parse_slice, parse_text, parsed, parsed_slice, Json, JsonView};
use crate::provider::draft::{Draft, DraftView};
use crate::provider::{
    ChatResponse, ChatResponseView, FinishReason, FinishReasonView, LlmError, LlmErrorView,
    StreamChunk, StreamChunkView, TokenUsage,
};
use crate::text::{
    begins, begins_with, join, join_text, lowered, lowered_text, occurs, occurs_in, same,
    skip_chars, split, split_text, strip_end, strip_end_text, trim, trim_start, trim_start_text,
    trim_text,
};

verus! {

broadcast use vstd::string::group_string_axioms;

/// How many bytes of event separator stand at position `i`.
pub open spec fn break_at(buf: Seq<u8>, i: int) -> int {
    if 0 <= i && i + 1 < buf.len() && ((buf[i] == 10 && buf[i + 1] == 10) || (buf[i] == 13 && buf[i
        + 1] == 13)) {
        2
    } else if 0 <= i && i + 3 < buf.len() && buf[i] == 13 && buf[i + 1] == 10 && buf[i + 2] == 13
        && buf[i + 3] == 10 {
        4
    } else {
        0
    }
}

/// The first position at or after `i` where an event separator stands, or the
/// end of the bytes.
pub open spec fn next_break(buf: Seq<u8>, i: int) -> int
    decreases buf.len() - i,
{
    if i >= buf.len() {
        buf.len() as int
    } else if break_at(buf, i) > 0 {
        i
    } else {
        next_break(buf, i + 1)
    }
}

/// The first whole event and the bytes after its separator.
pub open spec fn cut(buf: Seq<u8>) -> Option<(Seq<u8>, Seq<u8>)> {
    let i = next_break(buf, 0);
    if i < buf.len() {
        Some((buf.take(i), buf.skip(i + break_at(buf, i))))
    } else {
        None
    }
}

/// Where the first break is: nothing before it is one, and it is one unless it
/// is the end.
proof fn lemma_next_break(buf: Seq<u8>, i: int)
    requires
        0 <= i <= buf.len(),
    ensures
        i <= next_break(buf, i) <= buf.len(),
        next_break(buf, i) < buf.len() ==> break_at(buf, next_break(buf, i)) > 0,
        forall|j: int| i <= j < next_break(buf, i) ==> #[trigger] break_at(buf, j) == 0,
    decreases buf.len() - i,
{
    if i < buf.len() && break_at(buf, i) == 0 {
        lemma_next_break(buf, i + 1);
    }
}

/// A position with no break before it, that is a break or the end, is the first.
proof fn lemma_first_break(buf: Seq<u8>, i: int, n: int)
    requires
        0 <= i <= n <= buf.len(),
        n < buf.len() ==> break_at(buf, n) > 0,
        forall|j: int| i <= j < n ==> #[trigger] break_at(buf, j) == 0,
    ensures
        next_break(buf, i) == n,
    decreases n - i,
{
    if i < n {
        assert(break_at(buf, i) == 0);
        lemma_first_break(buf, i + 1, n);
    }
}

/// An event that is whole stays the same whatever bytes follow: cutting does
/// not depend on how the stream was split into pieces.
pub proof fn law_cut_is_stable(buf: Seq<u8>, more: Seq<u8>)
    requires
        cut(buf) is Some,
    ensures
        ({
            let (event, rest) = cut(buf)->0;
            cut(buf + more) == Some((event, rest + more))
        }),
{
    let all = buf + more;
    let n = next_break(buf, 0);
    lemma_next_break(buf, 0);
    let w = break_at(buf, n);
    assert forall|j: int| 0 <= j < n implies #[trigger] break_at(all, j) == 0 by {
        assert(break_at(buf, j) == 0);
        if break_at(all, j) == 4 {
            // The four bytes reach past the first separator, which would then
            // have to begin inside them.
            assert(j + 3 >= buf.len());
            assert(n == j + 1);
        }
    }
    assert(break_at(all, n) == w);
    lemma_first_break(all, 0, n);
    assert(all.take(n) =~= buf.take(n));
    assert(all.skip(n + w) =~= buf.skip(n + w) + more);
}

/// A cut leaves fewer bytes than there were.
pub proof fn lemma_cut_shrinks(buf: Seq<u8>)
    requires
        cut(buf) is Some,
    ensures
        ({
            let (event, rest) = cut(buf)->0;
            rest.len() < buf.len()
        }),
{
    lemma_next_break(buf, 0);
}

/// The bytes from `from` up to `to`.
fn bytes_of(buf: &[u8], from: usize, to: usize) -> (r: Vec<u8>)
    requires
        from <= to <= buf@.len(),
    ensures
        r@ == buf@.subrange(from as int, to as int),
{
    let mut out: Vec<u8> = Vec::new();
    let mut i: usize = from;
    while i < to
        invariant
            from <= i <= to <= buf@.len(),
            out@ == buf@.subrange(from as int, i as int),
        decreases to - i,
    {
        proof {
            assert(buf@.subrange(from as int, i + 1) =~= buf@.subrange(from as int, i as int).push(
                buf@[i as int],
            ));
        }
        out.push(buf[i]);
        i = i + 1;
    }
    out
}

/// Cuts the first whole event off a buffer: its bytes, and the bytes after its
/// separator.
pub fn take_sse_event(buf: &[u8]) -> (r: Option<(Vec<u8>, Vec<u8>)>)
    ensures
        r.deep_view() == cut(buf@),
{
    let len: usize = buf.len();
    let mut i: usize = 0;
    while i < len
        invariant
            len == buf@.len(),
            i <= len,
            forall|j: int| 0 <= j < i ==> #[trigger] break_at(buf@, j) == 0,
        decreases len - i,
    {
        let left: usize = len - i;
        let mut width: usize = 0;
        if left > 1 {
            let a: u8 = buf[i];
            let b: u8 = buf[i + 1];
            if (a == 10 && b == 10) || (a == 13 && b == 13) {
                width = 2;
            } else if a == 13 && b == 10 && left > 3 && buf[i + 2] == 13 && buf[i + 3] == 10 {
                width = 4;
            }
        }
        assert(width == break_at(buf@, i as int));
        if width > 0 {
            proof {
                lemma_first_break(buf@, 0, i as int);
            }
            let event = bytes_of(buf, 0, i);
            let rest = bytes_of(buf, i + width, len);
            proof {
                assert(event.deep_view() =~= buf@.take(i as int));
                assert(rest.deep_view() =~= buf@.skip(i + width));
            }
            return Some((event, rest));
        }
        i = i + 1;
    }
    proof {
        lemma_first_break(buf@, 0, len as int);
    }
    None
}

/// The text of bytes that are UTF-8. Calls `std::str::from_utf8`, which accepts
/// exactly the valid encodings.
#[verifier::external_body]
fn utf8_text(bytes: &[u8]) -> (r: Option<String>)
    ensures
        r is Some <==> valid_utf8(bytes@),
        r is Some ==> r->0@ == decode_utf8(bytes@),
{
    std::str::from_utf8(bytes).ok().map(str::to_owned)
}

/// The value of a line that is a data line.
pub open spec fn data_line(line: Seq<char>) -> Option<Seq<char>> {
    let l = strip_end(line, '\r');
    if begins(l, "data:"@) {
        Some(trim_start(l.skip("data:"@.len() as int)))
    } else {
        None
    }
}

/// The values of the data lines.
pub open spec fn data_lines(lines: Seq<Seq<char>>) -> Seq<Seq<char>>
    decreases lines.len(),
{
    if lines.len() == 0 {
        Seq::empty()
    } else {
        match data_line(lines.last()) {
            Some(d) => data_lines(lines.drop_last()).push(d),
            None => data_lines(lines.drop_last()),
        }
    }
}

/// The data of an event, where it is text and has a data line.
pub open spec fn data_field(event: Seq<u8>) -> Option<Seq<char>> {
    let d = data_lines(split(decode_utf8(event), '\n'));
    if valid_utf8(event) && d.len() > 0 {
        Some(join(d, "\n"@))
    } else {
        None
    }
}

/// The data of an event, where it is text and has a data line.
pub fn parse_data_field(event: &[u8]) -> (r: Option<String>)
    ensures
        r.deep_view() == data_field(event@),
{
    match utf8_text(event) {
        None => None,
        Some(s) => {
            let lines = split_text(s.as_str(), '\n');
            let ghost all = lines.deep_view();
            let mut parts: Vec<String> = Vec::new();
            let mut i: usize = 0;
            proof {
                assert(parts.deep_view() =~= data_lines(all.take(0)));
            }
            while i < lines.len()
                invariant
                    i <= lines@.len(),
                    all == lines.deep_view(),
                    parts.deep_view() == data_lines(all.take(i as int)),
                decreases lines@.len() - i,
            {
                let ghost before = parts.deep_view();
                let line = strip_end_text(lines[i].as_str(), '\r');
                proof {
                    assert(all.take(i + 1).drop_last() =~= all.take(i as int));
                    assert(all.take(i + 1).last() == lines@[i as int]@);
                    reveal_strlit("data:");
                }
                if begins_with(line.as_str(), "data:") {
                    let rest = skip_chars(line.as_str(), 5);
                    let part = trim_start_text(rest.as_str());
                    parts.push(part);
                    proof {
                        assert(parts.deep_view() =~= before.push(part@));
                    }
                }
                i = i + 1;
            }
            proof {
                assert(all.take(all.len() as int) =~= all);
            }
            if parts.len() == 0 {
                None
            } else {
                Some(join_text(&parts, "\n"))
            }
        },
    }
}

/// Whether data end the stream.
pub open spec fn is_done(data: Seq<char>) -> bool {
    trim(data) == "[DONE]"@
}

/// What the data of an event say.
pub open spec fn event_value(data: Seq<char>) -> Result<JsonView, LlmErrorView> {
    match parsed(data) {
        Ok(v) => Ok(v),
        Err(e) => Err(LlmErrorView::Protocol("SSE JSON parse: "@ + e)),
    }
}

/// A result as its views.
pub open spec fn item_view(r: Result<Json, LlmError>) -> Result<JsonView, LlmErrorView> {
    match r {
        Ok(v) => Ok(v.deep_view()),
        Err(e) => Err(e.deep_view()),
    }
}

/// Reads the data of an event as JSON.
pub fn read_event(data: &str) -> (r: Result<Json, LlmError>)
    ensures
        item_view(r) == event_value(data@),
{
    match parse_text(data) {
        Ok(v) => Ok(v),
        Err(e) => {
            let msg = "SSE JSON parse: ".to_owned().concat(e.as_str());
            Err(LlmError::Protocol(msg))
        },
    }
}

/// Whether data end the stream.
fn ends_stream(data: &str) -> (r: bool)
    ensures
        r == is_done(data@),
{
    same(trim_text(data).as_str(), "[DONE]")
}

/// What a look at the buffer gives.
pub enum PolledView {
    /// The next event.
    Item(Result<JsonView, LlmErrorView>),
    /// No whole event is there: more bytes are needed.
    Starved,
    /// The stream has said that it is done.
    Done,
}

/// What a look at a buffer gives, and the bytes that stay.
pub open spec fn poll(buf: Seq<u8>) -> (PolledView, Seq<u8>)
    decreases buf.len(),
{
    match cut(buf) {
        None => (PolledView::Starved, buf),
        Some((event, rest)) => {
            proof {
                lemma_cut_shrinks(buf);
            }
            match data_field(event) {
                None => poll(rest),
                Some(d) => if is_done(d) {
                    (PolledView::Done, rest)
                } else {
                    (PolledView::Item(event_value(d)), rest)
                },
            }
        },
    }
}

/// What the end of the bytes gives: a last event without a separator.
pub open spec fn flush(buf: Seq<u8>) -> Option<Result<JsonView, LlmErrorView>> {
    if buf.len() == 0 {
        None
    } else {
        match data_field(buf) {
            Some(d) if !is_done(d) => Some(event_value(d)),
            _ => None,
        }
    }
}

/// What a look at the buffer gives.
#[derive(Debug)]
pub enum Polled {
    Item(Result<Json, LlmError>),
    Starved,
    Done,
}

impl DeepView for Polled {
    type V = PolledView;

    open spec fn deep_view(&self) -> PolledView {
        match *self {
            Polled::Item(r) => PolledView::Item(item_view(r)),
            Polled::Starved => PolledView::Starved,
            Polled::Done => PolledView::Done,
        }
    }
}

/// The decoder of a byte stream: bytes come in pieces of any size, events go
/// out.
#[derive(Debug)]
pub struct SseState {
    pub buffer: Vec<u8>,
}

impl SseState {
    pub fn new() -> (r: SseState)
        ensures
            r.buffer@.len() == 0,
    {
        SseState { buffer: Vec::new() }
    }

    /// Takes bytes in.
    pub fn push(&mut self, bytes: &[u8])
        ensures
            final(self).buffer@ == old(self).buffer@ + bytes@,
    {
        let ghost before = self.buffer@;
        let mut i: usize = 0;
        while i < bytes.len()
            invariant
                i <= bytes@.len(),
                self.buffer@ == before + bytes@.take(i as int),
            decreases bytes@.len() - i,
        {
            proof {
                assert(bytes@.take(i + 1) =~= bytes@.take(i as int).push(bytes@[i as int]));
            }
            self.buffer.push(bytes[i]);
            proof {
                assert(self.buffer@ =~= before + bytes@.take(i + 1));
            }
            i = i + 1;
        }
        proof {
            assert(bytes@.take(bytes@.len() as int) =~= bytes@);
        }
    }

    /// The next event among the bytes that are there. Events without data are
    /// passed over.
    pub fn poll(&mut self) -> (r: Polled)
        ensures
            (r.deep_view(), final(self).buffer@) == poll(old(self).buffer@),
    {
        let ghost start = self.buffer@;
        loop
            invariant
                start == old(self).buffer@,
                poll(self.buffer@) == poll(start),
            decreases self.buffer@.len(),
        {
            match take_sse_event(self.buffer.as_slice()) {
                None => {
                    return Polled::Starved;
                },
                Some((event, rest)) => {
                    proof {
                        lemma_cut_shrinks(self.buffer@);
                        assert(event.deep_view() =~= event@);
                        assert(rest.deep_view() =~= rest@);
                    }
                    self.buffer = rest;
                    if let Some(data) = parse_data_field(event.as_slice()) {
                        if ends_stream(data.as_str()) {
                            return Polled::Done;
                        }
                        return Polled::Item(read_event(data.as_str()));
                    }
                },
            }
        }
    }

    /// The last event, once no more bytes will come.
    pub fn finish(&mut self) -> (r: Option<Result<Json, LlmError>>)
        ensures
            r is Some <==> flush(old(self).buffer@) is Some,
            r is Some ==> item_view(r->0) == flush(old(self).buffer@)->0,
            final(self).buffer@.len() == 0,
    {
        let mut taken: Vec<u8> = Vec::new();
        std::mem::swap(&mut taken, &mut self.buffer);
        if taken.len() == 0 {
            return None;
        }
        match parse_data_field(taken.as_slice()) {
            Some(data) => if ends_stream(data.as_str()) {
                None
            } else {
                Some(read_event(data.as_str()))
            },
            None => None,
        }
    }
}

/// The events that bytes give one after the other: the events, the bytes that
/// stay, and whether the stream said that it was done.
pub open spec fn drain(buf: Seq<u8>) -> (Seq<Result<JsonView, LlmErrorView>>, Seq<u8>, bool)
    decreases buf.len(),
{
    match cut(buf) {
        None => (Seq::empty(), buf, false),
        Some((event, rest)) => {
            proof {
                lemma_cut_shrinks(buf);
            }
            match data_field(event) {
                None => drain(rest),
                Some(d) => if is_done(d) {
                    (Seq::empty(), rest, true)
                } else {
                    let (items, left, done) = drain(rest);
                    (seq![event_value(d)] + items, left, done)
                },
            }
        },
    }
}

/// How a stream is split into pieces makes no difference: the events of two
/// pieces are those of the first, and then those of what it left together with
/// the second.
pub proof fn law_pieces(a: Seq<u8>, b: Seq<u8>)
    ensures
        drain(a).2 ==> drain(a + b).0 == drain(a).0 && drain(a + b).2,
        !drain(a).2 ==> drain(a + b).0 == drain(a).0 + drain(drain(a).1 + b).0,
        !drain(a).2 ==> drain(a + b).1 == drain(drain(a).1 + b).1,
        !drain(a).2 ==> drain(a + b).2 == drain(drain(a).1 + b).2,
    decreases a.len(),
{
    match cut(a) {
        None => {
            assert(drain(a).0 + drain(a + b).0 =~= drain(a + b).0);
        },
        Some((event, rest)) => {
            law_cut_is_stable(a, b);
            lemma_cut_shrinks(a);
            lemma_cut_shrinks(a + b);
            law_pieces(rest, b);
            match data_field(event) {
                None => {},
                Some(d) => if !is_done(d) {
                    let head = seq![event_value(d)];
                    assert(head + (drain(rest).0 + drain(drain(rest).1 + b).0) =~= (head + drain(
                        rest,
                    ).0) + drain(drain(rest).1 + b).0);
                },
            }
        },
    }
}

/// Polling hands out the events in order: a poll gives the first of them, or
/// says why there is none.
pub proof fn law_poll_is_drain(buf: Seq<u8>)
    ensures
        poll(buf).0 is Starved ==> drain(buf) == (
            Seq::<Result<JsonView, LlmErrorView>>::empty(),
            poll(buf).1,
            false,
        ),
        poll(buf).0 is Done ==> drain(buf).0.len() == 0 && drain(buf).2,
        poll(buf).0 is Item ==> {
            let rest = drain(poll(buf).1);
            drain(buf) == (seq![poll(buf).0->Item_0] + rest.0, rest.1, rest.2)
        },
        poll(buf).1.len() <= buf.len(),
    decreases buf.len(),
{
    if let Some((event, rest)) = cut(buf) {
        lemma_cut_shrinks(buf);
        if data_field(event) is None {
            law_poll_is_drain(rest);
        }
    }
}

/// A response body: one JSON document, or a series of events.
#[derive(Debug)]
pub enum WireBody {
    Json(Json),
    Sse(Vec<Json>),
}

pub enum WireBodyView {
    Json(JsonView),
    Sse(Seq<JsonView>),
}

impl DeepView for WireBody {
    type V = WireBodyView;

    open spec fn deep_view(&self) -> WireBodyView {
        match *self {
            WireBody::Json(j) => WireBodyView::Json(j.deep_view()),
            WireBody::Sse(v) => WireBodyView::Sse(v.deep_view()),
        }
    }
}

/// All the events of a whole body, up to the end or `[DONE]`; the first one
/// that is no JSON is an error.
pub open spec fn sse_events(buf: Seq<u8>) -> Result<Seq<JsonView>, LlmErrorView>
    decreases buf.len(),
{
    match cut(buf) {
        Some((event, rest)) => {
            proof {
                lemma_cut_shrinks(buf);
            }
            match data_field(event) {
                None => sse_events(rest),
                Some(d) => if is_done(d) {
                    Ok(Seq::empty())
                } else {
                    match event_value(d) {
                        Err(e) => Err(e),
                        Ok(v) => match sse_events(rest) {
                            Ok(vs) => Ok(seq![v] + vs),
                            Err(e) => Err(e),
                        },
                    }
                },
            }
        },
        None => match flush(buf) {
            None => Ok(Seq::empty()),
            Some(Ok(v)) => Ok(seq![v]),
            Some(Err(e)) => Err(e),
        },
    }
}

/// The results as long as none is an error, else the first error.
pub open spec fn all_ok(items: Seq<Result<JsonView, LlmErrorView>>) -> Result<
    Seq<JsonView>,
    LlmErrorView,
>
    decreases items.len(),
{
    if items.len() == 0 {
        Ok(Seq::empty())
    } else {
        match items[0] {
            Err(e) => Err(e),
            Ok(v) => match all_ok(items.drop_first()) {
                Ok(vs) => Ok(seq![v] + vs),
                Err(e) => Err(e),
            },
        }
    }
}

/// A body that is read at once gives the events that the same bytes give when
/// they are streamed.
pub proof fn law_body_is_stream(buf: Seq<u8>)
    ensures
        sse_events(buf) == all_ok(
            if drain(buf).2 || flush(drain(buf).1) is None {
                drain(buf).0
            } else {
                drain(buf).0.push(flush(drain(buf).1)->0)
            },
        ),
    decreases buf.len(),
{
    let (items, left, done) = drain(buf);
    let whole = if done || flush(left) is None {
        items
    } else {
        items.push(flush(left)->0)
    };
    match cut(buf) {
        None => {
            if flush(buf) is Some {
                assert(whole.drop_first() =~= Seq::empty());
                assert(whole[0] == flush(buf)->0);
                assert(all_ok(whole.drop_first()) == Ok::<Seq<JsonView>, LlmErrorView>(
                    Seq::empty(),
                ));
                if let Ok(v) = flush(buf)->0 {
                    assert(seq![v] + Seq::empty() =~= seq![v]);
                }
            }
        },
        Some((event, rest)) => {
            lemma_cut_shrinks(buf);
            law_body_is_stream(rest);
            match data_field(event) {
                None => {},
                Some(d) => if !is_done(d) {
                    let (items2, left2, done2) = drain(rest);
                    let whole2 = if done2 || flush(left2) is None {
                        items2
                    } else {
                        items2.push(flush(left2)->0)
                    };
                    assert(whole.drop_first() =~= whole2);
                    assert(whole[0] == event_value(d));
                },
            }
        },
    }
}

/// The list as long as there is no error, with what was there before in front.
pub open spec fn after(
    before: Seq<JsonView>,
    r: Result<Seq<JsonView>, LlmErrorView>,
) -> Result<Seq<JsonView>, LlmErrorView> {
    match r {
        Ok(vs) => Ok(before + vs),
        Err(e) => Err(e),
    }
}

/// Reads the data of one event into a list; says whether they end the stream.
fn emit_data(events: &mut Vec<Json>, data: &str) -> (r: Result<bool, LlmError>)
    ensures
        is_done(data@) ==> r == Ok::<bool, LlmError>(true) && final(events)@ == old(events)@,
        !is_done(data@) && event_value(data@) is Ok ==> r == Ok::<bool, LlmError>(false)
            && final(events).deep_view() == old(events).deep_view().push(event_value(data@)->Ok_0),
        !is_done(data@) && event_value(data@) is Err ==> r is Err && r->Err_0.deep_view()
            == event_value(data@)->Err_0,
{
    if ends_stream(data) {
        return Ok(true);
    }
    match read_event(data) {
        Ok(v) => {
            let ghost before = events.deep_view();
            events.push(v);
            proof {
                assert(events.deep_view() =~= before.push(v.deep_view()));
            }
            Ok(false)
        },
        Err(e) => Err(e),
    }
}

/// A list of events as its views.
pub open spec fn events_view(r: Result<Vec<Json>, LlmError>) -> Result<
    Seq<JsonView>,
    LlmErrorView,
> {
    match r {
        Ok(v) => Ok(v.deep_view()),
        Err(e) => Err(e.deep_view()),
    }
}

/// All the events of a whole body, up to the end or `[DONE]`; the first one
/// that is no JSON is an error.
pub fn parse_sse_events(bytes: &[u8]) -> (r: Result<Vec<Json>, LlmError>)
    ensures
        events_view(r) == sse_events(bytes@),
{
    let mut events: Vec<Json> = Vec::new();
    let mut buffer: Vec<u8> = bytes_of(bytes, 0, bytes.len());
    proof {
        assert(buffer@ =~= bytes@);
        assert(events.deep_view() =~= Seq::empty());
        match sse_events(bytes@) {
            Ok(vs) => {
                assert(Seq::<JsonView>::empty() + vs =~= vs);
            },
            Err(_) => {},
        }
    }
    loop
        invariant
            sse_events(bytes@) == after(events.deep_view(), sse_events(buffer@)),
        decreases buffer@.len(),
    {
        let ghost before = events.deep_view();
        match take_sse_event(buffer.as_slice()) {
            Some((event, rest)) => {
                proof {
                    lemma_cut_shrinks(buffer@);
                    assert(event.deep_view() =~= event@);
                    assert(rest.deep_view() =~= rest@);
                }
                buffer = rest;
                if let Some(data) = parse_data_field(event.as_slice()) {
                    match emit_data(&mut events, data.as_str()) {
                        Err(e) => {
                            return Err(e);
                        },
                        Ok(done) => {
                            if done {
                                proof {
                                    assert(before + Seq::empty() =~= before);
                                }
                                return Ok(events);
                            }
                            proof {
                                if let Ok(vs) = sse_events(buffer@) {
                                    let v = event_value(data@)->Ok_0;
                                    assert(before + (seq![v] + vs) =~= before.push(v) + vs);
                                }
                            }
                        },
                    }
                }
            },
            None => {
                if buffer.len() > 0 {
                    if let Some(data) = parse_data_field(buffer.as_slice()) {
                        match emit_data(&mut events, data.as_str()) {
                            Err(e) => {
                                return Err(e);
                            },
                            Ok(done) => {
                                proof {
                                    if done {
                                        assert(before + Seq::empty() =~= before);
                                    } else {
                                        let v = event_value(data@)->Ok_0;
                                        assert(before + seq![v] =~= before.push(v));
                                    }
                                }
                                return Ok(events);
                            },
                        }
                    }
                }
                proof {
                    assert(before + Seq::empty() =~= before);
                }
                return Ok(events);
            },
        }
    }
}

/// Whether a content type is that of an event stream.
pub open spec fn labelled_sse(content_type: Option<Seq<char>>) -> bool {
    match content_type {
        Some(ct) => occurs(lowered(ct), "text/event-stream"@),
        None => false,
    }
}

/// Whether a byte is ASCII white space.
pub open spec fn byte_is_space(b: u8) -> bool {
    b == 32 || b == 9 || b == 10 || b == 12 || b == 13
}

/// Whether the bytes begin with `data:`, white space aside.
pub open spec fn starts_sse(bytes: Seq<u8>) -> bool
    decreases bytes.len(),
{
    if bytes.len() > 0 && byte_is_space(bytes[0]) {
        starts_sse(bytes.drop_first())
    } else {
        bytes.len() >= 5 && bytes[0] == 100 && bytes[1] == 97 && bytes[2] == 116 && bytes[3] == 97
            && bytes[4] == 58
    }
}

/// Whether the bytes begin with `data:`, white space aside.
fn looks_sse(bytes: &[u8]) -> (r: bool)
    ensures
        r == starts_sse(bytes@),
{
    let n: usize = bytes.len();
    let mut i: usize = 0;
    proof {
        assert(bytes@.skip(0) =~= bytes@);
    }
    while i < n && (bytes[i] == 32 || bytes[i] == 9 || bytes[i] == 10 || bytes[i] == 12
        || bytes[i] == 13)
        invariant
            n == bytes@.len(),
            i <= n,
            starts_sse(bytes@) == starts_sse(bytes@.skip(i as int)),
        decreases n - i,
    {
        proof {
            assert(bytes@.skip(i as int).drop_first() =~= bytes@.skip(i + 1));
        }
        i = i + 1;
    }
    n - i >= 5 && bytes[i] == 100 && bytes[i + 1] == 97 && bytes[i + 2] == 116 && bytes[i + 3] == 97
        && bytes[i + 4] == 58
}

/// The text of bytes, with what is no UTF-8 replaced.
pub uninterp spec fn lossy(bytes: Seq<u8>) -> Seq<char>;

/// The text in quotes and with its special characters escaped, as `Debug`
/// shows it.
pub uninterp spec fn quoted(text: Seq<char>) -> Seq<char>;

/// Calls `String::from_utf8_lossy`. The result is named by [`lossy`].
#[verifier::external_body]
fn lossy_text(bytes: &[u8]) -> (r: String)
    ensures
        r@ == lossy(bytes@),
{
    String::from_utf8_lossy(bytes).into_owned()
}

/// Formats a string with its `Debug`. The result is named by [`quoted`].
#[verifier::external_body]
fn quoted_text(text: &str) -> (r: String)
    ensures
        r@ == quoted(text@),
{
    format!("{:?}", text)
}

/// How many bytes of a body a diagnostic shows.
pub const HEAD_BYTES: usize = 180;

/// The error for a body that is neither JSON nor events.
pub open spec fn decode_error(
    json_err: Seq<char>,
    content_type: Option<Seq<char>>,
    bytes: Seq<u8>,
) -> LlmErrorView {
    let head = bytes.take(if bytes.len() <= HEAD_BYTES {
        bytes.len() as int
    } else {
        HEAD_BYTES as int
    });
    let ct = match content_type {
        Some(c) => c,
        None => "none"@,
    };
    LlmErrorView::Protocol(
        "response decode failed: JSON ("@ + json_err
            + "); not parseable as SSE (content-type="@ + quoted(ct) + ", head="@ + quoted(
            lossy(head),
        ) + ")"@,
    )
}

/// The error for a body that is neither JSON nor events: what was tried, the
/// content type, and how the body begins.
pub fn protocol_decode_error(json_err: &str, content_type: Option<&str>, bytes: &[u8]) -> (r:
    LlmError)
    ensures
        r.deep_view() == decode_error(json_err@, content_type.deep_view(), bytes@),
{
    let n: usize = if bytes.len() <= HEAD_BYTES {
        bytes.len()
    } else {
        HEAD_BYTES
    };
    let head = bytes_of(bytes, 0, n);
    proof {
        assert(head@ =~= bytes@.take(n as int));
    }
    let ct = match content_type {
        Some(c) => quoted_text(c),
        None => quoted_text("none"),
    };
    let shown = quoted_text(lossy_text(head.as_slice()).as_str());
    let mut msg = "response decode failed: JSON (".to_owned();
    msg.append(json_err);
    msg.append("); not parseable as SSE (content-type=");
    msg.append(ct.as_str());
    msg.append(", head=");
    msg.append(shown.as_str());
    msg.append(")");
    LlmError::Protocol(msg)
}

/// What a whole response body says.
pub open spec fn wire_body(bytes: Seq<u8>, content_type: Option<Seq<char>>) -> Result<
    WireBodyView,
    LlmErrorView,
> {
    if labelled_sse(content_type) || starts_sse(bytes) {
        match sse_events(bytes) {
            Err(e) => Err(e),
            Ok(events) => match parsed_slice(bytes) {
                Ok(v) if events.len() == 0 => Ok(WireBodyView::Json(v)),
                _ => Ok(WireBodyView::Sse(events)),
            },
        }
    } else {
        match parsed_slice(bytes) {
            Ok(v) => Ok(WireBodyView::Json(v)),
            Err(m) => match sse_events(bytes) {
                Err(e) => Err(e),
                Ok(events) => if events.len() == 0 {
                    Err(decode_error(m, content_type, bytes))
                } else {
                    Ok(WireBodyView::Sse(events))
                },
            },
        }
    }
}

/// A decoded body as its views.
pub open spec fn body_view(r: Result<WireBody, LlmError>) -> Result<WireBodyView, LlmErrorView> {
    match r {
        Ok(b) => Ok(b.deep_view()),
        Err(e) => Err(e.deep_view()),
    }
}

/// Decodes a whole response body. A body that is labelled as an event stream,
/// or begins like one, is read as events, and as JSON where there are none;
/// any other body is read as JSON, and as events where it is no JSON.
pub fn parse_wire_body(bytes: &[u8], content_type: Option<&str>) -> (r: Result<WireBody, LlmError>)
    ensures
        body_view(r) == wire_body(bytes@, content_type.deep_view()),
{
    let labelled = match content_type {
        Some(ct) => occurs_in(lowered_text(ct).as_str(), "text/event-stream"),
        None => false,
    };
    if labelled || looks_sse(bytes) {
        let events = match parse_sse_events(bytes) {
            Ok(v) => v,
            Err(e) => {
                return Err(e);
            },
        };
        if events.len() == 0 {
            if let Ok(v) = parse_slice(bytes) {
                return Ok(WireBody::Json(v));
            }
        }
        return Ok(WireBody::Sse(events));
    }
    match parse_slice(bytes) {
        Ok(v) => Ok(WireBody::Json(v)),
        Err(m) => match parse_sse_events(bytes) {
            Err(e) => Err(e),
            Ok(events) => if events.len() == 0 {
                Err(protocol_decode_error(m.as_str(), content_type, bytes))
            } else {
                Ok(WireBody::Sse(events))
            },
        },
    }
}

/// What one event gives: an addition, the reason of the end, the token usage.
pub type ChunkParts = (Option<StreamChunk>, Option<FinishReason>, Option<TokenUsage>);

pub type ChunkPartsView = (Option<StreamChunkView>, Option<FinishReasonView>, Option<TokenUsage>);

/// An event as its protocol reads it: the id and model that it carries, and
/// what it gives.
#[derive(Debug)]
pub struct MappedEvent {
    pub meta: Option<(String, String)>,
    pub parts: Result<ChunkParts, LlmError>,
}

pub struct MappedEventView {
    pub meta: Option<(Seq<char>, Seq<char>)>,
    pub parts: Result<ChunkPartsView, LlmErrorView>,
}

/// What an event gives, as its views.
pub open spec fn parts_view(r: Result<ChunkParts, LlmError>) -> Result<
    ChunkPartsView,
    LlmErrorView,
> {
    match r {
        Ok(p) => Ok(p.deep_view()),
        Err(e) => Err(e.deep_view()),
    }
}

impl DeepView for MappedEvent {
    type V = MappedEventView;

    open spec fn deep_view(&self) -> MappedEventView {
        MappedEventView { meta: self.meta.deep_view(), parts: parts_view(self.parts) }
    }
}

/// A series of events folded together.
pub struct FoldView {
    pub draft: DraftView,
    pub finish: Option<FinishReasonView>,
    pub usage: Option<TokenUsage>,
    pub id: Seq<char>,
    pub model: Seq<char>,
}

impl FoldView {
    pub open spec fn blank() -> FoldView {
        FoldView {
            draft: DraftView::blank(),
            finish: None,
            usage: None,
            id: Seq::empty(),
            model: Seq::empty(),
        }
    }

    /// The fold with the id and model of an event, where they were missing.
    pub open spec fn identify(self, meta: Option<(Seq<char>, Seq<char>)>) -> FoldView {
        match meta {
            Some((i, m)) => FoldView {
                id: if self.id.len() == 0 {
                    i
                } else {
                    self.id
                },
                model: if self.model.len() == 0 {
                    m
                } else {
                    self.model
                },
                ..self
            },
            None => self,
        }
    }

    /// The fold with what an event gives: a later reason or usage replaces an
    /// earlier one.
    pub open spec fn take(self, parts: ChunkPartsView) -> FoldView {
        FoldView {
            draft: match parts.0 {
                Some(StreamChunkView::Delta(d)) => self.draft.absorb(d),
                _ => self.draft,
            },
            finish: match parts.1 {
                Some(f) => Some(f),
                None => self.finish,
            },
            usage: match parts.2 {
                Some(u) => Some(u),
                None => self.usage,
            },
            ..self
        }
    }

    /// The response that the fold makes.
    pub open spec fn response(
        self,
        id_fallback: Seq<char>,
        model_fallback: Seq<char>,
    ) -> ChatResponseView {
        ChatResponseView {
            id: if self.id.len() == 0 {
                id_fallback
            } else {
                self.id
            },
            model: if self.model.len() == 0 {
                model_fallback
            } else {
                self.model
            },
            message: self.draft.message(self.usage),
            finish_reason: match self.finish {
                Some(f) => f,
                None => FinishReasonView::Stop,
            },
            usage: self.usage,
        }
    }
}

/// The events folded together, up to the first error.
pub open spec fn fold_events(events: Seq<MappedEventView>) -> Result<FoldView, LlmErrorView>
    decreases events.len(),
{
    if events.len() == 0 {
        Ok(FoldView::blank())
    } else {
        match fold_events(events.drop_last()) {
            Err(e) => Err(e),
            Ok(f) => match events.last().parts {
                Err(e) => Err(e),
                Ok(p) => Ok(f.identify(events.last().meta).take(p)),
            },
        }
    }
}

/// An error stays whatever follows.
proof fn lemma_fold_error(events: Seq<MappedEventView>, n: int)
    requires
        0 <= n <= events.len(),
        fold_events(events.take(n)) is Err,
    ensures
        fold_events(events) == fold_events(events.take(n)),
    decreases events.len() - n,
{
    if n < events.len() {
        assert(events.take(n + 1).drop_last() =~= events.take(n));
        lemma_fold_error(events, n + 1);
    } else {
        assert(events.take(n) =~= events);
    }
}

/// A folded response as its views.
pub open spec fn response_view(r: Result<ChatResponse, LlmError>) -> Result<
    ChatResponseView,
    LlmErrorView,
> {
    match r {
        Ok(x) => Ok(x.deep_view()),
        Err(e) => Err(e.deep_view()),
    }
}

/// Folds a whole series of events into one response: texts and arguments are
/// appended in order, the last reason and usage count, and the id and model are
/// the first ones that are there.
pub fn sse_fold_into_response(
    events: Vec<MappedEvent>,
    id_fallback: &str,
    model_fallback: &str,
) -> (r: Result<ChatResponse, LlmError>)
    ensures
        response_view(r) == (match fold_events(events.deep_view()) {
            Ok(f) => Ok::<ChatResponseView, LlmErrorView>(
                f.response(id_fallback@, model_fallback@),
            ),
            Err(e) => Err(e),
        }),
{
    let ghost all = events.deep_view();
    let ghost kept = events@;
    let mut draft = Draft::new();
    let mut finish: Option<FinishReason> = None;
    let mut usage: Option<TokenUsage> = None;
    let mut id = String::new();
    let mut model = String::new();
    let mut rest = events;
    let n: usize = rest.len();
    let mut i: usize = 0;
    proof {
        assert(all.take(0) =~= Seq::empty());
        assert(id@ =~= Seq::empty());
    }
    while i < n
        invariant
            i <= n,
            n == kept.len(),
            rest@ == kept.skip(i as int),
            all == events.deep_view(),
            all == kept.map_values(|e: MappedEvent| e.deep_view()),
            fold_events(all.take(i as int)) == Ok::<FoldView, LlmErrorView>(
                FoldView {
                    draft: draft.deep_view(),
                    finish: finish.deep_view(),
                    usage,
                    id: id@,
                    model: model@,
                },
            ),
        decreases n - i,
    {
        let ghost before = FoldView {
            draft: draft.deep_view(),
            finish: finish.deep_view(),
            usage,
            id: id@,
            model: model@,
        };
        let ev = rest.remove(0);
        proof {
            assert(ev == kept[i as int]);
            assert(rest@ =~= kept.skip(i + 1));
            assert(all.take(i + 1).drop_last() =~= all.take(i as int));
            assert(all.take(i + 1).last() == ev.deep_view());
        }
        if let Some((a, b)) = ev.meta {
            if id.as_str().is_empty() {
                id = a;
            }
            if model.as_str().is_empty() {
                model = b;
            }
        }
        match ev.parts {
            Err(e) => {
                proof {
                    lemma_fold_error(all, i + 1);
                }
                return Err(e);
            },
            Ok((delta, f, u)) => {
                if let Some(f) = f {
                    finish = Some(f);
                }
                if let Some(u) = u {
                    usage = Some(u);
                }
                if let Some(d) = delta {
                    draft.absorb(d);
                }
            },
        }
        i = i + 1;
    }
    proof {
        assert(all.take(n as int) =~= all);
    }
    if id.as_str().is_empty() {
        id = id_fallback.to_owned();
    }
    if model.as_str().is_empty() {
        model = model_fallback.to_owned();
    }
    Ok(
        ChatResponse {
            id,
            model,
            message: draft.message(usage),
            finish_reason: match finish {
                Some(f) => f,
                None => FinishReason::Stop,
            },
            usage,
        },
    )
}

/// Bytes of lines that have a line feed at most between them, and no carriage return:
/// bytes that no blank line ends.
pub open spec fn unbroken(a: Seq<u8>) -> bool {
    &&& forall|i: int| 0 <= i < a.len() ==> #[trigger] a[i] != 13
    &&& forall|i: int, j: int|
        0 <= i && j == i + 1 && j < a.len() ==> !(#[trigger] a[i] == 10 && #[trigger] a[j] == 10)
    &&& a.len() > 0 ==> a.last() != 10
}

/// An event ends at the first blank line, however lines are ended; what follows is left.
pub proof fn law_event_is_cut(a: Seq<u8>, b: Seq<u8>)
    requires
        unbroken(a),
    ensures
        cut(a + seq![10u8, 10u8] + b) == Some((a, b)),
        cut(a + seq![13u8, 10u8, 13u8, 10u8] + b) == Some((a, b)),
        cut(a + seq![13u8, 13u8] + b) == Some((a, b)),
        cut(a) is None,
{
    let n = a.len() as int;
    let x = a + seq![10u8, 10u8] + b;
    let y = a + seq![13u8, 10u8, 13u8, 10u8] + b;
    let z = a + seq![13u8, 13u8] + b;
    assert forall|i: int| 0 <= i < n implies break_at(x, i) == 0 && break_at(y, i) == 0
        && break_at(z, i) == 0 && break_at(a, i) == 0 by {
        assert(x[i] == a[i] && y[i] == a[i] && z[i] == a[i]);
        if i + 1 < n {
            assert(x[i + 1] == a[i + 1] && y[i + 1] == a[i + 1] && z[i + 1] == a[i + 1]);
        }
    }
    lemma_first_break(x, 0, n);
    lemma_first_break(y, 0, n);
    lemma_first_break(z, 0, n);
    assert(x.take(n) =~= a);
    assert(y.take(n) =~= a);
    assert(z.take(n) =~= a);
    assert(x.skip(n + 2) =~= b);
    assert(y.skip(n + 4) =~= b);
    assert(z.skip(n + 2) =~= b);
    lemma_first_break(a, 0, n);
}

/// A line of data has its data behind the colon, without the white space before them and
/// without a carriage return at the end; any other line has none.
pub proof fn law_data_line(x: Seq<char>)
    requires
        x.len() > 0 ==> x.last() != '\r',
    ensures
        x.len() > 0 && !crate::text::is_space(x[0]) ==> data_line("data: "@ + x) == Some(x),
        x.len() > 0 && !crate::text::is_space(x[0]) ==> data_line("data:"@ + x) == Some(x),
        x.len() > 0 && !crate::text::is_space(x[0]) ==> data_line("data: "@ + x + seq!['\r'])
            == Some(x),
        !begins(x, "data:"@) ==> data_line(x) is None,
{
    reveal_strlit("data:");
    reveal_strlit("data: ");
    assert("data:"@.len() == 5);
    assert("data: "@.len() == 6);
    let a = "data: "@ + x;
    let b = "data:"@ + x;
    let c = a + seq!['\r'];
    assert(strip_end(x, '\r') == x);
    if x.len() > 0 && !crate::text::is_space(x[0]) {
        assert(a.last() == x.last());
        assert(b.last() == x.last());
        assert(c.drop_last() =~= a);
        assert(strip_end(c, '\r') == strip_end(a, '\r'));
        assert(a.subrange(0, 5) =~= "data:"@);
        assert(b.subrange(0, 5) =~= "data:"@);
        assert(b.skip(5) =~= x);
        assert(a.skip(5) =~= seq![' '] + x);
        assert(a.skip(5).drop_first() =~= x);
        assert(trim_start(x) == x);
        assert(trim_start(a.skip(5)) == trim_start(x));
    }
}

/// The data of lines are those of its data lines, in their order.
pub proof fn law_data_lines(lines: Seq<Seq<char>>, line: Seq<char>, d: Seq<char>)
    ensures
        data_lines(Seq::empty()).len() == 0,
        data_line(line) == Some(d) ==> data_lines(lines.push(line)) == data_lines(lines).push(d),
        data_line(line) is None ==> data_lines(lines.push(line)) == data_lines(lines),
{
    assert(lines.push(line).drop_last() =~= lines);
}

/// The data of an event are its data lines, one below the other; an event without any
/// has none.
pub proof fn law_data_field(event: Seq<u8>, lines: Seq<Seq<char>>)
    requires
        lines == data_lines(split(decode_utf8(event), '\n')),
    ensures
        valid_utf8(event) && lines.len() == 1 ==> data_field(event) == Some(lines[0]),
        valid_utf8(event) && lines.len() > 0 ==> data_field(event) == Some(join(lines, "\n"@)),
        lines.len() == 0 || !valid_utf8(event) ==> data_field(event) is None,
{
}

/// A stream says that it is done with one word, whatever white space stands around it.
pub proof fn law_done(d: Seq<char>)
    ensures
        trim(d) == "[DONE]"@ ==> is_done(d),
        trim(d) != "[DONE]"@ ==> !is_done(d),
        is_done("[DONE]"@),
{
    reveal_strlit("[DONE]");
    let s = "[DONE]"@;
    assert(s.len() == 6 && s[0] == '[' && s[5] == ']');
    assert(trim_start(s) == s);
    assert(s.last() == ']');
}

/// Events are read one after the other as far as they are whole, up to the word that ends
/// the stream; what has no data is passed over.
pub proof fn law_events_are_drained(a: Seq<u8>, b: Seq<u8>, d: Seq<char>)
    requires
        unbroken(a),
    ensures
        ({
            let buf = a + seq![10u8, 10u8] + b;
            &&& data_field(a) is None ==> drain(buf) == drain(b) && sse_events(buf) == sse_events(b)
            &&& data_field(a) == Some(d) && is_done(d) ==> drain(buf).0.len() == 0 && drain(buf).2
                && drain(buf).1 == b && (sse_events(buf) matches Ok(vs) && vs.len() == 0)
            &&& data_field(a) == Some(d) && !is_done(d) ==> drain(buf).0 == seq![event_value(d)]
                + drain(b).0 && drain(buf).1 == drain(b).1 && drain(buf).2 == drain(b).2
            &&& data_field(a) == Some(d) && !is_done(d) ==> (event_value(d) matches Ok(v) ==> (
            sse_events(b) matches Ok(vs) ==> sse_events(buf) == Ok::<Seq<JsonView>, LlmErrorView>(
                seq![v] + vs,
            )))
            &&& data_field(a) == Some(d) && !is_done(d) ==> (event_value(d) matches Err(e)
                ==> sse_events(buf) == Err::<Seq<JsonView>, LlmErrorView>(e))
        }),
        drain(a).0.len() == 0,
        drain(a).1 == a,
        !drain(a).2,
{
    law_event_is_cut(a, b);
}

/// What is left when a stream ends is one more event, where it has data that do not end
/// the stream.
pub proof fn law_rest_is_flushed(a: Seq<u8>, d: Seq<char>)
    ensures
        a.len() > 0 && data_field(a) == Some(d) && !is_done(d) ==> flush(a) == Some(event_value(d)),
        data_field(a) is None ==> flush(a) is None,
        data_field(a) == Some(d) && is_done(d) ==> flush(a) is None,
        a.len() == 0 ==> flush(a) is None,
{
}

/// The value of an event is what its data say in JSON; data that say nothing in JSON are
/// an error with the reason.
pub proof fn law_event_value(d: Seq<char>, v: JsonView, why: Seq<char>)
    ensures
        parsed(d) == Ok::<JsonView, Seq<char>>(v) ==> event_value(d) == Ok::<
            JsonView,
            LlmErrorView,
        >(v),
        parsed(d) == Err::<JsonView, Seq<char>>(why) ==> event_value(d) == Err::<
            JsonView,
            LlmErrorView,
        >(LlmErrorView::Protocol("SSE JSON parse: "@ + why)),
{
}

/// A body is a stream where its label says so, in whatever case, or where it begins as one
/// behind white space.
pub proof fn law_streams_are_told(label: Seq<char>, bytes: Seq<u8>, b: u8)
    ensures
        labelled_sse(Some(label)) <==> occurs(lowered(label), "text/event-stream"@),
        !labelled_sse(None),
        starts_sse(seq![100u8, 97, 116, 97, 58] + bytes),
        b == 32 || b == 9 || b == 10 || b == 13 ==> starts_sse(seq![b] + bytes) == starts_sse(bytes),
        b != 100 && b != 32 && b != 9 && b != 10 && b != 12 && b != 13 ==> !starts_sse(
            seq![b] + bytes,
        ),
{
    let s = seq![b] + bytes;
    assert(s[0] == b);
    assert(s.drop_first() =~= bytes);
    let t = seq![100u8, 97, 116, 97, 58] + bytes;
    assert(t[0] == 100 && t[1] == 97 && t[2] == 116 && t[3] == 97 && t[4] == 58);
}

/// A body is what it says it is: JSON, or the events of a stream. A body that is neither
/// is an error that says so.
pub proof fn law_bodies_are_told(
    bytes: Seq<u8>,
    label: Option<Seq<char>>,
    v: JsonView,
    why: Seq<char>,
    events: Seq<JsonView>,
)
    ensures
        !labelled_sse(label) && !starts_sse(bytes) && parsed_slice(bytes) == Ok::<
            JsonView,
            Seq<char>,
        >(v) ==> wire_body(bytes, label) == Ok::<WireBodyView, LlmErrorView>(
            WireBodyView::Json(v),
        ),
        (labelled_sse(label) || starts_sse(bytes)) && sse_events(bytes) == Ok::<
            Seq<JsonView>,
            LlmErrorView,
        >(events) && events.len() > 0 ==> wire_body(bytes, label) == Ok::<
            WireBodyView,
            LlmErrorView,
        >(WireBodyView::Sse(events)),
        !labelled_sse(label) && !starts_sse(bytes) && parsed_slice(bytes) == Err::<
            JsonView,
            Seq<char>,
        >(why) && sse_events(bytes) == Ok::<Seq<JsonView>, LlmErrorView>(events) && events.len() > 0
            ==> wire_body(bytes, label) == Ok::<WireBodyView, LlmErrorView>(
            WireBodyView::Sse(events),
        ),
        !labelled_sse(label) && !starts_sse(bytes) && parsed_slice(bytes) == Err::<
            JsonView,
            Seq<char>,
        >(why) && sse_events(bytes) == Ok::<Seq<JsonView>, LlmErrorView>(events) && events.len()
            == 0 && bytes.len() <= 180 ==> wire_body(bytes, label) == Err::<
            WireBodyView,
            LlmErrorView,
        >(
            LlmErrorView::Protocol(
                "response decode failed: JSON ("@ + why
                    + "); not parseable as SSE (content-type="@ + quoted(
                    match label {
                        Some(l) => l,
                        None => "none"@,
                    },
                ) + ", head="@ + quoted(lossy(bytes)) + ")"@,
            ),
        ),
{
    assert(bytes.take(bytes.len() as int) =~= bytes);
}

} // verus!
