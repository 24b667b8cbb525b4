//! Responses that are kept for requests that come again: the least recently used
//! go first, and none is kept longer than its time.

use std::collections::hash_map::DefaultHasher;
use std::hash::Hasher;
use vstd::bytes::{spec_u64_to_le_bytes, u64_to_le_bytes};
use vstd::prelude::*;
use vstd::std_specs::hash::DefaultHasherAdditionalSpecFns;
use vstd::string::*;
use vstd::utf8::encode_utf8;

use crate::codec::{message_json, message_to_json};
use crate::json::{json_text, write_text, Json, JsonView, Number, NumberView};
use crate::provider::{
    copy_fields, ChatRequest, ChatRequestView, ChatResponse, ChatResponseView, DeltaView, Message,
    MessageView, ReasoningEffort, StreamChunk, StreamChunkView, ToolCallDelta, ToolChoice,
    ToolDeclaration, ToolDeclarationView,
};
use crate::session::log::last_of;
use crate::table::{
    distinct, drop_key, law_lookup_drop, lemma_absent, lemma_at, lemma_found, lookup, put, Held,
    KeyView, Table,
};
use crate::text::{chars_of, string_of};
use crate::time::Duration;

verus! {

broadcast use vstd::string::group_string_axioms;

/// What a response is kept under: the vendor and model, a hash of the content of
/// the request and one of its parameters.
#[derive(Debug, PartialEq, Eq)]
pub struct CacheKey {
    pub provider: String,
    pub content_hash: u64,
    pub params_hash: u64,
}

impl DeepView for CacheKey {
    type V = KeyView;

    open spec fn deep_view(&self) -> KeyView {
        (self.provider@, self.content_hash, self.params_hash)
    }
}

impl Clone for CacheKey {
    fn clone(&self) -> (r: Self)
        ensures
            r.deep_view() == self.deep_view(),
    {
        CacheKey {
            provider: self.provider.clone(),
            content_hash: self.content_hash,
            params_hash: self.params_hash,
        }
    }
}

/// Whether, how many and how long responses are kept.
#[derive(Debug, Clone, Copy, PartialEq, Eq)]
pub struct CacheConfig {
    pub enabled: bool,
    pub capacity: usize,
    pub ttl: Duration,
}

impl Default for CacheConfig {
    fn default() -> (r: Self)
        ensures
            r.is_usual(),
    {
        CacheConfig { enabled: false, capacity: 1000, ttl: Duration::from_secs(3600) }
    }
}

impl CacheConfig {
    /// A cache that nobody configured: off, and an hour long.
    pub open spec fn is_usual(self) -> bool {
        &&& !self.enabled
        &&& self.capacity == 1000
        &&& self.ttl.wf()
        &&& self.ttl.total() == 3_600_000_000_000
    }

    /// Nothing is kept.
    pub fn disabled() -> (r: CacheConfig)
        ensures
            r == (CacheConfig { enabled: false, capacity: 0, ttl: Duration { secs: 0, nanos: 0 } }),
    {
        CacheConfig { enabled: false, capacity: 0, ttl: Duration { secs: 0, nanos: 0 } }
    }
}

/// A response and the time at which it was kept, in milliseconds.
pub struct CacheEntry {
    pub response: ChatResponse,
    pub created_at: u64,
}

pub struct CacheEntryView {
    pub response: ChatResponseView,
    pub created_at: u64,
}

impl DeepView for CacheEntry {
    type V = CacheEntryView;

    open spec fn deep_view(&self) -> CacheEntryView {
        CacheEntryView { response: self.response.deep_view(), created_at: self.created_at }
    }
}

/// Whether a response has been kept for longer than it may.
pub open spec fn expired(created_at: u64, now: u64, ttl: Duration) -> bool {
    now >= created_at && (now - created_at) * 1_000_000 > ttl.total()
}

impl Held for CacheEntry {
    open spec fn sound(&self) -> bool {
        true
    }
}

/// Responses by key, the least recently used first.
pub struct InMemoryCache {
    entries: Table<CacheEntry>,
    capacity: usize,
    ttl: Duration,
}

pub struct CacheView {
    pub entries: Seq<(KeyView, CacheEntryView)>,
    pub capacity: usize,
    pub ttl: Duration,
}

impl DeepView for InMemoryCache {
    type V = CacheView;

    closed spec fn deep_view(&self) -> CacheView {
        CacheView { entries: self.entries.deep_view(), capacity: self.capacity, ttl: self.ttl }
    }
}

impl CacheView {
    /// The bound is kept and no key stands twice.
    pub open spec fn wf(self) -> bool {
        &&& self.entries.len() <= self.capacity
        &&& distinct(self.entries)
        &&& self.ttl.wf()
    }

    /// Whether there is a response under a key that has not expired.
    pub open spec fn fresh(self, key: KeyView, now: u64) -> bool {
        lookup(self.entries, key) matches Some(e) && !expired(e.created_at, now, self.ttl)
    }

    /// What is answered for a key.
    pub open spec fn answer(self, key: KeyView, now: u64) -> Option<ChatResponseView> {
        if self.fresh(key, now) {
            Some(lookup(self.entries, key)->0.response)
        } else {
            None
        }
    }

    /// The cache once it was asked: what was found is the most recently used,
    /// and what had expired is gone.
    pub open spec fn asked(self, key: KeyView, now: u64) -> CacheView {
        if self.fresh(key, now) {
            CacheView {
                entries: drop_key(self.entries, key).push((key, lookup(self.entries, key)->0)),
                ..self
            }
        } else {
            CacheView { entries: drop_key(self.entries, key), ..self }
        }
    }

    /// The cache once a response was kept: it is the most recently used, and
    /// where there is no room the least recently used goes.
    pub open spec fn kept(self, key: KeyView, response: ChatResponseView, now: u64) -> CacheView {
        if self.capacity == 0 {
            self
        } else {
            let entry = CacheEntryView { response, created_at: now };
            CacheView {
                entries: last_of(drop_key(self.entries, key), self.capacity - 1).push(
                    (key, entry),
                ),
                ..self
            }
        }
    }
}

/// Dropping a key of a list in which no key stands twice.
proof fn lemma_drop(items: Seq<(KeyView, CacheEntryView)>, key: KeyView)
    requires
        distinct(items),
    ensures
        distinct(drop_key(items, key)),
        drop_key(items, key).len() <= items.len(),
        lookup(items, key) is Some ==> drop_key(items, key).len() < items.len(),
        lookup(items, key) is None ==> drop_key(items, key) == items,
        lookup(drop_key(items, key), key) is None,
        forall|i: int|
            0 <= i < drop_key(items, key).len() ==> (#[trigger] drop_key(items, key)[i]).0 != key,
{
    law_lookup_drop(items, key, key);
    if lookup(items, key) is Some {
        let i = lemma_found(items, key);
        lemma_at(items, i);
        let after = items.remove(i);
        assert forall|a: int, b: int| 0 <= a < b < after.len() implies (#[trigger] after[a]).0
            != (#[trigger] after[b]).0 by {
            let p = if a < i {
                a
            } else {
                a + 1
            };
            let q = if b < i {
                b
            } else {
                b + 1
            };
            assert(after[a] == items[p] && after[b] == items[q]);
        }
        assert forall|j: int| 0 <= j < after.len() implies (#[trigger] after[j]).0 != key by {
            let p = if j < i {
                j
            } else {
                j + 1
            };
            assert(after[j] == items[p]);
            assert(items[i].0 == key);
        }
    } else {
        assert forall|j: int| 0 <= j < items.len() implies (#[trigger] items[j]).0 != key by {
            if items[j].0 == key {
                lemma_at(items, j);
            }
        }
        lemma_absent(items, key);
    }
}

/// The end of a list in which no key stands twice is such a list.
proof fn lemma_last_distinct(items: Seq<(KeyView, CacheEntryView)>, n: int)
    requires
        distinct(items),
        0 <= n,
    ensures
        distinct(last_of(items, n)),
        last_of(items, n).len() <= n,
        last_of(items, n).len() <= items.len(),
{
    let t = last_of(items, n);
    if items.len() > n {
        assert forall|a: int, b: int| 0 <= a < b < t.len() implies (#[trigger] t[a]).0 != (
        #[trigger] t[b]).0 by {
            assert(t[a] == items[a + (items.len() - n)] && t[b] == items[b + (items.len() - n)]);
        }
    }
}

/// A key behind a list that has not got it.
proof fn lemma_push_distinct(
    items: Seq<(KeyView, CacheEntryView)>,
    key: KeyView,
    e: CacheEntryView,
)
    requires
        distinct(items),
        forall|i: int| 0 <= i < items.len() ==> (#[trigger] items[i]).0 != key,
    ensures
        distinct(items.push((key, e))),
        put(items, key, e) == items.push((key, e)),
{
    lemma_absent(items, key);
    let after = items.push((key, e));
    assert forall|a: int, b: int| 0 <= a < b < after.len() implies (#[trigger] after[a]).0 != (
    #[trigger] after[b]).0 by {
        assert(after[a] == items[a]);
        if b < items.len() {
            assert(after[b] == items[b]);
        }
    }
}

fn key_of(key: &CacheKey) -> (r: (String, u64, u64))
    ensures
        r.deep_view() == key.deep_view(),
{
    (key.provider.clone(), key.content_hash, key.params_hash)
}

impl InMemoryCache {
    /// The table is in order, and so is the cache.
    pub closed spec fn wf(self) -> bool {
        self.entries.wf() && self.deep_view().wf()
    }

    pub proof fn lemma_wf(&self)
        requires
            self.wf(),
        ensures
            self.deep_view().wf(),
    {
    }

    pub fn new(capacity: usize, ttl: Duration) -> (r: InMemoryCache)
        requires
            ttl.wf(),
        ensures
            r.wf(),
            r.deep_view() == (CacheView { entries: Seq::empty(), capacity, ttl }),
    {
        InMemoryCache { entries: Table::new(), capacity, ttl }
    }

    pub fn len(&self) -> (r: usize)
        ensures
            r == self.deep_view().entries.len(),
    {
        self.entries.len()
    }

    pub fn is_empty(&self) -> (r: bool)
        ensures
            r == (self.deep_view().entries.len() == 0),
    {
        self.entries.len() == 0
    }

    /// What is kept under a key, where it has not expired. It becomes the most
    /// recently used; what has expired goes.
    pub fn get(&mut self, key: &CacheKey, now: u64) -> (r: Option<ChatResponse>)
        requires
            old(self).wf(),
        ensures
            final(self).wf(),
            final(self).deep_view() == old(self).deep_view().asked(key.deep_view(), now),
            r.deep_view() == old(self).deep_view().answer(key.deep_view(), now),
    {
        let ghost before = self.entries.deep_view();
        let k = key_of(key);
        proof {
            lemma_drop(before, k.deep_view());
        }
        let entry = match self.entries.remove(&k) {
            Some(e) => e,
            None => {
                return None;
            },
        };
        let old_enough = now >= entry.created_at;
        let age: u64 = if old_enough {
            now - entry.created_at
        } else {
            0
        };
        let span = Duration::from_millis(age);
        proof {
            assert(expired(entry.created_at, now, self.ttl) == !(self.ttl.total()
                >= span.total()));
        }
        if !self.ttl.at_least(&span) {
            return None;
        }
        let response = entry.response.clone();
        proof {
            lemma_push_distinct(self.entries.deep_view(), k.deep_view(), entry.deep_view());
        }
        self.entries.insert(k, entry);
        Some(response)
    }

    /// Keeps a response.
    pub fn set(&mut self, key: CacheKey, response: ChatResponse, now: u64)
        requires
            old(self).wf(),
        ensures
            final(self).wf(),
            final(self).deep_view() == old(self).deep_view().kept(
                key.deep_view(),
                response.deep_view(),
                now,
            ),
    {
        if self.capacity == 0 {
            return;
        }
        let ghost before = self.entries.deep_view();
        let k = key_of(&key);
        let ghost kv = k.deep_view();
        proof {
            lemma_drop(before, kv);
        }
        let _old = self.entries.remove(&k);
        let ghost dropped = self.entries.deep_view();
        if self.entries.len() >= self.capacity {
            proof {
                self.entries.lemma_distinct();
                lemma_at(dropped, 0);
                assert(dropped.remove(0) =~= last_of(dropped, self.capacity - 1));
            }
            let oldest = self.entries.key_at(0);
            let victim = (oldest.0.clone(), oldest.1, oldest.2);
            let _gone = self.entries.remove(&victim);
        }
        let ghost room = self.entries.deep_view();
        proof {
            assert(room == last_of(dropped, self.capacity - 1));
            lemma_last_distinct(dropped, self.capacity - 1);
            assert forall|i: int| 0 <= i < room.len() implies (#[trigger] room[i]).0 != kv by {
                if dropped.len() > self.capacity - 1 {
                    assert(room[i] == dropped[i + (dropped.len() - (self.capacity - 1))]);
                } else {
                    assert(room[i] == dropped[i]);
                }
            }
            lemma_push_distinct(
                room,
                kv,
                CacheEntryView { response: response.deep_view(), created_at: now },
            );
        }
        self.entries.insert(k, CacheEntry { response, created_at: now });
    }
}

// ---------------------------------------------------------------------------
// Laws

/// What was kept is answered until it expires.
pub proof fn law_get_after_set(
    c: CacheView,
    key: KeyView,
    response: ChatResponseView,
    at: u64,
    now: u64,
)
    requires
        c.wf(),
        c.capacity > 0,
        !expired(at, now, c.ttl),
    ensures
        c.kept(key, response, at).answer(key, now) == Some(response),
{
    let after = c.kept(key, response, at).entries;
    assert(after.last().0 == key);
}

/// The bound is kept whatever happens.
pub proof fn law_bounded(c: CacheView, key: KeyView, response: ChatResponseView, now: u64)
    requires
        c.wf(),
    ensures
        c.kept(key, response, now).wf(),
        c.asked(key, now).wf(),
{
    lemma_drop(c.entries, key);
    let d = drop_key(c.entries, key);
    if c.capacity > 0 {
        lemma_last_distinct(d, c.capacity - 1);
        let room = last_of(d, c.capacity - 1);
        assert forall|i: int| 0 <= i < room.len() implies (#[trigger] room[i]).0 != key by {
            if d.len() > c.capacity - 1 {
                assert(room[i] == d[i + (d.len() - (c.capacity - 1))]);
            } else {
                assert(room[i] == d[i]);
            }
        }
        lemma_push_distinct(room, key, CacheEntryView { response, created_at: now });
    }
    if c.fresh(key, now) {
        lemma_push_distinct(d, key, lookup(c.entries, key)->0);
    }
}

/// Only the least recently used makes room, and only where there is none: every
/// other response is still there.
pub proof fn law_least_recently_used_goes(
    c: CacheView,
    key: KeyView,
    response: ChatResponseView,
    now: u64,
    i: int,
)
    requires
        c.wf(),
        c.capacity > 0,
        lookup(c.entries, key) is None,
        0 <= i < c.entries.len(),
        i > 0 || c.entries.len() < c.capacity,
    ensures
        lookup(c.kept(key, response, now).entries, c.entries[i].0) == Some(c.entries[i].1),
{
    lemma_drop(c.entries, key);
    law_bounded(c, key, response, now);
    let after = c.kept(key, response, now).entries;
    let j = if c.entries.len() < c.capacity {
        i
    } else {
        i - 1
    };
    assert(after[j] == c.entries[i]);
    lemma_at(after, j);
}

/// A full cache that keeps a new response loses the least recently used.
pub proof fn law_full_cache_evicts(
    c: CacheView,
    key: KeyView,
    response: ChatResponseView,
    now: u64,
)
    requires
        c.wf(),
        c.capacity > 0,
        c.entries.len() == c.capacity,
        lookup(c.entries, key) is None,
    ensures
        lookup(c.kept(key, response, now).entries, c.entries[0].0) is None,
        c.kept(key, response, now).entries.len() == c.capacity,
{
    lemma_drop(c.entries, key);
    law_bounded(c, key, response, now);
    let after = c.kept(key, response, now).entries;
    assert forall|j: int| 0 <= j < after.len() implies (#[trigger] after[j]).0
        != c.entries[0].0 by {
        if j < after.len() - 1 {
            assert(after[j] == c.entries[j + 1]);
        } else {
            lemma_at(c.entries, 0);
        }
    }
    lemma_absent(after, c.entries[0].0);
}

/// What was found is the most recently used.
pub proof fn law_asking_refreshes(c: CacheView, key: KeyView, now: u64)
    requires
        c.fresh(key, now),
    ensures
        c.asked(key, now).entries.last().0 == key,
        c.asked(key, now).answer(key, now) == c.answer(key, now),
{
}

/// What has expired is not answered, and goes.
pub proof fn law_expired_goes(c: CacheView, key: KeyView, now: u64)
    requires
        lookup(c.entries, key) matches Some(e) && expired(e.created_at, now, c.ttl),
    ensures
        c.answer(key, now) is None,
        lookup(c.asked(key, now).entries, key) is None,
{
    law_lookup_drop(c.entries, key, key);
}

/// A cache without room keeps nothing.
pub proof fn law_no_room(c: CacheView, key: KeyView, response: ChatResponseView, now: u64)
    requires
        c.capacity == 0,
    ensures
        c.kept(key, response, now) == c,
{
}

// ---------------------------------------------------------------------------
// Keys

/// The bytes of a field that may be absent: whether it is there, its length, and
/// what it holds. Nothing that follows can be taken for a part of it.
pub open spec fn framed(b: Option<Seq<u8>>) -> Seq<u8> {
    match b {
        Some(x) => seq![1u8] + spec_u64_to_le_bytes(x.len() as u64) + x,
        None => seq![0u8],
    }
}

/// The bytes of a number that may be absent.
pub open spec fn counted(n: Option<usize>) -> Seq<u8> {
    match n {
        Some(x) => seq![1u8] + spec_u64_to_le_bytes(x as u64),
        None => seq![0u8],
    }
}

/// The bytes of a text that may be absent.
pub open spec fn utf8_of(t: Option<Seq<char>>) -> Option<Seq<u8>> {
    match t {
        Some(x) => Some(encode_utf8(x)),
        None => None,
    }
}

/// The text of a number.
pub open spec fn number_text(n: NumberView) -> Seq<char> {
    json_text(JsonView::Number(n))
}

/// The forms of messages.
pub open spec fn messages_json(ms: Seq<MessageView>) -> JsonView {
    JsonView::List(ms.map_values(|m: MessageView| message_json(m)))
}

/// The form of a tool declaration.
pub open spec fn declaration_json(t: ToolDeclarationView) -> JsonView {
    crate::provider::openai_compat::object3(
        "name"@,
        JsonView::Text(t.name),
        "description"@,
        JsonView::Text(t.description),
        "parameters"@,
        t.parameters,
    )
}

/// The forms of tool declarations.
pub open spec fn declarations_json(ts: Seq<ToolDeclarationView>) -> JsonView {
    JsonView::List(ts.map_values(|t: ToolDeclarationView| declaration_json(t)))
}

/// The text of a temperature.
pub open spec fn temperature_text(t: Option<NumberView>) -> Option<Seq<char>> {
    match t {
        Some(n) => Some(number_text(n)),
        None => None,
    }
}

/// The text of the fields that a vendor takes beside the others, if there are any.
pub open spec fn extra_json(extra: Seq<(Seq<char>, JsonView)>) -> Option<Seq<char>> {
    if extra.len() == 0 {
        None
    } else {
        Some(json_text(JsonView::Object(extra)))
    }
}

/// What is hashed of the content of a request.
pub open spec fn content_bytes(
    messages: Seq<MessageView>,
    tools_json: Seq<char>,
    temp: Option<NumberView>,
    max_tok: Option<usize>,
    exclude_dynamic_fields: bool,
) -> Seq<u8> {
    let base = framed(Some(encode_utf8(json_text(messages_json(messages))))) + framed(
        Some(encode_utf8(tools_json)),
    );
    if exclude_dynamic_fields {
        base
    } else {
        base + framed(utf8_of(temperature_text(temp))) + counted(max_tok)
    }
}

/// A number for an effort.
pub open spec fn effort_code(e: Option<ReasoningEffort>) -> u8 {
    match e {
        None => 0,
        Some(ReasoningEffort::Low) => 1,
        Some(ReasoningEffort::High) => 2,
        Some(ReasoningEffort::Max) => 3,
    }
}

/// A number for a tool choice.
pub open spec fn choice_code(c: ToolChoice) -> u8 {
    match c {
        ToolChoice::Auto => 0,
        ToolChoice::Never => 1,
        ToolChoice::Required => 2,
    }
}

/// A byte for each choice of a request.
pub open spec fn choices(r: ChatRequestView) -> Seq<u8> {
    seq![
        if r.thinking.enabled {
            1u8
        } else {
            0u8
        },
        effort_code(r.thinking.effort),
        choice_code(r.tool_choice),
    ]
}

/// What is hashed of the parameters of a request: everything that has an effect
/// on the answer.
pub open spec fn params_bytes(r: ChatRequestView) -> Seq<u8> {
    framed(utf8_of(temperature_text(r.temperature))) + counted(r.max_tokens) + choices(r)
        + framed(utf8_of(extra_json(r.extra)))
}

/// The hash of bytes.
pub open spec fn hash_of(bytes: Seq<u8>) -> u64 {
    DefaultHasher::spec_finish(seq![bytes])
}

/// The key of a request.
pub open spec fn request_key(r: ChatRequestView, provider: Seq<char>) -> KeyView {
    (
        provider,
        hash_of(
            content_bytes(r.messages, json_text(declarations_json(r.tools)), None, None, true),
        ),
        hash_of(params_bytes(r)),
    )
}

/// Whether the length of a field can be written.
pub open spec fn measured(b: Option<Seq<u8>>) -> bool {
    b matches Some(x) ==> x.len() <= u64::MAX
}

/// The end of two sequences that begin alike.
proof fn lemma_tails(head: Seq<u8>, a: Seq<u8>, b: Seq<u8>)
    requires
        head + a == head + b,
    ensures
        a == b,
{
    assert((head + a).skip(head.len() as int) =~= a);
    assert((head + b).skip(head.len() as int) =~= b);
}

/// A field and what follows it are told apart.
proof fn lemma_framed(a: Option<Seq<u8>>, b: Option<Seq<u8>>, x: Seq<u8>, y: Seq<u8>)
    requires
        measured(a),
        measured(b),
        framed(a) + x == framed(b) + y,
    ensures
        a == b,
        x == y,
{
    vstd::bytes::lemma_auto_spec_u64_to_from_le_bytes();
    let p = framed(a) + x;
    let q = framed(b) + y;
    assert(p[0] == framed(a)[0]);
    assert(q[0] == framed(b)[0]);
    if let (Some(s), Some(t)) = (a, b) {
        let m = spec_u64_to_le_bytes(s.len() as u64);
        let n = spec_u64_to_le_bytes(t.len() as u64);
        assert(p.subrange(1, 9) =~= m);
        assert(q.subrange(1, 9) =~= n);
        assert(m == n);
        assert(s.len() == t.len());
        assert(p.subrange(9, 9int + s.len()) =~= s);
        assert(q.subrange(9, 9int + t.len()) =~= t);
    }
    lemma_tails(framed(a), x, y);
}

/// A number and what follows it are told apart.
proof fn lemma_counted(a: Option<usize>, b: Option<usize>, x: Seq<u8>, y: Seq<u8>)
    requires
        counted(a) + x == counted(b) + y,
    ensures
        a == b,
        x == y,
{
    vstd::bytes::lemma_auto_spec_u64_to_from_le_bytes();
    let p = counted(a) + x;
    let q = counted(b) + y;
    assert(p[0] == counted(a)[0]);
    assert(q[0] == counted(b)[0]);
    if let (Some(s), Some(t)) = (a, b) {
        let m = spec_u64_to_le_bytes(s as u64);
        let n = spec_u64_to_le_bytes(t as u64);
        assert(p.subrange(1, 9) =~= m);
        assert(q.subrange(1, 9) =~= n);
        assert(m == n);
        assert(s as u64 == t as u64);
    }
    lemma_tails(counted(a), x, y);
}

/// Texts of the same bytes are the same.
proof fn lemma_utf8_of(a: Option<Seq<char>>, b: Option<Seq<char>>)
    requires
        utf8_of(a) == utf8_of(b),
    ensures
        a == b,
{
    if let (Some(s), Some(t)) = (a, b) {
        vstd::utf8::encode_utf8_decode_utf8(s);
        vstd::utf8::encode_utf8_decode_utf8(t);
    }
}

/// Four parts, taken from the front.
proof fn lemma_nested(a: Seq<u8>, b: Seq<u8>, c: Seq<u8>, d: Seq<u8>)
    ensures
        a + b + c + d == a + (b + (c + d)),
{
    assert(a + b + c + d =~= a + (b + (c + d)));
}

/// The parts of a record are told apart.
proof fn lemma_record(
    ta: Option<Seq<u8>>,
    na: Option<usize>,
    ca: Seq<u8>,
    ea: Option<Seq<u8>>,
    tb: Option<Seq<u8>>,
    nb: Option<usize>,
    cb: Seq<u8>,
    eb: Option<Seq<u8>>,
)
    requires
        measured(ta) && measured(tb) && measured(ea) && measured(eb),
        ca.len() == cb.len(),
        framed(ta) + counted(na) + ca + framed(ea) == framed(tb) + counted(nb) + cb + framed(eb),
    ensures
        ta == tb,
        na == nb,
        ca == cb,
        ea == eb,
{
    let (fa, fb) = (framed(ea), framed(eb));
    lemma_nested(framed(ta), counted(na), ca, fa);
    lemma_nested(framed(tb), counted(nb), cb, fb);
    lemma_framed(ta, tb, counted(na) + (ca + fa), counted(nb) + (cb + fb));
    lemma_counted(na, nb, ca + fa, cb + fb);
    assert((ca + fa).take(ca.len() as int) =~= ca);
    assert((cb + fb).take(ca.len() as int) =~= cb);
    lemma_tails(ca, fa, fb);
    assert(fa + Seq::empty() =~= fa);
    assert(fb + Seq::empty() =~= fb);
    lemma_framed(ea, eb, Seq::empty(), Seq::empty());
}

/// Everything that has an effect on the answer is hashed: requests of which the
/// same bytes are hashed have the same bound on tokens, the same thinking and the
/// same tool choice, and agree on the text of the temperature and of what a vendor
/// takes beside.
pub proof fn law_params_are_hashed(a: ChatRequestView, b: ChatRequestView)
    requires
        params_bytes(a) == params_bytes(b),
        measured(utf8_of(temperature_text(a.temperature))),
        measured(utf8_of(temperature_text(b.temperature))),
        measured(utf8_of(extra_json(a.extra))),
        measured(utf8_of(extra_json(b.extra))),
    ensures
        a.thinking == b.thinking,
        a.tool_choice == b.tool_choice,
        a.max_tokens == b.max_tokens,
        temperature_text(a.temperature) == temperature_text(b.temperature),
        extra_json(a.extra) == extra_json(b.extra),
{
    let ta = utf8_of(temperature_text(a.temperature));
    let tb = utf8_of(temperature_text(b.temperature));
    let ea = utf8_of(extra_json(a.extra));
    let eb = utf8_of(extra_json(b.extra));
    lemma_record(ta, a.max_tokens, choices(a), ea, tb, b.max_tokens, choices(b), eb);
    assert(choices(a)[0] == choices(b)[0]);
    assert(choices(a)[1] == choices(b)[1]);
    assert(choices(a)[2] == choices(b)[2]);
    lemma_utf8_of(temperature_text(a.temperature), temperature_text(b.temperature));
    lemma_utf8_of(extra_json(a.extra), extra_json(b.extra));
}

/// Requests of which the same bytes of content are hashed agree on the text of
/// their messages and of their tools.
pub proof fn law_content_is_hashed(
    a: Seq<MessageView>,
    ta: Seq<char>,
    b: Seq<MessageView>,
    tb: Seq<char>,
)
    requires
        content_bytes(a, ta, None, None, true) == content_bytes(b, tb, None, None, true),
        measured(Some(encode_utf8(json_text(messages_json(a))))),
        measured(Some(encode_utf8(json_text(messages_json(b))))),
        measured(Some(encode_utf8(ta))),
        measured(Some(encode_utf8(tb))),
    ensures
        json_text(messages_json(a)) == json_text(messages_json(b)),
        ta == tb,
{
    let ma = json_text(messages_json(a));
    let mb = json_text(messages_json(b));
    lemma_framed(
        utf8_of(Some(ma)),
        utf8_of(Some(mb)),
        framed(utf8_of(Some(ta))),
        framed(utf8_of(Some(tb))),
    );
    assert(framed(utf8_of(Some(ta))) + Seq::empty() =~= framed(utf8_of(Some(ta))));
    assert(framed(utf8_of(Some(tb))) + Seq::empty() =~= framed(utf8_of(Some(tb))));
    lemma_framed(utf8_of(Some(ta)), utf8_of(Some(tb)), Seq::empty(), Seq::empty());
    lemma_utf8_of(Some(ma), Some(mb));
    lemma_utf8_of(Some(ta), Some(tb));
}

/// Appends a text that may be absent.
fn write_field(out: &mut Vec<u8>, text: Option<&str>)
    ensures
        final(out)@ == old(out)@ + framed(
            utf8_of(
                match text {
                    Some(t) => Some(t@),
                    None => None,
                },
            ),
        ),
{
    let ghost before = out@;
    match text {
        Some(t) => {
            let mut bytes = t.as_bytes_vec();
            let mut length = u64_to_le_bytes(bytes.len() as u64);
            out.push(1u8);
            out.append(&mut length);
            out.append(&mut bytes);
            proof {
                let x = encode_utf8(t@);
                assert(out@ =~= before + (seq![1u8] + spec_u64_to_le_bytes(x.len() as u64) + x));
            }
        },
        None => {
            out.push(0u8);
            proof {
                assert(out@ =~= before + seq![0u8]);
            }
        },
    }
}

/// Appends a number that may be absent.
fn write_count(out: &mut Vec<u8>, n: Option<usize>)
    ensures
        final(out)@ == old(out)@ + counted(n),
{
    let ghost before = out@;
    match n {
        Some(x) => {
            let mut bytes = u64_to_le_bytes(x as u64);
            out.push(1u8);
            out.append(&mut bytes);
            proof {
                assert(out@ =~= before + (seq![1u8] + spec_u64_to_le_bytes(x as u64)));
            }
        },
        None => {
            out.push(0u8);
            proof {
                assert(out@ =~= before + seq![0u8]);
            }
        },
    }
}

/// Appends a temperature that may be absent.
fn write_temperature(out: &mut Vec<u8>, t: &Option<Number>)
    ensures
        final(out)@ == old(out)@ + framed(utf8_of(temperature_text(t.deep_view()))),
{
    match t {
        Some(n) => {
            let text = write_text(&Json::Number(n.clone()));
            write_field(out, Some(text.as_str()));
        },
        None => write_field(out, None),
    }
}

/// The hash of bytes.
fn hash_bytes(bytes: &Vec<u8>) -> (r: u64)
    ensures
        r == hash_of(bytes@),
{
    let mut hasher = DefaultHasher::new();
    hasher.write(bytes.as_slice());
    proof {
        assert(hasher@ =~= seq![bytes@]);
    }
    hasher.finish()
}

fn messages_text(messages: &Vec<Message>) -> (r: String)
    ensures
        r@ == json_text(messages_json(messages.deep_view())),
{
    let ghost wanted = messages.deep_view().map_values(|m: MessageView| message_json(m));
    let mut out: Vec<Json> = Vec::new();
    let mut i: usize = 0;
    proof {
        assert(out.deep_view() =~= wanted.take(0));
    }
    while i < messages.len()
        invariant
            i <= messages@.len(),
            wanted == messages.deep_view().map_values(|m: MessageView| message_json(m)),
            out.deep_view() == wanted.take(i as int),
        decreases messages@.len() - i,
    {
        let ghost before = out.deep_view();
        let j = message_to_json(&messages[i]);
        let ghost jv = j.deep_view();
        out.push(j);
        proof {
            assert(out.deep_view() =~= before.push(jv));
            assert(wanted.take(i + 1) =~= wanted.take(i as int).push(wanted[i as int]));
        }
        i = i + 1;
    }
    proof {
        assert(wanted.take(wanted.len() as int) =~= wanted);
    }
    write_text(&Json::list(out))
}

fn declarations_text(tools: &Vec<ToolDeclaration>) -> (r: String)
    ensures
        r@ == json_text(declarations_json(tools.deep_view())),
{
    let ghost wanted = tools.deep_view().map_values(
        |t: ToolDeclarationView| declaration_json(t),
    );
    let mut out: Vec<Json> = Vec::new();
    let mut i: usize = 0;
    proof {
        assert(out.deep_view() =~= wanted.take(0));
    }
    while i < tools.len()
        invariant
            i <= tools@.len(),
            wanted == tools.deep_view().map_values(|t: ToolDeclarationView| declaration_json(t)),
            out.deep_view() == wanted.take(i as int),
        decreases tools@.len() - i,
    {
        let ghost before = out.deep_view();
        let t = &tools[i];
        let j = crate::provider::openai_compat::make3(
            "name",
            Json::text(t.name.as_str()),
            "description",
            Json::text(t.description.as_str()),
            "parameters",
            t.parameters.clone(),
        );
        let ghost jv = j.deep_view();
        out.push(j);
        proof {
            assert(out.deep_view() =~= before.push(jv));
            assert(wanted.take(i + 1) =~= wanted.take(i as int).push(wanted[i as int]));
        }
        i = i + 1;
    }
    proof {
        assert(wanted.take(wanted.len() as int) =~= wanted);
    }
    write_text(&Json::list(out))
}

impl InMemoryCache {
    /// A hash of the content of a request, with or without the parameters that
    /// change from request to request.
    pub fn hash_request(
        messages: &Vec<Message>,
        tools_json: &str,
        temp: &Option<Number>,
        max_tok: Option<usize>,
        exclude_dynamic_fields: bool,
    ) -> (r: u64)
        ensures
            r == hash_of(
                content_bytes(
                    messages.deep_view(),
                    tools_json@,
                    temp.deep_view(),
                    max_tok,
                    exclude_dynamic_fields,
                ),
            ),
    {
        let mut bytes: Vec<u8> = Vec::new();
        let text = messages_text(messages);
        write_field(&mut bytes, Some(text.as_str()));
        write_field(&mut bytes, Some(tools_json));
        if !exclude_dynamic_fields {
            write_temperature(&mut bytes, temp);
            write_count(&mut bytes, max_tok);
        }
        proof {
            assert(bytes@ =~= content_bytes(
                messages.deep_view(),
                tools_json@,
                temp.deep_view(),
                max_tok,
                exclude_dynamic_fields,
            ));
        }
        hash_bytes(&bytes)
    }

    /// A hash of the parameters of a request.
    fn hash_params(req: &ChatRequest) -> (r: u64)
        ensures
            r == hash_of(params_bytes(req.deep_view())),
    {
        let mut bytes: Vec<u8> = Vec::new();
        write_temperature(&mut bytes, &req.temperature);
        write_count(&mut bytes, req.max_tokens);
        bytes.push(if req.thinking.enabled { 1u8 } else { 0u8 });
        bytes.push(
            match req.thinking.effort {
                None => 0u8,
                Some(ReasoningEffort::Low) => 1u8,
                Some(ReasoningEffort::High) => 2u8,
                Some(ReasoningEffort::Max) => 3u8,
            },
        );
        bytes.push(
            match req.tool_choice {
                ToolChoice::Auto => 0u8,
                ToolChoice::Never => 1u8,
                ToolChoice::Required => 2u8,
            },
        );
        if req.extra.len() == 0 {
            write_field(&mut bytes, None);
        } else {
            let text = extra_text(&req.extra);
            write_field(&mut bytes, Some(text.as_str()));
        }
        proof {
            assert(bytes@ =~= params_bytes(req.deep_view()));
        }
        hash_bytes(&bytes)
    }

    /// The key of a request.
    pub fn key_for_request(&self, req: &ChatRequest, provider: &str) -> (r: CacheKey)
        ensures
            r.deep_view() == request_key(req.deep_view(), provider@),
    {
        let tools = declarations_text(&req.tools);
        let content_hash: u64 = InMemoryCache::hash_request(
            &req.messages,
            tools.as_str(),
            &None,
            None,
            true,
        );
        let params_hash: u64 = InMemoryCache::hash_params(req);
        CacheKey { provider: provider.to_owned(), content_hash, params_hash }
    }
}

fn extra_text(extra: &Vec<(String, Json)>) -> (r: String)
    ensures
        r@ == json_text(JsonView::Object(extra.deep_view())),
{
    broadcast use crate::json::lemma_object_view;

    write_text(&Json::Object(copy_fields(extra)))
}

// ---------------------------------------------------------------------------
// Streams

/// How many characters a chunk of a stream has that is made from a response.
pub const CHUNK_SIZE: usize = 10;

/// An addition of text alone.
pub open spec fn text_delta(s: Seq<char>) -> StreamChunkView {
    StreamChunkView::Delta(
        DeltaView { content: Some(s), reasoning_content: None, tool_calls: Seq::empty(), role: None },
    )
}

/// A text in pieces of ten characters.
pub open spec fn pieces(text: Seq<char>) -> Seq<Seq<char>>
    decreases text.len(),
{
    if text.len() == 0 {
        Seq::empty()
    } else if text.len() <= CHUNK_SIZE {
        seq![text]
    } else {
        seq![text.take(CHUNK_SIZE as int)] + pieces(text.skip(CHUNK_SIZE as int))
    }
}

/// The chunks of a stream that is made from a response.
pub open spec fn synthetic_chunks(r: ChatResponseView) -> Seq<StreamChunkView> {
    pieces(r.message.content.text_or_empty()).map_values(|p: Seq<char>| text_delta(p)).push(
        StreamChunkView::Finish(r.finish_reason, r.usage),
    )
}

/// Texts one after the other.
pub open spec fn concat(texts: Seq<Seq<char>>) -> Seq<char>
    decreases texts.len(),
{
    if texts.len() == 0 {
        Seq::empty()
    } else {
        texts[0] + concat(texts.drop_first())
    }
}

/// The pieces of a text together are the text, and none is longer than ten
/// characters or empty.
pub proof fn law_pieces_reassemble(text: Seq<char>)
    ensures
        concat(pieces(text)) == text,
        forall|i: int|
            0 <= i < pieces(text).len() ==> 0 < (#[trigger] pieces(text)[i]).len() <= CHUNK_SIZE,
    decreases text.len(),
{
    let ps = pieces(text);
    if text.len() == 0 {
        assert(concat(ps) =~= text);
    } else if text.len() <= CHUNK_SIZE {
        assert(ps.drop_first() =~= Seq::empty());
        assert(concat(ps.drop_first()) =~= Seq::empty());
        assert(concat(ps) =~= text);
    } else {
        let rest = text.skip(CHUNK_SIZE as int);
        law_pieces_reassemble(rest);
        assert(ps.drop_first() =~= pieces(rest));
        assert(concat(ps) =~= text);
        assert forall|i: int| 0 <= i < ps.len() implies 0 < (#[trigger] ps[i]).len()
            <= CHUNK_SIZE by {
            if i > 0 {
                assert(ps[i] == pieces(rest)[i - 1]);
            }
        }
    }
}

/// A stream that is made from a response ends with its end, and has no other.
pub proof fn law_stream_ends(r: ChatResponseView, i: int)
    requires
        0 <= i < synthetic_chunks(r).len(),
    ensures
        synthetic_chunks(r)[i] is Finish <==> i == synthetic_chunks(r).len() - 1,
        synthetic_chunks(r).last() == StreamChunkView::Finish(r.finish_reason, r.usage),
{
}

/// Makes the chunks of a stream from a response.
pub fn synthetic_stream(response: ChatResponse) -> (r: Vec<StreamChunk>)
    ensures
        r.deep_view() == synthetic_chunks(response.deep_view()),
{
    let ghost rv = response.deep_view();
    let ghost text = rv.message.content.text_or_empty();
    let ghost wanted = pieces(text).map_values(|p: Seq<char>| text_delta(p));
    let chars = chars_of(response.message.content.text_or_empty());
    let mut out: Vec<StreamChunk> = Vec::new();
    let mut start: usize = 0;
    proof {
        assert(text.skip(0) =~= text);
        assert(out.deep_view() + wanted =~= wanted);
    }
    while start < chars.len()
        invariant
            start <= chars@.len(),
            chars@ == text,
            wanted == out.deep_view() + pieces(text.skip(start as int)).map_values(
                |p: Seq<char>| text_delta(p),
            ),
        decreases chars@.len() - start,
    {
        let ghost rest = text.skip(start as int);
        let ghost before = out.deep_view();
        let end: usize = if chars.len() - start <= CHUNK_SIZE {
            chars.len()
        } else {
            start + CHUNK_SIZE
        };
        let piece = string_of(&chars, start, end);
        let tool_calls: Vec<ToolCallDelta> = Vec::new();
        let ghost pv = piece@;
        proof {
            assert(tool_calls.deep_view() =~= Seq::empty());
        }
        out.push(
            StreamChunk::Delta {
                content: Some(piece),
                reasoning_content: None,
                tool_calls,
                role: None,
            },
        );
        proof {
            assert(out.deep_view() =~= before.push(text_delta(pv)));
            let tail = text.skip(end as int);
            if rest.len() <= CHUNK_SIZE {
                assert(pv =~= rest);
                assert(tail =~= Seq::empty());
                assert(pieces(tail).map_values(|p: Seq<char>| text_delta(p)) =~= Seq::empty());
                assert(pieces(rest).map_values(|p: Seq<char>| text_delta(p)) =~= seq![
                    text_delta(pv),
                ]);
                assert(before + seq![text_delta(pv)] =~= before.push(text_delta(pv))
                    + Seq::empty());
            } else {
                assert(pv =~= rest.take(CHUNK_SIZE as int));
                assert(tail =~= rest.skip(CHUNK_SIZE as int));
                assert(pieces(rest).map_values(|p: Seq<char>| text_delta(p)) =~= seq![
                    text_delta(pv),
                ] + pieces(tail).map_values(|p: Seq<char>| text_delta(p)));
                assert(before + (seq![text_delta(pv)] + pieces(tail).map_values(
                    |p: Seq<char>| text_delta(p),
                )) =~= before.push(text_delta(pv)) + pieces(tail).map_values(
                    |p: Seq<char>| text_delta(p),
                ));
            }
        }
        start = end;
    }
    proof {
        assert(text.skip(start as int) =~= Seq::empty());
        assert(pieces(text.skip(start as int)).map_values(|p: Seq<char>| text_delta(p))
            =~= Seq::empty());
        assert(out.deep_view() + Seq::empty() =~= out.deep_view());
    }
    let ghost before = out.deep_view();
    out.push(
        StreamChunk::Finish { finish_reason: response.finish_reason, usage: response.usage },
    );
    proof {
        assert(out.deep_view() =~= before.push(
            StreamChunkView::Finish(rv.finish_reason, rv.usage),
        ));
    }
    out
}

/// An answer is kept as it came, for as long as entries live: asked for no later, it is
/// given; asked for later, it is not.
pub proof fn law_entries_live_so_long(
    c: CacheView,
    key: KeyView,
    response: ChatResponseView,
    at: u64,
    now: u64,
)
    requires
        c.wf(),
        c.capacity > 0,
        at <= now,
    ensures
        (now - at) * 1_000_000 <= c.ttl.total() ==> c.kept(key, response, at).answer(key, now)
            == Some(response),
        (now - at) * 1_000_000 > c.ttl.total() ==> c.kept(key, response, at).answer(
            key,
            now,
        ) is None,
{
    let k = c.kept(key, response, at);
    assert(k.entries.drop_last().push(k.entries.last()) =~= k.entries);
}

/// Keeping or asking for an answer does not touch the others, where there is room.
pub proof fn law_entries_are_apart(
    c: CacheView,
    key: KeyView,
    other: KeyView,
    response: ChatResponseView,
    at: u64,
    now: u64,
)
    requires
        c.wf(),
        other != key,
        c.entries.len() < c.capacity,
    ensures
        c.kept(key, response, at).answer(other, now) == c.answer(other, now),
        c.asked(key, at).answer(other, now) == c.answer(other, now),
{
    let rest = drop_key(c.entries, key);
    lemma_drop(c.entries, key);
    crate::table::law_lookup_drop(c.entries, key, other);
    let entry = CacheEntryView { response, created_at: at };
    assert(rest.push((key, entry)).drop_last() =~= rest);
    let found = lookup(c.entries, key);
    assert(rest.push((key, found->0)).drop_last() =~= rest);
}

/// The key of a request has the provider's name, and comes from what is asked: messages
/// and tools in one number, parameters in the other.
pub proof fn law_key_of_a_request(
    r: ChatRequestView,
    q: ChatRequestView,
    provider: Seq<char>,
    other: Seq<char>,
)
    ensures
        request_key(r, provider).0 == provider,
        r.messages == q.messages && r.tools == q.tools ==> request_key(r, provider).1
            == request_key(q, provider).1,
        r.temperature == q.temperature && r.max_tokens == q.max_tokens && r.thinking == q.thinking
            && r.tool_choice == q.tool_choice && r.extra == q.extra ==> request_key(r, provider).2
            == request_key(q, provider).2,
        provider != other ==> request_key(r, provider) != request_key(r, other),
{
}

/// What of a request is hashed: every message and every declaration, in their order.
pub proof fn law_hashed_parts(
    messages: Seq<MessageView>,
    tools: Seq<ToolDeclarationView>,
    i: int,
    j: int,
)
    requires
        0 <= i < messages.len(),
        0 <= j < tools.len(),
    ensures
        messages_json(messages) matches JsonView::List(l) && l.len() == messages.len() && l[i]
            == message_json(messages[i]),
        declarations_json(tools) matches JsonView::List(l) && l.len() == tools.len() && ({
            let d = l[j];
            &&& d.get("name"@) == Some(JsonView::Text(tools[j].name))
            &&& d.get("description"@) == Some(JsonView::Text(tools[j].description))
            &&& d.get("parameters"@) == Some(tools[j].parameters)
        }),
{
    crate::provider::completions_laws::lemma_function_names();
    crate::provider::completions_laws::lemma_object3(
        "name"@,
        JsonView::Text(tools[j].name),
        "description"@,
        JsonView::Text(tools[j].description),
        "parameters"@,
        tools[j].parameters,
    );
}

/// An answer that is streamed though it is known goes out as its text in pieces, none
/// longer than ten characters, and then its end.
pub proof fn law_known_answer_is_streamed(r: ChatResponseView)
    ensures
        ({
            let chunks = synthetic_chunks(r);
            let text = r.message.content.text_or_empty();
            &&& chunks.last() == StreamChunkView::Finish(r.finish_reason, r.usage)
            &&& chunks.len() == pieces(text).len() + 1
            &&& forall|i: int|
                0 <= i < chunks.len() - 1 ==> (#[trigger] chunks[i] matches StreamChunkView::Delta(d)
                    && d.content == Some(pieces(text)[i]) && d.reasoning_content is None
                    && d.tool_calls.len() == 0 && d.role is None)
            &&& forall|i: int|
                0 <= i < pieces(text).len() ==> 0 < (#[trigger] pieces(text)[i]).len() <= 10
            &&& concat(pieces(text)) == text
        }),
{
    law_pieces_reassemble(r.message.content.text_or_empty());
}

/// Where the temperature and the limit are left out they make no difference; else both
/// are hashed with the rest.
pub proof fn law_dynamic_fields(
    messages: Seq<MessageView>,
    tools: Seq<char>,
    t: Option<NumberView>,
    n: Option<usize>,
    u: Option<NumberView>,
    m: Option<usize>,
)
    requires
        measured(utf8_of(temperature_text(t))),
        measured(utf8_of(temperature_text(u))),
    ensures
        content_bytes(messages, tools, t, n, true) == content_bytes(messages, tools, u, m, true),
        content_bytes(messages, tools, t, n, false) == content_bytes(messages, tools, u, m, false)
            ==> temperature_text(t) == temperature_text(u) && n == m,
{
    let base = content_bytes(messages, tools, None, None, true);
    let a = framed(utf8_of(temperature_text(t)));
    let b = framed(utf8_of(temperature_text(u)));
    if base + a + counted(n) == base + b + counted(m) {
        assert(base + a + counted(n) =~= base + (a + counted(n)));
        assert(base + b + counted(m) =~= base + (b + counted(m)));
        lemma_tails(base, a + counted(n), b + counted(m));
        lemma_framed(
            utf8_of(temperature_text(t)),
            utf8_of(temperature_text(u)),
            counted(n),
            counted(m),
        );
        lemma_utf8_of(temperature_text(t), temperature_text(u));
        assert(counted(n) + Seq::<u8>::empty() =~= counted(n));
        assert(counted(m) + Seq::<u8>::empty() =~= counted(m));
        lemma_counted(n, m, Seq::empty(), Seq::empty());
    }
}

/// The fields that a vendor takes beside the others are hashed where there are any, all of
/// them in their order; where there are none, nothing stands for them.
pub proof fn law_extra_fields_are_hashed(
    extra: Seq<(Seq<char>, JsonView)>,
    name: Seq<char>,
    value: JsonView,
)
    ensures
        extra_json(Seq::empty()) is None,
        extra_json(extra.push((name, value))) == Some(
            json_text(JsonView::Object(extra.push((name, value)))),
        ),
{
}

/// The choices of a request are numbered from zero on, in the order in which they are
/// declared, so no two of them share a number.
pub proof fn law_choices_are_numbered(c: ToolChoice, d: ToolChoice)
    ensures
        effort_code(None) == 0,
        effort_code(Some(ReasoningEffort::Low)) == 1,
        effort_code(Some(ReasoningEffort::High)) == 2,
        effort_code(Some(ReasoningEffort::Max)) == 3,
        c == ToolChoice::Auto ==> choice_code(c) == 0,
        c == ToolChoice::Never ==> choice_code(c) == 1,
        c == ToolChoice::Required ==> choice_code(c) == 2,
        choice_code(c) == choice_code(d) ==> c == d,
{
}

} // verus!
