//! A bounded store of values by key.

use vstd::prelude::*;
use vstd::string::*;

use crate::provider::joined;
use crate::table::{
    distinct, drop_key, law_lookup_drop, law_lookup_put, lemma_absent, lemma_at, lemma_found,
    lookup, put, Held, KeyView, Table,
};
use crate::tool::registry::{name_key, named};

verus! {

broadcast use vstd::string::group_string_axioms;

/// What is stored.
#[derive(Debug)]
pub struct StoredValue {
    pub content_type: String,
    pub bytes: Vec<u8>,
    /// When it was made.
    pub created_at: u64,
}

pub struct StoredValueView {
    pub content_type: Seq<char>,
    pub bytes: Seq<u8>,
    pub created_at: u64,
}

impl DeepView for StoredValue {
    type V = StoredValueView;

    open spec fn deep_view(&self) -> StoredValueView {
        StoredValueView {
            content_type: self.content_type@,
            bytes: self.bytes@,
            created_at: self.created_at,
        }
    }
}

impl Clone for StoredValue {
    fn clone(&self) -> (r: Self)
        ensures
            r.deep_view() == self.deep_view(),
    {
        let bytes = self.bytes.clone();
        proof {
            assert(bytes@ =~= self.bytes@);
        }
        StoredValue {
            content_type: self.content_type.clone(),
            bytes,
            created_at: self.created_at,
        }
    }
}

impl StoredValue {
    pub fn from_bytes(bytes: Vec<u8>, content_type: &str, now: u64) -> (r: StoredValue)
        ensures
            r.deep_view() == (StoredValueView {
                content_type: content_type@,
                bytes: bytes@,
                created_at: now,
            }),
    {
        StoredValue { content_type: content_type.to_owned(), bytes, created_at: now }
    }

    /// A text, in UTF-8.
    pub fn from_text(text: &str, now: u64) -> (r: StoredValue)
        ensures
            r.deep_view() == (StoredValueView {
                content_type: "text/plain"@,
                bytes: vstd::utf8::encode_utf8(text@),
                created_at: now,
            }),
    {
        StoredValue::from_bytes(text.as_bytes_vec(), "text/plain", now)
    }
}

/// Why a value was not stored.
#[derive(Debug, PartialEq, Eq)]
pub enum StoreError {
    /// There is no room, for the number of keys or for the bytes.
    CapacityExceeded,
    NotFound(String),
}

impl StoreError {
    /// The error in words.
    pub fn message(&self) -> (r: String)
        ensures
            r@ == (match *self {
                StoreError::CapacityExceeded => "capacity exceeded"@,
                StoreError::NotFound(key) => "key not found: "@ + key@,
            }),
    {
        match self {
            StoreError::CapacityExceeded => "capacity exceeded".to_owned(),
            StoreError::NotFound(key) => joined("key not found: ", key.as_str()),
        }
    }
}

/// A place for values by key. Whoever keeps them elsewhere implements it.
pub trait Store {
    /// Whether the store can be used.
    spec fn ready(&self) -> bool;

    /// The value under a key.
    spec fn held(&self, key: Seq<char>) -> Option<StoredValueView>;

    /// Stores a value under a key, in place of the one that is there, or leaves
    /// everything as it is.
    fn store(&mut self, key: String, value: StoredValue) -> (r: Result<(), StoreError>)
        requires
            old(self).ready(),
        ensures
            final(self).ready(),
            r is Ok ==> final(self).held(key@) == Some(value.deep_view()),
            forall|k: Seq<char>|
                r is Err || k != key@ ==> #[trigger] final(self).held(k) == old(self).held(k),
    ;

    /// The value under a key.
    fn get(&self, key: &str) -> (r: Option<StoredValue>)
        requires
            self.ready(),
        ensures
            r.deep_view() == self.held(key@),
    ;

    /// Deletes the value under a key, and says whether there was one.
    fn delete(&mut self, key: &str) -> (r: bool)
        requires
            old(self).ready(),
        ensures
            final(self).ready(),
            r == (old(self).held(key@) is Some),
            final(self).held(key@) is None,
            forall|k: Seq<char>|
                k != key@ ==> #[trigger] final(self).held(k) == old(self).held(k),
    ;

    /// How many keys there are.
    fn len(&self) -> usize;

    /// How many bytes all values have.
    fn total_bytes(&self) -> usize;

    fn is_empty(&self) -> bool;
}

/// The bounds of a store.
#[derive(Debug, Clone, Copy, PartialEq, Eq, Structural)]
pub struct StoreConfig {
    pub max_keys: usize,
    /// How many bytes all values may have.
    pub max_total_bytes: usize,
}

impl Default for StoreConfig {
    fn default() -> (r: Self)
        ensures
            r == (StoreConfig { max_keys: 1024, max_total_bytes: 67_108_864 }),
    {
        StoreConfig { max_keys: 1024, max_total_bytes: 67_108_864 }
    }
}

impl Held for StoredValue {
    open spec fn sound(&self) -> bool {
        true
    }
}

/// A bounded store in memory.
pub struct InMemoryStore {
    values: Table<StoredValue>,
    total_bytes: usize,
    config: StoreConfig,
}

pub struct StoreView {
    pub values: Seq<(KeyView, StoredValueView)>,
    pub total_bytes: usize,
    pub config: StoreConfig,
}

impl DeepView for InMemoryStore {
    type V = StoreView;

    closed spec fn deep_view(&self) -> StoreView {
        StoreView {
            values: self.values.deep_view(),
            total_bytes: self.total_bytes,
            config: self.config,
        }
    }
}

/// The bytes of all values.
pub open spec fn bytes_of(values: Seq<(KeyView, StoredValueView)>) -> int
    decreases values.len(),
{
    if values.len() == 0 {
        0
    } else {
        bytes_of(values.drop_last()) + values.last().1.bytes.len()
    }
}

impl StoreView {
    /// The bounds hold, and the bytes are counted.
    pub open spec fn wf(self) -> bool {
        &&& distinct(self.values)
        &&& self.values.len() <= self.config.max_keys
        &&& self.total_bytes == bytes_of(self.values)
        &&& self.total_bytes <= self.config.max_total_bytes
    }

    /// The value under a key.
    pub open spec fn value(self, key: Seq<char>) -> Option<StoredValueView> {
        lookup(self.values, named(key))
    }

    /// How many bytes the value under a key has.
    pub open spec fn size_at(self, key: Seq<char>) -> int {
        match self.value(key) {
            Some(v) => v.bytes.len() as int,
            None => 0,
        }
    }

    /// Whether there is room for a value under a key: a value that is there
    /// makes room for the one in its place.
    pub open spec fn has_room(self, key: Seq<char>, size: int) -> bool {
        &&& self.values.len() < self.config.max_keys || self.value(key) is Some
        &&& bytes_of(self.values) - self.size_at(key) + size <= self.config.max_total_bytes
    }

    /// The store with a value under a key.
    pub open spec fn stored(self, key: Seq<char>, value: StoredValueView) -> StoreView {
        let values = put(self.values, named(key), value);
        StoreView { values, total_bytes: bytes_of(values) as usize, ..self }
    }

    /// The store without the value under a key.
    pub open spec fn deleted(self, key: Seq<char>) -> StoreView {
        let values = drop_key(self.values, named(key));
        StoreView { values, total_bytes: bytes_of(values) as usize, ..self }
    }
}

/// The bytes after a change at one place.
proof fn lemma_bytes_update(
    values: Seq<(KeyView, StoredValueView)>,
    i: int,
    entry: (KeyView, StoredValueView),
)
    requires
        0 <= i < values.len(),
    ensures
        bytes_of(values.update(i, entry)) == bytes_of(values) - values[i].1.bytes.len()
            + entry.1.bytes.len(),
        bytes_of(values.remove(i)) == bytes_of(values) - values[i].1.bytes.len(),
    decreases values.len(),
{
    let before = values.drop_last();
    if i == values.len() - 1 {
        assert(values.update(i, entry).drop_last() =~= before);
        assert(values.remove(i) =~= before);
    } else {
        lemma_bytes_update(before, i, entry);
        assert(values.update(i, entry).drop_last() =~= before.update(i, entry));
        assert(values.remove(i).drop_last() =~= before.remove(i));
        assert(values.remove(i).last() == values.last());
    }
}

proof fn lemma_bytes_at(values: Seq<(KeyView, StoredValueView)>, i: int)
    requires
        0 <= i < values.len(),
    ensures
        0 <= values[i].1.bytes.len() <= bytes_of(values),
    decreases values.len(),
{
    let before = values.drop_last();
    lemma_bytes_sign(before);
    if i < before.len() {
        lemma_bytes_at(before, i);
    }
}

proof fn lemma_bytes_sign(values: Seq<(KeyView, StoredValueView)>)
    ensures
        bytes_of(values) >= 0,
    decreases values.len(),
{
    if values.len() > 0 {
        lemma_bytes_sign(values.drop_last());
    }
}

/// Storing where there is room keeps the bounds, and counts right.
proof fn lemma_stored(s: StoreView, key: Seq<char>, value: StoredValueView)
    requires
        s.wf(),
        s.has_room(key, value.bytes.len() as int),
    ensures
        s.stored(key, value).wf(),
        bytes_of(s.stored(key, value).values) == bytes_of(s.values) - s.size_at(key)
            + value.bytes.len(),
        s.size_at(key) <= bytes_of(s.values),
{
    let k = named(key);
    let items = s.values;
    let after = put(items, k, value);
    if s.value(key) is Some {
        let i = lemma_found(items, k);
        lemma_at(items, i);
        lemma_bytes_update(items, i, (k, value));
        lemma_bytes_at(items, i);
        assert forall|a: int, b: int| 0 <= a < b < after.len() implies (#[trigger] after[a]).0
            != (#[trigger] after[b]).0 by {
            assert(after[a].0 == items[a].0 && after[b].0 == items[b].0);
        }
    } else {
        lemma_bytes_sign(items);
        assert forall|j: int| 0 <= j < items.len() implies (#[trigger] items[j]).0 != k by {
            if items[j].0 == k {
                lemma_at(items, j);
            }
        }
        lemma_absent(items, k);
        assert(after.drop_last() =~= items);
        assert forall|a: int, b: int| 0 <= a < b < after.len() implies (#[trigger] after[a]).0
            != (#[trigger] after[b]).0 by {
            assert(after[a] == items[a]);
            if b < items.len() {
                assert(after[b] == items[b]);
            }
        }
    }
}

/// Deleting keeps the bounds, and counts right.
proof fn lemma_deleted(s: StoreView, key: Seq<char>)
    requires
        s.wf(),
    ensures
        s.deleted(key).wf(),
        bytes_of(s.deleted(key).values) == bytes_of(s.values) - s.size_at(key),
        0 <= s.size_at(key) <= bytes_of(s.values),
{
    let k = named(key);
    let items = s.values;
    if s.value(key) is Some {
        let i = lemma_found(items, k);
        lemma_at(items, i);
        lemma_bytes_update(items, i, items[i]);
        lemma_bytes_at(items, i);
        let after = items.remove(i);
        assert forall|a: int, b: int| 0 <= a < b < after.len() implies (#[trigger] after[a]).0
            != (#[trigger] after[b]).0 by {
            let p = if a < i {
                a
            } else {
                a + 1
            };
            let q = if b < i {
                b
            } else {
                b + 1
            };
            assert(after[a] == items[p] && after[b] == items[q]);
        }
        lemma_bytes_sign(after);
    } else {
        lemma_bytes_sign(items);
        assert forall|j: int| 0 <= j < items.len() implies (#[trigger] items[j]).0 != k by {
            if items[j].0 == k {
                lemma_at(items, j);
            }
        }
        lemma_absent(items, k);
    }
}

impl InMemoryStore {
    /// The bounds hold, and the bytes are counted.
    pub closed spec fn wf(self) -> bool {
        self.values.wf() && self.deep_view().wf()
    }

    /// The bounds hold, and the bytes are counted.
    pub proof fn lemma_wf(&self)
        requires
            self.wf(),
        ensures
            self.deep_view().wf(),
    {
    }

    pub fn new(config: StoreConfig) -> (r: InMemoryStore)
        ensures
            r.wf(),
            r.deep_view() == (StoreView { values: Seq::empty(), total_bytes: 0, config }),
    {
        InMemoryStore { values: Table::new(), total_bytes: 0, config }
    }

    pub fn with_defaults() -> (r: InMemoryStore)
        ensures
            r.wf(),
            r.deep_view() == (StoreView {
                values: Seq::empty(),
                total_bytes: 0,
                config: StoreConfig { max_keys: 1024, max_total_bytes: 67_108_864 },
            }),
    {
        InMemoryStore::new(StoreConfig::default())
    }

}

impl Store for InMemoryStore {
    open spec fn ready(&self) -> bool {
        self.wf()
    }

    open spec fn held(&self, key: Seq<char>) -> Option<StoredValueView> {
        self.deep_view().value(key)
    }

    /// Stores a value under a key, in place of the one that is there, where there
    /// is room.
    fn store(&mut self, key: String, value: StoredValue) -> (r: Result<(), StoreError>)
        ensures
            final(self).wf(),
            r is Ok <==> old(self).deep_view().has_room(key@, value.bytes@.len() as int),
            r matches Err(e) ==> e == StoreError::CapacityExceeded && final(self).deep_view()
                == old(self).deep_view(),
            r is Ok ==> final(self).deep_view() == old(self).deep_view().stored(
                key@,
                value.deep_view(),
            ),
    {
        let ghost s = self.deep_view();
        let size: usize = value.bytes.len();
        let full_key = name_key(key.as_str());
        let place = self.values.place(&full_key);
        proof {
            lemma_deleted(s, key@);
        }
        let old_size: usize = match place {
            Some(i) => self.values.at(i).bytes.len(),
            None => 0,
        };
        if self.values.len() >= self.config.max_keys && place.is_none() {
            return Err(StoreError::CapacityExceeded);
        }
        let rest: usize = self.total_bytes - old_size;
        if size > self.config.max_total_bytes || rest > self.config.max_total_bytes - size {
            return Err(StoreError::CapacityExceeded);
        }
        proof {
            lemma_stored(s, key@, value.deep_view());
            assert forall|k: Seq<char>| #[trigger]
                s.stored(key@, value.deep_view()).value(k) == (if k == key@ {
                    Some(value.deep_view())
                } else {
                    s.value(k)
                }) by {
                law_read_after_write(s, key@, value.deep_view(), k);
            }
        }
        self.total_bytes = rest + size;
        self.values.insert(full_key, value);
        Ok(())
    }

    /// The value under a key.
    fn get(&self, key: &str) -> (r: Option<StoredValue>)
    {
        match self.values.get(&name_key(key)) {
            Some(v) => Some(v.clone()),
            None => None,
        }
    }

    /// Deletes the value under a key, and says whether there was one.
    fn delete(&mut self, key: &str) -> (r: bool)
        ensures
            final(self).wf(),
            r == (old(self).deep_view().value(key@) is Some),
            final(self).deep_view() == old(self).deep_view().deleted(key@),
    {
        let ghost s = self.deep_view();
        proof {
            lemma_deleted(s, key@);
            assert forall|k: Seq<char>| #[trigger]
                s.deleted(key@).value(k) == (if k == key@ {
                    None
                } else {
                    s.value(k)
                }) by {
                law_deleted_is_gone(s, key@, k);
            }
        }
        match self.values.remove(&name_key(key)) {
            Some(v) => {
                self.total_bytes = self.total_bytes - v.bytes.len();
                true
            },
            None => false,
        }
    }

    fn len(&self) -> (r: usize)
        ensures
            r == self.deep_view().values.len(),
    {
        self.values.len()
    }

    /// How many bytes all values have.
    fn total_bytes(&self) -> (r: usize)
        ensures
            r == self.deep_view().total_bytes,
    {
        self.total_bytes
    }

    fn is_empty(&self) -> (r: bool)
        ensures
            r == (self.deep_view().values.len() == 0),
    {
        self.values.len() == 0
    }
}

/// A read gives back what a write wrote, and a write changes nothing under
/// another key.
pub proof fn law_read_after_write(
    s: StoreView,
    key: Seq<char>,
    value: StoredValueView,
    other: Seq<char>,
)
    ensures
        s.stored(key, value).value(other) == (if other == key {
            Some(value)
        } else {
            s.value(other)
        }),
{
    law_lookup_put(s.values, named(key), value, named(other));
}

/// What was deleted is gone, and nothing else.
pub proof fn law_deleted_is_gone(s: StoreView, key: Seq<char>, other: Seq<char>)
    ensures
        s.deleted(key).value(other) == (if other == key {
            None
        } else {
            s.value(other)
        }),
{
    law_lookup_drop(s.values, named(key), named(other));
}

/// However values are stored and deleted, neither bound is ever passed.
pub proof fn law_bounds_hold(s: StoreView, key: Seq<char>, value: StoredValueView)
    requires
        s.wf(),
    ensures
        s.has_room(key, value.bytes.len() as int) ==> s.stored(key, value).wf(),
        s.deleted(key).wf(),
{
    if s.has_room(key, value.bytes.len() as int) {
        lemma_stored(s, key, value);
    }
    lemma_deleted(s, key);
}

/// A key that is there can be written again whatever the number of keys, as long
/// as the bytes fit.
pub proof fn law_overwrite_needs_no_key(s: StoreView, key: Seq<char>, size: int)
    requires
        s.wf(),
        s.value(key) is Some,
        0 <= size <= s.size_at(key),
    ensures
        s.has_room(key, size),
{
}

/// There is room for a value where its key is there or one more may be, and where the
/// bytes of all values, with the new one in place of the old, are within their bound.
pub proof fn law_when_there_is_room(s: StoreView, key: Seq<char>, old_value: StoredValueView, size: int)
    requires
        s.wf(),
        size >= 0,
    ensures
        s.value(key) is None ==> (s.has_room(key, size) <==> s.values.len() < s.config.max_keys
            && s.total_bytes + size <= s.config.max_total_bytes),
        s.value(key) == Some(old_value) ==> (s.has_room(key, size) <==> s.total_bytes
            - old_value.bytes.len() + size <= s.config.max_total_bytes),
{
}

/// The bytes of all values are added up.
pub proof fn law_bytes_add_up(
    values: Seq<(KeyView, StoredValueView)>,
    key: KeyView,
    v: StoredValueView,
)
    ensures
        bytes_of(Seq::empty()) == 0,
        bytes_of(values.push((key, v))) == bytes_of(values) + v.bytes.len(),
{
    assert(values.push((key, v)).drop_last() =~= values);
}

} // verus!
