//! Tables: values by key, in the order in which their keys came.
//!
//! A key is a text and two numbers, so that names, identities and hashes can all
//! be keys. The values stand in a list, and a concurrent hash map says where the
//! value of a key stands.

use dashmap::DashMap;
use vstd::prelude::*;

verus! {

/// The key of a table, as a value.
pub type KeyView = (Seq<char>, u64, u64);

/// The outside type behind a table: a hash map.
#[verifier::external_type_specification]
#[verifier::external_body]
#[verifier::reject_recursive_types(K)]
#[verifier::reject_recursive_types(V)]
#[verifier::reject_recursive_types(S)]
pub struct ExDashMap<K, V, S>(DashMap<K, V, S>);

/// What a `DashMap` from keys to places holds.
pub uninterp spec fn entries(m: DashMap<(String, u64, u64), usize>) -> Map<KeyView, usize>;

/// Nothing under any key.
pub open spec fn no_entries() -> Map<KeyView, usize> {
    Map::empty()
}

/// Calls `DashMap::new`: the map holds nothing.
#[verifier::external_body]
fn map_new() -> (r: DashMap<(String, u64, u64), usize>)
    ensures
        entries(r) == no_entries(),
{
    DashMap::new()
}

/// Calls `DashMap::get` and copies the place out: the one under the key, where
/// there is one.
#[verifier::external_body]
fn map_get(m: &DashMap<(String, u64, u64), usize>, key: &(String, u64, u64)) -> (r: Option<usize>)
    ensures
        r == (if entries(*m).dom().contains(key.deep_view()) {
            Some(entries(*m)[key.deep_view()])
        } else {
            None
        }),
{
    m.get(key).map(|e| *e.value())
}

/// Calls `DashMap::insert`: the place stands under the key, and everything else
/// is as it was.
#[verifier::external_body]
fn map_insert(m: &mut DashMap<(String, u64, u64), usize>, key: (String, u64, u64), place: usize)
    ensures
        entries(*final(m)) == entries(*old(m)).insert(key.deep_view(), place),
{
    m.insert(key, place);
}

/// Calls `DashMap::remove`: nothing stands under the key, and everything else is
/// as it was.
#[verifier::external_body]
fn map_remove(m: &mut DashMap<(String, u64, u64), usize>, key: &(String, u64, u64))
    ensures
        entries(*final(m)) == entries(*old(m)).remove(key.deep_view()),
{
    m.remove(key);
}

/// The value under a key.
pub open spec fn lookup<W>(items: Seq<(KeyView, W)>, key: KeyView) -> Option<W>
    decreases items.len(),
{
    if items.len() == 0 {
        None
    } else if items.last().0 == key {
        Some(items.last().1)
    } else {
        lookup(items.drop_last(), key)
    }
}

/// The items with a value under a key: in place of the one that stood there, or
/// at the end.
pub open spec fn put<W>(items: Seq<(KeyView, W)>, key: KeyView, value: W) -> Seq<(KeyView, W)>
    decreases items.len(),
{
    if items.len() == 0 {
        seq![(key, value)]
    } else if items.last().0 == key {
        items.drop_last().push((key, value))
    } else if lookup(items.drop_last(), key) is Some {
        put(items.drop_last(), key, value).push(items.last())
    } else {
        items.push((key, value))
    }
}

/// The items without those under a key.
pub open spec fn drop_key<W>(items: Seq<(KeyView, W)>, key: KeyView) -> Seq<(KeyView, W)>
    decreases items.len(),
{
    if items.len() == 0 {
        Seq::empty()
    } else if items.last().0 == key {
        drop_key(items.drop_last(), key)
    } else {
        drop_key(items.drop_last(), key).push(items.last())
    }
}

/// Whether no key stands twice.
pub open spec fn distinct<W>(items: Seq<(KeyView, W)>) -> bool {
    forall|i: int, j: int|
        0 <= i < j < items.len() ==> (#[trigger] items[i]).0 != (#[trigger] items[j]).0
}

/// Whether the same keys stand at the same places.
pub open spec fn same_keys<W>(a: Seq<(KeyView, W)>, b: Seq<(KeyView, W)>) -> bool {
    &&& a.len() == b.len()
    &&& forall|i: int| 0 <= i < a.len() ==> (#[trigger] a[i]).0 == b[i].0
}

/// Where a key stands says everything of it.
pub proof fn lemma_at<W>(items: Seq<(KeyView, W)>, i: int)
    requires
        distinct(items),
        0 <= i < items.len(),
    ensures
        lookup(items, items[i].0) == Some(items[i].1),
        forall|w: W| #[trigger]
            put(items, items[i].0, w) == items.update(i, (items[i].0, w)),
        drop_key(items, items[i].0) == items.remove(i),
    decreases items.len(),
{
    let key = items[i].0;
    let before = items.drop_last();
    if i == items.len() - 1 {
        assert forall|j: int| 0 <= j < before.len() implies (#[trigger] before[j]).0 != key by {
            assert(items[j].0 != items[i].0);
        }
        lemma_absent(before, key);
        assert(items.remove(i) =~= before);
        assert forall|w: W| #[trigger] put(items, key, w) == items.update(i, (key, w)) by {
            assert(before.push((key, w)) =~= items.update(i, (key, w)));
        }
    } else {
        assert(before[i] == items[i]);
        assert(items[i].0 != items[items.len() - 1].0);
        assert(distinct(before)) by {
            assert forall|a: int, b: int| 0 <= a < b < before.len() implies (#[trigger] before[a]).0
                != (#[trigger] before[b]).0 by {
                assert(items[a].0 != items[b].0);
            }
        }
        lemma_at(before, i);
        assert(before.remove(i).push(items.last()) =~= items.remove(i));
        assert forall|w: W| #[trigger] put(items, key, w) == items.update(i, (key, w)) by {
            assert(put(before, key, w) == before.update(i, (key, w)));
            assert(before.update(i, (key, w)).push(items.last()) =~= items.update(i, (key, w)));
        }
    }
}

/// A key that stands nowhere.
pub proof fn lemma_absent<W>(items: Seq<(KeyView, W)>, key: KeyView)
    requires
        forall|i: int| 0 <= i < items.len() ==> (#[trigger] items[i]).0 != key,
    ensures
        lookup(items, key) is None,
        forall|w: W| #[trigger] put(items, key, w) == items.push((key, w)),
        drop_key(items, key) == items,
    decreases items.len(),
{
    if items.len() == 0 {
        assert forall|w: W| #[trigger] put(items, key, w) == items.push((key, w)) by {
            assert(seq![(key, w)] =~= items.push((key, w)));
        }
        assert(drop_key(items, key) =~= items);
    } else {
        let before = items.drop_last();
        assert forall|i: int| 0 <= i < before.len() implies (#[trigger] before[i]).0 != key by {
            assert(items[i].0 != key);
        }
        assert(items[items.len() - 1].0 != key);
        lemma_absent(before, key);
        assert(before.push(items.last()) =~= items);
    }
}

/// A key that has a value stands somewhere.
pub proof fn lemma_found<W>(items: Seq<(KeyView, W)>, key: KeyView) -> (i: int)
    requires
        lookup(items, key) is Some,
    ensures
        0 <= i < items.len(),
        items[i].0 == key,
        lookup(items, key) == Some(items[i].1),
    decreases items.len(),
{
    if items.last().0 == key {
        items.len() - 1
    } else {
        lemma_found(items.drop_last(), key)
    }
}

/// What is put under a key is found there, and nothing else changes.
pub proof fn law_lookup_put<W>(items: Seq<(KeyView, W)>, key: KeyView, value: W, other: KeyView)
    ensures
        lookup(put(items, key, value), other) == (if other == key {
            Some(value)
        } else {
            lookup(items, other)
        }),
    decreases items.len(),
{
    let after = put(items, key, value);
    if items.len() == 0 {
        assert(lookup(after.drop_last(), other) is None);
        assert(lookup(items, other) is None);
    } else {
        let before = items.drop_last();
        if items.last().0 == key {
            assert(after.drop_last() =~= before);
        } else if lookup(before, key) is Some {
            law_lookup_put(before, key, value, other);
            assert(after.drop_last() =~= put(before, key, value));
        } else {
            assert(after.drop_last() =~= items);
        }
    }
}

/// What is dropped is not found any more, and nothing else changes.
pub proof fn law_lookup_drop<W>(items: Seq<(KeyView, W)>, key: KeyView, other: KeyView)
    ensures
        lookup(drop_key(items, key), other) == (if other == key {
            None
        } else {
            lookup(items, other)
        }),
    decreases items.len(),
{
    if items.len() > 0 {
        let before = items.drop_last();
        law_lookup_drop(before, key, other);
        if items.last().0 != key {
            assert(drop_key(items, key).drop_last() =~= drop_key(before, key));
        }
    }
}

/// What a table can hold. A value may have more to it than its view says; what
/// is put in sound comes out sound.
pub trait Held: DeepView {
    spec fn sound(&self) -> bool;
}

/// Values by key.
pub struct Table<V> {
    index: DashMap<(String, u64, u64), usize>,
    slots: Vec<((String, u64, u64), V)>,
}

impl<V: DeepView> DeepView for Table<V> {
    type V = Seq<(KeyView, V::V)>;

    closed spec fn deep_view(&self) -> Seq<(KeyView, V::V)> {
        self.slots.deep_view()
    }
}

impl<V: Held> Table<V> {
    /// The map says of every key where it stands, and of no other key anything,
    /// and every value is sound.
    pub closed spec fn wf(self) -> bool {
        let items = self.slots.deep_view();
        &&& distinct(items)
        &&& forall|i: int| 0 <= i < self.slots@.len() ==> (#[trigger] self.slots@[i]).1.sound()
        &&& forall|i: int|
            0 <= i < items.len() ==> entries(self.index).dom().contains(
                (#[trigger] items[i]).0,
            ) && entries(self.index)[items[i].0] == i
        &&& forall|k: KeyView| #[trigger]
            entries(self.index).dom().contains(k) ==> entries(self.index)[k] < items.len()
                && items[entries(self.index)[k] as int].0 == k
    }

    /// Values do not matter to the order of a table.
    proof fn lemma_wf_by_keys(self, other: Table<V>)
        requires
            self.wf(),
            other.index == self.index,
            same_keys(other.slots.deep_view(), self.slots.deep_view()),
            forall|i: int|
                0 <= i < other.slots@.len() ==> (#[trigger] other.slots@[i]).1.sound(),
        ensures
            other.wf(),
    {
        let a = self.slots.deep_view();
        let b = other.slots.deep_view();
        assert forall|i: int| 0 <= i < b.len() implies entries(other.index).dom().contains(
            (#[trigger] b[i]).0,
        ) && entries(other.index)[b[i].0] == i by {
            assert(b[i].0 == a[i].0);
        }
        assert forall|i: int, j: int| 0 <= i < j < b.len() implies (#[trigger] b[i]).0 != (
        #[trigger] b[j]).0 by {
            assert(b[i].0 == a[i].0 && b[j].0 == a[j].0);
        }
        assert forall|k: KeyView| #[trigger]
            entries(other.index).dom().contains(k) implies entries(other.index)[k] < b.len()
            && b[entries(other.index)[k] as int].0 == k by {
            let i = entries(self.index)[k] as int;
            assert(b[i].0 == a[i].0);
        }
    }

    /// A table without values.
    pub fn new() -> (r: Table<V>)
        ensures
            r.wf(),
            r.deep_view() == Seq::<(KeyView, V::V)>::empty(),
    {
        let slots: Vec<((String, u64, u64), V)> = Vec::new();
        proof {
            assert(slots.deep_view() =~= Seq::empty());
        }
        Table { index: map_new(), slots }
    }

    /// No key stands twice.
    pub proof fn lemma_distinct(&self)
        requires
            self.wf(),
        ensures
            distinct(self.deep_view()),
    {
    }

    pub fn len(&self) -> (r: usize)
        ensures
            r == self.deep_view().len(),
    {
        self.slots.len()
    }

    /// Where a key stands.
    pub fn place(&self, key: &(String, u64, u64)) -> (r: Option<usize>)
        requires
            self.wf(),
        ensures
            r is Some <==> lookup(self.deep_view(), key.deep_view()) is Some,
            r matches Some(i) ==> i < self.deep_view().len() && self.deep_view()[i as int].0
                == key.deep_view() && lookup(self.deep_view(), key.deep_view()) == Some(
                self.deep_view()[i as int].1,
            ),
            r is None ==> forall|i: int|
                0 <= i < self.deep_view().len() ==> (#[trigger] self.deep_view()[i]).0
                    != key.deep_view(),
    {
        let r: Option<usize> = map_get(&self.index, key);
        proof {
            let items = self.slots.deep_view();
            let k = key.deep_view();
            if r is Some {
                lemma_at(items, r->0 as int);
            } else {
                assert forall|i: int| 0 <= i < items.len() implies (#[trigger] items[i]).0
                    != k by {}
                lemma_absent(items, k);
            }
        }
        r
    }

    /// The value under a key.
    pub fn get(&self, key: &(String, u64, u64)) -> (r: Option<&V>)
        requires
            self.wf(),
        ensures
            r is Some <==> lookup(self.deep_view(), key.deep_view()) is Some,
            r matches Some(v) ==> v.sound() && lookup(self.deep_view(), key.deep_view()) == Some(
                v.deep_view(),
            ),
    {
        match self.place(key) {
            Some(i) => Some(&self.slots[i].1),
            None => None,
        }
    }

    /// The value at a place.
    pub fn at(&self, i: usize) -> (r: &V)
        requires
            i < self.deep_view().len(),
        ensures
            r.deep_view() == self.deep_view()[i as int].1,
            self.wf() ==> r.sound(),
    {
        &self.slots[i].1
    }

    /// The key at a place.
    pub fn key_at(&self, i: usize) -> (r: &(String, u64, u64))
        requires
            i < self.deep_view().len(),
        ensures
            r.deep_view() == self.deep_view()[i as int].0,
    {
        &self.slots[i].0
    }

    /// Puts another value at a place and hands the one before back.
    pub fn exchange(&mut self, i: usize, value: V) -> (r: V)
        requires
            old(self).wf(),
            i < old(self).deep_view().len(),
            value.sound(),
        ensures
            final(self).wf(),
            r.sound(),
            r.deep_view() == old(self).deep_view()[i as int].1,
            final(self).deep_view() == old(self).deep_view().update(
                i as int,
                (old(self).deep_view()[i as int].0, value.deep_view()),
            ),
    {
        let ghost before = self.slots.deep_view();
        let ghost vv = value.deep_view();
        let mut other = value;
        std::mem::swap(&mut self.slots[i].1, &mut other);
        proof {
            let after = self.slots.deep_view();
            assert(after =~= before.update(i as int, (before[i as int].0, vv)));
            assert forall|j: int| 0 <= j < after.len() implies entries(self.index).dom().contains(
                (#[trigger] after[j]).0,
            ) && entries(self.index)[after[j].0] == j by {
                assert(after[j].0 == before[j].0);
            }
            assert forall|a: int, b: int| 0 <= a < b < after.len() implies (#[trigger] after[a]).0
                != (#[trigger] after[b]).0 by {
                assert(after[a].0 == before[a].0 && after[b].0 == before[b].0);
            }
        }
        other
    }

    /// The value at a place, to be changed.
    pub fn at_mut(&mut self, i: usize) -> (r: &mut V)
        requires
            old(self).wf(),
            i < old(self).deep_view().len(),
        ensures
            r.sound(),
            r.deep_view() == old(self).deep_view()[i as int].1,
            final(r).sound() ==> final(self).wf(),
            final(self).deep_view() == old(self).deep_view().update(
                i as int,
                (old(self).deep_view()[i as int].0, final(r).deep_view()),
            ),
    {
        let ghost before = *self;
        proof {
            assert forall|t: Table<V>|
                t.index == before.index && same_keys(
                    t.slots.deep_view(),
                    before.slots.deep_view(),
                ) && (forall|j: int|
                    0 <= j < t.slots@.len() ==> (#[trigger] t.slots@[j]).1.sound())
                    implies #[trigger] t.wf() by {
                before.lemma_wf_by_keys(t);
            }
        }
        let slot = &mut self.slots[i];
        &mut slot.1
    }

    /// Puts a value under a key.
    pub fn insert(&mut self, key: (String, u64, u64), value: V)
        requires
            old(self).wf(),
            value.sound(),
        ensures
            final(self).wf(),
            final(self).deep_view() == put(
                old(self).deep_view(),
                key.deep_view(),
                value.deep_view(),
            ),
    {
        let ghost before = self.slots.deep_view();
        let ghost k = key.deep_view();
        let ghost vv = value.deep_view();
        match self.place(&key) {
            Some(i) => {
                proof {
                    lemma_at(before, i as int);
                }
                self.exchange(i, value);
            },
            None => {
                proof {
                    lemma_absent(before, k);
                }
                let n: usize = self.slots.len();
                let copy = (key.0.clone(), key.1, key.2);
                map_insert(&mut self.index, copy, n);
                self.slots.push((key, value));
                proof {
                    let after = self.slots.deep_view();
                    assert(after =~= before.push((k, vv)));
                    assert forall|j: int| 0 <= j < after.len() implies entries(
                        self.index,
                    ).dom().contains((#[trigger] after[j]).0) && entries(self.index)[after[j].0]
                        == j by {
                        if j < before.len() {
                            assert(after[j] == before[j]);
                        }
                    }
                    assert forall|x: KeyView| #[trigger]
                        entries(self.index).dom().contains(x) implies entries(self.index)[x]
                        < after.len() && after[entries(self.index)[x] as int].0 == x by {
                        if x != k {
                            let p = entries(old(self).index)[x] as int;
                            assert(entries(old(self).index).dom().contains(x));
                            assert(after[p] == before[p]);
                        }
                    }
                    assert forall|a: int, b: int| 0 <= a < b < after.len() implies (
                    #[trigger] after[a]).0 != (#[trigger] after[b]).0 by {
                        assert(after[a] == before[a]);
                        if b < before.len() {
                            assert(after[b] == before[b]);
                        }
                    }
                }
            },
        }
    }

    /// Takes the value under a key out.
    pub fn remove(&mut self, key: &(String, u64, u64)) -> (r: Option<V>)
        requires
            old(self).wf(),
        ensures
            final(self).wf(),
            final(self).deep_view() == drop_key(old(self).deep_view(), key.deep_view()),
            r is Some <==> lookup(old(self).deep_view(), key.deep_view()) is Some,
            r matches Some(v) ==> v.sound() && lookup(old(self).deep_view(), key.deep_view())
                == Some(v.deep_view()),
    {
        let ghost before = self.slots.deep_view();
        let ghost k = key.deep_view();
        let i: usize = match self.place(key) {
            Some(i) => i,
            None => {
                proof {
                    lemma_absent(before, k);
                }
                return None;
            },
        };
        proof {
            lemma_at(before, i as int);
        }
        map_remove(&mut self.index, key);
        let ghost slots = self.slots@;
        let (_k, value) = self.slots.remove(i);
        let ghost after = self.slots.deep_view();
        let ghost first = entries(self.index);
        proof {
            assert(after =~= before.remove(i as int));
            assert forall|j: int| 0 <= j < self.slots@.len() implies (
            #[trigger] self.slots@[j]).1.sound() by {
                let o = if j < i {
                    j
                } else {
                    j + 1
                };
                assert(self.slots@[j] == slots[o]);
            }
            assert forall|j: int| 0 <= j < after.len() implies first.dom().contains(
                (#[trigger] after[j]).0,
            ) && first[after[j].0] == (if j < i {
                j
            } else {
                j + 1
            }) by {
                let o = if j < i {
                    j
                } else {
                    j + 1
                };
                assert(after[j] == before[o]);
                assert(before[o].0 != before[i as int].0);
            }
            assert forall|a: int, b: int| 0 <= a < b < after.len() implies (#[trigger] after[a]).0
                != (#[trigger] after[b]).0 by {
                let p = if a < i {
                    a
                } else {
                    a + 1
                };
                let q = if b < i {
                    b
                } else {
                    b + 1
                };
                assert(after[a] == before[p] && after[b] == before[q]);
            }
            assert forall|x: KeyView| #[trigger] first.dom().contains(x) implies exists|j: int|
                0 <= j < after.len() && (#[trigger] after[j]).0 == x by {
                let p = entries(old(self).index)[x] as int;
                assert(entries(old(self).index).dom().contains(x));
                assert(before[p].0 == x);
                if p < i {
                    assert(after[p].0 == x);
                } else {
                    assert(after[p - 1].0 == x);
                }
            }
        }
        let mut n: usize = i;
        while n < self.slots.len()
            invariant
                i <= n <= self.slots@.len(),
                after == self.slots.deep_view(),
                distinct(after),
                forall|j: int|
                    0 <= j < self.slots@.len() ==> (#[trigger] self.slots@[j]).1.sound(),
                forall|x: KeyView| #[trigger]
                    entries(self.index).dom().contains(x) ==> exists|j: int|
                        0 <= j < after.len() && (#[trigger] after[j]).0 == x,
                forall|j: int|
                    0 <= j < after.len() ==> entries(self.index).dom().contains(
                        (#[trigger] after[j]).0,
                    ),
                forall|j: int|
                    0 <= j < n ==> entries(self.index)[(#[trigger] after[j]).0] == j,
            decreases self.slots@.len() - n,
        {
            let copy = (self.slots[n].0.0.clone(), self.slots[n].0.1, self.slots[n].0.2);
            proof {
                assert(copy.deep_view() == after[n as int].0);
                assert forall|j: int| 0 <= j < n implies (#[trigger] after[j]).0
                    != after[n as int].0 by {}
            }
            map_insert(&mut self.index, copy, n);
            n = n + 1;
        }
        proof {
            assert forall|x: KeyView| #[trigger]
                entries(self.index).dom().contains(x) implies entries(self.index)[x] < after.len()
                && after[entries(self.index)[x] as int].0 == x by {
                let j = choose|j: int| 0 <= j < after.len() && (#[trigger] after[j]).0 == x;
                assert(entries(self.index)[after[j].0] == j);
            }
        }
        Some(value)
    }
}

/// What is put under a new key comes last; what is put under a key that is there stays at
/// its place.
pub proof fn law_order_of_a_table<W>(items: Seq<(KeyView, W)>, key: KeyView, v: W, i: int)
    requires
        0 <= i < items.len(),
    ensures
        lookup(items, key) is None ==> put(items, key, v) == items.push((key, v)),
        lookup(items, key) is Some ==> put(items, key, v).len() == items.len() && put(
            items,
            key,
            v,
        )[i].0 == items[i].0,
    decreases items.len(),
{
    let front = items.drop_last();
    if items.last().0 != key && lookup(front, key) is Some {
        if i < front.len() {
            law_order_of_a_table(front, key, v, i);
        } else if front.len() > 0 {
            law_order_of_a_table(front, key, v, 0);
        }
    }
}

} // verus!
