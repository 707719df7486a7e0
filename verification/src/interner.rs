//! Interning values under small integer ids.
use vstd::prelude::*;

use std::collections::HashMap;

verus! {

broadcast use vstd::std_specs::hash::group_hash_axioms;

/// An id that wraps a `u32` index.
pub trait Id: Sized + Copy {
    spec fn index(&self) -> u32;

    fn new(inner: u32) -> (r: Self)
        ensures
            r.index() == inner,
    ;

    fn into_inner(self) -> (r: u32)
        ensures
            r == self.index(),
    ;

    /// Two ids with the same index are the same id.
    proof fn lemma_index_determines(a: Self, b: Self)
        ensures
            a.index() == b.index() ==> a == b,
    ;
}

/// A strategy that picks the key for each newly interned value.
pub trait Strategy {
    /// The index the next key will carry.
    spec fn next_index(&self) -> u32;

    fn key_for<K: Id, V>(&mut self, value: &V) -> (r: K)
        requires
            old(self).next_index() < u32::MAX,
        ensures
            r.index() == old(self).next_index(),
            final(self).next_index() == old(self).next_index() + 1,
    ;
}

/// Hands out the indices 0, 1, 2, ... in turn.
#[derive(Debug, Default)]
pub struct DefaultStrategy {
    idx: u32,
}

impl DefaultStrategy {
    pub fn new() -> (r: Self)
        ensures
            r.next_index() == 0,
    {
        DefaultStrategy { idx: 0 }
    }
}

impl Strategy for DefaultStrategy {
    closed spec fn next_index(&self) -> u32 {
        self.idx
    }

    fn key_for<K: Id, V>(&mut self, _value: &V) -> (r: K) {
        let id = K::new(self.idx);
        self.idx += 1;
        id
    }
}

/// What one call of [`Interner::intern`] does: `value` goes under `key`, whose index is the
/// next one, and the next index moves on by one.
pub open spec fn intern_step<K: Id, V>(before: Interner<K, V>, after: Interner<K, V>, key: K, value: V) -> bool {
    &&& key.index() == before.next_index()
    &&& after.entries() == before.entries().insert(key.index(), value)
    &&& after.next_index() == before.next_index() + 1
}

/// A map from ids to values in which new values get fresh ids.
#[derive(Debug)]
pub struct Interner<K, V> {
    strategy: DefaultStrategy,
    map: HashMap<u32, V>,
    key: core::marker::PhantomData<K>,
}

impl<K: Id, V> Interner<K, V> {
    /// The values by the index of their key.
    pub closed spec fn entries(&self) -> Map<u32, V> {
        self.map@
    }

    /// The index of the key the next interned value gets.
    pub closed spec fn next_index(&self) -> u32 {
        self.strategy.next_index()
    }

    /// Every key in use lies below the next index to be handed out.
    pub open spec fn fresh(&self) -> bool {
        forall|k: u32| #[trigger] self.entries().contains_key(k) ==> k < self.next_index()
    }

    pub fn new() -> (r: Self)
        ensures
            r.entries() == Map::<u32, V>::empty(),
            r.next_index() == 0,
            r.fresh(),
    {
        Interner { strategy: DefaultStrategy::new(), map: HashMap::new(), key: core::marker::PhantomData }
    }

    /// The value stored under `key`.
    pub fn get(&self, key: &K) -> (r: Option<&V>)
        ensures
            match r {
                Some(v) => self.entries().contains_key(key.index()) && *v == self.entries()[key.index()],
                None => !self.entries().contains_key(key.index()),
            },
    {
        let idx = (*key).into_inner();
        self.map.get(&idx)
    }

    /// Stores `value` under `key`, replacing what was there.
    pub fn insert(&mut self, key: K, value: V)
        ensures
            final(self).entries() == old(self).entries().insert(key.index(), value),
            final(self).next_index() == old(self).next_index(),
    {
        let idx = key.into_inner();
        self.map.insert(idx, value);
    }

    /// Stores `value` under a new key and returns the key.
    pub fn intern(&mut self, value: V) -> (r: K)
        requires
            old(self).next_index() < u32::MAX,
        ensures
            intern_step(*old(self), *final(self), r, value),
            old(self).fresh() ==> final(self).fresh() && !old(self).entries().contains_key(
                r.index(),
            ),
    {
        let id: K = self.strategy.key_for(&value);
        let idx = id.into_inner();
        self.map.insert(idx, value);
        proof {
            if old(self).fresh() {
                assert forall|k: u32| #[trigger] self.entries().contains_key(k) implies k
                    < self.next_index() by {
                    if k != idx {
                        assert(old(self).entries().contains_key(k));
                    }
                }
            }
        }
        id
    }
}

/// What a read gives back of a write: after a value is stored under a key, the key holds
/// that value, and every other key holds what it held before.
pub proof fn lemma_get_after_insert<K: Id, V>(
    before: Interner<K, V>,
    after: Interner<K, V>,
    key: K,
    value: V,
    other: K,
)
    requires
        after.entries() == before.entries().insert(key.index(), value),
    ensures
        after.entries().contains_key(key.index()),
        after.entries()[key.index()] == value,
        other != key ==> after.entries().contains_key(other.index()) == before.entries().contains_key(
            other.index(),
        ),
        other != key && before.entries().contains_key(other.index()) ==> after.entries()[other.index()]
            == before.entries()[other.index()],
{
    K::lemma_index_determines(key, other);
}

/// Interning `n` values one after another into a new interner hands out the keys with the
/// indices `0, 1, ..., n - 1` in turn, all of them distinct; afterwards exactly those keys are in
/// use, each still holding the value it was given.
pub proof fn lemma_interns_in_order<K: Id, V>(states: Seq<Interner<K, V>>, keys: Seq<K>, values: Seq<V>)
    requires
        states.len() == keys.len() + 1,
        values.len() == keys.len(),
        states[0].entries() == Map::<u32, V>::empty(),
        states[0].next_index() == 0,
        forall|i: int| 0 <= i < keys.len() ==> intern_step(#[trigger] states[i], states[i + 1], keys[i], values[i]),
    ensures
        forall|i: int| 0 <= i < keys.len() ==> (#[trigger] keys[i]).index() == i,
        forall|i: int, j: int| 0 <= i < j < keys.len() ==> keys[i] != keys[j],
        states.last().next_index() == keys.len(),
        forall|k: u32| #[trigger] states.last().entries().contains_key(k) <==> k < keys.len(),
        forall|i: int| 0 <= i < keys.len() ==> states.last().entries()[i as u32] == #[trigger] values[i],
    decreases keys.len(),
{
    let n = keys.len();
    if n > 0 {
        let m = n - 1;
        lemma_interns_in_order(states.take(m + 1), keys.take(m), values.take(m));
        assert(states.take(m + 1).last() == states[m]);
        assert(intern_step(states[m], states[m + 1], keys[m], values[m]));
        assert forall|i: int| 0 <= i < n implies (#[trigger] keys[i]).index() == i by {
            if i < m {
                assert(keys.take(m)[i] == keys[i]);
            }
        }
        assert forall|k: u32| #[trigger] states.last().entries().contains_key(k) <==> k < n by {
            assert(states.last() == states[m + 1]);
        }
        assert forall|i: int| 0 <= i < n implies states.last().entries()[i as u32] == #[trigger] values[i] by {
            assert(states.last() == states[m + 1]);
            if i < m {
                assert(values.take(m)[i] == values[i]);
            }
        }
    } else {
        assert(states.last() == states[0]);
    }
}

} // verus!
