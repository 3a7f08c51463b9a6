//! A small insertion-ordered map for keys that can only be compared for
//! identity.
//!
//! The map keeps its keys and values in two parallel vectors. No key occurs
//! twice, so a lookup finds at most one slot, and the number of slots is the
//! number of keys. The mathematical model is a finite `Map<K, V>`; the order in
//! which keys were first inserted is available as a sequence next to it.

use vstd::prelude::*;

verus! {

/// A key whose identity can be decided at run time.
pub trait MapKey: Copy {
    /// Tells whether two keys are the same value.
    fn same_key(&self, other: &Self) -> (same: bool)
        ensures
            same == (*self == *other),
    ;
}

/// An insertion-ordered map without repeated keys.
#[derive(Debug)]
pub struct VecMap<K, V> {
    keys: Vec<K>,
    values: Vec<V>,
}

impl<K, V> VecMap<K, V> {
    #[verifier::type_invariant]
    spec fn well_formed(&self) -> bool {
        &&& self.keys@.no_duplicates()
        &&& self.keys@.len() == self.values@.len()
    }

    /// The keys, in the order in which each was first inserted.
    pub closed spec fn spec_keys(&self) -> Seq<K> {
        self.keys@
    }
}

impl<K, V> View for VecMap<K, V> {
    type V = Map<K, V>;

    closed spec fn view(&self) -> Map<K, V> {
        model(self.keys@, self.values@)
    }
}

/// The map that parallel sequences of keys and values stand for.
spec fn model<K, V>(keys: Seq<K>, values: Seq<V>) -> Map<K, V> {
    Map::new(|k: K| keys.contains(k), |k: K| values[keys.index_of(k)])
}

/// Replacing the value in one slot replaces the value of that slot's key.
proof fn lemma_model_update<K, V>(keys: Seq<K>, values: Seq<V>, i: int, v: V)
    requires
        keys.no_duplicates(),
        keys.len() == values.len(),
        0 <= i < keys.len(),
    ensures
        model(keys, values.update(i, v)) == model(keys, values).insert(keys[i], v),
{
    lemma_index_of_unique(keys, i);
    assert forall|other: K| keys.contains(other) && other != keys[i] implies keys.index_of(other)
        != i by {
        let j = keys.index_of(other);
        assert(keys[j] == other);
    }
    assert(model(keys, values.update(i, v)) =~= model(keys, values).insert(keys[i], v));
}

/// A new key with its value, appended to the slots, is inserted into the map.
proof fn lemma_model_push<K, V>(keys: Seq<K>, values: Seq<V>, k: K, v: V)
    requires
        keys.no_duplicates(),
        keys.len() == values.len(),
        !keys.contains(k),
    ensures
        keys.push(k).no_duplicates(),
        model(keys.push(k), values.push(v)) == model(keys, values).insert(k, v),
{
    let grown = keys.push(k);
    assert(grown.no_duplicates());
    assert forall|other: K| grown.contains(other) implies (other == k || keys.contains(other)) by {
        let j = grown.index_of(other);
        assert(grown[j] == other);
        if j < keys.len() {
            assert(keys[j] == other);
        }
    }
    assert forall|other: K| keys.contains(other) implies grown.contains(other) && grown.index_of(
        other,
    ) == keys.index_of(other) by {
        let j = keys.index_of(other);
        assert(grown[j] == other);
        lemma_index_of_unique(grown, j);
    }
    assert(grown[keys.len() as int] == k);
    lemma_index_of_unique(grown, keys.len() as int);
    assert(model(grown, values.push(v)) =~= model(keys, values).insert(k, v));
}

/// In a sequence without repetitions, an element is found at its own index.
proof fn lemma_index_of_unique<K>(keys: Seq<K>, i: int)
    requires
        keys.no_duplicates(),
        0 <= i < keys.len(),
    ensures
        keys.contains(keys[i]),
        keys.index_of(keys[i]) == i,
{
    let j = keys.index_of(keys[i]);
    assert(0 <= j < keys.len() && keys[j] == keys[i]);
}

impl<K: MapKey, V> VecMap<K, V> {
    /// An empty map.
    pub fn new() -> (m: Self)
        ensures
            m@ == Map::<K, V>::empty(),
            m.spec_keys() == Seq::<K>::empty(),
    {
        let m = VecMap { keys: Vec::new(), values: Vec::new() };
        assert(m@ =~= Map::<K, V>::empty());
        m
    }

    /// The slot of `k`, if the map holds it.
    fn position(&self, k: &K) -> (slot: Option<usize>)
        ensures
            match slot {
                Some(i) => i < self.keys@.len() && self.keys@[i as int] == *k,
                None => !self.keys@.contains(*k),
            },
    {
        let mut i: usize = 0;
        while i < self.keys.len()
            invariant
                i <= self.keys@.len(),
                forall|j: int| 0 <= j < i ==> self.keys@[j] != *k,
            decreases self.keys@.len() - i,
        {
            if self.keys[i].same_key(k) {
                return Some(i);
            }
            i += 1;
        }
        None
    }

    /// The number of keys.
    pub fn len(&self) -> (n: usize)
        ensures
            n == self@.len(),
            n == self.spec_keys().len(),
            self@.dom().finite(),
            self@.dom() == self.spec_keys().to_set(),
            self.spec_keys().no_duplicates(),
    {
        proof {
            use_type_invariant(self);
            assert(self@.dom() =~= self.keys@.to_set());
            self.keys@.unique_seq_to_set();
            vstd::seq_lib::seq_to_set_is_finite(self.keys@);
        }
        self.keys.len()
    }

    /// Whether the map holds `k`.
    pub fn contains_key(&self, k: &K) -> (held: bool)
        ensures
            held == self@.contains_key(*k),
    {
        self.position(k).is_some()
    }

    /// The value stored under `k`.
    pub fn get(&self, k: &K) -> (value: Option<&V>)
        ensures
            match value {
                Some(v) => self@.contains_key(*k) && *v == self@[*k],
                None => !self@.contains_key(*k),
            },
    {
        proof {
            use_type_invariant(self);
        }
        match self.position(k) {
            Some(i) => {
                proof {
                    lemma_index_of_unique(self.keys@, i as int);
                }
                Some(&self.values[i])
            },
            None => None,
        }
    }

    /// The key and the value in slot `i`, counted in insertion order.
    pub fn entry_at(&self, i: usize) -> (entry: (K, &V))
        requires
            i < self.spec_keys().len(),
        ensures
            entry.0 == self.spec_keys()[i as int],
            self@.contains_key(entry.0),
            *entry.1 == self@[entry.0],
    {
        proof {
            use_type_invariant(self);
            lemma_index_of_unique(self.keys@, i as int);
        }
        (self.keys[i], &self.values[i])
    }

    /// A mutable borrow of the value stored under `k`. Writing through it
    /// changes that one value and nothing else.
    pub fn get_mut(&mut self, k: &K) -> (value: Option<&mut V>)
        ensures
            match value {
                Some(v) => {
                    &&& old(self)@.contains_key(*k)
                    &&& *v == old(self)@[*k]
                    &&& final(self)@ == old(self)@.insert(*k, *final(v))
                },
                None => !old(self)@.contains_key(*k) && *final(self) == *old(self),
            },
            final(self).spec_keys() == old(self).spec_keys(),
    {
        proof {
            use_type_invariant(&*self);
        }
        match self.position(k) {
            Some(i) => {
                proof {
                    lemma_index_of_unique(self.keys@, i as int);
                }
                let ghost keys = self.keys@;
                let ghost values = self.values@;
                let slot = &mut self.values[i];
                proof {
                    lemma_model_update(keys, values, i as int, *final(slot));
                }
                Some(slot)
            },
            None => None,
        }
    }

    /// Stores `v` under `k`, and hands back the value that `k` had before.
    /// A key that is new to the map is placed after all the others.
    pub fn insert(&mut self, k: K, v: V) -> (previous: Option<V>)
        ensures
            final(self)@ == old(self)@.insert(k, v),
            match previous {
                Some(p) => old(self)@.contains_key(k) && p == old(self)@[k],
                None => !old(self)@.contains_key(k),
            },
            final(self).spec_keys() == if old(self)@.contains_key(k) {
                old(self).spec_keys()
            } else {
                old(self).spec_keys().push(k)
            },
    {
        proof {
            use_type_invariant(&*self);
        }
        let slot = self.position(&k);
        // The slots are moved out, changed and put back as one value, so that
        // the map is never seen with keys and values out of step.
        let mut taken = VecMap { keys: Vec::new(), values: Vec::new() };
        std::mem::swap(self, &mut taken);
        let VecMap { mut keys, mut values } = taken;
        let previous = match slot {
            Some(i) => {
                proof {
                    lemma_index_of_unique(keys@, i as int);
                    lemma_model_update(keys@, values@, i as int, v);
                }
                let mut v = v;
                std::mem::swap(&mut values[i], &mut v);
                Some(v)
            },
            None => {
                proof {
                    lemma_model_push(keys@, values@, k, v);
                }
                keys.push(k);
                values.push(v);
                None
            },
        };
        *self = VecMap { keys, values };
        previous
    }
}

impl<K: MapKey, V: Copy> VecMap<K, V> {
    /// The map built by inserting the pairs one after the other: where a key
    /// occurs more than once, its last value stays.
    pub fn from_pairs(pairs: &Vec<(K, V)>) -> (m: Self)
        ensures
            m@ == map_of_pairs(pairs@),
            m.spec_keys() == keys_of_pairs(pairs@),
    {
        let mut m = VecMap::new();
        let mut i: usize = 0;
        while i < pairs.len()
            invariant
                i <= pairs.len(),
                m@ == map_of_pairs(pairs@.take(i as int)),
                m.spec_keys() == keys_of_pairs(pairs@.take(i as int)),
            decreases pairs.len() - i,
        {
            let (k, v) = pairs[i];
            m.insert(k, v);
            proof {
                assert(pairs@.take(i + 1).drop_last() =~= pairs@.take(i as int));
            }
            i += 1;
        }
        proof {
            assert(pairs@.take(pairs.len() as int) =~= pairs@);
        }
        m
    }
}

impl<K: MapKey, V: Copy> Clone for VecMap<K, V> {
    fn clone(&self) -> (copy: Self)
        ensures
            copy@ == self@,
            copy.spec_keys() == self.spec_keys(),
    {
        proof {
            use_type_invariant(self);
        }
        let mut keys: Vec<K> = Vec::new();
        let mut values: Vec<V> = Vec::new();
        let mut i: usize = 0;
        while i < self.keys.len()
            invariant
                i <= self.keys@.len(),
                self.keys@.len() == self.values@.len(),
                keys@ == self.keys@.take(i as int),
                values@ == self.values@.take(i as int),
            decreases self.keys@.len() - i,
        {
            keys.push(self.keys[i]);
            values.push(self.values[i]);
            proof {
                assert(self.keys@.take(i + 1) =~= self.keys@.take(i as int).push(
                    self.keys@[i as int],
                ));
                assert(self.values@.take(i + 1) =~= self.values@.take(i as int).push(
                    self.values@[i as int],
                ));
            }
            i += 1;
        }
        proof {
            assert(keys@ =~= self.keys@);
            assert(values@ =~= self.values@);
        }
        VecMap { keys, values }
    }
}

/// The map that a list of pairs stands for, read from left to right: a later
/// pair replaces an earlier one with the same key.
pub open spec fn map_of_pairs<K, V>(pairs: Seq<(K, V)>) -> Map<K, V>
    decreases pairs.len(),
{
    if pairs.len() == 0 {
        Map::empty()
    } else {
        map_of_pairs(pairs.drop_last()).insert(pairs.last().0, pairs.last().1)
    }
}

/// A member of the set that a list stands for is found at some place of the
/// list. The place is handed back.
pub proof fn lemma_listed<K>(keys: Seq<K>, k: K) -> (at: int)
    requires
        keys.to_set().contains(k),
    ensures
        0 <= at < keys.len(),
        keys[at] == k,
{
    assert(keys.contains(k));
    keys.index_of(k)
}

/// The keys of a list of pairs, each at the place of its first occurrence.
pub open spec fn keys_of_pairs<K, V>(pairs: Seq<(K, V)>) -> Seq<K>
    decreases pairs.len(),
{
    if pairs.len() == 0 {
        Seq::empty()
    } else if map_of_pairs(pairs.drop_last()).contains_key(pairs.last().0) {
        keys_of_pairs(pairs.drop_last())
    } else {
        keys_of_pairs(pairs.drop_last()).push(pairs.last().0)
    }
}

/// Where no key occurs twice in a list of pairs, the list's map holds each
/// pair as it is listed, and nothing else.
pub proof fn lemma_map_of_pairs<K, V>(pairs: Seq<(K, V)>)
    requires
        forall|i: int, j: int| 0 <= i < j < pairs.len() ==> pairs[i].0 != pairs[j].0,
    ensures
        forall|i: int|
            0 <= i < pairs.len() ==> map_of_pairs(pairs).contains_key((#[trigger] pairs[i]).0)
                && map_of_pairs(pairs)[pairs[i].0] == pairs[i].1,
        forall|k: K| #[trigger]
            map_of_pairs(pairs).contains_key(k) ==> exists|i: int|
                0 <= i < pairs.len() && (#[trigger] pairs[i]).0 == k,
    decreases pairs.len(),
{
    if pairs.len() > 0 {
        let front = pairs.drop_last();
        lemma_map_of_pairs(front);
        assert forall|i: int| 0 <= i < pairs.len() implies map_of_pairs(pairs).contains_key(
            (#[trigger] pairs[i]).0,
        ) && map_of_pairs(pairs)[pairs[i].0] == pairs[i].1 by {
            if i < pairs.len() - 1 {
                assert(front[i] == pairs[i]);
            }
        }
        assert forall|k: K| #[trigger] map_of_pairs(pairs).contains_key(k) implies exists|i: int|
            0 <= i < pairs.len() && (#[trigger] pairs[i]).0 == k by {
            if k == pairs.last().0 {
                assert(pairs[pairs.len() - 1].0 == k);
            } else {
                assert(map_of_pairs(front).contains_key(k));
                let i = choose|i: int| 0 <= i < front.len() && (#[trigger] front[i]).0 == k;
                assert(pairs[i].0 == k);
            }
        }
    }
}

} // verus!
