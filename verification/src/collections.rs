//! An insertion-ordered map kept as two aligned vectors.

use vstd::prelude::*;

verus! {

/// A key of an [`UnorderedMap`]: a small value with a decidable equality.
pub trait MapKey: Copy {
    /// Tells whether two keys are the same key.
    fn same(&self, other: &Self) -> (b: bool)
        ensures
            b == (*self == *other),
    ;
}

impl MapKey for u64 {
    fn same(&self, other: &Self) -> (b: bool) {
        *self == *other
    }
}

/// A value whose clone is the value again. A map hands out clones of what
/// it stores; for a type of this kind they are equal to what is stored.
pub trait ExactClone: Clone + Sized {
    /// Whatever `clone` may return for a value is equal to the value.
    proof fn lemma_clone_is_exact(original: Self, copy: Self)
        requires
            cloned(original, copy),
        ensures
            copy == original,
    ;
}

impl ExactClone for u64 {
    proof fn lemma_clone_is_exact(original: Self, copy: Self) {
    }
}

impl ExactClone for String {
    proof fn lemma_clone_is_exact(original: Self, copy: Self) {
    }
}

/// Whether some entry of `entries` has the key `key`.
pub open spec fn has_key<K, V>(entries: Seq<(K, V)>, key: K) -> bool {
    exists|i: int| 0 <= i < entries.len() && (#[trigger] entries[i]).0 == key
}

/// The position of an entry with the key `key`, where there is one.
pub open spec fn slot_of<K, V>(entries: Seq<(K, V)>, key: K) -> int {
    choose|i: int| 0 <= i < entries.len() && (#[trigger] entries[i]).0 == key
}

/// No two entries share a key.
pub open spec fn distinct_keys<K, V>(entries: Seq<(K, V)>) -> bool {
    forall|i: int, j: int|
        0 <= i < j < entries.len() ==> (#[trigger] entries[i]).0 != (#[trigger] entries[j]).0
}

/// The value stored under `key`, if any.
pub open spec fn lookup<K, V>(entries: Seq<(K, V)>, key: K) -> Option<V> {
    if has_key(entries, key) {
        Some(entries[slot_of(entries, key)].1)
    } else {
        None
    }
}

/// `entries` after storing `value` under `key`: an existing entry keeps its
/// position and takes the new value, a new key goes to the end.
pub open spec fn upsert<K, V>(entries: Seq<(K, V)>, key: K, value: V) -> Seq<(K, V)> {
    if has_key(entries, key) {
        entries.update(slot_of(entries, key), (key, value))
    } else {
        entries.push((key, value))
    }
}

/// `entries` after storing each pair of `batch` in turn, first to last.
pub open spec fn upsert_all<K, V>(entries: Seq<(K, V)>, batch: Seq<(K, V)>) -> Seq<(K, V)>
    decreases batch.len(),
{
    if batch.len() == 0 {
        entries
    } else {
        upsert(upsert_all(entries, batch.drop_last()), batch.last().0, batch.last().1)
    }
}

/// In a sequence with distinct keys, the entry with a given key is where
/// the key is seen.
pub proof fn lemma_slot_of_is<K, V>(entries: Seq<(K, V)>, key: K, i: int)
    requires
        distinct_keys(entries),
        0 <= i < entries.len(),
        entries[i].0 == key,
    ensures
        has_key(entries, key),
        slot_of(entries, key) == i,
        lookup(entries, key) == Some(entries[i].1),
{
    let s = slot_of(entries, key);
    assert(0 <= s < entries.len() && entries[s].0 == key);
    if s < i {
        assert(entries[s].0 != entries[i].0);
    } else if i < s {
        assert(entries[i].0 != entries[s].0);
    }
}

/// Storing a value keeps the keys distinct.
pub proof fn lemma_upsert_distinct<K, V>(entries: Seq<(K, V)>, key: K, value: V)
    requires
        distinct_keys(entries),
    ensures
        distinct_keys(upsert(entries, key, value)),
{
    let after = upsert(entries, key, value);
    if has_key(entries, key) {
        let s = slot_of(entries, key);
        assert forall|i: int, j: int| 0 <= i < j < after.len() implies (#[trigger] after[i]).0 != (
        #[trigger] after[j]).0 by {
            assert(after[i].0 == entries[i].0);
            assert(after[j].0 == entries[j].0);
        }
    } else {
        assert forall|i: int, j: int| 0 <= i < j < after.len() implies (#[trigger] after[i]).0 != (
        #[trigger] after[j]).0 by {
            if j == entries.len() {
                assert(entries[i].0 != key);
            } else {
                assert(after[i].0 == entries[i].0);
                assert(after[j].0 == entries[j].0);
            }
        }
    }
}

/// After a value is stored under a key, a lookup of that key gives the
/// value, and a lookup of any other key gives what it gave before.
pub proof fn lemma_lookup_upsert<K, V>(entries: Seq<(K, V)>, key: K, value: V, other: K)
    requires
        distinct_keys(entries),
    ensures
        lookup(upsert(entries, key, value), other) == if other == key {
            Some(value)
        } else {
            lookup(entries, other)
        },
{
    let after = upsert(entries, key, value);
    lemma_upsert_distinct(entries, key, value);
    let at = if has_key(entries, key) {
        slot_of(entries, key)
    } else {
        entries.len() as int
    };
    assert(after[at] == (key, value));
    if other == key {
        lemma_slot_of_is(after, key, at);
    } else if has_key(entries, other) {
        let i = slot_of(entries, other);
        assert(after[i] == entries[i]);
        lemma_slot_of_is(after, other, i);
    } else if has_key(after, other) {
        let i = slot_of(after, other);
        assert(i != at);
        assert(entries[i].0 == other);
    }
}

/// Storing never removes or moves an entry: every key stays at its index,
/// and the sequence grows by one exactly when the key is new.
pub proof fn lemma_upsert_keeps<K, V>(entries: Seq<(K, V)>, key: K, value: V)
    ensures
        upsert(entries, key, value).len() == if has_key(entries, key) {
            entries.len()
        } else {
            entries.len() + 1
        },
        forall|i: int|
            0 <= i < entries.len() ==> (#[trigger] upsert(entries, key, value)[i]).0 == entries[i].0,
        forall|i: int|
            0 <= i < entries.len() && entries[i].0 != key ==> #[trigger] upsert(
                entries,
                key,
                value,
            )[i] == entries[i],
{
    if has_key(entries, key) {
        let s = slot_of(entries, key);
        assert(entries[s].0 == key);
    }
}

/// Of two values stored under one key the second wins: the result is what
/// storing the second alone gives, it has no entry more than after the
/// first, and a lookup of the key gives the second value.
pub proof fn lemma_upsert_twice<K, V>(entries: Seq<(K, V)>, key: K, first: V, second: V)
    requires
        distinct_keys(entries),
    ensures
        upsert(upsert(entries, key, first), key, second) == upsert(entries, key, second),
        upsert(upsert(entries, key, first), key, second).len() == upsert(entries, key, first).len(),
        lookup(upsert(upsert(entries, key, first), key, second), key) == Some(second),
        distinct_keys(upsert(upsert(entries, key, first), key, second)),
{
    let once = upsert(entries, key, first);
    let twice = upsert(once, key, second);
    lemma_upsert_distinct(entries, key, first);
    lemma_upsert_distinct(once, key, second);
    let at = if has_key(entries, key) {
        slot_of(entries, key)
    } else {
        entries.len() as int
    };
    assert(once[at] == (key, first));
    lemma_slot_of_is(once, key, at);
    assert(twice =~= upsert(entries, key, second));
    lemma_lookup_upsert(once, key, second, key);
}

/// Storing a batch keeps the keys distinct.
pub proof fn lemma_upsert_all_distinct<K, V>(entries: Seq<(K, V)>, batch: Seq<(K, V)>)
    requires
        distinct_keys(entries),
    ensures
        distinct_keys(upsert_all(entries, batch)),
    decreases batch.len(),
{
    if batch.len() > 0 {
        lemma_upsert_all_distinct(entries, batch.drop_last());
        lemma_upsert_distinct(
            upsert_all(entries, batch.drop_last()),
            batch.last().0,
            batch.last().1,
        );
    }
}

/// Storing a batch never removes or moves an entry: every key stays at its
/// index and no entry is lost.
pub proof fn lemma_upsert_all_keeps<K, V>(entries: Seq<(K, V)>, batch: Seq<(K, V)>)
    ensures
        upsert_all(entries, batch).len() >= entries.len(),
        forall|i: int|
            0 <= i < entries.len() ==> (#[trigger] upsert_all(entries, batch)[i]).0 == entries[i].0,
    decreases batch.len(),
{
    if batch.len() > 0 {
        let most = upsert_all(entries, batch.drop_last());
        lemma_upsert_all_keeps(entries, batch.drop_last());
        lemma_upsert_keeps(most, batch.last().0, batch.last().1);
        assert forall|i: int| 0 <= i < entries.len() implies (#[trigger] upsert_all(
            entries,
            batch,
        )[i]).0 == entries[i].0 by {
            assert(upsert(most, batch.last().0, batch.last().1)[i].0 == most[i].0);
        }
    }
}

/// A map that remembers the order in which its keys first arrived.
pub struct UnorderedMap<K, V> {
    keys: Vec<K>,
    values: Vec<V>,
}

impl<K, V> View for UnorderedMap<K, V> {
    type V = Seq<(K, V)>;

    closed spec fn view(&self) -> Seq<(K, V)> {
        Seq::new(self.keys@.len(), |i: int| (self.keys@[i], self.values@[i]))
    }
}

impl<K, V> UnorderedMap<K, V> {
    /// What holds of every map: the two vectors are aligned and no key
    /// occurs twice.
    #[verifier::type_invariant]
    pub closed spec fn inv(&self) -> bool {
        &&& self.keys@.len() == self.values@.len()
        &&& distinct_keys(self@)
    }

    /// A map never holds a key twice.
    pub proof fn lemma_inv_distinct(&self)
        requires
            self.inv(),
        ensures
            distinct_keys(self@),
    {
    }
}

impl<K: MapKey, V> UnorderedMap<K, V> {
    /// An empty map.
    pub fn new() -> (m: Self)
        ensures
            m@ == Seq::<(K, V)>::empty(),
            distinct_keys(m@),
    {
        UnorderedMap { keys: Vec::new(), values: Vec::new() }
    }

    /// The number of entries.
    pub fn len(&self) -> (n: usize)
        ensures
            n == self@.len(),
    {
        proof {
            use_type_invariant(self);
        }
        self.keys.len()
    }

    /// The keys, in the order in which they first arrived.
    pub fn keys_as_vector(&self) -> (keys: &Vec<K>)
        ensures
            keys@.len() == self@.len(),
            forall|i: int| 0 <= i < self@.len() ==> keys@[i] == (#[trigger] self@[i]).0,
    {
        proof {
            use_type_invariant(self);
        }
        &self.keys
    }

    /// The values, each at the index of its key in `keys_as_vector`.
    pub fn values_as_vector(&self) -> (values: &Vec<V>)
        ensures
            values@.len() == self@.len(),
            forall|i: int| 0 <= i < self@.len() ==> values@[i] == (#[trigger] self@[i]).1,
    {
        proof {
            use_type_invariant(self);
        }
        &self.values
    }

    fn position(&self, key: &K) -> (r: Option<usize>)
        ensures
            match r {
                Some(i) => i < self@.len() && self@[i as int].0 == *key,
                None => !has_key(self@, *key),
            },
    {
        proof {
            use_type_invariant(self);
        }
        let mut i: usize = 0;
        while i < self.keys.len()
            invariant
                i <= self.keys@.len(),
                self.keys@.len() == self.values@.len(),
                forall|j: int| 0 <= j < i ==> (#[trigger] self@[j]).0 != *key,
            decreases self.keys@.len() - i,
        {
            if self.keys[i].same(key) {
                return Some(i);
            }
            i += 1;
        }
        None
    }

    /// The value stored under `key`, if any.
    pub fn get(&self, key: &K) -> (r: Option<&V>)
        ensures
            r == match lookup(self@, *key) {
                Some(v) => Some(&v),
                None => None,
            },
    {
        proof {
            use_type_invariant(self);
        }
        match self.position(key) {
            Some(i) => Some(&self.values[i]),
            None => None,
        }
    }

    /// Stores `value` under `key`, over the value that was there if the key
    /// is known, at the end otherwise. Returns the value that was there.
    pub fn insert(&mut self, key: K, value: V) -> (previous: Option<V>)
        ensures
            final(self)@ == upsert(old(self)@, key, value),
            previous == lookup(old(self)@, key),
            distinct_keys(final(self)@),
    {
        proof {
            use_type_invariant(&*self);
        }
        let ghost before = self@;
        let found = self.position(&key);
        let mut taken = UnorderedMap { keys: Vec::new(), values: Vec::new() };
        std::mem::swap(self, &mut taken);
        let UnorderedMap { mut keys, mut values } = taken;
        let previous = match found {
            Some(i) => {
                values.push(value);
                Some(values.swap_remove(i))
            },
            None => {
                keys.push(key);
                values.push(value);
                None
            },
        };
        proof {
            let after = Seq::new(keys@.len(), |j: int| (keys@[j], values@[j]));
            if let Some(i) = found {
                lemma_slot_of_is(before, key, i as int);
            }
            assert(after =~= upsert(before, key, value));
            lemma_upsert_distinct(before, key, value);
        }
        *self = UnorderedMap { keys, values };
        previous
    }

    /// Stores each pair of `batch` in turn, first to last.
    pub fn extend(&mut self, batch: Vec<(K, V)>)
        ensures
            final(self)@ == upsert_all(old(self)@, batch@),
            distinct_keys(final(self)@),
    {
        proof {
            use_type_invariant(&*self);
        }
        let ghost before = self@;
        for pair in it: batch
            invariant
                it.seq() == batch@,
                distinct_keys(self@),
                self@ == upsert_all(before, batch@.take(it.index() as int)),
        {
            proof {
                let done = batch@.take(it.index() + 1);
                assert(done.drop_last() =~= batch@.take(it.index() as int));
                assert(done.last() == pair);
            }
            self.insert(pair.0, pair.1);
        }
        proof {
            assert(batch@.take(batch@.len() as int) =~= batch@);
        }
    }
}

} // verus!
