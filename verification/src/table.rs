//! Ordered lookup tables.
//!
//! A [`Table`] maps keys to values and hands its keys out in increasing
//! order, so that a walk over a table always meets the entries in the same
//! order. To the contracts a table is a `Map`; the order of its keys is
//! [`ordered_keys`] of that map's domain.
use vstd::prelude::*;

verus! {

/// A key of a [`Table`]: a value with a rank by which keys are ordered.
pub trait Key: Sized {
    /// The place of the key in the order of all keys.
    spec fn rank(&self) -> int;

    /// Two keys of one rank are one key.
    proof fn lemma_rank_is_one_to_one(a: Self, b: Self)
        requires
            a.rank() == b.rank(),
        ensures
            a == b,
    ;

    /// Whether this key comes before `other`.
    fn precedes(&self, other: &Self) -> (before: bool)
        ensures
            before == (self.rank() < other.rank()),
    ;
}

/// A value of a [`Table`]: one that can be copied without changing its view.
pub trait Entry: View + Sized {
    /// A copy with the same view.
    fn duplicate(&self) -> (copy: Self)
        ensures
            copy@ == self@,
    ;
}

impl Entry for bool {
    fn duplicate(&self) -> (copy: bool) {
        *self
    }
}

/// Whether the ranks of `keys` grow from each key to the next.
pub open spec fn increasing<K: Key>(keys: Seq<K>) -> bool {
    forall|i: int, j: int| 0 <= i < j < keys.len() ==> (#[trigger] keys[i]).rank() < (
    #[trigger] keys[j]).rank()
}

/// Whether `keys` holds exactly the members of `domain`, in increasing order.
pub open spec fn lists<K: Key>(keys: Seq<K>, domain: Set<K>) -> bool {
    &&& increasing(keys)
    &&& forall|k: K| domain.contains(k) <==> keys.contains(k)
}

/// The members of a finite set of keys in increasing order.
pub open spec fn ordered_keys<K: Key>(domain: Set<K>) -> Seq<K> {
    choose|keys: Seq<K>| lists(keys, domain)
}

/// Two increasing sequences with the same members are one sequence.
pub proof fn lemma_increasing_is_unique<K: Key>(a: Seq<K>, b: Seq<K>)
    requires
        increasing(a),
        increasing(b),
        forall|k: K| a.contains(k) <==> b.contains(k),
    ensures
        a == b,
    decreases a.len(),
{
    if a.len() == 0 {
        if b.len() > 0 {
            assert(b.contains(b[0]));
        }
    } else {
        let x = a.last();
        assert(a.contains(x));
        let y = b.last();
        assert(b.contains(y));
        let a0 = a.drop_last();
        let b0 = b.drop_last();
        assert forall|k: K| a0.contains(k) <==> b0.contains(k) by {
            if a0.contains(k) {
                assert(a.contains(k));
                let j = choose|j: int| 0 <= j < b.len() && b[j] == k;
                assert(b0[j] == k);
            }
            if b0.contains(k) {
                assert(b.contains(k));
                let i = choose|i: int| 0 <= i < a.len() && a[i] == k;
                assert(a0[i] == k);
            }
        }
        lemma_increasing_is_unique(a0, b0);
        assert(a =~= a0.push(x));
    }
}

/// A listing of a finite set is as long as the set is large.
pub proof fn lemma_listing_has_the_size<K: Key>(keys: Seq<K>, domain: Set<K>)
    requires
        lists(keys, domain),
    ensures
        domain.finite(),
        keys.len() == domain.len(),
        keys.no_duplicates(),
{
    assert forall|i: int, j: int| 0 <= i < keys.len() && 0 <= j < keys.len() && i != j implies keys[i]
        != keys[j] by {
        assert(keys[i].rank() != keys[j].rank());
    }
    keys.unique_seq_to_set();
    assert(keys.to_set() =~= domain);
}

/// A table from keys to values, held in increasing order of the keys.
#[derive(Debug, PartialEq, Eq, PartialOrd, Ord)]
pub struct Table<K: Key + Copy, V> {
    entries: Vec<(K, V)>,
}

impl<K: Key + Copy, V: View> View for Table<K, V> {
    type V = Map<K, V::V>;

    closed spec fn view(&self) -> Map<K, V::V> {
        Map::new(|k: K| self.holds(k), |k: K| self.entries@[self.place_of(k)].1@)
    }
}

impl<K: Key + Copy, V> Table<K, V> {
    #[verifier::type_invariant]
    spec fn in_order(self) -> bool {
        forall|i: int, j: int|
            0 <= i < j < self.entries@.len() ==> (#[trigger] self.entries@[i]).0.rank() < (
            #[trigger] self.entries@[j]).0.rank()
    }
}

impl<K: Key + Copy, V: View> Table<K, V> {
    spec fn holds(&self, k: K) -> bool {
        exists|i: int| 0 <= i < self.entries@.len() && (#[trigger] self.entries@[i]).0 == k
    }

    spec fn place_of(&self, k: K) -> int {
        choose|i: int| 0 <= i < self.entries@.len() && (#[trigger] self.entries@[i]).0 == k
    }

    spec fn key_seq(&self) -> Seq<K> {
        Seq::new(self.entries@.len(), |i: int| self.entries@[i].0)
    }

    /// The keys of the table in the order in which it hands them out.
    pub open spec fn keys(&self) -> Seq<K> {
        ordered_keys(self@.dom())
    }

    proof fn lemma_keys(&self)
        requires
            self.in_order(),
        ensures
            self.keys() == self.key_seq(),
            lists(self.keys(), self@.dom()),
            self@.dom().finite(),
            self@.dom().len() == self.entries@.len(),
    {
        let ks = self.key_seq();
        assert forall|k: K| self@.dom().contains(k) <==> ks.contains(k) by {
            if self@.dom().contains(k) {
                let i = self.place_of(k);
                assert(ks[i] == k);
            }
        }
        assert(lists(ks, self@.dom()));
        let chosen = ordered_keys(self@.dom());
        lemma_increasing_is_unique(chosen, ks);
        lemma_listing_has_the_size(ks, self@.dom());
    }

    /// A table without entries.
    pub fn new() -> (table: Self)
        ensures
            table@ == Map::<K, V::V>::empty(),
    {
        let table = Table { entries: Vec::new() };
        table
    }

    /// The number of entries.
    pub fn len(&self) -> (n: usize)
        ensures
            n == self@.len(),
            n == self.keys().len(),
            lists(self.keys(), self@.dom()),
            self@.dom().finite(),
    {
        proof {
            use_type_invariant(self);
            self.lemma_keys();
        }
        self.entries.len()
    }

    /// The key at place `i` of the order.
    pub fn key_at(&self, i: usize) -> (key: K)
        requires
            i < self.keys().len(),
        ensures
            key == self.keys()[i as int],
            self@.contains_key(key),
    {
        proof {
            use_type_invariant(self);
            self.lemma_keys();
        }
        self.entries[i].0
    }

    /// The value under the key at place `i` of the order.
    pub fn value_at(&self, i: usize) -> (value: &V)
        requires
            i < self.keys().len(),
        ensures
            self@.contains_key(self.keys()[i as int]),
            value@ == self@[self.keys()[i as int]],
    {
        proof {
            use_type_invariant(self);
            self.lemma_keys();
        }
        &self.entries[i].1
    }

    /// The value under `key`, if the table has one.
    pub fn get(&self, key: &K) -> (value: Option<&V>)
        ensures
            self@.contains_key(*key) ==> value.is_some() && value.unwrap()@ == self@[*key],
            !self@.contains_key(*key) ==> value.is_none(),
    {
        proof {
            use_type_invariant(self);
        }
        let mut i: usize = 0;
        while i < self.entries.len()
            invariant
                self.in_order(),
                i <= self.entries@.len(),
                forall|j: int| 0 <= j < i ==> (#[trigger] self.entries@[j]).0 != *key,
            decreases self.entries@.len() - i,
        {
            let here = &self.entries[i];
            if !here.0.precedes(key) && !key.precedes(&here.0) {
                proof {
                    K::lemma_rank_is_one_to_one(here.0, *key);
                }
                return Some(&here.1);
            }
            i += 1;
        }
        None
    }

    /// Whether the table has a value under `key`.
    pub fn contains_key(&self, key: &K) -> (found: bool)
        ensures
            found == self@.contains_key(*key),
    {
        self.get(key).is_some()
    }

    /// Puts `value` under `key`, in place of the value that was there, if
    /// there was one.
    pub fn insert(&mut self, key: K, value: V)
        ensures
            final(self)@ == old(self)@.insert(key, value@),
    {
        proof {
            use_type_invariant(&*self);
        }
        let ghost before = *self;
        let mut entries: Vec<(K, V)> = Vec::new();
        core::mem::swap(&mut self.entries, &mut entries);
        let mut i: usize = 0;
        while i < entries.len() && entries[i].0.precedes(&key)
            invariant
                entries == before.entries,
                before.in_order(),
                i <= entries@.len(),
                forall|j: int| 0 <= j < i ==> (#[trigger] entries@[j]).0.rank() < key.rank(),
            decreases entries@.len() - i,
        {
            i += 1;
        }
        if i < entries.len() && !key.precedes(&entries[i].0) {
            proof {
                K::lemma_rank_is_one_to_one(entries@[i as int].0, key);
            }
            entries.set(i, (key, value));
            core::mem::swap(&mut self.entries, &mut entries);
            proof {
                assert forall|k: K| #[trigger] self.holds(k) == before.holds(k) by {
                    if before.holds(k) {
                        let j = before.place_of(k);
                        assert(self.entries@[j].0 == k);
                    }
                }
            }
        } else {
            entries.insert(i, (key, value));
            core::mem::swap(&mut self.entries, &mut entries);
            proof {
                assert forall|k: K| #[trigger] self.holds(k) == (k == key || before.holds(k)) by {
                    if before.holds(k) {
                        let j = before.place_of(k);
                        if j < i {
                            assert(self.entries@[j].0 == k);
                        } else {
                            assert(self.entries@[j + 1].0 == k);
                        }
                    }
                    if k == key {
                        assert(self.entries@[i as int].0 == k);
                    }
                }
            }
        }
    }
}

impl<K: Key + Copy, V: Entry> Clone for Table<K, V> {
    /// A copy of the table.
    fn clone(&self) -> (copy: Self)
        ensures
            copy@ == self@,
    {
        proof {
            use_type_invariant(self);
        }
        let mut entries: Vec<(K, V)> = Vec::new();
        let mut i: usize = 0;
        while i < self.entries.len()
            invariant
                self.in_order(),
                i <= self.entries@.len(),
                entries@.len() == i,
                forall|j: int|
                    0 <= j < i ==> (#[trigger] entries@[j]).0 == self.entries@[j].0 && entries@[j].1@
                        == self.entries@[j].1@,
            decreases self.entries@.len() - i,
        {
            let here = &self.entries[i];
            entries.push((here.0, here.1.duplicate()));
            i += 1;
        }
        let copy = Table { entries };
        proof {
            assert forall|k: K| #[trigger] copy.holds(k) == self.holds(k) by {
                if self.holds(k) {
                    let j = self.place_of(k);
                    assert(copy.entries@[j].0 == k);
                }
            }
        }
        copy
    }
}

} // verus!
