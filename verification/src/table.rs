//! A small map from identities to values, kept in insertion order.
use crate::identity::Identity;
use vstd::prelude::*;

verus! {

/// A finite map keyed by identities.
///
/// Its view is the mathematical map. `keys()` lists the domain in the order
/// in which the entries are walked by index.
pub struct IdMap<K: Identity, V> {
    entries: Vec<(K, V)>,
}

/// Whether `key` is the first component of some entry.
spec fn has_key<K, V>(entries: Seq<(K, V)>, key: K) -> bool {
    exists|i: int| 0 <= i < entries.len() && (#[trigger] entries[i]).0 == key
}

/// The index of an entry with the given key.
spec fn index_of_key<K, V>(entries: Seq<(K, V)>, key: K) -> int {
    choose|i: int| 0 <= i < entries.len() && (#[trigger] entries[i]).0 == key
}

/// No key occurs in two entries.
spec fn distinct_keys<K, V>(entries: Seq<(K, V)>) -> bool {
    forall|i: int, j: int|
        0 <= i < entries.len() && 0 <= j < entries.len() && i != j ==> (#[trigger] entries[i]).0
            != (#[trigger] entries[j]).0
}

impl<K: Identity, V> IdMap<K, V> {
    #[verifier::type_invariant]
    spec fn keys_are_unique(&self) -> bool {
        distinct_keys(self.entries@)
    }

    /// The keys in the order of the entries.
    pub closed spec fn keys(&self) -> Seq<K> {
        Seq::new(self.entries@.len(), |i: int| self.entries@[i].0)
    }

    /// The map that the entries stand for.
    pub closed spec fn view(&self) -> Map<K, V> {
        Map::new(
            |k: K| has_key(self.entries@, k),
            |k: K| self.entries@[index_of_key(self.entries@, k)].1,
        )
    }

    /// `keys()` names every key of the map exactly once.
    pub open spec fn listed(&self) -> bool {
        &&& self.keys().no_duplicates()
        &&& forall|k: K| self@.contains_key(k) <==> self.keys().contains(k)
        &&& forall|i: int| 0 <= i < self.keys().len() ==> self@.contains_key(#[trigger] self.keys()[i])
    }

    proof fn lemma_listed(&self)
        requires
            distinct_keys(self.entries@),
        ensures
            self.listed(),
            self.keys().len() == self.entries@.len(),
            forall|i: int|
                0 <= i < self.entries@.len() ==> self@.contains_key((#[trigger] self.entries@[i]).0)
                    && self@[self.entries@[i].0] == self.entries@[i].1,
    {
        let keys = self.keys();
        assert forall|i: int| 0 <= i < self.entries@.len() implies self@.contains_key(
            (#[trigger] self.entries@[i]).0,
        ) && self@[self.entries@[i].0] == self.entries@[i].1 by {
            let k = self.entries@[i].0;
            assert(has_key(self.entries@, k));
            let j = index_of_key(self.entries@, k);
            assert(j == i);
        }
        assert forall|k: K| self@.contains_key(k) <==> keys.contains(k) by {
            if self@.contains_key(k) {
                let j = index_of_key(self.entries@, k);
                assert(keys[j] == k);
            }
            if keys.contains(k) {
                let j = choose|j: int| 0 <= j < keys.len() && keys[j] == k;
                assert(self.entries@[j].0 == k);
            }
        }
        assert forall|i: int| 0 <= i < keys.len() implies self@.contains_key(
            #[trigger] keys[i],
        ) by {
            assert(self.entries@[i].0 == keys[i]);
        }
    }

    /// An empty map.
    pub fn new() -> (m: Self)
        ensures
            m@ == Map::<K, V>::empty(),
            m.keys() == Seq::<K>::empty(),
    {
        let m = IdMap { entries: Vec::new() };
        assert(m@ =~= Map::<K, V>::empty());
        assert(m.keys() =~= Seq::<K>::empty());
        m
    }

    /// The number of entries.
    pub fn len(&self) -> (n: usize)
        ensures
            n == self.keys().len(),
            self.listed(),
    {
        proof {
            use_type_invariant(self);
            self.lemma_listed();
        }
        self.entries.len()
    }

    /// The key of the entry at `index`.
    pub fn key_at(&self, index: usize) -> (k: K)
        requires
            index < self.keys().len(),
        ensures
            k == self.keys()[index as int],
            self@.contains_key(k),
    {
        proof {
            use_type_invariant(self);
            self.lemma_listed();
        }
        self.entries[index].0
    }

    /// The value of the entry at `index`.
    pub fn value_at(&self, index: usize) -> (v: &V)
        requires
            index < self.keys().len(),
        ensures
            self@.contains_key(self.keys()[index as int]),
            *v == self@[self.keys()[index as int]],
    {
        proof {
            use_type_invariant(self);
            self.lemma_listed();
        }
        &self.entries[index].1
    }

    /// Where the entry with the given key stands, if there is one.
    pub fn position(&self, key: K) -> (r: Option<usize>)
        ensures
            self.listed(),
            match r {
                Some(i) => i < self.keys().len() && self.keys()[i as int] == key,
                None => !self@.contains_key(key),
            },
    {
        proof {
            use_type_invariant(self);
            self.lemma_listed();
        }
        let mut i: usize = 0;
        while i < self.entries.len()
            invariant
                i <= self.entries@.len(),
                self.listed(),
                self.keys().len() == self.entries@.len(),
                forall|j: int|
                    0 <= j < self.entries@.len() ==> self.keys()[j] == (#[trigger] self.entries@[j]).0,
                forall|j: int| 0 <= j < i ==> (#[trigger] self.entries@[j]).0 != key,
            decreases self.entries@.len() - i,
        {
            if self.entries[i].0.to_number() == key.to_number() {
                proof {
                    K::lemma_number_decides(self.entries@[i as int].0, key);
                }
                return Some(i);
            }
            i += 1;
        }
        None
    }

    /// Whether the map has an entry for `key`.
    pub fn contains_key(&self, key: K) -> (r: bool)
        ensures
            r == self@.contains_key(key),
    {
        self.position(key).is_some()
    }

    /// The value stored for `key`, if there is one.
    pub fn get(&self, key: K) -> (r: Option<&V>)
        ensures
            match r {
                Some(v) => self@.contains_key(key) && *v == self@[key],
                None => !self@.contains_key(key),
            },
    {
        match self.position(key) {
            Some(i) => Some(self.value_at(i)),
            None => None,
        }
    }

    /// Stores `value` for `key`. An entry that is already there keeps its
    /// place and gets the new value; a new entry goes to the end.
    pub fn insert(&mut self, key: K, value: V)
        ensures
            final(self)@ == old(self)@.insert(key, value),
            final(self).keys() == if old(self)@.contains_key(key) {
                old(self).keys()
            } else {
                old(self).keys().push(key)
            },
    {
        proof {
            use_type_invariant(&*self);
            self.lemma_listed();
        }
        let place = self.position(key);
        let ghost before = self.entries@;
        let mut entries: Vec<(K, V)> = Vec::new();
        std::mem::swap(&mut self.entries, &mut entries);
        match place {
            Some(i) => {
                entries.set(i, (key, value));
            },
            None => {
                entries.push((key, value));
            },
        }
        assert(distinct_keys(entries@));
        self.entries = entries;
        proof {
            self.lemma_listed();
            let after = self.entries@;
            assert forall|k: K| #[trigger]
                self@.contains_key(k) <==> old(self)@.insert(key, value).contains_key(k) by {
                if has_key(after, k) {
                    let j = index_of_key(after, k);
                    if k != key {
                        assert(before[j].0 == k);
                    }
                }
                if k != key && has_key(before, k) {
                    let j = index_of_key(before, k);
                    assert(after[j].0 == k);
                }
                if k == key {
                    let j = match place {
                        Some(i) => i as int,
                        None => before.len() as int,
                    };
                    assert(after[j].0 == k);
                }
            }
            assert forall|k: K| #[trigger] self@.contains_key(k) implies self@[k] == old(
                self,
            )@.insert(key, value)[k] by {
                let j = index_of_key(after, k);
                if k != key {
                    assert(before[j].0 == k);
                }
            }
            assert(self@ =~= old(self)@.insert(key, value));
            assert(self.keys() =~= if old(self)@.contains_key(key) {
                old(self).keys()
            } else {
                old(self).keys().push(key)
            });
        }
    }

    /// Replaces the value of the entry at `index`, which keeps its key and
    /// its place.
    pub fn set_value_at(&mut self, index: usize, value: V)
        requires
            index < old(self).keys().len(),
        ensures
            final(self)@ == old(self)@.insert(old(self).keys()[index as int], value),
            final(self).keys() == old(self).keys(),
    {
        let key = self.key_at(index);
        self.insert(key, value);
    }

    /// Takes the entry for `key` out of the map and hands back its value.
    /// The entries behind it move up by one place.
    pub fn remove(&mut self, key: K) -> (r: Option<V>)
        ensures
            final(self)@ == old(self)@.remove(key),
            match r {
                Some(v) => old(self)@.contains_key(key) && v == old(self)@[key],
                None => !old(self)@.contains_key(key),
            },
            final(self).keys() == if old(self)@.contains_key(key) {
                old(self).keys().remove(old(self).keys().index_of(key))
            } else {
                old(self).keys()
            },
    {
        proof {
            use_type_invariant(&*self);
            self.lemma_listed();
        }
        let place = self.position(key);
        match place {
            Some(i) => {
                let ghost before = self.entries@;
                let mut entries: Vec<(K, V)> = Vec::new();
                std::mem::swap(&mut self.entries, &mut entries);
                let (_, value) = entries.remove(i);
                assert(distinct_keys(entries@)) by {
                    assert forall|a: int, b: int|
                        0 <= a < entries@.len() && 0 <= b < entries@.len() && a != b implies (
                    #[trigger] entries@[a]).0 != (#[trigger] entries@[b]).0 by {
                        let a0 = if a < i { a } else { a + 1 };
                        let b0 = if b < i { b } else { b + 1 };
                        assert(entries@[a] == before[a0]);
                        assert(entries@[b] == before[b0]);
                    }
                }
                self.entries = entries;
                proof {
                    self.lemma_listed();
                    let after = self.entries@;
                    assert forall|k: K| #[trigger]
                        self@.contains_key(k) <==> old(self)@.remove(key).contains_key(k) by {
                        if has_key(after, k) {
                            let j = index_of_key(after, k);
                            let j0 = if j < i { j } else { j + 1 };
                            assert(before[j0].0 == k);
                        }
                        if k != key && has_key(before, k) {
                            let j0 = index_of_key(before, k);
                            let j = if j0 < i { j0 } else { j0 - 1 };
                            assert(after[j].0 == k);
                        }
                    }
                    assert forall|k: K| #[trigger] self@.contains_key(k) implies self@[k]
                        == old(self)@.remove(key)[k] by {
                        let j = index_of_key(after, k);
                        let j0 = if j < i { j } else { j + 1 };
                        assert(before[j0].0 == k);
                    }
                    assert(self@ =~= old(self)@.remove(key));
                    let old_keys = old(self).keys();
                    assert(old_keys[i as int] == key);
                    assert(old_keys.index_of(key) == i);
                    assert(self.keys() =~= old_keys.remove(i as int));
                }
                Some(value)
            },
            None => {
                assert(self@ =~= old(self)@.remove(key));
                None
            },
        }
    }
}

} // verus!
