//! A map from copyable keys to values, kept as a vector of entries in the
//! order in which the keys came first.
use crate::primitives::Key;
use vstd::prelude::*;

verus! {

/// A finite map. No key occurs in two entries.
#[verifier::reject_recursive_types(K)]
pub struct Table<K: Key, V> {
    entries: Vec<(K, V)>,
}

impl<K: Key, V> Table<K, V> {
    /// The position of the entry with `key`.
    spec fn position(self, key: K) -> int {
        choose|i: int| 0 <= i < self.entries@.len() && self.entries@[i].0 == key
    }

    spec fn has(self, key: K) -> bool {
        exists|i: int| 0 <= i < self.entries@.len() && self.entries@[i].0 == key
    }

    /// No key occurs twice.
    pub closed spec fn wf(self) -> bool {
        forall|i: int, j: int|
            0 <= i < self.entries@.len() && 0 <= j < self.entries@.len() && self.entries@[i].0
                == self.entries@[j].0 ==> i == j
    }

    pub closed spec fn map(self) -> Map<K, V> {
        Map::new(|key: K| self.has(key), |key: K| self.entries@[self.position(key)].1)
    }
}

impl<K: Key, V> View for Table<K, V> {
    type V = Map<K, V>;

    open spec fn view(&self) -> Map<K, V> {
        self.map()
    }
}

impl<K: Key, V> Table<K, V> {
    proof fn lemma_entry(self, i: int)
        requires
            self.wf(),
            0 <= i < self.entries@.len(),
        ensures
            self@.contains_key(self.entries@[i].0),
            self@[self.entries@[i].0] == self.entries@[i].1,
            self.position(self.entries@[i].0) == i,
    {
    }

    /// Changing the value of one entry changes the map at that key alone.
    proof fn lemma_changed(self, other: Self, i: int)
        requires
            self.wf(),
            0 <= i < self.entries@.len(),
            other.entries@ == self.entries@.update(i, (self.entries@[i].0, other.entries@[i].1)),
        ensures
            other.wf(),
            other@ == self@.insert(self.entries@[i].0, other.entries@[i].1),
    {
        assert forall|j: int| 0 <= j < self.entries@.len() implies #[trigger] other.entries@[j].0
            == self.entries@[j].0 by {}
        assert(other.wf());
        let changed = self@.insert(self.entries@[i].0, other.entries@[i].1);
        assert forall|key: K| other@.contains_key(key) == changed.contains_key(key) by {
            if other@.contains_key(key) {
                assert(self.entries@[other.position(key)].0 == key);
            }
            if self@.contains_key(key) {
                assert(other.entries@[self.position(key)].0 == key);
            }
            if key == self.entries@[i].0 {
                assert(other.entries@[i].0 == key);
            }
        }
        assert forall|key: K| other@.contains_key(key) implies other@[key] == changed[key] by {
            let j = other.position(key);
            self.lemma_entry(j);
            assert(self.entries@[j].0 == key);
        }
        assert(other@ =~= changed);
    }

    /// A table without entries.
    pub fn new() -> (r: Self)
        ensures
            r.wf(),
            r@ == Map::<K, V>::empty(),
    {
        let r = Table { entries: Vec::new() };
        assert(r@ =~= Map::<K, V>::empty());
        r
    }

    fn find(&self, key: &K) -> (r: Option<usize>)
        requires
            self.wf(),
        ensures
            match r {
                Some(i) => i < self.entries@.len() && self.entries@[i as int].0 == *key,
                None => !self@.contains_key(*key),
            },
    {
        let mut i: usize = 0;
        while i < self.entries.len()
            invariant
                i <= self.entries@.len(),
                forall|j: int| 0 <= j < i ==> self.entries@[j].0 != *key,
            decreases self.entries@.len() - i,
        {
            if self.entries[i].0.same(key) {
                return Some(i);
            }
            i = i + 1;
        }
        None
    }

    /// Whether `key` has an entry.
    pub fn contains_key(&self, key: &K) -> (r: bool)
        requires
            self.wf(),
        ensures
            r == self@.contains_key(*key),
    {
        match self.find(key) {
            Some(i) => {
                proof {
                    self.lemma_entry(i as int);
                }
                true
            },
            None => false,
        }
    }

    /// The value of `key`.
    pub fn get(&self, key: &K) -> (r: Option<&V>)
        requires
            self.wf(),
        ensures
            match r {
                Some(value) => self@.contains_key(*key) && self@[*key] == *value,
                None => !self@.contains_key(*key),
            },
    {
        match self.find(key) {
            Some(i) => {
                proof {
                    self.lemma_entry(i as int);
                }
                Some(&self.entries[i].1)
            },
            None => None,
        }
    }

    /// A mutable reference to the value of `key`, which must have one.
    pub fn at_mut(&mut self, key: &K) -> (r: &mut V)
        requires
            old(self).wf(),
            old(self)@.contains_key(*key),
        ensures
            *r == old(self)@[*key],
            final(self).wf(),
            final(self)@ == old(self)@.insert(*key, *final(r)),
    {
        let found = self.find(key);
        let i: usize = match found {
            Some(i) => i,
            None => 0,
        };
        proof {
            self.lemma_entry(i as int);
            assert forall|other: Self|
                other.entries@ == self.entries@.update(
                    i as int,
                    (*key, other.entries@[i as int].1),
                ) implies other.wf() && #[trigger] other.map() == self@.insert(
                *key,
                other.entries@[i as int].1,
            ) by {
                self.lemma_changed(other, i as int);
            }
        }
        &mut self.entries[i].1
    }

    /// Gives `key` the value `value`.
    pub fn insert(&mut self, key: K, value: V)
        requires
            old(self).wf(),
        ensures
            final(self).wf(),
            final(self)@ == old(self)@.insert(key, value),
    {
        match self.find(&key) {
            Some(i) => {
                self.entries.set(i, (key, value));
                proof {
                    old(self).lemma_changed(*self, i as int);
                }
            },
            None => {
                self.entries.push((key, value));
                proof {
                    let n = old(self).entries@.len() as int;
                    assert forall|j: int| 0 <= j < n implies #[trigger] self.entries@[j]
                        == old(self).entries@[j] && self.entries@[j].0 != key by {
                        old(self).lemma_entry(j);
                    }
                    let added = old(self)@.insert(key, value);
                    assert forall|k: K| self@.contains_key(k) == added.contains_key(k) by {
                        if old(self)@.contains_key(k) {
                            assert(self.entries@[old(self).position(k)].0 == k);
                        }
                        if self@.contains_key(k) && k != key {
                            assert(old(self).entries@[self.position(k)].0 == k);
                        }
                        assert(self.entries@[n].0 == key);
                    }
                    assert forall|k: K| self@.contains_key(k) implies self@[k] == added[k] by {
                        let j = self.position(k);
                        if j < n {
                            old(self).lemma_entry(j);
                        }
                    }
                    assert(self@ =~= added);
                }
            },
        }
    }

    /// Takes the entry of `key` out.
    pub fn remove(&mut self, key: &K)
        requires
            old(self).wf(),
        ensures
            final(self).wf(),
            final(self)@ == old(self)@.remove(*key),
    {
        match self.find(key) {
            Some(i) => {
                let _ = self.entries.remove(i);
                proof {
                    let before = old(self).entries@;
                    let after = self.entries@;
                    assert(after == before.remove(i as int));
                    assert forall|j: int| 0 <= j < after.len() implies #[trigger] after[j]
                        == before[if j < i { j } else { j + 1 }] by {}
                    assert(self.wf());
                    let left = old(self)@.remove(*key);
                    assert forall|k: K| self@.contains_key(k) == left.contains_key(k) by {
                        if self@.contains_key(k) {
                            let j = self.position(k);
                            assert(before[if j < i { j } else { j + 1 }].0 == k);
                        }
                        if left.contains_key(k) {
                            let j = old(self).position(k);
                            assert(after[if j < i { j } else { j - 1 }].0 == k);
                        }
                    }
                    assert forall|k: K| self@.contains_key(k) implies self@[k] == left[k] by {
                        let j = self.position(k);
                        old(self).lemma_entry(if j < i { j } else { j + 1 });
                    }
                    assert(self@ =~= left);
                }
            },
            None => {
                assert(old(self)@.remove(*key) =~= old(self)@);
            },
        }
    }
}

} // verus!
