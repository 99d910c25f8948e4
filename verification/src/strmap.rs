//! A small map keyed by strings, viewed as a `Map<Seq<char>, V>`.

use vstd::prelude::*;
use crate::text::{chars_eq, chars_of};

verus! {

broadcast use vstd::set::group_set_axioms, vstd::map::group_map_axioms;

/// Entries with distinct keys, in insertion order.
pub struct StrMap<V: Copy> {
    entries: Vec<(String, V)>,
    model: Ghost<Map<Seq<char>, V>>,
}

impl<V: Copy> View for StrMap<V> {
    type V = Map<Seq<char>, V>;

    closed spec fn view(&self) -> Map<Seq<char>, V> {
        self.model@
    }
}

impl<V: Copy> StrMap<V> {
    #[verifier::type_invariant]
    closed spec fn well_formed(self) -> bool {
        &&& self.model@.dom().finite()
        &&& self.model@.dom().len() == self.entries@.len()
        &&& forall|i: int, j: int|
            0 <= i < j < self.entries@.len() ==> #[trigger] self.entries@[i].0@
                != #[trigger] self.entries@[j].0@
        &&& forall|i: int|
            0 <= i < self.entries@.len() ==> self.model@.contains_key(#[trigger] self.entries@[i].0@)
                && self.model@[self.entries@[i].0@] == self.entries@[i].1
        &&& forall|k: Seq<char>|
            #[trigger] self.model@.contains_key(k) ==> exists|i: int|
                0 <= i < self.entries@.len() && #[trigger] self.entries@[i].0@ == k
    }

    fn assemble(entries: Vec<(String, V)>, model: Ghost<Map<Seq<char>, V>>) -> (r: StrMap<V>)
        requires
            model@.dom().finite(),
            model@.dom().len() == entries@.len(),
            forall|i: int, j: int|
                0 <= i < j < entries@.len() ==> #[trigger] entries@[i].0@
                    != #[trigger] entries@[j].0@,
            forall|i: int|
                0 <= i < entries@.len() ==> model@.contains_key(#[trigger] entries@[i].0@)
                    && model@[entries@[i].0@] == entries@[i].1,
            forall|k: Seq<char>|
                #[trigger] model@.contains_key(k) ==> exists|i: int|
                    0 <= i < entries@.len() && #[trigger] entries@[i].0@ == k,
        ensures
            r@ == model@,
    {
        StrMap { entries, model }
    }

    /// An empty map.
    pub fn new() -> (r: StrMap<V>)
        ensures
            r@ == Map::<Seq<char>, V>::empty(),
    {
        StrMap { entries: Vec::new(), model: Ghost(Map::empty()) }
    }

    /// The number of keys.
    pub fn len(&self) -> (r: usize)
        ensures
            r == self@.dom().len(),
            self@.dom().finite(),
    {
        proof {
            use_type_invariant(self);
        }
        self.entries.len()
    }

    fn index_of(&self, key: &[char]) -> (r: Option<usize>)
        ensures
            r matches Some(i) ==> i < self.entries@.len() && self.entries@[i as int].0@ == key@,
            r is None ==> !self@.contains_key(key@),
    {
        proof {
            use_type_invariant(self);
        }
        let mut j: usize = 0;
        while j < self.entries.len()
            invariant
                self.well_formed(),
                j <= self.entries@.len(),
                forall|a: int| 0 <= a < j ==> self.entries@[a].0@ != key@,
            decreases self.entries@.len() - j,
        {
            let k = chars_of(self.entries[j].0.as_str());
            if chars_eq(k.as_slice(), key) {
                return Some(j);
            }
            j += 1;
        }
        None
    }

    /// The value stored under `key`.
    pub fn get(&self, key: &[char]) -> (r: Option<V>)
        ensures
            r == if self@.contains_key(key@) {
                Some(self@[key@])
            } else {
                None
            },
    {
        proof {
            use_type_invariant(self);
        }
        match self.index_of(key) {
            Some(i) => Some(self.entries[i].1),
            None => None,
        }
    }

    /// Stores `value` under `key`; returns the value it replaces.
    pub fn insert(&mut self, key: String, value: V) -> (r: Option<V>)
        ensures
            final(self)@ == old(self)@.insert(key@, value),
            r == if old(self)@.contains_key(key@) {
                Some(old(self)@[key@])
            } else {
                None
            },
    {
        proof {
            use_type_invariant(&*self);
        }
        let kc = chars_of(key.as_str());
        let found = self.index_of(kc.as_slice());
        let ghost prev_model = self.model@;
        let ghost prev_entries = self.entries@;
        let new_model = Ghost(self.model@.insert(key@, value));
        let mut this = StrMap::new();
        std::mem::swap(&mut this, self);
        let StrMap { entries: mut entries, model: _ } = this;
        let r = match found {
            Some(i) => {
                let old_value = entries[i].1;
                assert(new_model@.dom() =~= prev_model.dom());
                entries.set(i, (key, value));
                Some(old_value)
            },
            None => {
                entries.push((key, value));
                None
            },
        };
        proof {
            assert forall|a: int, b: int|
                0 <= a < b < entries@.len() implies #[trigger] entries@[a].0@
                != #[trigger] entries@[b].0@ by {
                if b < prev_entries.len() {
                    assert(entries@[b].0@ == prev_entries[b].0@ || b == found.unwrap());
                    if a < prev_entries.len() {
                        assert(entries@[a].0@ == prev_entries[a].0@ || a == found.unwrap());
                    }
                } else {
                    assert(found is None);
                    assert(prev_model.contains_key(prev_entries[a].0@));
                }
            }
            assert forall|a: int| 0 <= a < entries@.len() implies new_model@.contains_key(
                #[trigger] entries@[a].0@,
            ) && new_model@[entries@[a].0@] == entries@[a].1 by {
                if a < prev_entries.len() && (found is None || a != found.unwrap()) {
                    assert(entries@[a] == prev_entries[a]);
                    assert(prev_model.contains_key(prev_entries[a].0@));
                }
            }
            if found is None {
                assert(new_model@.dom() =~= prev_model.dom().insert(kc@));
            }
            assert forall|k: Seq<char>| #[trigger] new_model@.contains_key(k) implies exists|i: int|
                0 <= i < entries@.len() && #[trigger] entries@[i].0@ == k by {
                if k == kc@ {
                    match found {
                        Some(f) => assert(entries@[f as int].0@ == k),
                        None => assert(entries@[entries@.len() - 1].0@ == k),
                    }
                } else {
                    assert(prev_model.contains_key(k));
                    let a = choose|a: int|
                        0 <= a < prev_entries.len() && #[trigger] prev_entries[a].0@ == k;
                    assert(entries@[a].0@ == k);
                }
            }
        }
        *self = StrMap { entries, model: new_model };
        r
    }

    /// Removes `key`; returns the value it held.
    #[verifier::spinoff_prover]
    pub fn remove(&mut self, key: &[char]) -> (r: Option<V>)
        ensures
            final(self)@ == old(self)@.remove(key@),
            r == if old(self)@.contains_key(key@) {
                Some(old(self)@[key@])
            } else {
                None
            },
    {
        proof {
            use_type_invariant(&*self);
        }
        match self.index_of(key) {
            None => {
                assert(self@.remove(key@) =~= self@);
                None
            },
            Some(i) => {
                let ghost prev_model = self.model@;
                let ghost prev_entries = self.entries@;
                let new_model = Ghost(self.model@.remove(key@));
                let mut this = StrMap::new();
                std::mem::swap(&mut this, self);
                let StrMap { entries: mut entries, model: _ } = this;
                let (_, value) = entries.remove(i);
                proof {
                    assert(prev_model.dom().remove(key@).len() == prev_model.dom().len() - 1);
                    assert(new_model@.dom() =~= prev_model.dom().remove(key@));
                    assert forall|a: int, b: int|
                        0 <= a < b < entries@.len() implies #[trigger] entries@[a].0@
                        != #[trigger] entries@[b].0@ by {
                        let a0 = if a < i { a } else { a + 1 };
                        let b0 = if b < i { b } else { b + 1 };
                        assert(entries@[a] == prev_entries[a0]);
                        assert(entries@[b] == prev_entries[b0]);
                    }
                    assert forall|a: int| 0 <= a < entries@.len() implies new_model@.contains_key(
                        #[trigger] entries@[a].0@,
                    ) && new_model@[entries@[a].0@] == entries@[a].1 by {
                        let a0 = if a < i { a } else { a + 1 };
                        assert(entries@[a] == prev_entries[a0]);
                    }
                    assert forall|k: Seq<char>| #[trigger] new_model@.contains_key(k) implies exists|
                        a: int,
                    | 0 <= a < entries@.len() && #[trigger] entries@[a].0@ == k by {
                        let a0 = choose|a0: int|
                            0 <= a0 < prev_entries.len() && #[trigger] prev_entries[a0].0@ == k;
                        assert(a0 != i);
                        let a = if a0 < i { a0 } else { a0 - 1 };
                        assert(entries@[a] == prev_entries[a0]);
                    }
                    assert(prev_model.contains_key(key@));
                    assert(new_model@.dom().finite());
                    assert(new_model@.dom().len() == entries@.len());
                }
                *self = Self::assemble(entries, new_model);
                Some(value)
            },
        }
    }

    /// Removes every key.
    pub fn clear(&mut self)
        ensures
            final(self)@ == Map::<Seq<char>, V>::empty(),
    {
        *self = StrMap::new();
    }

    /// A copy of the map.
    pub fn copy(&self) -> (r: StrMap<V>)
        ensures
            r@ == self@,
    {
        proof {
            use_type_invariant(self);
        }
        let mut entries: Vec<(String, V)> = Vec::new();
        let mut i: usize = 0;
        while i < self.entries.len()
            invariant
                i <= self.entries@.len(),
                entries@.len() == i,
                forall|k: int| 0 <= k < i ==> #[trigger] entries@[k].0@ == self.entries@[k].0@
                    && entries@[k].1 == self.entries@[k].1,
            decreases self.entries@.len() - i,
        {
            let key = self.entries[i].0.clone();
            let value = self.entries[i].1;
            entries.push((key, value));
            i += 1;
        }
        proof {
            assert forall|k: Seq<char>| #[trigger] self.model@.contains_key(k) implies exists|i: int|
                0 <= i < entries@.len() && #[trigger] entries@[i].0@ == k by {
                let i = choose|i: int| 0 <= i < self.entries@.len() && #[trigger] self.entries@[i].0@ == k;
                assert(entries@[i].0@ == k);
            }
            assert forall|a: int, b: int| 0 <= a < b < entries@.len() implies #[trigger] entries@[a].0@
                != #[trigger] entries@[b].0@ by {
                assert(self.entries@[a].0@ != self.entries@[b].0@);
            }
        }
        Self::assemble(entries, Ghost(self.model@))
    }
}

} // verus!
