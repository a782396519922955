//! A map from string keys to values that remembers insertion order.
//!
//! The entries are kept in a list in which no key occurs twice. Walking the
//! list therefore visits every key once, in the order of first insertion,
//! which makes everything built on top of it reproducible: a hash map is
//! walked in an order that differs from run to run. A hash map beside the
//! list says where each key stands, so that a key is found without a walk.

use vstd::prelude::*;
use vstd::hash_map::StringHashMap;
use crate::text::string_views;

verus! {

/// An insertion-ordered map keyed by strings.
pub struct KeyedList<V> {
    keys: Vec<String>,
    values: Vec<V>,
    /// Where each key stands in the list.
    index: StringHashMap<usize>,
}

impl<V> KeyedList<V> {
    /// The keys, in insertion order.
    pub closed spec fn keys(&self) -> Seq<Seq<char>> {
        string_views(self.keys@)
    }

    /// The values, aligned with [`Self::keys`].
    pub closed spec fn values(&self) -> Seq<V> {
        self.values@
    }

    /// The index knows the keys of the list and no others, each with its
    /// place.
    pub closed spec fn indexed(&self) -> bool {
        &&& self.index@.dom() == self.keys().to_set()
        &&& forall|i: int|
            0 <= i < self.keys().len() ==> self.index@[#[trigger] self.keys()[i]] == i
    }

    /// One value per key, no key twice, and every key in the index.
    pub open spec fn wf(&self) -> bool {
        &&& self.keys().len() == self.values().len()
        &&& self.keys().no_duplicates()
        &&& self.indexed()
    }

    /// The list as a mathematical map.
    pub open spec fn view(&self) -> Map<Seq<char>, V> {
        Map::new(
            |k: Seq<char>| self.keys().contains(k),
            |k: Seq<char>| self.values()[self.keys().index_of(k)],
        )
    }

    /// In a well-formed list the entry at index `i` is what the map holds
    /// for the key at index `i`.
    pub proof fn lemma_entry(&self, i: int)
        requires
            self.wf(),
            0 <= i < self.keys().len(),
        ensures
            self@.dom().contains(self.keys()[i]),
            self@[self.keys()[i]] == self.values()[i],
            self.keys().index_of(self.keys()[i]) == i,
    {
        let k = self.keys()[i];
        assert(self.keys().contains(k));
        let j = self.keys().index_of(k);
        assert(0 <= j < self.keys().len() && self.keys()[j] == k);
    }

    /// The map's domain is finite: it has the list's keys.
    pub proof fn lemma_dom(&self)
        ensures
            self@.dom() == self.keys().to_set(),
            self@.dom().finite(),
    {
        assert(self@.dom() =~= self.keys().to_set());
        vstd::seq_lib::seq_to_set_is_finite(self.keys());
    }

    /// An empty list.
    pub fn new() -> (r: Self)
        ensures
            r.wf(),
            r.keys() == Seq::<Seq<char>>::empty(),
            r.values() == Seq::<V>::empty(),
            r@ == Map::<Seq<char>, V>::empty(),
    {
        let r = KeyedList { keys: Vec::new(), values: Vec::new(), index: StringHashMap::new() };
        assert(r.keys() == Seq::<Seq<char>>::empty());
        assert(r.index@.dom() =~= r.keys().to_set());
        assert(r@ == Map::<Seq<char>, V>::empty());
        r
    }

    /// The number of entries.
    pub fn len(&self) -> (n: usize)
        requires
            self.wf(),
        ensures
            n == self.keys().len(),
    {
        self.keys.len()
    }

    /// The key at index `i`.
    pub fn key(&self, i: usize) -> (k: &String)
        requires
            self.wf(),
            i < self.keys().len(),
        ensures
            k@ == self.keys()[i as int],
    {
        &self.keys[i]
    }

    /// The value at index `i`.
    pub fn value(&self, i: usize) -> (v: &V)
        requires
            self.wf(),
            i < self.keys().len(),
        ensures
            *v == self.values()[i as int],
    {
        &self.values[i]
    }

    /// The index of `key`, if the list holds it.
    pub fn find(&self, key: &String) -> (r: Option<usize>)
        requires
            self.wf(),
        ensures
            match r {
                Some(i) => i < self.keys().len() && self.keys()[i as int] == key@,
                None => !self.keys().contains(key@),
            },
            r is Some <==> self@.dom().contains(key@),
    {
        match self.index.get(key.as_str()) {
            Some(at) => {
                proof {
                    assert(self.keys().to_set().contains(key@));
                    let j = choose|j: int| 0 <= j < self.keys().len() && self.keys()[j] == key@;
                    assert(self.index@[self.keys()[j]] == j);
                }
                Some(*at)
            },
            None => {
                proof {
                    if self.keys().contains(key@) {
                        assert(self.keys().to_set().contains(key@));
                    }
                }
                None
            },
        }
    }

    /// The value stored for `key`, if any.
    pub fn get(&self, key: &String) -> (r: Option<&V>)
        requires
            self.wf(),
        ensures
            match r {
                Some(v) => self@.dom().contains(key@) && *v == self@[key@],
                None => !self@.dom().contains(key@),
            },
    {
        match self.find(key) {
            Some(i) => {
                proof {
                    self.lemma_entry(i as int);
                }
                Some(&self.values[i])
            },
            None => None,
        }
    }

    /// Replaces the value at index `i`, keeping its key.
    pub fn set_value(&mut self, i: usize, value: V)
        requires
            old(self).wf(),
            i < old(self).keys().len(),
        ensures
            final(self).wf(),
            final(self).keys() == old(self).keys(),
            final(self).values() == old(self).values().update(i as int, value),
            final(self)@ == old(self)@.insert(old(self).keys()[i as int], value),
    {
        let ghost before = *self;
        self.values.set(i, value);
        proof {
            assert(self.keys() == before.keys());
            assert(self.indexed());
            assert forall|k: Seq<char>| self@.dom().contains(k) implies #[trigger] self@[k]
                == before@.insert(before.keys()[i as int], value)[k] by {
                let j = self.keys().index_of(k);
                before.lemma_entry(j);
                before.lemma_entry(i as int);
            }
            assert(self@ =~= before@.insert(before.keys()[i as int], value));
        }
    }

    /// Stores `value` under `key`. A key that is already present keeps its
    /// place in the order and gets the new value; a new key goes to the end.
    pub fn insert(&mut self, key: String, value: V)
        requires
            old(self).wf(),
        ensures
            final(self).wf(),
            final(self)@ == old(self)@.insert(key@, value),
            old(self)@.dom().contains(key@) ==> {
                &&& final(self).keys() == old(self).keys()
                &&& final(self).values() == old(self).values().update(
                    old(self).keys().index_of(key@),
                    value,
                )
            },
            !old(self)@.dom().contains(key@) ==> {
                &&& final(self).keys() == old(self).keys().push(key@)
                &&& final(self).values() == old(self).values().push(value)
            },
    {
        let ghost before = *self;
        match self.find(&key) {
            Some(i) => {
                proof {
                    before.lemma_entry(i as int);
                }
                self.set_value(i, value);
            },
            None => {
                let at = self.keys.len();
                self.index.insert(key.clone(), at);
                self.keys.push(key);
                self.values.push(value);
                proof {
                    assert(self.keys() == before.keys().push(key@));
                    let n = before.keys().len() as int;
                    assert forall|k: Seq<char>| self.index@.dom().contains(k)
                        == self.keys().to_set().contains(k) by {
                        if k == key@ {
                            assert(self.keys()[n] == k);
                        } else if before.keys().contains(k) {
                            let j = before.keys().index_of(k);
                            assert(self.keys()[j] == k);
                        } else if self.keys().contains(k) {
                            let j = self.keys().index_of(k);
                            assert(before.keys()[j] == k);
                        }
                    }
                    assert(self.index@.dom() =~= self.keys().to_set());
                    assert forall|i: int| 0 <= i < self.keys().len() implies self.index@[(
                    #[trigger] self.keys()[i])] == i by {
                        if i < n {
                            assert(before.keys()[i] == self.keys()[i]);
                            assert(before.keys().contains(self.keys()[i]));
                        }
                    }
                    assert(self.indexed());
                    assert forall|k: Seq<char>| self@.dom().contains(k) implies #[trigger] self@[k]
                        == before@.insert(key@, value)[k] by {
                        let j = self.keys().index_of(k);
                        self.lemma_entry(j);
                        if j < n {
                            before.lemma_entry(j);
                        }
                    }
                    assert forall|k: Seq<char>| before@.insert(key@, value).dom().contains(
                        k,
                    ) implies self@.dom().contains(k) by {
                        if k == key@ {
                            assert(self.keys()[n] == k);
                        } else {
                            let j = before.keys().index_of(k);
                            assert(self.keys()[j] == k);
                        }
                    }
                    assert(self@ =~= before@.insert(key@, value));
                }
            },
        }
    }
}

} // verus!
