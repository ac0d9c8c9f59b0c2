//! A small map keyed by strings that keeps its entries in insertion order.

use vstd::prelude::*;
use crate::text::str_eq;

verus! {

/// One key with its value.
pub struct Entry<V> {
    pub key: String,
    pub value: V,
}

/// A map from strings to `V`. No key occurs twice; entries stay in the order in which
/// their keys first came in.
pub struct StrMap<V> {
    entries: Vec<Entry<V>>,
}

/// The keys of a sequence of entries, in order.
pub open spec fn keys_of<V>(entries: Seq<Entry<V>>) -> Seq<Seq<char>> {
    entries.map_values(|e: Entry<V>| e.key@)
}

impl<V> StrMap<V> {
    /// The entries, in order.
    pub closed spec fn entries(&self) -> Seq<Entry<V>> {
        self.entries@
    }

    /// The keys, in order.
    pub open spec fn keys(&self) -> Seq<Seq<char>> {
        keys_of(self.entries())
    }

    /// No key occurs twice.
    pub open spec fn wf(&self) -> bool {
        self.keys().no_duplicates()
    }

    /// The set of keys.
    pub open spec fn dom(&self) -> Set<Seq<char>> {
        self.keys().to_set()
    }

    /// Whether `key` is present.
    pub open spec fn has(&self, key: Seq<char>) -> bool {
        self.keys().contains(key)
    }

    /// The value stored under `key`.
    pub open spec fn lookup(&self, key: Seq<char>) -> Option<V> {
        if self.has(key) {
            Some(self.entries()[self.keys().index_of(key)].value)
        } else {
            None
        }
    }

    /// In a well-formed map the number of entries is the number of distinct keys.
    pub proof fn lemma_len_is_dom_len(&self)
        requires
            self.wf(),
        ensures
            self.dom().finite(),
            self.dom().len() == self.entries().len(),
    {
        self.keys().unique_seq_to_set();
        vstd::seq_lib::seq_to_set_is_finite(self.keys());
    }

    /// In a well-formed map the entry at `i` is the one its key looks up.
    pub proof fn lemma_lookup_at(&self, i: int)
        requires
            self.wf(),
            0 <= i < self.entries().len(),
        ensures
            self.has(self.entries()[i].key@),
            self.keys().index_of(self.entries()[i].key@) == i,
            self.lookup(self.entries()[i].key@) == Some(self.entries()[i].value),
    {
        let key = self.entries()[i].key@;
        assert(self.keys()[i] == key);
        let j = self.keys().index_of(key);
        assert(self.keys()[j] == key);
    }

    /// An empty map.
    pub fn new() -> (map: Self)
        ensures
            map.wf(),
            map.entries() == Seq::<Entry<V>>::empty(),
    {
        StrMap { entries: Vec::new() }
    }

    /// The number of entries.
    pub fn len(&self) -> (n: usize)
        ensures
            n == self.entries().len(),
    {
        self.entries.len()
    }

    /// Whether the map has no entries.
    pub fn is_empty(&self) -> (empty: bool)
        ensures
            empty == (self.entries().len() == 0),
    {
        self.entries.len() == 0
    }

    /// The key of the entry at `i`.
    pub fn key_at(&self, i: usize) -> (key: &str)
        requires
            i < self.entries().len(),
        ensures
            key@ == self.entries()[i as int].key@,
    {
        self.entries[i].key.as_str()
    }

    /// The value of the entry at `i`.
    pub fn value_at(&self, i: usize) -> (value: &V)
        requires
            i < self.entries().len(),
        ensures
            *value == self.entries()[i as int].value,
    {
        &self.entries[i].value
    }

    /// Where `key` sits among the entries.
    fn position(&self, key: &str) -> (at: Option<usize>)
        ensures
            match at {
                Some(i) => i < self.entries().len() && self.keys()[i as int] == key@,
                None => !self.has(key@),
            },
    {
        let mut i: usize = 0;
        while i < self.entries.len()
            invariant
                i <= self.entries.len(),
                forall|k: int| 0 <= k < i ==> self.keys()[k] != key@,
            decreases self.entries.len() - i,
        {
            if str_eq(self.entries[i].key.as_str(), key) {
                return Some(i);
            }
            i = i + 1;
        }
        None
    }

    /// Whether `key` is present.
    pub fn contains_key(&self, key: &str) -> (present: bool)
        ensures
            present == self.has(key@),
    {
        self.position(key).is_some()
    }

    /// The value stored under `key`.
    pub fn get(&self, key: &str) -> (found: Option<&V>)
        requires
            self.wf(),
        ensures
            match found {
                Some(v) => self.lookup(key@) == Some(*v),
                None => self.lookup(key@) is None,
            },
    {
        match self.position(key) {
            Some(i) => {
                proof {
                    self.lemma_lookup_at(i as int);
                }
                Some(&self.entries[i].value)
            },
            None => None,
        }
    }

    /// Stores `value` under `key`. A key already present keeps its place and gets the
    /// new value; a new key goes to the end. Returns whether the key was new.
    pub fn insert(&mut self, key: String, value: V) -> (added: bool)
        requires
            old(self).wf(),
        ensures
            final(self).wf(),
            added == !old(self).has(key@),
            added ==> final(self).entries() == old(self).entries().push(Entry { key, value }),
            !added ==> final(self).entries() == old(self).entries().update(
                old(self).keys().index_of(key@),
                Entry { key, value },
            ),
            final(self).keys() == if added {
                old(self).keys().push(key@)
            } else {
                old(self).keys()
            },
            final(self).lookup(key@) == Some(value),
            forall|k: Seq<char>| k != key@ ==> final(self).lookup(k) == old(self).lookup(k),
            final(self).dom() == old(self).dom().insert(key@),
    {
        let ghost before = self.entries();
        let ghost before_keys = self.keys();
        match self.position(key.as_str()) {
            Some(i) => {
                proof {
                    self.lemma_lookup_at(i as int);
                }
                self.entries[i] = Entry { key, value };
                proof {
                    assert(self.keys() =~= before_keys);
                    assert(before_keys[i as int] == key@);
                    assert(self.dom() =~= old(self).dom().insert(key@));
                    assert forall|k: Seq<char>| k != key@ implies self.lookup(k) == old(self).lookup(
                        k,
                    ) by {
                        if before_keys.contains(k) {
                            let j = before_keys.index_of(k);
                            assert(before_keys[j] == k);
                            assert(j != i);
                        }
                    }
                }
                false
            },
            None => {
                self.entries.push(Entry { key, value });
                proof {
                    assert(self.keys() =~= before_keys.push(key@));
                    assert(self.keys().no_duplicates());
                    before_keys.lemma_push_to_set_commute(key@);
                    let n = before.len() as int;
                    self.lemma_lookup_at(n);
                    assert forall|k: Seq<char>| k != key@ implies self.lookup(k) == old(self).lookup(
                        k,
                    ) by {
                        if before_keys.contains(k) {
                            let j = before_keys.index_of(k);
                            assert(before_keys[j] == k);
                            assert(self.keys()[j] == k);
                            self.lemma_lookup_at(j);
                        } else {
                            if self.keys().contains(k) {
                                let j = self.keys().index_of(k);
                                assert(self.keys()[j] == k);
                                assert(j < n);
                                assert(before_keys[j] == k);
                            }
                        }
                    }
                }
                true
            },
        }
    }

    /// Takes `key` out. The other entries keep their order. Returns whether it was there.
    pub fn remove(&mut self, key: &str) -> (removed: bool)
        requires
            old(self).wf(),
        ensures
            final(self).wf(),
            removed == old(self).has(key@),
            removed ==> final(self).entries() == old(self).entries().remove(
                old(self).keys().index_of(key@),
            ),
            !removed ==> final(self).entries() == old(self).entries(),
            !final(self).has(key@),
            forall|k: Seq<char>| k != key@ ==> final(self).lookup(k) == old(self).lookup(k),
            final(self).dom() == old(self).dom().remove(key@),
    {
        let ghost before = self.entries();
        let ghost before_keys = self.keys();
        match self.position(key) {
            Some(i) => {
                proof {
                    self.lemma_lookup_at(i as int);
                }
                let _ = self.entries.remove(i);
                proof {
                    assert(self.keys() =~= before_keys.remove(i as int));
                    assert(self.keys().no_duplicates());
                    assert(!self.keys().contains(key@)) by {
                        if self.keys().contains(key@) {
                            let j = self.keys().index_of(key@);
                            assert(self.keys()[j] == key@);
                            if j < i {
                                assert(before_keys[j] == key@);
                            } else {
                                assert(before_keys[j + 1] == key@);
                            }
                        }
                    }
                    assert forall|k: Seq<char>| k != key@ implies self.lookup(k) == old(self).lookup(
                        k,
                    ) by {
                        if before_keys.contains(k) {
                            let j = before_keys.index_of(k);
                            assert(before_keys[j] == k);
                            assert(j != i);
                            let j2 = if j < i {
                                j
                            } else {
                                j - 1
                            };
                            assert(self.keys()[j2] == k);
                            self.lemma_lookup_at(j2);
                        } else {
                            if self.keys().contains(k) {
                                let j = self.keys().index_of(k);
                                assert(self.keys()[j] == k);
                                if j < i {
                                    assert(before_keys[j] == k);
                                } else {
                                    assert(before_keys[j + 1] == k);
                                }
                            }
                        }
                    }
                    assert(self.dom() =~= old(self).dom().remove(key@)) by {
                        assert forall|k: Seq<char>| self.dom().contains(k) <==> old(
                            self,
                        ).dom().remove(key@).contains(k) by {
                            if self.keys().contains(k) {
                                let j = self.keys().index_of(k);
                                assert(self.keys()[j] == k);
                                if j < i {
                                    assert(before_keys[j] == k);
                                } else {
                                    assert(before_keys[j + 1] == k);
                                }
                            }
                            if before_keys.contains(k) && k != key@ {
                                let j = before_keys.index_of(k);
                                assert(before_keys[j] == k);
                                let j2 = if j < i {
                                    j
                                } else {
                                    j - 1
                                };
                                assert(self.keys()[j2] == k);
                            }
                        }
                    }
                }
                true
            },
            None => {
                proof {
                    assert(self.dom() =~= old(self).dom().remove(key@));
                }
                false
            },
        }
    }
}

} // verus!
