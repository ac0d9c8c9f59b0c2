//! A set of strings, and the set of subscriptions that were started and not yet answered.

use vstd::prelude::*;
use vstd::string::*;
use crate::strmap::StrMap;

verus! {

/// A finite set of strings that remembers the order in which they came in.
pub struct StrSet {
    ids: StrMap<()>,
}

/// Subscription ids for which a `start` frame went out and no answer has come back.
pub type PendingSet = StrSet;

impl View for StrSet {
    type V = Set<Seq<char>>;

    closed spec fn view(&self) -> Set<Seq<char>> {
        self.ids.dom()
    }
}

impl StrSet {
    /// No id is held twice.
    pub closed spec fn wf(&self) -> bool {
        self.ids.wf()
    }

    /// A well-formed set is finite.
    pub proof fn lemma_finite(&self)
        requires
            self.wf(),
        ensures
            self@.finite(),
    {
        self.ids.lemma_len_is_dom_len();
    }

    /// The empty set.
    pub fn new() -> (set: Self)
        ensures
            set.wf(),
            set@ == Set::<Seq<char>>::empty(),
            set.members() == Seq::<Seq<char>>::empty(),
    {
        let ids = StrMap::new();
        assert(ids.dom() =~= Set::<Seq<char>>::empty());
        assert(ids.keys() =~= Seq::<Seq<char>>::empty());
        StrSet { ids }
    }

    /// The members in the order in which they came in.
    pub closed spec fn members(&self) -> Seq<Seq<char>> {
        self.ids.keys()
    }

    /// The members are exactly the elements of the set, each once.
    pub proof fn lemma_members(&self)
        requires
            self.wf(),
        ensures
            self.members().no_duplicates(),
            self.members().to_set() == self@,
    {
    }

    /// The members, in the order in which they came in.
    pub fn to_vec(&self) -> (list: Vec<String>)
        ensures
            crate::text::texts(list@) == self.members(),
    {
        let mut list: Vec<String> = Vec::new();
        let mut i: usize = 0;
        while i < self.ids.len()
            invariant
                i <= self.ids.entries().len(),
                crate::text::texts(list@) == self.ids.keys().subrange(0, i as int),
            decreases self.ids.entries().len() - i,
        {
            let ghost before = crate::text::texts(list@);
            list.push(String::from_str(self.ids.key_at(i)));
            assert(crate::text::texts(list@) =~= before.push(self.ids.keys()[i as int]));
            assert(crate::text::texts(list@) =~= self.ids.keys().subrange(0, i + 1));
            i = i + 1;
        }
        assert(self.ids.keys().subrange(0, self.ids.keys().len() as int) =~= self.ids.keys());
        list
    }

    /// The number of ids held.
    pub fn len(&self) -> (n: usize)
        requires
            self.wf(),
        ensures
            n == self@.len(),
            self@.finite(),
    {
        proof {
            self.ids.lemma_len_is_dom_len();
        }
        self.ids.len()
    }

    /// Whether `id` is held.
    pub fn contains(&self, id: &str) -> (held: bool)
        ensures
            held == self@.contains(id@),
    {
        self.ids.contains_key(id)
    }

    /// Adds `id`. Returns whether it was new.
    pub fn insert(&mut self, id: String) -> (added: bool)
        requires
            old(self).wf(),
        ensures
            final(self).wf(),
            final(self)@ == old(self)@.insert(id@),
            added == !old(self)@.contains(id@),
            final(self).members() == if added {
                old(self).members().push(id@)
            } else {
                old(self).members()
            },
    {
        self.ids.insert(id, ())
    }

    /// Takes `id` out; does nothing where it is absent. Returns whether it was held.
    pub fn remove(&mut self, id: &str) -> (removed: bool)
        requires
            old(self).wf(),
        ensures
            final(self).wf(),
            final(self)@ == old(self)@.remove(id@),
            removed == old(self)@.contains(id@),
            final(self).members() == if removed {
                old(self).members().remove(old(self).members().index_of(id@))
            } else {
                old(self).members()
            },
    {
        let ghost before = self.ids.keys();
        let removed = self.ids.remove(id);
        proof {
            if removed {
                assert(self.ids.keys() =~= before.remove(before.index_of(id@)));
            } else {
                assert(self.ids.keys() =~= before);
            }
        }
        removed
    }

    /// Forgets every id.
    pub fn clear(&mut self)
        ensures
            final(self).wf(),
            final(self)@ == Set::<Seq<char>>::empty(),
    {
        let ids = StrMap::new();
        assert(ids.dom() =~= Set::<Seq<char>>::empty());
        self.ids = ids;
    }
}

} // verus!
