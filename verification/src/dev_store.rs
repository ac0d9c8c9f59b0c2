//! A plain store of secrets for development, keyed by service and user name.

use vstd::prelude::*;
use vstd::string::*;
use vstd::slice::slice_to_vec;
use crate::strmap::StrMap;

verus! {

/// The secrets held, by key.
pub struct DevStore {
    secrets: StrMap<Vec<u8>>,
}

/// The name under which one secret is kept.
#[derive(Debug)]
pub struct DevEntry {
    service: String,
    username: String,
}

/// The error of asking for a secret that is not there.
pub open spec fn secret_not_found() -> Seq<char> {
    "Secret not found"@
}

/// The key of a service and a user name: the two joined by a colon.
pub open spec fn entry_key(service: Seq<char>, username: Seq<char>) -> Seq<char> {
    service + ":"@ + username
}

impl View for DevStore {
    type V = Map<Seq<char>, Seq<u8>>;

    closed spec fn view(&self) -> Map<Seq<char>, Seq<u8>> {
        Map::new(
            |k: Seq<char>| self.secrets.has(k),
            |k: Seq<char>| self.secrets.lookup(k).unwrap()@,
        )
    }
}

impl DevStore {
    /// No key is held twice.
    pub closed spec fn wf(&self) -> bool {
        self.secrets.wf()
    }

    /// A store without secrets.
    pub fn new() -> (store: Self)
        ensures
            store.wf(),
            store@ == Map::<Seq<char>, Seq<u8>>::empty(),
    {
        let store = DevStore { secrets: StrMap::new() };
        assert(store@ =~= Map::<Seq<char>, Seq<u8>>::empty());
        store
    }

    /// The keys under which secrets are held, each once.
    pub fn keys(&self) -> (keys: Vec<String>)
        requires
            self.wf(),
        ensures
            crate::text::texts(keys@).no_duplicates(),
            crate::text::texts(keys@).to_set() == self@.dom(),
    {
        let mut keys: Vec<String> = Vec::new();
        let mut i: usize = 0;
        while i < self.secrets.len()
            invariant
                i <= self.secrets.entries().len(),
                crate::text::texts(keys@) == self.secrets.keys().subrange(0, i as int),
            decreases self.secrets.entries().len() - i,
        {
            let ghost before = crate::text::texts(keys@);
            keys.push(String::from_str(self.secrets.key_at(i)));
            assert(crate::text::texts(keys@) =~= before.push(self.secrets.keys()[i as int]));
            assert(crate::text::texts(keys@) =~= self.secrets.keys().subrange(0, i + 1));
            i = i + 1;
        }
        assert(self.secrets.keys().subrange(0, self.secrets.keys().len() as int)
            =~= self.secrets.keys());
        assert(self@.dom() =~= self.secrets.dom());
        keys
    }

    /// The secret held under `key`.
    pub fn get(&self, key: &str) -> (secret: Option<Vec<u8>>)
        requires
            self.wf(),
        ensures
            match secret {
                Some(s) => self@.contains_key(key@) && s@ == self@[key@],
                None => !self@.contains_key(key@),
            },
    {
        match self.secrets.get(key) {
            Some(secret) => Some(secret.clone()),
            None => None,
        }
    }

    /// Holds `secret` under `key`, in place of any held there before.
    pub fn put(&mut self, key: String, secret: Vec<u8>)
        requires
            old(self).wf(),
        ensures
            final(self).wf(),
            final(self)@ == old(self)@.insert(key@, secret@),
    {
        let _ = self.secrets.insert(key, secret);
        proof {
            let after = self@;
            let wanted = old(self)@.insert(key@, secret@);
            assert forall|k: Seq<char>| after.dom().contains(k) <==> wanted.dom().contains(k) by {
                assert(self.secrets.dom().contains(k) <==> self.secrets.has(k));
                assert(old(self).secrets.dom().contains(k) <==> old(self).secrets.has(k));
            }
            assert(after.dom() =~= wanted.dom());
            assert forall|k: Seq<char>| after.dom().contains(k) implies after[k] == wanted[k] by {
                if k != key@ {
                    assert(old(self).secrets.dom().contains(k) <==> old(self).secrets.has(k));
                }
            }
            assert(after =~= wanted);
        }
    }

    /// Forgets the secret held under `key`, if there is one.
    pub fn forget(&mut self, key: &str)
        requires
            old(self).wf(),
        ensures
            final(self).wf(),
            final(self)@ == old(self)@.remove(key@),
    {
        let _ = self.secrets.remove(key);
        proof {
            let after = self@;
            let wanted = old(self)@.remove(key@);
            assert forall|k: Seq<char>| after.dom().contains(k) <==> wanted.dom().contains(k) by {
                assert(self.secrets.dom().contains(k) <==> self.secrets.has(k));
                assert(old(self).secrets.dom().contains(k) <==> old(self).secrets.has(k));
            }
            assert(after.dom() =~= wanted.dom());
            assert(after =~= wanted);
        }
    }

    /// The number of secrets held.
    pub fn len(&self) -> (n: usize)
        requires
            self.wf(),
        ensures
            n == self@.dom().len(),
    {
        proof {
            self.secrets.lemma_len_is_dom_len();
            assert(self@.dom() =~= self.secrets.dom());
        }
        self.secrets.len()
    }
}

impl DevEntry {
    /// The service this entry belongs to.
    pub closed spec fn service(&self) -> Seq<char> {
        self.service@
    }

    /// The user this entry belongs to.
    pub closed spec fn username(&self) -> Seq<char> {
        self.username@
    }

    /// The key under which this entry's secret is kept.
    pub open spec fn spec_key(&self) -> Seq<char> {
        entry_key(self.service(), self.username())
    }

    /// The entry for `username` at `service`.
    pub fn new(service: &str, username: &str) -> (entry: Self)
        ensures
            entry.service() == service@,
            entry.username() == username@,
    {
        DevEntry { service: String::from_str(service), username: String::from_str(username) }
    }

    /// The key under which this entry's secret is kept.
    pub fn key(&self) -> (key: String)
        ensures
            key@ == self.spec_key(),
    {
        self.service.clone().concat(":").concat(self.username.as_str())
    }

    /// The secret kept for this entry; an error where there is none.
    pub fn get_secret(&self, store: &DevStore) -> (result: Result<Vec<u8>, &'static str>)
        requires
            store.wf(),
        ensures
            match result {
                Ok(secret) => store@.contains_key(self.spec_key()) && secret@
                    == store@[self.spec_key()],
                Err(e) => !store@.contains_key(self.spec_key()) && e@ == secret_not_found(),
            },
    {
        let key = self.key();
        match store.get(key.as_str()) {
            Some(secret) => Ok(secret),
            None => Err("Secret not found"),
        }
    }

    /// Keeps `secret` for this entry, in place of any kept before.
    pub fn set_secret(&self, store: &mut DevStore, secret: &[u8])
        requires
            old(store).wf(),
        ensures
            final(store).wf(),
            final(store)@ == old(store)@.insert(self.spec_key(), secret@),
    {
        store.put(self.key(), slice_to_vec(secret));
    }

    /// Forgets the secret kept for this entry, if there is one.
    pub fn delete_secret(&self, store: &mut DevStore)
        requires
            old(store).wf(),
        ensures
            final(store).wf(),
            final(store)@ == old(store)@.remove(self.spec_key()),
    {
        let key = self.key();
        store.forget(key.as_str());
    }
}

} // verus!
