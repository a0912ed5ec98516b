//! In-memory backends: a single-owner map that also serves as one shard's
//! state, and a lock-guarded shared handle over it.

use std::sync::Arc;

use vstd::prelude::*;
use vstd::rwlock::RwLock;

use crate::store::{
    blob_val, clone_entries, dict_val, keys_unique, lemma_dict_val_absent, lemma_dict_val_at,
    lemma_dict_val_push, lemma_dict_val_update, Blob, BlobVal, Store, StoreError,
};

verus! {

/// An incredibly simple in-memory store with a single owner: a flat entry
/// list with pairwise distinct keys. Not shareable across threads; it backs
/// one shard of the durable store and is the state snapshotted to disk.
pub struct MemoryStoreSingleThreaded {
    values: Vec<(String, Blob)>,
}

impl View for MemoryStoreSingleThreaded {
    type V = Map<Seq<char>, BlobVal>;

    closed spec fn view(&self) -> Map<Seq<char>, BlobVal> {
        dict_val(self.values@)
    }
}

impl MemoryStoreSingleThreaded {
    /// The entry list behind the map, abstractly.
    pub closed spec fn entries_spec(&self) -> Seq<(String, Blob)> {
        self.values@
    }

    /// The map is exactly the abstract value of the entry list.
    pub proof fn lemma_view_of_entries(&self)
        ensures
            self@ == dict_val(self.entries_spec()),
    {
    }

    /// An empty store.
    pub fn new() -> (r: Self)
        ensures
            r.inv(),
            r@ == Map::<Seq<char>, BlobVal>::empty(),
    {
        let r = MemoryStoreSingleThreaded { values: Vec::with_capacity(128) };
        proof {
            assert(r@ =~= Map::<Seq<char>, BlobVal>::empty());
        }
        r
    }

    /// Deep copy holding the same map, for the asynchronous policy's
    /// consumer-owned mirror.
    pub fn duplicate(&self) -> (r: Self)
        requires
            self.inv(),
        ensures
            r.inv(),
            r@ == self@,
    {
        MemoryStoreSingleThreaded { values: clone_entries(&self.values) }
    }

    /// The entry list behind the map, for snapshot encoding.
    pub fn entry_list(&self) -> (r: &Vec<(String, Blob)>)
        requires
            self.inv(),
        ensures
            r@ == self.entries_spec(),
            keys_unique(r@),
            dict_val(r@) == self@,
    {
        &self.values
    }

    /// Builds a store holding exactly the given entries; later entries
    /// overwrite earlier ones, as repeated `put` calls would.
    pub fn from_entries(entries: Vec<(String, Blob)>) -> (r: Self)
        ensures
            r.inv(),
            r@ == dict_val(entries@),
    {
        let ghost orig = entries@;
        let mut rest = entries;
        let mut r = MemoryStoreSingleThreaded::new();
        proof {
            assert(orig.take(0) =~= Seq::<(String, Blob)>::empty());
        }
        while rest.len() > 0
            invariant
                rest@.len() <= orig.len(),
                rest@ == orig.skip(orig.len() - rest@.len()),
                r.inv(),
                r@ == dict_val(orig.take(orig.len() - rest@.len())),
            decreases rest@.len(),
        {
            let ghost done = orig.len() - rest@.len();
            let (key, value) = rest.remove(0);
            proof {
                assert((key, value) == orig[done]);
                assert(rest@ =~= orig.skip(done + 1));
                assert(orig.take(done + 1).drop_last() =~= orig.take(done));
                assert(orig.take(done + 1).last() == orig[done]);
            }
            let _ = r.put(key.as_str(), value);
        }
        proof {
            assert(orig.take(orig.len() as int) =~= orig);
        }
        r
    }
}

impl Store for MemoryStoreSingleThreaded {
    /// The entry keys never repeat, so the entry list faithfully
    /// represents a map.
    closed spec fn inv(&self) -> bool {
        keys_unique(self.values@)
    }

    /// Returns the value stored under `key`, or `NotFound` if and only if
    /// the key has never been stored.
    fn get(&self, key: &str) -> (r: Result<Blob, StoreError>)
        ensures
            self@.contains_key(key@) ==> (r matches Ok(b) && b@ == self@[key@]),
            !self@.contains_key(key@) ==> r == Err::<Blob, StoreError>(StoreError::NotFound),
    {
        let k: String = key.to_owned();
        let n = self.values.len();
        let mut i: usize = 0;
        while i < n
            invariant
                n == self.values@.len(),
                i <= n,
                k@ == key@,
                keys_unique(self.values@),
                forall|j: int| 0 <= j < i ==> self.values@[j].0@ != key@,
            decreases n - i,
        {
            if self.values[i].0 == k {
                proof {
                    lemma_dict_val_at(self.values@, i as int);
                }
                return Ok(self.values[i].1.clone());
            }
            i = i + 1;
        }
        proof {
            lemma_dict_val_absent(self.values@, key@);
        }
        Err(StoreError::NotFound)
    }

    /// Inserts or overwrites the value under `key`: the store afterwards
    /// holds the old bindings plus `key` bound to `value`. Never fails.
    fn put(&mut self, key: &str, value: Blob) -> (r: Result<(), StoreError>)
        ensures
            r == Ok::<(), StoreError>(()),
            final(self)@ == old(self)@.insert(key@, blob_val(value)),
    {
        let k: String = key.to_owned();
        let n = self.values.len();
        let mut i: usize = 0;
        while i < n
            invariant
                n == self.values@.len(),
                i <= n,
                k@ == key@,
                keys_unique(self.values@),
                self.values@ == old(self).values@,
                forall|j: int| 0 <= j < i ==> self.values@[j].0@ != key@,
            decreases n - i,
        {
            if self.values[i].0 == k {
                proof {
                    lemma_dict_val_update(self.values@, i as int, (k, value));
                }
                self.values[i] = (k, value);
                return Ok(());
            }
            i = i + 1;
        }
        proof {
            lemma_dict_val_push(self.values@, (k, value));
        }
        self.values.push((k, value));
        Ok(())
    }

    /// Always refuses: this store has exactly one owner.
    fn spawn(&mut self) -> (r: Result<Self, StoreError>)
        ensures
            r == Err::<Self, StoreError>(StoreError::SpawnUnsupported),
            final(self)@ == old(self)@,
    {
        Err(StoreError::SpawnUnsupported)
    }
}

/// An incredibly simple shared in-memory store: one map behind one lock,
/// acquired only for the duration of a single operation. Handles share the
/// map by reference counting, so any handle sees writes made through any
/// other; nothing is persisted.
pub struct MemoryStore {
    values: Arc<RwLock<MemoryStoreSingleThreaded, spec_fn(MemoryStoreSingleThreaded) -> bool>>,
}

impl MemoryStore {
    /// The reference-counted lock-and-map this handle drives; every handle
    /// spawned from it drives the very same one.
    pub closed spec fn handle(&self) -> Arc<
        RwLock<MemoryStoreSingleThreaded, spec_fn(MemoryStoreSingleThreaded) -> bool>,
    > {
        self.values
    }

    /// An empty shared store.
    pub fn new() -> (r: Self)
        ensures
            r.inv(),
    {
        MemoryStore {
            values: Arc::new(
                RwLock::new(
                    MemoryStoreSingleThreaded::new(),
                    Ghost(|v: MemoryStoreSingleThreaded| v.inv()),
                ),
            ),
        }
    }
}

impl Store for MemoryStore {
    /// The lock admits exactly the well-formed map states, so whatever a
    /// handle takes out of the lock is well-formed, and whatever it puts
    /// back in must be.
    closed spec fn inv(&self) -> bool {
        forall|v: MemoryStoreSingleThreaded| self.values.inv(v) <==> v.inv()
    }

    /// Returns the value under `key` in the map state observed while the
    /// read lock was held, or `NotFound`. Concurrent handles may change the
    /// map between calls, so no relation between two calls is promised.
    fn get(&self, key: &str) -> (r: Result<Blob, StoreError>)
        ensures
            r matches Err(e) ==> e == StoreError::NotFound,
    {
        let handle = self.values.acquire_read();
        let r = handle.borrow().get(key);
        handle.release_read();
        r
    }

    /// Inserts or overwrites the value under `key` while holding the write
    /// lock; never fails.
    fn put(&mut self, key: &str, value: Blob) -> (r: Result<(), StoreError>)
        ensures
            r == Ok::<(), StoreError>(()),
    {
        let (mut state, handle) = self.values.acquire_write();
        let r = state.put(key, value);
        handle.release_write(state);
        r
    }

    /// Hands out a new handle to the very same lock and map — shared
    /// ownership, not a copy, so operations through either handle act on
    /// the same state; never fails.
    fn spawn(&mut self) -> (r: Result<Self, StoreError>)
        ensures
            r matches Ok(s) && s.handle() == old(self).handle(),
            final(self).handle() == old(self).handle(),
    {
        Ok(MemoryStore { values: Arc::clone(&self.values) })
    }
}

} // verus!
