//! The value model and the error taxonomy shared by every storage backend.

use vstd::prelude::*;

verus! {

/// A storable value: a recursive tagged union over null, a string, a signed
/// integer, and a string-keyed mapping whose values nest recursively.
#[derive(PartialEq, Eq, Debug)]
pub enum Blob {
    Null,
    Str(String),
    Int(isize),
    Dict(Vec<(String, Blob)>),
}

/// The mathematical value of a [`Blob`]. A dictionary abstracts to a map
/// from character sequences to values, so entry order and duplicate keys
/// (last entry wins) are irrelevant to the abstract value.
pub enum BlobVal {
    Null,
    Str(Seq<char>),
    Int(int),
    Dict(Map<Seq<char>, BlobVal>),
}

/// Abstract value of a dictionary entry list: later entries override earlier
/// ones, mirroring insertion into a map.
pub open spec fn dict_val(entries: Seq<(String, Blob)>) -> Map<Seq<char>, BlobVal>
    decreases entries,
{
    if entries.len() == 0 {
        Map::empty()
    } else {
        dict_val(entries.drop_last()).insert(
            entries.last().0@,
            blob_val(entries.last().1),
        )
    }
}

/// Abstract value of a [`Blob`].
pub open spec fn blob_val(b: Blob) -> BlobVal
    decreases b,
{
    match b {
        Blob::Null => BlobVal::Null,
        Blob::Str(s) => BlobVal::Str(s@),
        Blob::Int(i) => BlobVal::Int(i as int),
        Blob::Dict(entries) => BlobVal::Dict(dict_val(entries@)),
    }
}

impl View for Blob {
    type V = BlobVal;

    open spec fn view(&self) -> BlobVal {
        blob_val(*self)
    }
}

/// Entry keys are pairwise distinct.
pub open spec fn keys_unique(entries: Seq<(String, Blob)>) -> bool {
    forall|i: int, j: int| 0 <= i < j < entries.len() ==> entries[i].0@ != entries[j].0@
}

/// When no entry carries the key `k`, the abstract map has no binding for it.
pub proof fn lemma_dict_val_absent(entries: Seq<(String, Blob)>, k: Seq<char>)
    requires
        forall|i: int| 0 <= i < entries.len() ==> entries[i].0@ != k,
    ensures
        !dict_val(entries).contains_key(k),
    decreases entries.len(),
{
    if entries.len() > 0 {
        assert(forall|i: int|
            0 <= i < entries.drop_last().len() ==> entries.drop_last()[i].0@ != k);
        lemma_dict_val_absent(entries.drop_last(), k);
    }
}

/// With distinct keys, the abstract map binds each entry's key to that
/// entry's value.
pub proof fn lemma_dict_val_at(entries: Seq<(String, Blob)>, i: int)
    requires
        keys_unique(entries),
        0 <= i < entries.len(),
    ensures
        dict_val(entries).contains_key(entries[i].0@),
        dict_val(entries)[entries[i].0@] == blob_val(entries[i].1),
    decreases entries.len(),
{
    if i < entries.len() - 1 {
        assert(keys_unique(entries.drop_last()));
        lemma_dict_val_at(entries.drop_last(), i);
        assert(entries.last().0@ != entries[i].0@);
    }
}

/// Replacing the value stored at index `i` updates the abstract map at that
/// entry's key and leaves every other binding alone.
pub proof fn lemma_dict_val_update(entries: Seq<(String, Blob)>, i: int, p: (String, Blob))
    requires
        keys_unique(entries),
        0 <= i < entries.len(),
        p.0@ == entries[i].0@,
    ensures
        dict_val(entries.update(i, p)) == dict_val(entries).insert(p.0@, blob_val(p.1)),
    decreases entries.len(),
{
    let e2 = entries.update(i, p);
    if i == entries.len() - 1 {
        assert(e2.drop_last() =~= entries.drop_last());
        assert(e2.last() == p);
        assert(dict_val(e2) =~= dict_val(entries).insert(p.0@, blob_val(p.1)));
    } else {
        assert(keys_unique(entries.drop_last()));
        lemma_dict_val_update(entries.drop_last(), i, p);
        assert(e2.drop_last() =~= entries.drop_last().update(i, p));
        assert(e2.last() == entries.last());
        assert(entries.last().0@ != p.0@);
        assert(dict_val(e2) =~= dict_val(entries).insert(p.0@, blob_val(p.1)));
    }
}

/// Appending an entry updates the abstract map at the new entry's key.
pub proof fn lemma_dict_val_push(entries: Seq<(String, Blob)>, p: (String, Blob))
    ensures
        dict_val(entries.push(p)) == dict_val(entries).insert(p.0@, blob_val(p.1)),
{
    assert(entries.push(p).drop_last() =~= entries);
    assert(entries.push(p).last() == p);
}

/// Entry lists with pointwise equal keys and abstract values have the same
/// abstract map.
pub proof fn lemma_dict_val_congruent(a: Seq<(String, Blob)>, b: Seq<(String, Blob)>)
    requires
        a.len() == b.len(),
        forall|i: int|
            0 <= i < a.len() ==> a[i].0@ == b[i].0@ && blob_val(a[i].1) == blob_val(b[i].1),
    ensures
        dict_val(a) == dict_val(b),
    decreases a.len(),
{
    if a.len() > 0 {
        assert(forall|i: int|
            0 <= i < a.drop_last().len() ==> a.drop_last()[i].0@ == b.drop_last()[i].0@
                && blob_val(a.drop_last()[i].1) == blob_val(b.drop_last()[i].1));
        lemma_dict_val_congruent(a.drop_last(), b.drop_last());
        assert(a.last().0@ == b.last().0@ && blob_val(a.last().1) == blob_val(b.last().1));
    }
}

/// Deep copy of an entry list; the copy is pointwise equal in key and
/// abstract value to the original.
pub(crate) fn clone_entries(entries: &Vec<(String, Blob)>) -> (out: Vec<(String, Blob)>)
    ensures
        out@.len() == entries@.len(),
        forall|j: int|
            0 <= j < entries@.len() ==> out@[j].0@ == entries@[j].0@
                && blob_val(out@[j].1) == blob_val(entries@[j].1),
        dict_val(out@) == dict_val(entries@),
    decreases entries@,
{
    let mut out: Vec<(String, Blob)> = Vec::with_capacity(entries.len());
    let mut i: usize = 0;
    while i < entries.len()
        invariant
            i <= entries.len(),
            out@.len() == i,
            forall|j: int|
                0 <= j < i ==> out@[j].0@ == entries@[j].0@
                    && blob_val(out@[j].1) == blob_val(entries@[j].1),
        decreases entries@.len() - i,
    {
        let key = entries[i].0.clone();
        let val = entries[i].1.deep_clone();
        out.push((key, val));
        i = i + 1;
    }
    proof {
        lemma_dict_val_congruent(out@, entries@);
    }
    out
}

impl Blob {
    /// Deep copy with the same abstract value.
    pub fn deep_clone(&self) -> (r: Blob)
        ensures
            r@ == self@,
        decreases *self,
    {
        match self {
            Blob::Null => Blob::Null,
            Blob::Str(s) => Blob::Str(s.clone()),
            Blob::Int(i) => Blob::Int(*i),
            Blob::Dict(entries) => Blob::Dict(clone_entries(entries)),
        }
    }
}

impl Clone for Blob {
    /// Deep copy; the copy has the same abstract value as the original.
    fn clone(&self) -> (r: Self)
        ensures
            r@ == self@,
    {
        self.deep_clone()
    }
}

/// The storage capability every backend implements; the load generator is
/// written against this interface alone, never against a concrete backend.
pub trait Store: Sized + Send {
    /// Internal well-formedness that every operation of a backend preserves.
    spec fn inv(&self) -> bool;

    /// Reads the value stored under `key`.
    fn get(&self, key: &str) -> Result<Blob, StoreError>
        requires
            self.inv(),
    ;

    /// Inserts or overwrites the value stored under `key`; last write wins.
    fn put(&mut self, key: &str, value: Blob) -> (r: Result<(), StoreError>)
        requires
            old(self).inv(),
        ensures
            final(self).inv(),
    ;

    /// Produces an independent handle to the same underlying storage, safe
    /// to drive from another thread. Backends with no safe sharing story
    /// refuse instead.
    fn spawn(&mut self) -> (r: Result<Self, StoreError>)
        requires
            old(self).inv(),
        ensures
            final(self).inv(),
            r matches Ok(s) ==> s.inv(),
    ;
}

/// Law: a `put` followed by a `get` of the same key on the same handle
/// returns exactly the value put. `put` turns a store's map `m` into
/// `m.insert(k, v)`, and `get` returns the binding under `k` whenever one
/// exists; this states that after the insertion the binding exists and is
/// `v`, for every map, key and value.
pub proof fn lemma_put_then_get(m: Map<Seq<char>, BlobVal>, k: Seq<char>, v: BlobVal)
    ensures
        m.insert(k, v).contains_key(k),
        m.insert(k, v)[k] == v,
{
}

/// Everything that can go wrong inside the storage layer.
#[derive(Clone, Copy, PartialEq, Eq, Debug)]
pub enum StoreError {
    /// A read found no value under the key.
    NotFound,
    /// Exclusive access to shared state could not be acquired.
    LockError,
    /// A key was routed to a shard index that does not exist; carries the
    /// offending index. An internal invariant violation, surfaced rather
    /// than turned into a panic.
    BadFileHash(usize),
    /// The asynchronous write policy's consumer is gone, so durability can
    /// no longer be promised.
    SendFailure,
    /// Statistics were aggregated over an empty result set.
    NoThreadsCompleted,
    /// The backend has no safe way to hand out a second handle.
    SpawnUnsupported,
    /// The configuration selects no write policy, more than one, or an
    /// unusable parameter; rejected before any store is built.
    InvalidConfig,
}

impl StoreError {
    /// A short human-readable description of the error.
    pub fn describe(&self) -> (r: &'static str)
        ensures
            r@ =~= self.describe_spec(),
    {
        match self {
            StoreError::NotFound => "key not found",
            StoreError::LockError => "lock failed to acquire",
            StoreError::BadFileHash(_) => "bad file hash",
            StoreError::SendFailure => "send to write queue failed",
            StoreError::NoThreadsCompleted => "no threads completed",
            StoreError::SpawnUnsupported => "spawning is not supported",
            StoreError::InvalidConfig => "invalid write policy configuration",
        }
    }

    /// The description promised by [`StoreError::describe`].
    pub open spec fn describe_spec(&self) -> Seq<char> {
        match self {
            StoreError::NotFound => "key not found"@,
            StoreError::LockError => "lock failed to acquire"@,
            StoreError::BadFileHash(_) => "bad file hash"@,
            StoreError::SendFailure => "send to write queue failed"@,
            StoreError::NoThreadsCompleted => "no threads completed"@,
            StoreError::SpawnUnsupported => "spawning is not supported"@,
            StoreError::InvalidConfig => "invalid write policy configuration"@,
        }
    }
}

} // verus!
