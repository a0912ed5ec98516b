//! The sharded durable store: N per-shard units, each owning one shard's
//! in-memory map and a write policy, behind one lock per shard. The
//! embedding program keeps one snapshot file per shard; this module decides
//! everything about those files' contents — what a shard starts from, when
//! a flush is due, and what bytes a flush writes — while the program only
//! reads, writes and renames the files it is told to.

use std::sync::Arc;

use vstd::prelude::*;
use vstd::rwlock::RwLock;

use crate::codec::{
    decode_snapshot, encode_snapshot, lemma_snapshot_roundtrip, snapshot_bounded,
    spec_dec_snapshot, spec_snapshot_of,
};
use crate::load_test::{dec_str, push_char, push_dec};
use crate::mem_store::MemoryStoreSingleThreaded;
use crate::router::{route_spec, SimpleHasher};
use crate::store::{blob_val, Blob, BlobVal, Store, StoreError};

verus! {

/// The largest queue depth the asynchronous policy accepts; keeps the
/// channel's allocation far from its documented capacity limit.
pub const MAX_QUEUE_DEPTH: usize = 0x1000_0000;

/// The pluggable snapshot serializer. One format is built in: the
/// library's own length-prefixed encoding.
#[derive(Clone, Copy, Debug)]
pub enum Serializer {
    Native,
}

impl Serializer {
    /// Serializes a whole shard map.
    pub fn write(&self, state: &MemoryStoreSingleThreaded) -> (r: Vec<u8>)
        requires
            state.inv(),
        ensures
            r@ == spec_snapshot_of(*state),
            snapshot_bounded(*state),
    {
        match self {
            Serializer::Native => encode_snapshot(state),
        }
    }

    /// Deserializes a whole shard map; fails exactly on malformed bytes.
    pub fn read(&self, bytes: &Vec<u8>) -> (r: Option<MemoryStoreSingleThreaded>)
        ensures
            r matches Some(st) ==> st.inv() && spec_dec_snapshot(bytes@) == Some(st@),
            r is None ==> spec_dec_snapshot(bytes@) is None,
    {
        match self {
            Serializer::Native => decode_snapshot(bytes),
        }
    }
}

/// The shard file's name, derived deterministically from the shard count
/// and the shard index alone — not from logical store identity — so the
/// same layout maps to the same files across restarts, while a different
/// count selects different files.
pub open spec fn shard_filename_spec(size: nat, index: nat) -> Seq<char> {
    "store_size="@ + dec_str(size) + "_idx="@ + dec_str(index)
}

/// Builds the shard file's name.
pub fn shard_filename(size: usize, index: usize) -> (r: String)
    ensures
        r@ == shard_filename_spec(size as nat, index as nat),
{
    let mut s: String = "store_size=".to_owned();
    push_dec(&mut s, size as u64);
    push_char(&mut s, '_');
    push_char(&mut s, 'i');
    push_char(&mut s, 'd');
    push_char(&mut s, 'x');
    push_char(&mut s, '=');
    proof {
        reveal_strlit("_idx=");
        assert("_idx="@ =~= seq!['_', 'i', 'd', 'x', '=']);
        assert(s@ =~= "store_size="@ + dec_str(size as nat) + "_idx="@);
    }
    push_dec(&mut s, index as u64);
    proof {
        assert(s@ =~= shard_filename_spec(size as nat, index as nat));
    }
    s
}

/// Relies on `std::time::SystemTime::now`: microseconds of the system
/// clock since the Unix epoch, zero if the clock reads earlier than the
/// epoch. Nothing is promised of the value; the clock may move arbitrarily
/// between calls.
#[verifier::external_body]
fn now_micros() -> u64 {
    match std::time::SystemTime::now().duration_since(std::time::UNIX_EPOCH) {
        Ok(d) => d.as_micros() as u64,
        Err(_) => 0,
    }
}

/// The synchronous policy's timer: `elapsed` answers whether at least the
/// configured period has passed since the last flush instant, and records
/// a new flush instant when so.
pub struct Poller {
    period_us: u64,
    last_time_us: u64,
}

impl Poller {
    /// The configured period, in microseconds.
    pub closed spec fn period_spec(&self) -> u64 {
        self.period_us
    }

    /// The clock reading recorded at the last flush.
    pub closed spec fn last_spec(&self) -> u64 {
        self.last_time_us
    }

    /// The flush decision: due exactly when the clock has advanced by at
    /// least the period since the last flush instant. A clock running
    /// backwards is never due.
    pub open spec fn due_spec(last_us: u64, period_us: u64, now_us: u64) -> bool {
        now_us >= last_us && now_us - last_us >= period_us
    }

    /// A timer with the given period, starting at the current clock
    /// reading.
    pub fn new(period_us: u64) -> (r: Self)
        ensures
            r.period_spec() == period_us,
    {
        Poller { period_us, last_time_us: now_micros() }
    }

    /// Whether a flush is due at the clock reading `now_us`; pure and total.
    pub fn due_at(&self, now_us: u64) -> (r: bool)
        ensures
            r == Poller::due_spec(self.last_spec(), self.period_spec(), now_us),
    {
        now_us >= self.last_time_us && now_us - self.last_time_us >= self.period_us
    }

    /// Reads the clock and applies the flush decision to it, recording the
    /// reading when due. The period never changes; the recorded instant
    /// only ever advances, and only by at least the period.
    pub fn elapsed(&mut self) -> (r: bool)
        ensures
            final(self).period_spec() == old(self).period_spec(),
            !r ==> final(self).last_spec() == old(self).last_spec(),
            r ==> final(self).last_spec() >= old(self).last_spec() + old(self).period_spec(),
    {
        let now = now_micros();
        if self.due_at(now) {
            self.last_time_us = now;
            true
        } else {
            false
        }
    }
}

/// Which durability rule governs a shard's writes; exactly one is active
/// for a shard's entire lifetime.
#[derive(Clone, Copy, Debug, PartialEq, Eq, Structural)]
pub enum WritePolicy {
    /// Flush the whole map from the caller's thread whenever a `put`
    /// arrives at least `write_period_us` microseconds after the last
    /// flush.
    Synchronous { write_period_us: u64 },
    /// Queue each update onto a bounded channel; a dedicated consumer
    /// drains it and rewrites the snapshot after every update. A full
    /// channel blocks `put` until space frees up.
    Asynchronous { queue_depth: usize },
}

impl WritePolicy {
    /// Selects the write policy from the configuration surface: exactly
    /// one of the flush period and the queue depth must be given, and a
    /// queue depth must be within the channel's capacity bound. Anything
    /// else is a configuration error, rejected before any store is built.
    pub fn from_options(write_period_us: Option<u64>, queue_depth: Option<usize>) -> (r: Result<
        WritePolicy,
        StoreError,
    >)
        ensures
            write_period_us matches Some(p) ==> (queue_depth is None ==> r == Ok::<
                WritePolicy,
                StoreError,
            >(WritePolicy::Synchronous { write_period_us: p })),
            queue_depth matches Some(d) ==> (write_period_us is None && d <= MAX_QUEUE_DEPTH
                ==> r == Ok::<WritePolicy, StoreError>(WritePolicy::Asynchronous {
                queue_depth: d,
            })),
            queue_depth matches Some(d) ==> (write_period_us is None && d > MAX_QUEUE_DEPTH
                ==> r == Err::<WritePolicy, StoreError>(StoreError::InvalidConfig)),
            (write_period_us is Some && queue_depth is Some) ==> r == Err::<
                WritePolicy,
                StoreError,
            >(StoreError::InvalidConfig),
            (write_period_us is None && queue_depth is None) ==> r == Err::<
                WritePolicy,
                StoreError,
            >(StoreError::InvalidConfig),
            r matches Ok(policy) ==> (policy matches WritePolicy::Asynchronous { queue_depth }
                ==> queue_depth <= MAX_QUEUE_DEPTH),
    {
        match (write_period_us, queue_depth) {
            (Some(p), None) => Ok(WritePolicy::Synchronous { write_period_us: p }),
            (None, Some(d)) => {
                if d <= MAX_QUEUE_DEPTH {
                    Ok(WritePolicy::Asynchronous { queue_depth: d })
                } else {
                    Err(StoreError::InvalidConfig)
                }
            },
            (Some(_), Some(_)) => Err(StoreError::InvalidConfig),
            (None, None) => Err(StoreError::InvalidConfig),
        }
    }
}

#[verifier::external_type_specification]
#[verifier::external_body]
#[verifier::reject_recursive_types(T)]
pub struct ExSender<T>(crossbeam_channel::Sender<T>);

#[verifier::external_type_specification]
#[verifier::external_body]
#[verifier::reject_recursive_types(T)]
pub struct ExReceiver<T>(crossbeam_channel::Receiver<T>);

/// Relies on `crossbeam_channel::bounded`: a queue holding at most `cap`
/// in-flight updates, whose sends block while it is full. The capacity
/// bound keeps the call away from its documented capacity panic.
#[verifier::external_body]
fn update_channel(cap: usize) -> (r: (
    crossbeam_channel::Sender<(String, Blob)>,
    crossbeam_channel::Receiver<(String, Blob)>,
))
    requires
        cap <= MAX_QUEUE_DEPTH,
{
    crossbeam_channel::bounded(cap)
}

/// Relies on `crossbeam_channel::Sender::send`: blocks until the update is
/// queued, and fails exactly when every receiver is gone. Whether it
/// succeeds depends on the consumer's state, so nothing is promised of the
/// result.
#[verifier::external_body]
fn send_update(
    sender: &crossbeam_channel::Sender<(String, Blob)>,
    key: String,
    value: Blob,
) -> bool {
    sender.send((key, value)).is_ok()
}

/// Relies on `crossbeam_channel::Receiver::recv`: blocks until an update
/// is queued, and returns `None` exactly when every sender is gone and the
/// queue is drained. Which update arrives depends on the producers, so
/// nothing is promised of the value.
#[verifier::external_body]
fn recv_update(
    receiver: &crossbeam_channel::Receiver<(String, Blob)>,
) -> Option<(String, Blob)> {
    receiver.recv().ok()
}

/// The asynchronous policy's consumer: the receiving end of one shard's
/// update queue and a private mirror of that shard's map. The embedding
/// program runs it on a dedicated thread and writes each snapshot it
/// returns to the shard's file, wholesale.
pub struct ShardConsumer {
    receiver: crossbeam_channel::Receiver<(String, Blob)>,
    mirror: MemoryStoreSingleThreaded,
}

impl ShardConsumer {
    /// The mirror is a well-formed map.
    pub closed spec fn wf(&self) -> bool {
        self.mirror.inv()
    }

    /// The mirror's state.
    pub closed spec fn mirror_state(&self) -> MemoryStoreSingleThreaded {
        self.mirror
    }

    /// Waits for the next queued update, applies it to the mirror, and
    /// returns the snapshot to write for it: whatever update arrived, the
    /// bytes returned encode exactly the mirror with that one update
    /// applied. Returns `None`, changing nothing, once every sender is
    /// gone and the queue is drained.
    pub fn step(&mut self) -> (r: Option<Vec<u8>>)
        requires
            old(self).wf(),
        ensures
            final(self).wf(),
            r matches Some(bytes) ==> ({
                &&& (exists|k: Seq<char>, v: BlobVal|
                    final(self).mirror_state()@ == old(self).mirror_state()@.insert(k, v))
                &&& bytes@ == spec_snapshot_of(final(self).mirror_state())
                &&& snapshot_bounded(final(self).mirror_state())
            }),
            r is None ==> final(self).mirror_state() == old(self).mirror_state(),
    {
        match recv_update(&self.receiver) {
            Some((key, value)) => {
                let ghost k = key@;
                let ghost v = blob_val(value);
                let _ = self.mirror.put(key.as_str(), value);
                proof {
                    assert(self.mirror@ == old(self).mirror_state()@.insert(k, v));
                }
                Some(encode_snapshot(&self.mirror))
            },
            None => None,
        }
    }
}

/// Per-shard policy state.
enum Writer {
    Synchronous { poller: Poller, serializer: Serializer },
    Asynchronous { sender: crossbeam_channel::Sender<(String, Blob)> },
}

/// What recovery found for one shard at construction.
#[derive(PartialEq, Eq, Structural, Clone, Copy, Debug)]
pub enum RecoveryOutcome {
    /// No snapshot existed; the shard starts empty.
    Fresh,
    /// The snapshot decoded; the shard starts warm from it.
    Loaded,
    /// The snapshot bytes were corrupt. The shard starts empty, and the
    /// embedding program must rename the file aside with a timestamp
    /// suffix, preserving the corrupt data for inspection.
    CorruptReset,
}

/// The recovery outcome a given optional snapshot leads to.
pub open spec fn spec_recovery(snapshot: Option<Vec<u8>>) -> RecoveryOutcome {
    match snapshot {
        Option::None => RecoveryOutcome::Fresh,
        Option::Some(bytes) => match spec_dec_snapshot(bytes@) {
            Option::Some(_) => RecoveryOutcome::Loaded,
            Option::None => RecoveryOutcome::CorruptReset,
        },
    }
}

/// The map a shard starts from, given its optional snapshot bytes.
pub open spec fn spec_initial_map(snapshot: Option<Vec<u8>>) -> Map<Seq<char>, BlobVal> {
    match snapshot {
        Option::None => Map::empty(),
        Option::Some(bytes) => match spec_dec_snapshot(bytes@) {
            Option::Some(m) => m,
            Option::None => Map::empty(),
        },
    }
}

/// What construction hands back for one shard: how recovery went, and the
/// consumer to run when the policy is asynchronous.
pub struct ShardRecovery {
    /// How this shard's snapshot was treated.
    pub outcome: RecoveryOutcome,
    /// The consumer to drive on a dedicated thread; present exactly under
    /// the asynchronous policy.
    pub consumer: Option<ShardConsumer>,
}

/// Internal representation of one shard: its in-memory map and its write
/// policy state. Its durable file lives with the embedding program.
pub struct BackingFile {
    mem_store: MemoryStoreSingleThreaded,
    writer: Writer,
}

impl BackingFile {
    /// The shard map is well-formed.
    pub closed spec fn wf(&self) -> bool {
        self.mem_store.inv()
    }

    /// The shard runs the synchronous policy.
    pub closed spec fn is_sync(&self) -> bool {
        self.writer matches Writer::Synchronous { .. }
    }

    /// Recovers one shard from its optional snapshot bytes: a decodable
    /// snapshot starts the shard warm; a missing file or corrupt bytes
    /// start it empty, the latter reported so the file is renamed aside.
    fn new(snapshot: Option<&Vec<u8>>, policy: &WritePolicy, serializer: Serializer) -> (r: (
        BackingFile,
        RecoveryOutcome,
        Option<ShardConsumer>,
    ))
        requires
            policy matches WritePolicy::Asynchronous { queue_depth } ==> queue_depth
                <= MAX_QUEUE_DEPTH,
        ensures
            r.0.wf(),
            snapshot is None ==> r.1 == RecoveryOutcome::Fresh
                && r.0.mem_store@ == Map::<Seq<char>, BlobVal>::empty(),
            snapshot matches Some(b) ==> ({
                &&& (spec_dec_snapshot(b@) matches Some(m) ==> r.1 == RecoveryOutcome::Loaded
                    && r.0.mem_store@ == m)
                &&& (spec_dec_snapshot(b@) is None ==> r.1 == RecoveryOutcome::CorruptReset
                    && r.0.mem_store@ == Map::<Seq<char>, BlobVal>::empty())
            }),
            r.0.is_sync() == (policy matches WritePolicy::Synchronous { .. }),
            (policy matches WritePolicy::Synchronous { .. }) ==> r.2 is None,
            (policy matches WritePolicy::Asynchronous { .. }) ==> (r.2 matches Some(c) && c.wf()
                && c.mirror_state()@ == r.0.mem_store@),
    {
        let (mem_store, outcome) = match snapshot {
            None => (MemoryStoreSingleThreaded::new(), RecoveryOutcome::Fresh),
            Some(bytes) => match serializer.read(bytes) {
                Some(st) => (st, RecoveryOutcome::Loaded),
                None => (MemoryStoreSingleThreaded::new(), RecoveryOutcome::CorruptReset),
            },
        };
        match policy {
            WritePolicy::Synchronous { write_period_us } => {
                let writer = Writer::Synchronous {
                    poller: Poller::new(*write_period_us),
                    serializer,
                };
                (BackingFile { mem_store, writer }, outcome, None)
            },
            WritePolicy::Asynchronous { queue_depth } => {
                let (sender, receiver) = update_channel(*queue_depth);
                let mirror = mem_store.duplicate();
                let writer = Writer::Asynchronous { sender };
                (
                    BackingFile { mem_store, writer },
                    outcome,
                    Some(ShardConsumer { receiver, mirror }),
                )
            },
        }
    }

    /// Reads a key from the shard map; `NotFound` exactly when absent.
    fn read(&self, key: &str) -> (r: Result<Blob, StoreError>)
        requires
            self.wf(),
        ensures
            self.mem_store@.contains_key(key@) ==> (r matches Ok(b) && b@
                == self.mem_store@[key@]),
            !self.mem_store@.contains_key(key@) ==> r == Err::<Blob, StoreError>(
                StoreError::NotFound,
            ),
    {
        self.mem_store.get(key)
    }

    /// Applies one `put` to the shard under its write policy.
    ///
    /// Synchronous policy: the map is updated, and when a flush is due,
    /// the whole updated map's snapshot comes back for the caller
    /// to write to the shard file — durability lags by at most one period.
    ///
    /// Asynchronous policy: the update is queued first and the map updated
    /// after; a dead consumer fails the `put` with `SendFailure`, leaving
    /// the map unchanged.
    fn write(&mut self, key: &str, value: Blob) -> (r: Result<Option<Vec<u8>>, StoreError>)
        requires
            old(self).wf(),
        ensures
            final(self).wf(),
            final(self).is_sync() == old(self).is_sync(),
            old(self).is_sync() ==> r is Ok,
            r matches Ok(flush) ==> ({
                &&& final(self).mem_store@ == old(self).mem_store@.insert(key@, blob_val(value))
                &&& (flush matches Some(bytes) ==> bytes@ == spec_snapshot_of(
                    final(self).mem_store,
                ) && snapshot_bounded(final(self).mem_store))
            }),
            r matches Err(e) ==> e == StoreError::SendFailure && final(self).mem_store@ == old(
                self,
            ).mem_store@,
    {
        let queued = match &self.writer {
            Writer::Synchronous { .. } => true,
            Writer::Asynchronous { sender } => send_update(sender, key.to_owned(), value.clone()),
        };
        if !queued {
            return Err(StoreError::SendFailure);
        }
        let _ = self.mem_store.put(key, value);
        let flush = match &mut self.writer {
            Writer::Synchronous { poller, serializer } => {
                if poller.elapsed() {
                    Some(*serializer)
                } else {
                    None
                }
            },
            Writer::Asynchronous { .. } => None,
        };
        match flush {
            Some(ser) => Ok(Some(ser.write(&self.mem_store))),
            None => Ok(None),
        }
    }
}

/// Law: the bytes of any flush decode back to exactly the flushed shard
/// map, the write that triggered the flush included. `put` promises its
/// flush bytes encode a bounded, well-formed state holding the write;
/// construction loads exactly what such bytes decode to — so a restart
/// from a flushed file recovers the flushed state.
pub proof fn lemma_flush_bytes_recover(st: MemoryStoreSingleThreaded, k: Seq<char>, v: BlobVal)
    requires
        snapshot_bounded(st),
        st@.contains_key(k),
        st@[k] == v,
    ensures
        spec_dec_snapshot(spec_snapshot_of(st)) matches Some(m) && m == st@ && m.contains_key(k)
            && m[k] == v,
{
    lemma_snapshot_roundtrip(st);
}

/// The sharded, durable store: N shard units behind N independent locks,
/// so operations on different shards never contend. The embedding program
/// holds the shard files and performs the writes this store hands back.
pub struct FileStore {
    files: Vec<Arc<RwLock<BackingFile, spec_fn(BackingFile) -> bool>>>,
    hasher: SimpleHasher,
    sync: bool,
}

/// A whole-map snapshot that the caller of `put` must write to the named
/// shard's file, replacing its prior contents.
pub struct FlushRequest {
    /// Which shard's file to rewrite.
    pub shard_index: usize,
    /// The new file contents.
    pub bytes: Vec<u8>,
}

impl FileStore {
    /// The number of shards.
    pub closed spec fn shard_count_spec(&self) -> usize {
        self.hasher.shard_count()
    }

    /// The shard lock handles, for relating spawned handles to their
    /// parent.
    pub closed spec fn handles(&self) -> Seq<Arc<RwLock<BackingFile, spec_fn(BackingFile) -> bool>>> {
        self.files@
    }

    /// The store was built with the synchronous write policy. The policy
    /// is fixed for the store's whole life.
    pub closed spec fn synchronous(&self) -> bool {
        self.sync
    }

    /// There is at least one shard, the router covers exactly the shard
    /// vector, and every shard lock admits exactly the well-formed states
    /// that run the store's write policy.
    pub closed spec fn inv(&self) -> bool {
        &&& self.hasher.shard_count() == self.files@.len()
        &&& self.files@.len() > 0
        &&& forall|i: int, u: BackingFile|
            0 <= i < self.files@.len() ==> (self.files@[i].inv(u) <==> (u.wf() && u.is_sync()
                == self.sync))
    }

    /// Builds N shard units, each recovered from its optional snapshot
    /// bytes (index i of `snapshots` belongs to shard i). Hands back, per
    /// shard, how recovery went and — under the asynchronous policy — the
    /// consumer to run. A corrupt snapshot never blocks construction.
    pub fn new(
        file_count: usize,
        write_policy: &WritePolicy,
        serializer: Serializer,
        snapshots: &Vec<Option<Vec<u8>>>,
    ) -> (r: (FileStore, Vec<ShardRecovery>))
        requires
            file_count > 0,
            snapshots@.len() == file_count,
            write_policy matches WritePolicy::Asynchronous { queue_depth } ==> queue_depth
                <= MAX_QUEUE_DEPTH,
        ensures
            r.0.inv(),
            r.0.shard_count_spec() == file_count,
            r.0.synchronous() == (write_policy matches WritePolicy::Synchronous { .. }),
            r.1@.len() == file_count,
            forall|i: int|
                0 <= i < file_count ==> r.1@[i].outcome == spec_recovery(snapshots@[i]),
            forall|i: int|
                0 <= i < file_count ==> ((write_policy matches WritePolicy::Asynchronous { .. })
                    <==> r.1@[i].consumer is Some),
            forall|i: int|
                0 <= i < file_count ==> (#[trigger] r.1@[i].consumer matches Some(c) ==> c.wf()
                    && c.mirror_state()@ == spec_initial_map(snapshots@[i])),
    {
        let is_sync = match write_policy {
            WritePolicy::Synchronous { .. } => true,
            WritePolicy::Asynchronous { .. } => false,
        };
        let mut files: Vec<Arc<RwLock<BackingFile, spec_fn(BackingFile) -> bool>>> =
            Vec::with_capacity(file_count);
        let mut recoveries: Vec<ShardRecovery> = Vec::with_capacity(file_count);
        let mut index: usize = 0;
        while index < file_count
            invariant
                index <= file_count,
                snapshots@.len() == file_count,
                files@.len() == index,
                recoveries@.len() == index,
                is_sync == (write_policy matches WritePolicy::Synchronous { .. }),
                write_policy matches WritePolicy::Asynchronous { queue_depth } ==> queue_depth
                    <= MAX_QUEUE_DEPTH,
                forall|i: int, u: BackingFile|
                    0 <= i < index ==> (files@[i].inv(u) <==> (u.wf() && u.is_sync() == is_sync)),
                forall|i: int|
                    0 <= i < index ==> recoveries@[i].outcome == spec_recovery(snapshots@[i]),
                forall|i: int|
                    0 <= i < index ==> ((write_policy matches WritePolicy::Asynchronous { .. })
                        <==> recoveries@[i].consumer is Some),
                forall|i: int|
                    0 <= i < index ==> (#[trigger] recoveries@[i].consumer matches Some(c)
                        ==> c.wf() && c.mirror_state()@ == spec_initial_map(snapshots@[i])),
            decreases file_count - index,
        {
            let snapshot = match &snapshots[index] {
                Some(bytes) => Some(bytes),
                None => None,
            };
            let (unit, outcome, consumer) = BackingFile::new(snapshot, write_policy, serializer);
            files.push(
                Arc::new(RwLock::new(unit, Ghost(|u: BackingFile| u.wf() && u.is_sync() == is_sync))),
            );
            recoveries.push(ShardRecovery { outcome, consumer });
            index = index + 1;
        }
        (FileStore { files, hasher: SimpleHasher::new(file_count), sync: is_sync }, recoveries)
    }

    /// Reads the value under `key` from the shard the key routes to, in
    /// the state observed while that shard's lock was held. Fails only
    /// with `NotFound`; the routing invariant makes `BadFileHash`
    /// unreachable.
    pub fn get(&self, key: &str) -> (r: Result<Blob, StoreError>)
        requires
            self.inv(),
        ensures
            r matches Err(e) ==> e == StoreError::NotFound,
    {
        let index = self.hasher.hash_key(key);
        if index >= self.files.len() {
            return Err(StoreError::BadFileHash(index));
        }
        let handle = self.files[index].acquire_read();
        let r = handle.borrow().read(key);
        handle.release_read();
        r
    }

    /// Applies one `put` to the shard the key routes to, holding only that
    /// shard's lock and only for the one operation. When the synchronous
    /// policy's flush is due, the returned request carries the whole updated
    /// shard map — a snapshot that contains this very write — and names
    /// the shard file to rewrite. Fails only with `SendFailure`, when the
    /// asynchronous consumer is gone.
    pub fn put(&self, key: &str, value: Blob) -> (r: Result<Option<FlushRequest>, StoreError>)
        requires
            self.inv(),
        ensures
            self.synchronous() ==> r is Ok,
            r matches Ok(Some(f)) ==> ({
                &&& f.shard_index as int == route_spec(key@, self.shard_count_spec() as int)
                &&& (exists|st: MemoryStoreSingleThreaded|
                    st.inv() && snapshot_bounded(st) && st@.contains_key(key@) && st@[key@]
                        == blob_val(value) && f.bytes@ == spec_snapshot_of(st))
            }),
            r matches Err(e) ==> e == StoreError::SendFailure,
    {
        let index = self.hasher.hash_key(key);
        if index >= self.files.len() {
            return Err(StoreError::BadFileHash(index));
        }
        let (mut unit, handle) = self.files[index].acquire_write();
        let outcome = unit.write(key, value);
        let ghost final_state = unit.mem_store;
        handle.release_write(unit);
        match outcome {
            Ok(Some(bytes)) => {
                proof {
                    assert(final_state.inv() && snapshot_bounded(final_state)
                        && final_state@.contains_key(key@) && final_state@[key@] == blob_val(value)
                        && bytes@ == spec_snapshot_of(final_state));
                }
                Ok(Some(FlushRequest { shard_index: index, bytes }))
            },
            Ok(None) => Ok(None),
            Err(e) => Err(e),
        }
    }

    /// Hands out an independent handle over the very same shard locks and
    /// router: shared ownership, not deep-copied state, so any thread can
    /// drive its own handle.
    pub fn spawn(&self) -> (r: FileStore)
        requires
            self.inv(),
        ensures
            r.inv(),
            r.shard_count_spec() == self.shard_count_spec(),
            r.synchronous() == self.synchronous(),
            r.handles() == self.handles(),
    {
        let mut files: Vec<Arc<RwLock<BackingFile, spec_fn(BackingFile) -> bool>>> =
            Vec::with_capacity(self.files.len());
        let mut i: usize = 0;
        while i < self.files.len()
            invariant
                i <= self.files@.len(),
                files@.len() == i,
                forall|j: int| 0 <= j < i ==> files@[j] == self.files@[j],
            decreases self.files@.len() - i,
        {
            files.push(Arc::clone(&self.files[i]));
            i = i + 1;
        }
        proof {
            assert(files@ =~= self.files@);
        }
        FileStore { files, hasher: self.hasher, sync: self.sync }
    }
}

} // verus!
