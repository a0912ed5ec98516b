//! Store behavior: put/get on every backend, recovery, durability policies.

use key_value_store::file_store::{
    shard_filename, FileStore, Poller, RecoveryOutcome, Serializer, ShardRecovery, WritePolicy,
};
use key_value_store::mem_store::{MemoryStore, MemoryStoreSingleThreaded};
use key_value_store::router::SimpleHasher;
use key_value_store::store::{Blob, Store, StoreError};

#[test]
fn put_then_get_single_threaded() {
    let mut store = MemoryStoreSingleThreaded::new();
    assert!(matches!(store.get("k"), Err(StoreError::NotFound)));
    store.put("k", Blob::Str("one".to_string())).unwrap();
    assert_eq!(store.get("k").unwrap(), Blob::Str("one".to_string()));
    store.put("k", Blob::Int(2)).unwrap();
    assert_eq!(store.get("k").unwrap(), Blob::Int(2));
    assert!(matches!(store.get("other"), Err(StoreError::NotFound)));
}

#[test]
fn single_threaded_spawn_is_refused() {
    let mut store = MemoryStoreSingleThreaded::new();
    assert!(matches!(store.spawn(), Err(StoreError::SpawnUnsupported)));
}

#[test]
fn put_then_get_shared_memory() {
    let mut store = MemoryStore::new();
    store.put("k", Blob::Str("shared".to_string())).unwrap();
    assert_eq!(store.get("k").unwrap(), Blob::Str("shared".to_string()));
    let spawned = store.spawn().unwrap();
    assert_eq!(spawned.get("k").unwrap(), Blob::Str("shared".to_string()));
    let mut other = store.spawn().unwrap();
    other.put("j", Blob::Int(9)).unwrap();
    assert_eq!(store.get("j").unwrap(), Blob::Int(9));
}

fn fresh_snapshots(n: usize) -> Vec<Option<Vec<u8>>> {
    let mut v = Vec::with_capacity(n);
    for _ in 0..n {
        v.push(None);
    }
    v
}

#[test]
fn put_then_get_file_store() {
    let policy = WritePolicy::Synchronous {
        write_period_us: 60_000_000,
    };
    let (store, recoveries) = FileStore::new(4, &policy, Serializer::Native, &fresh_snapshots(4));
    for r in &recoveries {
        assert_eq!(r.outcome, RecoveryOutcome::Fresh);
        assert!(r.consumer.is_none());
    }
    store.put("k", Blob::Str("v".to_string())).unwrap();
    assert_eq!(store.get("k").unwrap(), Blob::Str("v".to_string()));
    assert!(matches!(store.get("absent"), Err(StoreError::NotFound)));

    let spawned = store.spawn();
    assert_eq!(spawned.get("k").unwrap(), Blob::Str("v".to_string()));
    spawned.put("k2", Blob::Int(5)).unwrap();
    assert_eq!(store.get("k2").unwrap(), Blob::Int(5));
}

#[test]
fn corrupt_snapshot_recovers_empty() {
    let policy = WritePolicy::Synchronous {
        write_period_us: 1_000_000,
    };
    let snapshots = vec![Some(b"definitely not a snapshot".to_vec())];
    let (store, recoveries) = FileStore::new(1, &policy, Serializer::Native, &snapshots);
    assert_eq!(recoveries.len(), 1);
    // construction succeeded, the shard starts empty, and the outcome tells
    // the embedder to rename the corrupt file aside
    assert_eq!(recoveries[0].outcome, RecoveryOutcome::CorruptReset);
    assert!(matches!(store.get("anything"), Err(StoreError::NotFound)));
    store.put("fresh", Blob::Int(1)).unwrap();
    assert_eq!(store.get("fresh").unwrap(), Blob::Int(1));
}

#[test]
fn sync_zero_period_persists_and_restart_recovers() {
    let shard_count = 4usize;
    let policy = WritePolicy::Synchronous { write_period_us: 0 };
    let (store, _recoveries) = FileStore::new(
        shard_count,
        &policy,
        Serializer::Native,
        &fresh_snapshots(shard_count),
    );

    // the embedding program would write each flush to its shard file; here
    // the files are a plain vector of byte buffers
    let mut files: Vec<Option<Vec<u8>>> = fresh_snapshots(shard_count);
    for i in 0..100u32 {
        let key = format!("key-{}", i);
        let flush = store
            .put(&key, Blob::Str(format!("value-{}", i)))
            .unwrap()
            .expect("a zero write period flushes on every put");
        files[flush.shard_index] = Some(flush.bytes);
    }

    // a fresh store instance pointed at the same files and shard count
    let (revived, recoveries) = FileStore::new(shard_count, &policy, Serializer::Native, &files);
    for r in &recoveries {
        assert_eq!(r.outcome, RecoveryOutcome::Loaded);
    }
    for i in 0..100u32 {
        let key = format!("key-{}", i);
        assert_eq!(
            revived.get(&key).unwrap(),
            Blob::Str(format!("value-{}", i))
        );
    }
}

#[test]
fn async_policy_drains_to_snapshots() {
    let shard_count = 2usize;
    let total = 50u32;
    let policy = WritePolicy::Asynchronous { queue_depth: 128 };
    let (store, recoveries) = FileStore::new(
        shard_count,
        &policy,
        Serializer::Native,
        &fresh_snapshots(shard_count),
    );

    let hasher = SimpleHasher::new(shard_count);
    let mut per_shard: Vec<u32> = vec![0; shard_count];
    for i in 0..total {
        let key = format!("key-{}", i);
        per_shard[hasher.hash_key(&key)] += 1;
        let flush = store.put(&key, Blob::Int(i as isize)).unwrap();
        assert!(flush.is_none(), "async puts hand back no flush");
    }

    // drive each shard's consumer through exactly the updates sent to it;
    // the embedding program would do this on dedicated threads
    let mut consumers: Vec<ShardRecovery> = recoveries;
    let mut files: Vec<Option<Vec<u8>>> = fresh_snapshots(shard_count);
    for (shard, recovery) in consumers.iter_mut().enumerate() {
        let consumer = recovery.consumer.as_mut().expect("async policy hands out consumers");
        for _ in 0..per_shard[shard] {
            let bytes = consumer.step().expect("a queued update must drain");
            files[shard] = Some(bytes);
        }
    }

    // after the drain, the files reflect every update
    let (revived, _) = FileStore::new(shard_count, &policy, Serializer::Native, &files);
    for i in 0..total {
        let key = format!("key-{}", i);
        assert_eq!(revived.get(&key).unwrap(), Blob::Int(i as isize));
    }
}

#[test]
fn shard_filenames_are_deterministic() {
    assert_eq!(shard_filename(4, 2), "store_size=4_idx=2");
    assert_eq!(shard_filename(100, 0), "store_size=100_idx=0");
    assert_eq!(shard_filename(1, 1), "store_size=1_idx=1");
    // the same layout always names the same files
    assert_eq!(shard_filename(4, 2), shard_filename(4, 2));
}

#[test]
fn policy_selection_accepts_exactly_one() {
    assert_eq!(
        WritePolicy::from_options(Some(250), None).unwrap(),
        WritePolicy::Synchronous {
            write_period_us: 250
        }
    );
    assert_eq!(
        WritePolicy::from_options(None, Some(8)).unwrap(),
        WritePolicy::Asynchronous { queue_depth: 8 }
    );
    assert!(matches!(
        WritePolicy::from_options(Some(1), Some(1)),
        Err(StoreError::InvalidConfig)
    ));
    assert!(matches!(
        WritePolicy::from_options(None, None),
        Err(StoreError::InvalidConfig)
    ));
    assert!(matches!(
        WritePolicy::from_options(None, Some(usize::MAX)),
        Err(StoreError::InvalidConfig)
    ));
}

#[test]
fn poller_period_governs_flushes() {
    // a zero period is due on every put
    let mut immediate = Poller::new(0);
    assert!(immediate.elapsed());
    assert!(immediate.elapsed());
    // any clock reading at or past the last flush instant satisfies a
    // zero period
    assert!(immediate.due_at(u64::MAX));
    // the longest possible period cannot have passed yet
    let mut never = Poller::new(u64::MAX);
    assert!(!never.elapsed());
}

#[test]
fn async_send_fails_without_consumer() {
    let policy = WritePolicy::Asynchronous { queue_depth: 4 };
    let (store, recoveries) = FileStore::new(1, &policy, Serializer::Native, &fresh_snapshots(1));
    drop(recoveries); // the consumer is gone
    assert!(matches!(
        store.put("k", Blob::Null),
        Err(StoreError::SendFailure)
    ));
}
