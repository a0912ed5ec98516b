//! Routing, pacing decisions, statistics, and concurrent end-to-end runs.

use std::time::{Duration, Instant};

use key_value_store::file_store::{FileStore, Serializer, WritePolicy};
use key_value_store::load_test::{
    is_write_op, pause_range, perform_op, summarize, LoadPattern, Ops, Stats,
    BURSTY_LONG_WAIT_MAX_US, BURSTY_LONG_WAIT_MIN_US, BURSTY_SHORT_WAIT_MAX_US,
    BURSTY_SHORT_WAIT_MIN_US, CONSISTENT_SHORT_WAIT_MAX_US, CONSISTENT_SHORT_WAIT_MIN_US,
};
use key_value_store::mem_store::MemoryStore;
use key_value_store::router::SimpleHasher;
use key_value_store::store::{Blob, Store, StoreError};

#[test]
fn routing_is_deterministic() {
    let hasher = SimpleHasher::new(7);
    for key in ["a", "b", "Key42", "", "grüße", "a slightly longer key"] {
        let first = hasher.hash_key(key);
        assert!(first < 7);
        for _ in 0..5 {
            assert_eq!(hasher.hash_key(key), first);
        }
        // a second hasher with the same shard count routes identically
        assert_eq!(SimpleHasher::new(7).hash_key(key), first);
    }
}

#[test]
fn routing_matches_the_hash_formula() {
    // 64-bit FNV-1a of the key's UTF-8 bytes, modulo the shard count
    assert_eq!(SimpleHasher::new(7).hash_key("a"), 0xaf63dc4c8601ec8cu64 as usize % 7);
    assert_eq!(SimpleHasher::new(7).hash_key("Key42"), 0x8cfa46fdea8ecc6eu64 as usize % 7);
    assert_eq!(SimpleHasher::new(4).hash_key(""), 0xcbf29ce484222325u64 as usize % 4);
}

#[test]
fn routing_spreads_across_shards() {
    let hasher = SimpleHasher::new(4);
    let mut seen = [false; 4];
    for i in 0..200u16 {
        seen[hasher.hash_key(&format!("Key{}", i))] = true;
    }
    assert_eq!(seen, [true; 4]);
}

#[test]
fn pause_ranges_follow_pattern() {
    assert_eq!(pause_range(LoadPattern::Unthrottled, 0), (0, 0));
    assert_eq!(pause_range(LoadPattern::Unthrottled, 999_999), (0, 0));
    assert_eq!(
        pause_range(LoadPattern::Consistent, 5),
        (CONSISTENT_SHORT_WAIT_MIN_US, CONSISTENT_SHORT_WAIT_MAX_US)
    );
    // a draw under the long-wait chance bursts long, any other short
    assert_eq!(
        pause_range(LoadPattern::Bursty, 49_999),
        (BURSTY_LONG_WAIT_MIN_US, BURSTY_LONG_WAIT_MAX_US)
    );
    assert_eq!(
        pause_range(LoadPattern::Bursty, 50_000),
        (BURSTY_SHORT_WAIT_MIN_US, BURSTY_SHORT_WAIT_MAX_US)
    );
}

#[test]
fn write_split_is_biased_toward_reads() {
    assert!(is_write_op(0));
    assert!(is_write_op(99_999));
    assert!(!is_write_op(100_000));
    assert!(!is_write_op(999_999));
}

#[test]
fn summarize_totals_and_max() {
    let stats = vec![
        Stats { ops: Ops(3), runtime_us: 2_000_000 },
        Stats { ops: Ops(5), runtime_us: 1_000_000 },
        Stats { ops: Ops(4), runtime_us: 1_500_000 },
    ];
    let summary = summarize(&stats).unwrap();
    assert_eq!(summary.total_ops, 12);
    assert_eq!(summary.total_runtime_us, 2_000_000);
}

#[test]
fn summarize_empty_fails() {
    let stats: Vec<Stats> = Vec::new();
    assert!(matches!(
        summarize(&stats),
        Err(StoreError::NoThreadsCompleted)
    ));
}

#[test]
fn different_shards_write_concurrently() {
    let policy = WritePolicy::Synchronous {
        write_period_us: 60_000_000,
    };
    let snapshots: Vec<Option<Vec<u8>>> = vec![None, None, None, None];
    let (store, _) = FileStore::new(4, &policy, Serializer::Native, &snapshots);

    // two keys that route to different shards
    let hasher = SimpleHasher::new(4);
    let mut key_a = String::new();
    let mut key_b = String::new();
    for i in 0..100u16 {
        let candidate = format!("Key{}", i);
        if key_a.is_empty() {
            key_a = candidate;
        } else if hasher.hash_key(&candidate) != hasher.hash_key(&key_a) {
            key_b = candidate;
            break;
        }
    }
    assert!(!key_b.is_empty());
    assert_ne!(hasher.hash_key(&key_a), hasher.hash_key(&key_b));

    let handle_a = store.spawn();
    let handle_b = store.spawn();
    crossbeam::thread::scope(|s| {
        let ka = &key_a;
        let kb = &key_b;
        let t1 = s.spawn(move |_| {
            for i in 0..500isize {
                handle_a.put(ka, Blob::Int(i)).unwrap();
            }
        });
        let t2 = s.spawn(move |_| {
            for i in 0..500isize {
                handle_b.put(kb, Blob::Int(-i)).unwrap();
            }
        });
        t1.join().unwrap();
        t2.join().unwrap();
    })
    .unwrap();

    assert_eq!(store.get(&key_a).unwrap(), Blob::Int(499));
    assert_eq!(store.get(&key_b).unwrap(), Blob::Int(-499));
}

#[test]
fn unthrottled_load_against_shared_memory() {
    let threads = 8usize;
    let duration = Duration::from_secs(1);
    let mut store = MemoryStore::new();

    let mut handles_left: Vec<MemoryStore> = Vec::new();
    for _ in 0..threads {
        handles_left.push(store.spawn().unwrap());
    }

    let all_stats: Vec<Stats> = crossbeam::thread::scope(|s| {
        let mut workers = Vec::with_capacity(threads);
        for mut handle in handles_left {
            workers.push(s.spawn(move |_| {
                let mut ops: i64 = 0;
                let start = Instant::now();
                while start.elapsed() < duration {
                    let key_draw: u16 = rand::random();
                    let op_draw: u32 = rand::random_range(0..1_000_000);
                    perform_op(&mut handle, key_draw, op_draw).unwrap();
                    // Unthrottled: no pause between iterations
                    ops += 1;
                }
                Stats {
                    ops: Ops(ops),
                    runtime_us: start.elapsed().as_micros() as u64,
                }
            }));
        }
        workers.into_iter().map(|w| w.join().unwrap()).collect()
    })
    .unwrap();

    assert_eq!(all_stats.len(), threads);
    let summary = summarize(&all_stats).unwrap();
    assert!(summary.total_ops > 0);

    // total throughput is total operations over the slowest worker's runtime
    let max_runtime_us = all_stats.iter().map(|s| s.runtime_us).max().unwrap();
    let total_ops: i64 = all_stats.iter().map(|s| s.ops.0).sum();
    let throughput = summary.total_ops as f64 / (summary.total_runtime_us as f64 / 1e6);
    let expected = total_ops as f64 / (max_runtime_us as f64 / 1e6);
    assert_eq!(summary.total_runtime_us, max_runtime_us);
    assert_eq!(summary.total_ops, total_ops);
    assert!((throughput - expected).abs() < 1e-9);
}
