//! Deterministic key-to-shard routing: a stable, non-cryptographic hash of
//! the key's UTF-8 bytes, reduced modulo the shard count. The hash depends
//! on nothing but the key, so the same key always lands on the same shard
//! for a given shard count, across calls, threads and restarts.

use vstd::prelude::*;
use vstd::utf8::encode_utf8;

verus! {

/// Offset basis of the 64-bit FNV-1a hash.
pub const FNV_OFFSET: u64 = 0xcbf29ce484222325;

/// Prime of the 64-bit FNV-1a hash.
pub const FNV_PRIME: u64 = 0x100000001b3;

/// One FNV-1a round: fold a byte in, then multiply, wrapping.
pub open spec fn fnv1a_step(h: u64, byte: u8) -> u64 {
    (h ^ (byte as u64)).wrapping_mul(FNV_PRIME)
}

/// The 64-bit FNV-1a hash of a byte sequence.
pub open spec fn fnv1a(bytes: Seq<u8>) -> u64
    decreases bytes.len(),
{
    if bytes.len() == 0 {
        FNV_OFFSET
    } else {
        fnv1a_step(fnv1a(bytes.drop_last()), bytes.last())
    }
}

/// The shard a key is routed to: a pure function of the key's characters
/// and the shard count alone.
pub open spec fn route_spec(key: Seq<char>, shard_count: int) -> int
    recommends
        shard_count > 0,
{
    fnv1a(encode_utf8(key)) as int % shard_count
}

/// Simple hasher to determine the shard index for a given key.
#[derive(Clone, Copy)]
pub struct SimpleHasher {
    max_values: usize,
}

impl SimpleHasher {
    /// The number of shards the hasher routes across.
    pub closed spec fn shard_count(&self) -> usize {
        self.max_values
    }

    /// A hasher routing across `max_values` shards.
    pub fn new(max_values: usize) -> (r: Self)
        ensures
            r.shard_count() == max_values,
    {
        SimpleHasher { max_values }
    }

    /// Routes a key: always the same index for the same key and shard
    /// count, and always within range.
    pub fn hash_key(&self, key: &str) -> (r: usize)
        requires
            self.shard_count() > 0,
        ensures
            r == route_spec(key@, self.shard_count() as int),
            r < self.shard_count(),
    {
        let bytes = key.as_bytes();
        let n = bytes.len();
        let mut h: u64 = FNV_OFFSET;
        let mut i: usize = 0;
        proof {
            assert(bytes@.take(0) =~= Seq::<u8>::empty());
        }
        while i < n
            invariant
                n == bytes@.len(),
                i <= n,
                h == fnv1a(bytes@.take(i as int)),
            decreases n - i,
        {
            proof {
                assert(bytes@.take(i + 1).drop_last() =~= bytes@.take(i as int));
                assert(bytes@.take(i + 1).last() == bytes@[i as int]);
            }
            h = (h ^ (bytes[i] as u64)).wrapping_mul(FNV_PRIME);
            i = i + 1;
        }
        proof {
            assert(bytes@.take(n as int) =~= bytes@);
        }
        (h % (self.max_values as u64)) as usize
    }
}

/// Law: routing is deterministic in the key and the shard count. Any two
/// shard indices computed for the same key and count are equal, and every
/// computed index is in range.
pub proof fn lemma_routing_deterministic(key: Seq<char>, shard_count: int, r1: int, r2: int)
    requires
        shard_count > 0,
        r1 == route_spec(key, shard_count),
        r2 == route_spec(key, shard_count),
    ensures
        r1 == r2,
        0 <= r1 < shard_count,
{
}

} // verus!
