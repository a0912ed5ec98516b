//! The load generator's decision core and its statistics. The embedding
//! program owns the threads, the clock, the random draws and the pauses;
//! every decision those draws feed — which key, which operation, which
//! wait range — and the aggregation of the workers' counts is made here.

use vstd::prelude::*;

use crate::store::{Blob, Store, StoreError};

verus! {

/// How a worker paces itself between operations.
#[derive(Clone, Copy, Debug, PartialEq, Eq, Structural)]
pub enum LoadPattern {
    /// Mostly short pauses, with a small chance of a much longer one.
    Bursty,
    /// A short pause on every iteration.
    Consistent,
    /// No pause: maximum offered load.
    Unthrottled,
}

/// Scale of the probability draws: draws are uniform in `[0, PPM_SCALE)`.
pub const PPM_SCALE: u32 = 1_000_000;

/// Chance, in parts per million, that bursty load takes its long wait.
pub const BURSTY_PPM_LONG_WAITS: u32 = 50_000;

/// Long wait range when bursting, microseconds.
pub const BURSTY_LONG_WAIT_MIN_US: u64 = 60_000;

/// Long wait range when bursting, microseconds.
pub const BURSTY_LONG_WAIT_MAX_US: u64 = 200_000;

/// Short wait range when bursting, microseconds.
pub const BURSTY_SHORT_WAIT_MIN_US: u64 = 10;

/// Short wait range when bursting, microseconds.
pub const BURSTY_SHORT_WAIT_MAX_US: u64 = 20;

/// Wait range under consistent load, microseconds.
pub const CONSISTENT_SHORT_WAIT_MIN_US: u64 = 1;

/// Wait range under consistent load, microseconds.
pub const CONSISTENT_SHORT_WAIT_MAX_US: u64 = 20;

/// Chance, in parts per million, that an iteration writes rather than
/// reads: the split is biased toward reads.
pub const READ_WRITE_SPLIT_PPM: u32 = 100_000;

/// What the load generator is asked to do.
#[derive(Clone, Copy, Debug)]
pub struct LoadParams {
    /// Number of worker threads.
    pub threads: usize,
    /// Pacing pattern every worker follows.
    pub load_pattern: LoadPattern,
    /// Wall-clock running time of each worker, microseconds.
    pub tot_time_us: u64,
}

/// Total number of operations.
#[derive(Clone, Copy, Debug, PartialEq, Eq, Structural)]
pub struct Ops(pub i64);

/// Performance metrics for a single worker.
#[derive(Clone, Copy, Debug, PartialEq, Eq, Structural)]
pub struct Stats {
    /// Operations the worker completed.
    pub ops: Ops,
    /// The worker's measured wall-clock runtime, microseconds.
    pub runtime_us: u64,
}

/// Aggregated metrics across every worker.
#[derive(Clone, Copy, Debug, PartialEq, Eq, Structural)]
pub struct Summary {
    /// Operations summed across workers.
    pub total_ops: i64,
    /// The slowest worker's runtime, which bounds wall-clock completion,
    /// microseconds.
    pub total_runtime_us: u64,
}

/// The decimal digit character for `d`.
pub open spec fn digit_char(d: nat) -> char
    recommends
        d < 10,
{
    ((d + 48) as u8) as char
}

/// The decimal digits of `n`, most significant first.
pub open spec fn dec_str(n: nat) -> Seq<char>
    decreases n,
{
    if n < 10 {
        seq![digit_char(n)]
    } else {
        dec_str(n / 10).push(digit_char(n % 10))
    }
}

/// The key a draw selects: a small keyspace, so that draws collide and
/// create read-after-write contention on purpose.
pub open spec fn key_spec(n: nat) -> Seq<char> {
    "Key"@ + dec_str(n)
}

/// Relies on `String::push`: appends the one character.
#[verifier::external_body]
pub(crate) fn push_char(s: &mut String, c: char)
    ensures
        final(s)@ == old(s)@.push(c),
{
    s.push(c);
}

/// Appends the decimal digits of `m`.
pub(crate) fn push_dec(s: &mut String, m: u64)
    ensures
        final(s)@ == old(s)@ + dec_str(m as nat),
    decreases m,
{
    if m < 10 {
        push_char(s, (48 + m as u8) as char);
        proof {
            assert(old(s)@.push(digit_char(m as nat)) =~= old(s)@ + dec_str(m as nat));
        }
    } else {
        push_dec(s, m / 10);
        push_char(s, (48 + (m % 10) as u8) as char);
        proof {
            assert((old(s)@ + dec_str((m / 10) as nat)).push(digit_char((m % 10) as nat)) =~= old(
                s,
            )@ + dec_str(m as nat));
        }
    }
}

/// Builds the key a draw selects.
pub fn key_for(n: u16) -> (r: String)
    ensures
        r@ == key_spec(n as nat),
{
    let mut s: String = "Key".to_owned();
    push_dec(&mut s, n as u64);
    s
}

/// Whether an iteration writes: exactly when the draw falls under the
/// read/write split.
pub fn is_write_op(draw_ppm: u32) -> (r: bool)
    ensures
        r == (draw_ppm < READ_WRITE_SPLIT_PPM),
{
    draw_ppm < READ_WRITE_SPLIT_PPM
}

/// The wait range, in microseconds, that the pacing pattern selects for
/// the next pause: none when unthrottled, the short steady range under
/// consistent load, and under bursty load the long range exactly when the
/// draw falls under the configured long-wait chance.
pub fn pause_range(pattern: LoadPattern, draw_ppm: u32) -> (r: (u64, u64))
    ensures
        pattern == LoadPattern::Unthrottled ==> r == (0u64, 0u64),
        pattern == LoadPattern::Consistent ==> r == (
            CONSISTENT_SHORT_WAIT_MIN_US,
            CONSISTENT_SHORT_WAIT_MAX_US,
        ),
        pattern == LoadPattern::Bursty && draw_ppm < BURSTY_PPM_LONG_WAITS ==> r == (
            BURSTY_LONG_WAIT_MIN_US,
            BURSTY_LONG_WAIT_MAX_US,
        ),
        pattern == LoadPattern::Bursty && draw_ppm >= BURSTY_PPM_LONG_WAITS ==> r == (
            BURSTY_SHORT_WAIT_MIN_US,
            BURSTY_SHORT_WAIT_MAX_US,
        ),
{
    match pattern {
        LoadPattern::Unthrottled => (0, 0),
        LoadPattern::Consistent => (CONSISTENT_SHORT_WAIT_MIN_US, CONSISTENT_SHORT_WAIT_MAX_US),
        LoadPattern::Bursty => {
            if draw_ppm < BURSTY_PPM_LONG_WAITS {
                (BURSTY_LONG_WAIT_MIN_US, BURSTY_LONG_WAIT_MAX_US)
            } else {
                (BURSTY_SHORT_WAIT_MIN_US, BURSTY_SHORT_WAIT_MAX_US)
            }
        },
    }
}

/// One load-generator operation against a store: the key draw selects the
/// key, the operation draw selects read or write, and a read miss is
/// tolerated, not an error.
pub fn perform_op<S: Store>(store: &mut S, key_draw: u16, op_draw_ppm: u32) -> (r: Result<
    (),
    StoreError,
>)
    requires
        old(store).inv(),
    ensures
        final(store).inv(),
        op_draw_ppm >= READ_WRITE_SPLIT_PPM ==> r == Ok::<(), StoreError>(()),
{
    let key = key_for(key_draw);
    if is_write_op(op_draw_ppm) {
        store.put(key.as_str(), Blob::Str("foo".to_owned()))
    } else {
        let _ = store.get(key.as_str());
        Ok(())
    }
}

/// Operations summed across the workers.
pub open spec fn sum_ops(s: Seq<Stats>) -> int
    decreases s.len(),
{
    if s.len() == 0 {
        0
    } else {
        sum_ops(s.drop_last()) + s.last().ops.0
    }
}

/// The slowest worker's runtime.
pub open spec fn max_runtime(s: Seq<Stats>) -> u64
    decreases s.len(),
{
    if s.len() == 0 {
        0u64
    } else if s.last().runtime_us > max_runtime(s.drop_last()) {
        s.last().runtime_us
    } else {
        max_runtime(s.drop_last())
    }
}

/// Aggregates the workers' metrics: total operations are the sum across
/// workers, and total runtime is the slowest worker's, since it bounds
/// wall-clock completion. Fails exactly when no worker completed.
pub fn summarize(all_stats: &Vec<Stats>) -> (r: Result<Summary, StoreError>)
    requires
        i64::MIN as int <= sum_ops(all_stats@) <= i64::MAX as int,
    ensures
        all_stats@.len() == 0 ==> r == Err::<Summary, StoreError>(StoreError::NoThreadsCompleted),
        all_stats@.len() > 0 ==> (r matches Ok(s) && s.total_ops == sum_ops(all_stats@)
            && s.total_runtime_us == max_runtime(all_stats@)),
{
    if all_stats.len() == 0 {
        return Err(StoreError::NoThreadsCompleted);
    }
    let mut total: i128 = 0;
    let mut longest: u64 = 0;
    let mut i: usize = 0;
    proof {
        assert(all_stats@.take(0) =~= Seq::<Stats>::empty());
    }
    while i < all_stats.len()
        invariant
            i <= all_stats@.len(),
            total == sum_ops(all_stats@.take(i as int)),
            longest == max_runtime(all_stats@.take(i as int)),
            -((i as int) * 0x8000_0000_0000_0000) <= total as int <= (i as int)
                * 0x8000_0000_0000_0000,
        decreases all_stats@.len() - i,
    {
        proof {
            assert(all_stats@.take(i + 1).drop_last() =~= all_stats@.take(i as int));
            assert(all_stats@.take(i + 1).last() == all_stats@[i as int]);
        }
        total = total + all_stats[i].ops.0 as i128;
        if all_stats[i].runtime_us > longest {
            longest = all_stats[i].runtime_us;
        }
        i = i + 1;
    }
    proof {
        assert(all_stats@.take(all_stats@.len() as int) =~= all_stats@);
    }
    Ok(Summary { total_ops: total as i64, total_runtime_us: longest })
}

} // verus!
