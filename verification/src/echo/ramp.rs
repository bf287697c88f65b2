//! Decisions of the client's connection ramp: the fixed interval between
//! connections, and the adaptive batch controller (doubling after
//! sustained success, halving on failure).

use vstd::prelude::*;

verus! {

/// Smallest batch the adaptive ramp shrinks to.
pub const MIN_BATCH: u32 = 10;

/// Consecutive good batches before the batch size doubles.
pub const GOOD_BATCHES_TO_GROW: u32 = 3;

/// Pause after a good batch, in milliseconds.
pub const GOOD_BATCH_PAUSE_MS: u64 = 100;

/// Pause after a bad batch, in milliseconds.
pub const BAD_BATCH_PAUSE_MS: u64 = 500;

/// The interval between connections of the fixed ramp: the ramp duration
/// divided by the number of connections (0 with one connection or no ramp),
/// as whole seconds and nanoseconds, rounded down to the nanosecond as
/// `Duration / u32` rounds.
pub fn fixed_ramp_interval(ramp_duration_secs: u64, connections: u32) -> (r: (u64, u32))
    ensures
        r.1 < 1_000_000_000,
        connections > 1 && ramp_duration_secs != 0 ==> r.0 * 1_000_000_000 + r.1 == (
        ramp_duration_secs as int * 1_000_000_000) / connections as int,
        !(connections > 1 && ramp_duration_secs != 0) ==> r == (0u64, 0u32),
{
    if connections > 1 && ramp_duration_secs != 0 {
        let n = connections as u64;
        let secs = ramp_duration_secs / n;
        let carry = ramp_duration_secs % n;
        let nanos = carry * 1_000_000_000 / n;
        proof {
            let d = ramp_duration_secs as int;
            let k = n as int;
            assert(carry * 1_000_000_000 < k * 1_000_000_000) by (nonlinear_arith)
                requires
                    carry < k,
            ;
            assert(nanos < 1_000_000_000) by (nonlinear_arith)
                requires
                    nanos == (carry * 1_000_000_000) / k,
                    carry * 1_000_000_000 < k * 1_000_000_000,
                    k > 0,
            ;
            assert(secs * 1_000_000_000 + nanos == (d * 1_000_000_000) / k) by (nonlinear_arith)
                requires
                    k > 0,
                    secs == d / k,
                    carry == d % k,
                    nanos == (carry * 1_000_000_000) / k,
            ;
        }
        (secs, nanos as u32)
    } else {
        (0, 0)
    }
}

/// A batch is good when at least 95% of its attempts connected (an empty
/// batch counts as fully successful).
pub open spec fn batch_good(ok: u32, attempted: u32) -> bool {
    ok as int * 100 >= attempted as int * 95
}

/// Decides whether a batch was good.
pub fn is_good_batch(ok: u32, attempted: u32) -> (good: bool)
    ensures
        good == batch_good(ok, attempted),
{
    (ok as u64) * 100 >= (attempted as u64) * 95
}

/// How the controller changed the batch size.
#[derive(Debug, Clone, Copy, PartialEq, Eq)]
pub enum RampAction {
    Increased,
    AtMax,
    Steady,
    Decreased,
}

/// The adaptive ramp's state between batches.
#[derive(Debug, Clone, Copy, PartialEq, Eq)]
pub struct RampState {
    pub batch_size: u32,
    pub consecutive_good: u32,
}

/// The controller's step after a batch: a good batch counts towards
/// growth, and the third good batch in a row doubles the batch size (capped
/// at `max_batch`) and restarts the count; a bad batch restarts the count
/// and halves the batch, but not below `MIN_BATCH`.
pub open spec fn ramp_step(s: RampState, good: bool, max_batch: u32) -> (RampState, RampAction) {
    if good {
        let run = s.consecutive_good + 1;
        if run >= GOOD_BATCHES_TO_GROW {
            let doubled = s.batch_size * 2;
            let new_size = if doubled < max_batch { doubled } else { max_batch as int };
            if new_size > s.batch_size {
                (RampState { batch_size: new_size as u32, consecutive_good: 0 }, RampAction::Increased)
            } else {
                (RampState { batch_size: s.batch_size, consecutive_good: 0 }, RampAction::AtMax)
            }
        } else {
            (RampState { batch_size: s.batch_size, consecutive_good: run as u32 }, RampAction::Steady)
        }
    } else {
        let reduced = s.batch_size / 2;
        let size = if reduced > MIN_BATCH { reduced } else { MIN_BATCH };
        (RampState { batch_size: size, consecutive_good: 0 }, RampAction::Decreased)
    }
}

/// Applies a batch outcome to the controller state.
pub fn next_batch(s: RampState, ok: u32, attempted: u32, max_batch: u32) -> (r: (RampState, RampAction))
    ensures
        r == ramp_step(s, batch_good(ok, attempted), max_batch),
{
    if is_good_batch(ok, attempted) {
        if s.consecutive_good >= GOOD_BATCHES_TO_GROW - 1 {
            let doubled = if s.batch_size <= u32::MAX / 2 {
                s.batch_size * 2
            } else {
                u32::MAX
            };
            let new_size = if doubled < max_batch {
                doubled
            } else {
                max_batch
            };
            if new_size > s.batch_size {
                (RampState { batch_size: new_size, consecutive_good: 0 }, RampAction::Increased)
            } else {
                (RampState { batch_size: s.batch_size, consecutive_good: 0 }, RampAction::AtMax)
            }
        } else {
            (
                RampState { batch_size: s.batch_size, consecutive_good: s.consecutive_good + 1 },
                RampAction::Steady,
            )
        }
    } else {
        let reduced = s.batch_size / 2;
        let size = if reduced > MIN_BATCH { reduced } else { MIN_BATCH };
        (RampState { batch_size: size, consecutive_good: 0 }, RampAction::Decreased)
    }
}

/// The split of a batch between retries and new connections: up to a
/// quarter of the batch retries earlier failures, the rest opens new
/// connections.
pub fn batch_plan(batch_size: u32, queued_retries: usize) -> (r: (u32, u32))
    ensures
        r.0 as int == if (queued_retries as int) < batch_size / 4 {
            queued_retries as int
        } else {
            (batch_size / 4) as int
        },
        r.1 == batch_size - r.0,
{
    let max_retries_this_batch = batch_size / 4;
    let retry_count = if queued_retries < max_retries_this_batch as usize {
        queued_retries as u32
    } else {
        max_retries_this_batch
    };
    (retry_count, batch_size - retry_count)
}

/// The pause before the next batch, in milliseconds.
pub fn batch_pause_ms(good: bool) -> (ms: u64)
    ensures
        ms == if good { GOOD_BATCH_PAUSE_MS } else { BAD_BATCH_PAUSE_MS },
{
    if good {
        GOOD_BATCH_PAUSE_MS
    } else {
        BAD_BATCH_PAUSE_MS
    }
}

/// The batch size never leaves the range that its start and the cap allow:
/// from any state within `[MIN_BATCH, max(max_batch, size)]`, a step stays
/// in `[MIN_BATCH, max(max_batch, size)]`, and the good-batch run stays
/// below `GOOD_BATCHES_TO_GROW`.
pub proof fn lemma_ramp_step_bounds(s: RampState, good: bool, max_batch: u32)
    requires
        s.consecutive_good < GOOD_BATCHES_TO_GROW,
        MIN_BATCH <= s.batch_size,
    ensures
        ({
            let (t, _) = ramp_step(s, good, max_batch);
            &&& MIN_BATCH <= t.batch_size
            &&& t.batch_size <= if max_batch > s.batch_size { max_batch } else { s.batch_size }
            &&& t.consecutive_good < GOOD_BATCHES_TO_GROW
        }),
{
}

/// The controller as documented: a bad batch halves the batch size, but
/// not below 10, and restarts the count of good batches; the third good
/// batch in a row doubles it, up to `max_batch` (keeping it when already
/// there), and restarts the count; an earlier good batch only counts.
pub proof fn lemma_ramp_step_documented(s: RampState, good: bool, max_batch: u32)
    requires
        s.consecutive_good < 3,
    ensures
        ({
            let (t, action) = ramp_step(s, good, max_batch);
            &&& !good ==> t.batch_size == (if s.batch_size / 2 > 10 { s.batch_size / 2 } else { 10 })
                && t.consecutive_good == 0 && action == RampAction::Decreased
            &&& good && s.consecutive_good == 2 && 2 * s.batch_size <= max_batch ==> t.batch_size
                == 2 * s.batch_size && t.consecutive_good == 0
            &&& good && s.consecutive_good == 2 && 2 * s.batch_size > max_batch ==> t.batch_size == (
            if max_batch > s.batch_size {
                max_batch
            } else {
                s.batch_size
            }) && t.consecutive_good == 0
            &&& good && s.consecutive_good < 2 ==> t.batch_size == s.batch_size && t.consecutive_good
                == s.consecutive_good + 1 && action == RampAction::Steady
        }),
{
}

} // verus!
