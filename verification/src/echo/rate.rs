//! Token-bucket rate limiter shared across all connection writer threads.
//!
//! A background refill thread adds tokens every 50 ms; writer threads
//! atomically acquire tokens before each write.

use vstd::prelude::*;
use std::sync::atomic::{AtomicU64, Ordering};

verus! {

/// Refill interval for the token bucket, in milliseconds.
pub const REFILL_INTERVAL_MS: u64 = 50;

/// The token count after taking `amount` from `current`: `None` when there
/// are too few.
pub open spec fn after_acquire(current: u64, amount: u64) -> Option<u64> {
    if current < amount {
        None
    } else {
        Some((current - amount) as u64)
    }
}

/// Decides one acquisition attempt on a token count.
pub fn tokens_after_acquire(current: u64, amount: u64) -> (r: Option<u64>)
    ensures
        r == after_acquire(current, amount),
{
    if current < amount {
        None
    } else {
        Some(current - amount)
    }
}

/// Atomically replaces the token count by `tokens_after_acquire` of it
/// (`AtomicU64::fetch_update` with relaxed ordering, std).
///
/// Trusted: as documented, `Ok` carries the count the update was applied
/// to (the closure returned `Some` for it), `Err` the count for which the
/// closure returned `None`. Which count that is depends on the other threads.
#[verifier::external_body]
fn update_tokens(tokens: &AtomicU64, amount: u64) -> (r: Result<u64, u64>)
    ensures
        match r {
            Ok(previous) => after_acquire(previous, amount) is Some,
            Err(previous) => after_acquire(previous, amount) is None,
        },
{
    tokens.fetch_update(Ordering::Relaxed, Ordering::Relaxed, |current| tokens_after_acquire(current, amount))
}

/// The token count after one refill: `current + per_refill`, capped at `max`.
pub open spec fn refilled_spec(current: u64, per_refill: u64, max: u64) -> u64 {
    let sum = current + per_refill;
    if sum > max {
        max
    } else {
        sum as u64
    }
}

/// The token count after one refill of `per_refill`, capped at `max` (one
/// second of tokens), so that idle periods do not accumulate a burst.
pub fn refilled(current: u64, per_refill: u64, max: u64) -> (r: u64)
    ensures
        r == refilled_spec(current, per_refill, max),
{
    let sum = current.saturating_add(per_refill);
    if sum > max {
        max
    } else {
        sum
    }
}

/// Tokens added per refill for `rate` bytes per second: the tokens of one
/// refill interval, rounded up (`ceil(rate * 50 / 1000)`).
pub fn tokens_per_refill(rate: u64) -> (n: u64)
    ensures
        n == (rate as int + 19) / 20,
{
    rate / 20 + if rate % 20 != 0 { 1 } else { 0 }
}

/// Token-bucket rate limiter.
pub struct RateLimiter {
    tokens: AtomicU64,
    rate: u64,
}

impl RateLimiter {
    /// The configured budget in bytes per second.
    pub closed spec fn spec_rate(&self) -> u64 {
        self.rate
    }

    /// Create a new rate limiter with the given total bytes/sec budget and
    /// no tokens.
    pub fn new(rate: u64) -> (r: Self)
        ensures
            r.spec_rate() == rate,
    {
        RateLimiter { tokens: AtomicU64::new(0), rate }
    }

    /// The configured budget in bytes per second.
    pub fn rate(&self) -> (r: u64)
        ensures
            r == self.spec_rate(),
    {
        self.rate
    }

    /// Try to acquire `amount` tokens. Returns true if tokens were acquired,
    /// false if insufficient tokens were available. What is available depends
    /// on the other threads; an acquisition takes exactly `amount` tokens from a
    /// count of at least `amount`, so acquiring no tokens always succeeds.
    pub fn try_acquire(&self, amount: u64) -> (acquired: bool)
        ensures
            amount == 0 ==> acquired,
    {
        match update_tokens(&self.tokens, amount) {
            Ok(_) => true,
            Err(_) => false,
        }
    }

    /// One step of the refill thread: adds `per_refill` tokens, capped at one
    /// second of tokens (the rate).
    pub fn refill(&self, per_refill: u64) {
        let current = self.tokens.load(Ordering::Relaxed);
        let new = refilled(current, per_refill, self.rate);
        self.tokens.store(new, Ordering::Relaxed);
    }
}

/// A refill never leaves more than `max` tokens (one second of budget),
/// and never removes tokens below what was there, up to that cap.
pub proof fn lemma_refill_capped(current: u64, per_refill: u64, max: u64)
    ensures
        refilled_spec(current, per_refill, max) <= max,
        current <= max ==> current <= refilled_spec(current, per_refill, max),
{
}

} // verus!
