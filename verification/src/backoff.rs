//! Bounded exponential backoff: the step tables and the per-peer attempt
//! counter. Jitter is applied by the caller to the base delays given here.

use vstd::prelude::*;

verus! {

/// The dial backoff cap (5 minutes).
pub const DIAL_BACKOFF_CAP_MS: u64 = 300_000;

/// Chunk-retry steps in milliseconds (1/2/4/8/16 seconds), by 0-based step.
pub open spec fn chunk_retry_step(i: int) -> u64 {
    if i <= 0 {
        1_000
    } else if i == 1 {
        2_000
    } else if i == 2 {
        4_000
    } else if i == 3 {
        8_000
    } else {
        16_000
    }
}

/// Dial backoff steps in milliseconds (1s/2s/5s/10s/30s/60s/2m/5m), by 0-based step.
pub open spec fn dial_step(i: int) -> u64 {
    if i <= 0 {
        1_000
    } else if i == 1 {
        2_000
    } else if i == 2 {
        5_000
    } else if i == 3 {
        10_000
    } else if i == 4 {
        30_000
    } else if i == 5 {
        60_000
    } else if i == 6 {
        120_000
    } else {
        300_000
    }
}

/// The chunk-retry delay before jitter for a 0-based attempt; attempts past
/// the last step stay at the last step.
pub fn chunk_retry_base(attempt: u32) -> (ms: u64)
    ensures
        ms == chunk_retry_step(attempt as int),
{
    match attempt {
        0 => 1_000,
        1 => 2_000,
        2 => 4_000,
        3 => 8_000,
        _ => 16_000,
    }
}

/// The dial-backoff delay before jitter for a 0-based attempt, capped at 5 minutes.
pub fn dial_base(attempt: u32) -> (ms: u64)
    ensures
        ms == dial_step(attempt as int),
{
    match attempt {
        0 => 1_000,
        1 => 2_000,
        2 => 5_000,
        3 => 10_000,
        4 => 30_000,
        5 => 60_000,
        6 => 120_000,
        _ => 300_000,
    }
}

/// Dial delays never shrink as attempts grow, and never pass the cap.
pub proof fn lemma_dial_monotone(a: int, b: int)
    requires
        a <= b,
    ensures
        dial_step(a) <= dial_step(b),
        dial_step(b) <= DIAL_BACKOFF_CAP_MS,
{
}

/// Chunk-retry delays never shrink as attempts grow, and stop at 16 seconds.
pub proof fn lemma_chunk_retry_monotone(a: int, b: int)
    requires
        a <= b,
    ensures
        chunk_retry_step(a) <= chunk_retry_step(b),
        chunk_retry_step(b) <= 16_000,
{
}

/// A resettable attempt counter for a single peer.
#[derive(Clone, Copy, Debug, Default, PartialEq, Eq, Structural)]
pub struct AttemptCounter {
    pub attempts: u32,
    /// Only an authenticated session resets the counter.
    pub authenticated: bool,
}

impl AttemptCounter {
    pub fn new() -> (c: Self)
        ensures
            c.attempts == 0,
            !c.authenticated,
    {
        AttemptCounter { attempts: 0, authenticated: false }
    }

    /// Record a failed dial attempt and return the next delay before jitter:
    /// the dial step of the attempts counted so far. The count saturates.
    pub fn record_attempt(&mut self) -> (ms: u64)
        ensures
            ms == dial_step(old(self).attempts as int),
            final(self).attempts == if old(self).attempts == u32::MAX {
                u32::MAX
            } else {
                (old(self).attempts + 1) as u32
            },
            final(self).authenticated == old(self).authenticated,
    {
        let delay = dial_base(self.attempts);
        self.attempts = self.attempts.saturating_add(1);
        delay
    }

    /// Reset the counter; only called after an authenticated session.
    pub fn reset_on_auth(&mut self)
        ensures
            final(self).attempts == 0,
            final(self).authenticated,
    {
        self.attempts = 0;
        self.authenticated = true;
    }
}

} // verus!
