//! Trying again.

use vstd::prelude::*;

use crate::outside;

verus! {

/// How often something is tried, and how long the pauses between are.
#[derive(Debug, Clone, Copy, PartialEq, Eq, Structural)]
pub struct RetryConfig {
    pub max_attempts: u32,
    pub backoff_ms: u64,
    pub jitter_ms: u64,
}

impl Default for RetryConfig {
    fn default() -> (r: RetryConfig)
        ensures
            r == (RetryConfig { max_attempts: 3, backoff_ms: 250, jitter_ms: 50 }),
    {
        RetryConfig { max_attempts: 3, backoff_ms: 250, jitter_ms: 50 }
    }
}

/// By how much a pause is longer than it has to be.
pub open spec fn jitter(cfg: RetryConfig, random: u64) -> int {
    random as int % (if cfg.jitter_ms > 0 {
        cfg.jitter_ms as int
    } else {
        1
    })
}

/// How long the pause is after the attempt with a number failed, counted from
/// zero; nothing after the last one.
pub fn pause_with(cfg: &RetryConfig, attempt: u32, random: u64) -> (r: Option<u64>)
    requires
        cfg.backoff_ms + cfg.jitter_ms <= u64::MAX,
    ensures
        match r {
            Some(ms) => attempt + 1 < cfg.max_attempts && ms == cfg.backoff_ms + jitter(
                *cfg,
                random,
            ),
            None => attempt + 1 >= cfg.max_attempts,
        },
{
    if attempt < u32::MAX && attempt + 1 < cfg.max_attempts {
        let m: u64 = if cfg.jitter_ms > 0 {
            cfg.jitter_ms
        } else {
            1
        };
        let j: u64 = random % m;
        assert(j < m);
        Some(cfg.backoff_ms + j)
    } else {
        None
    }
}

/// How long the pause is after the attempt with a number failed; nothing after
/// the last one.
pub fn next_pause(cfg: &RetryConfig, attempt: u32) -> (r: Option<u64>)
    requires
        cfg.backoff_ms + cfg.jitter_ms <= u64::MAX,
    ensures
        match r {
            Some(ms) => attempt + 1 < cfg.max_attempts && cfg.backoff_ms <= ms && (ms
                < cfg.backoff_ms + cfg.jitter_ms || ms == cfg.backoff_ms),
            None => attempt + 1 >= cfg.max_attempts,
        },
{
    let random = outside::random_number();
    pause_with(cfg, attempt, random)
}

/// An attempt to make something right.
#[derive(Debug)]
pub struct FixAttempt {
    pub attempt: u32,
    pub errors: Vec<String>,
}

/// Whether another attempt is made.
pub fn should_continue(attempt: &FixAttempt, max_attempts: u32) -> (r: bool)
    ensures
        r == (attempt.attempt < max_attempts && attempt.errors@.len() > 0),
{
    attempt.attempt < max_attempts && attempt.errors.len() > 0
}

/// A pause is as long as the configuration says, and longer by less than its
/// spread; after the last attempt there is none.
pub proof fn law_pauses(cfg: &RetryConfig, attempt: u32, random: u64, r: Option<u64>)
    requires
        cfg.backoff_ms + cfg.jitter_ms <= u64::MAX,
        call_ensures(pause_with, (cfg, attempt, random), r),
    ensures
        r is Some <==> attempt + 1 < cfg.max_attempts,
        r matches Some(ms) ==> cfg.backoff_ms <= ms,
        r matches Some(ms) ==> (cfg.jitter_ms > 0 ==> ms < cfg.backoff_ms + cfg.jitter_ms),
        r matches Some(ms) ==> (cfg.jitter_ms == 0 ==> ms == cfg.backoff_ms),
        r matches Some(ms) ==> (random < cfg.jitter_ms ==> ms == cfg.backoff_ms + random),
{
    if cfg.jitter_ms > 0 {
        let m = cfg.jitter_ms as int;
        assert(0 <= random as int % m < m) by (nonlinear_arith)
            requires
                m > 0,
        ;
        if random < cfg.jitter_ms {
            assert(random as int % m == random as int) by (nonlinear_arith)
                requires
                    0 <= random < m,
            ;
        }
    }
}

/// Another attempt is made while there is something wrong and attempts are left.
pub proof fn law_attempts(attempt: &FixAttempt, max_attempts: u32, r: bool)
    requires
        call_ensures(should_continue, (attempt, max_attempts), r),
    ensures
        attempt.errors@.len() == 0 ==> !r,
        attempt.attempt >= max_attempts ==> !r,
        attempt.errors@.len() > 0 && attempt.attempt < max_attempts ==> r,
{
}

} // verus!
