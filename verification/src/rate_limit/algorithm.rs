//! Pluggable rate limiting algorithms: token bucket, fixed window,
//! sliding window, and minimum interval.
//!
//! Time is a count of milliseconds on the caller's clock. A refill rate
//! is given in millionths of a token per second, and a bucket holds
//! billionths of a token: one millisecond at a rate of `r` millionths per
//! second adds exactly `r` billionths, so refills are exact integer
//! arithmetic and no fraction of one is ever lost.

use vstd::prelude::*;

verus! {

/// Millionths of a token per token: the unit of a refill rate (per
/// second).
pub const TOKEN_SCALE: u64 = 1_000_000;

/// Billionths of a token per token: the unit a bucket's contents are
/// counted in.
pub const TOKEN_UNIT: u64 = 1_000_000_000;

/// A rate limiting algorithm and its parameters.
#[derive(Clone, Copy, Debug, PartialEq, Eq, Structural)]
pub enum Algorithm {
    /// Allows bursts up to `capacity` requests, then refills at
    /// `refill_per_sec_micros` millionths of a token per second.
    TokenBucket { capacity: u32, refill_per_sec_micros: u64 },

    /// Allows at most `limit` requests per `window_ms`-long fixed window.
    FixedWindow { limit: u32, window_ms: u64 },

    /// Allows at most `limit` requests per `window_ms`, counted as the
    /// current window's requests plus the previous window's, weighted by
    /// how much of the previous window still overlaps the last
    /// `window_ms` milliseconds.
    SlidingWindow { limit: u32, window_ms: u64 },

    /// Rejects a request arriving less than `min_interval_ms` after the
    /// same key's previous request, accepted or not.
    MinInterval { min_interval_ms: u64 },
}

/// Per-key bookkeeping for whichever [`Algorithm`] is configured.
#[derive(Clone, Copy, Debug, PartialEq, Eq, Structural)]
pub enum AlgorithmState {
    TokenBucket { tokens_billionths: u64, last_refill_ms: u64 },
    FixedWindow { window_start_ms: u64, count: u32 },
    SlidingWindow { window_start_ms: u64, current_count: u32, previous_count: u32 },
    MinInterval { last_request_ms: Option<u64> },
}

/// Outcome of one [`AlgorithmState::check`] call.
#[derive(Clone, Copy, Debug, PartialEq, Eq, Structural)]
pub enum AlgorithmDecision {
    Allowed,
    Limited { retry_after_secs: u64 },
}

/// Milliseconds from `from` to `to`, or zero if `to` is earlier.
pub open spec fn elapsed(from: u64, to: u64) -> int {
    if to >= from { to - from } else { 0 }
}

/// `a / b` rounded up, for a positive `b`.
pub open spec fn ceil_div(a: int, b: int) -> int {
    (a + b - 1) / b
}

/// Fresh bookkeeping for a brand-new key under `algorithm`.
pub open spec fn fresh_state(algorithm: Algorithm, now: u64) -> AlgorithmState {
    match algorithm {
        Algorithm::TokenBucket { capacity, .. } => AlgorithmState::TokenBucket {
            tokens_billionths: (capacity * TOKEN_UNIT) as u64,
            last_refill_ms: now,
        },
        Algorithm::FixedWindow { .. } => AlgorithmState::FixedWindow { window_start_ms: now, count: 0 },
        Algorithm::SlidingWindow { .. } => AlgorithmState::SlidingWindow {
            window_start_ms: now,
            current_count: 0,
            previous_count: 0,
        },
        Algorithm::MinInterval { .. } => AlgorithmState::MinInterval { last_request_ms: None },
    }
}

/// Whether `state` is the bookkeeping kind that `algorithm` uses.
pub open spec fn state_matches(state: AlgorithmState, algorithm: Algorithm) -> bool {
    match (state, algorithm) {
        (AlgorithmState::TokenBucket { .. }, Algorithm::TokenBucket { .. }) => true,
        (AlgorithmState::FixedWindow { .. }, Algorithm::FixedWindow { .. }) => true,
        (AlgorithmState::SlidingWindow { .. }, Algorithm::SlidingWindow { .. }) => true,
        (AlgorithmState::MinInterval { .. }, Algorithm::MinInterval { .. }) => true,
        _ => false,
    }
}

/// Tokens (in billionths) after refilling for `elapsed_ms` at `rate`
/// millionths per second — exactly `elapsed_ms * rate` billionths —
/// capped at `capacity` whole tokens.
pub open spec fn refilled(tokens: int, elapsed_ms: int, rate: int, capacity: int) -> int {
    let grown = tokens + elapsed_ms * rate;
    let cap = capacity * TOKEN_UNIT;
    if grown < cap { grown } else { cap }
}

/// Seconds until `missing` billionths of a token have refilled at
/// `rate` millionths (so `1000 * rate` billionths) per second, rounded
/// up and at least one; `u64::MAX` when the bucket never refills.
pub open spec fn token_retry_secs(missing: int, rate: int) -> int {
    if rate == 0 {
        u64::MAX as int
    } else {
        let secs = ceil_div(missing, 1000 * rate);
        if secs < 1 { 1 } else { secs }
    }
}

/// One token bucket request: refill for the time since the last
/// refill, then consume a whole token if one is available.
pub open spec fn token_bucket_step(
    tokens: u64,
    last_refill: u64,
    capacity: u32,
    rate: u64,
    now: u64,
) -> (AlgorithmState, AlgorithmDecision) {
    let t = refilled(tokens as int, elapsed(last_refill, now), rate as int, capacity as int);
    if t >= TOKEN_UNIT {
        (
            AlgorithmState::TokenBucket { tokens_billionths: (t - TOKEN_UNIT) as u64, last_refill_ms: now },
            AlgorithmDecision::Allowed,
        )
    } else {
        (
            AlgorithmState::TokenBucket { tokens_billionths: t as u64, last_refill_ms: now },
            AlgorithmDecision::Limited {
                retry_after_secs: token_retry_secs(TOKEN_UNIT - t, rate as int) as u64,
            },
        )
    }
}

/// One fixed window request: start a fresh window once `window_ms` has
/// elapsed since the current one began, then count the request if the
/// window still has room.
pub open spec fn fixed_window_step(
    window_start: u64,
    count: u32,
    limit: u32,
    window_ms: u64,
    now: u64,
) -> (AlgorithmState, AlgorithmDecision) {
    let (start, c) = if elapsed(window_start, now) >= window_ms {
        (now, 0u32)
    } else {
        (window_start, count)
    };
    if c < limit {
        (AlgorithmState::FixedWindow { window_start_ms: start, count: (c + 1) as u32 }, AlgorithmDecision::Allowed)
    } else {
        let left_secs = (window_ms - elapsed(start, now)) / 1000;
        (
            AlgorithmState::FixedWindow { window_start_ms: start, count: c },
            AlgorithmDecision::Limited { retry_after_secs: (if left_secs < 1 { 1 } else { left_secs }) as u64 },
        )
    }
}

/// Whether the weighted count of a sliding window is under `limit`:
/// `previous * (window - into) / window + current < limit`, where
/// `into` is how far (at most `window`) the current window has run.
/// An empty window gives the previous window no weight.
pub open spec fn sliding_under_limit(previous: int, current: int, limit: int, window: int, into: int) -> bool {
    if window == 0 {
        current < limit
    } else {
        let overlap = if into < window { window - into } else { 0 };
        previous * overlap + current * window < limit * window
    }
}

/// The sliding window bookkeeping rolled forward to `now`: unchanged
/// within the current window, shifted by one window within the next,
/// cleared after that.
pub open spec fn sliding_rolled(start: u64, current: u32, previous: u32, window_ms: u64, now: u64) -> (u64, u32, u32) {
    let e = elapsed(start, now);
    if e >= 2 * window_ms {
        (now, 0u32, 0u32)
    } else if e >= window_ms {
        ((start + window_ms) as u64, 0u32, current)
    } else {
        (start, current, previous)
    }
}

/// One sliding window request.
pub open spec fn sliding_window_step(
    window_start: u64,
    current_count: u32,
    previous_count: u32,
    limit: u32,
    window_ms: u64,
    now: u64,
) -> (AlgorithmState, AlgorithmDecision) {
    let (start, cur, prev) = sliding_rolled(window_start, current_count, previous_count, window_ms, now);
    if sliding_under_limit(prev as int, cur as int, limit as int, window_ms as int, elapsed(start, now)) {
        (
            AlgorithmState::SlidingWindow { window_start_ms: start, current_count: (cur + 1) as u32, previous_count: prev },
            AlgorithmDecision::Allowed,
        )
    } else {
        (
            AlgorithmState::SlidingWindow { window_start_ms: start, current_count: cur, previous_count: prev },
            AlgorithmDecision::Limited { retry_after_secs: 1 },
        )
    }
}

/// One minimum interval request: too soon after the previous request
/// (accepted or not) is limited until the interval has passed, rounded
/// up to whole seconds and at least one.
pub open spec fn min_interval_step(last: Option<u64>, min_interval_ms: u64, now: u64) -> (AlgorithmState, AlgorithmDecision) {
    let next = AlgorithmState::MinInterval { last_request_ms: Some(now) };
    match last {
        Some(l) if elapsed(l, now) < min_interval_ms => {
            let secs = ceil_div(min_interval_ms - elapsed(l, now), 1000);
            (next, AlgorithmDecision::Limited { retry_after_secs: (if secs < 1 { 1 } else { secs }) as u64 })
        },
        _ => (next, AlgorithmDecision::Allowed),
    }
}

/// One request against `algorithm` from bookkeeping `state` at `now`.
pub open spec fn algorithm_step(state: AlgorithmState, algorithm: Algorithm, now: u64) -> (AlgorithmState, AlgorithmDecision) {
    match (state, algorithm) {
        (
            AlgorithmState::TokenBucket { tokens_billionths, last_refill_ms },
            Algorithm::TokenBucket { capacity, refill_per_sec_micros },
        ) => token_bucket_step(tokens_billionths, last_refill_ms, capacity, refill_per_sec_micros, now),
        (
            AlgorithmState::FixedWindow { window_start_ms, count },
            Algorithm::FixedWindow { limit, window_ms },
        ) => fixed_window_step(window_start_ms, count, limit, window_ms, now),
        (
            AlgorithmState::SlidingWindow { window_start_ms, current_count, previous_count },
            Algorithm::SlidingWindow { limit, window_ms },
        ) => sliding_window_step(window_start_ms, current_count, previous_count, limit, window_ms, now),
        (
            AlgorithmState::MinInterval { last_request_ms },
            Algorithm::MinInterval { min_interval_ms },
        ) => min_interval_step(last_request_ms, min_interval_ms, now),
        _ => (state, AlgorithmDecision::Allowed),
    }
}

impl AlgorithmState {
    /// Creates fresh bookkeeping for a brand-new key, matching
    /// `algorithm`.
    pub fn new(algorithm: &Algorithm, now: u64) -> (r: AlgorithmState)
        ensures
            r == fresh_state(*algorithm, now),
            state_matches(r, *algorithm),
    {
        match algorithm {
            Algorithm::TokenBucket { capacity, .. } => AlgorithmState::TokenBucket {
                tokens_billionths: {
                    proof { lemma_capacity_fits(*capacity); }
                    (*capacity as u64) * TOKEN_UNIT
                },
                last_refill_ms: now,
            },
            Algorithm::FixedWindow { .. } => AlgorithmState::FixedWindow { window_start_ms: now, count: 0 },
            Algorithm::SlidingWindow { .. } => AlgorithmState::SlidingWindow {
                window_start_ms: now,
                current_count: 0,
                previous_count: 0,
            },
            Algorithm::MinInterval { .. } => AlgorithmState::MinInterval { last_request_ms: None },
        }
    }

    /// Records one request against `algorithm` at `now`, returning
    /// whether it's allowed.
    pub fn check(&mut self, algorithm: &Algorithm, now: u64) -> (r: AlgorithmDecision)
        requires
            state_matches(*old(self), *algorithm),
        ensures
            (*final(self), r) == algorithm_step(*old(self), *algorithm, now),
            state_matches(*final(self), *algorithm),
    {
        match (*self, *algorithm) {
            (
                AlgorithmState::TokenBucket { tokens_billionths, last_refill_ms },
                Algorithm::TokenBucket { capacity, refill_per_sec_micros },
            ) => {
                let (s, d) = check_token_bucket(tokens_billionths, last_refill_ms, capacity, refill_per_sec_micros, now);
                *self = s;
                d
            },
            (
                AlgorithmState::FixedWindow { window_start_ms, count },
                Algorithm::FixedWindow { limit, window_ms },
            ) => {
                let (s, d) = check_fixed_window(window_start_ms, count, limit, window_ms, now);
                *self = s;
                d
            },
            (
                AlgorithmState::SlidingWindow { window_start_ms, current_count, previous_count },
                Algorithm::SlidingWindow { limit, window_ms },
            ) => {
                let (s, d) = check_sliding_window(window_start_ms, current_count, previous_count, limit, window_ms, now);
                *self = s;
                d
            },
            (
                AlgorithmState::MinInterval { last_request_ms },
                Algorithm::MinInterval { min_interval_ms },
            ) => {
                let (s, d) = check_min_interval(last_request_ms, min_interval_ms, now);
                *self = s;
                d
            },
            _ => AlgorithmDecision::Allowed,
        }
    }
}

/// A whole bucket, in billionths of a token, fits in a `u64`.
proof fn lemma_capacity_fits(capacity: u32)
    ensures
        0 <= capacity * TOKEN_UNIT <= 4_294_967_295_000_000_000,
{
    assert(0 <= capacity * TOKEN_UNIT <= 4_294_967_295_000_000_000) by (nonlinear_arith)
        requires capacity <= u32::MAX;
}

/// Milliseconds from `from` to `to`, or zero if `to` is earlier.
fn elapsed_ms(from: u64, to: u64) -> (r: u64)
    ensures
        r == elapsed(from, to),
{
    if to >= from { to - from } else { 0 }
}

/// Refills the bucket for the time since `last_refill`, then consumes
/// one token if available. `tokens_billionths` is what the bucket holds,
/// in billionths of a token.
pub fn check_token_bucket(
    tokens_billionths: u64,
    last_refill: u64,
    capacity: u32,
    refill_per_sec_micros: u64,
    now: u64,
) -> (r: (AlgorithmState, AlgorithmDecision))
    ensures
        r == token_bucket_step(tokens_billionths, last_refill, capacity, refill_per_sec_micros, now),
{
    let e = elapsed_ms(last_refill, now);
    proof {
        vstd::arithmetic::mul::lemma_mul_upper_bound(e as int, u64::MAX as int, refill_per_sec_micros as int, u64::MAX as int);
        assert(u64::MAX as int * u64::MAX as int + u64::MAX as int <= u128::MAX) by (nonlinear_arith);
    }
    let gained: u128 = (e as u128) * (refill_per_sec_micros as u128);
    let grown: u128 = tokens_billionths as u128 + gained;
    proof { lemma_capacity_fits(capacity); }
    let cap: u128 = (capacity as u128) * (TOKEN_UNIT as u128);
    let t: u64 = if grown < cap { grown as u64 } else { cap as u64 };
    if t >= TOKEN_UNIT {
        (AlgorithmState::TokenBucket { tokens_billionths: t - TOKEN_UNIT, last_refill_ms: now }, AlgorithmDecision::Allowed)
    } else {
        let missing = TOKEN_UNIT - t;
        let retry = if refill_per_sec_micros == 0 {
            u64::MAX
        } else {
            let per_sec: u128 = refill_per_sec_micros as u128 * 1000;
            proof {
                let (m, r) = (missing as int, per_sec as int);
                assert((m + r - 1) / r <= m) by (nonlinear_arith)
                    requires m >= 1, r >= 1;
                assert((m + r - 1) / r >= 0) by (nonlinear_arith)
                    requires m >= 1, r >= 1;
            }
            let secs = ((missing as u128 + per_sec - 1) / per_sec) as u64;
            if secs < 1 { 1 } else { secs }
        };
        (AlgorithmState::TokenBucket { tokens_billionths: t, last_refill_ms: now }, AlgorithmDecision::Limited { retry_after_secs: retry })
    }
}

/// Starts a fresh window once `window_ms` has elapsed since
/// `window_start`, then counts one request against the (possibly
/// fresh) window.
pub fn check_fixed_window(
    window_start: u64,
    count: u32,
    limit: u32,
    window_ms: u64,
    now: u64,
) -> (r: (AlgorithmState, AlgorithmDecision))
    ensures
        r == fixed_window_step(window_start, count, limit, window_ms, now),
{
    let (start, c) = if elapsed_ms(window_start, now) >= window_ms { (now, 0u32) } else { (window_start, count) };
    if c < limit {
        (AlgorithmState::FixedWindow { window_start_ms: start, count: c + 1 }, AlgorithmDecision::Allowed)
    } else {
        let left_secs = (window_ms - elapsed_ms(start, now)) / 1000;
        (
            AlgorithmState::FixedWindow { window_start_ms: start, count: c },
            AlgorithmDecision::Limited { retry_after_secs: if left_secs < 1 { 1 } else { left_secs } },
        )
    }
}

/// Rolls the two windows forward as needed, then weighs the previous
/// window's count by how much of it still overlaps the current moment
/// (no per-request timestamp log, to keep memory bounded).
pub fn check_sliding_window(
    window_start: u64,
    current_count: u32,
    previous_count: u32,
    limit: u32,
    window_ms: u64,
    now: u64,
) -> (r: (AlgorithmState, AlgorithmDecision))
    ensures
        r == sliding_window_step(window_start, current_count, previous_count, limit, window_ms, now),
{
    let e = elapsed_ms(window_start, now);
    let (start, cur, prev) = if (e as u128) >= 2 * (window_ms as u128) {
        (now, 0u32, 0u32)
    } else if e >= window_ms {
        (window_start + window_ms, 0u32, current_count)
    } else {
        (window_start, current_count, previous_count)
    };
    let into = elapsed_ms(start, now);
    let under = if window_ms == 0 {
        cur < limit
    } else {
        let overlap: u64 = if into < window_ms { window_ms - into } else { 0 };
        proof {
            assert((prev as int) * (overlap as int) <= (u32::MAX as int) * (u64::MAX as int)) by (nonlinear_arith)
                requires prev <= u32::MAX, overlap <= u64::MAX, prev >= 0, overlap >= 0;
            assert((cur as int) * (window_ms as int) <= (u32::MAX as int) * (u64::MAX as int)) by (nonlinear_arith)
                requires cur <= u32::MAX, window_ms <= u64::MAX, cur >= 0, window_ms >= 0;
            assert((limit as int) * (window_ms as int) <= (u32::MAX as int) * (u64::MAX as int)) by (nonlinear_arith)
                requires limit <= u32::MAX, window_ms <= u64::MAX, limit >= 0, window_ms >= 0;
        }
        (prev as u128) * (overlap as u128) + (cur as u128) * (window_ms as u128) < (limit as u128) * (window_ms as u128)
    };
    if under {
        proof {
            if window_ms != 0 {
                assert(cur < limit) by (nonlinear_arith)
                    requires
                        (prev as int) * (if into < window_ms { window_ms - into } else { 0 }) as int
                            + (cur as int) * (window_ms as int) < (limit as int) * (window_ms as int),
                        window_ms > 0, prev >= 0, into >= 0;
            }
        }
        (
            AlgorithmState::SlidingWindow { window_start_ms: start, current_count: cur + 1, previous_count: prev },
            AlgorithmDecision::Allowed,
        )
    } else {
        (
            AlgorithmState::SlidingWindow { window_start_ms: start, current_count: cur, previous_count: prev },
            AlgorithmDecision::Limited { retry_after_secs: 1 },
        )
    }
}

/// Rejects a request arriving less than `min_interval_ms` after the
/// previous one; every request, accepted or not, restarts the interval.
pub fn check_min_interval(last_request: Option<u64>, min_interval_ms: u64, now: u64) -> (r: (AlgorithmState, AlgorithmDecision))
    ensures
        r == min_interval_step(last_request, min_interval_ms, now),
{
    let next = AlgorithmState::MinInterval { last_request_ms: Some(now) };
    match last_request {
        Some(l) => {
            let e = elapsed_ms(l, now);
            if e < min_interval_ms {
                let wait = min_interval_ms - e;
                let secs = wait / 1000 + if wait % 1000 == 0 { 0 } else { 1 };
                proof {
                    assert(secs == ceil_div(wait as int, 1000));
                }
                (next, AlgorithmDecision::Limited { retry_after_secs: if secs < 1 { 1 } else { secs } })
            } else {
                (next, AlgorithmDecision::Allowed)
            }
        },
        None => (next, AlgorithmDecision::Allowed),
    }
}

} // verus!
