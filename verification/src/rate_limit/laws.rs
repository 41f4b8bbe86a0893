//! What the rate limiter promises across requests, proved over the
//! step functions that [`super::RateLimitState::check`] and
//! [`super::algorithm::AlgorithmState::check`] are specified by.

use vstd::prelude::*;

use super::algorithm::{
    algorithm_step, ceil_div, elapsed, fixed_window_step, fresh_state, min_interval_step, refilled,
    sliding_rolled, sliding_under_limit, sliding_window_step, token_bucket_step, Algorithm,
    AlgorithmDecision, AlgorithmState, TOKEN_UNIT,
};
use super::{
    allowed_by, ban_active, ban_end, blocked_by, fresh_key, key_consistent, key_step, prior_state,
    secs_at_least_one, status_of, Decision, KeyState, RateLimitConfig,
};
use crate::text::{contains, occurs_at};

verus! {

/// The bookkeeping after `n` requests made at the same instant `now`.
pub open spec fn requests_at(algorithm: Algorithm, state: AlgorithmState, now: u64, n: nat) -> AlgorithmState
    decreases n,
{
    if n == 0 {
        state
    } else {
        algorithm_step(requests_at(algorithm, state, now, (n - 1) as nat), algorithm, now).0
    }
}

proof fn lemma_bucket_drains(capacity: u32, rate: u64, now: u64, k: nat)
    requires
        k <= capacity,
    ensures
        requests_at(
            Algorithm::TokenBucket { capacity, refill_per_sec_micros: rate },
            fresh_state(Algorithm::TokenBucket { capacity, refill_per_sec_micros: rate }, now),
            now,
            k,
        ) == (AlgorithmState::TokenBucket { tokens_billionths: ((capacity - k) * TOKEN_UNIT) as u64, last_refill_ms: now }),
    decreases k,
{
    let alg = Algorithm::TokenBucket { capacity, refill_per_sec_micros: rate };
    assert(0 <= capacity * TOKEN_UNIT <= 4_294_967_295_000_000_000) by (nonlinear_arith)
        requires capacity <= u32::MAX;
    if k > 0 {
        lemma_bucket_drains(capacity, rate, now, (k - 1) as nat);
        let t = (capacity - (k - 1)) * TOKEN_UNIT;
        assert((capacity - (k - 1)) * TOKEN_UNIT == (capacity - k) * TOKEN_UNIT + TOKEN_UNIT) by (nonlinear_arith);
        assert(t <= capacity * TOKEN_UNIT) by (nonlinear_arith)
            requires t == (capacity - (k - 1)) * TOKEN_UNIT, k >= 1;
        assert(0 <= (capacity - k) * TOKEN_UNIT) by (nonlinear_arith)
            requires k <= capacity;
        assert(refilled(t, 0, rate as int, capacity as int) == t);
    }
}

/// A fresh token bucket allows a burst of exactly `capacity` requests at
/// once: the first `capacity` are allowed and the next one is limited.
pub proof fn law_token_bucket_allows_bursts_up_to_capacity(capacity: u32, rate: u64, now: u64, k: nat)
    requires
        k <= capacity,
    ensures
        ({
            let alg = Algorithm::TokenBucket { capacity, refill_per_sec_micros: rate };
            let outcome = algorithm_step(requests_at(alg, fresh_state(alg, now), now, k), alg, now).1;
            &&& k < capacity ==> outcome == AlgorithmDecision::Allowed
            &&& k == capacity ==> outcome is Limited
        }),
{
    lemma_bucket_drains(capacity, rate, now, k);
    let t = (capacity - k) * TOKEN_UNIT;
    assert(0 <= t <= capacity * TOKEN_UNIT) by (nonlinear_arith)
        requires t == (capacity - k) * TOKEN_UNIT, k <= capacity;
    if k < capacity {
        assert(t >= TOKEN_UNIT) by (nonlinear_arith)
            requires t == (capacity - k) * TOKEN_UNIT, k < capacity;
    }
    assert(refilled(t, 0, rate as int, capacity as int) == t);
}

/// A limited token bucket request is told the truth: retrying once the
/// announced number of seconds has passed is allowed, provided the
/// bucket holds at least one token and refills at all.
pub proof fn law_token_bucket_retry_after_is_enough(
    tokens: u64,
    last_refill: u64,
    capacity: u32,
    rate: u64,
    now: u64,
)
    requires
        capacity >= 1,
        rate > 0,
        token_bucket_step(tokens, last_refill, capacity, rate, now).1 is Limited,
        now + 1000 * token_bucket_step(tokens, last_refill, capacity, rate, now).1->retry_after_secs <= u64::MAX,
    ensures
        ({
            let (after, outcome) = token_bucket_step(tokens, last_refill, capacity, rate, now);
            let later = (now + 1000 * outcome->retry_after_secs) as u64;
            token_bucket_step(after->tokens_billionths, after->last_refill_ms, capacity, rate, later).1 == AlgorithmDecision::Allowed
        }),
{
    let (after, outcome) = token_bucket_step(tokens, last_refill, capacity, rate, now);
    let t = after->tokens_billionths as int;
    let s = outcome->retry_after_secs as int;
    let missing = TOKEN_UNIT - t;
    let per_sec = 1000 * rate;
    assert(missing >= 1);
    assert(0 <= ceil_div(missing, per_sec) <= missing) by (nonlinear_arith)
        requires missing >= 1, per_sec >= 1;
    assert(s >= ceil_div(missing, per_sec));
    assert(s * per_sec >= missing) by (nonlinear_arith)
        requires s >= (missing + per_sec - 1) / per_sec, per_sec > 0, missing >= 1;
    assert((1000 * s) * rate == s * per_sec) by (nonlinear_arith)
        requires per_sec == 1000 * rate;
    assert(capacity * TOKEN_UNIT >= TOKEN_UNIT) by (nonlinear_arith)
        requires capacity >= 1;
}

/// Refills add up: a bucket that gets a request every millisecond still
/// gains exactly `rate` billionths of a token per millisecond, however
/// small the rate, until it is full. So `k` limited requests one
/// millisecond apart leave the bucket `k * rate` billionths fuller.
pub proof fn law_token_bucket_refills_add_up(tokens: u64, last_refill: u64, capacity: u32, rate: u64, k: nat)
    requires
        tokens + k * rate < TOKEN_UNIT,
        capacity >= 1,
        last_refill + k <= u64::MAX,
    ensures
        ({
            let alg = Algorithm::TokenBucket { capacity, refill_per_sec_micros: rate };
            requests_every_ms(alg, AlgorithmState::TokenBucket { tokens_billionths: tokens, last_refill_ms: last_refill }, last_refill, k)
                == AlgorithmState::TokenBucket { tokens_billionths: (tokens + k * rate) as u64, last_refill_ms: (last_refill + k) as u64 }
        }),
    decreases k,
{
    if k > 0 {
        let j = (k - 1) as nat;
        assert(tokens + j * rate <= tokens + k * rate) by (nonlinear_arith)
            requires j == k - 1, k >= 1;
        law_token_bucket_refills_add_up(tokens, last_refill, capacity, rate, j);
        assert(tokens + j * rate + rate == tokens + k * rate) by (nonlinear_arith)
            requires j == k - 1;
        assert(capacity * TOKEN_UNIT >= TOKEN_UNIT) by (nonlinear_arith)
            requires capacity >= 1;
        let t = tokens + j * rate;
        assert(elapsed((last_refill + j) as u64, (last_refill + k) as u64) == 1);
        assert(refilled(t, 1, rate as int, capacity as int) == tokens + k * rate);
        assert(((last_refill + j) as u64) + 1 == last_refill + k);
        let alg = Algorithm::TokenBucket { capacity, refill_per_sec_micros: rate };
        let st = AlgorithmState::TokenBucket { tokens_billionths: tokens, last_refill_ms: last_refill };
        let prev = requests_every_ms(alg, st, last_refill, j);
        assert(prev == AlgorithmState::TokenBucket { tokens_billionths: t as u64, last_refill_ms: (last_refill + j) as u64 });
        assert(requests_every_ms(alg, st, last_refill, k) == algorithm_step(prev, alg, (last_refill + k) as u64).0);
        assert(t < TOKEN_UNIT) by (nonlinear_arith)
            requires t == tokens + j * rate, tokens + k * rate < TOKEN_UNIT, j == k - 1, rate >= 0;
    } else {
        assert(k * rate == 0) by (nonlinear_arith)
            requires k == 0;
    }
}

/// The bookkeeping after `n` requests made one millisecond apart, the
/// first one millisecond after `start`.
pub open spec fn requests_every_ms(algorithm: Algorithm, state: AlgorithmState, start: u64, n: nat) -> AlgorithmState
    decreases n,
{
    if n == 0 {
        state
    } else {
        algorithm_step(requests_every_ms(algorithm, state, start, (n - 1) as nat), algorithm, (start + n) as u64).0
    }
}

/// A fixed window admits at most `limit` requests: once it has counted
/// `limit`, every request before the window ends is limited and counts
/// nothing more.
pub proof fn law_fixed_window_admits_at_most_limit(window_start: u64, limit: u32, window_ms: u64, now: u64)
    requires
        elapsed(window_start, now) < window_ms,
    ensures
        fixed_window_step(window_start, limit, limit, window_ms, now) == (
            AlgorithmState::FixedWindow { window_start_ms: window_start, count: limit },
            AlgorithmDecision::Limited { retry_after_secs: secs_at_least_one(window_ms - elapsed(window_start, now)) },
        ),
{
}

/// How many of the requests arriving at `times`, in order, a fixed
/// window starting at `window_start` with `count` already counted lets
/// through.
pub open spec fn fixed_window_admitted(
    window_start: u64,
    count: u32,
    limit: u32,
    window_ms: u64,
    times: Seq<u64>,
) -> nat
    decreases times.len(),
{
    if times.len() == 0 {
        0
    } else {
        let (next, decision) = fixed_window_step(window_start, count, limit, window_ms, times[0]);
        let rest = match next {
            AlgorithmState::FixedWindow { window_start_ms, count } => fixed_window_admitted(
                window_start_ms,
                count,
                limit,
                window_ms,
                times.drop_first(),
            ),
            _ => 0,
        };
        (if decision is Allowed { 1nat } else { 0nat }) + rest
    }
}

/// One window admits at most `limit` requests: of any requests that all
/// arrive before the window ends, exactly as many as the room left
/// (`limit - count`) are let through, or all of them if fewer arrive.
pub proof fn law_one_fixed_window_admits_the_room_left(
    window_start: u64,
    count: u32,
    limit: u32,
    window_ms: u64,
    times: Seq<u64>,
)
    requires
        count <= limit,
        forall|i: int| 0 <= i < times.len() ==> elapsed(window_start, #[trigger] times[i]) < window_ms,
    ensures
        fixed_window_admitted(window_start, count, limit, window_ms, times) == if times.len() < limit - count {
            times.len() as int
        } else {
            limit - count
        },
    decreases times.len(),
{
    if times.len() > 0 {
        let rest = times.drop_first();
        assert(elapsed(window_start, times[0]) < window_ms);
        assert forall|i: int| 0 <= i < rest.len() implies elapsed(window_start, #[trigger] rest[i]) < window_ms by {
            assert(rest[i] == times[i + 1]);
        }
        if count < limit {
            law_one_fixed_window_admits_the_room_left(window_start, (count + 1) as u32, limit, window_ms, rest);
        } else {
            law_one_fixed_window_admits_the_room_left(window_start, count, limit, window_ms, rest);
        }
    }
}

/// Once a whole window has passed, a fixed window starts over: the
/// request is allowed (if the limit admits any) and counted as the
/// first of a window beginning now.
pub proof fn law_fixed_window_resets_after_the_window(window_start: u64, count: u32, limit: u32, window_ms: u64, now: u64)
    requires
        elapsed(window_start, now) >= window_ms,
        limit >= 1,
    ensures
        fixed_window_step(window_start, count, limit, window_ms, now) == (
            AlgorithmState::FixedWindow { window_start_ms: now, count: 1 },
            AlgorithmDecision::Allowed,
        ),
{
}

/// A sliding window never counts more than `limit` requests in its
/// current window, and an allowed request is one that keeps the
/// weighted count under the limit.
pub proof fn law_sliding_window_counts_at_most_limit(
    window_start: u64,
    current_count: u32,
    previous_count: u32,
    limit: u32,
    window_ms: u64,
    now: u64,
)
    ensures
        ({
            let (after, outcome) = sliding_window_step(window_start, current_count, previous_count, limit, window_ms, now);
            outcome == AlgorithmDecision::Allowed ==> after->current_count <= limit
        }),
{
    let (start, cur, prev) = sliding_rolled(window_start, current_count, previous_count, window_ms, now);
    let into = elapsed(start, now);
    if window_ms > 0 && sliding_under_limit(prev as int, cur as int, limit as int, window_ms as int, into) {
        let overlap = if into < window_ms { window_ms - into } else { 0 };
        assert(cur < limit) by (nonlinear_arith)
            requires
                prev * overlap + cur * window_ms < limit * window_ms,
                window_ms > 0, prev >= 0, overlap >= 0;
    }
}

/// Within the window it began, a sliding window keeps its bookkeeping
/// in place: the window start and the previous count stay, and the
/// request is allowed exactly when the previous window, weighted by the
/// `window_ms - into` milliseconds of it that still fall in the last
/// `window_ms`, plus the current count stays under the limit; an
/// allowed request is counted, a limited one is told to retry in a
/// second.
pub proof fn law_sliding_window_within_its_window(
    window_start: u64,
    current_count: u32,
    previous_count: u32,
    limit: u32,
    window_ms: u64,
    now: u64,
)
    requires
        window_start <= now,
        now - window_start < window_ms,
    ensures
        ({
            let into = now - window_start;
            let allowed = previous_count * (window_ms - into) + current_count * window_ms < limit * window_ms;
            sliding_window_step(window_start, current_count, previous_count, limit, window_ms, now) == if allowed {
                (
                    AlgorithmState::SlidingWindow {
                        window_start_ms: window_start,
                        current_count: (current_count + 1) as u32,
                        previous_count,
                    },
                    AlgorithmDecision::Allowed,
                )
            } else {
                (
                    AlgorithmState::SlidingWindow { window_start_ms: window_start, current_count, previous_count },
                    AlgorithmDecision::Limited { retry_after_secs: 1 },
                )
            }
        }),
{
}

/// Between one and two windows after the current window began, a
/// sliding window rolls forward by exactly one window: the new window
/// begins `window_ms` after the old one, the old current count becomes
/// the previous count, and the new current count starts from zero. The
/// request is then allowed exactly when the previous window, weighted
/// by the `window_ms - into` milliseconds of it that still fall in the
/// last `window_ms` (`into` being how far the new window has run), stays
/// under the limit.
pub proof fn law_sliding_window_rolls_one_window_forward(
    window_start: u64,
    current_count: u32,
    previous_count: u32,
    limit: u32,
    window_ms: u64,
    now: u64,
)
    requires
        window_start <= now,
        window_ms <= now - window_start < 2 * window_ms,
    ensures
        ({
            let into = now - window_start - window_ms;
            let allowed = current_count * (window_ms - into) < limit * window_ms;
            sliding_window_step(window_start, current_count, previous_count, limit, window_ms, now) == if allowed {
                (
                    AlgorithmState::SlidingWindow {
                        window_start_ms: (window_start + window_ms) as u64,
                        current_count: 1,
                        previous_count: current_count,
                    },
                    AlgorithmDecision::Allowed,
                )
            } else {
                (
                    AlgorithmState::SlidingWindow {
                        window_start_ms: (window_start + window_ms) as u64,
                        current_count: 0,
                        previous_count: current_count,
                    },
                    AlgorithmDecision::Limited { retry_after_secs: 1 },
                )
            }
        }),
{
    let into = now - window_start - window_ms;
    assert(elapsed((window_start + window_ms) as u64, now) == into);
    assert(into < window_ms);
    assert(current_count * (window_ms - into) + 0 * window_ms == current_count * (window_ms - into)) by (nonlinear_arith);
}

/// Two whole windows after the current window began, a sliding window
/// forgets both counts and starts a fresh window at `now`: the request
/// is allowed (and counted as the first) whenever the limit admits any.
pub proof fn law_sliding_window_forgets_after_two_windows(
    window_start: u64,
    current_count: u32,
    previous_count: u32,
    limit: u32,
    window_ms: u64,
    now: u64,
)
    requires
        window_start <= now,
        now - window_start >= 2 * window_ms,
    ensures
        sliding_window_step(window_start, current_count, previous_count, limit, window_ms, now) == if limit > 0 {
            (
                AlgorithmState::SlidingWindow { window_start_ms: now, current_count: 1, previous_count: 0 },
                AlgorithmDecision::Allowed,
            )
        } else {
            (
                AlgorithmState::SlidingWindow { window_start_ms: now, current_count: 0, previous_count: 0 },
                AlgorithmDecision::Limited { retry_after_secs: 1 },
            )
        },
{
    if window_ms > 0 {
        assert(0 * window_ms + 0 * window_ms < limit * window_ms <==> limit > 0) by (nonlinear_arith)
            requires window_ms > 0;
    }
}

/// A minimum interval is enforced: a request is allowed exactly when it
/// comes at least `min_interval_ms` after the previous one (or is the
/// first), and every request, allowed or not, restarts the interval.
pub proof fn law_min_interval_paces_requests(last: Option<u64>, min_interval_ms: u64, now: u64)
    ensures
        ({
            let (after, outcome) = min_interval_step(last, min_interval_ms, now);
            &&& after == AlgorithmState::MinInterval { last_request_ms: Some(now) }
            &&& (outcome == AlgorithmDecision::Allowed) == match last {
                Some(l) => elapsed(l, now) >= min_interval_ms,
                None => true,
            }
        }),
{
}

/// The first request of a key that has never been seen (or was
/// forgotten by a reset or a new configuration) is allowed whenever the
/// policy admits any request at all.
pub proof fn law_first_request_of_a_fresh_key_is_allowed(config: RateLimitConfig, now: u64)
    requires
        match config.algorithm {
            Algorithm::TokenBucket { capacity, .. } => capacity >= 1,
            Algorithm::FixedWindow { limit, .. } => limit >= 1,
            Algorithm::SlidingWindow { limit, .. } => limit >= 1,
            Algorithm::MinInterval { .. } => true,
        },
    ensures
        key_step(config, fresh_key(config.algorithm, now), now).1 == Decision::Allowed,
{
    match config.algorithm {
        Algorithm::TokenBucket { capacity, refill_per_sec_micros } => {
            law_token_bucket_allows_bursts_up_to_capacity(capacity, refill_per_sec_micros, now, 0);
        },
        Algorithm::SlidingWindow { limit, window_ms } => {
            if window_ms > 0 {
                assert(0 * window_ms + 0 * window_ms < limit * window_ms) by (nonlinear_arith)
                    requires limit >= 1, window_ms > 0;
            }
        },
        _ => {},
    }
}

/// A running ban rejects every request, telling how long is left, and
/// leaves the key's state as it was.
pub proof fn law_banned_key_stays_banned_until_expiry(config: RateLimitConfig, prior: KeyState, now: u64)
    requires
        ban_active(prior.banned_until_ms, now),
    ensures
        key_step(config, prior, now) == (
            prior,
            Decision::Banned { retry_after_secs: secs_at_least_one(prior.banned_until_ms.unwrap() - now) },
        ),
{
}

/// Reaching the threshold bans: a key with one violation short of
/// `ban_threshold` whose next request the algorithm limits is banned
/// for `ban_duration_ms` from now (or until the latest representable
/// instant).
pub proof fn law_threshold_violations_ban_the_key(config: RateLimitConfig, prior: KeyState, now: u64)
    requires
        prior.banned_until_ms is None,
        config.ban_threshold >= 1,
        prior.consecutive_violations + 1 == config.ban_threshold,
        algorithm_step(prior.algorithm_state, config.algorithm, now).1 is Limited,
    ensures
        ({
            let (next, decision) = key_step(config, prior, now);
            &&& decision == Decision::Banned { retry_after_secs: secs_at_least_one(config.ban_duration_ms as int) }
            &&& next.banned_until_ms == Some(ban_end(now, config.ban_duration_ms))
            &&& (config.ban_duration_ms > 0 && now < u64::MAX) ==> ban_active(next.banned_until_ms, now)
            &&& config.ban_duration_ms == 0 ==> !ban_active(next.banned_until_ms, now)
        }),
{
}

/// Once a ban has run out, the key starts over: its past violations are
/// forgotten and the algorithm alone decides the next request.
pub proof fn law_expired_ban_forgets_violations(config: RateLimitConfig, prior: KeyState, now: u64)
    requires
        prior.banned_until_ms is Some,
        !ban_active(prior.banned_until_ms, now),
        config.ban_threshold >= 2,
    ensures
        ({
            let (next, decision) = key_step(config, prior, now);
            &&& next.banned_until_ms is None
            &&& next.consecutive_violations <= 1
            &&& (decision == Decision::Allowed) == (algorithm_step(prior.algorithm_state, config.algorithm, now).1 == AlgorithmDecision::Allowed)
        }),
{
}

/// Keys are independent: recording a request for `key` changes neither
/// what another key's status reports nor what that key's next request
/// is decided.
pub proof fn law_keys_are_independent(
    known: Map<Seq<char>, KeyState>,
    config: RateLimitConfig,
    key: Seq<char>,
    next: KeyState,
    other: Seq<char>,
    now: u64,
)
    requires
        other != key,
    ensures
        status_of(known.insert(key, next), other, now) == status_of(known, other, now),
        key_step(config, prior_state(known.insert(key, next), other, config, now), now)
            == key_step(config, prior_state(known, other, config, now), now),
{
    assert(known.insert(key, next).contains_key(other) == known.contains_key(other));
}

/// A key that isn't banned is judged by the algorithm: an allowed
/// request clears its violations; a limited one adds a violation, and is
/// answered `Limited` below the threshold and `Banned` (for the ban
/// duration) on reaching it. An expired ban counts as no violation.
pub proof fn law_an_unbanned_key_is_judged_by_the_algorithm(config: RateLimitConfig, prior: KeyState, now: u64)
    requires
        !ban_active(prior.banned_until_ms, now),
        key_consistent(prior, config),
    ensures
        ({
            let v = if prior.banned_until_ms is Some { 0 } else { prior.consecutive_violations as int };
            let (alg, verdict) = algorithm_step(prior.algorithm_state, config.algorithm, now);
            let (next, decision) = key_step(config, prior, now);
            &&& next.algorithm_state == alg
            &&& verdict is Allowed ==> decision == Decision::Allowed && next.consecutive_violations == 0
                && next.banned_until_ms is None
            &&& verdict matches AlgorithmDecision::Limited { retry_after_secs } ==> (v + 1 < config.ban_threshold ==> (
                decision == Decision::Limited { retry_after_secs } && next.consecutive_violations == v + 1
                    && next.banned_until_ms is None))
            &&& (verdict is Limited && v + 1 >= config.ban_threshold) ==> (decision == Decision::Banned {
                retry_after_secs: secs_at_least_one(config.ban_duration_ms as int),
            } && next.banned_until_ms == Some(ban_end(now, config.ban_duration_ms)))
        }),
{
}

/// A `User-Agent` allow-list entry matches as a substring: a request
/// whose `User-Agent` holds some entry of `allow_user_agents` anywhere
/// in it is allow-listed, whatever its IP and whatever `allow_ips`
/// holds, so it bypasses the algorithm unless it is block-listed.
pub proof fn law_user_agent_allow_list_matches_anywhere(
    config: RateLimitConfig,
    ip: Seq<char>,
    user_agent: Seq<char>,
    i: int,
    at: int,
)
    requires
        0 <= i < config.allow_user_agents@.len(),
        0 <= at,
        at + config.allow_user_agents@[i]@.len() <= user_agent.len(),
        user_agent.subrange(at, at + config.allow_user_agents@[i]@.len()) == config.allow_user_agents@[i]@,
    ensures
        allowed_by(config, ip, user_agent),
{
    let pattern = config.allow_user_agents@[i]@;
    assert(config.allow_user_agents.deep_view()[i] == pattern);
    assert(occurs_at(user_agent, pattern, at));
    assert(contains(user_agent, config.allow_user_agents.deep_view()[i]));
}

/// An IP allow-list entry matches as a substring: a request whose IP
/// holds some entry of `allow_ips` anywhere in it is allow-listed,
/// whatever its `User-Agent`, so it bypasses the algorithm unless it is
/// block-listed.
pub proof fn law_ip_allow_list_matches_anywhere(
    config: RateLimitConfig,
    ip: Seq<char>,
    user_agent: Seq<char>,
    i: int,
    at: int,
)
    requires
        0 <= i < config.allow_ips@.len(),
        0 <= at,
        at + config.allow_ips@[i]@.len() <= ip.len(),
        ip.subrange(at, at + config.allow_ips@[i]@.len()) == config.allow_ips@[i]@,
    ensures
        allowed_by(config, ip, user_agent),
{
    let pattern = config.allow_ips@[i]@;
    assert(config.allow_ips.deep_view()[i] == pattern);
    assert(occurs_at(ip, pattern, at));
    assert(contains(ip, config.allow_ips.deep_view()[i]));
}

/// A `User-Agent` block-list entry matches as a substring: a request
/// whose `User-Agent` holds some entry of `block_user_agents` anywhere
/// in it is block-listed, whatever its IP and whatever the allow lists
/// hold.
pub proof fn law_user_agent_block_list_matches_anywhere(
    config: RateLimitConfig,
    ip: Seq<char>,
    user_agent: Seq<char>,
    i: int,
    at: int,
)
    requires
        0 <= i < config.block_user_agents@.len(),
        0 <= at,
        at + config.block_user_agents@[i]@.len() <= user_agent.len(),
        user_agent.subrange(at, at + config.block_user_agents@[i]@.len()) == config.block_user_agents@[i]@,
    ensures
        blocked_by(config, ip, user_agent),
{
    let pattern = config.block_user_agents@[i]@;
    assert(config.block_user_agents.deep_view()[i] == pattern);
    assert(occurs_at(user_agent, pattern, at));
    assert(contains(user_agent, config.block_user_agents.deep_view()[i]));
}

/// An IP block-list entry matches as a substring: a request whose IP
/// holds some entry of `block_ips` anywhere in it is block-listed,
/// whatever its `User-Agent` and whatever the allow lists hold.
pub proof fn law_ip_block_list_matches_anywhere(
    config: RateLimitConfig,
    ip: Seq<char>,
    user_agent: Seq<char>,
    i: int,
    at: int,
)
    requires
        0 <= i < config.block_ips@.len(),
        0 <= at,
        at + config.block_ips@[i]@.len() <= ip.len(),
        ip.subrange(at, at + config.block_ips@[i]@.len()) == config.block_ips@[i]@,
    ensures
        blocked_by(config, ip, user_agent),
{
    let pattern = config.block_ips@[i]@;
    assert(config.block_ips.deep_view()[i] == pattern);
    assert(occurs_at(ip, pattern, at));
    assert(contains(ip, config.block_ips.deep_view()[i]));
}

} // verus!
