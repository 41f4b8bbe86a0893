//! Rate limiting engine: pluggable algorithms, per-key state, allow and
//! block lists, and a two-tier ban (temporary block after repeated
//! violations).

pub mod algorithm;
pub mod key;
pub mod laws;

use dashmap::DashMap;
use vstd::prelude::*;

use crate::text::{contains, str_contains};
use algorithm::{
    algorithm_step, fresh_state, state_matches, Algorithm, AlgorithmDecision, AlgorithmState,
};
use key::{client_ip, client_ip_of, extract_key, key_of, opt_chars, user_agent, user_agent_of, KeyStrategy};

verus! {

/// Runtime-configurable rate limiting policy.
pub struct RateLimitConfig {
    /// The algorithm to enforce, and its parameters.
    pub algorithm: Algorithm,

    /// How a client is identified: by IP, `User-Agent`, or both.
    pub key_strategy: KeyStrategy,

    /// Consecutive violations before a key is temporarily banned.
    pub ban_threshold: u32,

    /// Ban duration, in milliseconds, once `ban_threshold` is reached.
    pub ban_duration_ms: u64,

    /// Substrings of an IP that always bypass the algorithm.
    pub allow_ips: Vec<String>,

    /// Substrings of an IP that are always rejected.
    pub block_ips: Vec<String>,

    /// Substrings of a `User-Agent` that always bypass the algorithm.
    pub allow_user_agents: Vec<String>,

    /// Substrings of a `User-Agent` that are always rejected.
    pub block_user_agents: Vec<String>,
}

impl Default for RateLimitConfig {
    /// A token bucket of 10 requests refilling at one per second, keyed
    /// by IP, banning for five minutes after three violations in a row,
    /// with empty allow and block lists.
    fn default() -> (r: Self)
        ensures
            r.algorithm == (Algorithm::TokenBucket { capacity: 10, refill_per_sec_micros: 1_000_000 }),
            r.key_strategy == KeyStrategy::Ip,
            r.ban_threshold == 3,
            r.ban_duration_ms == 300_000,
            r.allow_ips@.len() == 0,
            r.block_ips@.len() == 0,
            r.allow_user_agents@.len() == 0,
            r.block_user_agents@.len() == 0,
    {
        RateLimitConfig {
            algorithm: Algorithm::TokenBucket { capacity: 10, refill_per_sec_micros: 1_000_000 },
            key_strategy: KeyStrategy::Ip,
            ban_threshold: 3,
            ban_duration_ms: 300_000,
            allow_ips: Vec::new(),
            block_ips: Vec::new(),
            allow_user_agents: Vec::new(),
            block_user_agents: Vec::new(),
        }
    }
}

/// Whether any of `patterns` occurs in `value`.
pub open spec fn matches_any(patterns: Seq<Seq<char>>, value: Seq<char>) -> bool {
    exists|i: int| 0 <= i < patterns.len() && contains(value, #[trigger] patterns[i])
}

/// Whether a request from `ip` with `user_agent` is block-listed.
pub open spec fn blocked_by(config: RateLimitConfig, ip: Seq<char>, user_agent: Seq<char>) -> bool {
    matches_any(config.block_ips.deep_view(), ip) || matches_any(config.block_user_agents.deep_view(), user_agent)
}

/// Whether a request from `ip` with `user_agent` is allow-listed.
pub open spec fn allowed_by(config: RateLimitConfig, ip: Seq<char>, user_agent: Seq<char>) -> bool {
    matches_any(config.allow_ips.deep_view(), ip) || matches_any(config.allow_user_agents.deep_view(), user_agent)
}

/// Whether any of `patterns` occurs in `value`, the executable way.
fn matches_any_of(patterns: &Vec<String>, value: &str) -> (r: bool)
    ensures
        r == matches_any(patterns.deep_view(), value@),
{
    let mut i: usize = 0;
    while i < patterns.len()
        invariant
            i <= patterns.len(),
            forall|j: int| 0 <= j < i ==> !contains(value@, #[trigger] patterns.deep_view()[j]),
        decreases patterns.len() - i,
    {
        if str_contains(value, patterns[i].as_str()) {
            assert(patterns.deep_view()[i as int] == patterns@[i as int]@);
            return true;
        }
        i = i + 1;
    }
    false
}

impl RateLimitConfig {
    /// Whether `ip` or `user_agent` matches the block-list: each entry
    /// matches as a substring.
    pub fn is_blocked(&self, ip: &str, user_agent: &str) -> (r: bool)
        ensures
            r == blocked_by(*self, ip@, user_agent@),
    {
        matches_any_of(&self.block_ips, ip) || matches_any_of(&self.block_user_agents, user_agent)
    }

    /// Whether `ip` or `user_agent` matches the allow-list: each entry
    /// matches as a substring.
    pub fn is_allow_listed(&self, ip: &str, user_agent: &str) -> (r: bool)
        ensures
            r == allowed_by(*self, ip@, user_agent@),
    {
        matches_any_of(&self.allow_ips, ip) || matches_any_of(&self.allow_user_agents, user_agent)
    }
}

/// Outcome of a rate limit check for one request.
#[derive(Clone, Copy, Debug, PartialEq, Eq, Structural)]
pub enum Decision {
    /// The request is allowed.
    Allowed,

    /// The request exceeds the configured algorithm's rate; retry after
    /// this many seconds.
    Limited { retry_after_secs: u64 },

    /// The key is temporarily banned after repeated violations; retry
    /// after this many seconds.
    Banned { retry_after_secs: u64 },
}

/// Introspection data for a single key, as returned by
/// [`RateLimitState::status`].
#[derive(Clone, Copy, Debug, PartialEq, Eq, Structural)]
pub struct KeyStatus {
    /// Whether the key is currently banned.
    pub banned: bool,

    /// Seconds remaining on the ban, if any.
    pub retry_after_secs: Option<u64>,
}

/// Per-key state: the algorithm's own bookkeeping, plus violation/ban
/// tracking shared across every algorithm.
#[derive(Clone, Copy, Debug, PartialEq, Eq, Structural)]
pub struct KeyState {
    pub algorithm_state: AlgorithmState,
    pub consecutive_violations: u32,
    pub banned_until_ms: Option<u64>,
}

/// Whole seconds in `ms` milliseconds, at least one.
pub open spec fn secs_at_least_one(ms: int) -> u64 {
    if ms / 1000 < 1 { 1 } else { (ms / 1000) as u64 }
}

/// The state a key starts from when first seen.
pub open spec fn fresh_key(algorithm: Algorithm, now: u64) -> KeyState {
    KeyState { algorithm_state: fresh_state(algorithm, now), consecutive_violations: 0, banned_until_ms: None }
}

/// When a ban of `duration_ms` starting at `now` ends: the sum, or the
/// latest representable instant when the sum doesn't fit.
pub open spec fn ban_end(now: u64, duration_ms: u64) -> u64 {
    if now + duration_ms > u64::MAX { u64::MAX } else { (now + duration_ms) as u64 }
}

/// Whether `until` is a ban still running at `now`.
pub open spec fn ban_active(until: Option<u64>, now: u64) -> bool {
    match until {
        Some(u) => now < u,
        None => false,
    }
}

/// One request from a key in state `prior` under `config` at `now`: a
/// running ban rejects it untouched; otherwise an expired ban is lifted
/// (forgetting the violations that led to it) and the algorithm
/// decides. An allowed request clears the violation count; a limited
/// one adds a violation, and reaching `ban_threshold` bans the key for
/// `ban_duration_ms` (until the latest representable instant, if the end
/// doesn't fit).
pub open spec fn key_step(config: RateLimitConfig, prior: KeyState, now: u64) -> (KeyState, Decision) {
    if ban_active(prior.banned_until_ms, now) {
        (prior, Decision::Banned { retry_after_secs: secs_at_least_one(prior.banned_until_ms.unwrap() - now) })
    } else {
        let violations = if prior.banned_until_ms is Some { 0 } else { prior.consecutive_violations };
        let (alg, outcome) = algorithm_step(prior.algorithm_state, config.algorithm, now);
        match outcome {
            AlgorithmDecision::Allowed => (
                KeyState { algorithm_state: alg, consecutive_violations: 0, banned_until_ms: None },
                Decision::Allowed,
            ),
            AlgorithmDecision::Limited { retry_after_secs } => {
                let v = (violations + 1) as u32;
                if v >= config.ban_threshold {
                    (
                        KeyState {
                            algorithm_state: alg,
                            consecutive_violations: v,
                            banned_until_ms: Some(ban_end(now, config.ban_duration_ms)),
                        },
                        Decision::Banned { retry_after_secs: secs_at_least_one(config.ban_duration_ms as int) },
                    )
                } else {
                    (
                        KeyState { algorithm_state: alg, consecutive_violations: v, banned_until_ms: None },
                        Decision::Limited { retry_after_secs },
                    )
                }
            },
        }
    }
}

/// The state a key is in before a request at `now`: what is recorded for
/// it, or a fresh state if it has never been seen.
pub open spec fn prior_state(known: Map<Seq<char>, KeyState>, key: Seq<char>, config: RateLimitConfig, now: u64) -> KeyState {
    if known.contains_key(key) { known[key] } else { fresh_key(config.algorithm, now) }
}

/// What `status` reports of a key: banned, and for how long, while a ban
/// is running.
pub open spec fn status_of(known: Map<Seq<char>, KeyState>, key: Seq<char>, now: u64) -> KeyStatus {
    if known.contains_key(key) && ban_active(known[key].banned_until_ms, now) {
        KeyStatus {
            banned: true,
            retry_after_secs: Some(secs_at_least_one(known[key].banned_until_ms.unwrap() - now)),
        }
    } else {
        KeyStatus { banned: false, retry_after_secs: None }
    }
}

/// A key's state is consistent with `config`: its bookkeeping belongs
/// to the configured algorithm, and unless it is banned it has fewer
/// violations than the ban threshold (or none).
pub open spec fn key_consistent(ks: KeyState, config: RateLimitConfig) -> bool {
    &&& state_matches(ks.algorithm_state, config.algorithm)
    &&& ks.banned_until_ms is None ==> ks.consecutive_violations == 0 || ks.consecutive_violations < config.ban_threshold
}

/// A map of no keys.
pub open spec fn no_keys() -> Map<Seq<char>, KeyState> {
    Map::empty()
}

/// What the rate limiter's map holds: every known key's state.
pub uninterp spec fn key_states(map: DashMap<String, KeyState>) -> Map<Seq<char>, KeyState>;

/// `DashMap::new`: an empty map.
#[verifier::external_body]
fn key_map_new() -> (r: DashMap<String, KeyState>)
    ensures
        key_states(r) == no_keys(),
{
    DashMap::new()
}

/// `DashMap::get`, copying out the state stored under `key`, if any.
#[verifier::external_body]
fn key_map_get(map: &DashMap<String, KeyState>, key: &str) -> (r: Option<KeyState>)
    ensures
        r == key_states(*map).index_opt(key@),
{
    map.get(key).map(|entry| *entry.value())
}

/// `DashMap::insert`: stores `value` under `key`, replacing what was
/// there.
#[verifier::external_body]
fn key_map_insert(map: &mut DashMap<String, KeyState>, key: &str, value: KeyState)
    ensures
        key_states(*final(map)) == key_states(*old(map)).insert(key@, value),
{
    map.insert(key.to_string(), value);
}

/// `DashMap::clear`: forgets every key.
#[verifier::external_body]
fn key_map_clear(map: &mut DashMap<String, KeyState>)
    ensures
        key_states(*final(map)) == no_keys(),
{
    map.clear();
}

/// `DashMap::iter`, copying out every key and its state, each key once,
/// in whatever order the map walks them.
#[verifier::external_body]
fn key_map_entries(map: &DashMap<String, KeyState>) -> (r: Vec<(String, KeyState)>)
    ensures
        forall|i: int| 0 <= i < r@.len() ==> #[trigger] key_states(*map).contains_key(r@[i].0@)
            && key_states(*map)[r@[i].0@] == r@[i].1,
        forall|k: Seq<char>| #[trigger] key_states(*map).contains_key(k) ==> exists|i: int| 0 <= i < r@.len() && r@[i].0@ == k,
        forall|i: int, j: int| 0 <= i < j < r@.len() ==> r@[i].0@ != r@[j].0@,
{
    map.iter().map(|entry| (entry.key().clone(), *entry.value())).collect()
}

/// Applies one request to a key's state: [`key_step`], executably.
fn step_key(config: &RateLimitConfig, prior: KeyState, now: u64) -> (r: (KeyState, Decision))
    requires
        key_consistent(prior, *config),
    ensures
        r == key_step(*config, prior, now),
        key_consistent(r.0, *config),
{
    if let Some(until) = prior.banned_until_ms {
        if now < until {
            let s = (until - now) / 1000;
            return (prior, Decision::Banned { retry_after_secs: if s < 1 { 1 } else { s } });
        }
    }
    let violations = if prior.banned_until_ms.is_some() { 0 } else { prior.consecutive_violations };
    let mut alg = prior.algorithm_state;
    let outcome = alg.check(&config.algorithm, now);
    match outcome {
        AlgorithmDecision::Allowed => (
            KeyState { algorithm_state: alg, consecutive_violations: 0, banned_until_ms: None },
            Decision::Allowed,
        ),
        AlgorithmDecision::Limited { retry_after_secs } => {
            let v = violations + 1;
            if v >= config.ban_threshold {
                let s = config.ban_duration_ms / 1000;
                (
                    KeyState { algorithm_state: alg, consecutive_violations: v, banned_until_ms: Some(now.saturating_add(config.ban_duration_ms)) },
                    Decision::Banned { retry_after_secs: if s < 1 { 1 } else { s } },
                )
            } else {
                (
                    KeyState { algorithm_state: alg, consecutive_violations: v, banned_until_ms: None },
                    Decision::Limited { retry_after_secs },
                )
            }
        },
    }
}

/// How one request through the rate limiting gate was handled.
#[derive(Clone, Copy, Debug, PartialEq, Eq, Structural)]
pub enum Verdict {
    /// The IP or `User-Agent` is on the block-list: rejected outright.
    Blocked,

    /// The IP or `User-Agent` is on the allow-list: let through without
    /// being counted.
    AllowListed,

    /// Neither list matched; the algorithm and the ban decided.
    Checked(Decision),
}

impl Verdict {
    /// The name this verdict carries in the dashboard's event feed.
    pub fn label(&self) -> (r: &'static str)
        ensures
            r@ == match *self {
                Verdict::Blocked => "blocked"@,
                Verdict::AllowListed => "allow_listed"@,
                Verdict::Checked(Decision::Allowed) => "allowed"@,
                Verdict::Checked(Decision::Limited { .. }) => "limited"@,
                Verdict::Checked(Decision::Banned { .. }) => "banned"@,
            },
    {
        match self {
            Verdict::Blocked => "blocked",
            Verdict::AllowListed => "allow_listed",
            Verdict::Checked(Decision::Allowed) => "allowed",
            Verdict::Checked(Decision::Limited { .. }) => "limited",
            Verdict::Checked(Decision::Banned { .. }) => "banned",
        }
    }

    /// Seconds until the client may retry, if the verdict carries one.
    pub fn retry_after_secs(&self) -> (r: Option<u64>)
        ensures
            r == match *self {
                Verdict::Checked(Decision::Limited { retry_after_secs }) => Some(retry_after_secs),
                Verdict::Checked(Decision::Banned { retry_after_secs }) => Some(retry_after_secs),
                _ => None,
            },
    {
        match self {
            Verdict::Checked(Decision::Limited { retry_after_secs }) => Some(*retry_after_secs),
            Verdict::Checked(Decision::Banned { retry_after_secs }) => Some(*retry_after_secs),
            _ => None,
        }
    }

    /// The response status that rejects the request, or `None` if it may
    /// go through: `403 Forbidden` when block-listed or banned, `429 Too
    /// Many Requests` when limited.
    pub fn rejection_status(&self) -> (r: Option<u16>)
        ensures
            r == match *self {
                Verdict::Blocked => Some(403u16),
                Verdict::Checked(Decision::Limited { .. }) => Some(429u16),
                Verdict::Checked(Decision::Banned { .. }) => Some(403u16),
                _ => None,
            },
    {
        match self {
            Verdict::Blocked => Some(403),
            Verdict::Checked(Decision::Limited { .. }) => Some(429),
            Verdict::Checked(Decision::Banned { .. }) => Some(403),
            _ => None,
        }
    }
}

/// Introspection for one key, as reported by the status endpoint.
#[derive(Debug, PartialEq, Eq)]
pub struct StatusReport {
    /// The key that was inspected.
    pub key: String,

    /// Whether that key is currently banned.
    pub banned: bool,

    /// Seconds remaining on the ban, if any.
    pub retry_after_secs: Option<u64>,

    /// Whether the caller's IP or `User-Agent` is on the block-list
    /// (always `false` for a key given explicitly).
    pub blocked: bool,

    /// Whether the caller's IP or `User-Agent` is on the allow-list
    /// (always `false` for a key given explicitly).
    pub allow_listed: bool,
}

/// One known key, as listed in the dashboard's snapshot.
#[derive(Debug, PartialEq, Eq)]
pub struct RateLimitKeyEntry {
    /// The key itself.
    pub key: String,

    /// Whether the key is currently banned.
    pub banned: bool,

    /// Seconds remaining on the ban, if any.
    pub retry_after_secs: Option<u64>,

    /// Consecutive violations recorded since the key was last allowed.
    pub consecutive_violations: u32,
}

/// Shared rate limiting state: the current configuration and every
/// key's counters.
pub struct RateLimitState {
    config: RateLimitConfig,
    keys: DashMap<String, KeyState>,
}

impl RateLimitState {
    /// The configuration in force.
    pub closed spec fn policy(&self) -> RateLimitConfig {
        self.config
    }

    /// Every key's recorded state.
    pub closed spec fn known(&self) -> Map<Seq<char>, KeyState> {
        key_states(self.keys)
    }

    /// Every recorded key is consistent with the configuration: its
    /// bookkeeping belongs to the configured algorithm, and unless it is
    /// banned its violations are below the ban threshold.
    pub open spec fn wf(&self) -> bool {
        forall|k: Seq<char>| #[trigger] self.known().contains_key(k) ==> key_consistent(self.known()[k], self.policy())
    }

    /// A limiter enforcing `config`, with no key known yet.
    pub fn new(config: RateLimitConfig) -> (r: Self)
        ensures
            r.wf(),
            r.policy() == config,
            r.known() == no_keys(),
    {
        RateLimitState { config, keys: key_map_new() }
    }

    /// Returns the current configuration.
    pub fn config(&self) -> (r: &RateLimitConfig)
        ensures
            *r == self.policy(),
    {
        &self.config
    }

    /// Replaces the current configuration and clears every key's state,
    /// since counters from the old algorithm don't carry meaning under
    /// the new one.
    pub fn configure(&mut self, config: RateLimitConfig)
        ensures
            final(self).wf(),
            final(self).policy() == config,
            final(self).known() == no_keys(),
    {
        self.config = config;
        key_map_clear(&mut self.keys);
    }

    /// Clears every key's counters and bans, without changing the
    /// configuration.
    pub fn reset(&mut self)
        ensures
            final(self).wf(),
            final(self).policy() == old(self).policy(),
            final(self).known() == no_keys(),
    {
        key_map_clear(&mut self.keys);
    }

    /// Evaluates `key` at `now` against the current configuration,
    /// recording its new state; no other key is touched.
    pub fn check(&mut self, key: &str, now: u64) -> (r: Decision)
        requires
            old(self).wf(),
        ensures
            final(self).wf(),
            final(self).policy() == old(self).policy(),
            ({
                let (next, decision) = key_step(
                    old(self).policy(),
                    prior_state(old(self).known(), key@, old(self).policy(), now),
                    now,
                );
                &&& r == decision
                &&& final(self).known() == old(self).known().insert(key@, next)
            }),
    {
        let prior = match key_map_get(&self.keys, key) {
            Some(ks) => ks,
            None => KeyState {
                algorithm_state: AlgorithmState::new(&self.config.algorithm, now),
                consecutive_violations: 0,
                banned_until_ms: None,
            },
        };
        let (next, decision) = step_key(&self.config, prior, now);
        key_map_insert(&mut self.keys, key, next);
        proof {
            assert forall|k: Seq<char>| #[trigger] key_states(self.keys).contains_key(k) implies key_consistent(
                key_states(self.keys)[k],
                self.config,
            ) by {
                if k != key@ {
                    assert(key_states(old(self).keys).contains_key(k));
                }
            }
        }
        decision
    }

    /// Returns introspection data for `key` at `now`, without mutating
    /// its state.
    pub fn status(&self, key: &str, now: u64) -> (r: KeyStatus)
        ensures
            r == status_of(self.known(), key@, now),
    {
        match key_map_get(&self.keys, key) {
            Some(ks) => match ks.banned_until_ms {
                Some(until) => {
                    if now < until {
                        let s = (until - now) / 1000;
                        KeyStatus { banned: true, retry_after_secs: Some(if s < 1 { 1 } else { s }) }
                    } else {
                        KeyStatus { banned: false, retry_after_secs: None }
                    }
                },
                None => KeyStatus { banned: false, retry_after_secs: None },
            },
            None => KeyStatus { banned: false, retry_after_secs: None },
        }
    }

    /// Gates one request: a block-list match always wins, then an
    /// allow-list match bypasses the algorithm entirely (never counted,
    /// never banned); only then is the request's key checked.
    ///
    /// `forwarded_for` and `user_agent_header` are the request's
    /// `X-Forwarded-For` and `User-Agent` headers as text, if present;
    /// `peer_ip` is the TCP peer's address.
    pub fn decide(
        &mut self,
        forwarded_for: Option<&str>,
        user_agent_header: Option<&str>,
        peer_ip: &str,
        now: u64,
    ) -> (r: Verdict)
        requires
            old(self).wf(),
        ensures
            final(self).wf(),
            final(self).policy() == old(self).policy(),
            ({
                let config = old(self).policy();
                let ip = client_ip_of(opt_chars(forwarded_for), peer_ip@);
                let ua = user_agent_of(opt_chars(user_agent_header));
                let key = key_of(config.key_strategy, ip, ua);
                let (next, decision) = key_step(config, prior_state(old(self).known(), key, config, now), now);
                if blocked_by(config, ip, ua) {
                    r == Verdict::Blocked && final(self).known() == old(self).known()
                } else if allowed_by(config, ip, ua) {
                    r == Verdict::AllowListed && final(self).known() == old(self).known()
                } else {
                    r == Verdict::Checked(decision) && final(self).known() == old(self).known().insert(key, next)
                }
            }),
    {
        let ip = client_ip(forwarded_for, peer_ip);
        let ua = user_agent(user_agent_header);
        if self.config.is_blocked(ip.as_str(), ua.as_str()) {
            return Verdict::Blocked;
        }
        if self.config.is_allow_listed(ip.as_str(), ua.as_str()) {
            return Verdict::AllowListed;
        }
        let key = extract_key(self.config.key_strategy, forwarded_for, user_agent_header, peer_ip);
        Verdict::Checked(self.check(key.as_str(), now))
    }

    /// Introspection for the status endpoint: `key_param` when given
    /// (then never reported blocked or allow-listed, since list matching
    /// works off the request's own IP and `User-Agent`), else the
    /// caller's own key.
    pub fn status_report(
        &self,
        key_param: Option<&str>,
        forwarded_for: Option<&str>,
        user_agent_header: Option<&str>,
        peer_ip: &str,
        now: u64,
    ) -> (r: StatusReport)
        ensures
            ({
                let config = self.policy();
                let ip = client_ip_of(opt_chars(forwarded_for), peer_ip@);
                let ua = user_agent_of(opt_chars(user_agent_header));
                let key = match key_param {
                    Some(k) => k@,
                    None => key_of(config.key_strategy, ip, ua),
                };
                let status = status_of(self.known(), key, now);
                &&& r.key@ == key
                &&& r.banned == status.banned
                &&& r.retry_after_secs == status.retry_after_secs
                &&& r.blocked == (key_param is None && blocked_by(config, ip, ua))
                &&& r.allow_listed == (key_param is None && allowed_by(config, ip, ua))
            }),
    {
        let (key, blocked, allow_listed) = match key_param {
            Some(k) => (String::from_str(k), false, false),
            None => {
                let ip = client_ip(forwarded_for, peer_ip);
                let ua = user_agent(user_agent_header);
                let key = extract_key(self.config.key_strategy, forwarded_for, user_agent_header, peer_ip);
                let blocked = self.config.is_blocked(ip.as_str(), ua.as_str());
                let allow_listed = self.config.is_allow_listed(ip.as_str(), ua.as_str());
                (key, blocked, allow_listed)
            },
        };
        let status = self.status(key.as_str(), now);
        StatusReport { key, banned: status.banned, retry_after_secs: status.retry_after_secs, blocked, allow_listed }
    }

    /// Every known key with its ban state at `now` and its violation
    /// count, each once, in no particular order.
    pub fn snapshot(&self, now: u64) -> (r: Vec<RateLimitKeyEntry>)
        ensures
            forall|i: int| 0 <= i < r@.len() ==> {
                let e = #[trigger] r@[i];
                &&& self.known().contains_key(e.key@)
                &&& e.banned == status_of(self.known(), e.key@, now).banned
                &&& e.retry_after_secs == status_of(self.known(), e.key@, now).retry_after_secs
                &&& e.consecutive_violations == self.known()[e.key@].consecutive_violations
            },
            forall|k: Seq<char>| #[trigger] self.known().contains_key(k) ==> exists|i: int| 0 <= i < r@.len() && r@[i].key@ == k,
            forall|i: int, j: int| 0 <= i < j < r@.len() ==> r@[i].key@ != r@[j].key@,
    {
        let entries = key_map_entries(&self.keys);
        let mut out: Vec<RateLimitKeyEntry> = Vec::new();
        let mut i: usize = 0;
        while i < entries.len()
            invariant
                i <= entries.len(),
                out@.len() == i,
                forall|j: int| 0 <= j < entries@.len() ==> #[trigger] key_states(self.keys).contains_key(entries@[j].0@)
                    && key_states(self.keys)[entries@[j].0@] == entries@[j].1,
                forall|j: int| 0 <= j < i ==> {
                    let e = #[trigger] out@[j];
                    &&& e.key@ == entries@[j].0@
                    &&& e.banned == status_of(self.known(), e.key@, now).banned
                    &&& e.retry_after_secs == status_of(self.known(), e.key@, now).retry_after_secs
                    &&& e.consecutive_violations == entries@[j].1.consecutive_violations
                },
            decreases entries.len() - i,
        {
            let key = entries[i].0.clone();
            let status = self.status(key.as_str(), now);
            out.push(RateLimitKeyEntry {
                key,
                banned: status.banned,
                retry_after_secs: status.retry_after_secs,
                consecutive_violations: entries[i].1.consecutive_violations,
            });
            i = i + 1;
        }
        proof {
            assert forall|k: Seq<char>| #[trigger] self.known().contains_key(k) implies exists|i: int| 0 <= i < out@.len() && out@[i].key@ == k by {
                let j = choose|j: int| 0 <= j < entries@.len() && entries@[j].0@ == k;
                assert(out@[j].key@ == k);
            }
            assert forall|a: int, b: int| 0 <= a < b < out@.len() implies out@[a].key@ != out@[b].key@ by {
                assert(out@[a].key@ == entries@[a].0@);
                assert(out@[b].key@ == entries@[b].0@);
            }
        }
        out
    }
}

impl Default for RateLimitState {
    /// The default policy (see [`RateLimitConfig::default`]), no key
    /// known yet.
    fn default() -> (r: Self)
        ensures
            r.wf(),
            r.known() == no_keys(),
    {
        RateLimitState::new(RateLimitConfig::default())
    }
}

} // verus!
