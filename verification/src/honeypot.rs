//! Honeypot: an instant, unconditional ban for any client that reaches
//! the trap — a well-behaved crawler should never fetch anything there,
//! since the only way in is a link hidden from real users. Kept
//! entirely separate from the rate limiter: a different violation, a
//! different store, its own configuration, reset and status.

use dashmap::DashMap;
use vstd::prelude::*;

use crate::rate_limit::key::{client_ip_of, extract_key, key_of, opt_chars, user_agent_of, KeyStrategy};
use crate::rate_limit::{ban_end, secs_at_least_one, KeyStatus};

verus! {

/// Runtime-configurable honeypot policy.
#[derive(Clone, Copy, Debug, PartialEq, Eq, Structural)]
pub struct HoneypotConfig {
    /// How a client is identified: by IP, `User-Agent`, or both.
    pub key_strategy: KeyStrategy,

    /// Ban duration, in milliseconds, once a key reaches the trap.
    pub ban_duration_ms: u64,
}

impl Default for HoneypotConfig {
    /// Keyed by IP, banning for ten minutes.
    fn default() -> (r: Self)
        ensures
            r.key_strategy == KeyStrategy::Ip,
            r.ban_duration_ms == 600_000,
    {
        HoneypotConfig { key_strategy: KeyStrategy::Ip, ban_duration_ms: 600_000 }
    }
}

/// When a caught key's ban ends, by key.
pub uninterp spec fn ban_ends(map: DashMap<String, u64>) -> Map<Seq<char>, u64>;

/// No ban at all.
pub open spec fn no_bans() -> Map<Seq<char>, u64> {
    Map::empty()
}

/// `DashMap::new`: an empty map.
#[verifier::external_body]
fn ban_map_new() -> (r: DashMap<String, u64>)
    ensures
        ban_ends(r) == no_bans(),
{
    DashMap::new()
}

/// `DashMap::get`, copying out the ban end recorded for `key`, if any.
#[verifier::external_body]
fn ban_map_get(map: &DashMap<String, u64>, key: &str) -> (r: Option<u64>)
    ensures
        r == ban_ends(*map).index_opt(key@),
{
    map.get(key).map(|entry| *entry.value())
}

/// `DashMap::insert`: records `until` for `key`, replacing what was
/// there.
#[verifier::external_body]
fn ban_map_insert(map: &mut DashMap<String, u64>, key: &str, until: u64)
    ensures
        ban_ends(*final(map)) == ban_ends(*old(map)).insert(key@, until),
{
    map.insert(key.to_string(), until);
}

/// `DashMap::clear`: forgets every ban.
#[verifier::external_body]
fn ban_map_clear(map: &mut DashMap<String, u64>)
    ensures
        ban_ends(*final(map)) == no_bans(),
{
    map.clear();
}

/// `DashMap::iter`, copying out every key and its ban end, each key
/// once, in whatever order the map walks them.
#[verifier::external_body]
fn ban_map_entries(map: &DashMap<String, u64>) -> (r: Vec<(String, u64)>)
    ensures
        forall|i: int| 0 <= i < r@.len() ==> #[trigger] ban_ends(*map).contains_key(r@[i].0@)
            && ban_ends(*map)[r@[i].0@] == r@[i].1,
        forall|k: Seq<char>| #[trigger] ban_ends(*map).contains_key(k) ==> exists|i: int| 0 <= i < r@.len() && r@[i].0@ == k,
        forall|i: int, j: int| 0 <= i < j < r@.len() ==> r@[i].0@ != r@[j].0@,
{
    map.iter().map(|entry| (entry.key().clone(), *entry.value())).collect()
}

/// Seconds left on `key`'s ban at `now`, if it is banned.
pub open spec fn ban_left(bans: Map<Seq<char>, u64>, key: Seq<char>, now: u64) -> Option<u64> {
    if bans.contains_key(key) && now < bans[key] {
        Some(secs_at_least_one(bans[key] - now))
    } else {
        None
    }
}

/// One caught key, as listed in the dashboard's snapshot.
#[derive(Debug, PartialEq, Eq)]
pub struct HoneypotKeyEntry {
    /// The key itself.
    pub key: String,

    /// Always `true`: only keys still banned are listed.
    pub banned: bool,

    /// Seconds remaining on the ban.
    pub retry_after_secs: Option<u64>,
}

/// Shared honeypot state: the current configuration and every caught
/// key's ban expiry.
pub struct HoneypotState {
    config: HoneypotConfig,
    banned: DashMap<String, u64>,
}

impl HoneypotState {
    /// The configuration in force.
    pub closed spec fn policy(&self) -> HoneypotConfig {
        self.config
    }

    /// When each caught key's ban ends.
    pub closed spec fn bans(&self) -> Map<Seq<char>, u64> {
        ban_ends(self.banned)
    }

    /// A honeypot enforcing `config`, with nobody caught yet.
    pub fn new(config: HoneypotConfig) -> (r: Self)
        ensures
            r.policy() == config,
            r.bans() == no_bans(),
    {
        HoneypotState { config, banned: ban_map_new() }
    }

    /// Returns the current configuration.
    pub fn config(&self) -> (r: HoneypotConfig)
        ensures
            r == self.policy(),
    {
        self.config
    }

    /// Replaces the current configuration and clears every ban.
    pub fn configure(&mut self, config: HoneypotConfig)
        ensures
            final(self).policy() == config,
            final(self).bans() == no_bans(),
    {
        self.config = config;
        ban_map_clear(&mut self.banned);
    }

    /// Clears every ban, without changing the configuration.
    pub fn reset(&mut self)
        ensures
            final(self).policy() == old(self).policy(),
            final(self).bans() == no_bans(),
    {
        ban_map_clear(&mut self.banned);
    }

    /// The key a request is tracked under, by the configured strategy.
    pub fn key_for(&self, forwarded_for: Option<&str>, user_agent_header: Option<&str>, peer_ip: &str) -> (r: String)
        ensures
            r@ == key_of(
                self.policy().key_strategy,
                client_ip_of(opt_chars(forwarded_for), peer_ip@),
                user_agent_of(opt_chars(user_agent_header)),
            ),
    {
        extract_key(self.config.key_strategy, forwarded_for, user_agent_header, peer_ip)
    }

    /// Unconditionally bans `key` from `now` for the configured
    /// duration — sprung by reaching the trap. No other key is touched.
    pub fn spring(&mut self, key: &str, now: u64)
        ensures
            final(self).policy() == old(self).policy(),
            final(self).bans() == old(self).bans().insert(key@, ban_end(now, old(self).policy().ban_duration_ms)),
    {
        ban_map_insert(&mut self.banned, key, now.saturating_add(self.config.ban_duration_ms));
    }

    /// Returns `Some(retry_after_secs)` if `key` is banned at `now`,
    /// `None` otherwise.
    pub fn retry_after_secs(&self, key: &str, now: u64) -> (r: Option<u64>)
        ensures
            r == ban_left(self.bans(), key@, now),
    {
        match ban_map_get(&self.banned, key) {
            Some(until) => {
                if now < until {
                    let s = (until - now) / 1000;
                    Some(if s < 1 { 1 } else { s })
                } else {
                    None
                }
            },
            None => None,
        }
    }

    /// Returns introspection data for `key` at `now`.
    pub fn status(&self, key: &str, now: u64) -> (r: KeyStatus)
        ensures
            r.banned == (ban_left(self.bans(), key@, now) is Some),
            r.retry_after_secs == ban_left(self.bans(), key@, now),
    {
        match self.retry_after_secs(key, now) {
            Some(retry_after_secs) => KeyStatus { banned: true, retry_after_secs: Some(retry_after_secs) },
            None => KeyStatus { banned: false, retry_after_secs: None },
        }
    }

    /// Every key still banned at `now`, each once, in no particular
    /// order.
    pub fn snapshot(&self, now: u64) -> (r: Vec<HoneypotKeyEntry>)
        ensures
            forall|i: int| 0 <= i < r@.len() ==> {
                let e = #[trigger] r@[i];
                &&& e.banned
                &&& ban_left(self.bans(), e.key@, now) is Some
                &&& e.retry_after_secs == ban_left(self.bans(), e.key@, now)
            },
            forall|k: Seq<char>| #[trigger] ban_left(self.bans(), k, now) is Some ==> exists|i: int| 0 <= i < r@.len() && r@[i].key@ == k,
            forall|i: int, j: int| 0 <= i < j < r@.len() ==> r@[i].key@ != r@[j].key@,
    {
        let entries = ban_map_entries(&self.banned);
        let ghost bans = self.bans();
        assert forall|j: int| 0 <= j < entries@.len() implies bans.contains_key(#[trigger] entries@[j].0@)
            && bans[entries@[j].0@] == entries@[j].1 by {
            assert(ban_ends(self.banned).contains_key(entries@[j].0@));
        }
        let mut out: Vec<HoneypotKeyEntry> = Vec::new();
        let mut i: usize = 0;
        let ghost mut taken: Seq<int> = Seq::empty();
        while i < entries.len()
            invariant
                i <= entries.len(),
                taken.len() == out@.len(),
                bans == self.bans(),
                forall|j: int| 0 <= j < entries@.len() ==> bans.contains_key(#[trigger] entries@[j].0@)
                    && bans[entries@[j].0@] == entries@[j].1,
                forall|a: int, b: int| 0 <= a < b < entries@.len() ==> entries@[a].0@ != entries@[b].0@,
                forall|j: int| 0 <= j < taken.len() ==> 0 <= #[trigger] taken[j] < i && out@[j].key@ == entries@[taken[j]].0@,
                forall|a: int, b: int| 0 <= a < b < taken.len() ==> taken[a] < taken[b],
                forall|j: int| 0 <= j < out@.len() ==> {
                    let e = #[trigger] out@[j];
                    &&& e.banned
                    &&& ban_left(self.bans(), e.key@, now) is Some
                    &&& e.retry_after_secs == ban_left(self.bans(), e.key@, now)
                },
                forall|j: int| 0 <= j < i && ban_left(self.bans(), #[trigger] entries@[j].0@, now) is Some
                    ==> exists|m: int| 0 <= m < out@.len() && out@[m].key@ == entries@[j].0@,
            decreases entries.len() - i,
        {
            let until = entries[i].1;
            let ghost before = out@;
            if now < until {
                let s = (until - now) / 1000;
                out.push(HoneypotKeyEntry {
                    key: entries[i].0.clone(),
                    banned: true,
                    retry_after_secs: Some(if s < 1 { 1 } else { s }),
                });
                proof {
                    taken = taken.push(i as int);
                    assert forall|j: int| 0 <= j < i + 1 && ban_left(self.bans(), #[trigger] entries@[j].0@, now) is Some
                        implies exists|m: int| 0 <= m < out@.len() && out@[m].key@ == entries@[j].0@ by {
                        if j < i {
                            let m = choose|m: int| 0 <= m < before.len() && before[m].key@ == entries@[j].0@;
                            assert(out@[m] == before[m]);
                        } else {
                            assert(out@[out@.len() - 1].key@ == entries@[i as int].0@);
                        }
                    }
                }
            }
            i = i + 1;
        }
        proof {
            assert forall|k: Seq<char>| #[trigger] ban_left(self.bans(), k, now) is Some implies exists|m: int|
                0 <= m < out@.len() && out@[m].key@ == k by {
                let j = choose|j: int| 0 <= j < entries@.len() && entries@[j].0@ == k;
                assert(ban_left(self.bans(), entries@[j].0@, now) is Some);
            }
            assert forall|a: int, b: int| 0 <= a < b < out@.len() implies out@[a].key@ != out@[b].key@ by {
                assert(taken[a] < taken[b]);
            }
        }
        out
    }
}

impl Default for HoneypotState {
    /// The default policy (see [`HoneypotConfig::default`]), nobody
    /// caught yet.
    fn default() -> (r: Self)
        ensures
            r.policy().key_strategy == KeyStrategy::Ip,
            r.policy().ban_duration_ms == 600_000,
            r.bans() == no_bans(),
    {
        HoneypotState::new(HoneypotConfig::default())
    }
}

/// A sprung trap bans the visiting key right away: from the moment the
/// trap is sprung until the configured duration has passed, the key is
/// reported banned, with the time left rounded down to whole seconds
/// (at least one).
pub proof fn law_springing_bans_the_key(bans: Map<Seq<char>, u64>, key: Seq<char>, now: u64, duration_ms: u64, later: u64)
    requires
        now <= later < ban_end(now, duration_ms),
    ensures
        ban_left(bans.insert(key, ban_end(now, duration_ms)), key, later) == Some(
            secs_at_least_one(ban_end(now, duration_ms) - later),
        ),
{
}

/// A ban ends on time: once its duration has passed, the key is no
/// longer reported banned.
pub proof fn law_ban_expires(bans: Map<Seq<char>, u64>, key: Seq<char>, now: u64, duration_ms: u64, later: u64)
    requires
        ban_end(now, duration_ms) <= later,
    ensures
        ban_left(bans.insert(key, ban_end(now, duration_ms)), key, later) is None,
{
}

/// Springing the trap for one key leaves every other key as it was.
pub proof fn law_other_keys_unaffected(bans: Map<Seq<char>, u64>, key: Seq<char>, other: Seq<char>, until: u64, now: u64)
    requires
        other != key,
    ensures
        ban_left(bans.insert(key, until), other, now) == ban_left(bans, other, now),
{
}

/// After a reset or a new configuration (both leave [`no_bans`]),
/// nobody is banned.
pub proof fn law_reset_clears_every_ban(key: Seq<char>, now: u64)
    ensures
        ban_left(no_bans(), key, now) is None,
{
}

/// The bans after a history of honeypot operations, oldest first: each
/// entry is a spring (the key, when, and the ban duration then in force)
/// or, as `None`, a reset or a new configuration — which is what
/// [`HoneypotState::spring`], [`HoneypotState::reset`] and
/// [`HoneypotState::configure`] do to [`HoneypotState::bans`].
pub open spec fn bans_after(history: Seq<Option<(Seq<char>, u64, u64)>>) -> Map<Seq<char>, u64>
    decreases history.len(),
{
    if history.len() == 0 {
        no_bans()
    } else {
        match history.last() {
            None => no_bans(),
            Some((key, at, duration_ms)) => bans_after(history.drop_last()).insert(key, ban_end(at, duration_ms)),
        }
    }
}

/// When `key` last sprang the trap since the last reset or new
/// configuration, and the ban duration then in force.
pub open spec fn last_spring(history: Seq<Option<(Seq<char>, u64, u64)>>, key: Seq<char>) -> Option<(u64, u64)>
    decreases history.len(),
{
    if history.len() == 0 {
        None
    } else {
        match history.last() {
            None => None,
            Some((k, at, duration_ms)) => if k == key {
                Some((at, duration_ms))
            } else {
                last_spring(history.drop_last(), key)
            },
        }
    }
}

/// Over any history, a key is banned exactly from its last spring since
/// the last reset or new configuration until that spring's time plus the
/// duration then in force, with the whole seconds left (at least one);
/// a key never sprung since then is not banned.
pub proof fn law_a_ban_lasts_from_the_last_spring_for_its_duration(
    history: Seq<Option<(Seq<char>, u64, u64)>>,
    key: Seq<char>,
    now: u64,
)
    ensures
        ban_left(bans_after(history), key, now) == match last_spring(history, key) {
            Some((at, duration_ms)) => if now < ban_end(at, duration_ms) {
                Some(secs_at_least_one(ban_end(at, duration_ms) - now))
            } else {
                None
            },
            None => None,
        },
    decreases history.len(),
{
    lemma_bans_after(history, key);
}

proof fn lemma_bans_after(history: Seq<Option<(Seq<char>, u64, u64)>>, key: Seq<char>)
    ensures
        bans_after(history).contains_key(key) == last_spring(history, key) is Some,
        last_spring(history, key) matches Some((at, duration_ms)) ==> bans_after(history)[key] == ban_end(at, duration_ms),
    decreases history.len(),
{
    if history.len() > 0 {
        lemma_bans_after(history.drop_last(), key);
    }
}

} // verus!
