use bot_camp::rate_limit::algorithm::{
    check_fixed_window, check_min_interval, check_sliding_window, check_token_bucket, Algorithm,
    AlgorithmDecision, AlgorithmState,
};
use bot_camp::rate_limit::key::{client_ip, extract_key, user_agent, KeyStrategy};
use bot_camp::rate_limit::{Decision, RateLimitConfig, RateLimitState, Verdict};

const START: u64 = 1_000_000;

fn config_with(algorithm: Algorithm, ban_threshold: u32) -> RateLimitConfig {
    RateLimitConfig {
        algorithm,
        key_strategy: KeyStrategy::Ip,
        ban_threshold,
        ban_duration_ms: 200,
        allow_ips: Vec::new(),
        block_ips: Vec::new(),
        allow_user_agents: Vec::new(),
        block_user_agents: Vec::new(),
    }
}

fn state_with(algorithm: Algorithm, ban_threshold: u32) -> RateLimitState {
    RateLimitState::new(config_with(algorithm, ban_threshold))
}

fn slow_bucket(capacity: u32) -> Algorithm {
    // 0.001 tokens per second.
    Algorithm::TokenBucket { capacity, refill_per_sec_micros: 1_000 }
}

#[test]
fn token_bucket_allows_bursts_up_to_capacity() {
    let algorithm = Algorithm::TokenBucket { capacity: 3, refill_per_sec_micros: 1_000_000 };
    let now = START;
    let mut state = AlgorithmState::new(&algorithm, now);

    for _ in 0..3 {
        assert!(matches!(state.check(&algorithm, now), AlgorithmDecision::Allowed));
    }
    assert!(matches!(state.check(&algorithm, now), AlgorithmDecision::Limited { .. }));
}

#[test]
fn token_bucket_refills_over_time() {
    let algorithm = Algorithm::TokenBucket { capacity: 1, refill_per_sec_micros: 2_000_000 };
    let now = START;
    let mut state = AlgorithmState::new(&algorithm, now);

    assert!(matches!(state.check(&algorithm, now), AlgorithmDecision::Allowed));
    assert!(matches!(state.check(&algorithm, now), AlgorithmDecision::Limited { .. }));

    let later = now + 600;
    assert!(matches!(state.check(&algorithm, later), AlgorithmDecision::Allowed));
}

#[test]
fn fixed_window_resets_after_the_window_elapses() {
    let algorithm = Algorithm::FixedWindow { limit: 2, window_ms: 1000 };
    let now = START;
    let mut state = AlgorithmState::new(&algorithm, now);

    assert!(matches!(state.check(&algorithm, now), AlgorithmDecision::Allowed));
    assert!(matches!(state.check(&algorithm, now), AlgorithmDecision::Allowed));
    assert!(matches!(state.check(&algorithm, now), AlgorithmDecision::Limited { .. }));

    let next_window = now + 1001;
    assert!(matches!(state.check(&algorithm, next_window), AlgorithmDecision::Allowed));
}

#[test]
fn sliding_window_weighs_the_previous_window_down_over_time() {
    let algorithm = Algorithm::SlidingWindow { limit: 2, window_ms: 1000 };
    let now = START;
    let mut state = AlgorithmState::new(&algorithm, now);

    assert!(matches!(state.check(&algorithm, now), AlgorithmDecision::Allowed));
    assert!(matches!(state.check(&algorithm, now), AlgorithmDecision::Allowed));

    let early_next = now + 1050;
    assert!(matches!(state.check(&algorithm, early_next), AlgorithmDecision::Allowed));
    assert!(matches!(state.check(&algorithm, early_next), AlgorithmDecision::Limited { .. }));

    let late_next = now + 1950;
    assert!(matches!(state.check(&algorithm, late_next), AlgorithmDecision::Allowed));
}

#[test]
fn token_bucket_retry_after_rounds_the_missing_token_up() {
    // Empty bucket refilling at 0.3 tokens per second: a whole token
    // takes 3.33 s, so retry after 4.
    let (state, decision) = check_token_bucket(0, START, 5, 300_000, START);
    assert_eq!(decision, AlgorithmDecision::Limited { retry_after_secs: 4 });
    assert_eq!(state, AlgorithmState::TokenBucket { tokens_billionths: 0, last_refill_ms: START });

    // Half a token left at two tokens per second: a quarter of a second,
    // reported as at least one.
    let (_, decision) = check_token_bucket(500_000_000, START, 5, 2_000_000, START);
    assert_eq!(decision, AlgorithmDecision::Limited { retry_after_secs: 1 });
}

#[test]
fn token_bucket_never_refills_beyond_capacity() {
    let (state, decision) = check_token_bucket(0, START, 2, 1_000_000, START + 60_000);
    assert_eq!(decision, AlgorithmDecision::Allowed);
    assert_eq!(state, AlgorithmState::TokenBucket { tokens_billionths: 1_000_000_000, last_refill_ms: START + 60_000 });
}

#[test]
fn token_bucket_with_no_refill_reports_the_longest_wait() {
    let (_, decision) = check_token_bucket(0, START, 1, 0, START);
    assert_eq!(decision, AlgorithmDecision::Limited { retry_after_secs: u64::MAX });
}

#[test]
fn fixed_window_reports_the_rest_of_the_window() {
    let (state, decision) = check_fixed_window(START, 3, 3, 10_000, START + 2_500);
    assert_eq!(decision, AlgorithmDecision::Limited { retry_after_secs: 7 });
    assert_eq!(state, AlgorithmState::FixedWindow { window_start_ms: START, count: 3 });

    let (_, decision) = check_fixed_window(START, 3, 3, 10_000, START + 9_900);
    assert_eq!(decision, AlgorithmDecision::Limited { retry_after_secs: 1 });
}

#[test]
fn sliding_window_forgets_everything_after_two_windows() {
    let (state, decision) = check_sliding_window(START, 5, 5, 5, 1000, START + 2000);
    assert_eq!(decision, AlgorithmDecision::Allowed);
    assert_eq!(
        state,
        AlgorithmState::SlidingWindow { window_start_ms: START + 2000, current_count: 1, previous_count: 0 }
    );
}

#[test]
fn sliding_window_rolls_one_window_forward() {
    let (state, decision) = check_sliding_window(START, 2, 0, 2, 1000, START + 1500);
    // Previous count 2 weighted by one half, plus nothing: 1 < 2.
    assert_eq!(decision, AlgorithmDecision::Allowed);
    assert_eq!(
        state,
        AlgorithmState::SlidingWindow { window_start_ms: START + 1000, current_count: 1, previous_count: 2 }
    );
}

#[test]
fn min_interval_limits_a_request_that_arrives_too_soon() {
    let (state, decision) = check_min_interval(None, 1000, START);
    assert_eq!(decision, AlgorithmDecision::Allowed);
    assert_eq!(state, AlgorithmState::MinInterval { last_request_ms: Some(START) });

    let (state, decision) = check_min_interval(Some(START), 1000, START + 200);
    assert_eq!(decision, AlgorithmDecision::Limited { retry_after_secs: 1 });
    assert_eq!(state, AlgorithmState::MinInterval { last_request_ms: Some(START + 200) });

    let (_, decision) = check_min_interval(Some(START), 5000, START + 1000);
    assert_eq!(decision, AlgorithmDecision::Limited { retry_after_secs: 4 });

    let (state, decision) = check_min_interval(Some(START), 1000, START + 1000);
    assert_eq!(decision, AlgorithmDecision::Allowed);
    assert_eq!(state, AlgorithmState::MinInterval { last_request_ms: Some(START + 1000) });
}

#[test]
fn ip_strategy_prefers_x_forwarded_for_over_the_peer_address() {
    let key = extract_key(KeyStrategy::Ip, Some("198.51.100.7, 10.0.0.1"), None, "203.0.113.1");

    assert_eq!(key, "198.51.100.7");
}

#[test]
fn ip_strategy_falls_back_to_the_peer_address() {
    let key = extract_key(KeyStrategy::Ip, None, None, "203.0.113.1");

    assert_eq!(key, "203.0.113.1");
}

#[test]
fn user_agent_strategy_reads_the_header() {
    let key = extract_key(KeyStrategy::UserAgent, None, Some("test-bot/1.0"), "203.0.113.1");

    assert_eq!(key, "test-bot/1.0");
}

#[test]
fn both_strategy_combines_ip_and_user_agent() {
    let key = extract_key(KeyStrategy::Both, None, Some("test-bot/1.0"), "203.0.113.1");

    assert_eq!(key, "203.0.113.1|test-bot/1.0");
}

#[test]
fn client_ip_trims_the_first_forwarded_value() {
    assert_eq!(client_ip(Some("  198.51.100.7  "), "203.0.113.1"), "198.51.100.7");
    assert_eq!(client_ip(Some(""), "203.0.113.1"), "");
}

#[test]
fn a_missing_user_agent_reads_as_unknown() {
    assert_eq!(user_agent(None), "unknown");
    assert_eq!(extract_key(KeyStrategy::Both, None, None, "203.0.113.1"), "203.0.113.1|unknown");
}

#[test]
fn allows_requests_within_the_configured_limit() {
    let mut state = state_with(slow_bucket(2), 10);

    assert_eq!(state.check("a", START), Decision::Allowed);
    assert_eq!(state.check("a", START), Decision::Allowed);
}

#[test]
fn limits_requests_beyond_the_configured_capacity() {
    let mut state = state_with(slow_bucket(1), 10);

    assert_eq!(state.check("a", START), Decision::Allowed);
    assert!(matches!(state.check("a", START), Decision::Limited { .. }));
}

#[test]
fn bans_a_key_after_reaching_the_violation_threshold() {
    let mut state = state_with(slow_bucket(1), 2);

    assert_eq!(state.check("a", START), Decision::Allowed);
    assert!(matches!(state.check("a", START), Decision::Limited { .. }));
    assert!(matches!(state.check("a", START), Decision::Banned { .. }));
}

#[test]
fn mod_a_ban_expires_after_its_configured_duration() {
    let mut state = state_with(Algorithm::TokenBucket { capacity: 1, refill_per_sec_micros: 1_000_000_000 }, 1);

    assert_eq!(state.check("a", START), Decision::Allowed);
    assert!(matches!(state.check("a", START), Decision::Banned { .. }));

    assert_eq!(state.check("a", START + 250), Decision::Allowed);
}

#[test]
fn different_keys_are_tracked_independently() {
    let mut state = state_with(slow_bucket(1), 10);

    assert_eq!(state.check("a", START), Decision::Allowed);
    assert_eq!(state.check("b", START), Decision::Allowed);
}

#[test]
fn reset_clears_every_key() {
    let mut state = state_with(slow_bucket(1), 10);

    assert_eq!(state.check("a", START), Decision::Allowed);
    assert!(matches!(state.check("a", START), Decision::Limited { .. }));

    state.reset();

    assert_eq!(state.check("a", START), Decision::Allowed);
}

#[test]
fn configure_replaces_the_policy_and_clears_state() {
    let mut state = state_with(slow_bucket(1), 10);

    assert_eq!(state.check("a", START), Decision::Allowed);

    state.configure(config_with(slow_bucket(5), 10));

    assert_eq!(state.check("a", START), Decision::Allowed);
    assert_eq!(state.config().ban_threshold, 10);
}

#[test]
fn mod_status_reports_unbanned_for_an_unknown_key() {
    let state = RateLimitState::default();

    let status = state.status("unknown", START);

    assert!(!status.banned);
    assert!(status.retry_after_secs.is_none());
}

#[test]
fn status_reports_the_remaining_ban_in_whole_seconds() {
    let mut config = config_with(slow_bucket(1), 1);
    config.ban_duration_ms = 5_500;
    let mut state = RateLimitState::new(config);

    assert_eq!(state.check("a", START), Decision::Allowed);
    assert_eq!(state.check("a", START), Decision::Banned { retry_after_secs: 5 });

    let status = state.status("a", START + 100);
    assert!(status.banned);
    assert_eq!(status.retry_after_secs, Some(5));

    let status = state.status("a", START + 5_000);
    assert_eq!(status.retry_after_secs, Some(1));

    assert!(!state.status("a", START + 5_500).banned);
}

#[test]
fn a_banned_key_is_answered_banned_until_the_ban_ends() {
    let mut state = state_with(slow_bucket(1), 1);

    assert_eq!(state.check("a", START), Decision::Allowed);
    assert!(matches!(state.check("a", START), Decision::Banned { .. }));
    assert!(matches!(state.check("a", START + 100), Decision::Banned { retry_after_secs: 1 }));
}

#[test]
fn the_default_policy_is_a_ten_request_bucket_keyed_by_ip() {
    let config = RateLimitConfig::default();

    assert_eq!(config.algorithm, Algorithm::TokenBucket { capacity: 10, refill_per_sec_micros: 1_000_000 });
    assert_eq!(config.key_strategy, KeyStrategy::Ip);
    assert_eq!(config.ban_threshold, 3);
    assert_eq!(config.ban_duration_ms, 300_000);
}

#[test]
fn block_and_allow_lists_match_substrings() {
    let mut config = config_with(slow_bucket(1), 10);
    config.block_ips = vec!["203.0.113.22".to_string()];
    config.allow_ips = vec!["203.0.113.22".to_string(), "203.0.113.21".to_string()];
    config.block_user_agents = vec!["evil".to_string()];

    assert!(config.is_blocked("203.0.113.22", "bot"));
    assert!(config.is_blocked("10.0.0.1", "some-evil-bot"));
    assert!(!config.is_blocked("203.0.113.21", "bot"));
    assert!(config.is_allow_listed("203.0.113.21", "bot"));
    assert!(!config.is_allow_listed("10.0.0.1", "bot"));
}

#[test]
fn ratelimit_block_list_wins_over_allow_list() {
    let mut config = config_with(slow_bucket(1), 10);
    config.block_ips = vec!["203.0.113.22".to_string()];
    config.allow_ips = vec!["203.0.113.22".to_string()];
    let mut state = RateLimitState::new(config);

    let verdict = state.decide(None, None, "203.0.113.22", START);

    assert_eq!(verdict, Verdict::Blocked);
    assert_eq!(verdict.rejection_status(), Some(403));
    assert_eq!(verdict.label(), "blocked");
}

#[test]
fn ratelimit_allow_list_bypasses_the_algorithm_entirely() {
    let mut config = config_with(slow_bucket(1), 1);
    config.allow_ips = vec!["203.0.113.21".to_string()];
    let mut state = RateLimitState::new(config);

    for _ in 0..5 {
        let verdict = state.decide(None, None, "203.0.113.21", START);
        assert_eq!(verdict, Verdict::AllowListed);
        assert_eq!(verdict.rejection_status(), None);
    }
    assert!(state.snapshot(START).is_empty());
}

#[test]
fn verdicts_carry_their_status_retry_after_and_label() {
    let limited = Verdict::Checked(Decision::Limited { retry_after_secs: 3 });
    assert_eq!(limited.rejection_status(), Some(429));
    assert_eq!(limited.retry_after_secs(), Some(3));
    assert_eq!(limited.label(), "limited");

    let banned = Verdict::Checked(Decision::Banned { retry_after_secs: 9 });
    assert_eq!(banned.rejection_status(), Some(403));
    assert_eq!(banned.retry_after_secs(), Some(9));
    assert_eq!(banned.label(), "banned");

    let allowed = Verdict::Checked(Decision::Allowed);
    assert_eq!(allowed.rejection_status(), None);
    assert_eq!(allowed.retry_after_secs(), None);
    assert_eq!(allowed.label(), "allowed");
    assert_eq!(Verdict::AllowListed.label(), "allow_listed");
}

#[test]
fn ratelimit_can_key_by_user_agent_instead_of_ip() {
    let mut config = config_with(slow_bucket(1), 10);
    config.key_strategy = KeyStrategy::UserAgent;
    let mut state = RateLimitState::new(config);

    assert_eq!(state.decide(None, Some("shared-bot"), "203.0.113.7", START), Verdict::Checked(Decision::Allowed));
    assert!(matches!(
        state.decide(None, Some("shared-bot"), "203.0.113.8", START),
        Verdict::Checked(Decision::Limited { .. })
    ));
}

#[test]
fn ratelimit_status_reports_block_and_allow_list_membership() {
    let mut config = config_with(slow_bucket(1), 10);
    config.block_ips = vec!["203.0.113.23".to_string()];
    config.allow_ips = vec!["203.0.113.24".to_string()];
    let state = RateLimitState::new(config);

    let report = state.status_report(None, None, None, "203.0.113.23", START);
    assert_eq!(report.key, "203.0.113.23");
    assert!(report.blocked);
    assert!(!report.allow_listed);

    let report = state.status_report(None, None, None, "203.0.113.24", START);
    assert!(report.allow_listed);

    let report = state.status_report(Some("203.0.113.23"), None, None, "203.0.113.23", START);
    assert!(!report.blocked);
    assert!(!report.allow_listed);
}

#[test]
fn the_snapshot_lists_each_known_key_once() {
    let mut state = state_with(slow_bucket(1), 5);
    assert_eq!(state.check("a", START), Decision::Allowed);
    assert!(matches!(state.check("a", START), Decision::Limited { .. }));
    assert_eq!(state.check("b", START), Decision::Allowed);

    let mut entries = state.snapshot(START);
    entries.sort_by(|x, y| x.key.cmp(&y.key));

    assert_eq!(entries.len(), 2);
    assert_eq!(entries[0].key, "a");
    assert_eq!(entries[0].consecutive_violations, 1);
    assert!(!entries[0].banned);
    assert_eq!(entries[1].key, "b");
    assert_eq!(entries[1].consecutive_violations, 0);
}

#[test]
fn a_ban_that_would_end_past_the_last_instant_ends_there_too() {
    let mut config = config_with(slow_bucket(1), 1);
    config.ban_duration_ms = u64::MAX;
    let mut state = RateLimitState::new(config);
    let now = u64::MAX - 5_000;

    assert_eq!(state.check("a", now), Decision::Allowed);
    assert!(matches!(state.check("a", now), Decision::Banned { .. }));
    assert_eq!(state.status("a", u64::MAX - 1_000).retry_after_secs, Some(1));
    assert!(!state.status("a", u64::MAX).banned);
}

#[test]
fn one_fixed_window_admits_only_the_room_left() {
    let mut state = AlgorithmState::FixedWindow { window_start_ms: START, count: 1 };
    let algorithm = Algorithm::FixedWindow { limit: 3, window_ms: 1000 };

    let admitted = [START, START + 10, START + 500, START + 900, START + 999]
        .iter()
        .filter(|&&t| state.check(&algorithm, t) == AlgorithmDecision::Allowed)
        .count();

    assert_eq!(admitted, 2);
}

#[test]
fn a_slow_refill_is_kept_between_requests() {
    // 0.0005 tokens per second: one millisecond adds 500 billionths.
    let (state, decision) = check_token_bucket(0, START, 1, 500, START + 1);
    assert!(matches!(decision, AlgorithmDecision::Limited { .. }));
    assert_eq!(state, AlgorithmState::TokenBucket { tokens_billionths: 500, last_refill_ms: START + 1 });
}

#[test]
fn a_request_every_millisecond_still_sees_the_bucket_refill() {
    // 0.0005 tokens per second refills one token in 2000 seconds, even
    // when a request arrives every millisecond.
    let algorithm = Algorithm::TokenBucket { capacity: 1, refill_per_sec_micros: 500 };
    let mut state = AlgorithmState::TokenBucket { tokens_billionths: 0, last_refill_ms: START };

    for ms in 1..2_000_000u64 {
        assert!(matches!(state.check(&algorithm, START + ms), AlgorithmDecision::Limited { .. }));
    }
    assert_eq!(state.check(&algorithm, START + 2_000_000), AlgorithmDecision::Allowed);
}
