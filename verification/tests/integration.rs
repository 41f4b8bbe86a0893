use bot_camp::challenge::{challenge_page, is_solved, ChallengeConfig, ChallengeState};
use bot_camp::honeypot::{HoneypotConfig, HoneypotState};
use bot_camp::rate_limit::algorithm::Algorithm;
use bot_camp::rate_limit::key::KeyStrategy;
use bot_camp::rate_limit::{Decision, RateLimitConfig, RateLimitState, Verdict};
use bot_camp::routes::auth::basic;
use bot_camp::routes::canonical::{broken_html, canonical, CanonicalParams};
use bot_camp::routes::encoding::{default_charset, default_text, encoding, EncodingParams};
use bot_camp::routes::js_render::{js_render, JsRenderParams};
use bot_camp::routes::content::{content, ContentParams};
use bot_camp::routes::headers::echo;
use bot_camp::routes::playground::{challenge_probe, honeypot_trap, large_response, ratelimit_probe};
use bot_camp::routes::redirect::{redirect, redirect_chain, redirect_loop, redirect_meta_refresh, redirect_refresh};
use bot_camp::routes::robots::{robots_meta, RobotsTxt};
use bot_camp::routes::status::status;

const NOW: u64 = 10_000_000;

fn configured(capacity: u32, ban_threshold: u32, key_strategy: KeyStrategy) -> RateLimitState {
    RateLimitState::new(RateLimitConfig {
        // 0.0001 tokens per second.
        algorithm: Algorithm::TokenBucket { capacity, refill_per_sec_micros: 100 },
        key_strategy,
        ban_threshold,
        ban_duration_ms: 100_000,
        allow_ips: Vec::new(),
        block_ips: Vec::new(),
        allow_user_agents: Vec::new(),
        block_user_agents: Vec::new(),
    })
}

fn page(state: &mut RateLimitState, peer: &str) -> Verdict {
    state.decide(None, None, peer, NOW)
}

#[test]
fn auth_basic_accepts_the_expected_credentials() {
    assert_eq!(basic(Some("Basic Ym90LWNhbXA6Ym90LWNhbXA=")).0, 200);
}

#[test]
fn auth_basic_challenges_a_missing_authorization_header() {
    let (status, challenge) = basic(None);

    assert_eq!(status, 401);
    assert!(challenge.is_some());
}

#[test]
fn auth_basic_rejects_wrong_credentials() {
    assert_eq!(basic(Some("Basic Ym90LWNhbXA6d3Jvbmc=")).0, 401);
}

#[test]
fn status_returns_the_requested_code() {
    for code in [100u16, 200, 404, 999] {
        assert_eq!(status(code).unwrap(), code);
    }
}

#[test]
fn status_rejects_out_of_range_values() {
    for code in [0u16, 99, 1000] {
        assert!(status(code).is_err());
    }
}

#[test]
fn headers_echo_returns_received_headers_as_json() {
    let received = echo(vec![("x-foo".to_string(), "bar".to_string())]);

    assert_eq!(received, vec![("x-foo".to_string(), vec!["bar".to_string()])]);
}

#[test]
fn headers_set_appends_one_header_line_per_query_param() {
    let headers = bot_camp::routes::headers::set(vec![("x-foo".to_string(), "bar".to_string()), ("x-foo".to_string(), "baz".to_string())]).unwrap();

    assert_eq!(headers, vec![("x-foo".to_string(), "bar".to_string()), ("x-foo".to_string(), "baz".to_string())]);
}

#[test]
fn headers_set_rejects_an_invalid_header_name() {
    assert!(bot_camp::routes::headers::set(vec![("bad header".to_string(), "value".to_string())]).is_err());
}

#[test]
fn headers_set_rejects_an_invalid_header_value() {
    assert!(bot_camp::routes::headers::set(vec![("x-foo".to_string(), "bar\nbaz".to_string())]).is_err());
}

#[test]
fn large_response_returns_a_body_of_the_requested_size() {
    assert_eq!(large_response(2).len(), 2048);
}

#[test]
fn integration_redirect_returns_the_requested_code_and_location() {
    let (status, location) = redirect(301, "/status/200").unwrap();

    assert_eq!(status, 301);
    assert_eq!(location, "/status/200");
}

#[test]
fn integration_redirect_rejects_a_non_redirect_code() {
    assert!(redirect(200, "/status/200").is_err());
}

#[test]
fn redirect_chain_decrements_n_until_it_reaches_to() {
    let (status, location) = redirect_chain(2, "/status/200").unwrap();

    assert_eq!(status, 302);
    assert_eq!(location, "/redirect/chain?n=1&to=/status/200");
}

#[test]
fn redirect_loop_cycles_through_its_positions() {
    let (status, location) = redirect_loop(2, 1).unwrap();

    assert_eq!(status, 302);
    assert_eq!(location, "/redirect/loop?steps=2&step=0");
}

#[test]
fn redirect_refresh_sets_the_refresh_header() {
    assert_eq!(redirect_refresh(5, "/status/200").unwrap(), "5; url=/status/200");
}

#[test]
fn redirect_meta_refresh_embeds_the_expected_tag() {
    let html = redirect_meta_refresh(5, "/status/200");

    assert!(html.contains(r#"<meta http-equiv="refresh" content="5; url=/status/200">"#));
}

#[test]
fn integration_robots_txt_serves_the_default_content_initially() {
    assert_eq!(RobotsTxt::default().get(), "User-agent: *\nAllow: /\n");
}

#[test]
fn robots_txt_reflects_a_prior_put() {
    let mut robots = RobotsTxt::default();

    robots.set("User-agent: Googlebot\nDisallow: /private\n".to_string());

    assert_eq!(robots.get(), "User-agent: Googlebot\nDisallow: /private\n");
}

#[test]
fn robots_meta_renders_the_directives_and_sets_the_conflicting_header() {
    let (header, html) = robots_meta("index".to_string(), Some("noindex".to_string()), false).unwrap();

    assert_eq!(header.unwrap(), "noindex");
    assert!(html.contains(r#"<meta name="robots" content="index">"#));
}

fn no_content_params() -> ContentParams {
    ContentParams {
        title: None,
        duplicate_title: false,
        h1: None,
        duplicate_h1: false,
        word_count: None,
        body: None,
        hidden_link: None,
    }
}

#[test]
fn content_omits_title_and_h1_by_default() {
    let html = content(no_content_params());

    assert!(!html.contains("<title>"));
    assert!(!html.contains("<h1>"));
}

#[test]
fn content_renders_title_h1_and_word_count() {
    let html = content(ContentParams {
        title: Some("Page".to_string()),
        h1: Some("Heading".to_string()),
        word_count: Some(3),
        ..no_content_params()
    });

    assert!(html.contains("<title>Page</title>"));
    assert!(html.contains("<h1>Heading</h1>"));
    assert!(html.contains("word0 word1 word2"));
}

#[test]
fn content_can_serve_the_same_body_from_two_different_urls() {
    let a = content(ContentParams { body: Some("shared text".to_string()), title: Some("A".to_string()), ..no_content_params() });
    let b = content(ContentParams { body: Some("shared text".to_string()), title: Some("B".to_string()), ..no_content_params() });

    assert!(a.contains("shared text"));
    assert!(b.contains("shared text"));
}

#[test]
fn content_renders_a_hidden_link_pointing_at_the_honeypot() {
    let html = content(ContentParams { hidden_link: Some("/honeypot/trap".to_string()), ..no_content_params() });

    assert!(html.contains(r#"href="/honeypot/trap""#));
}

#[test]
fn ratelimit_allows_requests_within_capacity_and_limits_beyond_it() {
    let mut state = configured(1, 10, KeyStrategy::Ip);

    let first = page(&mut state, "203.0.113.1");
    assert_eq!(first.rejection_status(), None);
    assert_eq!(ratelimit_probe("page"), "ok: /ratelimit/page");

    let second = page(&mut state, "203.0.113.1");
    assert_eq!(second.rejection_status(), Some(429));
    assert!(second.retry_after_secs().is_some());
}

#[test]
fn ratelimit_bans_after_reaching_the_violation_threshold() {
    let mut state = configured(1, 1, KeyStrategy::Ip);

    page(&mut state, "203.0.113.2");
    page(&mut state, "203.0.113.2");

    let banned = page(&mut state, "203.0.113.2");
    assert_eq!(banned.rejection_status(), Some(403));
    assert!(banned.retry_after_secs().is_some());
}

#[test]
fn ratelimit_reset_clears_counters() {
    let mut state = configured(1, 10, KeyStrategy::Ip);

    page(&mut state, "203.0.113.3");
    assert_eq!(page(&mut state, "203.0.113.3").rejection_status(), Some(429));

    state.reset();

    assert_eq!(page(&mut state, "203.0.113.3").rejection_status(), None);
}

#[test]
fn ratelimit_admin_endpoints_stay_reachable_while_banned() {
    let mut state = configured(1, 1, KeyStrategy::Ip);

    page(&mut state, "203.0.113.4");
    page(&mut state, "203.0.113.4");
    assert_eq!(page(&mut state, "203.0.113.4").rejection_status(), Some(403));

    let report = state.status_report(None, None, None, "203.0.113.4", NOW);
    assert!(report.banned);
    state.reset();
    assert!(!state.status("203.0.113.4", NOW).banned);
}

#[test]
fn ratelimit_status_reports_the_ban_state() {
    let mut state = configured(1, 1, KeyStrategy::Ip);

    page(&mut state, "203.0.113.6");
    page(&mut state, "203.0.113.6");

    let report = state.status_report(None, None, None, "203.0.113.6", NOW);
    assert_eq!(report.key, "203.0.113.6");
    assert!(report.banned);
    assert_eq!(report.retry_after_secs, Some(100));
}

#[test]
fn ratelimit_block_list_rejects_a_matching_ip_immediately() {
    let mut state = configured(1, 10, KeyStrategy::Ip);
    let mut config = RateLimitConfig::default();
    config.algorithm = Algorithm::TokenBucket { capacity: 1, refill_per_sec_micros: 100 };
    config.ban_threshold = 10;
    config.ban_duration_ms = 100;
    config.block_ips = vec!["203.0.113.20".to_string()];
    state.configure(config);

    assert_eq!(page(&mut state, "203.0.113.20").rejection_status(), Some(403));
}

#[test]
fn ratelimit_min_interval_limits_a_request_that_arrives_too_soon() {
    let mut state = configured(1, 10, KeyStrategy::Ip);
    let mut config = RateLimitConfig::default();
    config.algorithm = Algorithm::MinInterval { min_interval_ms: 60_000 };
    config.ban_threshold = 10;
    config.ban_duration_ms = 100;
    state.configure(config);

    assert_eq!(page(&mut state, "203.0.113.30"), Verdict::Checked(Decision::Allowed));
    let second = state.decide(None, None, "203.0.113.30", NOW + 10);
    assert_eq!(second.rejection_status(), Some(429));
    assert_eq!(second.retry_after_secs(), Some(60));
}

fn honeypot() -> HoneypotState {
    HoneypotState::new(HoneypotConfig { key_strategy: KeyStrategy::Ip, ban_duration_ms: 60_000 })
}

#[test]
fn honeypot_allows_the_first_visit_and_bans_afterwards() {
    let mut state = honeypot();

    assert!(state.retry_after_secs("198.51.100.1", NOW).is_none());
    assert_eq!(honeypot_trap("trap"), "ok: /honeypot/trap");
    state.spring("198.51.100.1", NOW);

    assert_eq!(state.retry_after_secs("198.51.100.1", NOW + 1), Some(59));
}

#[test]
fn honeypot_bans_apply_to_any_path_under_the_prefix() {
    let mut state = honeypot();
    let key = state.key_for(None, None, "198.51.100.2");

    state.spring(&key, NOW);

    // The key, not the path, is what is banned.
    assert!(state.retry_after_secs(&state.key_for(None, None, "198.51.100.2"), NOW).is_some());
}

#[test]
fn honeypot_reset_clears_bans() {
    let mut state = honeypot();
    state.spring("198.51.100.3", NOW);

    state.reset();

    assert!(state.retry_after_secs("198.51.100.3", NOW).is_none());
}

#[test]
fn honeypot_admin_endpoints_stay_reachable_while_banned() {
    let mut state = honeypot();
    state.spring("198.51.100.4", NOW);

    let status = state.status("198.51.100.4", NOW);
    assert!(status.banned);

    state.reset();
    assert!(!state.status("198.51.100.4", NOW).banned);
}

#[test]
fn honeypot_ban_does_not_affect_pre_existing_routes_or_the_ratelimit_playground() {
    let mut trap = honeypot();
    trap.spring("198.51.100.5", NOW);
    let mut limiter = RateLimitState::default();

    assert_eq!(status(200).unwrap(), 200);
    assert_eq!(page(&mut limiter, "198.51.100.5").rejection_status(), None);
}

#[test]
fn challenge_serves_the_checking_page_without_the_cookie() {
    let state = ChallengeState::default();

    assert!(!is_solved(None));
    let body = challenge_page(&state.config());

    assert!(body.contains("botcamp_challenge=ok"));
    assert!(!body.contains("ok: /challenge/page"));
}

#[test]
fn challenge_lets_a_request_with_the_valid_cookie_through() {
    assert!(is_solved(Some("botcamp_challenge=ok")));
    assert_eq!(challenge_probe("page"), "ok: /challenge/page");
}

#[test]
fn challenge_config_changes_the_rendered_delay() {
    let mut state = ChallengeState::default();

    state.configure(ChallengeConfig { delay_ms: 9000, cookie_max_age_secs: 30 });
    let body = challenge_page(&state.config());

    assert!(body.contains("}, 9000);"));
    assert!(body.contains("max-age=30"));
}

fn injected() -> JsRenderParams {
    JsRenderParams {
        text: Some("hello".to_string()),
        title: Some("Injected".to_string()),
        canonical: Some("/page".to_string()),
        meta_name: None,
        meta_content: None,
        delay_ms: 500,
    }
}

#[test]
fn js_render_omits_every_signal_from_the_initial_html() {
    let body = js_render(injected());

    assert!(!body.contains("<title>"));
    assert!(!body.contains(r#"rel="canonical""#));
}

#[test]
fn js_render_embeds_the_requested_injections_in_a_deferred_script() {
    let body = js_render(injected());

    assert!(body.contains("document.getElementById('js-content').textContent = \"hello\";"));
    assert!(body.contains("document.title = \"Injected\";"));
    assert!(body.contains("link.href = \"/page\";"));
    assert!(body.contains("}, 500);"));
}

#[test]
fn encoding_declares_the_requested_content_type_charset() {
    let (content_type, body) = encoding(EncodingParams {
        text: default_text(),
        content_type_charset: "iso-8859-1".to_string(),
        meta_charset: Some("utf-8".to_string()),
        double_encode: false,
    });

    assert_eq!(content_type, "text/html; charset=iso-8859-1");
    assert!(body.contains(r#"<meta charset="utf-8">"#));
}

#[test]
fn encoding_double_encodes_the_body_when_requested() {
    let (_, body) = encoding(EncodingParams {
        text: "a&b".to_string(),
        content_type_charset: default_charset(),
        meta_charset: None,
        double_encode: true,
    });

    assert!(body.contains("a&amp;amp;b"));
}

#[test]
fn broken_html_splices_raw_markup_into_head_and_body() {
    let body = broken_html(Some("<p>bad</p>".to_string()), Some(r#"<link rel="x">"#.to_string()));

    let head_end = body.find("</head>").unwrap();
    assert!(body[..head_end].contains("<p>bad</p>"));
    assert!(body[head_end..].contains(r#"<link rel="x">"#));
}

#[test]
fn canonical_renders_a_self_referential_link_by_default() {
    let body = canonical(CanonicalParams { to: "/page".to_string(), og_url: None, duplicate: false, in_body: false });

    assert_eq!(body.matches(r#"href="/page""#).count(), 1);
}

#[test]
fn canonical_can_duplicate_and_move_the_tag_into_the_body() {
    let body = canonical(CanonicalParams { to: "/page".to_string(), og_url: None, duplicate: true, in_body: true });
    let head_end = body.find("</head>").unwrap();

    assert!(!body[..head_end].contains(r#"href="/page""#));
    assert_eq!(body[head_end..].matches(r#"href="/page""#).count(), 2);
}

#[test]
fn ratelimit_does_not_affect_pre_existing_routes() {
    let mut state = configured(1, 1, KeyStrategy::Ip);

    page(&mut state, "203.0.113.5");
    page(&mut state, "203.0.113.5");
    assert_eq!(page(&mut state, "203.0.113.5").rejection_status(), Some(403));

    // Only the playground consults the limiter; the status route answers
    // on its own.
    assert_eq!(status(200).unwrap(), 200);
}

#[test]
fn dashboard_snapshot_reflects_a_key_banned_by_a_prior_request() {
    let mut state = configured(1, 1, KeyStrategy::Ip);

    page(&mut state, "203.0.113.40");
    page(&mut state, "203.0.113.40");

    let entries = state.snapshot(NOW);
    assert_eq!(entries.len(), 1);
    assert_eq!(entries[0].key, "203.0.113.40");
    assert!(entries[0].banned);
}
