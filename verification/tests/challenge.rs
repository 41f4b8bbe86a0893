use bot_camp::challenge::{challenge_page, is_solved, ChallengeConfig, ChallengeState, COOKIE_NAME, COOKIE_VALUE};
use bot_camp::routes::playground::challenge_probe;

#[test]
fn default_config_has_a_nonzero_delay() {
    let config = ChallengeConfig::default();

    assert!(config.delay_ms > 0);
}

#[test]
fn configure_replaces_the_policy() {
    let mut state = ChallengeState::default();

    state.configure(ChallengeConfig { delay_ms: 42, cookie_max_age_secs: 7 });

    assert_eq!(state.config().delay_ms, 42);
}

#[test]
fn is_solved_is_false_without_a_cookie_header() {
    assert!(!is_solved(None));
}

#[test]
fn is_solved_is_true_with_the_expected_cookie() {
    assert!(is_solved(Some("other=1; botcamp_challenge=ok")));
}

#[test]
fn is_solved_is_false_with_the_wrong_cookie_value() {
    assert!(!is_solved(Some("botcamp_challenge=no")));
}

#[test]
fn renders_the_expected_cookie_name_and_value() {
    let html = challenge_page(&ChallengeConfig { delay_ms: 1500, cookie_max_age_secs: 3600 });

    assert!(html.contains("botcamp_challenge=ok"));
}

#[test]
fn honors_the_configured_delay_and_max_age() {
    let html = challenge_page(&ChallengeConfig { delay_ms: 2500, cookie_max_age_secs: 60 });

    assert!(html.contains("max-age=60"));
    assert!(html.contains("}, 2500);"));
}

#[test]
fn the_cookie_constants_name_the_solved_cookie() {
    assert_eq!(COOKIE_NAME, "botcamp_challenge");
    assert_eq!(COOKIE_VALUE, "ok");
}

#[test]
fn is_solved_accepts_the_cookie_alone_and_tolerates_spaces() {
    assert!(is_solved(Some("botcamp_challenge=ok")));
    assert!(is_solved(Some("a=1;   botcamp_challenge=ok  ")));
}

#[test]
fn is_solved_rejects_a_cookie_with_a_longer_name() {
    assert!(!is_solved(Some("xbotcamp_challenge=ok")));
    assert!(!is_solved(Some("botcamp_challenge=okay")));
    assert!(!is_solved(Some("")));
}

#[test]
fn the_challenge_page_is_a_full_html_page_with_the_checking_text() {
    let html = challenge_page(&ChallengeConfig::default());

    assert!(html.starts_with("<!doctype html>"));
    assert!(html.contains("Checking your browser before accessing bot-camp..."));
    assert!(html.contains("path=/; max-age=3600"));
    assert!(html.contains("location.reload(); }, 1500);"));
    assert!(html.contains("<script>"));
}

#[test]
fn challenge_probe_acknowledges_the_path() {
    assert_eq!(challenge_probe("page"), "ok: /challenge/page");
}
