use base64::Engine;
use bot_camp::error::Error;
use bot_camp::routes::auth::{basic, decode_credentials, has_valid_credentials};
use bot_camp::routes::canonical::{broken_html, canonical, CanonicalParams};
use bot_camp::routes::content::{content, filler_words, hidden_link_markup, repeated, ContentParams};
use bot_camp::routes::encoding::{default_charset, default_text, encoding, EncodingParams};
use bot_camp::routes::headers::echo;
use bot_camp::routes::js_render::{js_render, js_string_literal, JsRenderParams};
use bot_camp::routes::playground::{large_response, ratelimit_probe};
use bot_camp::routes::redirect::{
    chain_target, location_header, redirect, redirect_chain, redirect_loop, redirect_meta_refresh,
    redirect_refresh, redirect_status, refresh_content, HOP_STATUS,
};
use bot_camp::routes::response::{default_status, pending_delay, response, GenericResponseRequest, HeaderEntry};
use bot_camp::routes::robots::{robots_meta, RobotsTxt, DEFAULT_ROBOTS_TXT};
use bot_camp::routes::status::status;
use bot_camp::templates::PageContext;

fn authorization_header(username: &str, password: &str) -> String {
    let credentials = base64::engine::general_purpose::STANDARD.encode(format!("{username}:{password}"));
    format!("Basic {credentials}")
}

#[test]
fn accepts_the_expected_credentials() {
    let header = authorization_header("bot-camp", "bot-camp");

    let (status, _) = basic(Some(&header));

    assert_eq!(status, 200);
}

#[test]
fn challenges_a_missing_authorization_header() {
    let (status, challenge) = basic(None);

    assert_eq!(status, 401);
    assert!(challenge.is_some());
}

#[test]
fn rejects_wrong_credentials() {
    let header = authorization_header("bot-camp", "wrong");

    let (status, _) = basic(Some(&header));

    assert_eq!(status, 401);
}

#[test]
fn rejects_a_malformed_authorization_header() {
    let (status, _) = basic(Some("Basic not-base64!"));

    assert_eq!(status, 401);
}

#[test]
fn decodes_the_credentials_of_a_basic_header() {
    assert_eq!(
        decode_credentials(Some("Basic Ym90LWNhbXA6d3Jvbmc=")),
        Some(("bot-camp".to_string(), "wrong".to_string()))
    );
    assert!(has_valid_credentials(Some("Basic Ym90LWNhbXA6Ym90LWNhbXA=")));
    assert_eq!(basic(None).1.unwrap(), "Basic realm=\"bot-camp\"");
}

#[test]
fn the_password_may_hold_a_colon_but_the_scheme_must_be_basic() {
    let header = authorization_header("bot-camp", "a:b");
    assert_eq!(decode_credentials(Some(&header)), Some(("bot-camp".to_string(), "a:b".to_string())));

    let bearer = authorization_header("bot-camp", "bot-camp").replace("Basic ", "Bearer ");
    assert_eq!(decode_credentials(Some(&bearer)), None);

    // No colon at all.
    assert_eq!(decode_credentials(Some("Basic Ym90LWNhbXA=")), None);
    // Not UTF-8 once decoded.
    assert_eq!(decode_credentials(Some("Basic //79")), None);
}

#[test]
fn renders_the_default_skeleton_unchanged_when_omitted() {
    let html = broken_html(None, None);

    assert!(html.contains("<head>"));
    assert!(html.contains("<body>"));
}

#[test]
fn splices_raw_head_markup_unescaped() {
    let html = broken_html(Some("<p>not valid in head</p>".to_string()), None);

    let head_end = html.find("</head>").unwrap();
    assert!(html[..head_end].contains("<p>not valid in head</p>"));
}

#[test]
fn splices_raw_body_markup_unescaped() {
    let html = broken_html(None, Some(r#"<link rel="stylesheet" href="/x.css">"#.to_string()));

    let head_end = html.find("</head>").unwrap();
    assert!(html[head_end..].contains(r#"<link rel="stylesheet" href="/x.css">"#));
}

#[test]
fn broken_html_matches_the_documented_page() {
    let html = broken_html(
        Some("<p>not valid in head</p>".to_string()),
        Some("<link rel=stylesheet href=/x.css>".to_string()),
    );

    assert_eq!(
        html,
        "<!doctype html>\n<html>\n<head>\n<p>not valid in head</p>\n</head>\n<body>\n<link rel=stylesheet href=/x.css>\n</body>\n</html>\n"
    );
}

fn canonical_params(duplicate: bool, in_body: bool, og_url: Option<&str>) -> CanonicalParams {
    CanonicalParams { to: "/page".to_string(), og_url: og_url.map(|s| s.to_string()), duplicate, in_body }
}

#[test]
fn renders_a_single_canonical_link_in_head_by_default() {
    let html = canonical(canonical_params(false, false, None));
    let head_end = html.find("</head>").unwrap();

    assert_eq!(html.matches(r#"href="/page""#).count(), 1);
    assert!(html[..head_end].contains(r#"href="/page""#));
}

#[test]
fn duplicates_the_canonical_link_when_requested() {
    let html = canonical(canonical_params(true, false, None));

    assert_eq!(html.matches(r#"href="/page""#).count(), 2);
}

#[test]
fn moves_the_canonical_link_into_the_body_when_requested() {
    let html = canonical(canonical_params(false, true, None));
    let head_end = html.find("</head>").unwrap();

    assert!(!html[..head_end].contains(r#"href="/page""#));
    assert!(html[head_end..].contains(r#"href="/page""#));
}

#[test]
fn embeds_the_og_url_meta_tag() {
    let html = canonical(canonical_params(false, false, Some("/other")));

    assert!(html.contains(r#"<meta property="og:url" content="/other">"#));
}

#[test]
fn canonical_matches_the_documented_pages() {
    assert_eq!(
        canonical(canonical_params(false, false, None)),
        "<!doctype html>\n<html>\n<head>\n<title>Canonical</title>\n<link rel=\"canonical\" href=\"/page\">\n</head>\n<body>\nCanonical tag test page.\n</body>\n</html>\n"
    );
    assert_eq!(
        canonical(canonical_params(true, true, Some("/other"))),
        "<!doctype html>\n<html>\n<head>\n<title>Canonical</title>\n<meta property=\"og:url\" content=\"/other\">\n</head>\n<body>\nCanonical tag test page.\n<link rel=\"canonical\" href=\"/page\">\n<link rel=\"canonical\" href=\"/page\">\n</body>\n</html>\n"
    );
}

fn content_params() -> ContentParams {
    ContentParams {
        title: None,
        duplicate_title: false,
        h1: None,
        duplicate_h1: false,
        word_count: None,
        body: None,
        hidden_link: None,
    }
}

#[test]
fn renders_no_title_when_omitted() {
    let html = content(content_params());

    assert!(!html.contains("<title>"));
}

#[test]
fn renders_an_empty_title_distinctly_from_a_missing_one() {
    let html = content(ContentParams { title: Some(String::new()), ..content_params() });

    assert!(html.contains("<title></title>"));
}

#[test]
fn duplicates_the_title_when_requested() {
    let html = content(ContentParams { title: Some("Page".to_string()), duplicate_title: true, ..content_params() });

    assert_eq!(html.matches("<title>Page</title>").count(), 2);
}

#[test]
fn renders_no_h1_when_omitted() {
    let html = content(content_params());

    assert!(!html.contains("<h1>"));
}

#[test]
fn duplicates_the_h1_when_requested() {
    let html = content(ContentParams { h1: Some("Heading".to_string()), duplicate_h1: true, ..content_params() });

    assert_eq!(html.matches("<h1>Heading</h1>").count(), 2);
}

#[test]
fn generates_the_requested_word_count() {
    let html = content(ContentParams { word_count: Some(5), ..content_params() });

    assert!(html.contains("word0 word1 word2 word3 word4"));
}

#[test]
fn body_takes_precedence_over_word_count() {
    let html = content(ContentParams {
        body: Some("exact body text".to_string()),
        word_count: Some(5),
        ..content_params()
    });

    assert!(html.contains("exact body text"));
    assert!(!html.contains("word0"));
}

#[test]
fn renders_no_hidden_link_when_omitted() {
    let html = content(content_params());

    assert!(!html.contains("<a "));
}

#[test]
fn renders_an_off_screen_hidden_link_when_requested() {
    let html = content(ContentParams { hidden_link: Some("/honeypot/trap".to_string()), ..content_params() });

    assert!(html.contains(r#"href="/honeypot/trap""#));
    assert!(html.contains("position:absolute;left:-9999px"));
}

#[test]
fn filler_words_are_numbered_from_zero_and_space_separated() {
    assert_eq!(filler_words(0), "");
    assert_eq!(filler_words(1), "word0");
    assert_eq!(filler_words(3), "word0 word1 word2");
    assert_eq!(filler_words(12).split(' ').count(), 12);
}

#[test]
fn repeated_gives_nothing_one_or_two_copies() {
    assert!(repeated(None, true).is_empty());
    assert_eq!(repeated(Some("x".to_string()), false), vec!["x".to_string()]);
    assert_eq!(repeated(Some("x".to_string()), true), vec!["x".to_string(), "x".to_string()]);
}

#[test]
fn the_hidden_link_escapes_its_href() {
    let markup = hidden_link_markup("/a\"b");

    assert!(markup.contains("href=\"/a&quot;b\""));
    assert!(markup.contains("position:absolute;left:-9999px"));
}

fn encoding_params() -> EncodingParams {
    EncodingParams {
        text: "Café & Résumé 日本語".to_string(),
        content_type_charset: "utf-8".to_string(),
        meta_charset: None,
        double_encode: false,
    }
}

#[test]
fn declares_the_requested_content_type_charset() {
    let (content_type, _) = encoding(encoding_params());

    assert_eq!(content_type, "text/html; charset=utf-8");
}

#[test]
fn can_declare_a_content_type_charset_independent_of_meta_charset() {
    let (content_type, body) = encoding(EncodingParams {
        content_type_charset: "iso-8859-1".to_string(),
        meta_charset: Some("utf-8".to_string()),
        ..encoding_params()
    });

    assert_eq!(content_type, "text/html; charset=iso-8859-1");
    assert!(body.contains(r#"<meta charset="utf-8">"#));
}

#[test]
fn serves_the_text_as_is_by_default() {
    let (_, body) = encoding(encoding_params());

    assert!(body.contains("Café &amp; Résumé 日本語"));
}

#[test]
fn double_encodes_the_text_when_requested() {
    let (_, body) = encoding(EncodingParams { double_encode: true, ..encoding_params() });

    assert!(body.contains("Café &amp;amp; Résumé 日本語"));
}

#[test]
fn the_encoding_defaults_are_mixed_script_text_in_utf_8() {
    assert_eq!(default_text(), "Café & Résumé 日本語");
    assert_eq!(default_charset(), "utf-8");
}

#[test]
fn echo_groups_repeated_headers_under_one_key() {
    let received = echo(vec![("x-foo".to_string(), "bar".to_string()), ("x-foo".to_string(), "baz".to_string())]);

    assert_eq!(received, vec![("x-foo".to_string(), vec!["bar".to_string(), "baz".to_string()])]);
}

#[test]
fn echo_keeps_each_name_once_in_first_seen_order() {
    let received = echo(vec![
        ("b".to_string(), "1".to_string()),
        ("a".to_string(), "2".to_string()),
        ("b".to_string(), "3".to_string()),
    ]);

    assert_eq!(
        received,
        vec![("b".to_string(), vec!["1".to_string(), "3".to_string()]), ("a".to_string(), vec!["2".to_string()])]
    );
}

#[test]
fn set_appends_one_header_line_per_query_param() {
    let params = vec![("x-foo".to_string(), "bar".to_string()), ("x-foo".to_string(), "baz".to_string())];

    let headers = bot_camp::routes::headers::set(params).unwrap();
    let values: Vec<&str> = headers.iter().filter(|(n, _)| n == "x-foo").map(|(_, v)| v.as_str()).collect();

    assert_eq!(values, vec!["bar", "baz"]);
}

#[test]
fn set_rejects_an_invalid_header_name() {
    let params = vec![("bad header".to_string(), "value".to_string())];

    let result = bot_camp::routes::headers::set(params);

    assert!(result.is_err());
}

#[test]
fn set_reports_the_first_problem_in_order() {
    let value_first = vec![("x-a".to_string(), "bar\nbaz".to_string()), ("bad header".to_string(), "v".to_string())];
    assert!(matches!(bot_camp::routes::headers::set(value_first), Err(Error::InvalidHeaderValue)));

    let name_first = vec![("bad header".to_string(), "bar\nbaz".to_string())];
    assert!(matches!(bot_camp::routes::headers::set(name_first), Err(Error::InvalidHeaderName)));

    assert!(matches!(bot_camp::routes::headers::set(vec![(String::new(), "v".to_string())]), Err(Error::InvalidHeaderName)));
    assert_eq!(bot_camp::routes::headers::set(Vec::new()).unwrap(), Vec::<(String, String)>::new());
}

fn js_params() -> JsRenderParams {
    JsRenderParams { text: None, title: None, canonical: None, meta_name: None, meta_content: None, delay_ms: 0 }
}

#[test]
fn omits_every_signal_from_the_initial_html_by_default() {
    let html = js_render(js_params());

    assert!(!html.contains("<title>"));
    assert!(!html.contains("rel=\"canonical\""));
    assert!(!html.contains("<script>"));
}

#[test]
fn injects_text_via_a_deferred_script() {
    let html = js_render(JsRenderParams { text: Some("hello".to_string()), ..js_params() });

    assert!(html.contains(r#"id="js-content""#));
    assert!(html.contains("document.getElementById('js-content').textContent = \"hello\";"));
}

#[test]
fn injects_the_title_via_a_deferred_script() {
    let html = js_render(JsRenderParams { title: Some("Injected".to_string()), ..js_params() });

    assert!(html.contains("document.title = \"Injected\";"));
}

#[test]
fn injects_the_canonical_via_a_deferred_script() {
    let html = js_render(JsRenderParams { canonical: Some("/page".to_string()), ..js_params() });

    assert!(html.contains("link.href = \"/page\";"));
}

#[test]
fn injects_the_meta_tag_only_when_both_name_and_content_are_given() {
    let html = js_render(JsRenderParams { meta_name: Some("description".to_string()), ..js_params() });

    assert!(!html.contains("appendChild(meta)"));

    let html = js_render(JsRenderParams {
        meta_name: Some("description".to_string()),
        meta_content: Some("Test page".to_string()),
        ..js_params()
    });

    assert!(html.contains("meta.name = \"description\";"));
    assert!(html.contains("meta.content = \"Test page\";"));
}

#[test]
fn honors_the_configured_delay() {
    let html = js_render(JsRenderParams { text: Some("hi".to_string()), delay_ms: 2000, ..js_params() });

    assert!(html.contains("}, 2000);"));
}

#[test]
fn escapes_a_value_that_would_otherwise_break_out_of_the_script() {
    let html = js_render(JsRenderParams { text: Some("</script><script>alert(1)</script>".to_string()), ..js_params() });

    assert!(!html.contains("</script><script>alert(1)"));
}

#[test]
fn js_string_literal_escapes_quotes_backslashes_controls_and_markup() {
    assert_eq!(js_string_literal("hello"), "\"hello\"");
    assert_eq!(js_string_literal("a\"b\\c"), "\"a\\\"b\\\\c\"");
    assert_eq!(js_string_literal("</script>"), "\"\\u003C/script>\"");
    assert_eq!(js_string_literal("line\nbreak\r\ttab"), "\"line\\nbreak\\r\ttab\"");
}

#[test]
fn returns_a_body_of_the_requested_size() {
    let body = large_response(2);

    assert_eq!(body.len(), 2048);
}

#[test]
fn returns_an_empty_body_for_zero_kb() {
    let body = large_response(0);

    assert!(body.is_empty());
}

#[test]
fn a_large_body_is_all_a() {
    assert!(large_response(1).chars().all(|c| c == 'a'));
}

#[test]
fn redirect_redirect_returns_the_requested_code_and_location() {
    let (status, location) = redirect(301, "/status/200").unwrap();

    assert_eq!(status, 301);
    assert_eq!(location, "/status/200");
}

#[test]
fn redirect_redirect_rejects_a_non_redirect_code() {
    let result = redirect(200, "/status/200");

    assert!(result.is_err());
}

#[test]
fn redirect_codes_are_exactly_the_redirect_statuses() {
    for code in [300u16, 301, 302, 303, 307, 308] {
        assert_eq!(redirect_status(code).unwrap(), code);
    }
    for code in [304u16, 305, 306, 200, 404, 399] {
        assert!(matches!(redirect_status(code), Err(Error::InvalidRedirectCode(c)) if c == code));
    }
}

#[test]
fn chain_points_at_the_next_hop_while_n_is_positive() {
    let (status, location) = redirect_chain(2, "/status/200").unwrap();

    assert_eq!(status, 302);
    assert_eq!(status, HOP_STATUS);
    assert_eq!(location, "/redirect/chain?n=1&to=/status/200");
}

#[test]
fn chain_lands_on_to_once_n_reaches_zero() {
    let (_, location) = redirect_chain(0, "/status/200").unwrap();

    assert_eq!(location, "/status/200");
    assert_eq!(chain_target(0, "/x"), "/x");
}

#[test]
fn redirect_loop_wraps_around_to_the_first_position() {
    let (_, location) = redirect_loop(3, 2).unwrap();

    assert_eq!(location, "/redirect/loop?steps=3&step=0");
}

#[test]
fn redirect_loop_rejects_zero_steps() {
    let result = redirect_loop(0, 0);

    assert!(result.is_err());
    assert!(matches!(result, Err(Error::InvalidRedirectSteps(0))));
}

#[test]
fn redirect_loop_reduces_an_out_of_range_step() {
    let (status, location) = redirect_loop(3, 7).unwrap();

    assert_eq!(status, 302);
    assert_eq!(location, "/redirect/loop?steps=3&step=2");
    assert_eq!(redirect_loop(u32::MAX, u32::MAX - 1).unwrap().1, "/redirect/loop?steps=4294967295&step=0");
}

#[test]
fn refresh_builds_the_expected_header_value() {
    let value = redirect_refresh(5, "/status/200").unwrap();

    assert_eq!(value, "5; url=/status/200");
    assert_eq!(refresh_content(0, "/"), "0; url=/");
}

#[test]
fn meta_refresh_embeds_the_expected_tag() {
    let html = redirect_meta_refresh(5, "/status/200");

    assert!(html.contains(r#"<meta http-equiv="refresh" content="5; url=/status/200">"#));
}

#[test]
fn a_location_must_be_a_valid_header_value() {
    assert!(matches!(location_header("/a\nb"), Err(Error::InvalidHeaderValue)));
    assert!(matches!(redirect(301, "/a\nb"), Err(Error::InvalidHeaderValue)));
    assert!(matches!(redirect_refresh(1, "/a\u{7f}"), Err(Error::InvalidHeaderValue)));
    assert_eq!(location_header("/a\tb").unwrap(), "/a\tb");
}

fn generic_request(status: u16, headers: Vec<HeaderEntry>, body: Option<String>, page: Option<PageContext>) -> GenericResponseRequest {
    GenericResponseRequest { status, headers, delay_ms: 0, body, page }
}

fn entry(name: &str, value: &str) -> HeaderEntry {
    HeaderEntry { name: name.to_string(), value: value.to_string() }
}

#[test]
fn defaults_to_200_with_an_empty_body() {
    let result = response(generic_request(200, Vec::new(), None, None)).unwrap();

    assert_eq!(result.status, 200);
    assert!(result.body.is_empty());
    assert_eq!(default_status(), 200);
}

#[test]
fn rejects_an_out_of_range_status_code() {
    let result = response(generic_request(0, Vec::new(), None, None));

    assert!(result.is_err());
}

#[test]
fn rejects_body_and_page_given_together() {
    let result = response(generic_request(200, Vec::new(), Some("raw".to_string()), Some(PageContext::default())));

    assert!(result.is_err());
    assert!(matches!(result, Err(Error::ConflictingBody)));
}

#[test]
fn repeats_a_header_entry_with_the_same_name() {
    let result = response(generic_request(200, vec![entry("x-foo", "bar"), entry("x-foo", "baz")], None, None)).unwrap();

    let values: Vec<&str> = result.headers.iter().filter(|(n, _)| n == "x-foo").map(|(_, v)| v.as_str()).collect();
    assert_eq!(values, vec!["bar", "baz"]);
}

#[test]
fn defaults_content_type_to_html_when_page_is_given() {
    let result = response(generic_request(200, Vec::new(), None, Some(PageContext::default()))).unwrap();

    assert_eq!(result.headers, vec![("content-type".to_string(), "text/html; charset=utf-8".to_string())]);
    assert!(result.body.starts_with("<!doctype html>"));
}

#[test]
fn an_explicit_content_type_overrides_the_html_default_without_duplicating() {
    let result = response(generic_request(
        200,
        vec![entry("Content-Type", "application/xhtml+xml")],
        None,
        Some(PageContext::default()),
    ))
    .unwrap();

    let values: Vec<&str> =
        result.headers.iter().filter(|(n, _)| n.eq_ignore_ascii_case("content-type")).map(|(_, v)| v.as_str()).collect();
    assert_eq!(values, vec!["application/xhtml+xml"]);
}

#[test]
fn a_raw_body_is_sent_verbatim_and_bad_headers_are_refused() {
    let result = response(generic_request(404, Vec::new(), Some("<b>raw</b>".to_string()), None)).unwrap();
    assert_eq!(result.status, 404);
    assert_eq!(result.body, "<b>raw</b>");
    assert!(result.headers.is_empty());

    let bad = response(generic_request(200, vec![entry("x-ok", "v"), entry("bad name", "v")], None, None));
    assert!(matches!(bad, Err(Error::InvalidHeaderName)));
    let bad = response(generic_request(1000, vec![entry("bad name", "v")], None, None));
    assert!(matches!(bad, Err(Error::InvalidStatusCode)));
}

#[test]
fn the_delay_is_skipped_for_a_conflicting_request() {
    let mut request = generic_request(200, Vec::new(), Some("raw".to_string()), None);
    request.delay_ms = 75;
    assert_eq!(pending_delay(&request), 75);

    request.page = Some(PageContext::default());
    assert_eq!(pending_delay(&request), 0);
}

#[test]
fn robots_robots_txt_serves_the_default_content_initially() {
    let robots = RobotsTxt::default();

    assert_eq!(robots.get(), "User-agent: *\nAllow: /\n");
    assert_eq!(DEFAULT_ROBOTS_TXT, "User-agent: *\nAllow: /\n");
}

#[test]
fn set_robots_txt_overwrites_what_robots_txt_serves() {
    let mut robots = RobotsTxt::default();

    robots.set("Disallow: /private\n".to_string());

    assert_eq!(robots.get(), "Disallow: /private\n");
}

#[test]
fn robots_meta_renders_a_single_tag_in_head_by_default() {
    let (header, html) = robots_meta("noindex,nofollow".to_string(), None, false).unwrap();
    let head_end = html.find("</head>").unwrap();

    assert_eq!(html.matches(r#"content="noindex,nofollow""#).count(), 1);
    assert!(html[..head_end].contains(r#"content="noindex,nofollow""#));
    assert!(header.is_none());
}

#[test]
fn robots_meta_duplicates_the_tag_when_requested() {
    let (_, html) = robots_meta("noindex".to_string(), None, true).unwrap();

    assert_eq!(html.matches(r#"content="noindex""#).count(), 2);
}

#[test]
fn robots_meta_sets_the_x_robots_tag_header() {
    let (header, _) = robots_meta("index".to_string(), Some("noindex".to_string()), false).unwrap();

    assert_eq!(header.unwrap(), "noindex");
}

#[test]
fn robots_meta_refuses_a_header_that_cannot_be_sent() {
    assert!(matches!(
        robots_meta("index".to_string(), Some("no\nindex".to_string()), false),
        Err(Error::InvalidHeaderValue)
    ));
}

#[test]
fn returns_the_requested_status_code() {
    let result = status(404).unwrap();

    assert_eq!(result, 404);
}

#[test]
fn rejects_a_code_below_100() {
    let result = status(99);

    assert!(result.is_err());
}

#[test]
fn accepts_a_non_standard_code_up_to_999() {
    let result = status(999).unwrap();

    assert_eq!(result, 999);
}

#[test]
fn status_bounds_are_100_and_999() {
    assert_eq!(status(100).unwrap(), 100);
    assert!(matches!(status(1000), Err(Error::InvalidStatusCode)));
}

#[test]
fn ratelimit_probe_acknowledges_the_path() {
    assert_eq!(ratelimit_probe("a/b"), "ok: /ratelimit/a/b");
}

#[test]
fn encoding_answers_for_a_charset_that_cannot_stand_in_a_header() {
    let (content_type, body) = encoding(EncodingParams { content_type_charset: "utf-8\nx".to_string(), ..encoding_params() });

    assert_eq!(content_type, "text/html; charset=utf-8\nx");
    assert!(body.contains("Café &amp; Résumé 日本語"));
}

#[test]
fn a_js_literal_reads_back_as_its_value() {
    for value in ["", "plain", "a\"b\\c", "</script><script>alert(1)</script>", "line\nbreak\r", "Café 日本語"] {
        let literal = js_string_literal(value);
        let read: String = serde_json::from_str(&literal).unwrap();
        assert_eq!(read, value);
    }
}
