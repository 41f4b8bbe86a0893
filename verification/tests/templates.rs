use bot_camp::templates::{escape_html, render_page, PageContext};

#[test]
fn escapes_interpolated_values() {
    let context = PageContext { titles: vec!["<script>".to_string()], ..Default::default() };

    let html = render_page(context);

    assert!(!html.contains("<script>"));
    assert!(html.contains("&lt;script&gt;"));
}

#[test]
fn renders_canonical_links_in_head_and_body() {
    let context = PageContext {
        canonical_in_head: vec!["/a".to_string()],
        canonical_in_body: vec!["/b".to_string()],
        ..Default::default()
    };

    let html = render_page(context);
    let head_end = html.find("</head>").unwrap();

    assert!(html[..head_end].contains(r#"href="/a""#));
    assert!(html[head_end..].contains(r#"href="/b""#));
}

#[test]
fn escape_html_replaces_the_five_unsafe_characters() {
    assert_eq!(escape_html("a & b < c > d \" e ' f"), "a &amp; b &lt; c &gt; d &quot; e &#39; f");
    assert_eq!(escape_html("/path?x=1"), "/path?x=1");
    assert_eq!(escape_html(""), "");
}

#[test]
fn escaping_twice_escapes_the_ampersands_again() {
    assert_eq!(escape_html(&escape_html("&")), "&amp;amp;");
}

#[test]
fn the_blank_page_has_a_head_and_a_body_and_nothing_else() {
    let html = render_page(PageContext::default());

    assert!(html.starts_with("<!doctype html>"));
    assert!(html.contains("<head>"));
    assert!(html.contains("<body>"));
    assert!(!html.contains("<title>"));
    assert!(!html.contains("<h1>"));
    assert!(!html.contains("<script>"));
    assert!(!html.contains("<meta name"));
}

#[test]
fn the_deferred_script_is_inserted_verbatim() {
    let context = PageContext { deferred_script: Some("if (a < b && c) {}".to_string()), ..Default::default() };

    let html = render_page(context);

    assert!(html.contains("<script>\nif (a < b && c) {}\n</script>"));
    assert!(html.contains("id=\"js-content\""));
}

#[test]
fn raw_markup_is_not_escaped_but_text_is() {
    let context = PageContext {
        body: "<b>".to_string(),
        raw_body: Some("<b>".to_string()),
        meta_robots: vec!["noindex".to_string()],
        charset: Some("utf-8".to_string()),
        ..Default::default()
    };

    let html = render_page(context);

    assert!(html.contains("&lt;b&gt;"));
    assert!(html.contains("<b>"));
    assert!(html.contains("<meta name=\"robots\" content=\"noindex\">"));
    assert!(html.contains("<meta charset=\"utf-8\">"));
}
