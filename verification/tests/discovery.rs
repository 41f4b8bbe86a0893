use bot_camp::routes::discovery::{default_count, discovery, parse_forms, render_target, target, Form};

#[test]
fn parse_forms_defaults_to_every_form_when_absent() {
    assert_eq!(parse_forms(None).len(), Form::all().len());
}

#[test]
fn parse_forms_keeps_only_the_recognized_names() {
    let forms = parse_forms(Some("a,bogus,img"));

    assert_eq!(forms, vec![Form::Anchor, Form::Image]);
}

#[test]
fn parse_forms_falls_back_to_every_form_when_nothing_is_recognized() {
    assert_eq!(parse_forms(Some("bogus,also-bogus")).len(), Form::all().len());
}

#[test]
fn parse_forms_of_an_empty_list_is_every_form() {
    assert_eq!(parse_forms(Some("")), Form::all());
}

#[test]
fn every_form_has_its_query_name() {
    let names = ["a", "link", "img", "script", "comment", "js", "css", "protocol_relative", "form", "iframe", "area"];
    let parsed: Vec<Form> = names.iter().map(|n| Form::parse(n).unwrap()).collect();

    assert_eq!(parsed, Form::all());
    assert_eq!(Form::parse("A"), None);
    assert_eq!(Form::parse(" a"), None);
}

#[test]
fn the_default_count_is_one_target_per_form() {
    assert_eq!(default_count(), 11);
    assert_eq!(Form::all().len(), 11);
}

#[test]
fn render_target_puts_links_in_the_head_and_the_rest_in_the_body() {
    let mut head = String::new();
    let mut body = String::new();

    render_target(Form::Link, 1, "/discovery/target/1", "h", &mut head, &mut body);
    render_target(Form::Anchor, 0, "/discovery/target/0", "h", &mut head, &mut body);

    assert_eq!(head, "<link rel=\"alternate\" href=\"/discovery/target/1\">\n");
    assert_eq!(body, "<a href=\"/discovery/target/0\">target 0</a>\n");
}

#[test]
fn render_target_escapes_the_host_of_a_protocol_relative_link() {
    let mut head = String::new();
    let mut body = String::new();

    render_target(Form::ProtocolRelative, 7, "/discovery/target/7", "a\"b", &mut head, &mut body);

    assert!(head.is_empty());
    assert_eq!(body, "<a href=\"//a&quot;b/discovery/target/7\">target 7 (protocol-relative)</a>\n");
}

#[test]
fn render_target_writes_each_remaining_form() {
    let cases = [
        (Form::Image, "<img src=\"/u\" alt=\"target 3\">\n"),
        (Form::Script, "<script src=\"/u\"></script>\n"),
        (Form::Comment, "<!-- <a href=\"/u\">target 3</a> -->\n"),
        (Form::JsString, "<script>var target_3 = \"/u\";</script>\n"),
        (Form::CssUrl, "<style>.target-3 { background-image: url(/u); }</style>\n"),
        (Form::Action, "<form action=\"/u\"></form>\n"),
        (Form::Iframe, "<iframe src=\"/u\"></iframe>\n"),
        (Form::Area, "<map><area href=\"/u\" shape=\"rect\" coords=\"0,0,10,10\"></map>\n"),
    ];
    for (form, expected) in cases {
        let mut head = String::new();
        let mut body = String::new();
        render_target(form, 3, "/u", "h", &mut head, &mut body);
        assert_eq!(body, expected);
        assert!(head.is_empty());
    }
}

#[test]
fn discovery_cycles_through_the_requested_forms() {
    let html = discovery(3, Some("a,img"), Some("example.com"));

    assert!(html.contains("<a href=\"/discovery/target/0\">target 0</a>"));
    assert!(html.contains("<img src=\"/discovery/target/1\" alt=\"target 1\">"));
    assert!(html.contains("<a href=\"/discovery/target/2\">target 2</a>"));
    assert!(!html.contains("/discovery/target/3"));
    assert!(html.contains("<title>URL discovery</title>"));
    assert!(html.contains("<h1>URL discovery</h1>"));
}

#[test]
fn discovery_uses_the_default_host_for_protocol_relative_links() {
    let html = discovery(1, Some("protocol_relative"), None);

    assert!(html.contains("href=\"//localhost:3000/discovery/target/0\""));
}

#[test]
fn discovery_of_zero_targets_has_no_markup_spliced_in() {
    let html = discovery(0, None, None);

    assert!(!html.contains("/discovery/target/"));
}

#[test]
fn target_acknowledges_its_number() {
    assert_eq!(target(12), "ok: /discovery/target/12");
}
