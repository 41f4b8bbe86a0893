//! URL discovery test page: a fixed, deterministic set of target URLs
//! spread across every common (and not-so-common) HTML mechanism a
//! crawler might need to extract links from. Compare what your crawler
//! actually extracts against the `/discovery/target/{n}` URLs this page
//! always generates, in the same deterministic order, for a given
//! `count`/`forms`.

use vstd::prelude::*;

use crate::templates::{blank_page, escaped, page_html, push_escaped, render_page, PageContext, PageView};
use crate::text::{decimal, push_decimal, split_on, split_string, str_eq};

verus! {

/// Every HTML mechanism the discovery page can carry a target URL
/// through.
#[derive(Clone, Copy, Debug, PartialEq, Eq, Structural)]
pub enum Form {
    Anchor,
    Link,
    Image,
    Script,
    Comment,
    JsString,
    CssUrl,
    ProtocolRelative,
    Action,
    Iframe,
    Area,
}

/// Every supported form, in the order used when cycling through them.
pub open spec fn all_forms() -> Seq<Form> {
    seq![
        Form::Anchor,
        Form::Link,
        Form::Image,
        Form::Script,
        Form::Comment,
        Form::JsString,
        Form::CssUrl,
        Form::ProtocolRelative,
        Form::Action,
        Form::Iframe,
        Form::Area,
    ]
}

/// The form a `forms` query parameter entry names, if any.
pub open spec fn form_named(name: Seq<char>) -> Option<Form> {
    if name == "a"@ {
        Some(Form::Anchor)
    } else if name == "link"@ {
        Some(Form::Link)
    } else if name == "img"@ {
        Some(Form::Image)
    } else if name == "script"@ {
        Some(Form::Script)
    } else if name == "comment"@ {
        Some(Form::Comment)
    } else if name == "js"@ {
        Some(Form::JsString)
    } else if name == "css"@ {
        Some(Form::CssUrl)
    } else if name == "protocol_relative"@ {
        Some(Form::ProtocolRelative)
    } else if name == "form"@ {
        Some(Form::Action)
    } else if name == "iframe"@ {
        Some(Form::Iframe)
    } else if name == "area"@ {
        Some(Form::Area)
    } else {
        None
    }
}

impl Form {
    /// Every supported form, in the order used when cycling through
    /// them.
    pub fn all() -> (r: Vec<Form>)
        ensures
            r@ == all_forms(),
    {
        let r = vec![
            Form::Anchor,
            Form::Link,
            Form::Image,
            Form::Script,
            Form::Comment,
            Form::JsString,
            Form::CssUrl,
            Form::ProtocolRelative,
            Form::Action,
            Form::Iframe,
            Form::Area,
        ];
        assert(r@ =~= all_forms());
        r
    }

    /// Parses a form's `forms` query param name, `None` if
    /// unrecognized.
    pub fn parse(name: &str) -> (r: Option<Form>)
        ensures
            r == form_named(name@),
    {
        if str_eq(name, "a") {
            Some(Form::Anchor)
        } else if str_eq(name, "link") {
            Some(Form::Link)
        } else if str_eq(name, "img") {
            Some(Form::Image)
        } else if str_eq(name, "script") {
            Some(Form::Script)
        } else if str_eq(name, "comment") {
            Some(Form::Comment)
        } else if str_eq(name, "js") {
            Some(Form::JsString)
        } else if str_eq(name, "css") {
            Some(Form::CssUrl)
        } else if str_eq(name, "protocol_relative") {
            Some(Form::ProtocolRelative)
        } else if str_eq(name, "form") {
            Some(Form::Action)
        } else if str_eq(name, "iframe") {
            Some(Form::Iframe)
        } else if str_eq(name, "area") {
            Some(Form::Area)
        } else {
            None
        }
    }
}

/// Number of target URLs generated by default: one per supported form.
pub fn default_count() -> (r: u32)
    ensures
        r == all_forms().len(),
{
    11
}

/// The recognized forms among `names`, in order.
pub open spec fn recognized(names: Seq<Seq<char>>) -> Seq<Form>
    decreases names.len(),
{
    if names.len() == 0 {
        Seq::empty()
    } else {
        match form_named(names.last()) {
            Some(f) => recognized(names.drop_last()).push(f),
            None => recognized(names.drop_last()),
        }
    }
}

/// The forms to cycle through for a `forms` query parameter: the
/// recognized names of its comma-separated list, or every form if it is
/// absent or names none.
pub open spec fn forms_of(forms: Option<Seq<char>>) -> Seq<Form> {
    let parsed = match forms {
        Some(list) => recognized(split_on(list, ',')),
        None => Seq::empty(),
    };
    if parsed.len() == 0 { all_forms() } else { parsed }
}

/// Parses `forms` (the raw query param value) into the list to cycle
/// through, falling back to every form if it's absent, empty, or every
/// name in it is unrecognized.
pub fn parse_forms(forms: Option<&str>) -> (r: Vec<Form>)
    ensures
        r@ == forms_of(crate::rate_limit::key::opt_chars(forms)),
        r@.len() >= 1,
{
    let mut parsed: Vec<Form> = Vec::new();
    if let Some(list) = forms {
        let names = split_string(list, ',');
        let mut i: usize = 0;
        while i < names.len()
            invariant
                i <= names.len(),
                names.deep_view() == split_on(list@, ','),
                parsed@ == recognized(names.deep_view().take(i as int)),
            decreases names.len() - i,
        {
            let f = Form::parse(names[i].as_str());
            proof {
                let d = names.deep_view();
                assert(d.take(i + 1).drop_last() =~= d.take(i as int));
                assert(d.take(i + 1).last() == names@[i as int]@);
            }
            if let Some(form) = f {
                parsed.push(form);
            }
            i = i + 1;
        }
        assert(names.deep_view().take(names.len() as int) =~= names.deep_view());
    }
    if parsed.len() == 0 {
        Form::all()
    } else {
        parsed
    }
}

/// The URL of target `n`.
pub open spec fn target_url(n: nat) -> Seq<char> {
    "/discovery/target/"@ + decimal(n)
}

/// The markup carrying target `n` at `url` through `form`: what goes
/// into `<head>` and what goes into `<body>`.
pub open spec fn target_markup(form: Form, n: nat, url: Seq<char>, host: Seq<char>) -> (Seq<char>, Seq<char>) {
    let d = decimal(n);
    match form {
        Form::Anchor => (Seq::empty(), "<a href=\""@ + url + "\">target "@ + d + "</a>\n"@),
        Form::Link => ("<link rel=\"alternate\" href=\""@ + url + "\">\n"@, Seq::empty()),
        Form::Image => (Seq::empty(), "<img src=\""@ + url + "\" alt=\"target "@ + d + "\">\n"@),
        Form::Script => (Seq::empty(), "<script src=\""@ + url + "\"></script>\n"@),
        Form::Comment => (Seq::empty(), "<!-- <a href=\""@ + url + "\">target "@ + d + "</a> -->\n"@),
        Form::JsString => (Seq::empty(), "<script>var target_"@ + d + " = \""@ + url + "\";</script>\n"@),
        Form::CssUrl => (
            Seq::empty(),
            "<style>.target-"@ + d + " { background-image: url("@ + url + "); }</style>\n"@,
        ),
        Form::ProtocolRelative => (
            Seq::empty(),
            "<a href=\"//"@ + escaped(host) + url + "\">target "@ + d + " (protocol-relative)</a>\n"@,
        ),
        Form::Action => (Seq::empty(), "<form action=\""@ + url + "\"></form>\n"@),
        Form::Iframe => (Seq::empty(), "<iframe src=\""@ + url + "\"></iframe>\n"@),
        Form::Area => (
            Seq::empty(),
            "<map><area href=\""@ + url + "\" shape=\"rect\" coords=\"0,0,10,10\"></map>\n"@,
        ),
    }
}

/// Appends the markup for one target URL, in the mechanism `form`
/// dictates, to `head`/`body` as appropriate.
pub fn render_target(form: Form, n: u32, url: &str, host: &str, head: &mut String, body: &mut String)
    ensures
        final(head)@ == old(head)@ + target_markup(form, n as nat, url@, host@).0,
        final(body)@ == old(body)@ + target_markup(form, n as nat, url@, host@).1,
{
    let ghost h0 = head@;
    let ghost b0 = body@;
    match form {
        Form::Anchor => {
            body.append("<a href=\"");
            body.append(url);
            body.append("\">target ");
            push_decimal(body, n as u64);
            body.append("</a>\n");
        },
        Form::Link => {
            head.append("<link rel=\"alternate\" href=\"");
            head.append(url);
            head.append("\">\n");
        },
        Form::Image => {
            body.append("<img src=\"");
            body.append(url);
            body.append("\" alt=\"target ");
            push_decimal(body, n as u64);
            body.append("\">\n");
        },
        Form::Script => {
            body.append("<script src=\"");
            body.append(url);
            body.append("\"></script>\n");
        },
        Form::Comment => {
            body.append("<!-- <a href=\"");
            body.append(url);
            body.append("\">target ");
            push_decimal(body, n as u64);
            body.append("</a> -->\n");
        },
        Form::JsString => {
            body.append("<script>var target_");
            push_decimal(body, n as u64);
            body.append(" = \"");
            body.append(url);
            body.append("\";</script>\n");
        },
        Form::CssUrl => {
            body.append("<style>.target-");
            push_decimal(body, n as u64);
            body.append(" { background-image: url(");
            body.append(url);
            body.append("); }</style>\n");
        },
        Form::ProtocolRelative => {
            body.append("<a href=\"//");
            push_escaped(body, host);
            body.append(url);
            body.append("\">target ");
            push_decimal(body, n as u64);
            body.append(" (protocol-relative)</a>\n");
        },
        Form::Action => {
            body.append("<form action=\"");
            body.append(url);
            body.append("\"></form>\n");
        },
        Form::Iframe => {
            body.append("<iframe src=\"");
            body.append(url);
            body.append("\"></iframe>\n");
        },
        Form::Area => {
            body.append("<map><area href=\"");
            body.append(url);
            body.append("\" shape=\"rect\" coords=\"0,0,10,10\"></map>\n");
        },
    }
    assert(head@ =~= h0 + target_markup(form, n as nat, url@, host@).0);
    assert(body@ =~= b0 + target_markup(form, n as nat, url@, host@).1);
}

/// The head and body markup of the first `k` targets, target `n`
/// carried by `forms[n % forms.len()]`.
pub open spec fn discovery_extras(forms: Seq<Form>, host: Seq<char>, k: nat) -> (Seq<char>, Seq<char>)
    decreases k,
{
    if k == 0 {
        (Seq::empty(), Seq::empty())
    } else {
        let n = (k - 1) as nat;
        let (h, b) = discovery_extras(forms, host, n);
        let (dh, db) = target_markup(forms[(n % forms.len()) as int], n, target_url(n), host);
        (h + dh, b + db)
    }
}

/// The host to point protocol-relative links at: the request's `Host`
/// header, or `localhost:3000` without one.
pub open spec fn host_or_default(host: Option<Seq<char>>) -> Seq<char> {
    match host {
        Some(h) => h,
        None => "localhost:3000"@,
    }
}

/// The discovery page listing `count` targets cycling through `forms`.
pub open spec fn discovery_view(count: u32, forms: Option<Seq<char>>, host: Option<Seq<char>>) -> PageView {
    let (h, b) = discovery_extras(forms_of(forms), host_or_default(host), count as nat);
    PageView {
        titles: seq!["URL discovery"@],
        h1: seq!["URL discovery"@],
        raw_head: if h.len() == 0 { None } else { Some(h) },
        raw_body: if b.len() == 0 { None } else { Some(b) },
        ..blank_page()
    }
}

/// Returns an HTML page listing `count` deterministic target URLs
/// (`/discovery/target/0`, `/discovery/target/1`, ...), cycling through
/// `forms` to decide which HTML mechanism carries each one; `host` is
/// the request's `Host` header as text, if present.
pub fn discovery(count: u32, forms: Option<&str>, host: Option<&str>) -> (r: String)
    ensures
        r@ == page_html(
            discovery_view(count, crate::rate_limit::key::opt_chars(forms), crate::rate_limit::key::opt_chars(host)),
        ),
{
    let list = parse_forms(forms);
    let host_text = match host {
        Some(h) => h,
        None => "localhost:3000",
    };
    let ghost fs = list@;
    let mut head_extra = String::new();
    let mut body_extra = String::new();
    let mut n: u32 = 0;
    while n < count
        invariant
            n <= count,
            list@ == fs,
            fs.len() >= 1,
            (head_extra@, body_extra@) == discovery_extras(fs, host_text@, n as nat),
        decreases count - n,
    {
        let mut url = String::from_str("/discovery/target/");
        push_decimal(&mut url, n as u64);
        let form = list[(n as usize) % list.len()];
        render_target(form, n, url.as_str(), host_text, &mut head_extra, &mut body_extra);
        n = n + 1;
    }
    let mut context = PageContext::default();
    context.titles.push(String::from_str("URL discovery"));
    context.h1.push(String::from_str("URL discovery"));
    if head_extra.as_str().is_empty() {
    } else {
        context.raw_head = Some(head_extra);
    }
    if body_extra.as_str().is_empty() {
    } else {
        context.raw_body = Some(body_extra);
    }
    proof {
        assert(context@.titles =~= seq!["URL discovery"@]);
        assert(context@.h1 =~= seq!["URL discovery"@]);
        assert(context@ =~= discovery_view(
            count,
            crate::rate_limit::key::opt_chars(forms),
            crate::rate_limit::key::opt_chars(host),
        ));
    }
    render_page(context)
}

/// The target a discovered URL actually points at: its body.
pub fn target(n: u32) -> (r: String)
    ensures
        r@ == "ok: "@ + target_url(n as nat),
{
    let mut r = String::from_str("ok: /discovery/target/");
    push_decimal(&mut r, n as u64);
    proof {
        reveal_strlit("ok: /discovery/target/");
        reveal_strlit("ok: ");
        reveal_strlit("/discovery/target/");
        assert(r@ =~= "ok: "@ + target_url(n as nat));
    }
    r
}

/// The discovery page always has at least one form to cycle through,
/// and cycles through every form when given none it recognizes.
pub proof fn law_forms_never_empty(forms: Option<Seq<char>>)
    ensures
        forms_of(forms).len() >= 1,
        recognized(match forms {
            Some(l) => split_on(l, ','),
            None => Seq::empty(),
        }).len() == 0 ==> forms_of(forms) == all_forms(),
{
}

} // verus!
