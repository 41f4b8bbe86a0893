//! Shared HTML page rendering for content-based test endpoints.
//!
//! Every page is the same skeleton: a `<head>` holding an optional
//! charset, titles, canonical links, an optional `og:url`, an optional
//! meta refresh, meta robots tags and raw markup; a `<body>` holding
//! headings, the body text, canonical links misplaced there, an
//! optional deferred script and raw markup. Every interpolated value is
//! HTML-escaped except the script and the raw markup, which are spliced
//! in verbatim on purpose.

use vstd::prelude::*;

use crate::text::push_char;

verus! {

/// What HTML-escaping turns `c` into: the five characters unsafe in
/// HTML text or a quoted attribute value become entities.
pub open spec fn escaped_char(c: char) -> Seq<char> {
    if c == '&' {
        "&amp;"@
    } else if c == '<' {
        "&lt;"@
    } else if c == '>' {
        "&gt;"@
    } else if c == '"' {
        "&quot;"@
    } else if c == '\'' {
        "&#39;"@
    } else {
        seq![c]
    }
}

/// `s` HTML-escaped, character by character.
pub open spec fn escaped(s: Seq<char>) -> Seq<char>
    decreases s.len(),
{
    if s.len() == 0 { Seq::empty() } else { escaped(s.drop_last()) + escaped_char(s.last()) }
}

/// Appends `value`, HTML-escaped, to `out`.
pub fn push_escaped(out: &mut String, value: &str)
    ensures
        final(out)@ == old(out)@ + escaped(value@),
{
    let ghost start = out@;
    for c in it: value.chars()
        invariant
            it.seq() == value@,
            out@ == start + escaped(value@.take(it.index() as int)),
    {
        let ghost i = it.index();
        let ghost before = out@;
        if c == '&' {
            out.append("&amp;");
        } else if c == '<' {
            out.append("&lt;");
        } else if c == '>' {
            out.append("&gt;");
        } else if c == '"' {
            out.append("&quot;");
        } else if c == '\'' {
            out.append("&#39;");
        } else {
            push_char(out, c);
        }
        proof {
            assert(value@.take(i + 1).drop_last() =~= value@.take(i));
            assert(value@.take(i + 1).last() == c);
            assert(out@ =~= before + escaped_char(c));
            assert(out@ =~= start + escaped(value@.take(i + 1)));
        }
    }
    proof {
        assert(value@.take(value@.len() as int) =~= value@);
    }
}

/// Escapes the five characters that are unsafe to interpolate into HTML
/// text or a quoted attribute value: `&`, `<`, `>`, `"`, `'`.
pub fn escape_html(value: &str) -> (r: String)
    ensures
        r@ == escaped(value@),
{
    let mut r = String::new();
    push_escaped(&mut r, value);
    assert(r@ =~= escaped(value@));
    r
}

/// Escaped text never holds a character that could open or close a tag
/// or a quoted attribute.
pub proof fn law_escaped_text_has_no_markup_characters(s: Seq<char>)
    ensures
        forall|i: int| 0 <= i < escaped(s).len() ==> {
            let c = #[trigger] escaped(s)[i];
            c != '<' && c != '>' && c != '"' && c != '\''
        },
    decreases s.len(),
{
    reveal_strlit("&amp;");
    reveal_strlit("&lt;");
    reveal_strlit("&gt;");
    reveal_strlit("&quot;");
    reveal_strlit("&#39;");
    if s.len() > 0 {
        law_escaped_text_has_no_markup_characters(s.drop_last());
        let head = escaped(s.drop_last());
        let tail = escaped_char(s.last());
        assert forall|i: int| 0 <= i < escaped(s).len() implies {
            let c = #[trigger] escaped(s)[i];
            c != '<' && c != '>' && c != '"' && c != '\''
        } by {
            if i < head.len() {
                assert(escaped(s)[i] == head[i]);
            } else {
                assert(escaped(s)[i] == tail[i - head.len()]);
            }
        }
    }
}

/// Values interpolated into the shared page skeleton.
pub struct PageContext {
    /// `<title>` contents to render, one tag per entry — zero to omit
    /// the tag entirely.
    pub titles: Vec<String>,

    /// Canonical link hrefs to render inside `<head>`.
    pub canonical_in_head: Vec<String>,

    /// Canonical link hrefs to render inside `<body>`, to simulate an
    /// invalid placement.
    pub canonical_in_body: Vec<String>,

    /// `og:url` meta tag content, if any.
    pub og_url: Option<String>,

    /// `meta http-equiv="refresh"` content attribute, if any.
    pub refresh: Option<String>,

    /// `meta name="robots"` content attribute values to render, one tag
    /// per entry.
    pub meta_robots: Vec<String>,

    /// `<h1>` contents to render, one tag per entry — zero to omit the
    /// tag entirely.
    pub h1: Vec<String>,

    /// Body text.
    pub body: String,

    /// JavaScript statements to run, inserted verbatim inside a
    /// `<script>` tag, alongside an empty `#js-content` element for that
    /// script to populate.
    pub deferred_script: Option<String>,

    /// `<meta charset>` value, if any.
    pub charset: Option<String>,

    /// Raw markup inserted verbatim (not HTML-escaped) into `<head>`,
    /// to construct deliberately malformed HTML.
    pub raw_head: Option<String>,

    /// Raw markup inserted verbatim (not HTML-escaped) into `<body>`,
    /// to construct deliberately malformed HTML.
    pub raw_body: Option<String>,
}

impl Default for PageContext {
    /// Nothing at all: no tag, empty body text.
    fn default() -> (r: Self)
        ensures
            r@ == blank_page(),
    {
        let r = PageContext {
            titles: Vec::new(),
            canonical_in_head: Vec::new(),
            canonical_in_body: Vec::new(),
            og_url: None,
            refresh: None,
            meta_robots: Vec::new(),
            h1: Vec::new(),
            body: String::new(),
            deferred_script: None,
            charset: None,
            raw_head: None,
            raw_body: None,
        };
        assert(r.titles.deep_view() =~= Seq::<Seq<char>>::empty());
        assert(r.canonical_in_head.deep_view() =~= Seq::<Seq<char>>::empty());
        assert(r.canonical_in_body.deep_view() =~= Seq::<Seq<char>>::empty());
        assert(r.meta_robots.deep_view() =~= Seq::<Seq<char>>::empty());
        assert(r.h1.deep_view() =~= Seq::<Seq<char>>::empty());
        r
    }
}

/// What a page is made of, as text.
pub struct PageView {
    pub titles: Seq<Seq<char>>,
    pub canonical_in_head: Seq<Seq<char>>,
    pub canonical_in_body: Seq<Seq<char>>,
    pub og_url: Option<Seq<char>>,
    pub refresh: Option<Seq<char>>,
    pub meta_robots: Seq<Seq<char>>,
    pub h1: Seq<Seq<char>>,
    pub body: Seq<char>,
    pub deferred_script: Option<Seq<char>>,
    pub charset: Option<Seq<char>>,
    pub raw_head: Option<Seq<char>>,
    pub raw_body: Option<Seq<char>>,
}

/// A page with nothing on it.
pub open spec fn blank_page() -> PageView {
    PageView {
        titles: Seq::empty(),
        canonical_in_head: Seq::empty(),
        canonical_in_body: Seq::empty(),
        og_url: None,
        refresh: None,
        meta_robots: Seq::empty(),
        h1: Seq::empty(),
        body: Seq::empty(),
        deferred_script: None,
        charset: None,
        raw_head: None,
        raw_body: None,
    }
}

impl View for PageContext {
    type V = PageView;

    open spec fn view(&self) -> PageView {
        PageView {
            titles: self.titles.deep_view(),
            canonical_in_head: self.canonical_in_head.deep_view(),
            canonical_in_body: self.canonical_in_body.deep_view(),
            og_url: opt_text(self.og_url),
            refresh: opt_text(self.refresh),
            meta_robots: self.meta_robots.deep_view(),
            h1: self.h1.deep_view(),
            body: self.body@,
            deferred_script: opt_text(self.deferred_script),
            charset: opt_text(self.charset),
            raw_head: opt_text(self.raw_head),
            raw_body: opt_text(self.raw_body),
        }
    }
}

/// The characters of an optional string.
pub open spec fn opt_text(s: Option<String>) -> Option<Seq<char>> {
    match s {
        Some(v) => Some(v@),
        None => None,
    }
}

/// One element on its own line: `open`, the escaped `text`, `close`.
pub open spec fn line(open: Seq<char>, text: Seq<char>, close: Seq<char>) -> Seq<char> {
    open + escaped(text) + close + "\n"@
}

/// One line per item, in order.
pub open spec fn lines(open: Seq<char>, items: Seq<Seq<char>>, close: Seq<char>) -> Seq<char>
    decreases items.len(),
{
    if items.len() == 0 {
        Seq::empty()
    } else {
        lines(open, items.drop_last(), close) + line(open, items.last(), close)
    }
}

/// A line for the item, if there is one.
pub open spec fn optional_line(open: Seq<char>, item: Option<Seq<char>>, close: Seq<char>) -> Seq<char> {
    match item {
        Some(t) => line(open, t, close),
        None => Seq::empty(),
    }
}

/// Raw markup on its own line, verbatim, if there is any.
pub open spec fn raw_line(item: Option<Seq<char>>) -> Seq<char> {
    match item {
        Some(t) => t + "\n"@,
        None => Seq::empty(),
    }
}

/// The body text, escaped, on its own line — nothing when it is empty.
pub open spec fn text_line(text: Seq<char>) -> Seq<char> {
    if text.len() == 0 { Seq::empty() } else { escaped(text) + "\n"@ }
}

/// The `#js-content` element and the script that fills it, if any.
pub open spec fn script_block(script: Option<Seq<char>>) -> Seq<char> {
    match script {
        Some(t) => "<div id=\"js-content\"></div>\n<script>\n"@ + t + "\n</script>\n"@,
        None => Seq::empty(),
    }
}

/// What the page's `<head>` holds for `c`: the charset, the titles, the
/// canonical links meant for the head, `og:url`, the refresh, the robots
/// directives, and the raw head markup, in that order.
pub open spec fn head_markup(c: PageView) -> Seq<char> {
    optional_line("<meta charset=\""@, c.charset, "\">"@)
        + lines("<title>"@, c.titles, "</title>"@)
        + lines("<link rel=\"canonical\" href=\""@, c.canonical_in_head, "\">"@)
        + optional_line("<meta property=\"og:url\" content=\""@, c.og_url, "\">"@)
        + optional_line("<meta http-equiv=\"refresh\" content=\""@, c.refresh, "\">"@)
        + lines("<meta name=\"robots\" content=\""@, c.meta_robots, "\">"@)
        + raw_line(c.raw_head)
}

/// What the page's `<body>` holds for `c`: the headings, the text, the
/// canonical links misplaced in the body, the script block, and the raw
/// body markup, in that order.
pub open spec fn body_markup(c: PageView) -> Seq<char> {
    lines("<h1>"@, c.h1, "</h1>"@)
        + text_line(c.body)
        + lines("<link rel=\"canonical\" href=\""@, c.canonical_in_body, "\">"@)
        + script_block(c.deferred_script)
        + raw_line(c.raw_body)
}

/// The whole page for `c`.
pub open spec fn page_html(c: PageView) -> Seq<char> {
    "<!doctype html>\n<html>\n<head>\n"@ + head_markup(c) + "</head>\n<body>\n"@ + body_markup(c)
        + "</body>\n</html>\n"@
}

/// Appends one element line.
fn push_line(out: &mut String, open: &str, text: &str, close: &str)
    ensures
        final(out)@ == old(out)@ + line(open@, text@, close@),
{
    let ghost start = out@;
    out.append(open);
    push_escaped(out, text);
    out.append(close);
    out.append("\n");
    assert(out@ =~= start + line(open@, text@, close@));
}

/// Appends one line per item.
fn push_lines(out: &mut String, open: &str, items: &Vec<String>, close: &str)
    ensures
        final(out)@ == old(out)@ + lines(open@, items.deep_view(), close@),
{
    let ghost start = out@;
    let mut i: usize = 0;
    while i < items.len()
        invariant
            i <= items.len(),
            out@ == start + lines(open@, items.deep_view().take(i as int), close@),
        decreases items.len() - i,
    {
        let ghost before = out@;
        push_line(out, open, items[i].as_str(), close);
        proof {
            let d = items.deep_view();
            assert(d.take(i + 1).drop_last() =~= d.take(i as int));
            assert(d.take(i + 1).last() == items@[i as int]@);
            assert(out@ =~= start + lines(open@, d.take(i + 1), close@));
        }
        i = i + 1;
    }
    assert(items.deep_view().take(items.len() as int) =~= items.deep_view());
}

/// Appends a line for the item, if there is one.
fn push_optional_line(out: &mut String, open: &str, item: &Option<String>, close: &str)
    ensures
        final(out)@ == old(out)@ + optional_line(open@, opt_text(*item), close@),
{
    match item {
        Some(t) => push_line(out, open, t.as_str(), close),
        None => assert(out@ =~= out@ + Seq::<char>::empty()),
    }
}

/// Appends raw markup on its own line, if there is any.
fn push_raw_line(out: &mut String, item: &Option<String>)
    ensures
        final(out)@ == old(out)@ + raw_line(opt_text(*item)),
{
    match item {
        Some(t) => {
            let ghost start = out@;
            out.append(t.as_str());
            out.append("\n");
            assert(out@ =~= start + raw_line(opt_text(*item)));
        },
        None => assert(out@ =~= out@ + Seq::<char>::empty()),
    }
}

/// Appends the head's contents.
fn push_head(out: &mut String, c: &PageContext)
    ensures
        final(out)@ == old(out)@ + head_markup(c@),
{
    let ghost start = out@;
    push_optional_line(out, "<meta charset=\"", &c.charset, "\">");
    push_lines(out, "<title>", &c.titles, "</title>");
    push_lines(out, "<link rel=\"canonical\" href=\"", &c.canonical_in_head, "\">");
    push_optional_line(out, "<meta property=\"og:url\" content=\"", &c.og_url, "\">");
    push_optional_line(out, "<meta http-equiv=\"refresh\" content=\"", &c.refresh, "\">");
    push_lines(out, "<meta name=\"robots\" content=\"", &c.meta_robots, "\">");
    push_raw_line(out, &c.raw_head);
    assert(out@ =~= start + head_markup(c@));
}

/// Appends the body's contents.
fn push_body(out: &mut String, c: &PageContext)
    ensures
        final(out)@ == old(out)@ + body_markup(c@),
{
    let ghost start = out@;
    push_lines(out, "<h1>", &c.h1, "</h1>");
    if !c.body.as_str().is_empty() {
        push_escaped(out, c.body.as_str());
        out.append("\n");
    }
    push_lines(out, "<link rel=\"canonical\" href=\"", &c.canonical_in_body, "\">");
    match &c.deferred_script {
        Some(script) => {
            out.append("<div id=\"js-content\"></div>\n<script>\n");
            out.append(script.as_str());
            out.append("\n</script>\n");
        },
        None => {},
    }
    push_raw_line(out, &c.raw_body);
    assert(out@ =~= start + body_markup(c@));
}

/// Renders the shared HTML skeleton with `context`, HTML-escaping every
/// interpolated value but the script and the raw markup.
pub fn render_page(context: PageContext) -> (r: String)
    ensures
        r@ == page_html(context@),
{
    let mut out = String::from_str("<!doctype html>\n<html>\n<head>\n");
    push_head(&mut out, &context);
    out.append("</head>\n<body>\n");
    push_body(&mut out, &context);
    out.append("</body>\n</html>\n");
    assert(out@ =~= page_html(context@));
    out
}

} // verus!
