//! Canonical tag page, and the deliberately malformed HTML page.

use vstd::prelude::*;

use crate::templates::{blank_page, opt_text, page_html, render_page, PageContext, PageView};

verus! {

/// Query parameters accepted by the canonical page.
pub struct CanonicalParams {
    /// The canonical URL to point at, absolute or relative.
    pub to: String,

    /// `og:url` meta tag content, to test a canonical/`og:url` conflict.
    pub og_url: Option<String>,

    /// Emit the canonical tag twice.
    pub duplicate: bool,

    /// Emit the canonical tag(s) in `<body>` instead of `<head>`, an
    /// invalid placement crawlers should reject.
    pub in_body: bool,
}

/// The canonical page for `p`.
pub open spec fn canonical_view(p: CanonicalParams) -> PageView {
    let hrefs = if p.duplicate { seq![p.to@, p.to@] } else { seq![p.to@] };
    PageView {
        titles: seq!["Canonical"@],
        canonical_in_head: if p.in_body { Seq::empty() } else { hrefs },
        canonical_in_body: if p.in_body { hrefs } else { Seq::empty() },
        og_url: opt_text(p.og_url),
        body: "Canonical tag test page."@,
        ..blank_page()
    }
}

/// Returns an HTML page carrying a `<link rel="canonical">` tag, with
/// knobs for the classic tricky variants: duplicated, out-of-`<head>`,
/// and conflicting with `og:url`.
pub fn canonical(params: CanonicalParams) -> (r: String)
    ensures
        r@ == page_html(canonical_view(params)),
{
    let ghost p = params;
    let CanonicalParams { to, og_url, duplicate, in_body } = params;
    let mut hrefs: Vec<String> = Vec::new();
    if duplicate {
        hrefs.push(to.clone());
    }
    hrefs.push(to);
    let mut context = PageContext::default();
    context.titles.push(String::from_str("Canonical"));
    if in_body {
        context.canonical_in_body = hrefs;
    } else {
        context.canonical_in_head = hrefs;
    }
    context.og_url = og_url;
    context.body = String::from_str("Canonical tag test page.");
    proof {
        assert(context@.titles =~= seq!["Canonical"@]);
        let hv = if duplicate { seq![p.to@, p.to@] } else { seq![p.to@] };
        if in_body {
            assert(context@.canonical_in_body =~= hv);
        } else {
            assert(context@.canonical_in_head =~= hv);
        }
        assert(context@ =~= canonical_view(p));
    }
    render_page(context)
}

/// The malformed page: `head` and `body` spliced in verbatim.
pub open spec fn broken_html_view(head: Option<Seq<char>>, body: Option<Seq<char>>) -> PageView {
    PageView { raw_head: head, raw_body: body, ..blank_page() }
}

/// Returns an HTML page with `head`/`body` spliced in verbatim, letting
/// you construct any malformed markup you want to test.
pub fn broken_html(head: Option<String>, body: Option<String>) -> (r: String)
    ensures
        r@ == page_html(broken_html_view(opt_text(head), opt_text(body))),
{
    let ghost (h, b) = (opt_text(head), opt_text(body));
    let mut context = PageContext::default();
    context.raw_head = head;
    context.raw_body = body;
    assert(context@ =~= broken_html_view(h, b));
    render_page(context)
}

/// The canonical page carries the canonical link to `to` once, or twice
/// when duplicated, all in the head, or all in the body when `in_body`
/// is set (see [`crate::templates::head_markup`] and
/// [`crate::templates::body_markup`]).
pub proof fn law_canonical_links_count_and_place(p: CanonicalParams)
    ensures
        ({
            let v = canonical_view(p);
            let placed = if p.in_body { v.canonical_in_body } else { v.canonical_in_head };
            let other = if p.in_body { v.canonical_in_head } else { v.canonical_in_body };
            &&& placed.len() == if p.duplicate { 2int } else { 1int }
            &&& other.len() == 0
            &&& forall|i: int| 0 <= i < placed.len() ==> #[trigger] placed[i] == p.to@
        }),
{
}

} // verus!
