//! `robots.txt` and meta-robots pages.

use vstd::prelude::*;

use crate::error::Error;
use crate::http::{header_value_is_valid, valid_header_value};
use crate::templates::{blank_page, page_html, render_page, PageContext, PageView};

verus! {

/// Content served at `/robots.txt` until it's overridden.
pub const DEFAULT_ROBOTS_TXT: &'static str = "User-agent: *\nAllow: /\n";

/// The `robots.txt` contents currently served.
pub struct RobotsTxt {
    content: String,
}

impl RobotsTxt {
    /// The text currently served.
    pub closed spec fn served(&self) -> Seq<char> {
        self.content@
    }

    /// Returns the contents currently served.
    pub fn get(&self) -> (r: String)
        ensures
            r@ == self.served(),
    {
        self.content.clone()
    }

    /// Overwrites the contents served with `body`, verbatim.
    pub fn set(&mut self, body: String)
        ensures
            final(self).served() == body@,
    {
        self.content = body;
    }
}

impl Default for RobotsTxt {
    /// The built-in default: everything allowed to everyone.
    fn default() -> (r: Self)
        ensures
            r.served() == DEFAULT_ROBOTS_TXT@,
    {
        RobotsTxt { content: String::from_str(DEFAULT_ROBOTS_TXT) }
    }
}

/// The meta-robots page: the directives once, or twice.
pub open spec fn robots_meta_view(directives: Seq<char>, duplicate: bool) -> PageView {
    PageView {
        titles: seq!["Robots meta"@],
        meta_robots: if duplicate { seq![directives, directives] } else { seq![directives] },
        body: "Robots meta tag test page."@,
        ..blank_page()
    }
}

/// Returns the `X-Robots-Tag` header value to send (if any) and an HTML
/// page carrying a `<meta name="robots">` tag, or an error if
/// `x_robots_tag` isn't a valid header value.
pub fn robots_meta(directives: String, x_robots_tag: Option<String>, duplicate: bool) -> (r: Result<
    (Option<String>, String),
    Error,
>)
    ensures
        match x_robots_tag {
            Some(tag) => if valid_header_value(tag@) {
                r matches Ok((Some(h), html)) && h@ == tag@ && html@ == page_html(robots_meta_view(directives@, duplicate))
            } else {
                r matches Err(Error::InvalidHeaderValue)
            },
            None => r matches Ok((None, html)) && html@ == page_html(robots_meta_view(directives@, duplicate)),
        },
{
    let ghost d = directives@;
    let mut context = PageContext::default();
    context.titles.push(String::from_str("Robots meta"));
    if duplicate {
        context.meta_robots.push(directives.clone());
    }
    context.meta_robots.push(directives);
    context.body = String::from_str("Robots meta tag test page.");
    proof {
        assert(context@.titles =~= seq!["Robots meta"@]);
        if duplicate {
            assert(context@.meta_robots =~= seq![d, d]);
        } else {
            assert(context@.meta_robots =~= seq![d]);
        }
        assert(context@ =~= robots_meta_view(d, duplicate));
    }
    let header = match x_robots_tag {
        Some(tag) => {
            if !header_value_is_valid(tag.as_str()) {
                return Err(Error::InvalidHeaderValue);
            }
            Some(tag)
        },
        None => None,
    };
    Ok((header, render_page(context)))
}

/// The robots page carries the directives in the head, once, or twice
/// when duplicated (see [`crate::templates::head_markup`]).
pub proof fn law_robots_directives_count_and_place(directives: Seq<char>, duplicate: bool)
    ensures
        robots_meta_view(directives, duplicate).meta_robots.len() == if duplicate { 2int } else { 1int },
        forall|i: int| 0 <= i < robots_meta_view(directives, duplicate).meta_robots.len()
            ==> #[trigger] robots_meta_view(directives, duplicate).meta_robots[i] == directives,
{
}

} // verus!
