//! Controlled on-page content: title, H1, and body/word count.

use vstd::prelude::*;

use crate::templates::{blank_page, escaped, page_html, push_escaped, render_page, PageContext, PageView};
use crate::text::{
    decimal, lemma_decimal_is_digits, lemma_split_on_append, lemma_split_on_without_sep, push_decimal,
    split_on,
};

verus! {

/// Query parameters accepted by the content page.
pub struct ContentParams {
    /// The page's `<title>` contents. Omitted entirely renders no
    /// `<title>` tag at all — distinct from an empty string, which
    /// renders `<title></title>`.
    pub title: Option<String>,

    /// Emit the `<title>` tag twice. Only meaningful if `title` is set.
    pub duplicate_title: bool,

    /// The page's `<h1>` contents. Omitted entirely renders no `<h1>`.
    pub h1: Option<String>,

    /// Emit the `<h1>` tag twice. Only meaningful if `h1` is set.
    pub duplicate_h1: bool,

    /// Number of filler words (`word0 word1 ...`) to use as the body,
    /// if `body` isn't given.
    pub word_count: Option<u32>,

    /// The page's body text, verbatim.
    pub body: Option<String>,

    /// URL for a link hidden from real users (positioned off-screen),
    /// appended to the body.
    pub hidden_link: Option<String>,
}

/// No entry, one, or the same one twice.
pub open spec fn repeated_of(value: Option<Seq<char>>, duplicate: bool) -> Seq<Seq<char>> {
    match value {
        None => Seq::empty(),
        Some(v) => if duplicate { seq![v, v] } else { seq![v] },
    }
}

/// Wraps `value` into a `Vec`, duplicated if `duplicate` is set, or an
/// empty `Vec` if `value` is absent.
pub fn repeated(value: Option<String>, duplicate: bool) -> (r: Vec<String>)
    ensures
        r.deep_view() == repeated_of(crate::templates::opt_text(value), duplicate),
{
    let mut r: Vec<String> = Vec::new();
    match value {
        None => {},
        Some(v) => {
            if duplicate {
                r.push(v.clone());
            }
            r.push(v);
        },
    }
    assert(r.deep_view() =~= repeated_of(crate::templates::opt_text(value), duplicate));
    r
}

/// `count` space-separated filler words: `word0 word1 ...`.
pub open spec fn filler(count: nat) -> Seq<char>
    decreases count,
{
    if count == 0 {
        Seq::empty()
    } else if count == 1 {
        "word"@ + decimal(0)
    } else {
        filler((count - 1) as nat) + " word"@ + decimal((count - 1) as nat)
    }
}

/// Generates `count` space-separated filler words (`word0 word1 ...`).
pub fn filler_words(count: u32) -> (r: String)
    ensures
        r@ == filler(count as nat),
{
    let mut r = String::new();
    let mut i: u32 = 0;
    while i < count
        invariant
            i <= count,
            r@ == filler(i as nat),
        decreases count - i,
    {
        let ghost before = r@;
        if i > 0 {
            r.append(" word");
        } else {
            r.append("word");
        }
        push_decimal(&mut r, i as u64);
        proof {
            if i == 0 {
                assert(r@ =~= filler(1));
            } else {
                assert(r@ =~= filler((i + 1) as nat));
            }
        }
        i = i + 1;
    }
    r
}

/// The markup of a link to `href` positioned off-screen.
pub open spec fn hidden_link_of(href: Seq<char>) -> Seq<char> {
    "<a href=\""@ + escaped(href) + "\" style=\"position:absolute;left:-9999px\" aria-hidden=\"true\">hidden link</a>"@
}

/// Renders `href` as a link positioned off-screen — invisible to a real
/// user, but present in the HTML for a crawler that follows every
/// `href` regardless of visibility.
pub fn hidden_link_markup(href: &str) -> (r: String)
    ensures
        r@ == hidden_link_of(href@),
{
    let mut r = String::from_str("<a href=\"");
    push_escaped(&mut r, href);
    r.append("\" style=\"position:absolute;left:-9999px\" aria-hidden=\"true\">hidden link</a>");
    assert(r@ =~= hidden_link_of(href@));
    r
}

/// The content page for `p`: titles and headings as asked, the body
/// text (or `word_count` filler words, none by default), and the hidden
/// link if any.
pub open spec fn content_view(p: ContentParams) -> PageView {
    PageView {
        titles: repeated_of(crate::templates::opt_text(p.title), p.duplicate_title),
        h1: repeated_of(crate::templates::opt_text(p.h1), p.duplicate_h1),
        body: match p.body {
            Some(b) => b@,
            None => filler(
                match p.word_count {
                    Some(n) => n as nat,
                    None => 0,
                },
            ),
        },
        raw_body: match p.hidden_link {
            Some(h) => Some(hidden_link_of(h@)),
            None => None,
        },
        ..blank_page()
    }
}

/// Returns an HTML page with controllable `<title>`, `<h1>`, and body
/// content, to test the classic on-page signals a crawler extracts.
pub fn content(params: ContentParams) -> (r: String)
    ensures
        r@ == page_html(content_view(params)),
{
    let ghost p = params;
    let ContentParams { title, duplicate_title, h1, duplicate_h1, word_count, body, hidden_link } = params;
    let body = match body {
        Some(b) => b,
        None => filler_words(
            match word_count {
                Some(n) => n,
                None => 0,
            },
        ),
    };
    let mut context = PageContext::default();
    context.titles = repeated(title, duplicate_title);
    context.h1 = repeated(h1, duplicate_h1);
    context.body = body;
    context.raw_body = match hidden_link {
        Some(h) => Some(hidden_link_markup(h.as_str())),
        None => None,
    };
    assert(context@ =~= content_view(p));
    render_page(context)
}

/// Filler word number `i`: `word{i}`.
pub open spec fn filler_word(i: nat) -> Seq<char> {
    "word"@ + decimal(i)
}

proof fn lemma_filler_word_has_no_space(i: nat)
    ensures
        !filler_word(i).contains(' '),
{
    reveal_strlit("word");
    lemma_decimal_is_digits(i);
    let w = filler_word(i);
    if w.contains(' ') {
        let k = choose|k: int| 0 <= k < w.len() && w[k] == ' ';
        if k >= 4 {
            assert(w[k] == decimal(i)[k - 4]);
        }
    }
}

/// The filler text is exactly the requested number of words, numbered
/// from zero, one space apart.
pub proof fn law_filler_has_the_requested_words(count: nat)
    requires
        count >= 1,
    ensures
        split_on(filler(count), ' ') == Seq::new(count, |i: int| filler_word(i as nat)),
    decreases count,
{
    reveal_strlit("word");
    reveal_strlit(" word");
    if count == 1 {
        lemma_filler_word_has_no_space(0);
        lemma_split_on_without_sep(filler_word(0), ' ');
        assert(Seq::new(1, |i: int| filler_word(i as nat)) =~= seq![filler_word(0)]);
    } else {
        let k = (count - 1) as nat;
        law_filler_has_the_requested_words(k);
        assert(filler(count) =~= filler(k) + seq![' '] + filler_word(k));
        lemma_filler_word_has_no_space(k);
        lemma_split_on_without_sep(filler_word(k), ' ');
        lemma_split_on_append(filler(k), filler_word(k), ' ');
        assert(Seq::new(count, |i: int| filler_word(i as nat)) =~= Seq::new(k, |i: int| filler_word(i as nat)) + seq![
            filler_word(k),
        ]);
    }
}

/// How many times a requested tag appears: never when not requested,
/// twice when duplicated, once otherwise.
pub open spec fn tag_count(value: Option<String>, duplicate: bool) -> int {
    match value {
        None => 0,
        Some(_) => if duplicate { 2 } else { 1 },
    }
}

/// The content page carries the requested title and heading as many
/// times as asked ([`tag_count`]), each with the requested text.
pub proof fn law_content_title_and_heading_counts(p: ContentParams)
    ensures
        content_view(p).titles.len() == tag_count(p.title, p.duplicate_title),
        content_view(p).h1.len() == tag_count(p.h1, p.duplicate_h1),
        forall|i: int| 0 <= i < content_view(p).titles.len() ==> #[trigger] content_view(p).titles[i] == p.title->0@,
        forall|i: int| 0 <= i < content_view(p).h1.len() ==> #[trigger] content_view(p).h1[i] == p.h1->0@,
{
}

} // verus!
