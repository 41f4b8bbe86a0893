//! Charset declaration mismatches and double-encoded content.

use vstd::prelude::*;

use crate::templates::{blank_page, escape_html, escaped, opt_text, page_html, render_page, PageContext, PageView};
use crate::text::concat;

verus! {

/// Query parameters accepted by the encoding page.
pub struct EncodingParams {
    /// The page's body text, before any encoding is applied.
    pub text: String,

    /// Charset declared in the `Content-Type` response header.
    pub content_type_charset: String,

    /// Charset declared in a `<meta charset>` tag, if any — independent
    /// of `content_type_charset`, to test a header/meta mismatch.
    pub meta_charset: Option<String>,

    /// HTML-entity-encode `text` twice instead of once, to simulate the
    /// classic double-encoding bug.
    pub double_encode: bool,
}

/// Default body text: accented Latin characters, CJK characters, and an
/// ampersand, to exercise multi-lingual content and double-encoding at
/// once.
pub fn default_text() -> (r: String)
    ensures
        r@ == "Café & Résumé 日本語"@,
{
    String::from_str("Café & Résumé 日本語")
}

/// Default charset declared in the `Content-Type` header.
pub fn default_charset() -> (r: String)
    ensures
        r@ == "utf-8"@,
{
    String::from_str("utf-8")
}

/// The `Content-Type` header value declaring `charset`.
pub open spec fn content_type_of(charset: Seq<char>) -> Seq<char> {
    "text/html; charset="@ + charset
}

/// The encoding page for `p`: the text escaped once (by the page) or
/// twice, and the meta charset if any.
pub open spec fn encoding_view(p: EncodingParams) -> PageView {
    PageView {
        charset: opt_text(p.meta_charset),
        body: if p.double_encode { escaped(p.text@) } else { p.text@ },
        ..blank_page()
    }
}

/// Returns the `Content-Type` header value (declaring
/// `content_type_charset`) and an HTML page whose `<meta charset>` is
/// independently controllable and whose text can be double
/// HTML-entity-encoded.
pub fn encoding(params: EncodingParams) -> (r: (String, String))
    ensures
        r.0@ == content_type_of(params.content_type_charset@),
        r.1@ == page_html(encoding_view(params)),
{
    let ghost p = params;
    let EncodingParams { text, content_type_charset, meta_charset, double_encode } = params;
    let body = if double_encode { escape_html(text.as_str()) } else { text };
    let mut context = PageContext::default();
    context.charset = meta_charset;
    context.body = body;
    assert(context@ =~= encoding_view(p));
    let html = render_page(context);
    let content_type = concat("text/html; charset=", content_type_charset.as_str());
    (content_type, html)
}

} // verus!
