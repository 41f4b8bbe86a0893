//! Generic, ultra-configurable response endpoint: describe a status
//! code, arbitrary headers, a delay, and a body — either raw text or a
//! full [`PageContext`] — in one request, composing what the
//! single-purpose endpoints each do separately.

use vstd::prelude::*;

use crate::error::Error;
use crate::http::{status_is_valid, valid_status};
use crate::routes::headers::{check_headers, first_header_problem, header_problem_is, pairs_view};
use crate::templates::{page_html, render_page, PageContext};
use crate::text::chars_of;

verus! {

/// One response header to set, by name and value — a list (rather than
/// an object) so the same name can appear more than once.
pub struct HeaderEntry {
    /// The header's name.
    pub name: String,

    /// The header's value.
    pub value: String,
}

/// Request body accepted by the generic response endpoint.
pub struct GenericResponseRequest {
    /// The status code to respond with.
    pub status: u16,

    /// Response headers to set, in order — a name repeated across
    /// several entries produces that many header lines.
    pub headers: Vec<HeaderEntry>,

    /// Milliseconds to wait before responding.
    pub delay_ms: u64,

    /// Raw response body text, sent verbatim. Mutually exclusive with
    /// `page`.
    pub body: Option<String>,

    /// A full page description, rendered through the shared HTML
    /// skeleton. Mutually exclusive with `body`.
    pub page: Option<PageContext>,
}

/// The status code used when none is given: `200`.
pub fn default_status() -> (r: u16)
    ensures
        r == 200,
{
    200
}

/// A response composed from a [`GenericResponseRequest`].
#[derive(Debug, PartialEq, Eq)]
pub struct ComposedResponse {
    /// The response's status code.
    pub status: u16,

    /// The response's headers, in order.
    pub headers: Vec<(String, String)>,

    /// The response's body.
    pub body: String,
}

/// The lower-case form of an ASCII letter; any other character as is.
pub open spec fn ascii_lower(c: char) -> char {
    if 'A' <= c <= 'Z' { ((c as u32) + 32) as char } else { c }
}

/// Whether `a` and `b` are equal ignoring ASCII case
/// (`str::eq_ignore_ascii_case`).
pub open spec fn eq_ignore_ascii_case(a: Seq<char>, b: Seq<char>) -> bool {
    a.len() == b.len() && forall|i: int| 0 <= i < a.len() ==> ascii_lower(#[trigger] a[i]) == ascii_lower(b[i])
}

fn lower_char(c: char) -> (r: char)
    ensures
        r == ascii_lower(c),
{
    if 'A' <= c && c <= 'Z' {
        ((c as u8) + 32) as char
    } else {
        c
    }
}

/// Whether `a` and `b` are equal ignoring ASCII case.
fn same_ignoring_ascii_case(a: &str, b: &str) -> (r: bool)
    ensures
        r == eq_ignore_ascii_case(a@, b@),
{
    let x = chars_of(a);
    let y = chars_of(b);
    if x.len() != y.len() {
        return false;
    }
    let mut i: usize = 0;
    while i < x.len()
        invariant
            x.len() == y.len(),
            x@ == a@,
            y@ == b@,
            i <= x.len(),
            forall|k: int| 0 <= k < i ==> ascii_lower(#[trigger] x@[k]) == ascii_lower(y@[k]),
        decreases x.len() - i,
    {
        if lower_char(x[i]) != lower_char(y[i]) {
            return false;
        }
        i = i + 1;
    }
    true
}

/// The headers of a request, as name/value text.
pub open spec fn entries_view(headers: Seq<HeaderEntry>) -> Seq<(Seq<char>, Seq<char>)> {
    Seq::new(headers.len(), |i: int| (headers[i].name@, headers[i].value@))
}

/// Whether some header entry names `content-type`, in any case.
pub open spec fn sets_content_type(entries: Seq<(Seq<char>, Seq<char>)>) -> bool {
    exists|i: int| 0 <= i < entries.len() && eq_ignore_ascii_case(#[trigger] entries[i].0, "content-type"@)
}

/// The delay to wait before composing the response: the requested one,
/// unless the request is rejected outright for giving both a body and a
/// page.
pub fn pending_delay(request: &GenericResponseRequest) -> (r: u64)
    ensures
        r == if request.body is Some && request.page is Some { 0 } else { request.delay_ms },
{
    if request.body.is_some() && request.page.is_some() {
        0
    } else {
        request.delay_ms
    }
}

/// Composes a response from `request`: its status, its headers (a
/// `text/html; charset=utf-8` content type first when a page is given
/// and no entry sets a content type itself, then every entry in order),
/// and a body built from `body` or `page`, whichever was given (empty if
/// neither).
///
/// Fails, in this order of precedence, if both `body` and `page` were
/// given, if `status` isn't 100-999, or at the first entry whose name
/// or value isn't valid for an HTTP header.
pub fn response(request: GenericResponseRequest) -> (r: Result<ComposedResponse, Error>)
    ensures
        ({
            let entries = entries_view(request.headers@);
            if request.body is Some && request.page is Some {
                r matches Err(Error::ConflictingBody)
            } else if !valid_status(request.status) {
                r matches Err(Error::InvalidStatusCode)
            } else if first_header_problem(entries) is Some {
                r matches Err(e) && header_problem_is(first_header_problem(entries)->0, e)
            } else {
                r matches Ok(c) && {
                    &&& c.status == request.status
                    &&& c.body@ == match (request.body, request.page) {
                        (Some(b), _) => b@,
                        (None, Some(p)) => page_html(p@),
                        (None, None) => Seq::empty(),
                    }
                    &&& pairs_view(c.headers@) == if request.page is Some && !sets_content_type(entries) {
                        seq![("content-type"@, "text/html; charset=utf-8"@)] + entries
                    } else {
                        entries
                    }
                }
            }
        }),
{
    let ghost req_entries = entries_view(request.headers@);
    let GenericResponseRequest { status, headers, delay_ms, body, page } = request;
    if body.is_some() && page.is_some() {
        return Err(Error::ConflictingBody);
    }
    if !status_is_valid(status) {
        return Err(Error::InvalidStatusCode);
    }
    let is_html = page.is_some();
    let text = match (body, page) {
        (Some(raw), _) => raw,
        (None, Some(p)) => render_page(p),
        (None, None) => String::new(),
    };
    let mut overrides = false;
    let mut i: usize = 0;
    while i < headers.len()
        invariant
            i <= headers.len(),
            req_entries == entries_view(headers@),
            overrides == exists|k: int| 0 <= k < i && eq_ignore_ascii_case(#[trigger] req_entries[k].0, "content-type"@),
        decreases headers.len() - i,
    {
        if same_ignoring_ascii_case(headers[i].name.as_str(), "content-type") {
            assert(req_entries[i as int].0 == headers@[i as int].name@);
            overrides = true;
        } else {
            assert(req_entries[i as int].0 == headers@[i as int].name@);
            assert forall|k: int| 0 <= k < i + 1 && eq_ignore_ascii_case(#[trigger] req_entries[k].0, "content-type"@)
                implies 0 <= k < i by {}
        }
        i = i + 1;
    }
    let mut out: Vec<(String, String)> = Vec::new();
    if is_html && !overrides {
        out.push((String::from_str("content-type"), String::from_str("text/html; charset=utf-8")));
    }
    let ghost prefix = pairs_view(out@);
    let mut pairs: Vec<(String, String)> = Vec::new();
    let mut j: usize = 0;
    while j < headers.len()
        invariant
            j <= headers.len(),
            req_entries == entries_view(headers@),
            pairs_view(pairs@) == req_entries.take(j as int),
        decreases headers.len() - j,
    {
        let name = headers[j].name.clone();
        let value = headers[j].value.clone();
        assert(req_entries[j as int] == (name@, value@));
        let ghost before = pairs@;
        pairs.push((name, value));
        assert(pairs@ == before.push((name, value)));
        assert(pairs_view(before).len() == before.len());
        assert forall|k: int| 0 <= k < j + 1 implies #[trigger] pairs_view(pairs@)[k] == req_entries.take(j + 1)[k] by {
            if k < j {
                assert(pairs_view(before)[k] == req_entries.take(j as int)[k]);
            }
        }
        assert(pairs_view(pairs@) =~= req_entries.take(j + 1));
        j = j + 1;
    }
    assert(req_entries.take(j as int) =~= req_entries);
    check_headers(&pairs)?;
    let ghost before = pairs_view(out@);
    out.append(&mut pairs);
    assert(pairs_view(out@) =~= before + req_entries);
    Ok(ComposedResponse { status, headers: out, body: text })
}

} // verus!
