//! URL normalization endpoint.
//!
//! Parsing and editing a URL is the `url` crate's work; what this
//! module decides is which edits to make: how a host is cleaned, when a
//! trailing slash goes, how a query is ordered, and what the response
//! says about the result.

use vstd::prelude::*;

use crate::error::{Error, UrlError};
use url::ParseError;
use crate::http::valid_header_value;
use crate::routes::redirect::location_header;
use crate::text::{
    chars_of, join_strings, joined, lemma_split_on_joined, lemma_split_on_nonempty,
    lemma_split_on_pieces_lack_sep, lemma_text_order_is_total, sort_texts, split_on, split_string,
    str_eq, string_from, text_order,
};

verus! {

/// `url::Url`, a parsed absolute URL.
#[verifier::external_type_specification]
#[verifier::external_body]
pub struct ExUrl(url::Url);

/// Query parameters accepted by [`normalize`].
pub struct NormalizeParams {
    /// The URL to normalize.
    pub url: String,

    /// Collapse leading, trailing, and duplicated dots in the host
    /// (`example.com..` -> `example.com`).
    pub remove_host_dots: bool,

    /// Strip a single trailing slash from the path, unless the path is
    /// just `/`.
    pub remove_trailing_slash: bool,

    /// Sort query parameters alphabetically.
    pub sort_query: bool,

    /// Drop the fragment (`#...`) entirely.
    pub remove_fragment: bool,
}

/// Defaults every [`NormalizeParams`] flag to enabled.
pub fn default_true() -> (r: bool)
    ensures
        r,
{
    true
}

/// The serialization of the URL that `Url::parse` makes of `input`, or
/// why `input` doesn't parse.
pub uninterp spec fn url_parsed(input: Seq<char>) -> Result<Seq<char>, UrlError>;

/// `Url::host_str` of the URL serialized as `url`.
pub uninterp spec fn url_host(url: Seq<char>) -> Option<Seq<char>>;

/// `Url::path` of the URL serialized as `url`.
pub uninterp spec fn url_path(url: Seq<char>) -> Seq<char>;

/// `Url::query` of the URL serialized as `url`.
pub uninterp spec fn url_query(url: Seq<char>) -> Option<Seq<char>>;

/// The serialization after `Url::set_host(Some(host))` on the URL
/// serialized as `url`, or why that fails.
pub uninterp spec fn url_with_host(url: Seq<char>, host: Seq<char>) -> Result<Seq<char>, UrlError>;

/// The serialization after `Url::set_path(path)` on the URL serialized
/// as `url`.
pub uninterp spec fn url_with_path(url: Seq<char>, path: Seq<char>) -> Seq<char>;

/// The serialization after `Url::set_query(Some(query))` on the URL
/// serialized as `url`.
pub uninterp spec fn url_with_query(url: Seq<char>, query: Seq<char>) -> Seq<char>;

/// The serialization after `Url::set_fragment(None)` on the URL
/// serialized as `url`.
pub uninterp spec fn url_without_fragment(url: Seq<char>) -> Seq<char>;

/// A parsed URL and its serialization (`Url::as_str`). `url::Url`
/// values compare like their serializations, so the serialization is
/// what the contracts below speak of.
pub struct ParsedUrl {
    url: url::Url,
    serialization: String,
}

impl ParsedUrl {
    /// The URL's serialization.
    pub closed spec fn text(&self) -> Seq<char> {
        self.serialization@
    }

    /// The URL's serialization.
    pub fn as_str(&self) -> (r: &str)
        ensures
            r@ == self.text(),
    {
        self.serialization.as_str()
    }
}

/// `Url::parse`: the URL `input` describes, or why it doesn't describe
/// one (the `url::ParseError` variant, as a [`UrlError`]): as
/// [`url_parsed`] says.
#[verifier::external_body]
fn parse_url(input: &str) -> (r: Result<ParsedUrl, UrlError>)
    ensures
        match url_parsed(input@) {
            Ok(t) => r matches Ok(u) && u.text() == t,
            Err(e) => r matches Err(x) && x == e,
        },
{
    match url::Url::parse(input) {
        Ok(url) => Ok(ParsedUrl { serialization: url.as_str().to_string(), url }),
        Err(e) => Err(match e {
            ParseError::EmptyHost => UrlError::EmptyHost, ParseError::IdnaError => UrlError::IdnaError,
            ParseError::InvalidPort => UrlError::InvalidPort, ParseError::Overflow => UrlError::Overflow,
            ParseError::InvalidIpv4Address => UrlError::InvalidIpv4Address,
            ParseError::InvalidIpv6Address => UrlError::InvalidIpv6Address,
            ParseError::InvalidDomainCharacter => UrlError::InvalidDomainCharacter,
            ParseError::RelativeUrlWithoutBase => UrlError::RelativeUrlWithoutBase,
            ParseError::RelativeUrlWithCannotBeABaseBase => UrlError::RelativeUrlWithCannotBeABaseBase,
            ParseError::SetHostOnCannotBeABaseUrl => UrlError::SetHostOnCannotBeABaseUrl,
            _ => UrlError::Other,
        }),
    }
}

/// `Url::host_str`: the URL's host, as text, if it has one.
#[verifier::external_body]
fn host_of(u: &ParsedUrl) -> (r: Option<String>)
    ensures
        match r {
            Some(h) => url_host(u.text()) == Some(h@),
            None => url_host(u.text()) is None,
        },
{
    u.url.host_str().map(|h| h.to_string())
}

/// `Url::path`: the URL's path.
#[verifier::external_body]
fn path_of(u: &ParsedUrl) -> (r: String)
    ensures
        r@ == url_path(u.text()),
{
    u.url.path().to_string()
}

/// `Url::query`: the URL's query, if it has one.
#[verifier::external_body]
fn query_of(u: &ParsedUrl) -> (r: Option<String>)
    ensures
        match r {
            Some(q) => url_query(u.text()) == Some(q@),
            None => url_query(u.text()) is None,
        },
{
    u.url.query().map(|q| q.to_string())
}

/// `Url::set_host(Some(host))`, its error as a [`UrlError`]. On failure
/// the URL is left as it was: `set_host` returns each of its errors
/// before it changes anything.
#[verifier::external_body]
fn set_host(u: &mut ParsedUrl, host: &str) -> (r: Result<(), UrlError>)
    ensures
        match url_with_host(old(u).text(), host@) {
            Ok(t) => r is Ok && final(u).text() == t,
            Err(e) => r matches Err(x) && x == e && final(u).text() == old(u).text(),
        },
{
    let r = u.url.set_host(Some(host));
    u.serialization = u.url.as_str().to_string();
    r.map_err(|e| match e {
        ParseError::EmptyHost => UrlError::EmptyHost, ParseError::IdnaError => UrlError::IdnaError,
        ParseError::InvalidPort => UrlError::InvalidPort, ParseError::Overflow => UrlError::Overflow,
        ParseError::InvalidIpv4Address => UrlError::InvalidIpv4Address,
        ParseError::InvalidIpv6Address => UrlError::InvalidIpv6Address,
        ParseError::InvalidDomainCharacter => UrlError::InvalidDomainCharacter,
        ParseError::RelativeUrlWithoutBase => UrlError::RelativeUrlWithoutBase,
        ParseError::RelativeUrlWithCannotBeABaseBase => UrlError::RelativeUrlWithCannotBeABaseBase,
        ParseError::SetHostOnCannotBeABaseUrl => UrlError::SetHostOnCannotBeABaseUrl,
        _ => UrlError::Other,
    })
}

/// `Url::set_path(path)`.
#[verifier::external_body]
fn set_path(u: &mut ParsedUrl, path: &str)
    ensures
        final(u).text() == url_with_path(old(u).text(), path@),
{
    u.url.set_path(path);
    u.serialization = u.url.as_str().to_string();
}

/// `Url::set_query(Some(query))`.
#[verifier::external_body]
fn set_query(u: &mut ParsedUrl, query: &str)
    ensures
        final(u).text() == url_with_query(old(u).text(), query@),
{
    u.url.set_query(Some(query));
    u.serialization = u.url.as_str().to_string();
}

/// `Url::set_fragment(None)`.
#[verifier::external_body]
fn clear_fragment(u: &mut ParsedUrl)
    ensures
        final(u).text() == url_without_fragment(old(u).text()),
{
    u.url.set_fragment(None);
    u.serialization = u.url.as_str().to_string();
}

/// Whether a host label is kept: it isn't empty.
pub open spec fn nonempty_label() -> spec_fn(Seq<char>) -> bool {
    |label: Seq<char>| label.len() > 0
}

/// `host` with its empty labels dropped: leading, trailing, and
/// duplicated dots collapse.
pub open spec fn cleaned_host(host: Seq<char>) -> Seq<char> {
    joined(split_on(host, '.').filter(nonempty_label()), "."@)
}

/// `host` with leading, trailing, and duplicated dots collapsed
/// (`.example..com.` -> `example.com`).
pub fn clean_host(host: &str) -> (r: String)
    ensures
        r@ == cleaned_host(host@),
{
    let pieces = split_string(host, '.');
    let ghost all = pieces.deep_view();
    let ghost nonempty = nonempty_label();
    let mut labels: Vec<String> = Vec::new();
    let mut i: usize = 0;
    while i < pieces.len()
        invariant
            i <= pieces.len(),
            all == pieces.deep_view(),
            nonempty == nonempty_label(),
            labels.deep_view() == all.take(i as int).filter(nonempty),
        decreases pieces.len() - i,
    {
        let ghost before = labels.deep_view();
        let label = pieces[i].clone();
        proof {
            reveal(Seq::filter);
            assert(all.take(i + 1).drop_last() =~= all.take(i as int));
            assert(all.take(i + 1).last() == label@);
        }
        if !label.as_str().is_empty() {
            labels.push(label);
            assert(labels.deep_view() =~= before.push(all.take(i + 1).last()));
        } else {
            assert(label@.len() == 0);
        }
        i = i + 1;
    }
    assert(all.take(pieces.len() as int) =~= all);
    join_strings(&labels, ".")
}

/// The path with a single trailing slash stripped, unless the path is
/// just `/`; `None` when there is nothing to strip.
pub open spec fn path_without_trailing_slash(path: Seq<char>) -> Option<Seq<char>> {
    if path.len() > 1 && path.last() == '/' {
        Some(path.drop_last())
    } else {
        None
    }
}

/// `path` without its trailing slash, if it has one to strip (see
/// [`path_without_trailing_slash`]).
pub fn strip_trailing_slash(path: &str) -> (r: Option<String>)
    ensures
        match path_without_trailing_slash(path@) {
            Some(p) => r matches Some(s) && s@ == p,
            None => r is None,
        },
{
    let chars = chars_of(path);
    let n = chars.len();
    if n > 1 && chars[n - 1] == '/' {
        let trimmed = string_from(&chars, 0, n - 1);
        assert(chars@.subrange(0, n - 1) =~= path@.drop_last());
        Some(trimmed)
    } else {
        None
    }
}

/// `query`'s `&`-separated parameters, sorted alphabetically and joined
/// again.
pub open spec fn sorted_query_of(query: Seq<char>) -> Seq<char> {
    joined(split_on(query, '&').sort_by(text_order()), "&"@)
}

/// `query` with its parameters sorted alphabetically.
pub fn sorted_query(query: &str) -> (r: String)
    ensures
        r@ == sorted_query_of(query@),
{
    let items = split_string(query, '&');
    let sorted = sort_texts(items);
    join_strings(&sorted, "&")
}

/// Collapses leading, trailing, and duplicated dots in `url`'s host.
fn remove_host_dots(url: &mut ParsedUrl) -> (r: Result<(), UrlError>)
    ensures
        match host_step(old(url).text()) {
            Ok(t) => r is Ok && final(url).text() == t,
            Err(e) => r matches Err(x) && x == e,
        },
{
    match host_of(url) {
        None => Ok(()),
        Some(host) => {
            let cleaned = clean_host(host.as_str());
            set_host(url, cleaned.as_str())
        },
    }
}

/// Strips a single trailing slash from `url`'s path, unless the path is
/// just `/`.
fn remove_trailing_slash(url: &mut ParsedUrl)
    ensures
        final(url).text() == path_step(old(url).text()),
{
    let path = path_of(url);
    if let Some(trimmed) = strip_trailing_slash(path.as_str()) {
        set_path(url, trimmed.as_str());
    }
}

/// Sorts `url`'s query parameters alphabetically.
fn sort_query(url: &mut ParsedUrl)
    ensures
        final(url).text() == query_step(old(url).text()),
{
    if let Some(query) = query_of(url) {
        let sorted = sorted_query(query.as_str());
        set_query(url, sorted.as_str());
    }
}

/// The URL serialized as `url` with its host's dots collapsed, or why
/// the cleaned host isn't accepted.
pub open spec fn host_step(url: Seq<char>) -> Result<Seq<char>, UrlError> {
    match url_host(url) {
        None => Ok(url),
        Some(h) => url_with_host(url, cleaned_host(h)),
    }
}

/// The URL serialized as `url` with its path's trailing slash stripped.
pub open spec fn path_step(url: Seq<char>) -> Seq<char> {
    match path_without_trailing_slash(url_path(url)) {
        Some(p) => url_with_path(url, p),
        None => url,
    }
}

/// The URL serialized as `url` with its query sorted.
pub open spec fn query_step(url: Seq<char>) -> Seq<char> {
    match url_query(url) {
        Some(q) => url_with_query(url, sorted_query_of(q)),
        None => url,
    }
}

/// The normalized form of `p.url` under `p`'s flags, or why the URL
/// doesn't parse or its cleaned host isn't accepted.
pub open spec fn normalized_url(p: NormalizeParams) -> Result<Seq<char>, UrlError> {
    match url_parsed(p.url@) {
        Err(e) => Err(e),
        Ok(parsed) => {
            let hosted = if p.remove_host_dots { host_step(parsed) } else { Ok(parsed) };
            match hosted {
                Err(e) => Err(e),
                Ok(h) => {
                    let pathed = if p.remove_trailing_slash { path_step(h) } else { h };
                    let queried = if p.sort_query { query_step(pathed) } else { pathed };
                    Ok(if p.remove_fragment { url_without_fragment(queried) } else { queried })
                },
            }
        },
    }
}

/// What [`normalize`] answers: a status and, for a redirect, where to.
#[derive(Debug, PartialEq, Eq)]
pub struct NormalizeResponse {
    /// `301` when the URL changed, `200` when it was already normalized.
    pub status: u16,

    /// The `Location` header's value: the normalized URL, on a redirect.
    pub location: Option<String>,
}

/// The answer for a request to normalize `requested`, whose normalized
/// form is `normalized`: `200 OK` if nothing changed; otherwise `301
/// Moved Permanently` to `normalized`, or an error if `normalized` can't
/// stand in a header.
pub fn normalize_response(requested: &str, normalized: &str) -> (r: Result<NormalizeResponse, Error>)
    ensures
        requested@ == normalized@ ==> (r matches Ok(o) && o.status == 200 && o.location is None),
        requested@ != normalized@ && valid_header_value(normalized@) ==> (r matches Ok(o)
            && o.status == 301 && (o.location matches Some(l) && l@ == normalized@)),
        requested@ != normalized@ && !valid_header_value(normalized@) ==> r matches Err(
            Error::InvalidHeaderValue,
        ),
{
    if str_eq(normalized, requested) {
        return Ok(NormalizeResponse { status: 200, location: None });
    }
    let location = location_header(normalized)?;
    Ok(NormalizeResponse { status: 301, location: Some(location) })
}

/// Normalizes `params.url` according to the requested flags, and
/// redirects to the result — the way a real server canonicalizes a URL,
/// so a crawler exercises its normal redirect-following path.
///
/// Scheme and host are always lowercased, the default port for the
/// scheme is always dropped, and dot-segments (`.`, `..`) in the path are
/// always resolved — this is URL parsing itself and can't be turned off.
/// Path segments and query keys/values keep their case unchanged.
///
/// Answers `301 Moved Permanently` with the normalized URL as its
/// location if it differs from `params.url`, `200 OK` otherwise, and an
/// error (carrying the reason) if the URL doesn't parse or its cleaned
/// host isn't accepted.
pub fn normalize(params: NormalizeParams) -> (r: Result<NormalizeResponse, Error>)
    ensures
        match normalized_url(params) {
            Err(e) => r matches Err(Error::InvalidUrl(x)) && x == e,
            Ok(n) => if n == params.url@ {
                r matches Ok(o) && o.status == 200 && o.location is None
            } else if valid_header_value(n) {
                r matches Ok(o) && o.status == 301 && (o.location matches Some(l) && l@ == n)
            } else {
                r matches Err(Error::InvalidHeaderValue)
            },
        },
{
    let mut url = match parse_url(params.url.as_str()) {
        Ok(u) => u,
        Err(e) => return Err(Error::InvalidUrl(e)),
    };
    if params.remove_host_dots {
        if let Err(e) = remove_host_dots(&mut url) {
            return Err(Error::InvalidUrl(e));
        }
    }
    if params.remove_trailing_slash {
        remove_trailing_slash(&mut url);
    }
    if params.sort_query {
        sort_query(&mut url);
    }
    if params.remove_fragment {
        clear_fragment(&mut url);
    }
    normalize_response(params.url.as_str(), url.as_str())
}

proof fn lemma_kept_labels(pieces: Seq<Seq<char>>)
    requires
        forall|i: int| 0 <= i < pieces.len() ==> !(#[trigger] pieces[i]).contains('.'),
    ensures
        forall|i: int| 0 <= i < pieces.filter(nonempty_label()).len() ==> {
            let label = #[trigger] pieces.filter(nonempty_label())[i];
            &&& !label.contains('.')
            &&& label.len() > 0
        },
    decreases pieces.len(),
{
    reveal(Seq::filter);
    if pieces.len() > 0 {
        let front = pieces.drop_last();
        assert forall|i: int| 0 <= i < front.len() implies !(#[trigger] front[i]).contains('.') by {
            assert(front[i] == pieces[i]);
        }
        lemma_kept_labels(front);
        assert(pieces[pieces.len() - 1] == pieces.last());
        let kept = front.filter(nonempty_label());
        assert forall|i: int| 0 <= i < pieces.filter(nonempty_label()).len() implies {
            let label = #[trigger] pieces.filter(nonempty_label())[i];
            &&& !label.contains('.')
            &&& label.len() > 0
        } by {
            if i < kept.len() {
                assert(pieces.filter(nonempty_label())[i] == kept[i]);
            } else {
                assert(pieces.filter(nonempty_label())[i] == pieces.last());
            }
        }
    }
}

proof fn lemma_keeping_kept_labels(labels: Seq<Seq<char>>)
    requires
        forall|i: int| 0 <= i < labels.len() ==> (#[trigger] labels[i]).len() > 0,
    ensures
        labels.filter(nonempty_label()) == labels,
    decreases labels.len(),
{
    reveal(Seq::filter);
    if labels.len() > 0 {
        let front = labels.drop_last();
        assert forall|i: int| 0 <= i < front.len() implies (#[trigger] front[i]).len() > 0 by {
            assert(front[i] == labels[i]);
        }
        lemma_keeping_kept_labels(front);
        assert(labels[labels.len() - 1] == labels.last());
        assert(front.push(labels.last()) =~= labels);
    } else {
        assert(labels.filter(nonempty_label()) =~= labels);
    }
}

/// Cleaning a host twice cleans it no further: a cleaned host has no
/// empty label left to drop.
pub proof fn law_cleaning_a_clean_host_changes_nothing(host: Seq<char>)
    ensures
        cleaned_host(cleaned_host(host)) == cleaned_host(host),
{
    reveal_strlit(".");
    assert("."@ =~= seq!['.']);
    let labels = split_on(host, '.').filter(nonempty_label());
    lemma_split_on_pieces_lack_sep(host, '.');
    lemma_kept_labels(split_on(host, '.'));
    let c = cleaned_host(host);
    if labels.len() == 0 {
        reveal(Seq::filter);
        assert(c =~= Seq::<char>::empty());
        assert(split_on(c, '.') =~= seq![Seq::<char>::empty()]);
        let none = Seq::<Seq<char>>::empty();
        assert(none.filter(nonempty_label()) == none);
        assert(seq![Seq::<char>::empty()].drop_last() =~= none);
        assert(!nonempty_label()(Seq::<char>::empty()));
        assert(seq![Seq::<char>::empty()].filter(nonempty_label()) == none.filter(nonempty_label()));
    } else {
        lemma_split_on_joined(labels, '.');
        lemma_keeping_kept_labels(labels);
    }
}

/// The sorted query's parameters are `query`'s, sorted: the same ones,
/// each as often, in ascending order.
pub proof fn law_sorted_query_reorders_the_parameters(query: Seq<char>)
    ensures
        split_on(sorted_query_of(query), '&') == split_on(query, '&').sort_by(text_order()),
        split_on(sorted_query_of(query), '&').to_multiset() == split_on(query, '&').to_multiset(),
        vstd::relations::sorted_by(split_on(sorted_query_of(query), '&'), text_order()),
{
    reveal_strlit("&");
    assert("&"@ =~= seq!['&']);
    let pieces = split_on(query, '&');
    let sorted = pieces.sort_by(text_order());
    lemma_text_order_is_total();
    pieces.lemma_sort_by_ensures(text_order());
    lemma_split_on_nonempty(query, '&');
    lemma_split_on_pieces_lack_sep(query, '&');
    assert forall|i: int| 0 <= i < sorted.len() implies !(#[trigger] sorted[i]).contains('&') by {
        broadcast use vstd::seq_lib::group_to_multiset_ensures;
        assert(sorted.to_multiset().count(sorted[i]) > 0);
        assert(pieces.contains(sorted[i]));
        let j = choose|j: int| 0 <= j < pieces.len() && pieces[j] == sorted[i];
        assert(!pieces[j].contains('&'));
    }
    assert(sorted.len() >= 1) by {
        broadcast use vstd::seq_lib::group_to_multiset_ensures;
        assert(pieces.to_multiset().len() == pieces.len());
        assert(sorted.to_multiset().len() == sorted.len());
    }
    lemma_split_on_joined(sorted, '&');
}

/// Sorting a sorted query changes nothing.
pub proof fn law_sorting_a_sorted_query_changes_nothing(query: Seq<char>)
    ensures
        sorted_query_of(sorted_query_of(query)) == sorted_query_of(query),
{
    let once = sorted_query_of(query);
    law_sorted_query_reorders_the_parameters(query);
    lemma_text_order_is_total();
    let pieces = split_on(once, '&');
    pieces.lemma_sort_by_ensures(text_order());
    vstd::seq_lib::lemma_sorted_unique(pieces.sort_by(text_order()), pieces, text_order());
    assert(pieces.sort_by(text_order()) == pieces);
}

} // verus!
