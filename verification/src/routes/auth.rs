//! HTTP Basic Auth endpoint.

use vstd::prelude::*;
use vstd::utf8::{decode_utf8, valid_utf8};

use crate::rate_limit::key::opt_chars;
use crate::text::{before_first, chars_of, index_of_char, lemma_before_first, str_eq, string_from};

verus! {

/// Username expected in the `Authorization` header. Published on
/// purpose: the point is to test a crawler's known-good path, not to
/// make it guess credentials.
pub const USERNAME: &'static str = "bot-camp";

/// Password expected in the `Authorization` header, see `USERNAME`.
pub const PASSWORD: &'static str = "bot-camp";

/// What standard base64 (with padding) decodes `input` to, if it is
/// valid base64.
pub uninterp spec fn base64_decoded(input: Seq<char>) -> Option<Seq<u8>>;

/// `base64::engine::general_purpose::STANDARD.decode`: the bytes that
/// `input` encodes, or `None` if it isn't valid base64.
#[verifier::external_body]
fn decode_base64(input: &str) -> (r: Option<Vec<u8>>)
    ensures
        match r {
            Some(v) => base64_decoded(input@) == Some(v@),
            None => base64_decoded(input@) is None,
        },
{
    base64::Engine::decode(&base64::engine::general_purpose::STANDARD, input).ok()
}

/// `String::from_utf8`: the text `bytes` encode, if they are valid
/// UTF-8.
#[verifier::external_body]
fn utf8_text(bytes: Vec<u8>) -> (r: Option<String>)
    ensures
        match r {
            Some(s) => valid_utf8(bytes@) && s@ == decode_utf8(bytes@),
            None => !valid_utf8(bytes@),
        },
{
    String::from_utf8(bytes).ok()
}

/// `s` split at its first `:` (`str::split_once`).
pub open spec fn split_colon(s: Seq<char>) -> Option<(Seq<char>, Seq<char>)> {
    let k = before_first(s, ':');
    if k.len() < s.len() { Some((k, s.subrange(k.len() + 1 as int, s.len() as int))) } else { None }
}

/// The `username:password` pair that decoded credential bytes hold, if
/// they are UTF-8 text with a colon.
pub open spec fn credentials_in(bytes: Seq<u8>) -> Option<(Seq<char>, Seq<char>)> {
    if valid_utf8(bytes) { split_colon(decode_utf8(bytes)) } else { None }
}

/// Whether `s` starts with `prefix`.
pub open spec fn has_prefix(s: Seq<char>, prefix: Seq<char>) -> bool {
    prefix.len() <= s.len() && s.take(prefix.len() as int) == prefix
}

/// The credentials an `Authorization` header value carries: a `Basic `
/// scheme followed by base64 of `username:password`.
pub open spec fn credentials_of(authorization: Option<Seq<char>>) -> Option<(Seq<char>, Seq<char>)> {
    match authorization {
        Some(a) => if has_prefix(a, "Basic "@) {
            match base64_decoded(a.skip(6)) {
                Some(bytes) => credentials_in(bytes),
                None => None,
            }
        } else {
            None
        },
        None => None,
    }
}

/// Splits decoded credential bytes into `username` and `password`, at
/// the first colon, if they are UTF-8 text with a colon.
pub fn credentials_from_decoded(decoded: Vec<u8>) -> (r: Option<(String, String)>)
    ensures
        match r {
            Some((u, p)) => credentials_in(decoded@) == Some((u@, p@)),
            None => credentials_in(decoded@) is None,
        },
{
    let text = match utf8_text(decoded) {
        Some(t) => t,
        None => return None,
    };
    let chars = chars_of(text.as_str());
    let k = index_of_char(&chars, ':');
    proof {
        lemma_before_first(text@, ':');
    }
    if k >= chars.len() {
        return None;
    }
    let username = string_from(&chars, 0, k);
    let password = string_from(&chars, k + 1, chars.len());
    Some((username, password))
}

/// Decodes the `username:password` pair from the request's
/// `Authorization` header (`authorization`, its text if present), if
/// present and well-formed.
pub fn decode_credentials(authorization: Option<&str>) -> (r: Option<(String, String)>)
    ensures
        match r {
            Some((u, p)) => credentials_of(opt_chars(authorization)) == Some((u@, p@)),
            None => credentials_of(opt_chars(authorization)) is None,
        },
{
    let value = match authorization {
        Some(v) => v,
        None => return None,
    };
    let chars = chars_of(value);
    proof {
        reveal_strlit("Basic ");
    }
    if chars.len() < 6 {
        return None;
    }
    let scheme = string_from(&chars, 0, 6);
    if !str_eq(scheme.as_str(), "Basic ") {
        assert(!has_prefix(value@, "Basic "@)) by {
            assert(value@.take(6) =~= scheme@);
        }
        return None;
    }
    assert(value@.take(6) =~= scheme@);
    let encoded = string_from(&chars, 6, chars.len());
    assert(encoded@ =~= value@.skip(6));
    match decode_base64(encoded.as_str()) {
        Some(bytes) => credentials_from_decoded(bytes),
        None => None,
    }
}

/// Whether an `Authorization` header value carries exactly `USERNAME`
/// and `PASSWORD`.
pub open spec fn authorized(authorization: Option<Seq<char>>) -> bool {
    credentials_of(authorization) == Some((USERNAME@, PASSWORD@))
}

/// Checks whether the request carries a valid `Authorization: Basic ...`
/// value.
pub fn has_valid_credentials(authorization: Option<&str>) -> (r: bool)
    ensures
        r == authorized(opt_chars(authorization)),
{
    match decode_credentials(authorization) {
        Some((username, password)) => str_eq(username.as_str(), USERNAME) && str_eq(password.as_str(), PASSWORD),
        None => false,
    }
}

/// The `WWW-Authenticate` challenge: `Basic realm="bot-camp"`.
pub open spec fn challenge_of() -> Seq<char> {
    "Basic realm=\"bot-camp\""@
}

/// `200 OK` when the request carries the expected credentials;
/// otherwise `401 Unauthorized` with the `WWW-Authenticate` challenge's
/// value.
pub fn basic(authorization: Option<&str>) -> (r: (u16, Option<String>))
    ensures
        authorized(opt_chars(authorization)) ==> r.0 == 200 && r.1 is None,
        !authorized(opt_chars(authorization)) ==> r.0 == 401 && (r.1 matches Some(c) && c@ == challenge_of()),
{
    if has_valid_credentials(authorization) {
        (200, None)
    } else {
        (401, Some(String::from_str("Basic realm=\"bot-camp\"")))
    }
}

} // verus!
