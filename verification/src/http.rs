//! What the HTTP types (`axum::http`) accept as a status code, a header
//! name and a header value.

use vstd::prelude::*;

verus! {

/// `StatusCode::from_u16` accepts exactly the codes from 100 to 999.
pub open spec fn valid_status(code: u16) -> bool {
    100 <= code <= 999
}

/// Whether `c` may appear in a header name: a letter, a digit, or one
/// of ``!#$%&'*+-.^_`|~``.
pub open spec fn is_token_char(c: char) -> bool {
    ||| ('a' <= c <= 'z')
    ||| ('A' <= c <= 'Z')
    ||| ('0' <= c <= '9')
    ||| c == '!' || c == '#' || c == '$' || c == '%' || c == '&' || c == '\''
    ||| c == '*' || c == '+' || c == '-' || c == '.' || c == '^' || c == '_'
    ||| c == '`' || c == '|' || c == '~'
}

/// `HeaderName::from_bytes` accepts a name of 1 to 65535 token
/// characters.
pub open spec fn valid_header_name(name: Seq<char>) -> bool {
    &&& 1 <= name.len() <= 65535
    &&& forall|i: int| 0 <= i < name.len() ==> is_token_char(#[trigger] name[i])
}

/// `HeaderValue::from_str` accepts any text without control characters
/// other than the tab.
pub open spec fn valid_header_value(value: Seq<char>) -> bool {
    forall|i: int| 0 <= i < value.len() ==> {
        let c = #[trigger] value[i];
        c == '\t' || (c >= ' ' && c != '\u{7f}')
    }
}

/// Two valid header values joined make a valid header value.
pub proof fn lemma_valid_value_concat(a: Seq<char>, b: Seq<char>)
    requires
        valid_header_value(a),
        valid_header_value(b),
    ensures
        valid_header_value(a + b),
{
    assert forall|i: int| 0 <= i < (a + b).len() implies {
        let c = #[trigger] (a + b)[i];
        c == '\t' || (c >= ' ' && c != '\u{7f}')
    } by {
        if i < a.len() {
            assert((a + b)[i] == a[i]);
        } else {
            assert((a + b)[i] == b[i - a.len()]);
        }
    }
}

/// `StatusCode::from_u16`: whether `code` is a valid HTTP status code.
#[verifier::external_body]
pub(crate) fn status_is_valid(code: u16) -> (r: bool)
    ensures
        r == valid_status(code),
{
    axum::http::StatusCode::from_u16(code).is_ok()
}

/// `HeaderName::from_bytes`: whether `name` is a valid header name.
#[verifier::external_body]
pub(crate) fn header_name_is_valid(name: &str) -> (r: bool)
    ensures
        r == valid_header_name(name@),
{
    axum::http::HeaderName::from_bytes(name.as_bytes()).is_ok()
}

/// `HeaderValue::from_str`: whether `value` is a valid header value.
#[verifier::external_body]
pub(crate) fn header_value_is_valid(value: &str) -> (r: bool)
    ensures
        r == valid_header_value(value@),
{
    axum::http::HeaderValue::from_str(value).is_ok()
}

} // verus!
