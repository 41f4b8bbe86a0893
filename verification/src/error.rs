//! Error types for the bot-camp server.

use vstd::prelude::*;

use crate::text::decimal_string;

verus! {

/// Why a URL doesn't parse or can't take a new host: the variants of
/// `url::ParseError`.
#[derive(Clone, Copy, Debug, PartialEq, Eq, Structural)]
pub enum UrlError {
    EmptyHost,
    IdnaError,
    InvalidPort,
    InvalidIpv4Address,
    InvalidIpv6Address,
    InvalidDomainCharacter,
    RelativeUrlWithoutBase,
    RelativeUrlWithCannotBeABaseBase,
    SetHostOnCannotBeABaseUrl,
    Overflow,
    /// A kind of parse error that `url::ParseError` may gain in a later
    /// version (the enum is `non_exhaustive`); the version this crate
    /// builds with has none.
    Other,
}

/// The description of each URL error (`Display` for `url::ParseError`).
pub open spec fn url_error_text(e: UrlError) -> Seq<char> {
    match e {
        UrlError::EmptyHost => "empty host"@,
        UrlError::IdnaError => "invalid international domain name"@,
        UrlError::InvalidPort => "invalid port number"@,
        UrlError::InvalidIpv4Address => "invalid IPv4 address"@,
        UrlError::InvalidIpv6Address => "invalid IPv6 address"@,
        UrlError::InvalidDomainCharacter => "invalid domain character"@,
        UrlError::RelativeUrlWithoutBase => "relative URL without a base"@,
        UrlError::RelativeUrlWithCannotBeABaseBase => "relative URL with a cannot-be-a-base base"@,
        UrlError::SetHostOnCannotBeABaseUrl => "a cannot-be-a-base URL doesn\u{2019}t have a host to set"@,
        UrlError::Overflow => "URLs more than 4 GB are not supported"@,
        UrlError::Other => "invalid URL"@,
    }
}

impl UrlError {
    /// The error's description.
    pub fn text(&self) -> (r: &'static str)
        ensures
            r@ == url_error_text(*self),
    {
        match self {
            UrlError::EmptyHost => "empty host",
            UrlError::IdnaError => "invalid international domain name",
            UrlError::InvalidPort => "invalid port number",
            UrlError::InvalidIpv4Address => "invalid IPv4 address",
            UrlError::InvalidIpv6Address => "invalid IPv6 address",
            UrlError::InvalidDomainCharacter => "invalid domain character",
            UrlError::RelativeUrlWithoutBase => "relative URL without a base",
            UrlError::RelativeUrlWithCannotBeABaseBase => "relative URL with a cannot-be-a-base base",
            UrlError::SetHostOnCannotBeABaseUrl => "a cannot-be-a-base URL doesn\u{2019}t have a host to set",
            UrlError::Overflow => "URLs more than 4 GB are not supported",
            UrlError::Other => "invalid URL",
        }
    }
}

/// Errors that can occur in the bot-camp server.
#[derive(Debug)]
pub enum Error {
    /// Both a raw body and a page were given for one response.
    ConflictingBody,

    /// The requested value isn't a valid HTTP header name.
    InvalidHeaderName,

    /// The requested value isn't a valid HTTP header value.
    InvalidHeaderValue,

    /// The requested code doesn't represent an HTTP redirect.
    InvalidRedirectCode(u16),

    /// The requested number of loop positions isn't valid.
    InvalidRedirectSteps(u32),

    /// The requested value isn't a valid HTTP status code.
    InvalidStatusCode,

    /// The requested value isn't a valid URL.
    InvalidUrl(UrlError),

    /// I/O error, with its message.
    Io(String),
}

impl Error {
    /// The status code of the response that reports this error: `500
    /// Internal Server Error` for an I/O error, `400 Bad Request` for
    /// anything the request itself got wrong.
    pub fn status_code(&self) -> (r: u16)
        ensures
            r == if *self is Io { 500u16 } else { 400u16 },
    {
        match self {
            Error::Io(_) => 500,
            _ => 400,
        }
    }

    /// The text of the response that reports this error.
    pub fn message(&self) -> (r: String)
        ensures
            match *self {
                Error::ConflictingBody => r@ == "`body` and `page` are mutually exclusive"@,
                Error::InvalidHeaderName => r@ == "invalid HTTP header name"@,
                Error::InvalidHeaderValue => r@ == "failed to parse header value"@,
                Error::InvalidRedirectCode(code) => r@ == "not a redirect status code: "@
                    + crate::text::decimal(code as nat),
                Error::InvalidRedirectSteps(steps) => r@ == "invalid number of redirect loop steps: "@
                    + crate::text::decimal(steps as nat),
                Error::InvalidStatusCode => r@ == "invalid status code"@,
                Error::InvalidUrl(e) => r@ == url_error_text(e),
                Error::Io(m) => r@ == m@,
            },
    {
        match self {
            Error::ConflictingBody => String::from_str("`body` and `page` are mutually exclusive"),
            Error::InvalidHeaderName => String::from_str("invalid HTTP header name"),
            Error::InvalidHeaderValue => String::from_str("failed to parse header value"),
            Error::InvalidRedirectCode(code) => {
                let mut m = String::from_str("not a redirect status code: ");
                let n = decimal_string(*code as u64);
                m.append(n.as_str());
                m
            },
            Error::InvalidRedirectSteps(steps) => {
                let mut m = String::from_str("invalid number of redirect loop steps: ");
                let n = decimal_string(*steps as u64);
                m.append(n.as_str());
                m
            },
            Error::InvalidStatusCode => String::from_str("invalid status code"),
            Error::InvalidUrl(e) => String::from_str(e.text()),
            Error::Io(m) => m.clone(),
        }
    }
}

} // verus!
