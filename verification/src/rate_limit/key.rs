//! Client identification for rate limiting: by IP, User-Agent, or both.

use vstd::prelude::*;

use crate::text::{before_first, concat, prefix_before, trim, trimmed};

verus! {

/// How a client is identified for rate limiting purposes.
#[derive(Clone, Copy, Debug, PartialEq, Eq, Structural)]
pub enum KeyStrategy {
    Ip,
    UserAgent,
    Both,
}

/// The characters of an optional string.
pub open spec fn opt_chars(s: Option<&str>) -> Option<Seq<char>> {
    match s {
        Some(v) => Some(v@),
        None => None,
    }
}

/// The client IP: `X-Forwarded-For`'s first comma-separated value,
/// trimmed, when the header is present (and readable as text);
/// otherwise the TCP peer's address.
pub open spec fn client_ip_of(forwarded_for: Option<Seq<char>>, peer_ip: Seq<char>) -> Seq<char> {
    match forwarded_for {
        Some(v) => trimmed(before_first(v, ',')),
        None => peer_ip,
    }
}

/// The client's `User-Agent`, or `unknown` if absent.
pub open spec fn user_agent_of(user_agent: Option<Seq<char>>) -> Seq<char> {
    match user_agent {
        Some(v) => v,
        None => "unknown"@,
    }
}

/// The key a client is tracked under for `strategy`.
pub open spec fn key_of(strategy: KeyStrategy, ip: Seq<char>, user_agent: Seq<char>) -> Seq<char> {
    match strategy {
        KeyStrategy::Ip => ip,
        KeyStrategy::UserAgent => user_agent,
        KeyStrategy::Both => ip + "|"@ + user_agent,
    }
}

/// Extracts the client IP from `X-Forwarded-For`'s first value
/// (`forwarded_for`, the header's text if present), or `peer_ip` if the
/// header is absent.
pub fn client_ip(forwarded_for: Option<&str>, peer_ip: &str) -> (r: String)
    ensures
        r@ == client_ip_of(opt_chars(forwarded_for), peer_ip@),
{
    match forwarded_for {
        Some(v) => {
            let first = prefix_before(v, ',');
            trim(first.as_str())
        },
        None => String::from_str(peer_ip),
    }
}

/// Extracts the client's `User-Agent`, or `"unknown"` if absent.
pub fn user_agent(header: Option<&str>) -> (r: String)
    ensures
        r@ == user_agent_of(opt_chars(header)),
{
    match header {
        Some(v) => String::from_str(v),
        None => String::from_str("unknown"),
    }
}

/// Derives the rate limiting key for a request under `strategy`: the
/// client's IP, its `User-Agent`, or both joined by `|`.
///
/// The IP trusts `X-Forwarded-For`'s first value if present, since
/// bot-camp may run behind a reverse proxy, falling back to `peer_ip`
/// (the real TCP peer address) otherwise.
pub fn extract_key(
    strategy: KeyStrategy,
    forwarded_for: Option<&str>,
    user_agent_header: Option<&str>,
    peer_ip: &str,
) -> (r: String)
    ensures
        r@ == key_of(
            strategy,
            client_ip_of(opt_chars(forwarded_for), peer_ip@),
            user_agent_of(opt_chars(user_agent_header)),
        ),
{
    match strategy {
        KeyStrategy::Ip => client_ip(forwarded_for, peer_ip),
        KeyStrategy::UserAgent => user_agent(user_agent_header),
        KeyStrategy::Both => {
            let ip = client_ip(forwarded_for, peer_ip);
            let ua = user_agent(user_agent_header);
            let with_bar = concat(ip.as_str(), "|");
            concat(with_bar.as_str(), ua.as_str())
        },
    }
}

} // verus!
