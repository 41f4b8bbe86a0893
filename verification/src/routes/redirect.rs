//! Redirect endpoints: single-hop, chained, looping, and header- or
//! meta-tag-based (`Refresh`) redirects.

use vstd::prelude::*;

use crate::error::Error;
use crate::http::{header_value_is_valid, lemma_valid_value_concat, valid_header_value};
use crate::templates::{blank_page, page_html, render_page, PageContext, PageView};
use crate::text::{decimal, push_decimal};

verus! {

/// Status code of each hop of a chain or a loop: `302 Found`.
pub const HOP_STATUS: u16 = 302;

/// Whether `code` is an HTTP redirect status.
pub open spec fn is_redirect_code(code: u16) -> bool {
    code == 300 || code == 301 || code == 302 || code == 303 || code == 307 || code == 308
}

/// Returns `code` if it represents an HTTP redirect, or an error
/// otherwise.
pub fn redirect_status(code: u16) -> (r: Result<u16, Error>)
    ensures
        is_redirect_code(code) ==> r == Ok::<u16, Error>(code),
        !is_redirect_code(code) ==> (r matches Err(Error::InvalidRedirectCode(c)) && c == code),
{
    if code == 300 || code == 301 || code == 302 || code == 303 || code == 307 || code == 308 {
        Ok(code)
    } else {
        Err(Error::InvalidRedirectCode(code))
    }
}

/// The value of a `Location` header pointing at `to`, or an error if
/// `to` isn't a valid header value.
pub fn location_header(to: &str) -> (r: Result<String, Error>)
    ensures
        valid_header_value(to@) ==> (r matches Ok(v) && v@ == to@),
        !valid_header_value(to@) ==> r matches Err(Error::InvalidHeaderValue),
{
    if header_value_is_valid(to) {
        Ok(String::from_str(to))
    } else {
        Err(Error::InvalidHeaderValue)
    }
}

/// Redirects to `to` with the given HTTP status `code`: the status and
/// the `Location` header's value.
pub fn redirect(code: u16, to: &str) -> (r: Result<(u16, String), Error>)
    ensures
        !is_redirect_code(code) ==> (r matches Err(Error::InvalidRedirectCode(c)) && c == code),
        is_redirect_code(code) && !valid_header_value(to@) ==> r matches Err(Error::InvalidHeaderValue),
        is_redirect_code(code) && valid_header_value(to@) ==> (r matches Ok((s, l)) && s == code && l@ == to@),
{
    let status = redirect_status(code)?;
    let location = location_header(to)?;
    Ok((status, location))
}

/// Where a chain with `n` hops left goes next: on to the chain with one
/// hop less, or to `to` once no hop is left.
pub open spec fn chain_target_of(n: u32, to: Seq<char>) -> Seq<char> {
    if n == 0 {
        to
    } else {
        "/redirect/chain?n="@ + decimal((n - 1) as nat) + "&to="@ + to
    }
}

/// Where a chain with `n` hops left goes next.
pub fn chain_target(n: u32, to: &str) -> (r: String)
    ensures
        r@ == chain_target_of(n, to@),
{
    if n == 0 {
        String::from_str(to)
    } else {
        let mut r = String::from_str("/redirect/chain?n=");
        push_decimal(&mut r, (n - 1) as u64);
        r.append("&to=");
        r.append(to);
        r
    }
}

/// Redirects through `n` intermediate hops before landing on `to`: a
/// `302 Found` pointing either at the next hop, or, once `n` reaches
/// `0`, directly at `to`.
pub fn redirect_chain(n: u32, to: &str) -> (r: Result<(u16, String), Error>)
    ensures
        valid_header_value(chain_target_of(n, to@)) ==> (r matches Ok((s, l)) && s == HOP_STATUS && l@ == chain_target_of(n, to@)),
        !valid_header_value(chain_target_of(n, to@)) ==> r matches Err(Error::InvalidHeaderValue),
{
    let target = chain_target(n, to);
    let location = location_header(target.as_str())?;
    Ok((HOP_STATUS, location))
}

/// The position after `step` in a loop of `steps` positions.
pub open spec fn loop_next(steps: u32, step: u32) -> u32 {
    ((step + 1) % (steps as int)) as u32
}

/// Where a loop of `steps` positions goes from position `step`.
pub open spec fn loop_target_of(steps: u32, step: u32) -> Seq<char> {
    "/redirect/loop?steps="@ + decimal(steps as nat) + "&step="@ + decimal(loop_next(steps, step) as nat)
}

/// Redirects forever, cycling through `steps` positions: a `302 Found`
/// pointing at the next position, or an error if `steps` is `0`.
pub fn redirect_loop(steps: u32, step: u32) -> (r: Result<(u16, String), Error>)
    ensures
        steps == 0 ==> (r matches Err(Error::InvalidRedirectSteps(s)) && s == 0),
        steps > 0 ==> (r matches Ok((s, l)) && s == HOP_STATUS && l@ == loop_target_of(steps, step)),
{
    if steps == 0 {
        return Err(Error::InvalidRedirectSteps(steps));
    }
    let next = ((step as u64 + 1) % (steps as u64)) as u32;
    let mut target = String::from_str("/redirect/loop?steps=");
    push_decimal(&mut target, steps as u64);
    target.append("&step=");
    push_decimal(&mut target, next as u64);
    proof {
        reveal_strlit("/redirect/loop?steps=");
        reveal_strlit("&step=");
        crate::text::lemma_decimal_is_digits(steps as nat);
        crate::text::lemma_decimal_is_digits(next as nat);
        let a = "/redirect/loop?steps="@;
        let b = decimal(steps as nat);
        let c = "&step="@;
        let d = decimal(next as nat);
        assert(valid_header_value(a));
        assert(valid_header_value(b));
        assert(valid_header_value(c));
        assert(valid_header_value(d));
        lemma_valid_value_concat(a, b);
        lemma_valid_value_concat(a + b, c);
        lemma_valid_value_concat(a + b + c, d);
        assert(target@ =~= a + b + c + d);
        assert(next == loop_next(steps, step));
    }
    let location = location_header(target.as_str())?;
    Ok((HOP_STATUS, location))
}

/// The `delay; url=to` value shared by the header-based and
/// meta-tag-based refresh redirects.
pub open spec fn refresh_of(delay: u64, to: Seq<char>) -> Seq<char> {
    decimal(delay as nat) + "; url="@ + to
}

/// Builds the `delay; url=to` value of a refresh redirect.
pub fn refresh_content(delay: u64, to: &str) -> (r: String)
    ensures
        r@ == refresh_of(delay, to@),
{
    let mut r = String::new();
    push_decimal(&mut r, delay);
    r.append("; url=");
    r.append(to);
    assert(r@ =~= refresh_of(delay, to@));
    r
}

/// Redirects to `to` via a `Refresh` response header: the header's
/// value, or an error if it isn't a valid header value.
pub fn redirect_refresh(delay: u64, to: &str) -> (r: Result<String, Error>)
    ensures
        valid_header_value(refresh_of(delay, to@)) ==> (r matches Ok(v) && v@ == refresh_of(delay, to@)),
        !valid_header_value(refresh_of(delay, to@)) ==> r matches Err(Error::InvalidHeaderValue),
{
    let content = refresh_content(delay, to);
    if header_value_is_valid(content.as_str()) {
        Ok(content)
    } else {
        Err(Error::InvalidHeaderValue)
    }
}

/// The page of a meta-refresh redirect to `to` after `delay` seconds.
pub open spec fn meta_refresh_view(delay: u64, to: Seq<char>) -> PageView {
    PageView {
        titles: seq!["Meta refresh"@],
        refresh: Some(refresh_of(delay, to)),
        body: "Redirecting…"@,
        ..blank_page()
    }
}

/// Redirects to `to` via an HTML `<meta http-equiv="refresh">` tag: the
/// page that holds it.
pub fn redirect_meta_refresh(delay: u64, to: &str) -> (r: String)
    ensures
        r@ == page_html(meta_refresh_view(delay, to@)),
{
    let mut context = PageContext::default();
    context.titles.push(String::from_str("Meta refresh"));
    context.refresh = Some(refresh_content(delay, to));
    context.body = String::from_str("Redirecting…");
    assert(context@.titles =~= seq!["Meta refresh"@]);
    assert(context@ =~= meta_refresh_view(delay, to@));
    render_page(context)
}

/// Following a loop from any position comes back to that position
/// after exactly `steps` hops.
pub proof fn law_loop_returns_after_steps(steps: u32, step: u32)
    requires
        steps > 0,
        step < steps,
    ensures
        loop_hops(steps, step, steps as nat) == step,
{
    lemma_loop_hops(steps, step, steps as nat);
    assert((step + steps) % (steps as int) == step) by (nonlinear_arith)
        requires step < steps, steps > 0;
}

/// The position reached after `k` hops of a loop from `step`.
pub open spec fn loop_hops(steps: u32, step: u32, k: nat) -> u32
    decreases k,
{
    if k == 0 { step } else { loop_next(steps, loop_hops(steps, step, (k - 1) as nat)) }
}

proof fn lemma_loop_hops(steps: u32, step: u32, k: nat)
    requires
        steps > 0,
        step < steps,
    ensures
        loop_hops(steps, step, k) == (step + k) % (steps as int),
    decreases k,
{
    if k > 0 {
        lemma_loop_hops(steps, step, (k - 1) as nat);
        let prev = (step + k - 1) % (steps as int);
        assert((prev + 1) % (steps as int) == (step + k) % (steps as int)) by (nonlinear_arith)
            requires prev == (step + k - 1) % (steps as int), steps > 0, k >= 1;
    } else {
        assert((step as int) % (steps as int) == step) by (nonlinear_arith)
            requires step < steps;
    }
}

/// A chain of `n` hops lands on `to`: following its targets from `n`
/// down, the last one is `to` itself.
pub proof fn law_chain_lands_on_target(to: Seq<char>)
    ensures
        chain_target_of(0, to) == to,
{
}

/// The path at which the chain with `n` hops left, landing on `to`, is
/// requested.
pub open spec fn chain_url(n: nat, to: Seq<char>) -> Seq<char> {
    "/redirect/chain?n="@ + decimal(n) + "&to="@ + to
}

/// Each hop of a chain counts down by exactly one: the chain requested
/// with `n > 0` hops left points at the chain with `n - 1` hops left
/// (and not yet at `to`), so a client following it passes through the
/// chains with `n - 1`, ..., `0` hops left and lands on `to` after
/// exactly `n` hops.
pub proof fn law_chain_counts_down_one_hop_at_a_time(n: u32, to: Seq<char>)
    requires
        n > 0,
    ensures
        chain_target_of(n, to) == chain_url((n - 1) as nat, to),
        chain_target_of(n, to) != to,
{
    assert(chain_target_of(n, to).len() > to.len());
}

} // verus!
