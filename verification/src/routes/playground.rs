//! What the gated playground pages answer once a request gets through:
//! a short acknowledgement naming the path, and the large-response page.

use vstd::prelude::*;

use crate::text::{concat, push_char};

verus! {

/// `ok: ` followed by the path reached.
pub open spec fn acknowledgement(prefix: Seq<char>, path: Seq<char>) -> Seq<char> {
    "ok: "@ + prefix + path
}

/// Playground page reached once a request clears the rate limiter —
/// any path under `/ratelimit/` lands here.
pub fn ratelimit_probe(path: &str) -> (r: String)
    ensures
        r@ == acknowledgement("/ratelimit/"@, path@),
{
    let r = concat("ok: /ratelimit/", path);
    proof {
        reveal_strlit("ok: /ratelimit/");
        reveal_strlit("ok: ");
        reveal_strlit("/ratelimit/");
        assert(r@ =~= acknowledgement("/ratelimit/"@, path@));
    }
    r
}

/// The honeypot trap's answer — the response looks like an ordinary
/// page, so nothing gives away that the key just got caught.
pub fn honeypot_trap(path: &str) -> (r: String)
    ensures
        r@ == acknowledgement("/honeypot/"@, path@),
{
    let r = concat("ok: /honeypot/", path);
    proof {
        reveal_strlit("ok: /honeypot/");
        reveal_strlit("ok: ");
        reveal_strlit("/honeypot/");
        assert(r@ =~= acknowledgement("/honeypot/"@, path@));
    }
    r
}

/// Playground page reached once a request clears the JS challenge.
pub fn challenge_probe(path: &str) -> (r: String)
    ensures
        r@ == acknowledgement("/challenge/"@, path@),
{
    let r = concat("ok: /challenge/", path);
    proof {
        reveal_strlit("ok: /challenge/");
        reveal_strlit("ok: ");
        reveal_strlit("/challenge/");
        assert(r@ =~= acknowledgement("/challenge/"@, path@));
    }
    r
}

/// Number of bytes in one kilobyte, as used to size the response body.
pub const BYTES_PER_KB: u64 = 1024;

/// A response body of exactly `kb` kilobytes, filled with `'a'`
/// characters.
pub fn large_response(kb: u64) -> (r: String)
    requires
        kb * BYTES_PER_KB <= usize::MAX,
    ensures
        r@ == Seq::new((kb * BYTES_PER_KB) as nat, |i: int| 'a'),
{
    let n = (kb * BYTES_PER_KB) as usize;
    let mut r = String::new();
    let mut i: usize = 0;
    while i < n
        invariant
            i <= n,
            r@ == Seq::new(i as nat, |k: int| 'a'),
        decreases n - i,
    {
        push_char(&mut r, 'a');
        assert(r@ =~= Seq::new((i + 1) as nat, |k: int| 'a'));
        i = i + 1;
    }
    r
}

} // verus!
