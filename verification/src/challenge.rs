//! JS challenge: a "checking your browser" gate. A request without the
//! validation cookie gets an HTML page whose deferred script waits
//! `delay_ms` before setting the cookie and reloading — a crawler that
//! doesn't execute JavaScript never gets past it, one that does passes
//! after the delay. Simulated: the cookie's value is fixed, not a real
//! cryptographic proof, since the point is testing whether the crawler
//! runs JavaScript and persists cookies, not solving a puzzle.

use vstd::prelude::*;

use crate::rate_limit::key::opt_chars;
use crate::templates::{blank_page, page_html, render_page, PageContext, PageView};
use crate::text::{
    before_first, chars_of, decimal, index_of_char, joined, lemma_before_first, lemma_split_on_joined, push_decimal,
    split_on, split_string, string_from, trim, trimmed,
};

verus! {

/// Name of the cookie a solved challenge sets.
pub const COOKIE_NAME: &'static str = "botcamp_challenge";

/// Value a solved challenge's cookie must carry.
pub const COOKIE_VALUE: &'static str = "ok";

/// Runtime-configurable challenge policy.
#[derive(Clone, Copy, Debug, PartialEq, Eq, Structural)]
pub struct ChallengeConfig {
    /// Delay, in milliseconds, before the challenge page's script sets
    /// the validation cookie and reloads.
    pub delay_ms: u64,

    /// `max-age`, in seconds, set on the validation cookie once solved.
    pub cookie_max_age_secs: u64,
}

impl Default for ChallengeConfig {
    /// A delay of a second and a half; a cookie kept for an hour.
    fn default() -> (r: Self)
        ensures
            r.delay_ms == 1500,
            r.cookie_max_age_secs == 3600,
    {
        ChallengeConfig { delay_ms: 1500, cookie_max_age_secs: 3600 }
    }
}

/// Shared challenge state: just the current configuration. Whether a
/// request gets through depends only on the cookie it carries, so no
/// client needs remembering.
pub struct ChallengeState {
    config: ChallengeConfig,
}

impl ChallengeState {
    /// The configuration in force.
    pub closed spec fn policy(&self) -> ChallengeConfig {
        self.config
    }

    /// Returns the current configuration.
    pub fn config(&self) -> (r: ChallengeConfig)
        ensures
            r == self.policy(),
    {
        self.config
    }

    /// Replaces the current configuration.
    pub fn configure(&mut self, config: ChallengeConfig)
        ensures
            final(self).policy() == config,
    {
        self.config = config;
    }
}

impl Default for ChallengeState {
    /// The default policy (see [`ChallengeConfig::default`]).
    fn default() -> (r: Self)
        ensures
            r.policy().delay_ms == 1500,
            r.policy().cookie_max_age_secs == 3600,
    {
        ChallengeState { config: ChallengeConfig::default() }
    }
}

/// Whether one `;`-separated piece of a `Cookie` header is the solved
/// challenge's cookie: trimmed, its name (up to the first `=`) is
/// [`COOKIE_NAME`] and its value (after that `=`) is [`COOKIE_VALUE`].
pub open spec fn solves(pair: Seq<char>) -> bool {
    let t = trimmed(pair);
    let name = before_first(t, '=');
    &&& name == COOKIE_NAME@
    &&& name.len() < t.len()
    &&& t.subrange(name.len() + 1 as int, t.len() as int) == COOKIE_VALUE@
}

/// Whether a request whose `Cookie` header reads `cookie` (if it has one
/// readable as text) carries a valid, already-solved challenge cookie.
pub open spec fn solved_by(cookie: Option<Seq<char>>) -> bool {
    match cookie {
        Some(c) => some_piece_solves(split_on(c, ';')),
        None => false,
    }
}

/// Whether any of the `;`-separated pieces of a `Cookie` header
/// [`solves`] the challenge.
pub open spec fn some_piece_solves(pieces: Seq<Seq<char>>) -> bool {
    exists|i: int| 0 <= i < pieces.len() && solves(#[trigger] pieces[i])
}

/// Whether `pair` solves the challenge, the executable way.
fn pair_solves(pair: &str) -> (r: bool)
    ensures
        r == solves(pair@),
{
    let t = trim(pair);
    let chars = chars_of(t.as_str());
    let k = index_of_char(&chars, '=');
    if k >= chars.len() {
        return false;
    }
    let name = string_from(&chars, 0, k);
    let value = string_from(&chars, k + 1, chars.len());
    proof {
        lemma_before_first(t@, '=');
        assert(name@ == before_first(t@, '='));
    }
    let name_ok = name == String::from_str(COOKIE_NAME);
    let value_ok = value == String::from_str(COOKIE_VALUE);
    name_ok && value_ok
}

/// Whether the request carries a valid, already-solved challenge
/// cookie; `cookie` is its `Cookie` header as text, if present.
pub fn is_solved(cookie: Option<&str>) -> (r: bool)
    ensures
        r == solved_by(opt_chars(cookie)),
{
    match cookie {
        None => false,
        Some(c) => {
            let pairs = split_string(c, ';');
            let mut i: usize = 0;
            while i < pairs.len()
                invariant
                    i <= pairs.len(),
                    opt_chars(cookie) == Some(c@),
                    pairs.deep_view() == split_on(c@, ';'),
                    forall|j: int| 0 <= j < i ==> !solves(#[trigger] split_on(c@, ';')[j]),
                decreases pairs.len() - i,
            {
                if pair_solves(pairs[i].as_str()) {
                    assert(split_on(c@, ';')[i as int] == pairs@[i as int]@);
                    assert(solves(split_on(c@, ';')[i as int]));
                    assert(0 <= i < split_on(c@, ';').len());
                    assert(opt_chars(cookie) == Some(c@));
                    return true;
                }
                assert(split_on(c@, ';')[i as int] == pairs@[i as int]@);
                i = i + 1;
            }
            false
        },
    }
}

/// A piece of a `Cookie` header solves the challenge exactly when,
/// trimmed, it reads `botcamp_challenge=ok`.
proof fn lemma_solves_iff_trimmed_pair(pair: Seq<char>)
    ensures
        solves(pair) <==> trimmed(pair) == "botcamp_challenge=ok"@,
{
    reveal_strlit("botcamp_challenge=ok");
    reveal_strlit("botcamp_challenge");
    reveal_strlit("ok");
    let t = trimmed(pair);
    let name = before_first(t, '=');
    let lit = "botcamp_challenge=ok"@;
    lemma_before_first(t, '=');
    assert(COOKIE_NAME@ == "botcamp_challenge"@);
    assert(COOKIE_VALUE@ == "ok"@);
    if t == lit {
        assert(t[17] == '=');
        assert forall|k: int| 0 <= k < 17 implies t[k] != '=' by {
            assert(t[k] == "botcamp_challenge"@[k]);
        }
        if name.len() > 17 {
            assert(t[17] != '=');
        }
        if name.len() < 17 {
            assert(t[name.len() as int] == '=');
            assert(t[name.len() as int] == "botcamp_challenge"@[name.len() as int]);
        }
        assert(name.len() == 17);
        assert(name =~= "botcamp_challenge"@);
        assert(t.subrange(18, 20) =~= "ok"@);
    }
    if solves(pair) {
        assert(name.len() == 17);
        assert(t[17] == '=');
        assert(t.subrange(18, t.len() as int) == "ok"@);
        assert(t.len() == 20);
        assert forall|k: int| 0 <= k < 20 implies t[k] == lit[k] by {
            if k < 17 {
                assert(t[k] == name[k]);
            } else if k > 17 {
                assert(t[k] == t.subrange(18, 20)[k - 18]);
            }
        }
        assert(t =~= lit);
    }
}

/// A `Cookie` header whose `;`-separated pairs include one that, once
/// trimmed, reads exactly `botcamp_challenge=ok` solves the challenge,
/// wherever among the pairs it stands.
pub proof fn law_any_pair_solves_the_challenge(pairs: Seq<Seq<char>>, i: int)
    requires
        forall|j: int| 0 <= j < pairs.len() ==> !(#[trigger] pairs[j]).contains(';'),
        0 <= i < pairs.len(),
        trimmed(pairs[i]) == "botcamp_challenge=ok"@,
    ensures
        solved_by(Some(joined(pairs, seq![';']))),
{
    lemma_split_on_joined(pairs, ';');
    lemma_solves_iff_trimmed_pair(pairs[i]);
    assert(split_on(joined(pairs, seq![';']), ';')[i] == pairs[i]);
}

/// A `Cookie` header none of whose `;`-separated pairs, once trimmed,
/// reads exactly `botcamp_challenge=ok` does not solve the challenge;
/// neither does a request without a `Cookie` header.
pub proof fn law_only_the_solved_pair_solves_the_challenge(pairs: Seq<Seq<char>>)
    requires
        pairs.len() >= 1,
        forall|j: int| 0 <= j < pairs.len() ==> !(#[trigger] pairs[j]).contains(';'),
        forall|j: int| 0 <= j < pairs.len() ==> trimmed(#[trigger] pairs[j]) != "botcamp_challenge=ok"@,
    ensures
        !solved_by(Some(joined(pairs, seq![';']))),
        !solved_by(None),
{
    lemma_split_on_joined(pairs, ';');
    let pieces = split_on(joined(pairs, seq![';']), ';');
    assert forall|j: int| 0 <= j < pieces.len() implies !solves(#[trigger] pieces[j]) by {
        assert(pieces[j] == pairs[j]);
        lemma_solves_iff_trimmed_pair(pairs[j]);
    }
}

/// The script the challenge page defers: after `delay_ms`, set the
/// validation cookie for `max_age` seconds and reload.
pub open spec fn challenge_script(config: ChallengeConfig) -> Seq<char> {
    "setTimeout(function() { document.cookie = \""@ + COOKIE_NAME@ + "="@ + COOKIE_VALUE@ + "; path=/; max-age="@
        + decimal(config.cookie_max_age_secs as nat) + "\"; location.reload(); }, "@ + decimal(config.delay_ms as nat)
        + ");"@
}

/// Text shown on the challenge page.
pub open spec fn challenge_text() -> Seq<char> {
    "Checking your browser before accessing bot-camp..."@
}

/// Renders the "checking your browser" page: a deferred script that
/// waits `delay_ms` before setting the validation cookie and reloading.
pub fn challenge_page(config: &ChallengeConfig) -> (r: String)
    ensures
        r@ == page_html(
            (PageView { body: challenge_text(), deferred_script: Some(challenge_script(*config)), ..blank_page() }),
        ),
{
    let mut script = String::from_str("setTimeout(function() { document.cookie = \"");
    script.append(COOKIE_NAME);
    script.append("=");
    script.append(COOKIE_VALUE);
    script.append("; path=/; max-age=");
    push_decimal(&mut script, config.cookie_max_age_secs);
    script.append("\"; location.reload(); }, ");
    push_decimal(&mut script, config.delay_ms);
    script.append(");");
    let mut context = PageContext::default();
    context.body = String::from_str("Checking your browser before accessing bot-camp...");
    context.deferred_script = Some(script);
    proof {
        assert(script@ =~= challenge_script(*config));
        assert(context@ =~= (PageView { body: challenge_text(), deferred_script: Some(challenge_script(*config)), ..blank_page() }));
    }
    render_page(context)
}

} // verus!
