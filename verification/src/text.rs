//! Character-level string building blocks shared by every page, key and
//! header the server produces.

use vstd::prelude::*;

verus! {

/// Appends `c` to `s` (`String::push`).
#[verifier::external_body]
pub(crate) fn push_char(s: &mut String, c: char)
    ensures
        final(s)@ == old(s)@.push(c),
{
    s.push(c);
}

/// The characters of `s`, in order.
pub fn chars_of(s: &str) -> (r: Vec<char>)
    ensures
        r@ == s@,
{
    let mut r: Vec<char> = Vec::new();
    for c in it: s.chars()
        invariant
            it.seq() == s@,
            r@ == it.seq().take(it.index() as int),
    {
        r.push(c);
    }
    r
}

/// The characters `chars[from..to]`, as a string.
pub fn string_from(chars: &Vec<char>, from: usize, to: usize) -> (r: String)
    requires
        from <= to <= chars.len(),
    ensures
        r@ == chars@.subrange(from as int, to as int),
{
    let mut r = String::new();
    let mut i = from;
    while i < to
        invariant
            from <= i <= to <= chars.len(),
            r@ == chars@.subrange(from as int, i as int),
        decreases to - i,
    {
        push_char(&mut r, chars[i]);
        assert(r@ =~= chars@.subrange(from as int, i + 1));
        i = i + 1;
    }
    r
}

/// Whether `c` is a Unicode `White_Space` character, as
/// `char::is_whitespace` classifies it.
pub open spec fn is_space(c: char) -> bool {
    ||| ('\u{9}' <= c <= '\u{d}')
    ||| c == ' '
    ||| c == '\u{85}'
    ||| c == '\u{a0}'
    ||| c == '\u{1680}'
    ||| ('\u{2000}' <= c <= '\u{200a}')
    ||| c == '\u{2028}'
    ||| c == '\u{2029}'
    ||| c == '\u{202f}'
    ||| c == '\u{205f}'
    ||| c == '\u{3000}'
}

/// Executable [`is_space`].
pub fn char_is_space(c: char) -> (r: bool)
    ensures
        r == is_space(c),
{
    ('\u{9}' <= c && c <= '\u{d}') || c == ' ' || c == '\u{85}' || c == '\u{a0}' || c == '\u{1680}'
        || ('\u{2000}' <= c && c <= '\u{200a}') || c == '\u{2028}' || c == '\u{2029}' || c == '\u{202f}'
        || c == '\u{205f}' || c == '\u{3000}'
}

/// Index of the first non-space character of `s` (its length if none).
pub open spec fn trim_start_index(s: Seq<char>) -> int
    decreases s.len(),
{
    if s.len() > 0 && is_space(s[0]) { 1 + trim_start_index(s.drop_first()) } else { 0 }
}

/// Index just past the last non-space character of `s` (zero if none).
pub open spec fn trim_end_index(s: Seq<char>) -> int
    decreases s.len(),
{
    if s.len() > 0 && is_space(s.last()) { trim_end_index(s.drop_last()) } else { s.len() as int }
}

/// `s` without leading and trailing whitespace (`str::trim`).
pub open spec fn trimmed(s: Seq<char>) -> Seq<char> {
    let front = s.subrange(trim_start_index(s), s.len() as int);
    front.subrange(0, trim_end_index(front))
}

proof fn lemma_trim_start_index(s: Seq<char>)
    ensures
        0 <= trim_start_index(s) <= s.len(),
        forall|k: int| 0 <= k < trim_start_index(s) ==> is_space(#[trigger] s[k]),
        trim_start_index(s) < s.len() ==> !is_space(s[trim_start_index(s)]),
    decreases s.len(),
{
    if s.len() > 0 && is_space(s[0]) {
        lemma_trim_start_index(s.drop_first());
        assert forall|k: int| 0 <= k < trim_start_index(s) implies is_space(#[trigger] s[k]) by {
            if k > 0 {
                assert(s[k] == s.drop_first()[k - 1]);
            }
        }
    }
}

proof fn lemma_trim_end_index(s: Seq<char>)
    ensures
        0 <= trim_end_index(s) <= s.len(),
        forall|k: int| trim_end_index(s) <= k < s.len() ==> is_space(#[trigger] s[k]),
        trim_end_index(s) > 0 ==> !is_space(s[trim_end_index(s) - 1]),
    decreases s.len(),
{
    if s.len() > 0 && is_space(s.last()) {
        lemma_trim_end_index(s.drop_last());
        assert forall|k: int| trim_end_index(s) <= k < s.len() implies is_space(#[trigger] s[k]) by {
            if k < s.len() - 1 {
                assert(s[k] == s.drop_last()[k]);
            }
        }
    }
}

/// Index of the first non-space character, the executable way.
fn first_non_space(chars: &Vec<char>) -> (r: usize)
    ensures
        r == trim_start_index(chars@),
        r <= chars.len(),
{
    proof { lemma_trim_start_index(chars@); }
    let mut i: usize = 0;
    while i < chars.len() && char_is_space(chars[i])
        invariant
            i <= chars.len(),
            forall|k: int| 0 <= k < i ==> is_space(#[trigger] chars@[k]),
            i <= trim_start_index(chars@),
            0 <= trim_start_index(chars@) <= chars.len(),
            forall|k: int| 0 <= k < trim_start_index(chars@) ==> is_space(#[trigger] chars@[k]),
            trim_start_index(chars@) < chars.len() ==> !is_space(chars@[trim_start_index(chars@)]),
        decreases chars.len() - i,
    {
        i = i + 1;
    }
    i
}

/// Index just past the last non-space character in `chars[from..]`.
fn end_non_space(chars: &Vec<char>, from: usize) -> (r: usize)
    requires
        from <= chars.len(),
    ensures
        from <= r <= chars.len(),
        r - from == trim_end_index(chars@.subrange(from as int, chars.len() as int)),
{
    let ghost front = chars@.subrange(from as int, chars.len() as int);
    proof { lemma_trim_end_index(front); }
    let mut j: usize = chars.len();
    while j > from && char_is_space(chars[j - 1])
        invariant
            from <= j <= chars.len(),
            front == chars@.subrange(from as int, chars.len() as int),
            forall|k: int| j <= k < chars.len() ==> is_space(#[trigger] chars@[k]),
            j - from >= trim_end_index(front),
            0 <= trim_end_index(front) <= front.len(),
            forall|k: int| trim_end_index(front) <= k < front.len() ==> is_space(#[trigger] front[k]),
            trim_end_index(front) > 0 ==> !is_space(front[trim_end_index(front) - 1]),
        decreases j,
    {
        assert(front[j - 1 - from] == chars@[j - 1]);
        j = j - 1;
    }
    proof {
        if j > from {
            assert(front[j - 1 - from] == chars@[j - 1]);
        }
        if j - from > trim_end_index(front) {
            let t = trim_end_index(front);
            assert(front[j - 1 - from] == chars@[j - 1]);
            assert(is_space(front[j - 1 - from]));
        }
    }
    j
}

/// `s` without leading and trailing whitespace.
pub fn trim(s: &str) -> (r: String)
    ensures
        r@ == trimmed(s@),
{
    let chars = chars_of(s);
    let i = first_non_space(&chars);
    let j = end_non_space(&chars, i);
    let r = string_from(&chars, i, j);
    proof {
        let front = s@.subrange(i as int, s@.len() as int);
        assert(r@ =~= front.subrange(0, j - i));
    }
    r
}

/// Whether `needle` occurs in `hay` starting at `at`.
pub open spec fn occurs_at(hay: Seq<char>, needle: Seq<char>, at: int) -> bool {
    0 <= at && at + needle.len() <= hay.len() && hay.subrange(at, at + needle.len()) == needle
}

/// Whether `needle` occurs anywhere in `hay` (`str::contains`); the
/// empty string occurs in every string.
pub open spec fn contains(hay: Seq<char>, needle: Seq<char>) -> bool {
    exists|at: int| occurs_at(hay, needle, at)
}

/// Whether `needle` occurs in `hay` at `at`, the executable way.
fn matches_at(hay: &Vec<char>, needle: &Vec<char>, at: usize) -> (r: bool)
    requires
        at + needle.len() <= hay.len(),
    ensures
        r == occurs_at(hay@, needle@, at as int),
{
    let mut k: usize = 0;
    while k < needle.len()
        invariant
            at + needle.len() <= hay.len(),
            k <= needle.len(),
            forall|m: int| 0 <= m < k ==> hay@[at + m] == needle@[m],
        decreases needle.len() - k,
    {
        if hay[at + k] != needle[k] {
            assert(hay@.subrange(at as int, at + needle.len())[k as int] != needle@[k as int]);
            return false;
        }
        k = k + 1;
    }
    assert(hay@.subrange(at as int, at + needle.len()) =~= needle@);
    true
}

/// Whether `needle` occurs anywhere in `hay`.
pub fn str_contains(hay: &str, needle: &str) -> (r: bool)
    ensures
        r == contains(hay@, needle@),
{
    let h = chars_of(hay);
    let n = chars_of(needle);
    if n.len() > h.len() {
        return false;
    }
    let last = h.len() - n.len();
    let mut at: usize = 0;
    loop
        invariant
            last == h.len() - n.len(),
            at <= last,
            h@ == hay@,
            n@ == needle@,
            forall|p: int| 0 <= p < at ==> !occurs_at(hay@, needle@, p),
        ensures
            forall|p: int| 0 <= p <= last ==> !occurs_at(hay@, needle@, p),
        decreases last - at,
    {
        if matches_at(&h, &n, at) {
            return true;
        }
        if at == last {
            break;
        }
        at = at + 1;
    }
    assert forall|p: int| !occurs_at(hay@, needle@, p) by {
        if 0 <= p <= last {
        }
    }
    false
}

/// The characters of `s` before the first `sep` (all of `s` if none).
pub open spec fn before_first(s: Seq<char>, sep: char) -> Seq<char>
    decreases s.len(),
{
    if s.len() == 0 || s[0] == sep { Seq::empty() } else { seq![s[0]] + before_first(s.drop_first(), sep) }
}

/// [`before_first`] is the prefix of `s` up to the first `sep`.
pub proof fn lemma_before_first(s: Seq<char>, sep: char)
    ensures
        before_first(s, sep).len() <= s.len(),
        before_first(s, sep) == s.take(before_first(s, sep).len() as int),
        before_first(s, sep).len() < s.len() ==> s[before_first(s, sep).len() as int] == sep,
        forall|k: int| 0 <= k < before_first(s, sep).len() ==> s[k] != sep,
    decreases s.len(),
{
    if s.len() > 0 && s[0] != sep {
        lemma_before_first(s.drop_first(), sep);
        assert(before_first(s, sep) =~= s.take(before_first(s, sep).len() as int));
        assert forall|k: int| 0 <= k < before_first(s, sep).len() implies s[k] != sep by {
            if k > 0 {
                assert(s[k] == s.drop_first()[k - 1]);
            }
        }
    }
}

/// Index of the first `sep` in `chars` (its length if none).
pub fn index_of_char(chars: &Vec<char>, sep: char) -> (r: usize)
    ensures
        r == before_first(chars@, sep).len(),
{
    proof { lemma_before_first(chars@, sep); }
    let mut i: usize = 0;
    while i < chars.len() && chars[i] != sep
        invariant
            i <= chars.len(),
            forall|k: int| 0 <= k < i ==> chars@[k] != sep,
            i <= before_first(chars@, sep).len(),
            before_first(chars@, sep).len() <= chars.len(),
            before_first(chars@, sep).len() < chars.len() ==> chars@[before_first(chars@, sep).len() as int] == sep,
        decreases chars.len() - i,
    {
        i = i + 1;
    }
    i
}

/// The characters of `s` before the first `sep`.
pub fn prefix_before(s: &str, sep: char) -> (r: String)
    ensures
        r@ == before_first(s@, sep),
{
    let chars = chars_of(s);
    let i = index_of_char(&chars, sep);
    proof { lemma_before_first(s@, sep); }
    string_from(&chars, 0, i)
}

/// The decimal digit for `d`.
pub open spec fn digit(d: int) -> char {
    if d == 0 { '0' } else if d == 1 { '1' } else if d == 2 { '2' } else if d == 3 { '3' } else if d == 4 { '4' }
    else if d == 5 { '5' } else if d == 6 { '6' } else if d == 7 { '7' } else if d == 8 { '8' } else { '9' }
}

/// `n` written in decimal, without leading zeros (`Display` for integers).
pub open spec fn decimal(n: nat) -> Seq<char>
    decreases n,
{
    if n < 10 { seq![digit(n as int)] } else { decimal(n / 10).push(digit((n % 10) as int)) }
}

/// A decimal numeral is made of digits only.
pub proof fn lemma_decimal_is_digits(n: nat)
    ensures
        forall|i: int| 0 <= i < decimal(n).len() ==> '0' <= #[trigger] decimal(n)[i] <= '9',
    decreases n,
{
    if n >= 10 {
        lemma_decimal_is_digits(n / 10);
        assert forall|i: int| 0 <= i < decimal(n).len() implies '0' <= #[trigger] decimal(n)[i] <= '9' by {
            if i < decimal(n / 10).len() {
                assert(decimal(n)[i] == decimal(n / 10)[i]);
            }
        }
    }
}

fn digit_char(d: u64) -> (c: char)
    requires
        d < 10,
    ensures
        c == digit(d as int),
{
    if d == 0 { '0' } else if d == 1 { '1' } else if d == 2 { '2' } else if d == 3 { '3' } else if d == 4 { '4' }
    else if d == 5 { '5' } else if d == 6 { '6' } else if d == 7 { '7' } else if d == 8 { '8' } else { '9' }
}

/// Appends `n` in decimal to `out`.
pub fn push_decimal(out: &mut String, n: u64)
    ensures
        final(out)@ == old(out)@ + decimal(n as nat),
    decreases n,
{
    if n >= 10 {
        push_decimal(out, n / 10);
    }
    push_char(out, digit_char(n % 10));
    proof {
        if n >= 10 {
            assert(final(out)@ =~= old(out)@ + decimal(n as nat));
        } else {
            assert(final(out)@ =~= old(out)@ + decimal(n as nat));
        }
    }
}

/// `n` in decimal.
pub fn decimal_string(n: u64) -> (r: String)
    ensures
        r@ == decimal(n as nat),
{
    let mut r = String::new();
    push_decimal(&mut r, n);
    assert(r@ =~= decimal(n as nat));
    r
}

/// `s` followed by `t`.
pub fn concat(s: &str, t: &str) -> (r: String)
    ensures
        r@ == s@ + t@,
{
    let mut r = String::from_str(s);
    r.append(t);
    r
}

/// The pieces of `s` between occurrences of `sep` (`str::split`): the
/// empty string gives one empty piece, and every `sep` starts a new
/// piece.
pub open spec fn split_on(s: Seq<char>, sep: char) -> Seq<Seq<char>>
    decreases s.len(),
{
    if s.len() == 0 {
        seq![Seq::empty()]
    } else {
        let prev = split_on(s.drop_last(), sep);
        if s.last() == sep {
            prev.push(Seq::empty())
        } else {
            prev.update(prev.len() - 1, prev.last().push(s.last()))
        }
    }
}

/// There is always at least one piece.
pub proof fn lemma_split_on_nonempty(s: Seq<char>, sep: char)
    ensures
        split_on(s, sep).len() >= 1,
    decreases s.len(),
{
    if s.len() > 0 {
        lemma_split_on_nonempty(s.drop_last(), sep);
    }
}

/// Splitting at a separator splits each side on its own.
pub proof fn lemma_split_on_append(s: Seq<char>, t: Seq<char>, sep: char)
    ensures
        split_on(s + seq![sep] + t, sep) == split_on(s, sep) + split_on(t, sep),
    decreases t.len(),
{
    let u = s + seq![sep] + t;
    if t.len() == 0 {
        assert(u =~= (s + seq![sep]));
        assert((s + seq![sep]).drop_last() =~= s);
        assert(split_on(t, sep) =~= seq![Seq::<char>::empty()]);
        assert(split_on(u, sep) =~= split_on(s, sep) + split_on(t, sep));
    } else {
        let t0 = t.drop_last();
        lemma_split_on_append(s, t0, sep);
        lemma_split_on_nonempty(s, sep);
        lemma_split_on_nonempty(t0, sep);
        assert(u.drop_last() =~= s + seq![sep] + t0);
        assert(u.last() == t.last());
        let a = split_on(s, sep);
        let b = split_on(t0, sep);
        if t.last() == sep {
            assert(split_on(u, sep) =~= (a + b).push(Seq::empty()));
            assert(split_on(u, sep) =~= a + split_on(t, sep));
        } else {
            assert(split_on(u, sep) =~= (a + b).update((a + b).len() - 1, (a + b).last().push(t.last())));
            assert(split_on(t, sep) =~= b.update(b.len() - 1, b.last().push(t.last())));
            assert(split_on(u, sep) =~= a + split_on(t, sep));
        }
    }
}

/// Text without the separator is a single piece.
pub proof fn lemma_split_on_without_sep(t: Seq<char>, sep: char)
    requires
        !t.contains(sep),
    ensures
        split_on(t, sep) == seq![t],
    decreases t.len(),
{
    if t.len() > 0 {
        let t0 = t.drop_last();
        assert(!t0.contains(sep)) by {
            if t0.contains(sep) {
                let i = choose|i: int| 0 <= i < t0.len() && t0[i] == sep;
                assert(t[i] == sep);
            }
        }
        lemma_split_on_without_sep(t0, sep);
        assert(t.last() != sep) by {
            assert(t[t.len() - 1] == t.last());
        }
        assert(t0.push(t.last()) =~= t);
        let prev = split_on(t0, sep);
        assert(prev.len() == 1 && prev.last() == t0);
        let r = prev.update(0, t0.push(t.last()));
        assert(split_on(t, sep) == r);
        assert(r.len() == 1);
        assert(r[0] == t);
        assert(r =~= seq![t]);
    } else {
        assert(t =~= Seq::<char>::empty());
    }
}

/// No piece holds the separator.
pub proof fn lemma_split_on_pieces_lack_sep(s: Seq<char>, sep: char)
    ensures
        forall|i: int| 0 <= i < split_on(s, sep).len() ==> !(#[trigger] split_on(s, sep)[i]).contains(sep),
    decreases s.len(),
{
    if s.len() > 0 {
        let s0 = s.drop_last();
        lemma_split_on_pieces_lack_sep(s0, sep);
        lemma_split_on_nonempty(s0, sep);
        let prev = split_on(s0, sep);
        assert forall|i: int| 0 <= i < split_on(s, sep).len() implies !(#[trigger] split_on(s, sep)[i]).contains(sep) by {
            if s.last() == sep {
                if i < prev.len() {
                    assert(split_on(s, sep)[i] == prev[i]);
                } else {
                    assert(split_on(s, sep)[i] =~= Seq::<char>::empty());
                }
            } else if i < prev.len() - 1 {
                assert(split_on(s, sep)[i] == prev[i]);
            } else {
                let piece = prev.last().push(s.last());
                assert(split_on(s, sep)[i] == piece);
                if piece.contains(sep) {
                    let k = choose|k: int| 0 <= k < piece.len() && piece[k] == sep;
                    if k < prev.last().len() {
                        assert(prev[prev.len() - 1][k] == sep);
                    }
                }
            }
        }
    }
}

/// Joining pieces that don't hold the separator, then splitting the
/// result, gives the pieces back.
pub proof fn lemma_split_on_joined(pieces: Seq<Seq<char>>, sep: char)
    requires
        pieces.len() >= 1,
        forall|i: int| 0 <= i < pieces.len() ==> !(#[trigger] pieces[i]).contains(sep),
    ensures
        split_on(joined(pieces, seq![sep]), sep) == pieces,
    decreases pieces.len(),
{
    if pieces.len() == 1 {
        lemma_split_on_without_sep(pieces[0], sep);
        assert(seq![pieces[0]] =~= pieces);
    } else {
        let front = pieces.drop_last();
        lemma_split_on_joined(front, sep);
        assert(!pieces.last().contains(sep)) by {
            assert(pieces[pieces.len() - 1] == pieces.last());
        }
        lemma_split_on_without_sep(pieces.last(), sep);
        lemma_split_on_append(joined(front, seq![sep]), pieces.last(), sep);
        assert(front.push(pieces.last()) =~= pieces);
        assert(front + seq![pieces.last()] =~= pieces);
    }
}

/// The pieces of `s` between occurrences of `sep`.
pub fn split_string(s: &str, sep: char) -> (r: Vec<String>)
    ensures
        r.deep_view() == split_on(s@, sep),
        r@.len() >= 1,
{
    let chars = chars_of(s);
    let mut pieces: Vec<String> = Vec::new();
    let mut current = String::new();
    let mut i: usize = 0;
    while i < chars.len()
        invariant
            i <= chars.len(),
            chars@ == s@,
            split_on(chars@.take(i as int), sep).len() >= 1,
            pieces.deep_view() + seq![current@] =~= split_on(chars@.take(i as int), sep),
        decreases chars.len() - i,
    {
        let c = chars[i];
        let ghost prev_pieces = pieces.deep_view();
        let ghost prev_current = current@;
        assert(chars@.take(i + 1).drop_last() =~= chars@.take(i as int));
        assert(chars@.take(i + 1).last() == c);
        proof { lemma_split_on_nonempty(chars@.take(i + 1), sep); }
        if c == sep {
            let done = current;
            pieces.push(done);
            current = String::new();
            assert(pieces.deep_view() =~= prev_pieces.push(prev_current));
        } else {
            push_char(&mut current, c);
            assert(pieces.deep_view() =~= prev_pieces);
        }
        i = i + 1;
    }
    assert(chars@.take(chars.len() as int) =~= chars@);
    let ghost prev_pieces = pieces.deep_view();
    let ghost last = current@;
    pieces.push(current);
    assert(pieces.deep_view() =~= prev_pieces.push(last));
    pieces
}

/// `items` joined by `sep`.
pub open spec fn joined(items: Seq<Seq<char>>, sep: Seq<char>) -> Seq<char>
    decreases items.len(),
{
    if items.len() == 0 {
        Seq::empty()
    } else if items.len() == 1 {
        items[0]
    } else {
        joined(items.drop_last(), sep) + sep + items.last()
    }
}

/// `items` joined by `sep` (`[String]::join`).
pub fn join_strings(items: &Vec<String>, sep: &str) -> (r: String)
    ensures
        r@ == joined(items.deep_view(), sep@),
{
    let mut out = String::new();
    let mut i: usize = 0;
    while i < items.len()
        invariant
            i <= items.len(),
            out@ == joined(items.deep_view().take(i as int), sep@),
        decreases items.len() - i,
    {
        let ghost before = out@;
        if i > 0 {
            out.append(sep);
        }
        out.append(items[i].as_str());
        proof {
            let d = items.deep_view();
            assert(d.take(i + 1).drop_last() =~= d.take(i as int));
            assert(d.take(i + 1).last() == items@[i as int]@);
            if i == 0 {
                assert(out@ =~= d.take(1)[0]);
            }
        }
        i = i + 1;
    }
    assert(items.deep_view().take(items.len() as int) =~= items.deep_view());
    out
}

/// Whether `a` sorts before `b` or equals it, character by character
/// (the order of `str`'s `Ord`: for UTF-8 text, byte order and
/// code-point order agree).
pub open spec fn text_le(a: Seq<char>, b: Seq<char>) -> bool
    decreases a.len(),
{
    if a.len() == 0 {
        true
    } else if b.len() == 0 {
        false
    } else if a[0] != b[0] {
        a[0] < b[0]
    } else {
        text_le(a.drop_first(), b.drop_first())
    }
}

/// [`text_le`] as a relation.
pub open spec fn text_order() -> spec_fn(Seq<char>, Seq<char>) -> bool {
    |a: Seq<char>, b: Seq<char>| text_le(a, b)
}

proof fn lemma_text_le_reflexive(a: Seq<char>)
    ensures
        text_le(a, a),
    decreases a.len(),
{
    if a.len() > 0 {
        lemma_text_le_reflexive(a.drop_first());
    }
}

proof fn lemma_text_le_antisymmetric(a: Seq<char>, b: Seq<char>)
    requires
        text_le(a, b),
        text_le(b, a),
    ensures
        a == b,
    decreases a.len(),
{
    if a.len() > 0 && b.len() > 0 {
        lemma_text_le_antisymmetric(a.drop_first(), b.drop_first());
        assert(a =~= seq![a[0]] + a.drop_first());
        assert(b =~= seq![b[0]] + b.drop_first());
    }
}

proof fn lemma_text_le_transitive(a: Seq<char>, b: Seq<char>, c: Seq<char>)
    requires
        text_le(a, b),
        text_le(b, c),
    ensures
        text_le(a, c),
    decreases a.len(),
{
    if a.len() > 0 && b.len() > 0 && c.len() > 0 && a[0] == b[0] && b[0] == c[0] {
        lemma_text_le_transitive(a.drop_first(), b.drop_first(), c.drop_first());
    }
}

proof fn lemma_text_le_total(a: Seq<char>, b: Seq<char>)
    ensures
        text_le(a, b) || text_le(b, a),
    decreases a.len(),
{
    if a.len() > 0 && b.len() > 0 && a[0] == b[0] {
        lemma_text_le_total(a.drop_first(), b.drop_first());
    }
}

/// [`text_le`] is a total order.
pub proof fn lemma_text_order_is_total()
    ensures
        vstd::relations::total_ordering(text_order()),
{
    let r = text_order();
    assert forall|x: Seq<char>| #[trigger] r(x, x) by {
        lemma_text_le_reflexive(x);
    }
    assert forall|x: Seq<char>, y: Seq<char>| #[trigger] r(x, y) && #[trigger] r(y, x) implies x == y by {
        lemma_text_le_antisymmetric(x, y);
    }
    assert forall|x: Seq<char>, y: Seq<char>, z: Seq<char>| #[trigger] r(x, y) && #[trigger] r(y, z) implies r(x, z) by {
        lemma_text_le_transitive(x, y, z);
    }
    assert forall|x: Seq<char>, y: Seq<char>| #[trigger] r(x, y) || #[trigger] r(y, x) by {
        lemma_text_le_total(x, y);
    }
}

/// Whether `a` sorts before `b` or equals it.
pub fn text_before_or_equal(a: &str, b: &str) -> (r: bool)
    ensures
        r == text_le(a@, b@),
{
    let x = chars_of(a);
    let y = chars_of(b);
    let mut i: usize = 0;
    assert(x@.skip(0) =~= x@);
    assert(y@.skip(0) =~= y@);
    while i < x.len() && i < y.len()
        invariant
            x@ == a@,
            y@ == b@,
            i <= x.len(),
            i <= y.len(),
            text_le(x@, y@) == text_le(x@.skip(i as int), y@.skip(i as int)),
        decreases x.len() - i,
    {
        assert(x@.skip(i as int)[0] == x@[i as int]);
        assert(y@.skip(i as int)[0] == y@[i as int]);
        if x[i] != y[i] {
            return x[i] < y[i];
        }
        assert(x@.skip(i as int).drop_first() =~= x@.skip(i + 1));
        assert(y@.skip(i as int).drop_first() =~= y@.skip(i + 1));
        i = i + 1;
    }
    i == x.len()
}

/// `items` in ascending [`text_le`] order (`sort_unstable` on text:
/// equal items are the same text, so which of them comes first cannot
/// be told apart).
pub fn sort_texts(items: Vec<String>) -> (r: Vec<String>)
    ensures
        r.deep_view() == items.deep_view().sort_by(text_order()),
{
    broadcast use vstd::seq_lib::group_to_multiset_ensures;
    proof { lemma_text_order_is_total(); }
    let ghost leq = text_order();
    let mut sorted: Vec<String> = Vec::new();
    let mut i: usize = 0;
    while i < items.len()
        invariant
            i <= items.len(),
            vstd::relations::total_ordering(leq),
            leq == text_order(),
            vstd::relations::sorted_by(sorted.deep_view(), leq),
            sorted.deep_view().to_multiset() == items.deep_view().take(i as int).to_multiset(),
        decreases items.len() - i,
    {
        let x = items[i].clone();
        let mut p: usize = 0;
        while p < sorted.len() && text_before_or_equal(sorted[p].as_str(), x.as_str())
            invariant
                p <= sorted.len(),
                leq == text_order(),
                forall|k: int| 0 <= k < p ==> #[trigger] leq(sorted.deep_view()[k], x@),
            decreases sorted.len() - p,
        {
            p = p + 1;
        }
        let ghost before = sorted.deep_view();
        sorted.insert(p, x);
        proof {
            let after = sorted.deep_view();
            assert(after =~= before.insert(p as int, x@));
            if p < before.len() {
                assert(!leq(before[p as int], x@));
                assert(leq(x@, before[p as int]));
            }
            assert forall|a: int, b: int| 0 <= a < b < after.len() implies #[trigger] leq(after[a], after[b]) by {
                if b < p {
                    assert(after[a] == before[a] && after[b] == before[b]);
                } else if b == p {
                    assert(after[a] == before[a]);
                } else if a < p {
                    assert(after[a] == before[a] && after[b] == before[b - 1]);
                    assert(leq(before[a], x@));
                    assert(leq(x@, before[p as int]));
                    if p < b - 1 {
                        assert(leq(before[p as int], before[b - 1]));
                    }
                    assert(leq(x@, before[b - 1]));
                } else if a == p {
                    assert(after[b] == before[b - 1]);
                    if p < b - 1 {
                        assert(leq(before[p as int], before[b - 1]));
                    }
                } else {
                    assert(after[a] == before[a - 1] && after[b] == before[b - 1]);
                }
            }
            assert(x@ == items.deep_view()[i as int]);
            assert(items.deep_view().take(i + 1) =~= items.deep_view().take(i as int).push(x@));
            vstd::seq_lib::to_multiset_insert(before, p as int, x@);
            vstd::seq_lib::to_multiset_build(items.deep_view().take(i as int), x@);
            assert(after.to_multiset() == before.to_multiset().insert(x@));
            assert(items.deep_view().take(i + 1).to_multiset() == items.deep_view().take(i as int).to_multiset().insert(x@));
        }
        i = i + 1;
    }
    proof {
        let all = items.deep_view();
        assert(all.take(items.len() as int) =~= all);
        all.lemma_sort_by_ensures(leq);
        vstd::seq_lib::lemma_sorted_unique(sorted.deep_view(), all.sort_by(leq), leq);
    }
    sorted
}

/// Whether `a` and `b` are the same text.
pub fn str_eq(a: &str, b: &str) -> (r: bool)
    ensures
        r == (a@ == b@),
{
    let x = chars_of(a);
    let y = chars_of(b);
    if x.len() != y.len() {
        return false;
    }
    let mut i: usize = 0;
    while i < x.len()
        invariant
            x.len() == y.len(),
            x@ == a@,
            y@ == b@,
            i <= x.len(),
            forall|k: int| 0 <= k < i ==> x@[k] == y@[k],
        decreases x.len() - i,
    {
        if x[i] != y[i] {
            assert(a@[i as int] != b@[i as int]);
            return false;
        }
        i = i + 1;
    }
    assert(x@ =~= y@);
    true
}

} // verus!
