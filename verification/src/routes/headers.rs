//! Header echo and arbitrary header injection, and the header list
//! validation they share with the generic response endpoint.

use vstd::prelude::*;

use crate::error::Error;
use crate::http::{header_name_is_valid, header_value_is_valid, valid_header_name, valid_header_value};
use crate::text::str_eq;

verus! {

/// Name and value of each header, as text.
pub open spec fn pairs_view(pairs: Seq<(String, String)>) -> Seq<(Seq<char>, Seq<char>)> {
    Seq::new(pairs.len(), |i: int| (pairs[i].0@, pairs[i].1@))
}

/// The first problem in a list of headers, in order: `Some(true)` for
/// an invalid name, `Some(false)` for an invalid value (of an entry
/// whose name is valid), `None` if every entry is valid.
pub open spec fn first_header_problem(entries: Seq<(Seq<char>, Seq<char>)>) -> Option<bool>
    decreases entries.len(),
{
    if entries.len() == 0 {
        None
    } else if !valid_header_name(entries[0].0) {
        Some(true)
    } else if !valid_header_value(entries[0].1) {
        Some(false)
    } else {
        first_header_problem(entries.drop_first())
    }
}

/// The error a header list's first problem is reported as.
pub open spec fn header_problem_is(problem: bool, e: Error) -> bool {
    if problem { e is InvalidHeaderName } else { e is InvalidHeaderValue }
}

/// Checks every header of `pairs`, in order.
pub fn check_headers(pairs: &Vec<(String, String)>) -> (r: Result<(), Error>)
    ensures
        match first_header_problem(pairs_view(pairs@)) {
            None => r is Ok,
            Some(p) => r matches Err(e) && header_problem_is(p, e),
        },
{
    let ghost all = pairs_view(pairs@);
    assert(all.skip(0) =~= all);
    let mut i: usize = 0;
    while i < pairs.len()
        invariant
            i <= pairs.len(),
            all == pairs_view(pairs@),
            first_header_problem(all) == first_header_problem(all.skip(i as int)),
        decreases pairs.len() - i,
    {
        let ghost rest = all.skip(i as int);
        assert(rest[0] == (pairs@[i as int].0@, pairs@[i as int].1@));
        if !header_name_is_valid(pairs[i].0.as_str()) {
            return Err(Error::InvalidHeaderName);
        }
        if !header_value_is_valid(pairs[i].1.as_str()) {
            return Err(Error::InvalidHeaderValue);
        }
        assert(rest.drop_first() =~= all.skip(i + 1));
        i = i + 1;
    }
    assert(all.skip(i as int) =~= Seq::<(Seq<char>, Seq<char>)>::empty());
    Ok(())
}

/// Sets arbitrary response headers from the query string, e.g.
/// `?x-foo=bar&x-foo=baz` responds with two `x-foo` header lines: the
/// headers to send, in order, or an error if a name or value isn't
/// valid for an HTTP header.
pub fn set(params: Vec<(String, String)>) -> (r: Result<Vec<(String, String)>, Error>)
    ensures
        match first_header_problem(pairs_view(params@)) {
            None => r matches Ok(hs) && hs@ == params@,
            Some(p) => r matches Err(e) && header_problem_is(p, e),
        },
{
    check_headers(&params)?;
    Ok(params)
}

/// Received headers grouped by name: each name once, in order of first
/// appearance, with all its values in the order received.
pub open spec fn grouped(pairs: Seq<(Seq<char>, Seq<char>)>) -> Seq<(Seq<char>, Seq<Seq<char>>)>
    decreases pairs.len(),
{
    if pairs.len() == 0 {
        Seq::empty()
    } else {
        let g = grouped(pairs.drop_last());
        let (name, value) = pairs.last();
        let at = index_of_name(g, name);
        if at < g.len() {
            g.update(at, (name, g[at].1.push(value)))
        } else {
            g.push((name, seq![value]))
        }
    }
}

/// Index of the group named `name` (the number of groups if none).
pub open spec fn index_of_name(g: Seq<(Seq<char>, Seq<Seq<char>>)>, name: Seq<char>) -> int
    decreases g.len(),
{
    if g.len() == 0 {
        0
    } else if g[0].0 == name {
        0
    } else {
        1 + index_of_name(g.drop_first(), name)
    }
}

/// Groups views of `groups`.
pub open spec fn groups_view(groups: Seq<(String, Vec<String>)>) -> Seq<(Seq<char>, Seq<Seq<char>>)> {
    Seq::new(groups.len(), |i: int| (groups[i].0@, groups[i].1.deep_view()))
}

proof fn lemma_index_of_name(g: Seq<(Seq<char>, Seq<Seq<char>>)>, name: Seq<char>)
    ensures
        0 <= index_of_name(g, name) <= g.len(),
        index_of_name(g, name) < g.len() ==> g[index_of_name(g, name)].0 == name,
        forall|k: int| 0 <= k < index_of_name(g, name) ==> g[k].0 != name,
    decreases g.len(),
{
    if g.len() > 0 && g[0].0 != name {
        lemma_index_of_name(g.drop_first(), name);
        assert forall|k: int| 0 <= k < index_of_name(g, name) implies g[k].0 != name by {
            if k > 0 {
                assert(g[k] == g.drop_first()[k - 1]);
            }
        }
    }
}

/// Every header received, grouped by name, in order of first appearance
/// (names as given — the HTTP layer already lower-cases them).
pub fn echo(pairs: Vec<(String, String)>) -> (r: Vec<(String, Vec<String>)>)
    ensures
        groups_view(r@) == grouped(pairs_view(pairs@)),
{
    let ghost all = pairs_view(pairs@);
    let mut groups: Vec<(String, Vec<String>)> = Vec::new();
    let mut i: usize = 0;
    while i < pairs.len()
        invariant
            i <= pairs.len(),
            all == pairs_view(pairs@),
            groups_view(groups@) == grouped(all.take(i as int)),
        decreases pairs.len() - i,
    {
        let ghost g = groups_view(groups@);
        let name = pairs[i].0.clone();
        let value = pairs[i].1.clone();
        proof {
            lemma_index_of_name(g, name@);
            assert(all.take(i + 1).drop_last() =~= all.take(i as int));
            assert(all.take(i + 1).last() == (name@, value@));
        }
        let mut j: usize = 0;
        while j < groups.len() && !str_eq(groups[j].0.as_str(), name.as_str())
            invariant
                j <= groups.len(),
                g == groups_view(groups@),
                forall|k: int| 0 <= k < j ==> g[k].0 != name@,
                j <= index_of_name(g, name@),
                0 <= index_of_name(g, name@) <= g.len(),
                index_of_name(g, name@) < g.len() ==> g[index_of_name(g, name@)].0 == name@,
            decreases groups.len() - j,
        {
            j = j + 1;
        }
        if j < groups.len() {
            assert(j == index_of_name(g, name@));
            let ghost old_groups = groups@;
            let (n, mut values) = groups.remove(j);
            let ghost old_values = values.deep_view();
            values.push(value);
            assert(values.deep_view() =~= old_values.push(value@));
            groups.insert(j, (n, values));
            proof {
                assert(groups@ =~= old_groups.update(j as int, (n, values)));
                assert(n@ == name@);
                assert(groups_view(groups@) =~= g.update(j as int, (name@, g[j as int].1.push(value@))));
                assert(groups_view(groups@) =~= grouped(all.take(i + 1)));
            }
        } else {
            assert(j == index_of_name(g, name@));
            let mut values: Vec<String> = Vec::new();
            values.push(value);
            assert(values.deep_view() =~= seq![value@]);
            groups.push((name, values));
            proof {
                assert(groups_view(groups@) =~= g.push((name@, seq![value@])));
                assert(groups_view(groups@) =~= grouped(all.take(i + 1)));
            }
        }
        i = i + 1;
    }
    assert(all.take(pairs.len() as int) =~= all);
    groups
}

/// Whether some group of `g` is named `name`.
pub open spec fn has_group(g: Seq<(Seq<char>, Seq<Seq<char>>)>, name: Seq<char>) -> bool {
    exists|j: int| 0 <= j < g.len() && (#[trigger] g[j]).0 == name
}

/// Whether some received header is named `name`.
pub open spec fn has_header(pairs: Seq<(Seq<char>, Seq<char>)>, name: Seq<char>) -> bool {
    exists|i: int| 0 <= i < pairs.len() && (#[trigger] pairs[i]).0 == name
}

/// The echo's keys are exactly the received header names, each once.
pub proof fn law_echo_keys_are_the_received_names(pairs: Seq<(Seq<char>, Seq<char>)>)
    ensures
        forall|a: int, b: int| 0 <= a < b < grouped(pairs).len() ==> grouped(pairs)[a].0 != grouped(pairs)[b].0,
        forall|name: Seq<char>| has_group(grouped(pairs), name) <==> has_header(pairs, name),
    decreases pairs.len(),
{
    if pairs.len() > 0 {
        let front = pairs.drop_last();
        law_echo_keys_are_the_received_names(front);
        let g = grouped(front);
        let (name, value) = pairs.last();
        let at = index_of_name(g, name);
        lemma_index_of_name(g, name);
        let g2 = grouped(pairs);
        assert(g2.len() >= g.len());
        assert forall|j: int| 0 <= j < g.len() implies #[trigger] g2[j].0 == g[j].0 by {}
        assert forall|n: Seq<char>| has_group(g2, n) <==> has_header(pairs, n) by {
            if has_group(g2, n) {
                let j = choose|j: int| 0 <= j < g2.len() && (#[trigger] g2[j]).0 == n;
                if j < g.len() {
                    assert(g[j].0 == n);
                    assert(has_group(g, n));
                    assert(has_header(front, n));
                    let i = choose|i: int| 0 <= i < front.len() && (#[trigger] front[i]).0 == n;
                    assert(pairs[i] == front[i]);
                } else {
                    assert(pairs[pairs.len() - 1].0 == n);
                }
            }
            if has_header(pairs, n) {
                let i = choose|i: int| 0 <= i < pairs.len() && (#[trigger] pairs[i]).0 == n;
                if i < front.len() {
                    assert(front[i] == pairs[i]);
                    assert(has_header(front, n));
                    assert(has_group(g, n));
                    let j = choose|j: int| 0 <= j < g.len() && (#[trigger] g[j]).0 == n;
                    assert(g2[j].0 == n);
                } else if at < g.len() {
                    assert(g2[at].0 == n);
                } else {
                    assert(g2[g.len() as int].0 == n);
                }
            }
        }
        assert forall|a: int, b: int| 0 <= a < b < g2.len() implies g2[a].0 != g2[b].0 by {
            if b >= g.len() {
                assert(g2[a].0 == g[a].0);
            } else {
                assert(g2[a].0 == g[a].0 && g2[b].0 == g[b].0);
            }
        }
    }
}

} // verus!
