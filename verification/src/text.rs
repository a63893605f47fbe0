//! Whitespace tokenization of flat argument strings, and the spec-level
//! model of token lists that the launch-argument codec is verified against.

use vstd::prelude::*;
use vstd::string::*;

verus! {

/// The whitespace characters that separate launch-argument tokens.
pub open spec fn is_space_char(c: char) -> bool {
    c == ' ' || c == '\t' || c == '\n' || c == '\r'
}

/// A token is well formed when it holds no whitespace character.
pub open spec fn ws_free(t: Seq<char>) -> bool {
    forall|i: int| 0 <= i < t.len() ==> !is_space_char(t[i])
}

/// `p` is a prefix of `t`.
pub open spec fn has_prefix(t: Seq<char>, p: Seq<char>) -> bool {
    p.len() <= t.len() && t.subrange(0, p.len() as int) == p
}

/// End of the maximal run of non-whitespace characters starting at `i`:
/// the first position at or after `i` holding whitespace, or `s.len()`.
pub open spec fn token_end(s: Seq<char>, i: int) -> int
    decreases s.len() - i when 0 <= i <= s.len()
{
    if i == s.len() || is_space_char(s[i]) {
        i
    } else {
        token_end(s, i + 1)
    }
}

pub proof fn lemma_token_end_bounds(s: Seq<char>, i: int)
    requires
        0 <= i <= s.len(),
    ensures
        i <= token_end(s, i) <= s.len(),
        forall|k: int| i <= k < token_end(s, i) ==> !is_space_char(s[k]),
        token_end(s, i) < s.len() ==> is_space_char(s[token_end(s, i)]),
    decreases s.len() - i,
{
    if i == s.len() || is_space_char(s[i]) {
    } else {
        lemma_token_end_bounds(s, i + 1);
    }
}

/// `token_end` is pinned down by its characterization.
pub proof fn lemma_token_end_eq(s: Seq<char>, i: int, j: int)
    requires
        0 <= i <= j <= s.len(),
        forall|k: int| i <= k < j ==> !is_space_char(s[k]),
        j == s.len() || is_space_char(s[j]),
    ensures
        token_end(s, i) == j,
    decreases j - i,
{
    if i < j {
        lemma_token_end_eq(s, i + 1, j);
    }
}

/// The tokens of `s` from position `i` on: maximal non-whitespace runs,
/// in order.
pub open spec fn tokens_from(s: Seq<char>, i: int) -> Seq<Seq<char>>
    decreases s.len() - i when 0 <= i <= s.len()
{
    if i >= s.len() {
        Seq::empty()
    } else if is_space_char(s[i]) {
        tokens_from(s, i + 1)
    } else {
        proof {
            lemma_token_end_bounds(s, i);
        }
        seq![s.subrange(i, token_end(s, i))] + tokens_from(s, token_end(s, i))
    }
}

/// The whitespace-separated tokens of `s`, as the launch-argument codec
/// sees them.
pub open spec fn tokens_of(s: Seq<char>) -> Seq<Seq<char>> {
    tokens_from(s, 0)
}

/// A token list is well formed when each entry is nonempty and
/// whitespace-free.
pub open spec fn all_tokens_wf(ts: Seq<Seq<char>>) -> bool {
    forall|k: int| 0 <= k < ts.len() ==> (#[trigger] ts[k]).len() > 0 && ws_free(ts[k])
}

/// Every token produced by tokenization is nonempty and whitespace-free.
pub proof fn lemma_tokens_from_wf(s: Seq<char>, i: int)
    requires
        0 <= i <= s.len(),
    ensures
        all_tokens_wf(tokens_from(s, i)),
    decreases s.len() - i,
{
    if i >= s.len() {
        assert(tokens_from(s, i) == Seq::<Seq<char>>::empty());
    } else if is_space_char(s[i]) {
        lemma_tokens_from_wf(s, i + 1);
        assert(tokens_from(s, i) == tokens_from(s, i + 1));
    } else {
        lemma_token_end_bounds(s, i);
        let e = token_end(s, i);
        lemma_tokens_from_wf(s, e);
        let t = s.subrange(i, e);
        let rest = tokens_from(s, e);
        assert(tokens_from(s, i) == seq![t] + rest);
        assert(t.len() > 0);
        assert(ws_free(t));
        assert forall|k: int| 0 <= k < tokens_from(s, i).len() implies (#[trigger] tokens_from(
            s,
            i,
        )[k]).len() > 0 && ws_free(tokens_from(s, i)[k]) by {
            if k == 0 {
                assert(tokens_from(s, i)[0] == t);
            } else {
                assert(tokens_from(s, i)[k] == rest[k - 1]);
            }
        }
        assert(all_tokens_wf(tokens_from(s, i)));
    }
}

/// Tokens joined with single spaces; the empty token list joins to the
/// empty string.
pub open spec fn join_spaces(ts: Seq<Seq<char>>) -> Seq<char>
    decreases ts.len(),
{
    if ts.len() == 0 {
        Seq::empty()
    } else if ts.len() == 1 {
        ts[0]
    } else {
        ts[0] + seq![' '] + join_spaces(ts.drop_first())
    }
}

/// Appending one more token to a nonempty list joins as the old text, a
/// space, and the token.
pub proof fn lemma_join_push(ts: Seq<Seq<char>>, t: Seq<char>)
    requires
        ts.len() >= 1,
    ensures
        join_spaces(ts.push(t)) == join_spaces(ts) + seq![' '] + t,
    decreases ts.len(),
{
    let ps = ts.push(t);
    if ts.len() == 1 {
        assert(ps.drop_first() =~= seq![t]);
        assert(join_spaces(ps) == ps[0] + seq![' '] + join_spaces(ps.drop_first()));
        assert(join_spaces(seq![t]) == t);
        assert(ps[0] == ts[0]);
        assert(join_spaces(ts) == ts[0]);
    } else {
        lemma_join_push(ts.drop_first(), t);
        assert(ps.drop_first() =~= ts.drop_first().push(t));
        assert(join_spaces(ps) == ps[0] + seq![' '] + join_spaces(ps.drop_first()));
        assert(join_spaces(ps.drop_first()) == join_spaces(ts.drop_first()) + seq![' '] + t);
        assert(join_spaces(ts) == ts[0] + seq![' '] + join_spaces(ts.drop_first()));
        assert(join_spaces(ps) =~= join_spaces(ts) + seq![' '] + t);
    }
}

/// Tokenizing after a discarded prefix reads only the suffix.
pub proof fn lemma_tokens_from_append(x: Seq<char>, u: Seq<char>, i: int)
    requires
        0 <= i <= u.len(),
    ensures
        tokens_from(x + u, x.len() + i) == tokens_from(u, i),
    decreases u.len() - i,
{
    let s = x + u;
    assert(s.len() == x.len() + u.len());
    if i >= u.len() {
    } else if is_space_char(u[i]) {
        assert(s[x.len() + i] == u[i]);
        lemma_tokens_from_append(x, u, i + 1);
    } else {
        assert(s[x.len() + i] == u[i]);
        lemma_token_end_bounds(u, i);
        let e = token_end(u, i);
        lemma_token_end_append(x, u, i);
        assert(token_end(s, x.len() + i) == x.len() + e);
        assert(s.subrange(x.len() + i, x.len() + e) =~= u.subrange(i, e));
        lemma_tokens_from_append(x, u, e);
    }
}

/// `token_end` after a discarded prefix reads only the suffix.
pub proof fn lemma_token_end_append(x: Seq<char>, u: Seq<char>, i: int)
    requires
        0 <= i <= u.len(),
    ensures
        token_end(x + u, x.len() + i) == x.len() + token_end(u, i),
    decreases u.len() - i,
{
    let s = x + u;
    if i == u.len() || is_space_char(u[i]) {
        assert(i < u.len() ==> s[x.len() + i] == u[i]);
    } else {
        assert(s[x.len() + i] == u[i]);
        lemma_token_end_append(x, u, i + 1);
    }
}

/// A single nonempty whitespace-free token tokenizes to itself alone.
pub proof fn lemma_tokens_of_single(t: Seq<char>)
    requires
        t.len() > 0,
        ws_free(t),
    ensures
        tokens_of(t) == seq![t],
{
    lemma_token_end_eq(t, 0, t.len() as int);
    assert(t.subrange(0, t.len() as int) =~= t);
    assert(tokens_from(t, t.len() as int) == Seq::<Seq<char>>::empty());
    assert(tokens_of(t) == seq![t] + Seq::<Seq<char>>::empty());
    assert(tokens_of(t) =~= seq![t]);
}

/// Joining well-formed tokens with spaces and tokenizing again gives the
/// same token list back: the codec's round trip.
pub proof fn lemma_tokens_join_roundtrip(ts: Seq<Seq<char>>)
    requires
        forall|k: int| 0 <= k < ts.len() ==> (#[trigger] ts[k]).len() > 0 && ws_free(ts[k]),
    ensures
        tokens_of(join_spaces(ts)) == ts,
    decreases ts.len(),
{
    if ts.len() == 0 {
    } else if ts.len() == 1 {
        lemma_tokens_of_single(ts[0]);
        assert(tokens_of(join_spaces(ts)) =~= ts);
    } else {
        let t0 = ts[0];
        let rest = ts.drop_first();
        let u = join_spaces(rest);
        let x = t0 + seq![' '];
        let s = join_spaces(ts);
        assert(s =~= x + u);
        lemma_token_end_eq(x + u, 0, t0.len() as int);
        assert((x + u).subrange(0, t0.len() as int) =~= t0);
        lemma_tokens_from_append(x, u, 0);
        assert(tokens_from(x + u, t0.len() as int) == tokens_from(x + u, t0.len() as int + 1)) by {
            assert((x + u)[t0.len() as int] == ' ');
        }
        assert(tokens_from(x + u, x.len() as int) == tokens_of(u));
        lemma_tokens_join_roundtrip(rest);
        assert(tokens_of(s) =~= ts);
    }
}

/// Filtering after a push keeps the new element exactly when it satisfies
/// the predicate.
pub proof fn lemma_filter_push<A>(ts: Seq<A>, pred: spec_fn(A) -> bool, t: A)
    ensures
        ts.push(t).filter(pred) == if pred(t) {
            ts.filter(pred).push(t)
        } else {
            ts.filter(pred)
        },
{
    reveal(Seq::filter);
    assert(ts.push(t).drop_last() =~= ts);
    assert(ts.push(t).last() == t);
}

/// Filtering drops a list whose entries all fail the predicate.
pub proof fn lemma_filter_none<A>(ts: Seq<A>, pred: spec_fn(A) -> bool)
    requires
        forall|k: int| 0 <= k < ts.len() ==> !pred(#[trigger] ts[k]),
    ensures
        ts.filter(pred) == Seq::<A>::empty(),
    decreases ts.len(),
{
    reveal(Seq::filter);
    if ts.len() > 0 {
        lemma_filter_none(ts.drop_last(), pred);
        assert(!pred(ts.last()));
    }
}

/// Filtering keeps a list whose entries all satisfy the predicate.
pub proof fn lemma_filter_all<A>(ts: Seq<A>, pred: spec_fn(A) -> bool)
    requires
        forall|k: int| 0 <= k < ts.len() ==> pred(#[trigger] ts[k]),
    ensures
        ts.filter(pred) == ts,
    decreases ts.len(),
{
    reveal(Seq::filter);
    if ts.len() > 0 {
        lemma_filter_all(ts.drop_last(), pred);
        assert(pred(ts.last()));
        assert(ts.filter(pred) =~= ts);
    }
}

/// Filtering a well-formed token list gives a well-formed token list.
pub proof fn lemma_filter_wf(ts: Seq<Seq<char>>, pred: spec_fn(Seq<char>) -> bool)
    requires
        all_tokens_wf(ts),
    ensures
        all_tokens_wf(ts.filter(pred)),
    decreases ts.len(),
{
    reveal(Seq::filter);
    if ts.len() > 0 {
        assert(all_tokens_wf(ts.drop_last())) by {
            assert(forall|k: int| 0 <= k < ts.len() - 1 ==> ts.drop_last()[k] == ts[k]);
        }
        lemma_filter_wf(ts.drop_last(), pred);
        if pred(ts.last()) {
            let f = ts.drop_last().filter(pred).push(ts.last());
            assert(forall|k: int|
                0 <= k < f.len() - 1 ==> f[k] == ts.drop_last().filter(pred)[k]);
            assert(f.last() == ts.last());
            assert(all_tokens_wf(f));
        }
    }
}

/// Filtering by a weaker predicate first changes nothing: when, on the
/// list's entries, `b` implies `a`, filtering by `a` and then by `b` is
/// filtering by `b` alone.
pub proof fn lemma_filter_subsume<A>(ts: Seq<A>, a: spec_fn(A) -> bool, b: spec_fn(A) -> bool)
    requires
        forall|k: int| 0 <= k < ts.len() && b(#[trigger] ts[k]) ==> a(ts[k]),
    ensures
        ts.filter(a).filter(b) == ts.filter(b),
    decreases ts.len(),
{
    reveal(Seq::filter);
    if ts.len() > 0 {
        let d = ts.drop_last();
        let l = ts.last();
        assert(forall|k: int| 0 <= k < d.len() ==> d[k] == ts[k]);
        lemma_filter_subsume(d, a, b);
        if a(l) {
            lemma_filter_push(d.filter(a), b, l);
            assert(ts.filter(a) == d.filter(a).push(l));
            assert(d.filter(a).push(l).drop_last() =~= d.filter(a));
        }
    }
}

/// The first entry of `ts` satisfying `pred`, if any.
pub open spec fn first_match(ts: Seq<Seq<char>>, pred: spec_fn(Seq<char>) -> bool) -> Option<
    Seq<char>,
>
    decreases ts.len(),
{
    if ts.len() == 0 {
        None
    } else if pred(ts[0]) {
        Some(ts[0])
    } else {
        first_match(ts.drop_first(), pred)
    }
}

/// `first_match` looks past a prefix of entries on which `pred` fails.
pub proof fn lemma_first_match_skip(ts: Seq<Seq<char>>, pred: spec_fn(Seq<char>) -> bool, i: int)
    requires
        0 <= i <= ts.len(),
        forall|k: int| 0 <= k < i ==> !pred(#[trigger] ts[k]),
    ensures
        first_match(ts, pred) == first_match(ts.skip(i), pred),
    decreases i,
{
    if i == 0 {
        assert(ts.skip(0) =~= ts);
    } else {
        lemma_first_match_skip(ts, pred, i - 1);
        assert(ts.skip(i - 1)[0] == ts[i - 1]);
        assert(ts.skip(i - 1).drop_first() =~= ts.skip(i));
    }
}

/// Whether `c` separates launch-argument tokens.
pub fn is_space(c: char) -> (r: bool)
    ensures
        r == is_space_char(c),
{
    c == ' ' || c == '\t' || c == '\n' || c == '\r'
}

/// Character-for-character equality of two string slices.
pub fn str_equal(a: &str, b: &str) -> (r: bool)
    ensures
        r == (a@ == b@),
{
    let na = a.unicode_len();
    let nb = b.unicode_len();
    if na != nb {
        assert(a@ != b@);
        return false;
    }
    let mut i: usize = 0;
    while i < na
        invariant
            na == a@.len(),
            na == b@.len(),
            0 <= i <= na,
            forall|k: int| 0 <= k < i ==> a@[k] == b@[k],
        decreases na - i,
    {
        if a.get_char(i) != b.get_char(i) {
            assert(a@ != b@);
            return false;
        }
        i = i + 1;
    }
    assert(a@ =~= b@);
    true
}

/// Whether `p` is a prefix of `t`.
pub fn str_has_prefix(t: &str, p: &str) -> (r: bool)
    ensures
        r == has_prefix(t@, p@),
{
    let np = p.unicode_len();
    let nt = t.unicode_len();
    if np > nt {
        return false;
    }
    let mut i: usize = 0;
    while i < np
        invariant
            np == p@.len(),
            nt == t@.len(),
            np <= nt,
            0 <= i <= np,
            forall|k: int| 0 <= k < i ==> t@[k] == p@[k],
        decreases np - i,
    {
        if t.get_char(i) != p.get_char(i) {
            assert(t@.subrange(0, p@.len() as int)[i as int] != p@[i as int]);
            return false;
        }
        i = i + 1;
    }
    assert(t@.subrange(0, p@.len() as int) =~= p@);
    true
}

/// Split `s` into its whitespace-separated tokens.
pub fn tokenize(s: &str) -> (r: Vec<String>)
    ensures
        r.deep_view() == tokens_of(s@),
{
    let n = s.unicode_len();
    let mut r: Vec<String> = Vec::new();
    let mut i: usize = 0;
    while i < n
        invariant
            n == s@.len(),
            0 <= i <= n,
            tokens_of(s@) == r.deep_view() + tokens_from(s@, i as int),
        decreases n - i,
    {
        let c = s.get_char(i);
        if is_space(c) {
            i = i + 1;
        } else {
            let ghost prev = r.deep_view();
            let mut j: usize = i + 1;
            while j < n && !is_space(s.get_char(j))
                invariant
                    n == s@.len(),
                    i < j <= n,
                    forall|k: int| i <= k < j ==> !is_space_char(s@[k]),
                decreases n - j,
            {
                j = j + 1;
            }
            assert(j == n || is_space_char(s@[j as int]));
            proof {
                lemma_token_end_eq(s@, i as int, j as int);
            }
            let tok = s.substring_char(i, j);
            r.push(tok.to_owned());
            proof {
                assert(r.deep_view() =~= prev + seq![s@.subrange(i as int, j as int)]);
                assert(tokens_from(s@, i as int) == seq![s@.subrange(i as int, j as int)]
                    + tokens_from(s@, j as int));
                assert(tokens_of(s@) =~= r.deep_view() + tokens_from(s@, j as int));
            }
            i = j;
        }
    }
    assert(tokens_of(s@) =~= r.deep_view());
    r
}

} // verus!
