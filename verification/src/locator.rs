//! The structural block locator for the indented, brace-delimited
//! key/value text format: find the byte range of the innermost block
//! reached by looking up a fixed sequence of quoted keys, each search
//! scoped to the block found for the previous key.

use vstd::prelude::*;
use vstd::string::*;

verus! {

/// First occurrence of `pat` inside `s` starting at or after `from` and
/// ending before `end`, or nothing.
pub open spec fn find_pat(s: Seq<char>, pat: Seq<char>, from: int, end: int) -> Option<int>
    decreases end - from when from <= end
{
    if from + pat.len() > end {
        None
    } else if pat.len() == 0 {
        Some(from)
    } else if s.subrange(from, from + pat.len() as int) == pat {
        Some(from)
    } else {
        find_pat(s, pat, from + 1, end)
    }
}

/// A found occurrence lies in the window, and nothing before it matches:
/// the locator always resolves duplicate keys to the first occurrence.
pub proof fn lemma_find_pat_bounds(s: Seq<char>, pat: Seq<char>, from: int, end: int)
    requires
        from <= end,
        pat.len() > 0,
    ensures
        find_pat(s, pat, from, end) matches Some(p) ==> from <= p && p + pat.len() <= end
            && s.subrange(p, p + pat.len() as int) == pat && (forall|q: int|
            from <= q < p ==> #[trigger] s.subrange(q, q + pat.len() as int) != pat),
    decreases end - from,
{
    if from + pat.len() > end {
    } else if s.subrange(from, from + pat.len() as int) == pat {
    } else {
        lemma_find_pat_bounds(s, pat, from + 1, end);
    }
}

/// First occurrence of the character `c` at or after `from`, or nothing.
pub open spec fn find_char_from(s: Seq<char>, c: char, from: int) -> Option<int>
    decreases s.len() - from when 0 <= from <= s.len()
{
    if from >= s.len() {
        None
    } else if s[from] == c {
        Some(from)
    } else {
        find_char_from(s, c, from + 1)
    }
}

pub proof fn lemma_find_char_bounds(s: Seq<char>, c: char, from: int)
    requires
        0 <= from <= s.len(),
    ensures
        find_char_from(s, c, from) matches Some(p) ==> from <= p < s.len() && s[p] == c,
    decreases s.len() - from,
{
    if from >= s.len() {
    } else if s[from] == c {
    } else {
        lemma_find_char_bounds(s, c, from + 1);
    }
}

/// Position of the brace closing the block whose scan is at `i` with
/// `depth` braces open, tracking whether the scanner currently sits
/// inside a quoted string: a quote toggles that state, and braces inside
/// quotes do not count.
pub open spec fn scan_close(s: Seq<char>, i: int, depth: int, in_quotes: bool) -> Option<int>
    decreases s.len() - i when 0 <= i <= s.len() && depth >= 1
{
    if i >= s.len() {
        None
    } else if s[i] == '"' {
        scan_close(s, i + 1, depth, !in_quotes)
    } else if s[i] == '{' && !in_quotes {
        scan_close(s, i + 1, depth + 1, in_quotes)
    } else if s[i] == '}' && !in_quotes {
        if depth == 1 {
            Some(i)
        } else {
            scan_close(s, i + 1, depth - 1, in_quotes)
        }
    } else {
        scan_close(s, i + 1, depth, in_quotes)
    }
}

pub proof fn lemma_scan_close_bounds(s: Seq<char>, i: int, depth: int, in_quotes: bool)
    requires
        0 <= i <= s.len(),
        depth >= 1,
    ensures
        scan_close(s, i, depth, in_quotes) matches Some(p) ==> i <= p < s.len() && s[p] == '}',
    decreases s.len() - i,
{
    if i >= s.len() {
    } else if s[i] == '"' {
        lemma_scan_close_bounds(s, i + 1, depth, !in_quotes);
    } else if s[i] == '{' && !in_quotes {
        lemma_scan_close_bounds(s, i + 1, depth + 1, in_quotes);
    } else if s[i] == '}' && !in_quotes {
        if depth != 1 {
            lemma_scan_close_bounds(s, i + 1, depth - 1, in_quotes);
        }
    } else {
        lemma_scan_close_bounds(s, i + 1, depth, in_quotes);
    }
}

/// The key name wrapped in the quotes it carries in the document.
pub open spec fn quoted(key: Seq<char>) -> Seq<char> {
    seq!['"'] + key + seq!['"']
}

/// Result of locating a key path, at the specification level.
pub ghost enum SpecLocated {
    /// The block was found: the last key's match position, and the
    /// positions of the block's opening and closing braces.
    Found { kpos: int, open: int, close: int },
    /// The final key of the path is absent from its parent block: the
    /// record simply is not present, which is not an error.
    LastKeyAbsent,
    /// A non-terminal key (at this index into the path) is absent: the
    /// document does not have the expected shape.
    InnerKeyAbsent { index: int },
    /// No opening brace follows the key at this index.
    NoOpenBrace { index: int },
    /// The block opened for the key at this index never closes.
    NoCloseBrace { index: int },
}

/// The block belonging to the single key `key` when looked up in the
/// window `[start, end)` of `s`: its match position and its braces.
pub open spec fn key_block(s: Seq<char>, key: Seq<char>, start: int, end: int) -> SpecLocated {
    match find_pat(s, quoted(key), start, end) {
        None => SpecLocated::LastKeyAbsent,
        Some(kpos) => match find_char_from(s, '{', kpos) {
            None => SpecLocated::NoOpenBrace { index: 0 },
            Some(open) => match scan_close(s, open + 1, 1, false) {
                None => SpecLocated::NoCloseBrace { index: 0 },
                Some(close) => SpecLocated::Found { kpos, open, close },
            },
        },
    }
}

/// Locate the innermost block of the key path `keys[ki..]` inside the
/// window `[start, end)` of `s`. Each key is searched as its quoted
/// literal; the window for the next key is the block of the current one.
pub open spec fn spec_locate(
    s: Seq<char>,
    keys: Seq<Seq<char>>,
    ki: int,
    start: int,
    end: int,
) -> SpecLocated
    decreases keys.len() - ki when 0 <= ki < keys.len()
{
    let last = ki == keys.len() - 1;
    match find_pat(s, quoted(keys[ki]), start, end) {
        None => if last {
            SpecLocated::LastKeyAbsent
        } else {
            SpecLocated::InnerKeyAbsent { index: ki }
        },
        Some(kpos) => match find_char_from(s, '{', kpos) {
            None => SpecLocated::NoOpenBrace { index: ki },
            Some(open) => match scan_close(s, open + 1, 1, false) {
                None => SpecLocated::NoCloseBrace { index: ki },
                Some(close) => if last {
                    SpecLocated::Found { kpos, open, close }
                } else if open + 1 <= close {
                    spec_locate(s, keys, ki + 1, open + 1, close)
                } else {
                    spec_locate(s, keys, ki + 1, close, close)
                },
            },
        },
    }
}

/// A found block lies inside the document: its key match is in the
/// window, and its braces are positions in the document, opening before
/// closing.
pub proof fn lemma_locate_found_bounds(
    s: Seq<char>,
    keys: Seq<Seq<char>>,
    ki: int,
    start: int,
    end: int,
)
    requires
        0 <= ki < keys.len(),
        0 <= start <= end <= s.len(),
    ensures
        spec_locate(s, keys, ki, start, end) matches SpecLocated::Found {
            kpos,
            open,
            close,
        } ==> start <= kpos <= open && open < close < s.len(),
    decreases keys.len() - ki,
{
    let last = ki == keys.len() - 1;
    match find_pat(s, quoted(keys[ki]), start, end) {
        None => {},
        Some(kpos) => {
            lemma_find_pat_bounds(s, quoted(keys[ki]), start, end);
            match find_char_from(s, '{', kpos) {
                None => {},
                Some(open) => {
                    lemma_find_char_bounds(s, '{', kpos);
                    match scan_close(s, open + 1, 1, false) {
                        None => {},
                        Some(close) => {
                            lemma_scan_close_bounds(s, open + 1, 1, false);
                            if !last {
                                if open + 1 <= close {
                                    lemma_locate_found_bounds(s, keys, ki + 1, open + 1, close);
                                } else {
                                    lemma_locate_found_bounds(s, keys, ki + 1, close, close);
                                }
                            }
                        },
                    }
                },
            }
        },
    }
}

/// Result of locating a key path.
#[derive(Clone, Copy, PartialEq, Eq, Structural, Debug)]
pub enum Located {
    /// The block was found: positions of its opening and closing braces.
    Found { open: usize, close: usize },
    /// The final key of the path is absent: a benign empty observation.
    LastKeyAbsent,
    /// A non-terminal key (at this index into the path) is absent.
    InnerKeyAbsent { index: usize },
    /// No opening brace follows the key at this index.
    NoOpenBrace { index: usize },
    /// The block opened for the key at this index never closes.
    NoCloseBrace { index: usize },
}

/// How an executable locator result reflects a specification-level one.
pub open spec fn located_matches(r: Located, m: SpecLocated) -> bool {
    match r {
        Located::Found { open, close } => m matches SpecLocated::Found {
            kpos: _,
            open: o,
            close: c,
        } && open == o && close == c,
        Located::LastKeyAbsent => m is LastKeyAbsent,
        Located::InnerKeyAbsent { index } => m matches SpecLocated::InnerKeyAbsent { index: x }
            && index == x,
        Located::NoOpenBrace { index } => m matches SpecLocated::NoOpenBrace { index: x } && index
            == x,
        Located::NoCloseBrace { index } => m matches SpecLocated::NoCloseBrace { index: x } && index
            == x,
    }
}

/// First occurrence of `pat` in `s` within `[from, end)`.
pub fn find_sub(s: &str, pat: &str, from: usize, end: usize) -> (r: Option<usize>)
    requires
        from <= end <= s@.len(),
    ensures
        match r {
            Some(p) => find_pat(s@, pat@, from as int, end as int) == Some(p as int),
            None => find_pat(s@, pat@, from as int, end as int) is None,
        },
{
    let m = pat.unicode_len();
    if m == 0 {
        return Some(from);
    }
    if m > end - from {
        assert(find_pat(s@, pat@, from as int, end as int) is None);
        return None;
    }
    let lim = end - m;
    let mut i = from;
    while i <= lim
        invariant
            from <= i,
            i <= lim + 1,
            lim + m == end,
            end <= s@.len(),
            1 <= m == pat@.len(),
            find_pat(s@, pat@, from as int, end as int) == find_pat(s@, pat@, i as int, end as int),
        decreases lim + 1 - i,
    {
        let mut k: usize = 0;
        let mut matched = true;
        while k < m
            invariant
                i + m <= end,
                end <= s@.len(),
                m == pat@.len(),
                0 <= k <= m,
                matched ==> forall|q: int| 0 <= q < k ==> s@[i + q] == pat@[q],
                !matched ==> s@.subrange(i as int, i + m) != pat@,
            decreases m - k,
        {
            if matched && s.get_char(i + k) != pat.get_char(k) {
                assert(s@.subrange(i as int, i + m)[k as int] != pat@[k as int]);
                matched = false;
            }
            k = k + 1;
        }
        if matched {
            assert(s@.subrange(i as int, i + m) =~= pat@);
            assert(find_pat(s@, pat@, i as int, end as int) == Some(i as int));
            return Some(i);
        }
        proof {
            assert(find_pat(s@, pat@, i as int, end as int) == find_pat(
                s@,
                pat@,
                i as int + 1,
                end as int,
            ));
        }
        i = i + 1;
    }
    assert(i + m > end);
    assert(find_pat(s@, pat@, i as int, end as int) is None);
    None
}

/// First occurrence of the character `c` in `s` at or after `from`.
pub fn find_char(s: &str, c: char, from: usize) -> (r: Option<usize>)
    requires
        from <= s@.len(),
    ensures
        match r {
            Some(p) => find_char_from(s@, c, from as int) == Some(p as int),
            None => find_char_from(s@, c, from as int) is None,
        },
{
    let n = s.unicode_len();
    let mut i = from;
    while i < n
        invariant
            from <= i <= n,
            n == s@.len(),
            find_char_from(s@, c, from as int) == find_char_from(s@, c, i as int),
        decreases n - i,
    {
        if s.get_char(i) == c {
            return Some(i);
        }
        i = i + 1;
    }
    None
}

/// Scan for the closing brace of the block opened just before `start`,
/// counting brace depth and ignoring braces inside quoted strings.
pub fn scan_for_close(s: &str, start: usize) -> (r: Option<usize>)
    requires
        start <= s@.len(),
    ensures
        match r {
            Some(p) => scan_close(s@, start as int, 1, false) == Some(p as int),
            None => scan_close(s@, start as int, 1, false) is None,
        },
{
    let n = s.unicode_len();
    let mut i = start;
    let mut extra: usize = 0;
    let mut in_quotes = false;
    while i < n
        invariant
            start <= i <= n,
            n == s@.len(),
            extra <= i - start,
            scan_close(s@, start as int, 1, false) == scan_close(
                s@,
                i as int,
                extra as int + 1,
                in_quotes,
            ),
        decreases n - i,
    {
        let c = s.get_char(i);
        if c == '"' {
            in_quotes = !in_quotes;
        } else if c == '{' && !in_quotes {
            extra = extra + 1;
        } else if c == '}' && !in_quotes {
            if extra == 0 {
                return Some(i);
            }
            extra = extra - 1;
        }
        i = i + 1;
    }
    None
}

/// Locate the block of `keys[ki..]` inside the window `[start, end)`.
fn locate_rec(s: &str, keys: &Vec<String>, ki: usize, start: usize, end: usize) -> (r: Located)
    requires
        ki < keys@.len(),
        start <= end <= s@.len(),
    ensures
        located_matches(r, spec_locate(s@, keys.deep_view(), ki as int, start as int, end as int)),
        r matches Located::Found { open, close } ==> open < close < s@.len(),
        r matches Located::InnerKeyAbsent { index } ==> ki <= index < keys@.len(),
        r matches Located::NoOpenBrace { index } ==> ki <= index < keys@.len(),
        r matches Located::NoCloseBrace { index } ==> ki <= index < keys@.len(),
    decreases keys@.len() - ki,
{
    let ghost kd = keys.deep_view();
    let n = s.unicode_len();
    let last = ki == keys.len() - 1;
    let mut pat = String::new();
    pat.append("\"");
    pat.append(keys[ki].as_str());
    pat.append("\"");
    proof {
        reveal_strlit("\"");
        assert("\""@ =~= seq!['"']);
        assert(pat@ =~= quoted(kd[ki as int]));
    }
    match find_sub(s, pat.as_str(), start, end) {
        None => {
            if last {
                Located::LastKeyAbsent
            } else {
                Located::InnerKeyAbsent { index: ki }
            }
        },
        Some(kpos) => {
            proof {
                lemma_find_pat_bounds(s@, pat@, start as int, end as int);
            }
            match find_char(s, '{', kpos) {
                None => Located::NoOpenBrace { index: ki },
                Some(open) => {
                    proof {
                        lemma_find_char_bounds(s@, '{', kpos as int);
                    }
                    match scan_for_close(s, open + 1) {
                        None => Located::NoCloseBrace { index: ki },
                        Some(close) => {
                            proof {
                                lemma_scan_close_bounds(s@, open as int + 1, 1, false);
                            }
                            if last {
                                Located::Found { open, close }
                            } else if open + 1 <= close {
                                locate_rec(s, keys, ki + 1, open + 1, close)
                            } else {
                                locate_rec(s, keys, ki + 1, close, close)
                            }
                        },
                    }
                },
            }
        },
    }
}

/// Locate the innermost block reached by looking up `keys` in order,
/// starting from the whole document.
pub fn locate_block(s: &str, keys: &Vec<String>) -> (r: Located)
    requires
        keys@.len() > 0,
    ensures
        located_matches(r, spec_locate(s@, keys.deep_view(), 0, 0, s@.len() as int)),
        r matches Located::Found { open, close } ==> open < close < s@.len(),
        r matches Located::InnerKeyAbsent { index } ==> index < keys@.len(),
        r matches Located::NoOpenBrace { index } ==> index < keys@.len(),
        r matches Located::NoCloseBrace { index } ==> index < keys@.len(),
{
    let n = s.unicode_len();
    locate_rec(s, keys, 0, 0, n)
}

/// Law: the locator is scoped. When a two-key path `[a, x]` is found,
/// the match for `x` (with its quotes) lies strictly inside the braces
/// of the block found for `a`: an occurrence of `x` in a sibling block
/// of `a`'s block is never matched.
pub proof fn lemma_locate_scoped(s: Seq<char>, a: Seq<char>, x: Seq<char>, start: int, end: int)
    requires
        0 <= start <= end <= s.len(),
    ensures
        spec_locate(s, seq![a, x], 0, start, end) matches SpecLocated::Found {
            kpos,
            open: _,
            close: _,
        } ==> (key_block(s, a, start, end) matches SpecLocated::Found {
            kpos: _,
            open: ao,
            close: ac,
        } && ao < kpos && kpos + quoted(x).len() <= ac),
{
    let keys = seq![a, x];
    assert(keys[0] == a);
    assert(keys[1] == x);
    let r = spec_locate(s, keys, 0, start, end);
    if r matches SpecLocated::Found { kpos, open: _, close: _ } {
        lemma_find_pat_bounds(s, quoted(a), start, end);
        match find_pat(s, quoted(a), start, end) {
            None => {},
            Some(apos) => {
                match find_char_from(s, '{', apos) {
                    None => {},
                    Some(ao) => {
                        lemma_find_char_bounds(s, '{', apos);
                        match scan_close(s, ao + 1, 1, false) {
                            None => {},
                            Some(ac) => {
                                lemma_scan_close_bounds(s, ao + 1, 1, false);
                                assert(quoted(x).len() == x.len() + 2);
                                if ao + 1 <= ac {
                                    assert(r == spec_locate(s, keys, 1, ao + 1, ac));
                                    lemma_find_pat_bounds(s, quoted(x), ao + 1, ac);
                                    match find_pat(s, quoted(x), ao + 1, ac) {
                                        None => {
                                            assert(!(r is Found));
                                        },
                                        Some(kp2) => {
                                            assert(ao + 1 <= kp2 && kp2 + quoted(x).len() <= ac);
                                            assert(r matches SpecLocated::Found {
                                                kpos: k2,
                                                open: _,
                                                close: _,
                                            } ==> k2 == kp2);
                                        },
                                    }
                                } else {
                                    lemma_find_pat_bounds(s, quoted(x), ac, ac);
                                    assert(!(r is Found));
                                }
                            },
                        }
                    },
                }
            },
        }
    }
}

} // verus!
