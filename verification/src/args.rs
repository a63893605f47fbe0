//! The launch-argument codec: reading a background id and a debug-console
//! flag out of a flat argument string, and regenerating such a string with
//! one of the two managed flags changed while every unrelated token keeps
//! its exact text and relative position.

use vstd::prelude::*;
use vstd::string::*;

use crate::text::{
    all_tokens_wf, first_match, has_prefix, is_space_char, join_spaces, lemma_filter_all,
    lemma_filter_none, lemma_filter_push, lemma_filter_wf, lemma_first_match_skip, lemma_join_push,
    lemma_filter_subsume, lemma_tokens_from_wf,
    lemma_tokens_join_roundtrip, lemma_tokens_of_single, str_equal, str_has_prefix, tokenize,
    tokens_of, ws_free,
};

verus! {

/// The name of the managed background value-flag.
pub open spec fn bg_arg() -> Seq<char> {
    "--lobbyMap"@
}

/// The background flag name followed by `=`: the prefix of a background
/// token.
pub open spec fn bg_eq() -> Seq<char> {
    "--lobbyMap="@
}

/// The literal token whose presence enables the debug console.
pub open spec fn console_arg() -> Seq<char> {
    "--tank_Console"@
}

/// The view of an optional string slice.
pub open spec fn opt_seq(o: Option<&str>) -> Option<Seq<char>> {
    match o {
        Some(s) => Some(s@),
        None => None,
    }
}

/// The tokens of `old` that survive a flag change keeping exactly the
/// tokens on which `keep` holds; an absent string has no tokens.
pub open spec fn spec_filtered(old: Option<Seq<char>>, keep: spec_fn(Seq<char>) -> bool) -> Seq<
    Seq<char>,
> {
    match old {
        Some(s) => tokens_of(s).filter(keep),
        None => Seq::empty(),
    }
}

/// Regenerate an argument string: drop the managed tokens of `old`, then
/// append `tok` (the new managed token) if one is desired. Collapses to
/// the empty string when nothing remains.
pub open spec fn spec_generate(
    old: Option<Seq<char>>,
    keep: spec_fn(Seq<char>) -> bool,
    tok: Option<Seq<char>>,
) -> Seq<char> {
    let kept = spec_filtered(old, keep);
    match tok {
        Some(t) => if kept.len() == 0 {
            t
        } else {
            join_spaces(kept) + seq![' '] + t
        },
        None => join_spaces(kept),
    }
}

/// A token is unrelated to the background flag when it does not start
/// with the flag's name.
pub open spec fn keep_non_background(t: Seq<char>) -> bool {
    !has_prefix(t, bg_arg())
}

/// A token is unrelated to the console flag when it is not the console
/// literal itself.
pub open spec fn keep_non_console(t: Seq<char>) -> bool {
    t != console_arg()
}

/// The predicate keeping tokens unrelated to the background flag.
pub open spec fn non_bg_pred() -> spec_fn(Seq<char>) -> bool {
    |t: Seq<char>| keep_non_background(t)
}

/// The predicate keeping tokens unrelated to the console flag.
pub open spec fn non_console_pred() -> spec_fn(Seq<char>) -> bool {
    |t: Seq<char>| keep_non_console(t)
}

/// The predicate matching a token that sets the background flag.
pub open spec fn bg_eq_pred() -> spec_fn(Seq<char>) -> bool {
    |t: Seq<char>| has_prefix(t, bg_eq())
}

/// What `generate_background_launch_args` returns.
pub open spec fn spec_generate_background(
    old: Option<Seq<char>>,
    id: Option<Seq<char>>,
) -> Seq<char> {
    spec_generate(
        old,
        non_bg_pred(),
        match id {
            Some(v) => Some(bg_eq() + v),
            None => None,
        },
    )
}

/// What `generate_console_launch_args` returns.
pub open spec fn spec_generate_console(old: Option<Seq<char>>, enable: bool) -> Seq<char> {
    spec_generate(
        old,
        non_console_pred(),
        if enable {
            Some(console_arg())
        } else {
            None
        },
    )
}

/// The token list of a regenerated argument string: exactly the kept
/// tokens of the old string, with the new managed token, if any, appended
/// at the end.
pub proof fn lemma_generate_tokens(
    old: Option<Seq<char>>,
    keep: spec_fn(Seq<char>) -> bool,
    tok: Option<Seq<char>>,
)
    requires
        tok matches Some(t) ==> t.len() > 0 && ws_free(t) && !keep(t),
    ensures
        tokens_of(spec_generate(old, keep, tok)) == match tok {
            Some(t) => spec_filtered(old, keep).push(t),
            None => spec_filtered(old, keep),
        },
        spec_filtered(old, keep).filter(keep) == spec_filtered(old, keep),
        all_tokens_wf(spec_filtered(old, keep)),
{
    let kept = spec_filtered(old, keep);
    match old {
        Some(s) => {
            lemma_tokens_from_wf(s, 0);
            lemma_filter_wf(tokens_of(s), keep);
            assert forall|k: int| 0 <= k < kept.len() implies keep(#[trigger] kept[k]) by {
                tokens_of(s).lemma_filter_pred(keep, k);
            }
            lemma_filter_all(kept, keep);
        },
        None => {
            assert(all_tokens_wf(kept));
            assert forall|k: int| 0 <= k < kept.len() implies keep(#[trigger] kept[k]) by {}
            lemma_filter_all(kept, keep);
        },
    }
    match tok {
        Some(t) => {
            assert(all_tokens_wf(kept.push(t))) by {
                assert(forall|k: int| 0 <= k < kept.len() ==> kept.push(t)[k] == kept[k]);
                assert(kept.push(t)[kept.len() as int] == t);
            }
            if kept.len() == 0 {
                lemma_tokens_of_single(t);
                assert(kept.push(t) =~= seq![t]);
            } else {
                lemma_join_push(kept, t);
                lemma_tokens_join_roundtrip(kept.push(t));
            }
        },
        None => {
            lemma_tokens_join_roundtrip(kept);
        },
    }
}

/// Law: regenerating an argument string with the same desired change a
/// second time gives back the same string.
pub proof fn lemma_generate_idempotent(
    old: Option<Seq<char>>,
    keep: spec_fn(Seq<char>) -> bool,
    tok: Option<Seq<char>>,
)
    requires
        tok matches Some(t) ==> t.len() > 0 && ws_free(t) && !keep(t),
    ensures
        spec_generate(Some(spec_generate(old, keep, tok)), keep, tok) == spec_generate(
            old,
            keep,
            tok,
        ),
{
    let kept = spec_filtered(old, keep);
    let r = spec_generate(old, keep, tok);
    lemma_generate_tokens(old, keep, tok);
    match tok {
        Some(t) => {
            assert(tokens_of(r) == kept.push(t));
            lemma_filter_push(kept, keep, t);
            assert(spec_filtered(Some(r), keep) == kept);
        },
        None => {
            assert(spec_filtered(Some(r), keep) == kept);
        },
    }
}

/// Law: a regeneration never touches the unrelated tokens: filtering the
/// result back down to the tokens the change does not manage gives
/// exactly the unrelated tokens of the old string, in order and with
/// their exact text.
pub proof fn lemma_generate_preserves_unrelated(
    old: Option<Seq<char>>,
    keep: spec_fn(Seq<char>) -> bool,
    tok: Option<Seq<char>>,
)
    requires
        tok matches Some(t) ==> t.len() > 0 && ws_free(t) && !keep(t),
    ensures
        tokens_of(spec_generate(old, keep, tok)).filter(keep) == spec_filtered(old, keep),
{
    let kept = spec_filtered(old, keep);
    lemma_generate_tokens(old, keep, tok);
    match tok {
        Some(t) => {
            lemma_filter_push(kept, keep, t);
        },
        None => {},
    }
}

/// Law: a regeneration never duplicates the managed flag. After setting
/// a background, the result holds exactly one token related to the
/// managed flag — the fresh one — however many the old string held.
/// `managed` must be the complement of `keep`.
pub proof fn lemma_generate_single_managed(
    old: Option<Seq<char>>,
    keep: spec_fn(Seq<char>) -> bool,
    managed: spec_fn(Seq<char>) -> bool,
    tok: Seq<char>,
)
    requires
        forall|t: Seq<char>| #[trigger] managed(t) == !keep(t),
        tok.len() > 0,
        ws_free(tok),
        !keep(tok),
    ensures
        tokens_of(spec_generate(old, keep, Some(tok))).filter(managed) == seq![tok],
{
    let kept = spec_filtered(old, keep);
    lemma_generate_tokens(old, keep, Some(tok));
    assert(forall|k: int| 0 <= k < kept.len() ==> !managed(#[trigger] kept[k])) by {
        assert forall|k: int| 0 <= k < kept.len() implies keep(#[trigger] kept[k]) by {
            match old {
                Some(s) => {
                    tokens_of(s).lemma_filter_pred(keep, k);
                },
                None => {},
            }
        }
    }
    lemma_filter_none(kept, managed);
    lemma_filter_push(kept, managed, tok);
    assert(kept.push(tok).filter(managed) =~= seq![tok]);
}

/// The predicate matching any token related to the background flag.
pub open spec fn bg_related_pred() -> spec_fn(Seq<char>) -> bool {
    |t: Seq<char>| has_prefix(t, bg_arg())
}

/// Law: setting a background leaves exactly one background-flag token in
/// the launch arguments, whatever the old string held.
pub proof fn lemma_background_single_flag(old: Option<Seq<char>>, id: Seq<char>)
    requires
        ws_free(id),
    ensures
        tokens_of(spec_generate_background(old, Some(id))).filter(bg_related_pred()) == seq![
            bg_eq() + id,
        ],
{
    lemma_bg_token_wf(id);
    assert(forall|t: Seq<char>| #[trigger] bg_related_pred()(t) == !non_bg_pred()(t));
    lemma_generate_single_managed(old, non_bg_pred(), bg_related_pred(), bg_eq() + id);
}

/// The background token built for `id` is a well-formed token that the
/// background filter removes, provided the id itself has no whitespace.
proof fn lemma_bg_token_wf(v: Seq<char>)
    requires
        ws_free(v),
    ensures
        (bg_eq() + v).len() > 0,
        ws_free(bg_eq() + v),
        !non_bg_pred()((bg_eq() + v)),
{
    reveal_strlit("--lobbyMap=");
    reveal_strlit("--lobbyMap");
    assert(bg_eq().len() == 11);
    assert(bg_arg().len() == 10);
    let t = bg_eq() + v;
    assert forall|i: int| 0 <= i < t.len() implies !is_space_char(t[i]) by {
        if i < 11 {
            assert(t[i] == bg_eq()[i]);
            assert(!is_space_char(bg_eq()[i]));
        } else {
            assert(t[i] == v[i - 11]);
        }
    }
    assert(t.subrange(0, 10) =~= bg_arg()) by {
        assert(forall|i: int| 0 <= i < 10 ==> t[i] == bg_eq()[i]);
        assert(forall|i: int| 0 <= i < 10 ==> bg_eq()[i] == bg_arg()[i]);
    }
    assert(has_prefix(t, bg_arg()));
}

/// The console token is a well-formed token that the console filter
/// removes.
proof fn lemma_console_token_wf()
    ensures
        console_arg().len() > 0,
        ws_free(console_arg()),
        !non_console_pred()(console_arg()),
{
    reveal_strlit("--tank_Console");
    assert(console_arg().len() == 14);
    assert forall|i: int| 0 <= i < console_arg().len() implies !is_space_char(console_arg()[i]) by {
        assert(!is_space_char(console_arg()[i]));
    }
}

/// Law: generating background launch arguments twice with the same
/// desired id gives the same string as generating them once, for any id
/// free of whitespace.
pub proof fn lemma_background_generate_idempotent(old: Option<Seq<char>>, id: Option<Seq<char>>)
    requires
        id matches Some(v) ==> ws_free(v),
    ensures
        spec_generate_background(Some(spec_generate_background(old, id)), id)
            == spec_generate_background(old, id),
{
    match id {
        Some(v) => {
            lemma_bg_token_wf(v);
            lemma_generate_idempotent(old, non_bg_pred(), Some(bg_eq() + v));
        },
        None => {
            lemma_generate_idempotent(old, non_bg_pred(), None);
        },
    }
}

/// Law: generating console launch arguments twice with the same desired
/// state gives the same string as generating them once.
pub proof fn lemma_console_generate_idempotent(old: Option<Seq<char>>, enable: bool)
    ensures
        spec_generate_console(Some(spec_generate_console(old, enable)), enable)
            == spec_generate_console(old, enable),
{
    lemma_console_token_wf();
    if enable {
        lemma_generate_idempotent(old, non_console_pred(), Some(console_arg()));
    } else {
        lemma_generate_idempotent(old, non_console_pred(), None);
    }
}

/// Law: a background change keeps every token unrelated to the
/// background flag, in order and with its exact text.
pub proof fn lemma_background_generate_preserves_unrelated(
    old: Option<Seq<char>>,
    id: Option<Seq<char>>,
)
    requires
        id matches Some(v) ==> ws_free(v),
    ensures
        tokens_of(spec_generate_background(old, id)).filter(non_bg_pred()) == spec_filtered(
            old,
            non_bg_pred(),
        ),
{
    match id {
        Some(v) => {
            lemma_bg_token_wf(v);
            lemma_generate_preserves_unrelated(old, non_bg_pred(), Some(bg_eq() + v));
        },
        None => {
            lemma_generate_preserves_unrelated(old, non_bg_pred(), None);
        },
    }
}

/// Law: a console change keeps every token other than the console
/// literal, in order and with its exact text.
pub proof fn lemma_console_generate_preserves_unrelated(old: Option<Seq<char>>, enable: bool)
    ensures
        tokens_of(spec_generate_console(old, enable)).filter(non_console_pred()) == spec_filtered(
            old,
            non_console_pred(),
        ),
{
    lemma_console_token_wf();
    if enable {
        lemma_generate_preserves_unrelated(old, non_console_pred(), Some(console_arg()));
    } else {
        lemma_generate_preserves_unrelated(old, non_console_pred(), None);
    }
}

/// A desired change to the managed launch arguments: set or clear the
/// background id, or set the debug console state.
pub enum FlagChange {
    /// Set the background to the given id, or clear it.
    Background(Option<String>),
    /// Enable or disable the debug console token.
    Console(bool),
}

/// What regenerating launch arguments under a flag change produces.
pub open spec fn spec_apply_change(old: Option<Seq<char>>, c: FlagChange) -> Seq<char> {
    match c {
        FlagChange::Background(id) => spec_generate_background(
            old,
            match id {
                Some(v) => Some(v@),
                None => None,
            },
        ),
        FlagChange::Console(b) => spec_generate_console(old, b),
    }
}

/// Regenerate launch arguments under a flag change.
pub fn apply_change(old: Option<&str>, c: &FlagChange) -> (r: String)
    ensures
        r@ == spec_apply_change(opt_seq(old), *c),
{
    match c {
        FlagChange::Background(id) => {
            let idr: Option<&str> = match id {
                Some(v) => Some(v.as_str()),
                None => None,
            };
            generate_background_launch_args(old, idr)
        },
        FlagChange::Console(b) => generate_console_launch_args(old, *b),
    }
}

/// A token neither flag family manages: not a background token and not
/// the console literal.
pub open spec fn unmanaged_pred() -> spec_fn(Seq<char>) -> bool {
    |t: Seq<char>| keep_non_background(t) && keep_non_console(t)
}

/// The argument string after applying a whole list of flag changes, in
/// order.
pub open spec fn spec_apply_all(old: Seq<char>, cs: Seq<FlagChange>) -> Seq<char>
    decreases cs.len(),
{
    if cs.len() == 0 {
        old
    } else {
        spec_apply_all(spec_apply_change(Some(old), cs[0]), cs.drop_first())
    }
}

/// A change's id is free of whitespace, where it carries one.
pub open spec fn change_wf(c: FlagChange) -> bool {
    match c {
        FlagChange::Background(Some(id)) => ws_free(id@),
        _ => true,
    }
}

/// One flag change keeps every token that neither flag family manages,
/// in order and with its exact text.
pub proof fn lemma_change_preserves_unmanaged(old: Seq<char>, c: FlagChange)
    requires
        change_wf(c),
    ensures
        tokens_of(spec_apply_change(Some(old), c)).filter(unmanaged_pred()) == tokens_of(
            old,
        ).filter(unmanaged_pred()),
{
    let um = unmanaged_pred();
    match c {
        FlagChange::Background(id) => {
            let keep = non_bg_pred();
            let tok = match id {
                Some(v) => Some(bg_eq() + v@),
                None => None,
            };
            if id is Some {
                lemma_bg_token_wf(id->Some_0@);
            }
            lemma_generate_tokens(Some(old), keep, tok);
            let kept = tokens_of(old).filter(keep);
            match tok {
                Some(t) => {
                    lemma_filter_push(kept, um, t);
                    assert(!um(t));
                },
                None => {},
            }
            lemma_filter_subsume(tokens_of(old), keep, um);
        },
        FlagChange::Console(b) => {
            let keep = non_console_pred();
            let tok = if b {
                Some(console_arg())
            } else {
                None
            };
            lemma_console_token_wf();
            lemma_generate_tokens(Some(old), keep, tok);
            let kept = tokens_of(old).filter(keep);
            match tok {
                Some(t) => {
                    lemma_filter_push(kept, um, t);
                    assert(!um(t));
                },
                None => {},
            }
            lemma_filter_subsume(tokens_of(old), keep, um);
        },
    }
}

/// Law: unrelated tokens retain their relative order and exact text
/// across any number of flag changes — the tokens that neither flag
/// family manages read the same, in the same order, after the whole
/// list of changes as before it.
pub proof fn lemma_changes_preserve_unmanaged(old: Seq<char>, cs: Seq<FlagChange>)
    requires
        forall|k: int| 0 <= k < cs.len() ==> change_wf(#[trigger] cs[k]),
    ensures
        tokens_of(spec_apply_all(old, cs)).filter(unmanaged_pred()) == tokens_of(old).filter(
            unmanaged_pred(),
        ),
    decreases cs.len(),
{
    if cs.len() > 0 {
        lemma_change_preserves_unmanaged(old, cs[0]);
        let next = spec_apply_change(Some(old), cs[0]);
        assert(forall|k: int|
            0 <= k < cs.drop_first().len() ==> change_wf(#[trigger] cs.drop_first()[k]));
        lemma_changes_preserve_unmanaged(next, cs.drop_first());
    }
}

/// First position at or after `i` where `c` occurs in `t`, or `t.len()`.
pub open spec fn char_end(t: Seq<char>, i: int, c: char) -> int
    decreases t.len() - i when 0 <= i <= t.len()
{
    if i == t.len() || t[i] == c {
        i
    } else {
        char_end(t, i + 1, c)
    }
}

pub proof fn lemma_char_end_eq(t: Seq<char>, i: int, j: int, c: char)
    requires
        0 <= i <= j <= t.len(),
        forall|k: int| i <= k < j ==> t[k] != c,
        j == t.len() || t[j] == c,
    ensures
        char_end(t, i, c) == j,
    decreases j - i,
{
    if i < j {
        lemma_char_end_eq(t, i + 1, j, c);
    }
}

/// The background value carried by a background token: the text between
/// the `=` that ends the flag name and the next `=` or the token's end;
/// an empty value counts as no value.
pub open spec fn bg_token_value(t: Seq<char>) -> Option<Seq<char>>
    recommends
        has_prefix(t, bg_eq()),
{
    let start = bg_eq().len() as int;
    let v = t.subrange(start, char_end(t, start, '='));
    if v.len() == 0 {
        None
    } else {
        Some(v)
    }
}

/// What `get_background` returns: the value of the first token starting
/// with the background flag name and `=`.
pub open spec fn spec_get_background(s: Seq<char>) -> Option<Seq<char>> {
    match first_match(tokens_of(s), bg_eq_pred()) {
        Some(t) => bg_token_value(t),
        None => None,
    }
}

/// Get the background id from the launch arguments.
pub fn get_background(launch_args: &str) -> (r: Option<String>)
    ensures
        r matches Some(v) ==> Some(v@) == spec_get_background(launch_args@),
        r is None ==> spec_get_background(launch_args@) is None,
{
    let toks = tokenize(launch_args);
    let ghost dv = toks.deep_view();
    let n = toks.len();
    let mut i: usize = 0;
    while i < n
        invariant
            n == dv.len(),
            dv == toks.deep_view(),
            dv == tokens_of(launch_args@),
            0 <= i <= n,
            forall|k: int| 0 <= k < i ==> !bg_eq_pred()(#[trigger] dv[k]),
            forall|k: int| 0 <= k < n ==> dv[k] == toks@[k]@,
        decreases n - i,
    {
        let t = &toks[i];
        assert(t@ == dv[i as int]);
        if str_has_prefix(t.as_str(), "--lobbyMap=") {
            proof {
                lemma_first_match_skip(dv, bg_eq_pred(), i as int);
                assert(dv.skip(i as int)[0] == dv[i as int]);
                assert(bg_eq_pred()(dv[i as int]));
                assert(first_match(dv, bg_eq_pred()) == Some(t@));
            }
            return extract_bg_value(t);
        }
        assert(!bg_eq_pred()(dv[i as int]));
        i = i + 1;
    }
    proof {
        lemma_first_match_skip(dv, bg_eq_pred(), n as int);
        assert(dv.skip(n as int) =~= Seq::<Seq<char>>::empty());
        assert(first_match(dv, bg_eq_pred()) is None);
    }
    None
}

/// The value part of a token known to start with the background flag
/// name and `=`.
fn extract_bg_value(t: &String) -> (r: Option<String>)
    requires
        has_prefix(t@, bg_eq()),
    ensures
        r matches Some(v) ==> Some(v@) == bg_token_value(t@),
        r is None ==> bg_token_value(t@) is None,
{
    let ts = t.as_str();
    let n = ts.unicode_len();
    let start: usize = {
        let p = "--lobbyMap=";
        proof {
            reveal_strlit("--lobbyMap=");
        }
        p.unicode_len()
    };
    assert(start == bg_eq().len());
    assert(start <= n);
    let mut j: usize = start;
    while j < n && ts.get_char(j) != '='
        invariant
            ts@ == t@,
            n == t@.len(),
            start <= j <= n,
            forall|k: int| start <= k < j ==> t@[k] != '=',
        decreases n - j,
    {
        j = j + 1;
    }
    proof {
        lemma_char_end_eq(t@, start as int, j as int, '=');
    }
    if j == start {
        assert(bg_token_value(t@) is None);
        None
    } else {
        let v = ts.substring_char(start, j);
        assert(v@ == t@.subrange(start as int, j as int));
        Some(v.to_owned())
    }
}

/// Get the debug console state from the launch arguments.
pub fn get_console_enabled(launch_args: &str) -> (r: bool)
    ensures
        r == tokens_of(launch_args@).contains(console_arg()),
{
    let toks = tokenize(launch_args);
    let ghost dv = toks.deep_view();
    let n = toks.len();
    let mut i: usize = 0;
    while i < n
        invariant
            n == dv.len(),
            dv == toks.deep_view(),
            dv == tokens_of(launch_args@),
            0 <= i <= n,
            forall|k: int| 0 <= k < i ==> dv[k] != console_arg(),
            forall|k: int| 0 <= k < n ==> dv[k] == toks@[k]@,
        decreases n - i,
    {
        let t = &toks[i];
        if str_equal(t.as_str(), "--tank_Console") {
            assert(dv[i as int] == console_arg());
            assert(dv.contains(console_arg()));
            return true;
        }
        i = i + 1;
    }
    assert(forall|k: int| 0 <= k < n ==> dv[k] != console_arg());
    assert(!dv.contains(console_arg()));
    false
}

/// Keep the tokens of `launch_args` on which the exec predicate agreed
/// with `keep`, in order.
fn filter_tokens_background(launch_args: &str) -> (r: Vec<String>)
    ensures
        r.deep_view() == tokens_of(launch_args@).filter(non_bg_pred()),
{
    let toks = tokenize(launch_args);
    let ghost dv = toks.deep_view();
    let n = toks.len();
    let mut r: Vec<String> = Vec::new();
    let mut i: usize = 0;
    proof {
        assert(dv.take(0) =~= Seq::<Seq<char>>::empty());
        reveal(Seq::filter);
        assert(r.deep_view() =~= dv.take(0).filter(non_bg_pred()));
    }
    while i < n
        invariant
            n == dv.len(),
            dv == toks.deep_view(),
            0 <= i <= n,
            r.deep_view() == dv.take(i as int).filter(non_bg_pred()),
            forall|k: int| 0 <= k < n ==> dv[k] == toks@[k]@,
        decreases n - i,
    {
        let ghost prev = r.deep_view();
        let t = &toks[i];
        if !str_has_prefix(t.as_str(), "--lobbyMap") {
            assert(non_bg_pred()(dv[i as int]));
            r.push(t.clone());
            assert(r.deep_view() =~= prev.push(t@));
        } else {
            assert(!non_bg_pred()(dv[i as int]));
        }
        proof {
            assert(dv.take(i as int + 1) =~= dv.take(i as int).push(dv[i as int]));
            lemma_filter_push(dv.take(i as int), non_bg_pred(), dv[i as int]);
        }
        i = i + 1;
    }
    assert(dv.take(n as int) =~= dv);
    r
}

/// Keep the tokens of `launch_args` other than the console literal, in
/// order.
fn filter_tokens_console(launch_args: &str) -> (r: Vec<String>)
    ensures
        r.deep_view() == tokens_of(launch_args@).filter(non_console_pred()),
{
    let toks = tokenize(launch_args);
    let ghost dv = toks.deep_view();
    let n = toks.len();
    let mut r: Vec<String> = Vec::new();
    let mut i: usize = 0;
    proof {
        assert(dv.take(0) =~= Seq::<Seq<char>>::empty());
        reveal(Seq::filter);
        assert(r.deep_view() =~= dv.take(0).filter(non_console_pred()));
    }
    while i < n
        invariant
            n == dv.len(),
            dv == toks.deep_view(),
            0 <= i <= n,
            r.deep_view() == dv.take(i as int).filter(non_console_pred()),
            forall|k: int| 0 <= k < n ==> dv[k] == toks@[k]@,
        decreases n - i,
    {
        let ghost prev = r.deep_view();
        let t = &toks[i];
        if !str_equal(t.as_str(), "--tank_Console") {
            assert(non_console_pred()(dv[i as int]));
            r.push(t.clone());
            assert(r.deep_view() =~= prev.push(t@));
        } else {
            assert(!non_console_pred()(dv[i as int]));
        }
        proof {
            assert(dv.take(i as int + 1) =~= dv.take(i as int).push(dv[i as int]));
            lemma_filter_push(dv.take(i as int), non_console_pred(), dv[i as int]);
        }
        i = i + 1;
    }
    assert(dv.take(n as int) =~= dv);
    r
}

/// Join already-filtered tokens with single spaces.
fn join_tokens(kept: &Vec<String>) -> (r: String)
    ensures
        r@ == join_spaces(kept.deep_view()),
{
    let ghost kd = kept.deep_view();
    let n = kept.len();
    let mut out = String::new();
    if n == 0 {
        assert(out@ =~= join_spaces(kd));
        return out;
    }
    out.append(kept[0].as_str());
    let mut i: usize = 1;
    proof {
        assert(kd.take(1) =~= seq![kd[0]]);
        assert(join_spaces(kd.take(1)) == kd[0]);
        assert(out@ =~= join_spaces(kd.take(1)));
    }
    while i < n
        invariant
            n == kd.len(),
            kd == kept.deep_view(),
            1 <= i <= n,
            out@ == join_spaces(kd.take(i as int)),
            forall|k: int| 0 <= k < n ==> kd[k] == kept@[k]@,
        decreases n - i,
    {
        out.append(" ");
        out.append(kept[i].as_str());
        proof {
            reveal_strlit(" ");
            assert(" "@ =~= seq![' ']);
            assert(kd.take(i as int + 1) =~= kd.take(i as int).push(kd[i as int]));
            lemma_join_push(kd.take(i as int), kd[i as int]);
            assert(out@ =~= join_spaces(kd.take(i as int + 1)));
        }
        i = i + 1;
    }
    assert(kd.take(n as int) =~= kd);
    out
}

/// Generate background launch arguments: every token starting with the
/// background flag name is removed, and if `id` is given, a fresh
/// `--lobbyMap=<id>` token is appended at the end.
pub fn generate_background_launch_args(launch_args: Option<&str>, id: Option<&str>) -> (r: String)
    ensures
        r@ == spec_generate_background(opt_seq(launch_args), opt_seq(id)),
{
    let kept: Vec<String> = match launch_args {
        Some(s) => filter_tokens_background(s),
        None => Vec::new(),
    };
    assert(kept.deep_view() =~= spec_filtered(opt_seq(launch_args), non_bg_pred()));
    let mut out = join_tokens(&kept);
    match id {
        Some(idv) => {
            if kept.len() == 0 {
                let mut tok = String::new();
                tok.append("--lobbyMap=");
                tok.append(idv);
                assert(tok@ =~= bg_eq() + idv@);
                tok
            } else {
                out.append(" ");
                out.append("--lobbyMap=");
                out.append(idv);
                proof {
                    reveal_strlit(" ");
                    assert(" "@ =~= seq![' ']);
                    assert(out@ =~= join_spaces(kept.deep_view()) + seq![' '] + (bg_eq() + idv@));
                }
                out
            }
        },
        None => out,
    }
}

/// Generate debug console launch arguments: the console literal is
/// removed wherever it occurs, and appended once at the end if
/// `enable_console` is set.
pub fn generate_console_launch_args(launch_args: Option<&str>, enable_console: bool) -> (r: String)
    ensures
        r@ == spec_generate_console(opt_seq(launch_args), enable_console),
{
    let kept: Vec<String> = match launch_args {
        Some(s) => filter_tokens_console(s),
        None => Vec::new(),
    };
    assert(kept.deep_view() =~= spec_filtered(opt_seq(launch_args), non_console_pred()));
    let mut out = join_tokens(&kept);
    if enable_console {
        if kept.len() == 0 {
            let mut tok = String::new();
            tok.append("--tank_Console");
            assert(tok@ =~= console_arg());
            tok
        } else {
            out.append(" ");
            out.append("--tank_Console");
            proof {
                reveal_strlit(" ");
                assert(" "@ =~= seq![' ']);
                assert(out@ =~= join_spaces(kept.deep_view()) + seq![' '] + console_arg());
            }
            out
        }
    } else {
        out
    }
}

} // verus!
