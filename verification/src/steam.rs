//! Reading and rewriting the launch options stored in one launcher
//! account's local configuration text file: locate the fixed key path
//! down to the game's record, read the current launch options, and build
//! the full new file contents for a changed value, either by replacing
//! the existing value in place or by inserting a fresh line right after
//! the record's opening brace.

use vstd::prelude::*;
use vstd::string::*;

use crate::args::{apply_change, spec_apply_change, FlagChange};
use crate::config::{SharedConfig, SteamLocalconfig, SteamProfile};
use crate::reconcile::{
    make_observation, obs_view, reconcile, reconciled, spec_obs_of, ObsV, PlatformObservation,
};
use crate::patcher::{backup_name, lemma_backup_ne, patch_account_file, spec_patch_outcome};
use crate::volume::{agrees_on, Volume};
use crate::locator::{
    find_char_from, find_pat, lemma_find_char_bounds, lemma_find_pat_bounds,
    lemma_locate_found_bounds, lemma_scan_close_bounds, locate_block, quoted, scan_close,
    spec_locate, Located, SpecLocated,
};
use crate::Error;

verus! {

/// The fixed key path from the document root down to the game's record.
pub open spec fn vdf_keys() -> Seq<Seq<char>> {
    seq![
        "UserLocalConfigStore"@,
        "Software"@,
        "Valve"@,
        "Steam"@,
        "apps"@,
        "2357570"@,
    ]
}

/// The key holding the launch options inside the game's record.
pub open spec fn launch_options_key() -> Seq<char> {
    "LaunchOptions"@
}

/// The executable key path matching `vdf_keys`.
pub fn overwatch_keys() -> (r: Vec<String>)
    ensures
        r.deep_view() == vdf_keys(),
{
    let mut r: Vec<String> = Vec::new();
    r.push(String::from_str("UserLocalConfigStore"));
    r.push(String::from_str("Software"));
    r.push(String::from_str("Valve"));
    r.push(String::from_str("Steam"));
    r.push(String::from_str("apps"));
    r.push(String::from_str("2357570"));
    assert(r.deep_view() =~= vdf_keys());
    r
}

/// Where the launch options live in a document, at the specification
/// level.
pub ghost enum LaunchArgsSpot {
    /// The game's record is absent: a benign empty observation.
    NotInstalled,
    /// The launch options value occupies `[vs, ve)` (between its
    /// quotes).
    Existing { vs: int, ve: int },
    /// No launch options key: a fresh line goes in at position `at`.
    Insert { at: int },
    /// The document does not have the expected shape.
    Broken,
}

/// Number of characters skipped from the start of the quoted launch
/// options key to the first character of its value: the key itself, two
/// tabs, and the value's opening quote.
pub open spec fn value_offset() -> int {
    quoted(launch_options_key()).len() as int + 3
}

/// Where the launch options value sits in `s`, or how that fails.
pub open spec fn spec_launch_args_spot(s: Seq<char>) -> LaunchArgsSpot {
    match spec_locate(s, vdf_keys(), 0, 0, s.len() as int) {
        SpecLocated::Found { kpos: _, open, close } => match find_pat(
            s,
            quoted(launch_options_key()),
            open + 1,
            close,
        ) {
            Some(lp) => {
                let vs = lp + value_offset();
                if vs > close {
                    LaunchArgsSpot::Broken
                } else {
                    match find_char_from(s, '"', vs) {
                        Some(q) => if q < close {
                            LaunchArgsSpot::Existing { vs, ve: q }
                        } else {
                            LaunchArgsSpot::Broken
                        },
                        None => LaunchArgsSpot::Broken,
                    }
                }
            },
            None => LaunchArgsSpot::Insert { at: open + 2 },
        },
        SpecLocated::LastKeyAbsent => LaunchArgsSpot::NotInstalled,
        _ => LaunchArgsSpot::Broken,
    }
}

/// Build the message for a key that could not be processed.
fn key_error(prefix: &str, keys: &Vec<String>, index: usize) -> (r: Error)
    requires
        index < keys@.len(),
{
    let mut m = String::new();
    m.append(prefix);
    m.append(" [[");
    m.append(keys[index].as_str());
    m.append("]] key in the Steam config file");
    Error::Custom(m)
}

/// Find the launch options of the game's record in the given document
/// contents. Returns, in order: the current launch options value (absent
/// when the game's record itself is absent), the position where the
/// value starts, and the position where it ends (absent when a fresh
/// line must be inserted at the start position instead).
pub fn get_config_launch_args(contents: &str) -> (r: Result<
    (Option<String>, Option<usize>, Option<usize>),
    Error,
>)
    ensures
        match r {
            Ok((args, vs, ve)) => match spec_launch_args_spot(contents@) {
                LaunchArgsSpot::NotInstalled => args is None && vs is None && ve is None,
                LaunchArgsSpot::Existing { vs: s0, ve: e0 } => args matches Some(a) && a@
                    == contents@.subrange(s0, e0) && vs == Some(s0 as usize) && ve == Some(
                    e0 as usize,
                ),
                LaunchArgsSpot::Insert { at } => args matches Some(a) && a@.len() == 0 && vs
                    == Some(at as usize) && ve is None,
                LaunchArgsSpot::Broken => false,
            },
            Err(_) => spec_launch_args_spot(contents@) is Broken,
        },
{
    let keys = overwatch_keys();
    let n = contents.unicode_len();
    match locate_block(contents, &keys) {
        Located::Found { open, close } => {
            proof {
                lemma_scan_close_bounds(contents@, open as int + 1, 1, false);
                match spec_locate(contents@, vdf_keys(), 0, 0, contents@.len() as int) {
                    SpecLocated::Found { kpos: _, open: o2, close: c2 } => {
                        assert(open == o2 && close == c2);
                    },
                    _ => { assert(false); },
                }
            }
            assert(open < close < n);
            let lo = String::from_str("\"LaunchOptions\"");
            proof {
                reveal_strlit("\"LaunchOptions\"");
                reveal_strlit("\"");
                reveal_strlit("LaunchOptions");
                assert(lo@ =~= quoted(launch_options_key()));
            }
            match crate::locator::find_sub(contents, lo.as_str(), open + 1, close) {
                Some(lp) => {
                    proof {
                        lemma_find_pat_bounds(
                            contents@,
                            quoted(launch_options_key()),
                            open as int + 1,
                            close as int,
                        );
                    }
                    let vo = lo.as_str().unicode_len() + 3;
                    assert(vo == value_offset());
                    if close - lp < vo {
                        return Err(Error::Custom(String::from_str(
                            "Failed to read the launch options value in the Steam config file",
                        )));
                    }
                    let vs = lp + vo;
                    match crate::locator::find_char(contents, '"', vs) {
                        Some(q) => {
                            proof {
                                lemma_find_char_bounds(contents@, '"', vs as int);
                            }
                            if q < close {
                                let v = contents.substring_char(vs, q);
                                Ok((Some(v.to_owned()), Some(vs), Some(q)))
                            } else {
                                Err(Error::Custom(String::from_str(
                                    "Failed to read the launch options value in the Steam config file",
                                )))
                            }
                        },
                        None => Err(Error::Custom(String::from_str(
                            "Failed to read the launch options value in the Steam config file",
                        ))),
                    }
                },
                None => {
                    let empty = String::new();
                    Ok((Some(empty), Some(open + 2), None))
                },
            }
        },
        Located::LastKeyAbsent => Ok((None, None, None)),
        Located::InnerKeyAbsent { index } => Err(
            key_error("Failed to find the", &keys, index),
        ),
        Located::NoOpenBrace { index } => Err(
            key_error("Failed to find an opening brace for the", &keys, index),
        ),
        Located::NoCloseBrace { index } => Err(
            key_error("Failed to find the closing brace for the", &keys, index),
        ),
    }
}

/// The text standing before the value on a freshly inserted launch
/// options line.
pub open spec fn insert_prefix() -> Seq<char> {
    "\t\t\t\t\t\t\"LaunchOptions\"\t\t\""@
}

/// The text closing a freshly inserted launch options line.
pub open spec fn insert_suffix() -> Seq<char> {
    "\"\n"@
}

/// The full new file contents after applying `c` to the document `s`:
/// the existing value replaced in place, a fresh line inserted right
/// after the record's opening brace, the document unchanged when the
/// record is absent, or nothing when the document is broken.
pub open spec fn spec_new_contents(s: Seq<char>, c: FlagChange) -> Option<Option<Seq<char>>> {
    match spec_launch_args_spot(s) {
        LaunchArgsSpot::NotInstalled => Some(None),
        LaunchArgsSpot::Existing { vs, ve } => Some(
            Some(
                s.take(vs) + spec_apply_change(Some(s.subrange(vs, ve)), c) + s.skip(ve),
            ),
        ),
        LaunchArgsSpot::Insert { at } => Some(
            Some(
                s.take(at) + insert_prefix() + spec_apply_change(None, c) + insert_suffix()
                    + s.skip(at),
            ),
        ),
        LaunchArgsSpot::Broken => None,
    }
}

/// Build the new contents of one account's configuration file under the
/// flag change `c`: locate the record's launch options, regenerate the
/// value, and splice it back in, touching nothing else in the file.
/// `Ok(None)` means the game's record is absent and the file must not be
/// written at all.
pub fn set_config_launch_args(contents: &str, c: &FlagChange) -> (r: Result<Option<String>, Error>)
    ensures
        match r {
            Ok(out) => match spec_new_contents(contents@, *c) {
                Some(expect) => match (out, expect) {
                    (Some(o), Some(e)) => o@ == e,
                    (None, None) => true,
                    _ => false,
                },
                None => false,
            },
            Err(_) => spec_new_contents(contents@, *c) is None,
        },
{
    let n = contents.unicode_len();
    proof {
        lemma_spot_bounds(contents@);
    }
    match get_config_launch_args(contents)? {
        (Some(old_args), Some(vs), Some(ve)) => {
            assert(spec_launch_args_spot(contents@) matches LaunchArgsSpot::Existing {
                vs: a,
                ve: b,
            } && a == vs && b == ve);
            let new_args = apply_change(Some(old_args.as_str()), c);
            let mut out = String::new();
            out.append(contents.substring_char(0, vs));
            out.append(new_args.as_str());
            out.append(contents.substring_char(ve, n));
            proof {
                assert(out@ =~= contents@.take(vs as int) + spec_apply_change(
                    Some(contents@.subrange(vs as int, ve as int)),
                    *c,
                ) + contents@.skip(ve as int));
            }
            Ok(Some(out))
        },
        (Some(_), Some(at), None) => {
            assert(spec_launch_args_spot(contents@) matches LaunchArgsSpot::Insert { at: a } && a
                == at);
            let new_args = apply_change(None, c);
            let mut out = String::new();
            out.append(contents.substring_char(0, at));
            out.append("\t\t\t\t\t\t\"LaunchOptions\"\t\t\"");
            out.append(new_args.as_str());
            out.append("\"\n");
            out.append(contents.substring_char(at, n));
            proof {
                assert(out@ =~= contents@.take(at as int) + insert_prefix() + spec_apply_change(
                    None,
                    *c,
                ) + insert_suffix() + contents@.skip(at as int));
            }
            Ok(Some(out))
        },
        (None, _, _) => Ok(None),
        _ => {
            assert(false);
            Err(Error::Custom(String::new()))
        },
    }
}

/// Whether the first profile carrying this account id has the game
/// installed; nothing when no profile carries the id.
pub open spec fn profile_has_overwatch(ps: Seq<SteamProfile>, id: Seq<char>) -> Option<bool>
    decreases ps.len(),
{
    if ps.len() == 0 {
        None
    } else if ps[0].id@ == id {
        Some(ps[0].has_overwatch)
    } else {
        profile_has_overwatch(ps.drop_first(), id)
    }
}

/// The lookup skips a prefix of profiles carrying other ids.
proof fn lemma_profile_skip(ps: Seq<SteamProfile>, id: Seq<char>, i: int)
    requires
        0 <= i <= ps.len(),
        forall|k: int| 0 <= k < i ==> (#[trigger] ps[k]).id@ != id,
    ensures
        profile_has_overwatch(ps, id) == profile_has_overwatch(ps.skip(i), id),
    decreases i,
{
    if i == 0 {
        assert(ps.skip(0) =~= ps);
    } else {
        lemma_profile_skip(ps, id, i - 1);
        assert(ps.skip(i - 1)[0] == ps[i - 1]);
        assert(ps.skip(i - 1).drop_first() =~= ps.skip(i));
    }
}

/// Whether the account with this id has the game installed, according
/// to the extracted profiles. An absent profile list, or an id that no
/// profile carries, is an error.
pub fn is_overwatch_installed(profiles: &Option<Vec<SteamProfile>>, steam_id: &str) -> (r: Result<
    bool,
    Error,
>)
    ensures
        match r {
            Ok(b) => profiles matches Some(ps) && profile_has_overwatch(ps@, steam_id@) == Some(b),
            Err(_) => match profiles {
                Some(ps) => profile_has_overwatch(ps@, steam_id@) is None,
                None => true,
            },
        },
{
    let ps = match profiles {
        Some(ps) => ps,
        None => {
            return Err(
                Error::Custom(
                    String::from_str("Failed to find any accounts in your Steam userdata folder"),
                ),
            );
        },
    };
    let n = ps.len();
    let mut i: usize = 0;
    while i < n
        invariant
            n == ps@.len(),
            0 <= i <= n,
            profiles matches Some(pv) && pv@ == ps@,
            forall|k: int| 0 <= k < i ==> (#[trigger] ps@[k]).id@ != steam_id@,
        decreases n - i,
    {
        if crate::text::str_equal(ps[i].id.as_str(), steam_id) {
            proof {
                lemma_profile_skip(ps@, steam_id@, i as int);
                assert(ps@.skip(i as int)[0] == ps@[i as int]);
            }
            return Ok(ps[i].has_overwatch);
        }
        i = i + 1;
    }
    proof {
        lemma_profile_skip(ps@, steam_id@, n as int);
        assert(ps@.skip(n as int) =~= Seq::<SteamProfile>::empty());
    }
    let mut m = String::from_str("Failed to find a Steam account with id [[");
    m.append(steam_id);
    m.append("]]");
    Err(Error::Custom(m))
}

/// The positions a located launch options spot carries are positions in
/// the document.
pub proof fn lemma_spot_bounds(s: Seq<char>)
    ensures
        spec_launch_args_spot(s) matches LaunchArgsSpot::Existing { vs, ve } ==> 0 <= vs <= ve
            < s.len(),
        spec_launch_args_spot(s) matches LaunchArgsSpot::Insert { at } ==> 0 <= at <= s.len(),
{
    match spec_locate(s, vdf_keys(), 0, 0, s.len() as int) {
        SpecLocated::Found { kpos: _, open, close } => {
            lemma_locate_found_bounds(s, vdf_keys(), 0, 0, s.len() as int);
            match find_pat(s, quoted(launch_options_key()), open + 1, close) {
                Some(lp) => {
                    lemma_find_pat_bounds(s, quoted(launch_options_key()), open + 1, close);
                    let vs = lp + value_offset();
                    if vs <= close {
                        match find_char_from(s, '"', vs) {
                            Some(q) => {
                                lemma_find_char_bounds(s, '"', vs);
                            },
                            None => {},
                        }
                    }
                },
                None => {},
            }
        },
        _ => {},
    }
}

/// The key path down to the launcher's table of installed games.
pub open spec fn apps_keys() -> Seq<Seq<char>> {
    seq!["UserLocalConfigStore"@, "Software"@, "Valve"@, "Steam"@, "apps"@]
}

/// Whether the game's record occurs in the launcher's table of
/// installed games, at the specification level; nothing when the table
/// itself cannot be located.
pub open spec fn spec_overwatch_installed(s: Seq<char>) -> Option<bool> {
    match spec_locate(s, apps_keys(), 0, 0, s.len() as int) {
        SpecLocated::Found { kpos: _, open, close } => Some(
            find_pat(s, quoted("2357570"@), open + 1, close) is Some,
        ),
        _ => None,
    }
}

/// Whether the game's record occurs in this document's table of
/// installed games. Every key on the way to the table must be present:
/// a missing table is an error, an absent game record is a plain `false`.
pub fn get_overwatch_installed(contents: &str) -> (r: Result<bool, Error>)
    ensures
        match r {
            Ok(b) => spec_overwatch_installed(contents@) == Some(b),
            Err(_) => spec_overwatch_installed(contents@) is None,
        },
{
    let mut keys: Vec<String> = Vec::new();
    keys.push(String::from_str("UserLocalConfigStore"));
    keys.push(String::from_str("Software"));
    keys.push(String::from_str("Valve"));
    keys.push(String::from_str("Steam"));
    keys.push(String::from_str("apps"));
    assert(keys.deep_view() =~= apps_keys());
    match locate_block(contents, &keys) {
        Located::Found { open, close } => {
            proof {
                match spec_locate(contents@, apps_keys(), 0, 0, contents@.len() as int) {
                    SpecLocated::Found { kpos: _, open: o2, close: c2 } => {
                        assert(open == o2 && close == c2);
                    },
                    _ => { assert(false); },
                }
            }
            let pat = String::from_str("\"2357570\"");
            proof {
                reveal_strlit("\"2357570\"");
                reveal_strlit("\"");
                reveal_strlit("2357570");
                assert(pat@ =~= quoted("2357570"@));
            }
            match crate::locator::find_sub(contents, pat.as_str(), open + 1, close) {
                Some(_) => Ok(true),
                None => Ok(false),
            }
        },
        Located::LastKeyAbsent => Err(
            Error::Custom(
                String::from_str("Failed to find the [[apps]] key in the Steam config file"),
            ),
        ),
        Located::InnerKeyAbsent { index } => Err(
            key_error("Failed to find the", &keys, index),
        ),
        Located::NoOpenBrace { index } => Err(
            key_error("Failed to find an opening brace for the", &keys, index),
        ),
        Located::NoCloseBrace { index } => Err(
            key_error("Failed to find the closing brace for the", &keys, index),
        ),
    }
}

/// How one account stands after a batch operation: if its profile says
/// the game is installed, its file holds exactly what one committed
/// patch of its old contents produces; otherwise its file is untouched.
pub open spec fn account_state(
    v0: Volume,
    v: Volume,
    cs: Seq<SteamLocalconfig>,
    ps: Seq<SteamProfile>,
    c: FlagChange,
    i: int,
) -> bool {
    if profile_has_overwatch(ps, cs[i].id@) == Some(true) {
        v.has(cs[i].file@) && Some(v.contents_of(cs[i].file@)) == spec_patch_outcome(
            v0,
            cs[i].file@,
            c,
        )
    } else {
        agrees_on(v0, v, cs[i].file@)
    }
}

/// A path unrelated to every account file and every account backup.
pub open spec fn unrelated_path(cs: Seq<SteamLocalconfig>, q: Seq<char>) -> bool {
    forall|i: int|
        0 <= i < cs.len() ==> q != (#[trigger] cs[i].file@) && q != backup_name(cs[i].file@)
}

/// Distinct account files, none standing where another's backup goes.
pub open spec fn accounts_separate(v0: Volume, cs: Seq<SteamLocalconfig>) -> bool {
    &&& forall|i: int, j: int|
        0 <= i < cs.len() && 0 <= j < cs.len() && i != j ==> (#[trigger] cs[i].file@) != (
        #[trigger] cs[j].file@)
    &&& forall|i: int, j: int|
        0 <= i < cs.len() && 0 <= j < cs.len() ==> (#[trigger] cs[i].file@) != backup_name(
            (#[trigger] cs[j].file@),
        )
}

/// The backup name determines the path it was built from.
proof fn lemma_backup_injective(a: Seq<char>, b: Seq<char>)
    requires
        backup_name(a) == backup_name(b),
    ensures
        a == b,
{
    reveal_strlit(".backup");
    assert(backup_name(a).len() == a.len() + 7);
    assert(backup_name(b).len() == b.len() + 7);
    assert(a =~= b) by {
        assert(forall|k: int| 0 <= k < a.len() ==> a[k] == backup_name(a)[k]);
        assert(forall|k: int| 0 <= k < b.len() ==> b[k] == backup_name(b)[k]);
    }
}

/// What a patch produces depends only on what the volume holds at the
/// target path and its backup path.
proof fn lemma_outcome_agrees(v0: Volume, v: Volume, p: Seq<char>, c: FlagChange)
    requires
        agrees_on(v0, v, p),
        agrees_on(v0, v, backup_name(p)),
    ensures
        spec_patch_outcome(v0, p, c) == spec_patch_outcome(v, p, c),
{
}

/// Apply one flag change to every account file on which the game is
/// installed, each file as its own transaction in account order. There
/// is no cross-file atomicity: a failure commits the accounts already
/// patched and leaves the rest untouched — but no single file is ever
/// left half-written, and no staging file of this call remains behind.
pub fn set_launch_args(
    vol: &mut Volume,
    configs: &Vec<SteamLocalconfig>,
    profiles: &Option<Vec<SteamProfile>>,
    c: &FlagChange,
) -> (r: Result<(), Error>)
    requires
        old(vol).wf(),
        accounts_separate(*old(vol), configs@),
        forall|i: int| 0 <= i < configs@.len() ==> !old(vol).has(backup_name((#[trigger] configs@[i].file@))),
    ensures
        final(vol).wf(),
        configs@.len() == 0 ==> r is Err,
        forall|i: int|
            0 <= i < configs@.len() ==> !final(vol).has(
                backup_name((#[trigger] configs@[i].file@)),
            ),
        forall|q: Seq<char>|
            unrelated_path(configs@, q) ==> #[trigger] agrees_on(*old(vol), *final(vol), q),
        forall|i: int|
            0 <= i < configs@.len() ==> account_state(
                *old(vol),
                *final(vol),
                configs@,
                profiles->Some_0@,
                *c,
                i,
            ) || agrees_on(*old(vol), *final(vol), (#[trigger] configs@[i].file@)),
        r is Ok ==> profiles is Some && forall|i: int|
            0 <= i < configs@.len() ==> #[trigger] account_state(
                *old(vol),
                *final(vol),
                configs@,
                profiles->Some_0@,
                *c,
                i,
            ),
        r is Err ==> configs@.len() == 0 || profiles is None || exists|i: int|
            0 <= i < configs@.len() && (profile_has_overwatch(
                profiles->Some_0@,
                (#[trigger] configs@[i].id@),
            ) is None || (profile_has_overwatch(profiles->Some_0@, configs@[i].id@) == Some(true)
                && spec_patch_outcome(*old(vol), configs@[i].file@, *c) is None)),
{
    let ghost v0 = *old(vol);
    if configs.len() == 0 {
        return Err(
            Error::Custom(
                String::from_str("Failed to find any accounts in your Steam userdata folder"),
            ),
        );
    }
    let ghost ps = profiles->Some_0@;
    let n = configs.len();
    let mut i: usize = 0;
    while i < n
        invariant
            v0 == *old(vol),
            n == configs@.len(),
            vol.wf(),
            accounts_separate(v0, configs@),
            0 <= i <= n,
            i > 0 ==> profiles is Some,
            forall|j: int| 0 <= j < i ==> #[trigger] account_state(v0, *vol, configs@, ps, *c, j),
            forall|j: int|
                i <= j < n ==> agrees_on(v0, *vol, (#[trigger] configs@[j].file@)) && agrees_on(
                    v0,
                    *vol,
                    backup_name(configs@[j].file@),
                ),
            forall|j: int|
                0 <= j < n ==> !vol.has(backup_name((#[trigger] configs@[j].file@))),
            forall|q: Seq<char>|
                unrelated_path(configs@, q) ==> #[trigger] agrees_on(v0, *vol, q),
            ps == profiles->Some_0@,
            forall|j: int| 0 <= j < n ==> !v0.has(backup_name((#[trigger] configs@[j].file@))),
        decreases n - i,
    {
        let installed = match is_overwatch_installed(profiles, configs[i].id.as_str()) {
            Ok(b) => b,
            Err(e) => {
                proof {
                    assert forall|ii: int| 0 <= ii < n implies account_state(
                        v0,
                        *vol,
                        configs@,
                        ps,
                        *c,
                        ii,
                    ) || agrees_on(v0, *vol, (#[trigger] configs@[ii].file@)) by {
                        if ii < i {
                            assert(account_state(v0, *vol, configs@, ps, *c, ii));
                        } else {
                            assert(agrees_on(v0, *vol, configs@[ii].file@));
                        }
                    }
                }
                return Err(e);
            },
        };
        if installed {
            let ghost vi = *vol;
            let path = configs[i].file.as_str();
            proof {
                assert(agrees_on(v0, vi, path@));
                assert(agrees_on(v0, vi, backup_name(path@)));
                lemma_outcome_agrees(v0, vi, path@, *c);
            }
            match patch_account_file(vol, path, c) {
                Ok(_) => {
                    proof {
                        lemma_batch_step(v0, vi, *vol, configs@, ps, *c, i as int, n as int);
                    }
                },
                Err(e) => {
                    proof {
                        lemma_batch_step(v0, vi, *vol, configs@, ps, *c, i as int, n as int);
                        assert(agrees_on(v0, *vol, path@)) by {
                            assert(agrees_on(vi, *vol, path@));
                        }
                        assert forall|ii: int| 0 <= ii < n implies account_state(
                            v0,
                            *vol,
                            configs@,
                            ps,
                            *c,
                            ii,
                        ) || agrees_on(v0, *vol, (#[trigger] configs@[ii].file@)) by {
                            if ii < i {
                                assert(account_state(v0, *vol, configs@, ps, *c, ii));
                            } else if ii == i {
                                assert(agrees_on(v0, *vol, configs@[ii].file@));
                            } else {
                                assert(agrees_on(v0, *vol, configs@[ii].file@));
                            }
                        }
                        assert forall|ii: int| 0 <= ii < n implies !vol.has(
                            backup_name((#[trigger] configs@[ii].file@)),
                        ) by {}
                    }
                    return Err(e);
                },
            }
        }
        i = i + 1;
    }
    Ok(())
}

/// The observations arising from a list of per-account launch-argument
/// readings: an account whose record is absent abstains, one with a
/// reading contributes one observation, in account order.
pub open spec fn obs_list(files: Seq<Option<String>>) -> Seq<ObsV>
    decreases files.len(),
{
    if files.len() == 0 {
        Seq::empty()
    } else {
        obs_list(files.drop_last()) + (match files.last() {
            Some(s) => seq![spec_obs_of(s@)],
            None => Seq::empty(),
        })
    }
}

/// Recompute the shared state from the per-account launch-argument
/// readings (one entry per account; an absent reading means the game's
/// record is absent for that account, and the account abstains).
pub fn update_config(account_args: &Vec<Option<String>>) -> (r: SharedConfig)
    ensures
        reconciled(r, obs_list(account_args@)),
{
    let n = account_args.len();
    let mut obs: Vec<PlatformObservation> = Vec::new();
    let mut i: usize = 0;
    proof {
        assert(account_args@.take(0) =~= Seq::<Option<String>>::empty());
        assert(obs@.map_values(|o: PlatformObservation| obs_view(o)) =~= obs_list(
            account_args@.take(0),
        ));
    }
    while i < n
        invariant
            n == account_args@.len(),
            0 <= i <= n,
            obs@.map_values(|o: PlatformObservation| obs_view(o)) == obs_list(
                account_args@.take(i as int),
            ),
        decreases n - i,
    {
        let ghost prev = obs@;
        match &account_args[i] {
            Some(args) => {
                let o = make_observation(args.as_str());
                obs.push(o);
                proof {
                    assert(obs@.map_values(|o: PlatformObservation| obs_view(o)) =~= prev
                        .map_values(|o: PlatformObservation| obs_view(o)) + seq![
                        spec_obs_of(args@),
                    ]);
                }
            },
            None => {},
        }
        proof {
            assert(account_args@.take(i as int + 1).drop_last() =~= account_args@.take(i as int));
            assert(account_args@.take(i as int + 1).last() == account_args@[i as int]);
            assert(obs@.map_values(|o: PlatformObservation| obs_view(o)) =~= obs_list(
                account_args@.take(i as int + 1),
            ));
        }
        i = i + 1;
    }
    proof {
        assert(account_args@.take(n as int) =~= account_args@);
    }
    reconcile(&obs)
}

/// Whether any extracted profile has the game installed.
pub fn any_profile_has_overwatch(profiles: &Vec<SteamProfile>) -> (r: bool)
    ensures
        r == exists|i: int| 0 <= i < profiles@.len() && (#[trigger] profiles@[i]).has_overwatch,
{
    let n = profiles.len();
    let mut i: usize = 0;
    while i < n
        invariant
            n == profiles@.len(),
            0 <= i <= n,
            forall|k: int| 0 <= k < i ==> !(#[trigger] profiles@[k]).has_overwatch,
        decreases n - i,
    {
        if profiles[i].has_overwatch {
            return true;
        }
        i = i + 1;
    }
    false
}

/// The flag changes a reset must apply, in order: clear the background
/// if one is set, then disable the console if it is enabled; nothing
/// when the platform is disabled.
pub open spec fn spec_reset_changes(enabled: bool, bg_set: bool, console_on: bool) -> Seq<
    FlagChange,
> {
    if !enabled {
        Seq::empty()
    } else {
        (if bg_set {
            seq![FlagChange::Background(None)]
        } else {
            Seq::empty()
        }) + (if console_on {
            seq![FlagChange::Console(false)]
        } else {
            Seq::empty()
        })
    }
}

/// The flag changes that reset this platform's managed state: the
/// decisions of a reset, to be applied through `set_launch_args` one by
/// one.
pub fn reset_config(enabled: bool, shared: &SharedConfig) -> (r: Vec<FlagChange>)
    ensures
        r@ == spec_reset_changes(
            enabled,
            shared.background.current is Some,
            shared.additional.console_enabled,
        ),
{
    let mut r: Vec<FlagChange> = Vec::new();
    if enabled {
        if shared.background.current.is_some() {
            r.push(FlagChange::Background(None));
        }
        if shared.additional.console_enabled {
            r.push(FlagChange::Console(false));
        }
    }
    assert(r@ =~= spec_reset_changes(
        enabled,
        shared.background.current is Some,
        shared.additional.console_enabled,
    ));
    r
}

/// The indentation in front of a quoted profile field key.
pub open spec fn field_indent() -> Seq<char> {
    "\t\t\t"@
}

/// The value of the quoted key `key` inside a profile object: the text
/// between the next pair of quotes after the key's occurrence (the key
/// is matched with three leading tabs, as it is indented in the file).
pub open spec fn spec_extract_value(s: Seq<char>, key: Seq<char>) -> Option<Seq<char>> {
    let pat = field_indent() + quoted(key);
    match find_pat(s, pat, 0, s.len() as int) {
        None => None,
        Some(p) => {
            let after = p + pat.len() as int;
            match find_char_from(s, '"', after) {
                None => None,
                Some(q1) => match find_char_from(s, '"', q1 + 1) {
                    None => None,
                    Some(q2) => Some(s.subrange(q1 + 1, q2)),
                },
            }
        },
    }
}

/// Extract the value of the quoted key `key` from a profile object.
pub fn extract_value(object_str: &str, key: &str) -> (r: Option<String>)
    ensures
        match r {
            Some(v) => spec_extract_value(object_str@, key@) == Some(v@),
            None => spec_extract_value(object_str@, key@) is None,
        },
{
    let n = object_str.unicode_len();
    let mut pat = String::from_str("\t\t\t\"");
    pat.append(key);
    pat.append("\"");
    proof {
        reveal_strlit("\t\t\t\"");
        reveal_strlit("\t\t\t");
        reveal_strlit("\"");
        assert(pat@ =~= field_indent() + quoted(key@));
    }
    let p = match crate::locator::find_sub(object_str, pat.as_str(), 0, n) {
        Some(p) => p,
        None => {
            return None;
        },
    };
    proof {
        lemma_find_pat_bounds(object_str@, pat@, 0, n as int);
    }
    let after = p + pat.as_str().unicode_len();
    let q1 = match crate::locator::find_char(object_str, '"', after) {
        Some(q1) => q1,
        None => {
            return None;
        },
    };
    proof {
        lemma_find_char_bounds(object_str@, '"', after as int);
    }
    let q2 = match crate::locator::find_char(object_str, '"', q1 + 1) {
        Some(q2) => q2,
        None => {
            return None;
        },
    };
    proof {
        lemma_find_char_bounds(object_str@, '"', q1 as int + 1);
    }
    Some(object_str.substring_char(q1 + 1, q2).to_owned())
}

/// The first entry of the profile's name history: the value paired with
/// the key `0` inside the `NameHistory` block.
pub open spec fn spec_name_history(s: Seq<char>) -> Option<Seq<char>> {
    let pat = field_indent() + quoted("NameHistory"@);
    match find_pat(s, pat, 0, s.len() as int) {
        None => None,
        Some(p) => match find_char_from(s, '{', p + pat.len() as int) {
            None => None,
            Some(b) => match find_pat(s, quoted("0"@), b + 1, s.len() as int) {
                None => None,
                Some(z) => match find_char_from(s, '"', z + 3) {
                    None => None,
                    Some(q1) => match find_char_from(s, '"', q1 + 1) {
                        None => None,
                        Some(q2) => Some(s.subrange(q1 + 1, q2)),
                    },
                },
            },
        },
    }
}

/// Extract the most recent entry of the profile's name history.
pub fn extract_name_history(object_str: &str) -> (r: Option<String>)
    ensures
        match r {
            Some(v) => spec_name_history(object_str@) == Some(v@),
            None => spec_name_history(object_str@) is None,
        },
{
    let n = object_str.unicode_len();
    let pat = "\t\t\t\"NameHistory\"";
    proof {
        reveal_strlit("\t\t\t\"NameHistory\"");
        reveal_strlit("\t\t\t");
        reveal_strlit("\"");
        reveal_strlit("NameHistory");
        assert(pat@ =~= field_indent() + quoted("NameHistory"@));
    }
    let p = match crate::locator::find_sub(object_str, pat, 0, n) {
        Some(p) => p,
        None => {
            return None;
        },
    };
    proof {
        lemma_find_pat_bounds(object_str@, pat@, 0, n as int);
    }
    let b = match crate::locator::find_char(object_str, '{', p + pat.unicode_len()) {
        Some(b) => b,
        None => {
            return None;
        },
    };
    proof {
        lemma_find_char_bounds(object_str@, '{', p as int + pat@.len());
    }
    let zpat = "\"0\"";
    proof {
        reveal_strlit("\"0\"");
        reveal_strlit("0");
        assert(zpat@ =~= quoted("0"@));
    }
    let z = match crate::locator::find_sub(object_str, zpat, b + 1, n) {
        Some(z) => z,
        None => {
            return None;
        },
    };
    proof {
        lemma_find_pat_bounds(object_str@, zpat@, b as int + 1, n as int);
        assert(zpat@.len() == 3);
    }
    let q1 = match crate::locator::find_char(object_str, '"', z + 3) {
        Some(q1) => q1,
        None => {
            return None;
        },
    };
    proof {
        lemma_find_char_bounds(object_str@, '"', z as int + 3);
    }
    let q2 = match crate::locator::find_char(object_str, '"', q1 + 1) {
        Some(q2) => q2,
        None => {
            return None;
        },
    };
    proof {
        lemma_find_char_bounds(object_str@, '"', q1 as int + 1);
    }
    Some(object_str.substring_char(q1 + 1, q2).to_owned())
}

/// The owner-relative location of the account's friends object: the
/// braces of the block keyed by the account id inside the `friends`
/// section.
pub open spec fn spec_user_object(s: Seq<char>, id: Seq<char>) -> Option<(int, int)> {
    match find_pat(s, quoted("UserLocalConfigStore"@), 0, s.len() as int) {
        None => None,
        Some(o) => match find_pat(s, quoted("friends"@), o, s.len() as int) {
            None => None,
            Some(m) => match find_pat(s, quoted(id), m, s.len() as int) {
                None => None,
                Some(ip) => match find_char_from(s, '{', ip) {
                    None => None,
                    Some(open) => match scan_close(s, open + 1, 1, false) {
                        None => None,
                        Some(close) => Some((open, close)),
                    },
                },
            },
        },
    }
}

/// The profile name: the most recent name-history entry, or the plain
/// `name` value when the history is absent or empty; nothing when both
/// are absent or empty.
pub open spec fn spec_profile_name(obj: Seq<char>) -> Option<Seq<char>> {
    let nh = spec_name_history(obj);
    let nm = if nh is Some && nh->Some_0.len() > 0 {
        nh
    } else {
        spec_extract_value(obj, "name"@)
    };
    if nm is Some && nm->Some_0.len() > 0 {
        nm
    } else {
        None
    }
}

/// The base of the avatar image address.
pub open spec fn avatar_prefix() -> Seq<char> {
    "https://avatars.akamai.steamstatic.com/"@
}

/// The avatar image address, when the profile names an avatar.
pub open spec fn spec_profile_avatar(obj: Seq<char>) -> Option<Seq<char>> {
    match spec_extract_value(obj, "avatar"@) {
        Some(a) => Some(avatar_prefix() + a + "_full.jpg"@),
        None => None,
    }
}

/// Extract one account's profile from its configuration file contents:
/// its display name, avatar address, and whether the game is installed.
pub fn extract_steam_user_info(contents: &str, id: &str) -> (r: Result<SteamProfile, Error>)
    ensures
        r matches Ok(p) ==> {
            &&& spec_user_object(contents@, id@) matches Some((open, close))
                && (match spec_profile_name(contents@.subrange(open, close + 1)) {
                Some(nm) => p.name@ == nm,
                None => false,
            })
                && (match spec_profile_avatar(contents@.subrange(open, close + 1)) {
                Some(av) => p.avatar matches Some(a) && a@ == av,
                None => p.avatar is None,
            })
            &&& p.id@ == id@
            &&& spec_overwatch_installed(contents@) == Some(p.has_overwatch)
        },
        r is Err ==> spec_user_object(contents@, id@) is None || (spec_user_object(contents@, id@)
            matches Some((open, close)) && (spec_profile_name(contents@.subrange(open, close + 1))
            is None || spec_overwatch_installed(contents@) is None)),
{
    let n = contents.unicode_len();
    let pat1 = "\"UserLocalConfigStore\"";
    let pat2 = "\"friends\"";
    proof {
        reveal_strlit("\"UserLocalConfigStore\"");
        reveal_strlit("UserLocalConfigStore");
        reveal_strlit("\"friends\"");
        reveal_strlit("friends");
        reveal_strlit("\"");
        assert(pat1@ =~= quoted("UserLocalConfigStore"@));
        assert(pat2@ =~= quoted("friends"@));
    }
    let mut idpat = String::from_str("\"");
    idpat.append(id);
    idpat.append("\"");
    proof {
        assert(idpat@ =~= quoted(id@));
    }
    let not_found = "Reached the end of file without finding target";
    let o = match crate::locator::find_sub(contents, pat1, 0, n) {
        Some(o) => o,
        None => {
            return Err(Error::Custom(String::from_str(not_found)));
        },
    };
    proof {
        lemma_find_pat_bounds(contents@, pat1@, 0, n as int);
    }
    let m = match crate::locator::find_sub(contents, pat2, o, n) {
        Some(m) => m,
        None => {
            return Err(Error::Custom(String::from_str(not_found)));
        },
    };
    proof {
        lemma_find_pat_bounds(contents@, pat2@, o as int, n as int);
    }
    let ip = match crate::locator::find_sub(contents, idpat.as_str(), m, n) {
        Some(ip) => ip,
        None => {
            return Err(Error::Custom(String::from_str(not_found)));
        },
    };
    proof {
        lemma_find_pat_bounds(contents@, idpat@, m as int, n as int);
    }
    let open = match crate::locator::find_char(contents, '{', ip) {
        Some(open) => open,
        None => {
            return Err(Error::Custom(String::from_str(not_found)));
        },
    };
    proof {
        lemma_find_char_bounds(contents@, '{', ip as int);
    }
    let close = match crate::locator::scan_for_close(contents, open + 1) {
        Some(close) => close,
        None => {
            return Err(Error::Custom(String::from_str(not_found)));
        },
    };
    proof {
        lemma_scan_close_bounds(contents@, open as int + 1, 1, false);
    }
    let object = contents.substring_char(open, close + 1);
    assert(object@ == contents@.subrange(open as int, close as int + 1));

    let avatar: Option<String> = match extract_value(object, "avatar") {
        Some(a) => {
            let mut url = String::from_str("https://avatars.akamai.steamstatic.com/");
            url.append(a.as_str());
            url.append("_full.jpg");
            proof {
                assert(url@ =~= avatar_prefix() + a@ + "_full.jpg"@);
            }
            Some(url)
        },
        None => None,
    };

    let mut name: Option<String> = extract_name_history(object);
    let use_plain = match &name {
        Some(nm) => nm.as_str().unicode_len() == 0,
        None => true,
    };
    if use_plain {
        name = extract_value(object, "name");
    }
    let name = match name {
        Some(nm) => {
            if nm.as_str().unicode_len() == 0 {
                return Err(Error::Custom(String::from_str("Failed to find profile name")));
            }
            nm
        },
        None => {
            return Err(Error::Custom(String::from_str("Failed to find profile name")));
        },
    };

    let has_overwatch = match get_overwatch_installed(contents) {
        Ok(b) => b,
        Err(e) => {
            return Err(e);
        },
    };

    Ok(SteamProfile { id: String::from_str(id), name, avatar, has_overwatch })
}

/// What a successfully extracted profile holds, given the file contents
/// and the account id.
pub open spec fn profile_ok(p: SteamProfile, s: Seq<char>, id: Seq<char>) -> bool {
    &&& p.id@ == id
    &&& spec_user_object(s, id) matches Some((open, close)) && (match spec_profile_name(
        s.subrange(open, close + 1),
    ) {
        Some(nm) => p.name@ == nm,
        None => false,
    }) && (match spec_profile_avatar(s.subrange(open, close + 1)) {
        Some(av) => p.avatar matches Some(a) && a@ == av,
        None => p.avatar is None,
    })
    &&& spec_overwatch_installed(s) == Some(p.has_overwatch)
}

/// Whether one account's profile extraction succeeds on its contents.
pub open spec fn spec_extract_ok(s: Seq<char>, id: Seq<char>) -> bool {
    &&& spec_user_object(s, id) matches Some((open, close)) && spec_profile_name(
        s.subrange(open, close + 1),
    ) is Some
    &&& spec_overwatch_installed(s) is Some
}

/// Extract the profiles of all discovered accounts. `files[i]` holds
/// the contents of `configs[i]`'s file, or nothing when the file has
/// disappeared. Every account must yield a profile: a vanished file or
/// a failing extraction fails the whole call.
pub fn get_profiles(configs: &Vec<SteamLocalconfig>, files: &Vec<Option<String>>) -> (r: Result<
    Vec<SteamProfile>,
    Error,
>)
    requires
        files@.len() == configs@.len(),
    ensures
        r matches Ok(ps) ==> {
            &&& ps@.len() == configs@.len()
            &&& forall|i: int|
                0 <= i < configs@.len() ==> ((#[trigger] files@[i]) matches Some(f) && profile_ok(
                    ps@[i],
                    f@,
                    configs@[i].id@,
                ))
        },
        r is Err ==> exists|i: int|
            0 <= i < configs@.len() && ((#[trigger] files@[i]) is None || !spec_extract_ok(
                files@[i]->Some_0@,
                configs@[i].id@,
            )),
{
    let n = configs.len();
    let mut profiles: Vec<SteamProfile> = Vec::new();
    let mut missing = false;
    let mut i: usize = 0;
    while i < n
        invariant
            n == configs@.len(),
            n == files@.len(),
            0 <= i <= n,
            !missing ==> profiles@.len() == i && forall|k: int|
                0 <= k < i ==> ((#[trigger] files@[k]) matches Some(f) && profile_ok(
                    profiles@[k],
                    f@,
                    configs@[k].id@,
                )),
            missing ==> exists|k: int| 0 <= k < i && (#[trigger] files@[k]) is None,
        decreases n - i,
    {
        match &files[i] {
            None => {
                missing = true;
            },
            Some(contents) => {
                match extract_steam_user_info(contents.as_str(), configs[i].id.as_str()) {
                    Ok(p) => {
                        profiles.push(p);
                    },
                    Err(e) => {
                        assert(!spec_extract_ok(files@[i as int]->Some_0@, configs@[i as int].id@));
                        let mut m = String::from_str("");
                        m.append(e.message().as_str());
                        m.append(" while reading config file for Steam account [[");
                        m.append(configs[i].id.as_str());
                        m.append("]]");
                        return Err(Error::Custom(m));
                    },
                }
            },
        }
        i = i + 1;
    }
    if missing {
        return Err(
            Error::Custom(
                String::from_str("Failed to find all accounts in your Steam userdata folder"),
            ),
        );
    }
    Ok(profiles)
}

/// After patching account `i`'s file, every other account file and
/// backup, and every unrelated path, reads as it did before the patch.
proof fn lemma_batch_step(
    v0: Volume,
    vi: Volume,
    v2: Volume,
    cs: Seq<SteamLocalconfig>,
    ps: Seq<SteamProfile>,
    c: FlagChange,
    i: int,
    n: int,
)
    requires
        n == cs.len(),
        0 <= i < n,
        accounts_separate(v0, cs),
        forall|q: Seq<char>|
            q != cs[i].file@ && q != backup_name(cs[i].file@) ==> agrees_on(vi, v2, q),
        forall|j: int| 0 <= j < i ==> #[trigger] account_state(v0, vi, cs, ps, c, j),
        forall|j: int|
            i <= j < n ==> agrees_on(v0, vi, (#[trigger] cs[j].file@)) && agrees_on(
                v0,
                vi,
                backup_name(cs[j].file@),
            ),
        forall|j: int| 0 <= j < n ==> !vi.has(backup_name((#[trigger] cs[j].file@))),
        !vi.has(backup_name(cs[i].file@)) ==> !v2.has(backup_name(cs[i].file@)),
        forall|q: Seq<char>| unrelated_path(cs, q) ==> #[trigger] agrees_on(v0, vi, q),
    ensures
        forall|j: int| 0 <= j < i ==> #[trigger] account_state(v0, v2, cs, ps, c, j),
        forall|j: int|
            i + 1 <= j < n ==> agrees_on(v0, v2, (#[trigger] cs[j].file@)) && agrees_on(
                v0,
                v2,
                backup_name(cs[j].file@),
            ),
        forall|j: int| 0 <= j < n && j != i ==> !v2.has(backup_name((#[trigger] cs[j].file@))),
        !v2.has(backup_name(cs[i].file@)),
        forall|q: Seq<char>| unrelated_path(cs, q) ==> #[trigger] agrees_on(v0, v2, q),
{
    let p = cs[i].file@;
    let bp = backup_name(p);
    assert forall|j: int| 0 <= j < i implies #[trigger] account_state(v0, v2, cs, ps, c, j) by {
        assert(cs[j].file@ != p);
        assert(cs[j].file@ != bp);
        assert(agrees_on(vi, v2, cs[j].file@));
        assert(account_state(v0, vi, cs, ps, c, j));
    }
    assert forall|j: int| i + 1 <= j < n implies agrees_on(v0, v2, (#[trigger] cs[j].file@))
        && agrees_on(v0, v2, backup_name(cs[j].file@)) by {
        assert(cs[j].file@ != p);
        assert(cs[j].file@ != bp);
        assert(backup_name(cs[j].file@) != p);
        if backup_name(cs[j].file@) == bp {
            lemma_backup_injective(cs[j].file@, p);
        }
        assert(agrees_on(vi, v2, cs[j].file@));
        assert(agrees_on(vi, v2, backup_name(cs[j].file@)));
        assert(agrees_on(v0, vi, cs[j].file@));
        assert(agrees_on(v0, vi, backup_name(cs[j].file@)));
    }
    assert forall|j: int| 0 <= j < n && j != i implies !v2.has(
        backup_name((#[trigger] cs[j].file@)),
    ) by {
        assert(backup_name(cs[j].file@) != p);
        if backup_name(cs[j].file@) == bp {
            lemma_backup_injective(cs[j].file@, p);
        }
        assert(agrees_on(vi, v2, backup_name(cs[j].file@)));
        assert(!vi.has(backup_name(cs[j].file@)));
    }
    assert forall|q: Seq<char>| unrelated_path(cs, q) implies #[trigger] agrees_on(
        v0,
        v2,
        q,
    ) by {
        assert(q != p);
        assert(q != bp);
        assert(agrees_on(v0, vi, q));
        assert(agrees_on(vi, v2, q));
    }
}

} // verus!
