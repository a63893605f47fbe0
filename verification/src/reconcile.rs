//! The shared-state reconciler: merge per-platform observations of the
//! current background and debug flag into one aggregate value. The
//! first recognized background seeds the aggregate; a second, different
//! recognized background is a conflict that clears it for the rest of
//! the pass; an unrecognized background seen before any recognized one
//! marks the aggregate outdated. The debug flag is the logical AND of
//! every observation's flag.

use vstd::prelude::*;
use vstd::string::*;

use crate::args::{spec_get_background, get_background, get_console_enabled, console_arg};
use crate::backgrounds::{find_background_by_id, is_recognized};
use crate::config::{AdditionalConfig, BackgroundConfig, SharedConfig};
use crate::text::{str_equal, tokens_of};

verus! {

/// One platform's (or one account's) read-only snapshot of the managed
/// launch-argument state.
pub struct PlatformObservation {
    /// The background id carried by the launch arguments, if any.
    pub background_id: Option<String>,
    /// Whether that id is foreign to the catalog.
    pub background_is_unrecognized: bool,
    /// Whether the debug console token is present.
    pub debug_flag: bool,
}

/// The specification-level view of an observation.
pub ghost struct ObsV {
    pub bg: Option<Seq<char>>,
    pub unrecognized: bool,
    pub debug: bool,
}

/// The view of an executable observation.
pub open spec fn obs_view(o: PlatformObservation) -> ObsV {
    ObsV {
        bg: match o.background_id {
            Some(s) => Some(s@),
            None => None,
        },
        unrecognized: o.background_is_unrecognized,
        debug: o.debug_flag,
    }
}

/// An observation carrying a background the catalog knows.
pub open spec fn obs_recognized(o: ObsV) -> bool {
    o.bg is Some && !o.unrecognized
}

/// An observation carrying a background foreign to the catalog.
pub open spec fn obs_unrecognized(o: ObsV) -> bool {
    o.bg is Some && o.unrecognized
}

/// The background part of the aggregate while a pass is running.
pub ghost struct ReconcileState {
    pub current: Option<Seq<char>>,
    pub outdated: bool,
    pub conflict: bool,
}

/// The state a pass starts from.
pub open spec fn init_state() -> ReconcileState {
    ReconcileState { current: None, outdated: false, conflict: false }
}

/// One reconciliation step. A detected conflict is terminal: later
/// observations change nothing. A recognized background seeds the
/// aggregate (clearing any earlier outdated mark) or, when it differs
/// from the seeded one, clears the aggregate and marks the conflict. An
/// unrecognized background marks the aggregate outdated while nothing
/// is seeded.
pub open spec fn step_bg(st: ReconcileState, o: ObsV) -> ReconcileState {
    if st.conflict {
        st
    } else if obs_recognized(o) {
        match st.current {
            Some(cur) => if o.bg->Some_0 != cur {
                ReconcileState { current: None, outdated: false, conflict: true }
            } else {
                st
            },
            None => ReconcileState { current: o.bg, outdated: false, conflict: false },
        }
    } else if obs_unrecognized(o) {
        if st.current is None {
            ReconcileState { current: st.current, outdated: true, conflict: st.conflict }
        } else {
            st
        }
    } else {
        st
    }
}

/// Fold the background rule over the observations, in order.
pub open spec fn fold_bg(obs: Seq<ObsV>, st: ReconcileState) -> ReconcileState
    decreases obs.len(),
{
    if obs.len() == 0 {
        st
    } else {
        fold_bg(obs.drop_first(), step_bg(st, obs[0]))
    }
}

/// The reconciled debug flag: every observation agrees it is on, and
/// there is at least one observation.
pub open spec fn spec_debug(obs: Seq<ObsV>) -> bool {
    obs.len() > 0 && (forall|i: int| 0 <= i < obs.len() ==> (#[trigger] obs[i]).debug)
}

/// The reconciled background state.
pub open spec fn spec_reconcile_bg(obs: Seq<ObsV>) -> ReconcileState {
    fold_bg(obs, init_state())
}

/// How a shared state reflects a reconciliation result.
pub open spec fn reconciled(r: SharedConfig, obs: Seq<ObsV>) -> bool {
    &&& (match r.background.current {
        Some(s) => Some(s@) == spec_reconcile_bg(obs).current,
        None => spec_reconcile_bg(obs).current is None,
    })
    &&& r.background.is_outdated == spec_reconcile_bg(obs).outdated
    &&& r.background.custom is None
    &&& r.additional.console_enabled == spec_debug(obs)
}

/// Law: the aggregate never carries a background and the outdated mark
/// at the same time — a seeded background always clears the mark, and
/// the mark is only ever set while nothing is seeded.
pub proof fn lemma_reconcile_invariant(obs: Seq<ObsV>)
    ensures
        spec_reconcile_bg(obs).current is Some ==> !spec_reconcile_bg(obs).outdated,
{
    lemma_fold_invariant(obs, init_state());
}

proof fn lemma_fold_invariant(obs: Seq<ObsV>, st: ReconcileState)
    requires
        st.current is Some ==> !st.outdated,
    ensures
        fold_bg(obs, st).current is Some ==> !fold_bg(obs, st).outdated,
    decreases obs.len(),
{
    if obs.len() > 0 {
        lemma_fold_invariant(obs.drop_first(), step_bg(st, obs[0]));
    }
}

/// Law: a conflict is terminal. Once two different recognized
/// backgrounds have been seen, the aggregate background stays cleared,
/// whatever observations follow.
pub proof fn lemma_conflict_terminal(obs: Seq<ObsV>, st: ReconcileState)
    requires
        st.conflict,
        st.current is None,
        !st.outdated,
    ensures
        fold_bg(obs, st) == st,
    decreases obs.len(),
{
    if obs.len() > 0 {
        lemma_conflict_terminal(obs.drop_first(), st);
    }
}

/// Merge the observations into one shared state.
pub fn reconcile(observations: &Vec<PlatformObservation>) -> (r: SharedConfig)
    ensures
        reconciled(r, observations@.map_values(|o: PlatformObservation| obs_view(o))),
{
    let ghost dv = observations@.map_values(|o: PlatformObservation| obs_view(o));
    let n = observations.len();
    let mut current: Option<String> = None;
    let mut outdated = false;
    let mut conflict = false;
    let mut all_debug = true;
    let mut i: usize = 0;
    proof {
        assert(dv.skip(0) =~= dv);
    }
    while i < n
        invariant
            n == dv.len(),
            dv == observations@.map_values(|o: PlatformObservation| obs_view(o)),
            0 <= i <= n,
            fold_bg(dv, init_state()) == fold_bg(
                dv.skip(i as int),
                ReconcileState {
                    current: match current {
                        Some(ref s) => Some(s@),
                        None => None,
                    },
                    outdated,
                    conflict,
                },
            ),
            current is Some ==> !outdated,
            conflict ==> current is None && !outdated,
            all_debug == (forall|k: int| 0 <= k < i ==> (#[trigger] dv[k]).debug),
            forall|k: int| 0 <= k < n ==> dv[k] == obs_view(observations@[k]),
        decreases n - i,
    {
        let o = &observations[i];
        let ghost st = ReconcileState {
            current: match current {
                Some(ref s) => Some(s@),
                None => None,
            },
            outdated,
            conflict,
        };
        proof {
            assert(dv.skip(i as int)[0] == dv[i as int]);
            assert(dv.skip(i as int).drop_first() =~= dv.skip(i as int + 1));
        }
        let recognized = o.background_id.is_some() && !o.background_is_unrecognized;
        let unrecognized = o.background_id.is_some() && o.background_is_unrecognized;
        if !conflict {
            if recognized {
                match (&o.background_id, &current) {
                    (Some(idv), Some(cur)) => {
                        if !str_equal(cur.as_str(), idv.as_str()) {
                            current = None;
                            outdated = false;
                            conflict = true;
                        }
                    },
                    (Some(idv), None) => {
                        current = Some(idv.clone());
                        outdated = false;
                    },
                    (None, _) => {},
                }
            } else if unrecognized {
                if current.is_none() {
                    outdated = true;
                }
            }
        }
        proof {
            assert(ReconcileState {
                current: match current {
                    Some(ref s) => Some(s@),
                    None => None,
                },
                outdated,
                conflict,
            } == step_bg(st, dv[i as int]));
        }
        if !o.debug_flag {
            all_debug = false;
        }
        i = i + 1;
    }
    proof {
        assert(dv.skip(n as int) =~= Seq::<ObsV>::empty());
    }
    let console = n > 0 && all_debug;
    SharedConfig {
        background: BackgroundConfig { current, is_outdated: outdated, custom: None },
        additional: AdditionalConfig { console_enabled: console },
    }
}

/// Whether two optional strings hold the same text.
pub fn opt_str_eq(a: &Option<String>, b: &Option<String>) -> (r: bool)
    ensures
        r == match (a, b) {
            (Some(x), Some(y)) => x@ == y@,
            (None, None) => true,
            _ => false,
        },
{
    match (a, b) {
        (Some(x), Some(y)) => str_equal(x.as_str(), y.as_str()),
        (None, None) => true,
        _ => false,
    }
}

/// Merge the two platforms' freshly recomputed shared states into the
/// aggregate: the background survives only when both agree, the
/// outdated mark when either raises it, and the console flag when both
/// have it on. With one platform absent its state passes through; with
/// none, the aggregate is neutral.
pub fn merge_shared_configs(bn: Option<&SharedConfig>, st: Option<&SharedConfig>) -> (r:
    SharedConfig)
    ensures
        r.background.custom is None,
        match (bn, st) {
            (Some(b), Some(s)) => {
                &&& (if (match (&b.background.current, &s.background.current) {
                    (Some(x), Some(y)) => x@ == y@,
                    (None, None) => true,
                    _ => false,
                }) {
                    match (&r.background.current, &b.background.current) {
                        (Some(x), Some(y)) => x@ == y@,
                        (None, None) => true,
                        _ => false,
                    }
                } else {
                    r.background.current is None
                })
                &&& r.background.is_outdated == (b.background.is_outdated
                    || s.background.is_outdated)
                &&& r.additional.console_enabled == (b.additional.console_enabled
                    && s.additional.console_enabled)
            },
            (Some(b), None) => {
                &&& (match (&r.background.current, &b.background.current) {
                    (Some(x), Some(y)) => x@ == y@,
                    (None, None) => true,
                    _ => false,
                })
                &&& r.background.is_outdated == b.background.is_outdated
                &&& r.additional.console_enabled == b.additional.console_enabled
            },
            (None, Some(s)) => {
                &&& (match (&r.background.current, &s.background.current) {
                    (Some(x), Some(y)) => x@ == y@,
                    (None, None) => true,
                    _ => false,
                })
                &&& r.background.is_outdated == s.background.is_outdated
                &&& r.additional.console_enabled == s.additional.console_enabled
            },
            (None, None) => {
                &&& r.background.current is None
                &&& !r.background.is_outdated
                &&& !r.additional.console_enabled
            },
        },
{
    match (bn, st) {
        (Some(b), Some(s)) => {
            let current = if opt_str_eq(&b.background.current, &s.background.current) {
                match &b.background.current {
                    Some(x) => Some(x.clone()),
                    None => None,
                }
            } else {
                None
            };
            SharedConfig {
                background: BackgroundConfig {
                    current,
                    is_outdated: b.background.is_outdated || s.background.is_outdated,
                    custom: None,
                },
                additional: AdditionalConfig {
                    console_enabled: b.additional.console_enabled && s.additional.console_enabled,
                },
            }
        },
        (Some(b), None) => SharedConfig {
            background: BackgroundConfig {
                current: match &b.background.current {
                    Some(x) => Some(x.clone()),
                    None => None,
                },
                is_outdated: b.background.is_outdated,
                custom: None,
            },
            additional: AdditionalConfig { console_enabled: b.additional.console_enabled },
        },
        (None, Some(s)) => SharedConfig {
            background: BackgroundConfig {
                current: match &s.background.current {
                    Some(x) => Some(x.clone()),
                    None => None,
                },
                is_outdated: s.background.is_outdated,
                custom: None,
            },
            additional: AdditionalConfig { console_enabled: s.additional.console_enabled },
        },
        (None, None) => SharedConfig {
            background: BackgroundConfig { current: None, is_outdated: false, custom: None },
            additional: AdditionalConfig { console_enabled: false },
        },
    }
}

/// Keep a custom background choice only while it matches the current
/// aggregate background.
pub fn resolve_custom(custom: Option<String>, current: &Option<String>) -> (r: Option<String>)
    ensures
        match r {
            Some(c) => (custom matches Some(c0) && c@ == c0@) && (current matches Some(cur) && cur@
                == c@),
            None => custom is None || current is None || custom->Some_0@ != current->Some_0@,
        },
{
    match custom {
        Some(c) => match current {
            Some(cur) => {
                if str_equal(cur.as_str(), c.as_str()) {
                    Some(c)
                } else {
                    None
                }
            },
            None => None,
        },
        None => None,
    }
}

/// Fold one platform's freshly confirmed state into the aggregate, as
/// the end of the second platform's setup does: with the first platform
/// enabled, a disagreeing background clears the aggregate, the outdated
/// marks accumulate, and the console flag is the conjunction; with the
/// first platform disabled, the new state passes through.
pub fn confirm_steam_merge(
    shared: &SharedConfig,
    steam_shared: &SharedConfig,
    battle_net_enabled: bool,
) -> (r: SharedConfig)
    ensures
        r.background.custom is None,
        battle_net_enabled ==> {
            &&& (if (shared.background.current matches Some(b) && steam_shared.background.current
                matches Some(s) && b@ != s@) {
                r.background.current is None && r.background.is_outdated
                    == steam_shared.background.is_outdated
            } else {
                (match (&r.background.current, &shared.background.current) {
                    (Some(x), Some(y)) => x@ == y@,
                    (None, None) => true,
                    _ => false,
                }) && r.background.is_outdated == (shared.background.is_outdated
                    || steam_shared.background.is_outdated)
            })
            &&& r.additional.console_enabled == (shared.additional.console_enabled
                && steam_shared.additional.console_enabled)
        },
        !battle_net_enabled ==> {
            &&& (match (&r.background.current, &steam_shared.background.current) {
                (Some(x), Some(y)) => x@ == y@,
                (None, None) => true,
                _ => false,
            })
            &&& r.background.is_outdated == steam_shared.background.is_outdated
            &&& r.additional.console_enabled == steam_shared.additional.console_enabled
        },
{
    if battle_net_enabled {
        let mut current: Option<String> = match &shared.background.current {
            Some(x) => Some(x.clone()),
            None => None,
        };
        let mut outdated = shared.background.is_outdated;
        if let (Some(b), Some(s)) = (&shared.background.current, &steam_shared.background.current)
        {
            if !str_equal(b.as_str(), s.as_str()) {
                current = None;
                outdated = false;
            }
        }
        SharedConfig {
            background: BackgroundConfig {
                current,
                is_outdated: outdated || steam_shared.background.is_outdated,
                custom: None,
            },
            additional: AdditionalConfig {
                console_enabled: shared.additional.console_enabled
                    && steam_shared.additional.console_enabled,
            },
        }
    } else {
        SharedConfig {
            background: BackgroundConfig {
                current: match &steam_shared.background.current {
                    Some(x) => Some(x.clone()),
                    None => None,
                },
                is_outdated: steam_shared.background.is_outdated,
                custom: None,
            },
            additional: AdditionalConfig {
                console_enabled: steam_shared.additional.console_enabled,
            },
        }
    }
}

/// What observing one launch-argument string yields.
pub open spec fn spec_obs_of(s: Seq<char>) -> ObsV {
    ObsV {
        bg: spec_get_background(s),
        unrecognized: match spec_get_background(s) {
            Some(v) => !is_recognized(v),
            None => false,
        },
        debug: tokens_of(s).contains(console_arg()),
    }
}

/// Observe one launch-argument string: extract the background id, check
/// it against the catalog, and read the debug console token.
pub fn make_observation(launch_args: &str) -> (r: PlatformObservation)
    ensures
        obs_view(r) == spec_obs_of(launch_args@),
{
    let bg = get_background(launch_args);
    let unrecognized = match &bg {
        Some(id) => find_background_by_id(id.as_str()).is_none(),
        None => false,
    };
    let debug = get_console_enabled(launch_args);
    let r = PlatformObservation {
        background_id: bg,
        background_is_unrecognized: unrecognized,
        debug_flag: debug,
    };
    assert(obs_view(r) == spec_obs_of(launch_args@));
    r
}

} // verus!
