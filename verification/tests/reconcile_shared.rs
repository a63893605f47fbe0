//! Reconciler behaviour: the conflict rule, the outdated rule, the
//! debug-flag conjunction, and the cross-platform merges.

use overbuddy::config::{AdditionalConfig, BackgroundConfig, SharedConfig};
use overbuddy::reconcile::{
    confirm_steam_merge, make_observation, merge_shared_configs, reconcile, resolve_custom,
    PlatformObservation,
};

const A: &str = "0x0800000000000864";
const B: &str = "0x0800000000000E77";

fn obs(bg: Option<&str>, unrecognized: bool, debug: bool) -> PlatformObservation {
    PlatformObservation {
        background_id: bg.map(String::from),
        background_is_unrecognized: unrecognized,
        debug_flag: debug,
    }
}

#[test]
fn conflict_rule_two_different_recognized() {
    let r = reconcile(&vec![obs(Some(A), false, true), obs(Some(B), false, true)]);
    assert_eq!(r.background.current, None);
    assert!(!r.background.is_outdated);
}

#[test]
fn agreement_keeps_background() {
    let r = reconcile(&vec![obs(Some(A), false, true), obs(Some(A), false, true)]);
    assert_eq!(r.background.current.as_deref(), Some(A));
    assert!(!r.background.is_outdated);
}

#[test]
fn unrecognized_alone_marks_outdated() {
    let r = reconcile(&vec![obs(Some("0xDEAD"), true, false)]);
    assert_eq!(r.background.current, None);
    assert!(r.background.is_outdated);
}

#[test]
fn conflict_is_terminal_for_the_pass() {
    let r = reconcile(&vec![
        obs(Some(A), false, true),
        obs(Some(B), false, true),
        obs(Some(A), false, true),
    ]);
    assert_eq!(r.background.current, None);
    assert!(!r.background.is_outdated);
}

#[test]
fn recognized_after_unrecognized_seeds_and_clears_outdated() {
    let r = reconcile(&vec![obs(Some("0xDEAD"), true, true), obs(Some(A), false, true)]);
    assert_eq!(r.background.current.as_deref(), Some(A));
    assert!(!r.background.is_outdated);
}

#[test]
fn debug_flag_is_conjunction() {
    let r = reconcile(&vec![obs(None, false, true), obs(None, false, false)]);
    assert!(!r.additional.console_enabled);
    let r = reconcile(&vec![obs(None, false, true), obs(None, false, true)]);
    assert!(r.additional.console_enabled);
    let r = reconcile(&vec![]);
    assert!(!r.additional.console_enabled);
}

#[test]
fn make_observation_classifies_ids() {
    let o = make_observation("--lobbyMap=0x0800000000000864 --tank_Console");
    assert_eq!(o.background_id.as_deref(), Some(A));
    assert!(!o.background_is_unrecognized);
    assert!(o.debug_flag);

    let o = make_observation("--lobbyMap=0xDEAD");
    assert_eq!(o.background_id.as_deref(), Some("0xDEAD"));
    assert!(o.background_is_unrecognized);
    assert!(!o.debug_flag);

    let o = make_observation("--nothing");
    assert_eq!(o.background_id, None);
    assert!(!o.background_is_unrecognized);
}

fn shared(current: Option<&str>, outdated: bool, console: bool) -> SharedConfig {
    SharedConfig {
        background: BackgroundConfig {
            current: current.map(String::from),
            is_outdated: outdated,
            custom: None,
        },
        additional: AdditionalConfig { console_enabled: console },
    }
}

#[test]
fn merge_agreeing_platforms() {
    let r = merge_shared_configs(
        Some(&shared(Some(A), false, true)),
        Some(&shared(Some(A), false, true)),
    );
    assert_eq!(r.background.current.as_deref(), Some(A));
    assert!(r.additional.console_enabled);
}

#[test]
fn merge_disagreeing_platforms_clears_background() {
    let r = merge_shared_configs(
        Some(&shared(Some(A), false, true)),
        Some(&shared(Some(B), true, false)),
    );
    assert_eq!(r.background.current, None);
    assert!(r.background.is_outdated);
    assert!(!r.additional.console_enabled);
}

#[test]
fn merge_single_platform_passes_through() {
    let r = merge_shared_configs(None, Some(&shared(Some(B), false, true)));
    assert_eq!(r.background.current.as_deref(), Some(B));
    assert!(r.additional.console_enabled);
    let r = merge_shared_configs(None, None);
    assert_eq!(r.background.current, None);
    assert!(!r.additional.console_enabled);
}

#[test]
fn confirm_merge_respects_first_platform() {
    let r = confirm_steam_merge(
        &shared(Some(A), false, true),
        &shared(Some(B), false, true),
        true,
    );
    assert_eq!(r.background.current, None);

    let r = confirm_steam_merge(
        &shared(Some(A), false, true),
        &shared(Some(A), true, false),
        true,
    );
    assert_eq!(r.background.current.as_deref(), Some(A));
    assert!(r.background.is_outdated);
    assert!(!r.additional.console_enabled);

    let r = confirm_steam_merge(
        &shared(Some(A), false, false),
        &shared(Some(B), false, true),
        false,
    );
    assert_eq!(r.background.current.as_deref(), Some(B));
    assert!(r.additional.console_enabled);
}

#[test]
fn resolve_custom_keeps_only_matching_choice() {
    assert_eq!(
        resolve_custom(Some(String::from(A)), &Some(String::from(A))).as_deref(),
        Some(A)
    );
    assert_eq!(resolve_custom(Some(String::from(A)), &Some(String::from(B))), None);
    assert_eq!(resolve_custom(Some(String::from(A)), &None), None);
    assert_eq!(resolve_custom(None, &Some(String::from(A))), None);
}
