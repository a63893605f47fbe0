//! Transactional patcher behaviour on the in-memory volume: commit,
//! rollback on a forced verification failure, unconditional staging
//! cleanup, the JSON write transaction, and the multi-account
//! partial-failure policy.

use overbuddy::args::FlagChange;
use overbuddy::config::{SteamLocalconfig, SteamProfile};
use overbuddy::patcher::{patch_account_file, safe_json_write};
use overbuddy::steam::set_launch_args;
use overbuddy::volume::Volume;

fn vdf_with_options(options: &str) -> String {
    let mut s = String::new();
    s.push_str("\"UserLocalConfigStore\"\n{\n");
    s.push_str("\t\"Software\"\n\t{\n");
    s.push_str("\t\t\"Valve\"\n\t\t{\n");
    s.push_str("\t\t\t\"Steam\"\n\t\t\t{\n");
    s.push_str("\t\t\t\t\"apps\"\n\t\t\t\t{\n");
    s.push_str("\t\t\t\t\t\"2357570\"\n\t\t\t\t\t{\n");
    s.push_str(&format!("\t\t\t\t\t\t\"LaunchOptions\"\t\t\"{}\"\n", options));
    s.push_str("\t\t\t\t\t}\n");
    s.push_str("\t\t\t\t}\n\t\t\t}\n\t\t}\n\t}\n}\n");
    s
}

#[test]
fn patch_commits_single_line_change() {
    let mut vol = Volume::new();
    assert!(vol.add_file("lc.vdf", &vdf_with_options("--foo"), false));
    patch_account_file(
        &mut vol,
        "lc.vdf",
        &FlagChange::Background(Some(String::from("0x01"))),
    )
    .unwrap();
    assert_eq!(
        vol.read("lc.vdf").unwrap(),
        vdf_with_options("--foo --lobbyMap=0x01")
    );
    assert!(!vol.file_exists("lc.vdf.backup"));
}

#[test]
fn patcher_atomicity_on_forced_verification_failure() {
    // An id holding a newline makes the rewritten value span two lines,
    // so the bounded-diff verification must fail; the target must then
    // be byte-identical to what it was, and no backup file may remain.
    let before = vdf_with_options("--foo");
    let mut vol = Volume::new();
    assert!(vol.add_file("lc.vdf", &before, false));
    let r = patch_account_file(
        &mut vol,
        "lc.vdf",
        &FlagChange::Background(Some(String::from("a\nb"))),
    );
    assert!(r.is_err());
    assert_eq!(vol.read("lc.vdf").unwrap(), before);
    assert!(!vol.file_exists("lc.vdf.backup"));
}

#[test]
fn patch_missing_target_fails_without_changes() {
    let mut vol = Volume::new();
    assert!(patch_account_file(&mut vol, "gone.vdf", &FlagChange::Console(true)).is_err());
    assert!(!vol.file_exists("gone.vdf"));
    assert!(!vol.file_exists("gone.vdf.backup"));
}

#[test]
fn patch_skips_account_without_record() {
    let doc = "\"UserLocalConfigStore\"\n{\n\t\"Software\"\n\t{\n\t\t\"Valve\"\n\t\t{\n\t\t\t\"Steam\"\n\t\t\t{\n\t\t\t\t\"apps\"\n\t\t\t\t{\n\t\t\t\t}\n\t\t\t}\n\t\t}\n\t}\n}\n";
    let mut vol = Volume::new();
    assert!(vol.add_file("lc.vdf", doc, false));
    patch_account_file(&mut vol, "lc.vdf", &FlagChange::Console(true)).unwrap();
    assert_eq!(vol.read("lc.vdf").unwrap(), doc);
    assert!(!vol.file_exists("lc.vdf.backup"));
}

#[test]
fn safe_json_write_commits_valid_json() {
    let mut vol = Volume::new();
    assert!(vol.add_file("Battle.net.config", "{\"old\": true}", false));
    safe_json_write(&mut vol, "Battle.net.config", "{\n    \"new\": 1\n}").unwrap();
    assert_eq!(vol.read("Battle.net.config").unwrap(), "{\n    \"new\": 1\n}");
    assert!(!vol.file_exists("Battle.net.config.backup"));
}

#[test]
fn safe_json_write_rolls_back_invalid_json() {
    let mut vol = Volume::new();
    assert!(vol.add_file("Battle.net.config", "{\"old\": true}", false));
    let r = safe_json_write(&mut vol, "Battle.net.config", "{not json");
    assert!(r.is_err());
    assert_eq!(vol.read("Battle.net.config").unwrap(), "{\"old\": true}");
    assert!(!vol.file_exists("Battle.net.config.backup"));
}

#[test]
fn safe_json_write_missing_target_fails() {
    let mut vol = Volume::new();
    assert!(safe_json_write(&mut vol, "gone.json", "{}").is_err());
    assert!(!vol.file_exists("gone.json"));
}

fn three_account_volume() -> (Volume, Vec<SteamLocalconfig>, Option<Vec<SteamProfile>>) {
    let mut vol = Volume::new();
    assert!(vol.add_file("u1/localconfig.vdf", &vdf_with_options("--one"), false));
    assert!(vol.add_file("u2/localconfig.vdf", &vdf_with_options("--two"), true));
    assert!(vol.add_file("u3/localconfig.vdf", &vdf_with_options("--three"), false));
    let configs = vec![
        SteamLocalconfig { id: String::from("1"), file: String::from("u1/localconfig.vdf") },
        SteamLocalconfig { id: String::from("2"), file: String::from("u2/localconfig.vdf") },
        SteamLocalconfig { id: String::from("3"), file: String::from("u3/localconfig.vdf") },
    ];
    let profiles = Some(
        vec!["1", "2", "3"]
            .into_iter()
            .map(|id| SteamProfile {
                id: String::from(id),
                name: String::from(id),
                avatar: None,
                has_overwatch: true,
            })
            .collect(),
    );
    (vol, configs, profiles)
}

#[test]
fn partial_failure_scenario() {
    // Three accounts; the second one's file is read-only. The first is
    // committed, the overall call fails, and the remaining accounts are
    // never touched.
    let (mut vol, configs, profiles) = three_account_volume();
    let r = set_launch_args(
        &mut vol,
        &configs,
        &profiles,
        &FlagChange::Background(Some(String::from("0x01"))),
    );
    assert!(r.is_err());
    assert_eq!(
        vol.read("u1/localconfig.vdf").unwrap(),
        vdf_with_options("--one --lobbyMap=0x01")
    );
    assert_eq!(vol.read("u2/localconfig.vdf").unwrap(), vdf_with_options("--two"));
    assert_eq!(vol.read("u3/localconfig.vdf").unwrap(), vdf_with_options("--three"));
    for p in ["u1", "u2", "u3"] {
        assert!(!vol.file_exists(&format!("{}/localconfig.vdf.backup", p)));
    }
}

#[test]
fn batch_succeeds_across_all_accounts() {
    let (mut vol, configs, profiles) = three_account_volume();
    // make the second file writable for the success case
    let mut vol2 = Volume::new();
    assert!(vol2.add_file("u1/localconfig.vdf", &vdf_with_options("--one"), false));
    assert!(vol2.add_file("u2/localconfig.vdf", &vdf_with_options("--two"), false));
    assert!(vol2.add_file("u3/localconfig.vdf", &vdf_with_options("--three"), false));
    drop(vol);
    set_launch_args(&mut vol2, &configs, &profiles, &FlagChange::Console(true)).unwrap();
    assert_eq!(
        vol2.read("u1/localconfig.vdf").unwrap(),
        vdf_with_options("--one --tank_Console")
    );
    assert_eq!(
        vol2.read("u3/localconfig.vdf").unwrap(),
        vdf_with_options("--three --tank_Console")
    );
}

#[test]
fn batch_with_no_accounts_fails() {
    let mut vol = Volume::new();
    assert!(set_launch_args(&mut vol, &vec![], &None, &FlagChange::Console(false)).is_err());
}
