//! Steam-side logic on concrete documents: reading launch options,
//! rewriting file contents, the insertion format, installation checks,
//! profile extraction, and per-account reconciliation.

use overbuddy::args::FlagChange;
use overbuddy::diff::verify_file_diff;
use overbuddy::steam::{
    any_profile_has_overwatch, extract_name_history, extract_steam_user_info, extract_value,
    get_config_launch_args, get_overwatch_installed, get_profiles, is_overwatch_installed,
    set_config_launch_args, update_config,
};
use overbuddy::config::{SteamLocalconfig, SteamProfile};

fn vdf_with_options(options: &str) -> String {
    let mut s = String::new();
    s.push_str("\"UserLocalConfigStore\"\n{\n");
    s.push_str("\t\"Software\"\n\t{\n");
    s.push_str("\t\t\"Valve\"\n\t\t{\n");
    s.push_str("\t\t\t\"Steam\"\n\t\t\t{\n");
    s.push_str("\t\t\t\t\"apps\"\n\t\t\t\t{\n");
    s.push_str("\t\t\t\t\t\"2357570\"\n\t\t\t\t\t{\n");
    s.push_str(&format!("\t\t\t\t\t\t\"LaunchOptions\"\t\t\"{}\"\n", options));
    s.push_str("\t\t\t\t\t}\n");
    s.push_str("\t\t\t\t}\n\t\t\t}\n\t\t}\n\t}\n}\n");
    s
}

fn vdf_without_options_key() -> String {
    let mut s = String::new();
    s.push_str("\"UserLocalConfigStore\"\n{\n");
    s.push_str("\t\"Software\"\n\t{\n");
    s.push_str("\t\t\"Valve\"\n\t\t{\n");
    s.push_str("\t\t\t\"Steam\"\n\t\t\t{\n");
    s.push_str("\t\t\t\t\"apps\"\n\t\t\t\t{\n");
    s.push_str("\t\t\t\t\t\"2357570\"\n\t\t\t\t\t{\n");
    s.push_str("\t\t\t\t\t\t\"Playtime\"\t\t\"37\"\n");
    s.push_str("\t\t\t\t\t}\n");
    s.push_str("\t\t\t\t}\n\t\t\t}\n\t\t}\n\t}\n}\n");
    s
}

fn vdf_without_app() -> String {
    let mut s = String::new();
    s.push_str("\"UserLocalConfigStore\"\n{\n");
    s.push_str("\t\"Software\"\n\t{\n");
    s.push_str("\t\t\"Valve\"\n\t\t{\n");
    s.push_str("\t\t\t\"Steam\"\n\t\t\t{\n");
    s.push_str("\t\t\t\t\"apps\"\n\t\t\t\t{\n");
    s.push_str("\t\t\t\t\t\"440\"\n\t\t\t\t\t{\n\t\t\t\t\t}\n");
    s.push_str("\t\t\t\t}\n\t\t\t}\n\t\t}\n\t}\n}\n");
    s
}

#[test]
fn read_existing_launch_options() {
    let doc = vdf_with_options("--foo --lobbyMap=0x01");
    let (args, vs, ve) = get_config_launch_args(&doc).unwrap();
    assert_eq!(args.as_deref(), Some("--foo --lobbyMap=0x01"));
    let (vs, ve) = (vs.unwrap(), ve.unwrap());
    assert_eq!(&doc[vs..ve], "--foo --lobbyMap=0x01");
}

#[test]
fn read_missing_options_key_gives_insertion_point() {
    let doc = vdf_without_options_key();
    let (args, vs, ve) = get_config_launch_args(&doc).unwrap();
    assert_eq!(args.as_deref(), Some(""));
    assert!(vs.is_some());
    assert_eq!(ve, None);
}

#[test]
fn read_absent_app_is_benign() {
    let doc = vdf_without_app();
    let (args, vs, ve) = get_config_launch_args(&doc).unwrap();
    assert_eq!(args, None);
    assert_eq!(vs, None);
    assert_eq!(ve, None);
}

#[test]
fn read_broken_document_is_fatal() {
    assert!(get_config_launch_args("\"Software\"\n{\n}\n").is_err());
}

#[test]
fn rewrite_replaces_value_in_place() {
    let doc = vdf_with_options("--foo");
    let new_doc = set_config_launch_args(&doc, &FlagChange::Background(Some(String::from("0x01"))))
        .unwrap()
        .unwrap();
    assert_eq!(new_doc, vdf_with_options("--foo --lobbyMap=0x01"));
}

#[test]
fn vdf_insertion_scenario() {
    // A record with no launch options key, after a set-background call,
    // gains a fresh, well-indented line, and the verification diff
    // reports exactly one inserted line.
    let doc = vdf_without_options_key();
    let new_doc = set_config_launch_args(&doc, &FlagChange::Background(Some(String::from("0x02"))))
        .unwrap()
        .unwrap();
    assert!(new_doc.contains("\t\t\t\t\t\t\"LaunchOptions\"\t\t\"--lobbyMap=0x02\"\n"));
    assert_eq!(verify_file_diff(&doc, &new_doc).unwrap(), true);
    let inserted: Vec<&str> = new_doc
        .lines()
        .filter(|l| !doc.lines().any(|o| o == *l))
        .collect();
    assert_eq!(inserted, vec!["\t\t\t\t\t\t\"LaunchOptions\"\t\t\"--lobbyMap=0x02\""]);
}

#[test]
fn rewrite_absent_app_writes_nothing() {
    let doc = vdf_without_app();
    let out = set_config_launch_args(&doc, &FlagChange::Console(true)).unwrap();
    assert!(out.is_none());
}

#[test]
fn verify_file_diff_accepts_single_line_change() {
    let old = vdf_with_options("--foo");
    let new = vdf_with_options("--foo --tank_Console");
    assert_eq!(verify_file_diff(&old, &new).unwrap(), true);
    assert_eq!(verify_file_diff(&old, &old).unwrap(), false);
}

#[test]
fn verify_file_diff_rejects_unrelated_change() {
    let old = vdf_with_options("--foo");
    let new = old.replace("\"Valve\"", "\"Elsewhere\"");
    assert!(verify_file_diff(&old, &new).is_err());
}

#[test]
fn verify_file_diff_rejects_multi_line_change() {
    let old = vdf_without_options_key();
    let new = set_config_launch_args(&old, &FlagChange::Background(Some(String::from("a\nb"))))
        .unwrap()
        .unwrap();
    assert!(verify_file_diff(&old, &new).is_err());
}

#[test]
fn overwatch_installed_checks() {
    assert_eq!(get_overwatch_installed(&vdf_with_options("--x")).unwrap(), true);
    assert_eq!(get_overwatch_installed(&vdf_without_app()).unwrap(), false);
    assert!(get_overwatch_installed("\"UserLocalConfigStore\"\n{\n}\n").is_err());
}

#[test]
fn extract_value_reads_quoted_pair() {
    let obj = "{\n\t\t\t\"avatar\"\t\t\"fffb8a\"\n\t\t\t\"name\"\t\t\"Player One\"\n}";
    assert_eq!(extract_value(obj, "avatar"), Some(String::from("fffb8a")));
    assert_eq!(extract_value(obj, "name"), Some(String::from("Player One")));
    assert_eq!(extract_value(obj, "missing"), None);
}

#[test]
fn extract_name_history_reads_first_entry() {
    let obj = "{\n\t\t\t\"NameHistory\"\n\t\t\t{\n\t\t\t\t\"0\"\t\t\"Newest\"\n\t\t\t\t\"1\"\t\t\"Older\"\n\t\t\t}\n}";
    assert_eq!(extract_name_history(obj), Some(String::from("Newest")));
    assert_eq!(extract_name_history("{}"), None);
}

fn profile_doc(name_block: &str) -> String {
    let mut s = String::new();
    s.push_str("\"UserLocalConfigStore\"\n{\n");
    s.push_str("\t\"friends\"\n\t{\n");
    s.push_str("\t\t\"900001\"\n\t\t{\n");
    s.push_str(name_block);
    s.push_str("\t\t}\n\t}\n");
    s.push_str("\t\"Software\"\n\t{\n");
    s.push_str("\t\t\"Valve\"\n\t\t{\n");
    s.push_str("\t\t\t\"Steam\"\n\t\t\t{\n");
    s.push_str("\t\t\t\t\"apps\"\n\t\t\t\t{\n");
    s.push_str("\t\t\t\t\t\"2357570\"\n\t\t\t\t\t{\n\t\t\t\t\t}\n");
    s.push_str("\t\t\t\t}\n\t\t\t}\n\t\t}\n\t}\n}\n");
    s
}

#[test]
fn extract_profile_with_avatar_and_name() {
    let doc = profile_doc("\t\t\t\"name\"\t\t\"Player One\"\n\t\t\t\"avatar\"\t\t\"fffb8a\"\n");
    let p = extract_steam_user_info(&doc, "900001").unwrap();
    assert_eq!(p.id, "900001");
    assert_eq!(p.name, "Player One");
    assert_eq!(
        p.avatar.as_deref(),
        Some("https://avatars.akamai.steamstatic.com/fffb8a_full.jpg")
    );
    assert!(p.has_overwatch);
}

#[test]
fn extract_profile_without_name_fails() {
    let doc = profile_doc("\t\t\t\"avatar\"\t\t\"fffb8a\"\n");
    assert!(extract_steam_user_info(&doc, "900001").is_err());
}

#[test]
fn get_profiles_requires_every_file() {
    let doc = profile_doc("\t\t\t\"name\"\t\t\"Player One\"\n");
    let configs = vec![
        SteamLocalconfig { id: String::from("900001"), file: String::from("a.vdf") },
        SteamLocalconfig { id: String::from("900001"), file: String::from("b.vdf") },
    ];
    let files = vec![Some(doc.clone()), Some(doc.clone())];
    let ps = get_profiles(&configs, &files).unwrap();
    assert_eq!(ps.len(), 2);
    assert_eq!(ps[0].name, "Player One");

    let files_missing = vec![Some(doc), None];
    assert!(get_profiles(&configs, &files_missing).is_err());
}

#[test]
fn is_overwatch_installed_looks_up_profile() {
    let ps = Some(vec![
        SteamProfile {
            id: String::from("1"),
            name: String::from("A"),
            avatar: None,
            has_overwatch: true,
        },
        SteamProfile {
            id: String::from("2"),
            name: String::from("B"),
            avatar: None,
            has_overwatch: false,
        },
    ]);
    assert_eq!(is_overwatch_installed(&ps, "1").unwrap(), true);
    assert_eq!(is_overwatch_installed(&ps, "2").unwrap(), false);
    assert!(is_overwatch_installed(&ps, "3").is_err());
    assert!(is_overwatch_installed(&None, "1").is_err());
    assert!(any_profile_has_overwatch(ps.as_ref().unwrap()));
}

#[test]
fn update_config_reconciles_accounts() {
    let shared = update_config(&vec![
        Some(String::from("--lobbyMap=0x0800000000000864 --tank_Console")),
        None,
        Some(String::from("--lobbyMap=0x0800000000000864 --tank_Console")),
    ]);
    assert_eq!(shared.background.current.as_deref(), Some("0x0800000000000864"));
    assert!(!shared.background.is_outdated);
    assert!(shared.additional.console_enabled);
}
