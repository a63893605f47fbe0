//! The platform adapters' decisions, the end-to-end launch-argument
//! scenario, the catalog, the default configuration, and the path
//! helper.

use overbuddy::args::FlagChange;
use overbuddy::backgrounds::{find_background_by_id, get_backgrounds};
use overbuddy::battle_net;
use overbuddy::config::{get_default_config, resolve_setup_field, SetupField};
use overbuddy::get_file_name_from_path;
use overbuddy::steam;

#[test]
fn end_to_end_battle_net_scenario() {
    // Starting from launch arguments "--foo", setting background 0x01
    // yields exactly "--foo --lobbyMap=0x01"; resetting afterward gives
    // "--foo" back, untouched and without a trailing space.
    let set = battle_net::set_launch_args(
        true,
        Some("--foo"),
        &FlagChange::Background(Some(String::from("0x01"))),
    )
    .unwrap();
    assert_eq!(set, "--foo --lobbyMap=0x01");
    let reset = battle_net::set_launch_args(true, Some(&set), &FlagChange::Background(None))
        .unwrap();
    assert_eq!(reset, "--foo");
}

#[test]
fn battle_net_without_record_is_an_error() {
    assert!(battle_net::set_launch_args(false, None, &FlagChange::Console(true)).is_err());
}

#[test]
fn battle_net_update_config_reads_arguments() {
    let shared = battle_net::update_config(Some("--lobbyMap=0x0800000000000864 --tank_Console"));
    assert_eq!(
        shared.background.current.as_deref(),
        Some("0x0800000000000864")
    );
    assert!(!shared.background.is_outdated);
    assert!(shared.additional.console_enabled);

    let shared = battle_net::update_config(Some("--lobbyMap=0xBAD"));
    assert_eq!(shared.background.current, None);
    assert!(shared.background.is_outdated);

    let shared = battle_net::update_config(None);
    assert_eq!(shared.background.current, None);
    assert!(!shared.background.is_outdated);
    assert!(!shared.additional.console_enabled);
}

#[test]
fn reset_config_plans_changes_in_order() {
    let shared = battle_net::update_config(Some("--lobbyMap=0x0800000000000864 --tank_Console"));
    let plan = battle_net::reset_config(true, &shared);
    assert_eq!(plan.len(), 2);
    assert!(matches!(plan[0], FlagChange::Background(None)));
    assert!(matches!(plan[1], FlagChange::Console(false)));

    let plan = battle_net::reset_config(false, &shared);
    assert!(plan.is_empty());

    let neutral = battle_net::update_config(None);
    let plan = steam::reset_config(true, &neutral);
    assert!(plan.is_empty());
}

#[test]
fn needs_default_startup_screen_rules() {
    assert!(battle_net::needs_default_startup_screen(None));
    assert!(battle_net::needs_default_startup_screen(Some("0")));
    assert!(!battle_net::needs_default_startup_screen(Some("1")));
}

#[test]
fn catalog_lookup_by_id() {
    let bgs = get_backgrounds();
    assert!(!bgs.is_empty());
    let first = &bgs[0];
    let found = find_background_by_id(&first.id).unwrap();
    assert_eq!(found.id, first.id);
    assert!(find_background_by_id("0xNOBODY").is_none());
}

#[test]
fn catalog_ids_are_unique() {
    let bgs = get_backgrounds();
    for i in 0..bgs.len() {
        for j in 0..i {
            assert_ne!(bgs[i].id, bgs[j].id);
        }
    }
}

#[test]
fn default_config_is_neutral() {
    let c = get_default_config();
    assert!(!c.is_setup);
    assert!(!c.battle_net.enabled);
    assert!(!c.steam.enabled);
    assert_eq!(c.shared.background.current, None);
    assert!(!c.shared.background.is_outdated);
    assert!(!c.shared.additional.console_enabled);
}

#[test]
fn resolve_setup_field_maps_keys() {
    assert_eq!(
        resolve_setup_field("BattleNetInstall"),
        Some(SetupField::BattleNetInstall)
    );
    assert_eq!(
        resolve_setup_field("BattleNetConfig"),
        Some(SetupField::BattleNetConfig)
    );
    assert_eq!(resolve_setup_field("SteamInstall"), Some(SetupField::SteamInstall));
    assert_eq!(resolve_setup_field("SteamAccount"), Some(SetupField::SteamInstall));
    assert_eq!(resolve_setup_field("Nonsense"), None);
}

#[test]
fn file_name_from_path() {
    assert_eq!(get_file_name_from_path("C:\\a\\b\\data.json"), Some("data.json"));
    assert_eq!(get_file_name_from_path("/tmp/x/y.vdf"), Some("y.vdf"));
    assert_eq!(get_file_name_from_path("name.txt"), Some("name.txt"));
    assert_eq!(get_file_name_from_path("/tmp/dir/"), Some("dir"));
    assert_eq!(get_file_name_from_path("/"), None);
    assert_eq!(get_file_name_from_path(""), None);
    assert_eq!(get_file_name_from_path("a/.."), None);
}

#[test]
fn end_to_end_json_document_scenario() {
    // Starting JSON content with arguments "--foo": a set-background
    // call with id 0x01 stores "--foo --lobbyMap=0x01"; a reset call
    // afterward stores exactly "--foo" again.
    let doc = "{\"Games\":{\"prometheus\":{\"AdditionalLaunchArguments\":\"--foo\"}}}";
    let mut json: serde_json::Value = serde_json::from_str(doc).unwrap();
    let record = json.get("Games").and_then(|g| g.get("prometheus"));
    let current = record
        .and_then(|o| o.get("AdditionalLaunchArguments"))
        .and_then(|a| a.as_str())
        .map(String::from);
    let new_args = battle_net::set_launch_args(
        record.is_some(),
        current.as_deref(),
        &FlagChange::Background(Some(String::from("0x01"))),
    )
    .unwrap();
    assert_eq!(new_args, "--foo --lobbyMap=0x01");
    json["Games"]["prometheus"]["AdditionalLaunchArguments"] =
        serde_json::Value::String(new_args.clone());
    let stored = json["Games"]["prometheus"]["AdditionalLaunchArguments"]
        .as_str()
        .unwrap()
        .to_string();
    assert_eq!(stored, "--foo --lobbyMap=0x01");
    let reset_args =
        battle_net::set_launch_args(true, Some(&stored), &FlagChange::Background(None)).unwrap();
    assert_eq!(reset_args, "--foo");
}

#[test]
fn coordinator_relaunches_exactly_when_it_closed_something() {
    let mut c = overbuddy::process::ProcessCoordinator::begin(true);
    assert!(c.finish());
    let mut c = overbuddy::process::ProcessCoordinator::begin(false);
    assert!(!c.finish());
}
