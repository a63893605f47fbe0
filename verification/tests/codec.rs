//! Launch-argument codec behaviour: parsing, regeneration, idempotence
//! and order preservation on concrete values.

use overbuddy::args::{
    generate_background_launch_args, generate_console_launch_args, get_background,
    get_console_enabled,
};

#[test]
fn get_background_reads_value_flag() {
    assert_eq!(
        get_background("--foo --lobbyMap=0x01 --bar"),
        Some(String::from("0x01"))
    );
}

#[test]
fn get_background_absent() {
    assert_eq!(get_background("--foo --bar"), None);
}

#[test]
fn get_background_empty_value_is_none() {
    assert_eq!(get_background("--lobbyMap="), None);
}

#[test]
fn get_background_takes_segment_between_equals() {
    assert_eq!(
        get_background("--lobbyMap=0x01=junk"),
        Some(String::from("0x01"))
    );
}

#[test]
fn get_background_first_match_wins() {
    assert_eq!(
        get_background("--lobbyMap=0x01 --lobbyMap=0x02"),
        Some(String::from("0x01"))
    );
}

#[test]
fn get_console_enabled_exact_token() {
    assert!(get_console_enabled("--foo --tank_Console"));
    assert!(!get_console_enabled("--foo --tank_Console2"));
    assert!(!get_console_enabled(""));
}

#[test]
fn generate_background_appends_token() {
    assert_eq!(
        generate_background_launch_args(Some("--foo"), Some("0x01")),
        "--foo --lobbyMap=0x01"
    );
}

#[test]
fn generate_background_from_nothing() {
    assert_eq!(
        generate_background_launch_args(None, Some("0x01")),
        "--lobbyMap=0x01"
    );
}

#[test]
fn generate_background_replaces_existing() {
    assert_eq!(
        generate_background_launch_args(Some("--lobbyMap=0x01 --foo"), Some("0x02")),
        "--foo --lobbyMap=0x02"
    );
}

#[test]
fn generate_background_clear_collapses_to_empty() {
    assert_eq!(generate_background_launch_args(Some("--lobbyMap=0x01"), None), "");
}

#[test]
fn generate_background_clear_keeps_others_exactly() {
    assert_eq!(
        generate_background_launch_args(Some("--foo --lobbyMap=0x01"), None),
        "--foo"
    );
}

#[test]
fn codec_idempotence_on_concrete_values() {
    let once = generate_background_launch_args(Some("--a  --lobbyMap=0x9 --b"), Some("0x01"));
    let twice = generate_background_launch_args(Some(once.as_str()), Some("0x01"));
    assert_eq!(once, twice);
    let c_once = generate_console_launch_args(Some("--a --tank_Console --b"), true);
    let c_twice = generate_console_launch_args(Some(c_once.as_str()), true);
    assert_eq!(c_once, c_twice);
}

#[test]
fn codec_preserves_unrelated_order_and_text() {
    let out = generate_background_launch_args(
        Some("--one --lobbyMap=0x1 --two --three"),
        Some("0x2"),
    );
    assert_eq!(out, "--one --two --three --lobbyMap=0x2");
    let cleared = generate_background_launch_args(Some(out.as_str()), None);
    assert_eq!(cleared, "--one --two --three");
}

#[test]
fn console_generate_enable_disable() {
    assert_eq!(generate_console_launch_args(Some("--x"), true), "--x --tank_Console");
    assert_eq!(
        generate_console_launch_args(Some("--x --tank_Console"), false),
        "--x"
    );
    assert_eq!(generate_console_launch_args(None, false), "");
    assert_eq!(generate_console_launch_args(None, true), "--tank_Console");
}

#[test]
fn whitespace_is_normalized_between_kept_tokens() {
    assert_eq!(
        generate_background_launch_args(Some("  --a\t--b  "), None),
        "--a --b"
    );
}
