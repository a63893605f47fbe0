//! Block locator behaviour: scoped key lookup, quote-aware brace
//! matching, and the sibling-block scoping rule on concrete documents.

use overbuddy::locator::{find_char, find_sub, locate_block, scan_for_close, Located};

fn keys(names: &[&str]) -> Vec<String> {
    names.iter().map(|s| String::from(*s)).collect()
}

#[test]
fn locate_simple_block() {
    let text = "\"Root\"\n{\n\t\"Child\"\n\t{\n\t\t\"k\"\t\"v\"\n\t}\n}\n";
    match locate_block(text, &keys(&["Root", "Child"])) {
        Located::Found { open, close } => {
            assert_eq!(text.chars().nth(open), Some('{'));
            assert_eq!(text.chars().nth(close), Some('}'));
            assert!(open < close);
        },
        other => panic!("expected Found, got {:?}", other),
    }
}

#[test]
fn locate_last_key_absent_is_benign() {
    let text = "\"Root\"\n{\n\t\"Other\"\n\t{\n\t}\n}\n";
    assert_eq!(
        locate_block(text, &keys(&["Root", "Child"])),
        Located::LastKeyAbsent
    );
}

#[test]
fn locate_inner_key_absent_is_structural() {
    let text = "\"Root\"\n{\n}\n";
    assert_eq!(
        locate_block(text, &keys(&["Missing", "Child"])),
        Located::InnerKeyAbsent { index: 0 }
    );
}

#[test]
fn locator_scoping_never_matches_sibling() {
    // Both siblings hold a key "X"; looking for it under BlockA must not
    // find the one inside BlockB.
    let text = "\"BlockA\"\n{\n\t\"Y\"\t\"1\"\n}\n\"BlockB\"\n{\n\t\"X\"\t\"2\"\n}\n";
    assert_eq!(
        locate_block(text, &keys(&["BlockA", "X"])),
        Located::LastKeyAbsent
    );
}

#[test]
fn locator_scoping_finds_inside_own_block() {
    let text = "\"BlockA\"\n{\n\t\"X\"\n\t{\n\t}\n}\n\"BlockB\"\n{\n\t\"X\"\n\t{\n\t}\n}\n";
    let a_open = text.find("{").unwrap();
    let a_close = text[a_open..].find("\n}").unwrap() + a_open + 1;
    match locate_block(text, &keys(&["BlockA", "X"])) {
        Located::Found { open, close } => {
            assert!(a_open < open && close <= a_close);
        },
        other => panic!("expected Found, got {:?}", other),
    }
}

#[test]
fn braces_inside_quotes_do_not_count() {
    let text = "\"Root\"\n{\n\t\"v\"\t\"{not a brace}\"\n}\n";
    match locate_block(text, &keys(&["Root"])) {
        Located::Found { open, close } => {
            assert_eq!(text.chars().nth(close), Some('}'));
            assert_eq!(close, text.len() - 2);
            assert!(open < close);
        },
        other => panic!("expected Found, got {:?}", other),
    }
}

#[test]
fn scan_for_close_counts_depth() {
    let text = "{a{b}c}d";
    // scanning starts just after the first brace
    assert_eq!(scan_for_close(text, 1), Some(6));
}

#[test]
fn find_sub_is_first_and_window_bounded() {
    let text = "abcabc";
    assert_eq!(find_sub(text, "abc", 0, 6), Some(0));
    assert_eq!(find_sub(text, "abc", 1, 6), Some(3));
    assert_eq!(find_sub(text, "abc", 1, 5), None);
    assert_eq!(find_char(text, 'c', 3), Some(5));
    assert_eq!(find_char(text, 'z', 0), None);
}
