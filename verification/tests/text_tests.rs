use ketikin::text::{
    decimal_string, from_chars, has_prefix, has_suffix, join, same,
    same_ignoring_ascii_case, str_le, trim,
};

#[test]
fn str_le_follows_the_order_of_str() {
    let words = ["", "a", "ab", "b", "B", "é", "Ketikin_2026-01-01", "Ketikin_2026-01-01.log"];
    for a in words {
        for b in words {
            assert_eq!(str_le(a, b), a <= b, "{a:?} <= {b:?}");
        }
    }
}

#[test]
fn prefixes_and_suffixes_are_checked_by_character() {
    assert!(has_prefix("Ketikin_x.log", "Ketikin_"));
    assert!(!has_prefix("Ketikin", "Ketikin_"));
    assert!(has_prefix("abc", ""));
    assert!(has_suffix("Ketikin_x.log", ".log"));
    assert!(!has_suffix("Ketikin.log.bak", ".log"));
    assert!(has_suffix("", ""));
}

#[test]
fn trim_removes_unicode_whitespace_at_both_ends() {
    assert_eq!(trim("\u{3000} a b \t\n"), "a b");
    assert_eq!(trim("   "), "");
}

#[test]
fn comparisons_and_joins() {
    assert!(same("Alt+K", "Alt+K"));
    assert!(!same("Alt+K", "alt+k"));
    assert!(same_ignoring_ascii_case("Alt+K", "alt+k"));
    assert!(!same_ignoring_ascii_case("É", "é"));
    assert_eq!(ketikin::text::concat("a", "b"), "ab");
    assert_eq!(join(&vec!["x".to_string(), "y".to_string()], "; "), "x; y");
    assert_eq!(from_chars(&['h', 'é']), "hé");
    assert_eq!(decimal_string(0), "0");
    assert_eq!(decimal_string(1000001), "1000001");
}
