use peerlab_bird_config::text::{append_decimal, append_joined, contains_char, has_prefix};

fn decimal_of(n: u32) -> String {
    let mut out = String::new();
    append_decimal(&mut out, n);
    out
}

fn join(parts: &[&str], separator: &str) -> String {
    let owned: Vec<String> = parts.iter().map(|p| p.to_string()).collect();
    let mut out = String::new();
    append_joined(&mut out, &owned, separator);
    out
}

#[test]
fn prefix_is_found_at_the_start_only() {
    assert!(has_prefix("100.64.0.1", "100.64."));
    assert!(has_prefix("100.64.", "100.64."));
    assert!(has_prefix("anything", ""));
    assert!(has_prefix("", ""));
    assert!(!has_prefix("100.64", "100.64."));
    assert!(!has_prefix("", "100.64."));
    assert!(!has_prefix("1100.64.0.1", "100.64."));
    assert!(!has_prefix("100.65.0.1", "100.64."));
    assert!(!has_prefix(" 100.64.0.1", "100.64."));
}

#[test]
fn prefix_is_compared_by_characters() {
    assert!(has_prefix("héllo wörld", "héllo"));
    assert!(!has_prefix("hello", "héllo"));
    assert!(has_prefix("日本語のテキスト", "日本語"));
}

#[test]
fn character_is_found_anywhere() {
    assert!(contains_char("fd7a:115c::1", ':'));
    assert!(contains_char(":", ':'));
    assert!(contains_char("abc:", ':'));
    assert!(!contains_char("100.64.0.1", ':'));
    assert!(!contains_char("", ':'));
    assert!(contains_char("naïve", 'ï'));
}

#[test]
fn decimal_numerals() {
    assert_eq!(decimal_of(0), "0");
    assert_eq!(decimal_of(7), "7");
    assert_eq!(decimal_of(9), "9");
    assert_eq!(decimal_of(10), "10");
    assert_eq!(decimal_of(99), "99");
    assert_eq!(decimal_of(100), "100");
    assert_eq!(decimal_of(65001), "65001");
    assert_eq!(decimal_of(1234567890), "1234567890");
    assert_eq!(decimal_of(u32::MAX), "4294967295");
}

#[test]
fn decimal_agrees_with_the_standard_formatting() {
    let mut n: u32 = 1;
    for _ in 0..32 {
        assert_eq!(decimal_of(n), format!("{}", n));
        assert_eq!(decimal_of(n - 1), format!("{}", n - 1));
        n = n.wrapping_mul(2);
    }
}

#[test]
fn decimal_is_appended_to_what_is_there() {
    let mut out = String::from("AS");
    append_decimal(&mut out, 65001);
    assert_eq!(out, "AS65001");
}

#[test]
fn joining_puts_the_separator_between_parts() {
    assert_eq!(join(&[], ", "), "");
    assert_eq!(join(&["a"], ", "), "a");
    assert_eq!(join(&["a", "b"], ", "), "a, b");
    assert_eq!(join(&["2001:db8:1::/48", "2001:db8:2::/48", "10.0.0.0/8"], ", "),
        "2001:db8:1::/48, 2001:db8:2::/48, 10.0.0.0/8");
    assert_eq!(join(&["", ""], ", "), ", ");
    assert_eq!(join(&["a", "b", "c"], ""), "abc");
}

#[test]
fn joining_appends_to_what_is_there() {
    let parts = vec!["x".to_string(), "y".to_string()];
    let mut out = String::from("[ ");
    append_joined(&mut out, &parts, ", ");
    assert_eq!(out, "[ x, y");
}
