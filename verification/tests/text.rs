use dcm::text::{char_prefix, i128_to_decimal, join, same_text, trim_start_char, u128_to_decimal, u64_to_decimal};

#[test]
fn decimal_of_zero_and_others() {
    assert_eq!(u64_to_decimal(0), "0");
    assert_eq!(u64_to_decimal(7), "7");
    assert_eq!(u64_to_decimal(1234), "1234");
    assert_eq!(u64_to_decimal(u64::MAX), "18446744073709551615");
    assert_eq!(u128_to_decimal(100000), "100000");
}

#[test]
fn signed_decimal_of_extremes() {
    assert_eq!(i128_to_decimal(-5), "-5");
    assert_eq!(i128_to_decimal(0), "0");
    assert_eq!(i128_to_decimal(42), "42");
    assert_eq!(i128_to_decimal(i128::MIN), i128::MIN.to_string());
    assert_eq!(i128_to_decimal(i128::MAX), i128::MAX.to_string());
}

#[test]
fn prefix_counts_characters() {
    assert_eq!(char_prefix("abcdef", 3), "abc");
    assert_eq!(char_prefix("ab", 12), "ab");
    assert_eq!(char_prefix("", 12), "");
    assert_eq!(char_prefix("éèêëa", 2), "éè");
}

#[test]
fn trim_removes_every_leading_copy() {
    assert_eq!(trim_start_char("//web", '/'), "web");
    assert_eq!(trim_start_char("web/x", '/'), "web/x");
    assert_eq!(trim_start_char("///", '/'), "");
    assert_eq!(trim_start_char("", '/'), "");
}

#[test]
fn join_puts_separator_between() {
    let parts = vec!["a".to_string(), "b".to_string(), "c".to_string()];
    assert_eq!(join(&parts, ", "), "a, b, c");
    assert_eq!(join(&vec!["x".to_string()], ", "), "x");
    assert_eq!(join(&Vec::new(), ", "), "");
}

#[test]
fn same_text_compares_characters() {
    assert!(same_text("json", "json"));
    assert!(!same_text("json", "table"));
    assert!(!same_text("json", "jsonx"));
}
