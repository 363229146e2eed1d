use rnaf::text::{contains_sub, dec_str, find_sub, starts_with_char, str_eq};

#[test]
fn find_sub_returns_leftmost_occurrence() {
    assert_eq!(find_sub("abcabc", "bc"), Some(1));
    assert_eq!(find_sub("abcabc", "abcabc"), Some(0));
    assert_eq!(find_sub("abc", "x"), None);
    assert_eq!(find_sub("abc", ""), Some(0));
    assert_eq!(find_sub("ab", "abc"), None);
}

#[test]
fn contains_sub_matches_find() {
    assert!(contains_sub("a href=\"x\"", "href="));
    assert!(!contains_sub("a ref=\"x\"", "href="));
}

#[test]
fn str_eq_compares_characters() {
    assert!(str_eq("code", "code"));
    assert!(!str_eq("code", "codes"));
    assert!(!str_eq("code", "cods"));
    assert!(str_eq("", ""));
}

#[test]
fn starts_with_char_checks_first() {
    assert!(starts_with_char("abc", 'a'));
    assert!(!starts_with_char("abc", 'b'));
    assert!(!starts_with_char("", 'a'));
}

#[test]
fn dec_str_renders_decimal_numerals() {
    assert_eq!(dec_str(0), "0");
    assert_eq!(dec_str(7), "7");
    assert_eq!(dec_str(42), "42");
    assert_eq!(dec_str(120), "120");
    assert_eq!(dec_str(10000), "10000");
}
