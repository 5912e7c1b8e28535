use mofa_engine::text::{
    eq_ignore_ascii_case, find_seq, parse_decimal, replace_all, to_ascii_lowercase, trim, u64_to_decimal,
};

#[test]
fn replace_all_is_left_to_right_and_non_overlapping() {
    assert_eq!(replace_all("aaa", "aa", "b"), "ba");
    assert_eq!(replace_all("x{a}y{a}", "{a}", "1"), "x1y1");
    assert_eq!(replace_all("", "a", "b"), "");
}

#[test]
fn decimal_round_trip() {
    assert_eq!(u64_to_decimal(0), "0");
    assert_eq!(u64_to_decimal(1234567890), "1234567890");
    assert_eq!(parse_decimal("+42", 100), Some(42));
    assert_eq!(parse_decimal("101", 100), None);
    assert_eq!(parse_decimal("", 100), None);
    assert_eq!(parse_decimal("4x", 100), None);
}

#[test]
fn trimming_and_case() {
    assert_eq!(trim("  a b \n"), "a b");
    assert_eq!(trim("   "), "");
    assert!(eq_ignore_ascii_case("HeLLo", "hello"));
    assert!(!eq_ignore_ascii_case("hello", "hell"));
    assert_eq!(to_ascii_lowercase("ÀBc"), "Àbc");
    assert_eq!(find_seq("a::b", "::"), Some(1));
    assert_eq!(find_seq("ab", "::"), None);
}
