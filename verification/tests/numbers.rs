use botmaid::decimal::{i64_to_string, parse_i64, u64_to_string};
use botmaid::text::{chars_of, str_eq, string_of};

#[test]
fn unsigned_values_render_in_decimal() {
    assert_eq!(u64_to_string(0), "0");
    assert_eq!(u64_to_string(7), "7");
    assert_eq!(u64_to_string(1234567890), "1234567890");
    assert_eq!(u64_to_string(u64::MAX), "18446744073709551615");
}

#[test]
fn signed_values_render_with_their_sign() {
    assert_eq!(i64_to_string(0), "0");
    assert_eq!(i64_to_string(-1), "-1");
    assert_eq!(i64_to_string(42), "42");
    assert_eq!(i64_to_string(i64::MIN), "-9223372036854775808");
    assert_eq!(i64_to_string(i64::MAX), "9223372036854775807");
}

#[test]
fn id_strings_parse_back_to_their_value() {
    assert_eq!(parse_i64("0"), Some(0));
    assert_eq!(parse_i64("-100"), Some(-100));
    assert_eq!(parse_i64("+5"), Some(5));
    assert_eq!(parse_i64("9223372036854775807"), Some(i64::MAX));
    assert_eq!(parse_i64("-9223372036854775808"), Some(i64::MIN));
}

#[test]
fn malformed_or_oversized_ids_do_not_parse() {
    assert_eq!(parse_i64(""), None);
    assert_eq!(parse_i64("-"), None);
    assert_eq!(parse_i64("+"), None);
    assert_eq!(parse_i64("12a"), None);
    assert_eq!(parse_i64("one"), None);
    assert_eq!(parse_i64("9223372036854775808"), None);
    assert_eq!(parse_i64("-9223372036854775809"), None);
}

#[test]
fn rendering_and_parsing_invert_each_other() {
    for v in [0i64, 1, -1, 999, -12345, i64::MIN, i64::MAX] {
        assert_eq!(parse_i64(&i64_to_string(v)), Some(v));
    }
}

#[test]
fn character_vectors_round_trip_through_strings() {
    let v = chars_of("gr\u{00FC}n \u{1F600}");
    assert_eq!(v.len(), 6);
    assert_eq!(string_of(&v), "gr\u{00FC}n \u{1F600}");
}

#[test]
fn string_equality_is_character_for_character() {
    assert!(str_eq("abc", "abc"));
    assert!(!str_eq("abc", "abd"));
    assert!(!str_eq("abc", "ab"));
    assert!(str_eq("", ""));
}
