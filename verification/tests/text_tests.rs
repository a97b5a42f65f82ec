use webservices::text::{chars_of, decimal_string, parse_decimal, find_char_from, rfind_char};

#[test]
fn decimal_string_writes_plain_numerals() {
    assert_eq!(decimal_string(0), "0");
    assert_eq!(decimal_string(7), "7");
    assert_eq!(decimal_string(10), "10");
    assert_eq!(decimal_string(12345), "12345");
    assert_eq!(decimal_string(u64::MAX), u64::MAX.to_string());
}

#[test]
fn parse_decimal_reads_canonical_numerals_only() {
    assert_eq!(parse_decimal(&chars_of("0")), Some(0));
    assert_eq!(parse_decimal(&chars_of("42")), Some(42));
    assert_eq!(parse_decimal(&chars_of("18446744073709551615")), Some(u64::MAX));
    assert_eq!(parse_decimal(&chars_of("18446744073709551616")), None);
    assert_eq!(parse_decimal(&chars_of("007")), None);
    assert_eq!(parse_decimal(&chars_of("")), None);
    assert_eq!(parse_decimal(&chars_of("12a")), None);
    assert_eq!(parse_decimal(&chars_of("+1")), None);
}

#[test]
fn char_search_finds_first_and_last() {
    let s = chars_of("a\"b\"c\"");
    assert_eq!(find_char_from(&s, '"', 0), Some(1));
    assert_eq!(find_char_from(&s, '"', 2), Some(3));
    assert_eq!(rfind_char(&s, '"'), Some(5));
    assert_eq!(find_char_from(&s, 'z', 0), None);
    assert_eq!(rfind_char(&chars_of("abc"), '"'), None);
    assert_eq!(chars_of("héllo").len(), 5);
}
