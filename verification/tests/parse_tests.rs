use qcdesigner::text::parse_i64;

#[test]
fn parses_plain_and_signed_integers() {
    assert_eq!(parse_i64("0"), Some(0));
    assert_eq!(parse_i64("42"), Some(42));
    assert_eq!(parse_i64("+7"), Some(7));
    assert_eq!(parse_i64("-12"), Some(-12));
    assert_eq!(parse_i64("007"), Some(7));
}

#[test]
fn parses_the_ends_of_the_range() {
    assert_eq!(parse_i64("9223372036854775807"), Some(i64::MAX));
    assert_eq!(parse_i64("-9223372036854775808"), Some(i64::MIN));
    assert_eq!(parse_i64("9223372036854775808"), None);
    assert_eq!(parse_i64("-9223372036854775809"), None);
    assert_eq!(parse_i64("000000000000000000000000009"), Some(9));
}

#[test]
fn rejects_what_is_not_an_integer() {
    for text in ["", "-", "+", " 1", "1 ", "1.0", "1e3", "--1", "+-1", "abc", "12a", "٣", "é1", "1é"] {
        assert_eq!(parse_i64(text), None, "{:?}", text);
    }
}

#[test]
fn agrees_with_the_standard_parser() {
    let samples = [
        "0", "-0", "+0", "5", "-5", "10", "99999999999", "-18446744073709551616", "184467440737095516160",
        "9223372036854775806", "-9223372036854775807", "12345678901234567890", "+", "x", "3 ", "\t3",
    ];
    for text in samples {
        assert_eq!(parse_i64(text), text.parse::<i64>().ok(), "{:?}", text);
    }
}
