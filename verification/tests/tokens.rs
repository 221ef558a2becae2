use hepmc2::tokens::{
    check_float_token, i32_text, parse_i32_token, parse_u64_token, take_quoted, take_token,
    u64_text,
};

#[test]
fn integer_parsing_bounds() {
    assert_eq!(parse_i32_token("0"), Some(0));
    assert_eq!(parse_i32_token("-0"), Some(0));
    assert_eq!(parse_i32_token("+42"), Some(42));
    assert_eq!(parse_i32_token("007"), Some(7));
    assert_eq!(parse_i32_token("2147483647"), Some(i32::MAX));
    assert_eq!(parse_i32_token("-2147483648"), Some(i32::MIN));
    assert_eq!(parse_i32_token("2147483648"), None);
    assert_eq!(parse_i32_token("-2147483649"), None);
    assert_eq!(parse_i32_token(""), None);
    assert_eq!(parse_i32_token("-"), None);
    assert_eq!(parse_i32_token("1.5"), None);
    assert_eq!(parse_i32_token("12a"), None);
}

#[test]
fn unsigned_parsing_bounds() {
    assert_eq!(parse_u64_token("18446744073709551615"), Some(u64::MAX));
    assert_eq!(parse_u64_token("18446744073709551616"), None);
    assert_eq!(parse_u64_token("999999999999999999999999"), None);
    assert_eq!(parse_u64_token("-1"), None);
    assert_eq!(parse_u64_token("+1"), None);
    assert_eq!(parse_u64_token("10"), Some(10));
}

#[test]
fn integer_rendering() {
    assert_eq!(i32_text(0), "0");
    assert_eq!(i32_text(-1), "-1");
    assert_eq!(i32_text(i32::MAX), "2147483647");
    assert_eq!(i32_text(i32::MIN), "-2147483648");
    assert_eq!(u64_text(18446744073709551615), "18446744073709551615");
    assert_eq!(u64_text(1000), "1000");
}

#[test]
fn float_token_shapes() {
    for ok in [
        "0", "1.", ".5", "3.25", "-1.0", "+2", "1e5", "1E-5", "1.5e+3", "3.e2",
        "-1.0000000000000000e+00", "nan", "NaN", "inf", "INF", "-infinity", "Infinity",
    ] {
        assert!(check_float_token(ok), "{ok} should be a float token");
    }
    for bad in ["", "e5", ".", "1.5.2", "--1", "1e", "1e+", "in", "nanx", "5 ", "0x1"] {
        assert!(!check_float_token(bad), "{bad} should not be a float token");
    }
}

#[test]
fn tokenizer_needs_separator() {
    // a token must be preceded by at least one space or tab
    assert!(take_token("E 12", 1).is_some());
    assert!(take_token("E12", 1).is_none());
    let (tok, next) = take_token("E \t 12 34", 1).unwrap();
    assert_eq!(tok, "12");
    let (tok2, _) = take_token("E \t 12 34", next).unwrap();
    assert_eq!(tok2, "34");
    // whitespace alone holds no token
    assert!(take_token("E   ", 1).is_none());
}

#[test]
fn quoted_strings() {
    let (s, next) = take_quoted("N \"abc def\" \"x\"", 1).unwrap();
    assert_eq!(s, "abc def");
    let (s2, _) = take_quoted("N \"abc def\" \"x\"", next).unwrap();
    assert_eq!(s2, "x");
    // an unterminated string is rejected
    assert!(take_quoted("N \"abc", 1).is_none());
    // a bare token is not a string
    assert!(take_quoted("N abc", 1).is_none());
}
