use hkulib::text::{parse_dec, split_ws, str_contains, str_eq, strip_dashes_str, u32_to_dec};

#[test]
fn decimal_rendering() {
    assert_eq!(u32_to_dec(0), "0");
    assert_eq!(u32_to_dec(7), "7");
    assert_eq!(u32_to_dec(130), "130");
    assert_eq!(u32_to_dec(4294967295), "4294967295");
}

#[test]
fn decimal_parsing() {
    assert_eq!(parse_dec("129"), Some(129));
    assert_eq!(parse_dec("0"), Some(0));
    assert_eq!(parse_dec("0129"), Some(129));
    assert_eq!(parse_dec(""), None);
    assert_eq!(parse_dec("12a"), None);
    assert_eq!(parse_dec("-1"), None);
    assert_eq!(parse_dec("4294967295"), Some(4294967295));
    assert_eq!(parse_dec("4294967296"), None);
}

#[test]
fn hyphen_stripping() {
    assert_eq!(strip_dashes_str("2021-09-30"), "20210930");
    assert_eq!(strip_dashes_str("20210930"), "20210930");
    assert_eq!(strip_dashes_str("---"), "");
    assert_eq!(strip_dashes_str(""), "");
}

#[test]
fn hyphen_stripping_is_idempotent() {
    let once = strip_dashes_str("2021-09-30");
    let twice = strip_dashes_str(&once);
    assert_eq!(once, twice);
    assert_eq!(once.len(), 8);
    assert!(once.chars().all(|c| c.is_ascii_digit()));
}

#[test]
fn whitespace_splitting() {
    let tokens = split_ws("30Sep2021 Thu 08:30");
    assert_eq!(tokens, vec!["30Sep2021", "Thu", "08:30"]);
    let tokens = split_ws("30\u{a0}Sep\u{a0}2021 08:30");
    assert_eq!(tokens, vec!["30", "Sep", "2021", "08:30"]);
    let tokens = split_ws("  a \t b\nc  ");
    assert_eq!(tokens, vec!["a", "b", "c"]);
    assert!(split_ws("   ").is_empty());
    assert!(split_ws("").is_empty());
}

#[test]
fn equality_and_search() {
    assert!(str_eq("08300930", "08300930"));
    assert!(!str_eq("08300930", "08300931"));
    assert!(!str_eq("0830", "08300930"));
    assert!(str_contains("Your Booking is successful indeed", "Your Booking is successful"));
    assert!(!str_contains("Your Booking failed", "Your Booking is successful"));
    assert!(str_contains("abc", ""));
    assert!(!str_contains("ab", "abc"));
}

#[test]
fn canonical_decimal_round_trip() {
    for s in ["0", "7", "129", "4294967295"] {
        assert_eq!(u32_to_dec(parse_dec(s).unwrap()), s);
    }
}
