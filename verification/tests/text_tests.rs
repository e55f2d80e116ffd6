use terminal_staking::text::i64_to_dec_string;
use terminal_staking::text::parse_i64;
use terminal_staking::text::str_eq;

#[test]
fn decimal_rendering() {
    assert_eq!(i64_to_dec_string(0), "0");
    assert_eq!(i64_to_dec_string(7), "7");
    assert_eq!(i64_to_dec_string(3600), "3600");
    assert_eq!(i64_to_dec_string(-42), "-42");
    assert_eq!(i64_to_dec_string(i64::MAX), "9223372036854775807");
    assert_eq!(i64_to_dec_string(i64::MIN), "-9223372036854775808");
}

#[test]
fn decimal_parsing() {
    assert_eq!(parse_i64("0"), Some(0));
    assert_eq!(parse_i64("3600"), Some(3600));
    assert_eq!(parse_i64("+17"), Some(17));
    assert_eq!(parse_i64("-42"), Some(-42));
    assert_eq!(parse_i64("9223372036854775807"), Some(i64::MAX));
    assert_eq!(parse_i64("-9223372036854775808"), Some(i64::MIN));
    assert_eq!(parse_i64(""), None);
    assert_eq!(parse_i64("-"), None);
    assert_eq!(parse_i64("+"), None);
    assert_eq!(parse_i64("12a"), None);
    assert_eq!(parse_i64(" 12"), None);
    assert_eq!(parse_i64("--5"), None);
    assert_eq!(parse_i64("9223372036854775808"), None);
    assert_eq!(parse_i64("-9223372036854775809"), None);
}

#[test]
fn parse_matches_std() {
    for s in ["0", "-1", "007", "+55", "x", "", "99999999999999999999"] {
        assert_eq!(parse_i64(s), s.parse::<i64>().ok(), "input {:?}", s);
    }
}

#[test]
fn render_parse_round_trip() {
    for n in [0i64, 1, -1, 12345, -98765, i64::MAX, i64::MIN] {
        assert_eq!(parse_i64(&i64_to_dec_string(n)), Some(n));
    }
}

#[test]
fn string_comparison() {
    assert!(str_eq("staked", "staked"));
    assert!(!str_eq("staked", "staked_time"));
    assert!(!str_eq("0", "1"));
    assert!(str_eq("", ""));
}
