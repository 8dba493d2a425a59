use lesson_schedule::state::{parse_i64, trim_text};

#[test]
fn trim_matches_std() {
    for s in ["  90 ", "\t\n x y \u{3000}", "", "   ", "\u{a0}a\u{2028}", "abc"] {
        assert_eq!(trim_text(s), s.trim());
    }
}

#[test]
fn parse_i64_matches_std() {
    for s in [
        "90", "+90", "-90", "0", "-0", "", "-", "+", "1 2", " 1", "9223372036854775807",
        "9223372036854775808", "-9223372036854775808", "-9223372036854775809",
        "000000000000000000000000000042", "99999999999999999999999", "12a", "--1", "+-1",
    ] {
        assert_eq!(parse_i64(s), s.parse::<i64>().ok(), "{:?}", s);
    }
}
