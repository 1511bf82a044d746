use cydevice::text::{decimal_string, nonblank_trimmed, parse_i32_str, parse_u32_str};

#[test]
fn parses_unsigned_like_std() {
    for s in ["0", "42", "+42", "007", "4294967295", "4294967296", "", "+", "-1", " 1", "1 ", "1_0", "x"] {
        assert_eq!(parse_u32_str(s), s.parse::<u32>().ok(), "input {:?}", s);
    }
}

#[test]
fn parses_signed_like_std() {
    for s in ["0", "-0", "+7", "-7", "2147483647", "2147483648", "-2147483648", "-2147483649", "-", "--1", ""] {
        assert_eq!(parse_i32_str(s), s.parse::<i32>().ok(), "input {:?}", s);
    }
}

#[test]
fn decimal_round_trips() {
    for n in [0u32, 7, 10, 99, 100, 1200, u32::MAX] {
        assert_eq!(decimal_string(n), n.to_string());
        assert_eq!(parse_u32_str(&decimal_string(n)), Some(n));
    }
}

#[test]
fn trims_to_nonblank() {
    assert_eq!(nonblank_trimmed(" abc\n"), Some("abc".to_string()));
    assert_eq!(nonblank_trimmed(" \u{a0}\t"), None);
}
