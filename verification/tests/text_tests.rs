use marketwatch::text::{contains_str, parse_u64, text_before, trim_text, u64_to_string};

#[test]
fn decimal_rendering() {
    assert_eq!(u64_to_string(0), "0");
    assert_eq!(u64_to_string(7), "7");
    assert_eq!(u64_to_string(10), "10");
    assert_eq!(u64_to_string(1234567890), "1234567890");
    assert_eq!(u64_to_string(u64::MAX), "18446744073709551615");
}

#[test]
fn decimal_parsing_matches_std() {
    for s in ["42", "+7", "", "+", "-1", "007", "1a", " 1", "18446744073709551615", "18446744073709551616", "99999999999999999999999"] {
        assert_eq!(parse_u64(s), s.parse::<u64>().ok(), "{s}");
    }
}

#[test]
fn decimal_parses_back() {
    for n in [0u64, 1, 5, 19, 20, 300, u64::MAX] {
        assert_eq!(parse_u64(&u64_to_string(n)), Some(n));
    }
}

#[test]
fn trimming_matches_std() {
    for s in ["", "  ", "a", "  a b  ", "\tname\n", "\u{3000}x\u{a0}", "x\u{200b}"] {
        assert_eq!(trim_text(s), s.trim(), "{s:?}");
    }
}

#[test]
fn substring_search() {
    assert!(contains_str("error sending request: dns error", "dns error"));
    assert!(!contains_str("dns erro", "dns error"));
    assert!(contains_str("abc", ""));
    assert_eq!(text_before("AAPL — Apple Inc.", " — "), "AAPL");
    assert_eq!(text_before("AAPL", " — "), "AAPL");
    assert_eq!(text_before("a — b — c", " — "), "a");
    assert_eq!(text_before(" — x", " — "), "");
}
