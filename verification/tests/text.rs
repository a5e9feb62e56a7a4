use device_hub::text::{decimal, parse_i32, parse_usize, trim, trim_end, whitespace};

#[test]
fn decimal_matches_display() {
    for n in [0u64, 1, 9, 10, 11, 99, 100, 12345, 1_000_000, u32::MAX as u64, u64::MAX] {
        assert_eq!(decimal(n), n.to_string());
    }
}

#[test]
fn whitespace_matches_char_is_whitespace() {
    for u in 0u32..=0x10FFFF {
        if let Some(c) = char::from_u32(u) {
            assert_eq!(whitespace(c), c.is_whitespace(), "{:#x}", u);
        }
    }
}

#[test]
fn trim_matches_str_trim() {
    for s in ["", "  ", " a ", "\tab c\n", "\u{3000}x\u{2028}", "a", "\u{a0}\u{85} y \r\n"] {
        assert_eq!(trim(s), s.trim());
        assert_eq!(trim_end(s), s.trim_end());
    }
}

#[test]
fn parse_usize_matches_str_parse() {
    let max = usize::MAX.to_string();
    let over = format!("{}0", max);
    let cases = [
        "", "+", "-", "0", "+0", "-0", "007", "12", "+12", "1 2", "x", "12x", "١", max.as_str(),
        over.as_str(), "18446744073709551616",
    ];
    for s in cases {
        assert_eq!(parse_usize(s), s.parse::<usize>().ok(), "{:?}", s);
    }
}

#[test]
fn parse_i32_matches_str_parse() {
    let cases = [
        "", "+", "-", "0", "-0", "+0", "42", "-42", "+42", "--1", "+-1", "2147483647", "2147483648",
        "-2147483648", "-2147483649", "00000000000000000000001", "99999999999999999999", "4 2", "٤",
    ];
    for s in cases {
        assert_eq!(parse_i32(s), s.parse::<i32>().ok(), "{:?}", s);
    }
}
