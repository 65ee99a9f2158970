use retana::text::{
    chars_of, cut_point, decimal_string, is_control, is_white_space, line_bounds,
    parse_i64_range, push_decimal_i64, string_of, trim_str,
};

fn lines_of(s: &str) -> Vec<String> {
    let v = chars_of(s);
    line_bounds(&v)
        .iter()
        .map(|&(a, b)| v[a..b].iter().collect::<String>())
        .collect()
}

fn parse(s: &str) -> Option<i64> {
    let v = chars_of(s);
    parse_i64_range(&v, 0, v.len())
}

#[test]
fn white_space_matches_std_for_every_char() {
    for u in 0u32..=0x10FFFF {
        if let Some(c) = char::from_u32(u) {
            assert_eq!(is_white_space(c), c.is_whitespace(), "char {:#x}", u);
        }
    }
}

#[test]
fn control_matches_std_for_every_char() {
    for u in 0u32..=0x10FFFF {
        if let Some(c) = char::from_u32(u) {
            assert_eq!(is_control(c), c.is_control(), "char {:#x}", u);
        }
    }
}

#[test]
fn trim_matches_std() {
    for s in ["", "  ", " a ", "\t\nx y\r\n", "\u{3000}中文\u{2028}", "abc", " \u{85}z\u{A0}"] {
        assert_eq!(trim_str(s), s.trim());
    }
}

#[test]
fn lines_match_std() {
    for s in ["", "a", "a\n", "a\nb", "a\r\nb\r\n", "\n", "\n\n", "a\r", "x\r\ry\n", "end\nno newline"] {
        let want: Vec<String> = s.lines().map(|l| l.to_string()).collect();
        assert_eq!(lines_of(s), want, "input {:?}", s);
    }
}

#[test]
fn parse_matches_std() {
    for s in [
        "0", "42", "-42", "+7", "", "-", "+", "1a", " 1", "9223372036854775807",
        "9223372036854775808", "-9223372036854775808", "-9223372036854775809",
        "00012", "99999999999999999999999", "٣",
    ] {
        assert_eq!(parse(s), s.parse::<i64>().ok(), "input {:?}", s);
    }
}

#[test]
fn decimal_matches_to_string() {
    for n in [0u64, 7, 10, 99, 1234567890, u64::MAX] {
        assert_eq!(decimal_string(n), n.to_string());
    }
    for n in [0i64, -1, -10, 5, i64::MIN, i64::MAX] {
        let mut s = String::new();
        push_decimal_i64(&mut s, n);
        assert_eq!(s, n.to_string());
    }
}

#[test]
fn decimal_then_parse_gives_the_number_back() {
    for n in [0i64, -1, 12, -987654321, i64::MIN, i64::MAX] {
        let mut s = String::new();
        push_decimal_i64(&mut s, n);
        assert_eq!(parse(&s), Some(n));
    }
}

#[test]
fn cut_point_follows_byte_boundaries() {
    let v = chars_of("ab中d");
    assert_eq!(cut_point(&v, 2), 2);
    assert_eq!(cut_point(&v, 3), 2);
    assert_eq!(cut_point(&v, 5), 3);
    assert_eq!(cut_point(&v, 100), 4);
    assert_eq!(string_of(&v), "ab中d");
}
