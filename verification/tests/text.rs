use std::io::BufRead;

use fs_storage::text::{
    chars_of, i32_to_decimal, join_lines_from, lines_of, parse_i32, string_of,
};

fn parse(s: &str) -> Option<i32> {
    parse_i32(&chars_of(s), 0)
}

fn lines(s: &str) -> Vec<String> {
    lines_of(&chars_of(s)).iter().map(|l| string_of(l)).collect()
}

#[test]
fn parse_i32_matches_std() {
    for s in [
        "0", "2", "+2", "-2", "002", "-0", "2147483647", "-2147483648", "2147483648",
        "-2147483649", "99999999999999999999", "", "+", "-", "1a", " 1", "1 ", "--1", "+-1", "٣",
    ] {
        assert_eq!(parse(s), s.parse::<i32>().ok(), "input {:?}", s);
    }
}

#[test]
fn parse_i32_from_offset() {
    assert_eq!(parse_i32(&chars_of("version 12"), 8), Some(12));
    assert_eq!(parse_i32(&chars_of("version "), 8), None);
}

#[test]
fn decimal_matches_display() {
    for v in [0, 7, 10, 2, -1, -10, 123456, i32::MAX, i32::MIN] {
        assert_eq!(i32_to_decimal(v), v.to_string());
        assert_eq!(parse(&i32_to_decimal(v)), Some(v));
    }
}

#[test]
fn lines_match_buffered_reader() {
    for s in ["", "a", "a\n", "a\nb", "a\r\nb\r\n", "\n\n", "a\r", "a\r\r\n", "\r\n", "x\ny\n\nz"] {
        let expected: Vec<String> = std::io::Cursor::new(s).lines().map(|l| l.unwrap()).collect();
        assert_eq!(lines(s), expected, "input {:?}", s);
    }
}

#[test]
fn join_skips_first_line_and_breaks() {
    let ls = lines_of(&chars_of("head\n{\"a\":\n\n\"b\"}\n"));
    assert_eq!(string_of(&join_lines_from(&ls, 1)), "{\"a\":\"b\"}");
    assert_eq!(string_of(&join_lines_from(&ls, ls.len())), "");
}
