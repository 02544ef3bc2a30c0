use winfetch::chars::{
    byte_length, chars_of, is_space_char, parse_u64, push_decimal, push_repeated,
    push_signed_decimal, trim_end, trim_range,
};

fn parsed(text: &str) -> Option<u64> {
    let chars = chars_of(text);
    parse_u64(&chars, 0, chars.len())
}

#[test]
fn chars_in_order() {
    assert_eq!(chars_of("a\u{e9}\u{2014}"), vec!['a', '\u{e9}', '\u{2014}']);
    assert!(chars_of("").is_empty());
}

#[test]
fn byte_length_counts_encoded_bytes() {
    assert_eq!(byte_length("abc"), 3);
    assert_eq!(byte_length("\u{e9}"), 2);
    assert_eq!(byte_length("\u{2014}"), 3);
    assert_eq!(byte_length(""), 0);
}

#[test]
fn whitespace_is_what_std_calls_whitespace() {
    for code in 0u32..0x11000 {
        if let Some(c) = char::from_u32(code) {
            assert_eq!(is_space_char(c), c.is_whitespace(), "U+{:04X}", code);
        }
    }
}

#[test]
fn trim_end_drops_trailing_whitespace_only() {
    assert_eq!(trim_end("  Intel  \t\r\n"), "  Intel");
    assert_eq!(trim_end("x\u{a0}\u{3000}"), "x");
    assert_eq!(trim_end("   "), "");
    assert_eq!(trim_end(""), "");
    assert_eq!(trim_end("a b"), "a b");
}

#[test]
fn trim_end_agrees_with_std() {
    for text in ["", " ", "a ", " a", "a\u{2003}\u{2028}", "\u{e9} \u{e9} ", "tab\t"] {
        assert_eq!(trim_end(text), text.trim_end());
    }
}

#[test]
fn trim_range_drops_both_ends() {
    let chars = chars_of("ab  cd \t=");
    assert_eq!(trim_range(&chars, 2, 8), (4, 6));
    assert_eq!(trim_range(&chars, 2, 4), (4, 4));
    assert_eq!(trim_range(&chars, 0, 2), (0, 2));
    assert_eq!(trim_range(&chars, 3, 3), (3, 3));
}

#[test]
fn numbers_parse() {
    assert_eq!(parsed("0"), Some(0));
    assert_eq!(parsed("007"), Some(7));
    assert_eq!(parsed("1920"), Some(1920));
    assert_eq!(parsed("18446744073709551615"), Some(u64::MAX));
}

#[test]
fn what_is_no_number_does_not_parse() {
    assert_eq!(parsed(""), None);
    assert_eq!(parsed("12a"), None);
    assert_eq!(parsed("a12"), None);
    assert_eq!(parsed("-1"), None);
    assert_eq!(parsed("+1"), None);
    assert_eq!(parsed(" 1"), None);
    assert_eq!(parsed("1.5"), None);
    assert_eq!(parsed("\u{663}"), None);
}

#[test]
fn numbers_beyond_64_bits_do_not_parse() {
    assert_eq!(parsed("18446744073709551616"), None);
    assert_eq!(parsed("99999999999999999999999"), None);
    assert_eq!(parsed("184467440737095516150"), None);
}

#[test]
fn a_part_of_the_text_parses() {
    let chars = chars_of("ab123cd");
    assert_eq!(parse_u64(&chars, 2, 5), Some(123));
    assert_eq!(parse_u64(&chars, 2, 6), None);
    assert_eq!(parse_u64(&chars, 2, 2), None);
}

#[test]
fn decimal_is_appended() {
    let mut text = String::from("n=");
    push_decimal(&mut text, 0);
    assert_eq!(text, "n=0");
    push_decimal(&mut text, 1024);
    assert_eq!(text, "n=01024");
    let mut text = String::new();
    push_decimal(&mut text, u64::MAX);
    assert_eq!(text, "18446744073709551615");
}

#[test]
fn decimal_agrees_with_std() {
    for n in [0u64, 9, 10, 99, 100, 101, 12345678901234567890] {
        let mut text = String::new();
        push_decimal(&mut text, n);
        assert_eq!(text, format!("{}", n));
        assert_eq!(parsed(&text), Some(n));
    }
}

#[test]
fn signed_decimal_is_appended() {
    for n in [0i64, 1, -1, 60, -60, i64::MAX, i64::MIN, i64::MIN + 1] {
        let mut text = String::new();
        push_signed_decimal(&mut text, n);
        assert_eq!(text, format!("{}", n));
    }
}

#[test]
fn pieces_are_repeated() {
    let mut text = String::from(">");
    push_repeated(&mut text, "ab", 3);
    assert_eq!(text, ">ababab");
    push_repeated(&mut text, "x", 0);
    assert_eq!(text, ">ababab");
    push_repeated(&mut text, "", 5);
    assert_eq!(text, ">ababab");
}
