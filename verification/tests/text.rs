use esp32_http_servo::text::{
    append_decimal, decode_text, digit_str, find_char, is_whitespace, parse_number_range,
    parse_u8_range,
    skip_spaces, starts_with, to_chars, trim_range, word_end,
};

fn chars_of(text: &str) -> Vec<char> {
    text.chars().collect()
}

fn text_of(chars: &[char], range: (usize, usize)) -> String {
    chars[range.0..range.1].iter().collect()
}

fn texts_over(alphabet: &[char], max_len: usize) -> Vec<String> {
    let mut all: Vec<String> = vec![String::new()];
    let mut last: Vec<String> = vec![String::new()];
    for _ in 0..max_len {
        let mut longer = Vec::new();
        for text in &last {
            for c in alphabet {
                let mut next = text.clone();
                next.push(*c);
                longer.push(next);
            }
        }
        all.extend(longer.iter().cloned());
        last = longer;
    }
    all
}

#[test]
fn white_space_is_what_the_standard_library_says() {
    for code in 0u32..=0x10ffff {
        if let Some(c) = char::from_u32(code) {
            assert_eq!(is_whitespace(c), c.is_whitespace(), "U+{code:04X}");
        }
    }
}

#[test]
fn characters_come_out_in_order() {
    assert_eq!(to_chars("a\u{e9}\u{20ac}\u{1f600}z"), vec!['a', '\u{e9}', '\u{20ac}', '\u{1f600}', 'z']);
    assert_eq!(to_chars(""), Vec::<char>::new());
}

#[test]
fn trimming_agrees_with_the_standard_library() {
    for text in texts_over(&[' ', '\t', 'x', '\u{a0}', '\n'], 6) {
        let chars = chars_of(&text);
        let range = trim_range(&chars, 0, chars.len());
        assert_eq!(text_of(&chars, range), text.trim(), "{text:?}");
        let start = skip_spaces(&chars, 0, chars.len());
        assert_eq!(text_of(&chars, (start, chars.len())), text.trim_start(), "{text:?}");
    }
}

#[test]
fn trimming_stays_inside_its_range() {
    let chars = chars_of("  a b  c  ");
    assert_eq!(trim_range(&chars, 0, 10), (2, 8));
    assert_eq!(trim_range(&chars, 3, 7), (4, 5));
    assert_eq!(trim_range(&chars, 5, 7), (7, 7));
    assert_eq!(trim_range(&chars, 4, 4), (4, 4));
    assert_eq!(skip_spaces(&chars, 3, 4), 4);
    assert_eq!(skip_spaces(&chars, 5, 10), 7);
}

#[test]
fn bytes_parse_as_the_standard_library_parses_them() {
    for text in texts_over(&['0', '1', '2', '5', '9', '+', '-', ' ', 'a'], 4) {
        let chars = chars_of(&text);
        assert_eq!(parse_u8_range(&chars, 0, chars.len()), text.parse::<u8>().ok(), "{text:?}");
    }
    for value in 0u32..=1000 {
        for text in [format!("{value}"), format!("+{value}"), format!("00{value}"), format!("-{value}")] {
            let chars = chars_of(&text);
            assert_eq!(parse_u8_range(&chars, 0, chars.len()), text.parse::<u8>().ok(), "{text:?}");
        }
    }
}

#[test]
fn bytes_parse_at_their_limits() {
    for (text, expected) in [
        ("0", Some(0u8)),
        ("255", Some(255)),
        ("256", None),
        ("+255", Some(255)),
        ("0000000000000000000000255", Some(255)),
        ("99999999999999999999999999", None),
        ("", None),
        ("+", None),
        ("++1", None),
        ("1+", None),
        ("\u{ff11}", None),
    ] {
        let chars = chars_of(text);
        assert_eq!(parse_u8_range(&chars, 0, chars.len()), expected, "{text:?}");
    }
}

#[test]
fn bytes_parse_inside_a_range() {
    let chars = chars_of("ab+12cd");
    assert_eq!(parse_u8_range(&chars, 2, 5), Some(12));
    assert_eq!(parse_u8_range(&chars, 3, 5), Some(12));
    assert_eq!(parse_u8_range(&chars, 3, 4), Some(1));
    assert_eq!(parse_u8_range(&chars, 2, 3), None);
    assert_eq!(parse_u8_range(&chars, 3, 3), None);
    assert_eq!(parse_u8_range(&chars, 2, 6), None);
}

#[test]
fn prefixes_are_found_inside_a_range() {
    let chars = chars_of("x/servo/9");
    assert!(starts_with(&chars, 1, 9, "/servo/"));
    assert!(starts_with(&chars, 1, 8, "/servo/"));
    assert!(!starts_with(&chars, 1, 7, "/servo/"));
    assert!(!starts_with(&chars, 0, 9, "/servo/"));
    assert!(starts_with(&chars, 0, 9, ""));
    assert!(starts_with(&chars, 4, 4, ""));
    assert!(!starts_with(&chars, 1, 9, "/servo?"));
    for text in texts_over(&['a', 'b'], 4) {
        for prefix in texts_over(&['a', 'b'], 3) {
            let chars = chars_of(&text);
            assert_eq!(starts_with(&chars, 0, chars.len(), &prefix), text.starts_with(&prefix));
        }
    }
}

#[test]
fn characters_and_words_are_found_inside_a_range() {
    let chars = chars_of("ab?cd ef?");
    assert_eq!(find_char(&chars, 0, 9, '?'), 2);
    assert_eq!(find_char(&chars, 3, 9, '?'), 8);
    assert_eq!(find_char(&chars, 3, 8, '?'), 8);
    assert_eq!(find_char(&chars, 0, 2, '?'), 2);
    assert_eq!(find_char(&chars, 4, 4, '?'), 4);
    assert_eq!(word_end(&chars, 0, 9), 5);
    assert_eq!(word_end(&chars, 5, 9), 5);
    assert_eq!(word_end(&chars, 6, 9), 9);
    assert_eq!(word_end(&chars, 0, 3), 3);
}

#[test]
fn digits_have_their_strings() {
    for d in 0u8..10 {
        assert_eq!(digit_str(d), d.to_string());
    }
}

#[test]
fn numbers_are_written_in_base_ten() {
    let mut values: Vec<usize> = (0..=1100).collect();
    values.extend([9_999, 10_000, 65_535, 4_294_967_295, usize::MAX - 1, usize::MAX]);
    for value in values {
        let mut out = String::from("n=");
        append_decimal(&mut out, value);
        assert_eq!(out, format!("n={value}"));
    }
}

#[test]
fn well_formed_bytes_decode_to_their_text() {
    assert_eq!(decode_text(b"servo 45"), Some("servo 45"));
    assert_eq!(decode_text(b""), Some(""));
    assert_eq!(decode_text("h\u{e9}\u{20ac}\u{1f600}".as_bytes()), Some("h\u{e9}\u{20ac}\u{1f600}"));
    assert_eq!(decode_text(&[0xf4, 0x8f, 0xbf, 0xbf]), Some("\u{10ffff}"));
}

#[test]
fn malformed_bytes_decode_to_nothing() {
    assert_eq!(decode_text(&[0xff]), None);
    assert_eq!(decode_text(&[0x80]), None);
    assert_eq!(decode_text(&[b'a', 0xc3]), None);
    assert_eq!(decode_text(&[0xc0, 0x80]), None);
    assert_eq!(decode_text(&[0xed, 0xa0, 0x80]), None);
    assert_eq!(decode_text(&[0xf4, 0x90, 0x80, 0x80]), None);
    assert_eq!(decode_text(&[0xf8, 0x88, 0x80, 0x80, 0x80]), None);
}

#[test]
fn numbers_are_counted_up_to_the_limit() {
    for (text, limit, expected) in [
        ("0", 180u16, Some(0u32)),
        ("180", 180, Some(180)),
        ("181", 180, Some(181)),
        ("182", 180, Some(181)),
        ("300", 180, Some(181)),
        ("99999999999999999999999999999999", 180, Some(181)),
        ("+0007", 180, Some(7)),
        ("", 180, None),
        ("+", 180, None),
        ("12a", 180, None),
        ("999999999999999999999999a", 180, None),
        ("a12", 180, None),
        ("-1", 180, None),
        ("0", 0, Some(0)),
        ("1", 0, Some(1)),
        ("9", 0, Some(1)),
        ("65535", u16::MAX, Some(65535)),
        ("65536", u16::MAX, Some(65536)),
        ("70000", u16::MAX, Some(65536)),
        ("00000000000000000000000000065535", u16::MAX, Some(65535)),
        ("18446744073709551616", u16::MAX, Some(65536)),
    ] {
        let chars = chars_of(text);
        assert_eq!(parse_number_range(&chars, 0, chars.len(), limit), expected, "{text:?}");
    }
}

#[test]
fn numbers_agree_with_the_standard_library_below_the_limit() {
    for text in texts_over(&['0', '1', '7', '9', '+', '-', 'a'], 5) {
        let chars = chars_of(&text);
        for limit in [0u16, 9, 180, 255, 1000, u16::MAX] {
            let expected = text.parse::<u64>().ok().map(|n| n.min(u64::from(limit) + 1) as u32);
            assert_eq!(parse_number_range(&chars, 0, chars.len(), limit), expected, "{text:?}");
        }
    }
}
