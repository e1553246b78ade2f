use chat_core::text::{chars_of, parse_u64, push_decimal, split_whitespace, white_space};

#[test]
fn white_space_is_the_unicode_property() {
    for code in 0..=0x10FFFFu32 {
        if let Some(c) = char::from_u32(code) {
            assert_eq!(white_space(c), c.is_whitespace(), "U+{:04X}", code);
        }
    }
}

#[test]
fn a_line_splits_into_its_words() {
    assert_eq!(split_whitespace("send bob hello"), vec!["send", "bob", "hello"]);
    assert_eq!(split_whitespace("  send\tbob \r\n"), vec!["send", "bob"]);
    assert_eq!(split_whitespace("one"), vec!["one"]);
    assert!(split_whitespace("").is_empty());
    assert!(split_whitespace(" \t\n\u{3000}").is_empty());
}

#[test]
fn words_are_what_stands_between_white_space() {
    let lines = [
        "a\u{85}b\u{a0}c\u{1680}d\u{2000}e\u{200a}f\u{2028}g\u{2029}h\u{202f}i\u{205f}j\u{3000}k",
        "zero\u{200b}width and\u{180e}mongolian\u{feff}marks",
        "\u{b}vertical\u{c}feed",
        "  grüße,  李雷 \n",
        "x",
        " x",
        "x ",
    ];
    for line in lines {
        let expected: Vec<&str> = line.split_whitespace().collect();
        assert_eq!(split_whitespace(line), expected, "{:?}", line);
    }
}

#[test]
fn a_text_is_its_characters() {
    assert_eq!(chars_of("añ李😀"), vec!['a', 'ñ', '李', '😀']);
    assert!(chars_of("").is_empty());
}

#[test]
fn numbers_are_spelled_in_decimal() {
    for (n, text) in [
        (0usize, "0"),
        (7, "7"),
        (10, "10"),
        (42, "42"),
        (1000, "1000"),
        (90210, "90210"),
        (usize::MAX, &usize::MAX.to_string()[..]),
    ] {
        let mut out = String::from(">");
        push_decimal(&mut out, n);
        assert_eq!(out, format!(">{}", text));
    }
}

#[test]
fn numbers_are_read_as_the_standard_library_reads_them() {
    for text in [
        "", "0", "7", "007", "+7", "+", "-7", "++7", "1_000", " 1", "1 ", "1e3", "٣", "12345678901234567890",
        "18446744073709551615", "18446744073709551616", "+18446744073709551615", "184467440737095516150",
        "99999999999999999999", "00000000000000000000000000001",
    ] {
        let chars: Vec<char> = text.chars().collect();
        assert_eq!(parse_u64(&chars), text.parse::<u64>().ok(), "{:?}", text);
    }
}
