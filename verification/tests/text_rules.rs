use decodeck::text::{
    chars_of, is_hexdigit, is_letter_or_digit, is_whitespace, pad, push_chars, push_decimal,
    push_hex_lower, push_str, skip_chars, strip_whitespace, take_chars, trim, trim_end,
    trim_start, truncate_text, uppercase_of, utf8_length, width_of,
};

fn text(chars: &Vec<char>) -> String {
    chars.iter().collect()
}

fn every_char() -> Vec<char> {
    (0u32..=0x10FFFF).filter_map(char::from_u32).collect()
}

const SAMPLES: [&str; 14] = [
    "",
    " ",
    "abc",
    "  abc  ",
    "\t\n a b \r\n",
    "\u{a0}x\u{3000}",
    "\u{2003}\u{2028}",
    "\u{85}a\u{1680}b\u{205f}",
    "Stra\u{df}e",
    "\u{131}\u{17f}\u{fb01}",
    "0x48 65",
    "\u{200b}zero width\u{200b}",
    "\u{180e}mongolian",
    "\u{feff}bom",
];

#[test]
fn whitespace_is_unicode_white_space() {
    for c in every_char() {
        assert_eq!(is_whitespace(c), c.is_whitespace(), "U+{:04X}", c as u32);
    }
}

#[test]
fn letters_and_digits_are_unicode_alphanumerics() {
    for c in every_char() {
        assert_eq!(is_letter_or_digit(c), c.is_alphanumeric(), "U+{:04X}", c as u32);
    }
}

#[test]
fn hexadecimal_digits_are_the_ascii_ones() {
    for c in every_char() {
        assert_eq!(is_hexdigit(c), c.is_ascii_hexdigit(), "U+{:04X}", c as u32);
    }
}

#[test]
fn uppercase_of_one_character_is_its_unicode_mapping() {
    for c in every_char() {
        let expected: Vec<char> = c.to_uppercase().collect();
        assert_eq!(uppercase_of(&vec![c]), expected, "U+{:04X}", c as u32);
    }
}

#[test]
fn uppercase_of_text_is_the_uppercase_text() {
    for s in SAMPLES {
        assert_eq!(text(&uppercase_of(&chars_of(s))), s.to_uppercase());
    }
    assert_eq!(text(&uppercase_of(&chars_of("jbswy3dp"))), "JBSWY3DP");
    assert_eq!(text(&uppercase_of(&chars_of("Stra\u{df}e"))), "STRASSE");
    assert_eq!(text(&uppercase_of(&chars_of("\u{131}\u{17f}"))), "IS");
}

#[test]
fn chars_of_keeps_every_character() {
    for s in SAMPLES {
        let expected: Vec<char> = s.chars().collect();
        assert_eq!(chars_of(s), expected);
    }
}

#[test]
fn trimming_drops_surrounding_whitespace_only() {
    for s in SAMPLES {
        let chars = chars_of(s);
        assert_eq!(text(&trim(&chars)), s.trim());
        assert_eq!(text(&trim_start(&chars)), s.trim_start());
        assert_eq!(text(&trim_end(&chars)), s.trim_end());
    }
    assert_eq!(text(&trim(&chars_of("  a b  "))), "a b");
    assert_eq!(text(&trim(&chars_of(" \t\n"))), "");
}

#[test]
fn stripping_drops_all_whitespace() {
    for s in SAMPLES {
        let expected: String = s.chars().filter(|c| !c.is_whitespace()).collect();
        assert_eq!(text(&strip_whitespace(&chars_of(s))), expected);
    }
    assert_eq!(text(&strip_whitespace(&chars_of(" SGVs\nbG8g \t V29y\r\nbGQh "))), "SGVsbG8gV29ybGQh");
}

#[test]
fn utf8_length_counts_bytes() {
    for s in SAMPLES {
        assert_eq!(utf8_length(&chars_of(s)), s.len());
    }
    assert_eq!(utf8_length(&chars_of("a\u{e9}\u{20ac}\u{1f600}")), 1 + 2 + 3 + 4);
}

#[test]
fn padding_fills_the_last_block() {
    assert_eq!(text(&pad(chars_of("SGVsbG8"), 4)), "SGVsbG8=");
    assert_eq!(text(&pad(chars_of("SGk"), 4)), "SGk=");
    assert_eq!(text(&pad(chars_of("SG"), 4)), "SG==");
    assert_eq!(text(&pad(chars_of("S"), 4)), "S===");
    assert_eq!(text(&pad(chars_of("SGVs"), 4)), "SGVs");
    assert_eq!(text(&pad(chars_of(""), 4)), "");
    assert_eq!(text(&pad(chars_of("JBSWY3DPEBLW64TMMQ"), 8)), "JBSWY3DPEBLW64TMMQ======");
    assert_eq!(text(&pad(chars_of("JBSWY3DP"), 8)), "JBSWY3DP");
    // the length that counts is the length in bytes
    assert_eq!(text(&pad(chars_of("\u{e9}"), 4)), "\u{e9}==");
    assert_eq!(text(&pad(chars_of("\u{20ac}a"), 4)), "\u{20ac}a");
    assert_eq!(text(&pad(chars_of("abc"), 0)), "abc");
    assert_eq!(text(&pad(chars_of("abc"), 1)), "abc");
}

#[test]
fn decimal_digits_are_written_most_significant_first() {
    for n in [0usize, 1, 9, 10, 11, 99, 100, 101, 12345, 1_000_000, usize::MAX] {
        let mut out = chars_of("n=");
        push_decimal(&mut out, n);
        assert_eq!(text(&out), format!("n={}", n));
    }
}

#[test]
fn bytes_are_written_as_two_lowercase_hexadecimal_digits() {
    let bytes: Vec<u8> = (0u8..=255).collect();
    let mut out: Vec<char> = Vec::new();
    push_hex_lower(&mut out, &bytes);
    let expected: String = bytes.iter().map(|b| format!("{:02x}", b)).collect();
    assert_eq!(text(&out), expected);
    let mut out = chars_of("(");
    push_hex_lower(&mut out, &vec![0x00, 0x0f, 0xa0, 0xff]);
    assert_eq!(text(&out), "(000fa0ff");
}

#[test]
fn appending_keeps_what_was_there() {
    let mut out = chars_of("ab");
    push_str(&mut out, "cd");
    push_chars(&mut out, &chars_of("ef"));
    push_str(&mut out, "");
    assert_eq!(text(&out), "abcdef");
}

#[test]
fn skipping_and_taking_split_a_text() {
    let chars = chars_of("hello");
    assert_eq!(text(&skip_chars(&chars, 0)), "hello");
    assert_eq!(text(&skip_chars(&chars, 2)), "llo");
    assert_eq!(text(&skip_chars(&chars, 5)), "");
    assert_eq!(text(&take_chars(&chars, 0)), "");
    assert_eq!(text(&take_chars(&chars, 2)), "he");
    assert_eq!(text(&take_chars(&chars, 5)), "hello");
}

#[test]
fn a_text_within_the_limit_is_kept_whole() {
    assert_eq!(truncate_text("hello", 5), "hello");
    assert_eq!(truncate_text("hello", 60), "hello");
    assert_eq!(truncate_text("", 0), "");
    assert_eq!(truncate_text("caf\u{e9}", 5), "caf\u{e9}");
    for s in SAMPLES {
        assert_eq!(truncate_text(s, s.len()), s);
        assert_eq!(truncate_text(s, usize::MAX), s);
    }
}

#[test]
fn a_longer_text_is_cut_and_marked_with_dots() {
    assert_eq!(truncate_text("hello world", 5), "hello...");
    assert_eq!(truncate_text("hello", 4), "hell...");
    assert_eq!(truncate_text("hello", 0), "...");
    let long = "0123456789".repeat(7);
    assert_eq!(truncate_text(&long, 60), format!("{}...", &long[..60]));
    // the limit counts bytes, and a character is kept whole or not at all
    assert_eq!(truncate_text("caf\u{e9}s", 5), "caf\u{e9}...");
    assert_eq!(truncate_text("caf\u{e9}s", 4), "caf...");
    assert_eq!(truncate_text("caf\u{e9}s", 3), "caf...");
    assert_eq!(truncate_text("\u{1f600}\u{1f600}", 7), "\u{1f600}...");
    assert_eq!(truncate_text("\u{1f600}\u{1f600}", 3), "...");
    assert_eq!(truncate_text("a\u{20ac}b", 3), "a...");
    // where the limit falls between two characters, the cut is there
    for s in ["hello world", "caf\u{e9} au lait", "\u{4e2d}\u{6587}\u{5b57}\u{7b26}", "a\u{1f600}b\u{e9}c"] {
        for limit in 0..s.len() {
            let cut = truncate_text(s, limit);
            assert!(cut.ends_with("..."));
            let kept = &cut[..cut.len() - 3];
            assert!(s.starts_with(kept));
            assert!(kept.len() <= limit);
            if s.is_char_boundary(limit) {
                assert_eq!(cut, format!("{}...", &s[..limit]));
            } else {
                assert!(limit - kept.len() < 4);
                assert!(s.is_char_boundary(kept.len()));
            }
        }
    }
}

#[test]
fn the_width_of_a_character_is_its_length_in_utf8() {
    for c in every_char() {
        assert_eq!(width_of(c), c.len_utf8(), "U+{:04X}", c as u32);
    }
}
