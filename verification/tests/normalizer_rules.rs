use base64::Engine;
use decodeck::decoder::{is_alphabet_char, validate_base64, Base64Variant, EncodedData};
use decodeck::encoding::base64::Base64Decoder;
use decodeck::encoding::Decoder;
use decodeck::error::DecodeckError;

fn invalid(input: &str) -> (String, usize) {
    match EncodedData::parse(input) {
        Err(DecodeckError::InvalidBase64 { message, position }) => (message, position),
        other => panic!("expected an alphabet fault for {:?}, got {:?}", input, other),
    }
}

/// Texts in the standard alphabet, of growing length and with every kind of padding.
fn valid_texts() -> Vec<String> {
    let mut texts = Vec::new();
    for length in 1usize..40 {
        let data: Vec<u8> = (0..length).map(|i| (i * 37 + length * 11) as u8).collect();
        texts.push(base64::engine::general_purpose::STANDARD.encode(&data));
    }
    texts
}

#[test]
fn parsing_keeps_what_the_input_was_like() {
    let parsed = EncodedData::parse("SGVsbG8").unwrap();
    assert_eq!(parsed.data, "SGVsbG8=");
    assert_eq!(parsed.variant, Base64Variant::Standard);
    assert!(!parsed.has_padding);
    assert_eq!(parsed.original_length, 7);

    let parsed = EncodedData::parse(" SGVs bG8=\n").unwrap();
    assert_eq!(parsed.data, "SGVsbG8=");
    assert_eq!(parsed.variant, Base64Variant::Standard);
    assert!(parsed.has_padding);
    assert_eq!(parsed.original_length, 11);

    let parsed = EncodedData::parse("a-b_").unwrap();
    assert_eq!(parsed.data, "a-b_");
    assert_eq!(parsed.variant, Base64Variant::UrlSafe);
    assert!(!parsed.has_padding);
    assert_eq!(parsed.original_length, 4);

    // the length on record is the length in bytes
    let parsed = EncodedData::parse("SGk=\u{2003}").unwrap();
    assert_eq!(parsed.data, "SGk=");
    assert_eq!(parsed.original_length, 7);
}

#[test]
fn parsing_refuses_empty_and_blank_input() {
    for blank in ["", " ", "\t\r\n", "\u{a0}\u{3000}"] {
        assert!(matches!(EncodedData::parse(blank), Err(DecodeckError::NoInput)), "{:?}", blank);
    }
}

#[test]
fn parsed_data_comes_in_groups_of_four() {
    for length in 1..30 {
        let text = "A".repeat(length);
        let parsed = EncodedData::parse(&text).unwrap();
        assert_eq!(parsed.data.len() % 4, 0);
        assert_eq!(parsed.data.chars().count() % 4, 0);
        assert!(parsed.data.starts_with(&text));
        assert!(parsed.data.len() < length + 4);
        assert!(parsed.data[length..].chars().all(|c| c == '='));
    }
}

#[test]
fn the_first_character_outside_the_alphabet_is_reported() {
    assert_eq!(invalid("ABCD!EFG"), ("Invalid character '!'".to_string(), 4));
    assert_eq!(invalid("!"), ("Invalid character '!'".to_string(), 0));
    assert_eq!(invalid("AB CD\n!EFG"), ("Invalid character '!'".to_string(), 4));
    assert_eq!(invalid("SGVsbG8='"), ("Invalid character '''".to_string(), 8));
    assert_eq!(invalid("\u{e9}abc"), ("Invalid character '\u{e9}'".to_string(), 0));
    assert_eq!(invalid("ab\u{1f600}"), ("Invalid character '\u{1f600}'".to_string(), 2));
    // the alphabet is that of the variant
    assert_eq!(invalid("a+b-"), ("Invalid character '+'".to_string(), 1));
    assert_eq!(invalid("a_b/"), ("Invalid character '/'".to_string(), 3));
    // only the first fault is reported
    assert_eq!(invalid("AB!CD?"), ("Invalid character '!'".to_string(), 2));
}

#[test]
fn a_wrong_character_is_found_where_it_was_put() {
    for text in valid_texts() {
        let chars: Vec<char> = text.chars().collect();
        for at in 0..=chars.len() {
            for wrong in ['!', '$', '\'', '.', '\u{e9}', '\u{20ac}', '\u{0}'] {
                let mut with_wrong = chars.clone();
                with_wrong.insert(at, wrong);
                let input: String = with_wrong.iter().collect();
                let (message, position) = invalid(&input);
                assert_eq!(position, at, "{:?}", input);
                assert_eq!(message, format!("Invalid character '{}'", wrong));
            }
        }
    }
}

#[test]
fn whitespace_in_the_input_changes_nothing_but_the_length_on_record() {
    for text in valid_texts() {
        let clean = EncodedData::parse(&text).unwrap();
        let chars: Vec<char> = text.chars().collect();
        for (at, space) in [(0, ' '), (1, '\n'), (chars.len() / 2, '\t'), (chars.len(), '\u{a0}')] {
            let mut spaced = chars.clone();
            spaced.insert(at, space);
            spaced.insert(at, '\r');
            let input: String = spaced.iter().collect();
            let parsed = EncodedData::parse(&input).unwrap();
            assert_eq!(parsed.data, clean.data);
            assert_eq!(parsed.variant, clean.variant);
            assert_eq!(parsed.has_padding, clean.has_padding);
            assert_eq!(parsed.original_length, input.len());
            assert_eq!(parsed.decode().unwrap(), clean.decode().unwrap());
        }
    }
}

#[test]
fn decoding_uses_the_engine_of_the_variant() {
    assert_eq!(EncodedData::parse("SGVsbG8").unwrap().decode().unwrap(), b"Hello");
    assert_eq!(EncodedData::parse("a-b_").unwrap().decode().unwrap(), vec![107, 230, 255]);
    assert_eq!(EncodedData::parse("a+b/").unwrap().decode().unwrap(), vec![107, 230, 255]);
    let by_hand = EncodedData {
        data: "a-b_".to_string(),
        variant: Base64Variant::Standard,
        has_padding: false,
        original_length: 4,
    };
    match by_hand.decode() {
        Err(DecodeckError::DecodeFailed { message }) => assert_eq!(message, "Invalid symbol 45, offset 1."),
        other => panic!("unexpected result: {:?}", other),
    }
}

#[test]
fn text_that_passes_the_alphabet_can_still_fail_to_decode() {
    // a padding sign inside the text is in the alphabet, and no Base64
    let parsed = EncodedData::parse("SG=sbG8=").unwrap();
    match parsed.decode() {
        Err(DecodeckError::DecodeFailed { message }) => assert_eq!(message, "Invalid symbol 61, offset 2."),
        other => panic!("unexpected result: {:?}", other),
    }
    let parsed = EncodedData::parse("A").unwrap();
    assert_eq!(parsed.data, "A===");
    assert!(matches!(parsed.decode(), Err(DecodeckError::DecodeFailed { .. })));
}

#[test]
fn alphabets_differ_in_two_characters() {
    for c in (0u32..=0x2FF).filter_map(char::from_u32) {
        let common = c.is_ascii_alphanumeric() || c == '=';
        assert_eq!(is_alphabet_char(c, Base64Variant::Standard), common || c == '+' || c == '/');
        assert_eq!(is_alphabet_char(c, Base64Variant::UrlSafe), common || c == '-' || c == '_');
    }
}

#[test]
fn variants_have_their_tokens() {
    assert_eq!(Base64Variant::Standard.display_name(), "standard");
    assert_eq!(Base64Variant::UrlSafe.display_name(), "url-safe");
}

#[test]
fn what_is_encoded_with_either_alphabet_is_read_back() {
    for length in 0usize..60 {
        let data: Vec<u8> = (0..length).map(|i| (i * 151 + 7 * length + 250) as u8).collect();
        for text in [
            base64::engine::general_purpose::STANDARD.encode(&data),
            base64::engine::general_purpose::URL_SAFE.encode(&data),
            base64::engine::general_purpose::STANDARD_NO_PAD.encode(&data),
            base64::engine::general_purpose::URL_SAFE_NO_PAD.encode(&data),
        ] {
            if data.is_empty() {
                assert!(matches!(EncodedData::parse(&text), Err(DecodeckError::NoInput)));
            } else {
                assert_eq!(EncodedData::parse(&text).unwrap().decode().unwrap(), data, "{:?}", text);
            }
        }
    }
}

#[test]
fn validation_holds_every_character_against_the_alphabet() {
    let chars = |s: &str| -> Vec<char> { s.chars().collect() };
    assert!(validate_base64(&chars("SGVsbG8="), Base64Variant::Standard).is_ok());
    assert!(validate_base64(&chars("SGVsbG8="), Base64Variant::UrlSafe).is_ok());
    assert!(validate_base64(&chars(""), Base64Variant::Standard).is_ok());
    assert!(validate_base64(&chars("=a=b"), Base64Variant::Standard).is_ok());
    assert!(validate_base64(&chars("a-b_"), Base64Variant::UrlSafe).is_ok());
    match validate_base64(&chars("a-b_"), Base64Variant::Standard) {
        Err(DecodeckError::InvalidBase64 { message, position }) => {
            assert_eq!(message, "Invalid character '-'");
            assert_eq!(position, 1);
        }
        other => panic!("unexpected result: {:?}", other),
    }
    match validate_base64(&chars("ab c"), Base64Variant::UrlSafe) {
        Err(DecodeckError::InvalidBase64 { message, position }) => {
            assert_eq!(message, "Invalid character ' '");
            assert_eq!(position, 2);
        }
        other => panic!("unexpected result: {:?}", other),
    }
}

#[test]
fn what_the_codec_decodes_the_normalizer_accepts() {
    let letters: Vec<char> = "ABab01+/-_= \n!\u{e9}9zZ".chars().collect();
    let mut seed: u64 = 0x2545_F491_4F6C_DD1D;
    let mut decoded = 0;
    for _ in 0..20000 {
        seed = seed.wrapping_mul(6364136223846793005).wrapping_add(1442695040888963407);
        let length = (seed >> 33) as usize % 10;
        let mut s = String::new();
        for _ in 0..length {
            seed = seed.wrapping_mul(6364136223846793005).wrapping_add(1442695040888963407);
            s.push(letters[(seed >> 33) as usize % letters.len()]);
        }
        if let Ok(bytes) = Base64Decoder.decode(&s) {
            decoded += 1;
            assert_eq!(EncodedData::parse(&s).unwrap().decode().unwrap(), bytes, "{:?}", s);
        }
        if matches!(EncodedData::parse(&s), Err(DecodeckError::InvalidBase64 { .. })) {
            assert!(Base64Decoder.decode(&s).is_err(), "{:?}", s);
        }
    }
    assert!(decoded > 100);
}
