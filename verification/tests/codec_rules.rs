use base64::Engine;
use decodeck::encoding::base32::Base32Decoder;
use decodeck::encoding::base64::Base64Decoder;
use decodeck::encoding::base85::{fits_engine, Base85Decoder};
use decodeck::encoding::hex::HexDecoder;
use decodeck::encoding::url::UrlDecoder;
use decodeck::encoding::{Codec, Decoder, EncodingType};
use decodeck::error::{decoded_or_failed, DecodeckError};
use decodeck::text::chars_of;

const ALL: [EncodingType; 5] = [
    EncodingType::Base64,
    EncodingType::Hex,
    EncodingType::Base32,
    EncodingType::Url,
    EncodingType::Base85,
];

fn failure(r: Result<Vec<u8>, DecodeckError>) -> String {
    match r {
        Err(DecodeckError::DecodeFailed { message }) => message,
        other => panic!("expected a failed decode, got {:?}", other),
    }
}

fn is_no_input(r: Result<Vec<u8>, DecodeckError>) -> bool {
    matches!(r, Err(DecodeckError::NoInput))
}

/// What two results have in common: the bytes, or the kind and message of the error.
fn same(a: &Result<Vec<u8>, DecodeckError>, b: &Result<Vec<u8>, String>) -> bool {
    match (a, b) {
        (Ok(x), Ok(y)) => x == y,
        (Err(DecodeckError::NoInput), Err(y)) => y == "no input",
        (Err(DecodeckError::DecodeFailed { message }), Err(y)) => message == y,
        _ => false,
    }
}

/// Texts made of the characters that the rules turn on, in a fixed order.
fn corpus(alphabet: &str, count: usize, longest: usize) -> Vec<String> {
    let letters: Vec<char> = alphabet.chars().collect();
    let mut seed: u64 = 0x2545_F491_4F6C_DD1D;
    let mut texts = Vec::new();
    for _ in 0..count {
        seed = seed.wrapping_mul(6364136223846793005).wrapping_add(1442695040888963407);
        let length = (seed >> 33) as usize % (longest + 1);
        let mut s = String::new();
        for _ in 0..length {
            seed = seed.wrapping_mul(6364136223846793005).wrapping_add(1442695040888963407);
            s.push(letters[(seed >> 33) as usize % letters.len()]);
        }
        texts.push(s);
    }
    texts
}

fn padded_to(s: &str, block: usize) -> String {
    let remainder = s.len() % block;
    if remainder == 0 {
        s.to_string()
    } else {
        format!("{}{}", s, "=".repeat(block - remainder))
    }
}

fn base64_by_hand(input: &str) -> Result<Vec<u8>, String> {
    let cleaned: String = input.chars().filter(|c| !c.is_whitespace()).collect();
    if cleaned.is_empty() {
        return Err("no input".to_string());
    }
    let padded = padded_to(&cleaned, 4);
    let result = if cleaned.contains('-') || cleaned.contains('_') {
        base64::engine::general_purpose::URL_SAFE.decode(&padded)
    } else {
        base64::engine::general_purpose::STANDARD.decode(&padded)
    };
    result.map_err(|e| format!("Invalid Base64: {}", e))
}

fn hex_by_hand(input: &str) -> Result<Vec<u8>, String> {
    let cleaned = input
        .trim()
        .strip_prefix("0x")
        .or_else(|| input.trim().strip_prefix("0X"))
        .unwrap_or(input.trim());
    let digits: String = cleaned.chars().filter(|c| !c.is_whitespace()).collect();
    if digits.is_empty() {
        return Err("no input".to_string());
    }
    data_encoding::HEXLOWER_PERMISSIVE
        .decode(digits.as_bytes())
        .map_err(|e| format!("Invalid hex: {}", e))
}

fn base32_by_hand(input: &str) -> Result<Vec<u8>, String> {
    let cleaned: String = input
        .chars()
        .filter(|c| !c.is_whitespace())
        .flat_map(|c| c.to_uppercase())
        .collect();
    if cleaned.is_empty() {
        return Err("no input".to_string());
    }
    data_encoding::BASE32
        .decode(padded_to(&cleaned, 8).as_bytes())
        .map_err(|e| format!("Invalid Base32: {}", e))
}

fn url_by_hand(input: &str) -> Result<Vec<u8>, String> {
    if input.is_empty() {
        return Err("no input".to_string());
    }
    let with_spaces = input.replace('+', " ");
    percent_encoding::percent_decode_str(&with_spaces)
        .decode_utf8()
        .map(|s| s.into_owned().into_bytes())
        .map_err(|e| format!("Invalid URL encoding: {}", e))
}

/// Whether adding up the groups of a text stays within 32 bits, or a
/// character that is no digit comes first.
fn groups_stay_in_range(text: &str) -> bool {
    let digits = text
        .trim_start()
        .trim_start_matches("<~")
        .trim_end()
        .trim_end_matches("~>")
        .bytes()
        .filter(|c| !c.is_ascii_whitespace());
    let table: [u64; 5] = [85 * 85 * 85 * 85, 85 * 85 * 85, 85 * 85, 85, 1];
    let mut counter = 0;
    let mut chunk: u64 = 0;
    for digit in digits {
        if digit < 33 || digit > 117 {
            return true;
        }
        chunk += (digit - 33) as u64 * table[counter];
        if chunk > u32::MAX as u64 {
            return false;
        }
        if counter == 4 {
            chunk = 0;
            counter = 0;
        } else {
            counter += 1;
        }
    }
    while counter != 0 {
        chunk += 84 * table[counter];
        if chunk > u32::MAX as u64 {
            return false;
        }
        counter = if counter == 4 { 0 } else { counter + 1 };
    }
    true
}

fn base85_by_hand(input: &str) -> Result<Vec<u8>, String> {
    let trimmed = input.trim();
    if trimmed.is_empty() {
        return Err("no input".to_string());
    }
    let data = if trimmed.starts_with("<~") && trimmed.ends_with("~>") && trimmed.len() >= 4 {
        &trimmed[2..trimmed.len() - 2]
    } else {
        trimmed
    };
    if !groups_stay_in_range(data) {
        return Err("Invalid Ascii85: \"Group value is out of range for Ascii85\"".to_string());
    }
    ascii85::decode(data).map_err(|e| format!("Invalid Ascii85: {:?}", e))
}

#[test]
fn every_decoder_refuses_empty_input_as_no_input() {
    for encoding in ALL {
        assert!(is_no_input(encoding.decoder().decode("")), "{:?}", encoding);
    }
    // blank input is empty once cleaned, except for URL encoding, which cleans nothing
    for blank in [" ", "\t\n", " \u{a0} "] {
        assert!(is_no_input(Base64Decoder.decode(blank)));
        assert!(is_no_input(HexDecoder.decode(blank)));
        assert!(is_no_input(Base32Decoder.decode(blank)));
        assert!(is_no_input(Base85Decoder.decode(blank)));
    }
    assert_eq!(UrlDecoder.decode(" ").unwrap(), b" ");
    assert!(is_no_input(HexDecoder.decode("0x")));
    assert!(is_no_input(HexDecoder.decode(" 0X ")));
}

#[test]
fn every_decoder_fails_on_malformed_content() {
    assert_eq!(failure(Base64Decoder.decode("!!!!")), "Invalid Base64: Invalid symbol 33, offset 0.");
    assert_eq!(failure(Base64Decoder.decode("SGVsbG8==")), "Invalid Base64: Invalid symbol 61, offset 7.");
    assert_eq!(failure(Base64Decoder.decode("AB")), "Invalid Base64: Invalid last symbol 66, offset 1.");
    assert_eq!(failure(Base64Decoder.decode("a+b-")), "Invalid Base64: Invalid symbol 43, offset 1.");
    assert_eq!(failure(Base64Decoder.decode("\u{e9}")), "Invalid Base64: Invalid symbol 195, offset 0.");
    assert_eq!(failure(HexDecoder.decode("zz")), "Invalid hex: invalid symbol at 0");
    assert_eq!(failure(HexDecoder.decode("abc")), "Invalid hex: invalid length at 2");
    assert_eq!(failure(HexDecoder.decode("0x0x41")), "Invalid hex: invalid symbol at 1");
    assert_eq!(failure(Base32Decoder.decode("1")), "Invalid Base32: invalid padding length at 1");
    assert_eq!(failure(Base32Decoder.decode("JBSWY3D")), "Invalid Base32: non-zero trailing bits at 6");
    assert_eq!(
        failure(UrlDecoder.decode("%FF")),
        "Invalid URL encoding: invalid utf-8 sequence of 1 bytes from index 0"
    );
    assert_eq!(
        failure(UrlDecoder.decode("%E9")),
        "Invalid URL encoding: incomplete utf-8 byte sequence from index 0"
    );
    assert_eq!(
        failure(Base85Decoder.decode("~~~~")),
        "Invalid Ascii85: \"Input char is out of range for Ascii85\""
    );
    assert_eq!(failure(Base85Decoder.decode("!!!!z")), "Invalid Ascii85: \"Missaligned z in input\"");
}

#[test]
fn base64_decodes_both_alphabets_with_or_without_padding() {
    assert_eq!(Base64Decoder.decode("SGVsbG8gV29ybGQh").unwrap(), b"Hello World!");
    assert_eq!(Base64Decoder.decode("SGVsbG8").unwrap(), b"Hello");
    assert_eq!(Base64Decoder.decode("SGk").unwrap(), b"Hi");
    assert_eq!(Base64Decoder.decode(" SG Vs\nbG8= ").unwrap(), b"Hello");
    assert_eq!(Base64Decoder.decode("a-b_").unwrap(), vec![107, 230, 255]);
    assert_eq!(Base64Decoder.decode("a+b/").unwrap(), vec![107, 230, 255]);
    assert_eq!(Base64Decoder.decode("-_-_").unwrap(), vec![251, 255, 191]);
}

#[test]
fn hexadecimal_decodes_either_case_with_prefix_and_spaces() {
    assert_eq!(HexDecoder.decode("0x41").unwrap(), b"A");
    assert_eq!(HexDecoder.decode(" 0X41 42 ").unwrap(), b"AB");
    assert_eq!(HexDecoder.decode("dEaDbEeF").unwrap(), vec![0xde, 0xad, 0xbe, 0xef]);
    assert_eq!(HexDecoder.decode("0x 4 1").unwrap(), b"A");
    // only one prefix is dropped, and only at the start
    assert!(HexDecoder.decode("410x42").is_err());
    assert!(HexDecoder.can_decode(" 0x41 "));
    assert!(!HexDecoder.can_decode("0x"));
    assert!(!HexDecoder.can_decode(""));
    assert!(!HexDecoder.can_decode("4\u{e9}"));
}

#[test]
fn base32_folds_case_and_pads_to_eight() {
    assert_eq!(Base32Decoder.decode("MFRGG").unwrap(), b"abc");
    assert_eq!(Base32Decoder.decode("mfrgg").unwrap(), b"abc");
    assert_eq!(Base32Decoder.decode("MY").unwrap(), b"f");
    assert_eq!(Base32Decoder.decode("MY======").unwrap(), b"f");
    assert_eq!(Base32Decoder.decode(" jbsw y3dp ").unwrap(), b"Hello");
    // characters whose uppercase form is an ASCII letter count as that letter
    assert_eq!(Base32Decoder.decode("jb\u{17f}wy3dp").unwrap(), b"Hello");
    assert!(Base32Decoder.can_decode("jb\u{17f}wy3dp"));
    assert!(Base32Decoder.can_decode("my======"));
    assert!(!Base32Decoder.can_decode("my-"));
    assert!(!Base32Decoder.can_decode(" "));
}

#[test]
fn url_decoding_takes_plus_for_space_and_leaves_stray_percents() {
    assert_eq!(UrlDecoder.decode("a+b").unwrap(), b"a b");
    assert_eq!(UrlDecoder.decode("a%2Bb").unwrap(), b"a+b");
    assert_eq!(UrlDecoder.decode("%").unwrap(), b"%");
    assert_eq!(UrlDecoder.decode("%4").unwrap(), b"%4");
    assert_eq!(UrlDecoder.decode("%41%").unwrap(), b"A%");
    assert_eq!(UrlDecoder.decode("%zz").unwrap(), b"%zz");
    assert_eq!(UrlDecoder.decode("%4a%4A").unwrap(), b"JJ");
    assert_eq!(UrlDecoder.decode("caf%C3%A9").unwrap(), "caf\u{e9}".as_bytes());
    assert_eq!(UrlDecoder.decode("caf\u{e9}").unwrap(), "caf\u{e9}".as_bytes());
    assert_eq!(UrlDecoder.decode("%25%32%35").unwrap(), b"%25");
}

#[test]
fn url_self_test_looks_at_what_follows_each_percent() {
    assert!(UrlDecoder.can_decode("%41"));
    assert!(UrlDecoder.can_decode("a%41b%42"));
    assert!(UrlDecoder.can_decode("abc%"));
    assert!(UrlDecoder.can_decode("abc%4"));
    assert!(!UrlDecoder.can_decode("abc%4z"));
    assert!(!UrlDecoder.can_decode("abc%z"));
    assert!(!UrlDecoder.can_decode("%zz%41"));
    assert!(!UrlDecoder.can_decode("%%41"));
    assert!(!UrlDecoder.can_decode(""));
    assert!(!UrlDecoder.can_decode("abc"));
    assert!(UrlDecoder.can_decode("\u{e9}%41"));
}

#[test]
fn ascii85_drops_its_marks_where_both_are_there() {
    assert_eq!(Base85Decoder.decode("<~87cURD]j~>").unwrap(), b"Hello ");
    assert_eq!(Base85Decoder.decode(" <~ 87cURD]j ~> ").unwrap(), b"Hello ");
    assert_eq!(Base85Decoder.decode("87cUR D]j").unwrap(), b"Hello ");
    assert_eq!(Base85Decoder.decode("<~<~87cURD]j~>~>").unwrap(), b"Hello ");
    assert_eq!(Base85Decoder.decode("<~~>").unwrap(), b"");
    assert_eq!(Base85Decoder.decode("s8W-!").unwrap(), vec![255, 255, 255, 255]);
    assert_eq!(Base85Decoder.decode("!!!!!").unwrap(), vec![0, 0, 0, 0]);
    // marks that share their tilde frame nothing
    assert_eq!(Base85Decoder.decode("<~>").unwrap(), b"");
    assert!(Base85Decoder.can_decode("<~>"));
    assert!(Base85Decoder.can_decode("  <~~>  "));
    assert!(!Base85Decoder.can_decode("<~"));
    assert!(!Base85Decoder.can_decode("~>"));
    assert!(!Base85Decoder.can_decode(""));
}

#[test]
fn ascii85_groups_beyond_32_bits_are_refused() {
    let message = "Invalid Ascii85: \"Group value is out of range for Ascii85\"";
    for text in [
        "uuuuu", "s8W-\"", "t", "u", "s", "s8", "s8W", "s8W-", "<~uuuuu~>", "!!!!!uuuuu", "s8W-!s8W-\"",
        "t!!!!",
    ] {
        assert!(!fits_engine(&chars_of(text)), "{:?}", text);
        assert_eq!(failure(Base85Decoder.decode(text)), message, "{:?}", text);
    }
    for text in [
        "s8W-!", "r", "rr", "!", "", "rrrrr", "<~s8W-!~>", "~uuuuu", "\u{e9}uuuuu", "s8W-! s8W-!", "s8W,u",
    ] {
        assert!(fits_engine(&chars_of(text)), "{:?}", text);
    }
    // a character that is no digit ends the reading before the group is added up
    assert_eq!(
        failure(Base85Decoder.decode("vuuuuu")),
        "Invalid Ascii85: \"Input char is out of range for Ascii85\""
    );
}

#[test]
fn decoders_agree_with_the_engines_on_many_texts() {
    let base64_like = corpus("ABab01+/-_= \n!\u{e9}9zZ", 6000, 10);
    for s in &base64_like {
        assert!(same(&Base64Decoder.decode(s), &base64_by_hand(s)), "base64 {:?}", s);
    }
    let hex_like = corpus("0xX19aAfFgG \t\u{a0}\u{e9}", 6000, 10);
    for s in &hex_like {
        assert!(same(&HexDecoder.decode(s), &hex_by_hand(s)), "hex {:?}", s);
    }
    let base32_like = corpus("ABYZabyz2701= \u{17f}\u{131}\u{df}\u{fb01}-", 6000, 12);
    for s in &base32_like {
        assert!(same(&Base32Decoder.decode(s), &base32_by_hand(s)), "base32 {:?}", s);
    }
    let url_like = corpus("%+aZ09fFgG4 \u{e9}%%cC3E", 6000, 12);
    for s in &url_like {
        assert!(same(&UrlDecoder.decode(s), &url_by_hand(s)), "url {:?}", s);
    }
    let ascii85_like = corpus("<~>!5Rrstuzv \n\u{b}\u{c}\u{a0}\u{e9}", 12000, 14);
    for s in &ascii85_like {
        assert!(same(&Base85Decoder.decode(s), &base85_by_hand(s)), "ascii85 {:?}", s);
    }
}

#[test]
fn the_codec_of_an_encoding_is_its_decoder() {
    let samples = ["SGVsbG8=", "0x48656c6c6f", "JBSWY3DP", "Hello%20World", "<~87cURD]j~>", "", "??"];
    for s in samples {
        assert!(same(&EncodingType::Base64.decoder().decode(s), &base64_by_hand(s)));
        assert!(same(&EncodingType::Hex.decoder().decode(s), &hex_by_hand(s)));
        assert!(same(&EncodingType::Base32.decoder().decode(s), &base32_by_hand(s)));
        assert!(same(&EncodingType::Url.decoder().decode(s), &url_by_hand(s)));
        assert!(same(&EncodingType::Base85.decoder().decode(s), &base85_by_hand(s)));
        assert_eq!(EncodingType::Base64.decoder().can_decode(s), Base64Decoder.can_decode(s));
        assert_eq!(EncodingType::Hex.decoder().can_decode(s), HexDecoder.can_decode(s));
        assert_eq!(EncodingType::Base32.decoder().can_decode(s), Base32Decoder.can_decode(s));
        assert_eq!(EncodingType::Url.decoder().can_decode(s), UrlDecoder.can_decode(s));
        assert_eq!(EncodingType::Base85.decoder().can_decode(s), Base85Decoder.can_decode(s));
    }
    assert!(matches!(EncodingType::Base64.decoder(), Codec::Base64(_)));
    assert!(matches!(EncodingType::Hex.decoder(), Codec::Hex(_)));
    assert!(matches!(EncodingType::Base32.decoder(), Codec::Base32(_)));
    assert!(matches!(EncodingType::Url.decoder(), Codec::Url(_)));
    assert!(matches!(EncodingType::Base85.decoder(), Codec::Base85(_)));
}

#[test]
fn names_are_the_lowercase_tokens() {
    let tokens = ["base64", "hex", "base32", "url", "base85"];
    for (encoding, token) in ALL.iter().zip(tokens) {
        assert_eq!(encoding.display_name(), token);
        assert_eq!(encoding.decoder().name(), token);
    }
    assert_eq!(Base64Decoder.name(), "base64");
    assert_eq!(HexDecoder.name(), "hex");
    assert_eq!(Base32Decoder.name(), "base32");
    assert_eq!(UrlDecoder.name(), "url");
    assert_eq!(Base85Decoder.name(), "base85");
}

#[test]
fn an_engine_fault_becomes_a_failed_decode_with_its_prefix() {
    assert_eq!(decoded_or_failed("Invalid hex: ", Ok(vec![1, 2])).unwrap(), vec![1, 2]);
    assert_eq!(failure(decoded_or_failed("Invalid hex: ", Err("odd".to_string()))), "Invalid hex: odd");
    assert_eq!(failure(decoded_or_failed("", Err("odd".to_string()))), "odd");
}
