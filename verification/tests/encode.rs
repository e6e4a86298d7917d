use decodeck::encoding::encode::encode;
use decodeck::encoding::EncodingType;

#[test]
fn test_encode_base64() {
    let result = encode(b"Hello", EncodingType::Base64).unwrap();
    assert_eq!(result, "SGVsbG8=");
}

#[test]
fn test_encode_hex() {
    let result = encode(b"Hello", EncodingType::Hex).unwrap();
    assert_eq!(result, "48656c6c6f");
}

#[test]
fn test_encode_base32() {
    let result = encode(b"Hello", EncodingType::Base32).unwrap();
    assert_eq!(result, "JBSWY3DP");
}

#[test]
fn test_encode_url() {
    let result = encode(b"Hello World!", EncodingType::Url).unwrap();
    assert_eq!(result, "Hello%20World%21");
}

#[test]
fn test_encode_base85() {
    let result = encode(b"test", EncodingType::Base85).unwrap();
    // the engine adds the marks itself
    assert!(result.starts_with("<~") && result.ends_with("~>"));
    assert!(result.contains("FCfN8"));
}
