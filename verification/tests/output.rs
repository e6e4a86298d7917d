use decodeck::decoder::EncodedData;
use decodeck::encoding::{DetectionConfidence, EncodingInfo, EncodingType};
use decodeck::error::DecodeckError;
use decodeck::output;
use decodeck::output::format_size;
use decodeck::output::json::encoding_output;
use decodeck::output::text::encoding_line;
use std::path::Path;

#[test]
fn valid_absolute_path_is_accepted() {
    let path = Path::new("/tmp/test_output.bin");
    assert!(output::validate_output_path(path).is_ok());
}

#[test]
fn valid_relative_path_is_accepted() {
    let path = Path::new("output.bin");
    assert!(output::validate_output_path(path).is_ok());
}

#[test]
fn path_with_extension_is_accepted() {
    let path = Path::new("/tmp/decoded_image.png");
    assert!(output::validate_output_path(path).is_ok());
}

#[test]
fn empty_path_is_rejected() {
    let path = Path::new("");
    assert!(output::validate_output_path(path).is_err());
}

#[test]
fn reject_parent_traversal() {
    let path = Path::new("../../../etc/passwd");
    assert!(output::validate_output_path(path).is_err());
}

#[test]
fn reject_hidden_parent_traversal() {
    let path = Path::new("/tmp/test/../../../etc/passwd");
    let result = output::validate_output_path(path);
    // Should either reject or canonicalize safely
    if result.is_ok() {
        // If accepted, path should be safe after canonicalization
        let canonical = path.canonicalize();
        // Canonicalize may fail if path doesn't exist - that's ok
        assert!(canonical.is_err() || !canonical.unwrap().starts_with("/etc"));
    }
}

#[test]
fn reject_null_bytes_in_path() {
    // Null bytes in paths can be used for injection attacks
    let path_str = "/tmp/test\0.txt";
    // Path::new doesn't allow null bytes in Rust
    assert!(path_str.contains('\0'));
}

#[test]
fn allow_safe_relative_path() {
    let path = Path::new("./output/decoded.bin");
    assert!(output::validate_output_path(path).is_ok());
}

#[test]
fn refused_paths_say_why() {
    match output::validate_output_path(Path::new("")) {
        Err(DecodeckError::InvalidOutputPath { path, reason }) => {
            assert_eq!(path, "");
            assert_eq!(reason, "Path cannot be empty");
        }
        other => panic!("unexpected result: {:?}", other),
    }
    match output::validate_output_path(Path::new("a/../b")) {
        Err(DecodeckError::InvalidOutputPath { path, reason }) => {
            assert_eq!(path, "a/../b");
            assert_eq!(reason, "Path traversal not allowed");
        }
        other => panic!("unexpected result: {:?}", other),
    }
    // two dots inside a name are no parent directory
    assert!(output::validate_output_path(Path::new("a..b/c")).is_ok());
    assert!(output::validate_output_path(Path::new("archive..tar")).is_ok());
}

#[test]
fn refusal_needs_both_the_dots_and_the_component() {
    assert!(output::check_output_path(false, "a/../b", true).is_err());
    assert!(output::check_output_path(false, "a/../b", false).is_ok());
    assert!(output::check_output_path(false, "a/b", true).is_ok());
    assert!(output::check_output_path(true, "a/b", false).is_err());
    assert!(output::check_output_path(true, "", false).is_err());
}

#[test]
fn format_bytes() {
    assert_eq!(format_size(0), "0 bytes");
    assert_eq!(format_size(1), "1 bytes");
    assert_eq!(format_size(512), "512 bytes");
    assert_eq!(format_size(1023), "1023 bytes");
}

#[test]
fn format_kilobytes() {
    assert_eq!(format_size(1024), "1.0 KB");
    assert_eq!(format_size(1536), "1.5 KB");
    assert_eq!(format_size(10240), "10.0 KB");
}

#[test]
fn format_megabytes() {
    assert_eq!(format_size(1048576), "1.0 MB");
    assert_eq!(format_size(1572864), "1.5 MB");
    assert_eq!(format_size(10485760), "10.0 MB");
}

#[test]
fn format_gigabytes() {
    assert_eq!(format_size(1073741824), "1.0 GB");
    assert_eq!(format_size(1610612736), "1.5 GB");
}

fn in_floating_point(bytes: usize) -> String {
    const KB: usize = 1024;
    const MB: usize = KB * 1024;
    const GB: usize = MB * 1024;

    if bytes >= GB {
        format!("{:.1} GB", bytes as f64 / GB as f64)
    } else if bytes >= MB {
        format!("{:.1} MB", bytes as f64 / MB as f64)
    } else if bytes >= KB {
        format!("{:.1} KB", bytes as f64 / KB as f64)
    } else {
        format!("{} bytes", bytes)
    }
}

#[test]
fn sizes_are_rounded_as_doubles_are() {
    // halves go to the even neighbour
    assert_eq!(format_size(1024 + 51), "1.0 KB");
    assert_eq!(format_size(1280), "1.2 KB");
    assert_eq!(format_size(1024 + 3 * 128), "1.4 KB");
    assert_eq!(format_size(1048575), "1024.0 KB");
    assert_eq!(format_size(1073741823), "1024.0 MB");
    let mut samples: Vec<usize> = vec![0, 1, 1023, 1024, 1025, 1075, 1076, 1280, 1281, 1126, 1127];
    for shift in 10..usize::BITS {
        let base = 1usize << shift;
        for odd in [1usize, 3, 5, 7, 9, 11, 13, 15, 17, 19, 21] {
            // ties and their neighbours, where they fit
            let tie = (base / 32).wrapping_mul(odd).wrapping_add(base);
            samples.push(tie);
            samples.push(tie.wrapping_add(1));
            samples.push(tie.wrapping_sub(1));
            samples.push(tie.wrapping_add(511));
            samples.push(tie.wrapping_sub(513));
        }
        samples.push(base);
        samples.push(base - 1);
        samples.push(base + 1);
    }
    samples.push(usize::MAX);
    samples.push(usize::MAX - 1);
    samples.push(usize::MAX / 3);
    let mut seed: u64 = 0x9E37_79B9_7F4A_7C15;
    for _ in 0..20000 {
        seed = seed.wrapping_mul(6364136223846793005).wrapping_add(1442695040888963407);
        let width = (seed >> 58) as u32 % usize::BITS;
        samples.push(((seed >> 3) as usize) >> width);
    }
    for bytes in samples {
        assert_eq!(format_size(bytes), in_floating_point(bytes), "{} bytes", bytes);
    }
}

fn base64_info(detected: bool, confidence: DetectionConfidence) -> EncodingInfo {
    EncodingInfo { encoding_type: EncodingType::Base64, detected, confidence }
}

#[test]
fn the_encoding_line_names_variant_and_padding() {
    let padded = Some(EncodedData::parse("SGVsbG8=").unwrap());
    let bare = Some(EncodedData::parse("SGVsbG8").unwrap());
    let url_safe = Some(EncodedData::parse("a-b_").unwrap());
    assert_eq!(
        encoding_line(&base64_info(true, DetectionConfidence::Low), &padded),
        "Encoding: Standard Base64 (with padding) (auto-detected, low confidence)"
    );
    assert_eq!(
        encoding_line(&EncodingInfo::explicit(EncodingType::Base64), &bare),
        "Encoding: Standard Base64 (without padding (added)) (specified)"
    );
    assert_eq!(
        encoding_line(&base64_info(true, DetectionConfidence::High), &url_safe),
        "Encoding: URL-safe Base64 (without padding (added)) (auto-detected, high confidence)"
    );
    assert_eq!(
        encoding_line(&base64_info(true, DetectionConfidence::Medium), &None),
        "Encoding: Base64 (auto-detected, medium confidence)"
    );
    assert_eq!(encoding_line(&base64_info(true, DetectionConfidence::Explicit), &None), "Encoding: Base64");
}

#[test]
fn the_encoding_line_names_the_other_encodings_by_their_token() {
    let hex = EncodingInfo::detected(EncodingType::Hex, DetectionConfidence::High);
    assert_eq!(encoding_line(&hex, &None), "Encoding: hex (auto-detected, high confidence)");
    let url = EncodingInfo::explicit(EncodingType::Url);
    assert_eq!(encoding_line(&url, &None), "Encoding: url (specified)");
    // normalized Base64 text is of no account for another encoding
    let base32 = EncodingInfo::detected(EncodingType::Base32, DetectionConfidence::Medium);
    let stray = Some(EncodedData::parse("SGVsbG8=").unwrap());
    assert_eq!(encoding_line(&base32, &stray), "Encoding: base32 (auto-detected, medium confidence)");
    let base85 = EncodingInfo::detected(EncodingType::Base85, DetectionConfidence::Low);
    assert_eq!(encoding_line(&base85, &None), "Encoding: base85 (auto-detected, low confidence)");
}

#[test]
fn the_encoding_section_carries_variant_and_padding_for_base64_only() {
    let info = EncodingInfo::detected(EncodingType::Base64, DetectionConfidence::Low);
    let section = encoding_output(&info, &Some(EncodedData::parse("a-b_").unwrap()));
    assert_eq!(section.encoding_type, EncodingType::Base64);
    assert!(section.detected);
    assert_eq!(section.confidence, DetectionConfidence::Low);
    assert_eq!(section.variant, Some("url-safe".to_string()));
    assert_eq!(section.had_padding, Some(false));
    let section = encoding_output(&info, &Some(EncodedData::parse("SGk=").unwrap()));
    assert_eq!(section.variant, Some("standard".to_string()));
    assert_eq!(section.had_padding, Some(true));
    let hex = EncodingInfo::explicit(EncodingType::Hex);
    let section = encoding_output(&hex, &None);
    assert_eq!(section.encoding_type, EncodingType::Hex);
    assert!(!section.detected);
    assert_eq!(section.confidence, DetectionConfidence::Explicit);
    assert_eq!(section.variant, None);
    assert_eq!(section.had_padding, None);
}
