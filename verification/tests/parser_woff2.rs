use font_system::font_parser::bytes::read_u32;
use font_system::font_parser::{ParseError, Woff2Font};

#[test]
fn test_woff2_signature_detection() {
    // WOFF2 signature: 0x774F4632 ("wOF2")
    let mut data = vec![0x77, 0x4F, 0x46, 0x32]; // "wOF2"

    // Add minimal header (not complete, just for signature test)
    data.extend_from_slice(&[0, 0, 0, 0]); // flavor
    data.extend_from_slice(&[0, 0, 0, 48]); // length
    data.extend_from_slice(&[0, 0]); // num_tables

    let signature = read_u32(&data, 0).unwrap();

    assert_eq!(signature, 0x774F4632);
}

#[test]
fn test_woff2_invalid_signature() {
    let data = vec![0x00, 0x01, 0x00, 0x00]; // Not WOFF2
    let result = Woff2Font::parse(&data);
    assert!(result.is_err());
    assert_eq!(result.unwrap_err(), ParseError::InvalidFormat);
}

#[test]
fn test_woff2_too_short() {
    let data = vec![0x77, 0x4F]; // Too short
    let result = Woff2Font::parse(&data);
    assert!(result.is_err());
}
