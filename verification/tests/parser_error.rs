use font_system::font_parser::ParseError;
use std::io;

#[test]
fn test_parse_error_variants() {
    // Test all variants can be created
    let _ = ParseError::InvalidFormat;
    let _ = ParseError::MissingTable("test".to_string());
    let _ = ParseError::CorruptedData("test".to_string());
    let _ = ParseError::UnsupportedVersion;
}

#[test]
fn test_parse_error_display_messages() {
    assert_eq!(
        ParseError::InvalidFormat.to_string(),
        "Invalid font format"
    );
    assert_eq!(
        ParseError::MissingTable("cmap".to_string()).to_string(),
        "Missing required table: cmap"
    );
    assert_eq!(
        ParseError::CorruptedData("bad data".to_string()).to_string(),
        "Corrupted font data: bad data"
    );
    assert_eq!(
        ParseError::UnsupportedVersion.to_string(),
        "Unsupported font version"
    );
}

#[test]
fn test_io_error_conversion() {
    let io_err = io::Error::new(io::ErrorKind::UnexpectedEof, "EOF");
    let parse_err = ParseError::from(io_err);
    match parse_err {
        ParseError::CorruptedData(_) => (),
        _ => panic!("Expected CorruptedData variant"),
    }
}
