use font_system::font_parser::Tag;

#[test]
fn test_tag_from_str_basic() {
    let tag: Result<Tag, _> = "cmap".parse();
    assert!(tag.is_ok());
}

#[test]
fn test_tag_from_str_invalid_length() {
    let r1: Result<Tag, _> = "".parse();
    let r2: Result<Tag, _> = "abc".parse();
    let r3: Result<Tag, _> = "abcde".parse();
    assert!(r1.is_err());
    assert!(r2.is_err());
    assert!(r3.is_err());
}

#[test]
fn test_tag_from_bytes_to_bytes() {
    let tag = Tag::from_bytes(0x636D6170);
    assert_eq!(tag.to_bytes(), 0x636D6170);
}

#[test]
fn types_test_tag_display() {
    let tag: Tag = "head".parse().unwrap();
    assert_eq!(tag.to_string(), "head");
}
