#[test]
fn test_placeholder() {
    assert!(true);
}
