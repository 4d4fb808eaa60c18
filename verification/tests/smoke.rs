use font_system::font_types::FontId;
// Smoke tests: the font system library can be imported.

#[test]
fn smoke_test_workspace_builds() {
    // Passes if the library compiles and links.
    println!("Smoke test passed: library compiled successfully");
    let _id: FontId = 0;
    assert!(true);
}

#[test]
fn smoke_test_all_tests_importable() {
    // Passes if the tests can be built and run.
    println!("Smoke test passed: test infrastructure functional");
    assert!(true);
}

