use font_system::glyph_renderer::GlyphRenderer;

#[test]
fn lib_test_new_creates_renderer() {
    let renderer = GlyphRenderer::new();
    let stats = renderer.cache_stats();
    assert_eq!(stats.entries, 0);
}

#[test]
fn test_cache_stats_initially_empty() {
    let renderer = GlyphRenderer::new();
    let stats = renderer.cache_stats();
    assert_eq!(stats.entries, 0);
    assert_eq!(stats.hits, 0);
    assert_eq!(stats.misses, 0);
}
