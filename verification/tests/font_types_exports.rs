use font_system::font_types::{
    Direction, FontDescriptor, FontId, FontMetrics, FontStretch, FontStyle, FontWeight, GlyphId,
    Point, RenderMode, Vector,
};

fn px(v: f32) -> i64 {
    (v * 64.0).round() as i64
}

fn fu(v: f32) -> i64 {
    v as i64
}

#[test]
fn test_re_exports_available() {
    // Given: All types should be re-exported at crate root
    // When: Using types without module prefix
    // Then: They should be accessible
    let _weight = FontWeight::Bold;
    let _style = FontStyle::Normal;
    let _stretch = FontStretch::Normal;
    let _direction = Direction::LeftToRight;
    let _mode = RenderMode::Gray;
    let _point = Point { x: px(0.0), y: px(0.0) };
    let _vector = Vector { x: px(1.0), y: px(0.0) };
    let _glyph_id = GlyphId { id: 1 };
    let _font_id: FontId = 0;
}

#[test]
fn test_font_descriptor_re_export() {
    // Given: FontDescriptor should be re-exported
    // When: Creating a descriptor at crate root
    // Then: It should work without module prefix
    let descriptor = FontDescriptor {
        family: vec!["Test".to_string()],
        weight: FontWeight::Regular,
        style: FontStyle::Normal,
        stretch: FontStretch::Normal,
        size: px(12.0),
    };
    assert_eq!(descriptor.size, px(12.0));
}

#[test]
fn test_font_metrics_re_export() {
    // Given: FontMetrics should be re-exported
    // When: Creating metrics at crate root
    // Then: It should work without module prefix
    let metrics = FontMetrics {
        units_per_em: 1000,
        ascent: fu(800.0),
        descent: fu(-200.0),
        line_gap: fu(0.0),
        cap_height: fu(700.0),
        x_height: fu(500.0),
        underline_position: fu(-50.0),
        underline_thickness: fu(25.0),
    };
    assert_eq!(metrics.units_per_em, 1000);
}
