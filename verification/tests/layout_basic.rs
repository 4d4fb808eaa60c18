use font_system::font_types::{GlyphId, Point, PositionedGlyph, ShapedText, Vector};
use font_system::text_layout::{
    JustificationMode, Justifier, LayoutError, LayoutLine, LayoutOptions, LayoutResult, LineBreak,
    LineBreaker, ParagraphLayout, TextDirection, VerticalLayout,
};

fn px(v: f32) -> i64 {
    (v * 64.0).round() as i64
}

fn sp(v: f32) -> i32 {
    (v * 65536.0).round() as i32
}

#[test]
fn test_all_types_exported() {
    // Given: The public API
    // When: Using exported types
    // Then: All should be accessible without module paths

    // Types
    let _options = LayoutOptions::default();
    let _mode = JustificationMode::Left;
    let _direction = TextDirection::LeftToRight;

    // Main APIs
    let _paragraph_layout = ParagraphLayout::new();
    let _line_breaker = LineBreaker::new();
    let _justifier = Justifier::new();
    let _vertical_layout = VerticalLayout::new();
}

#[test]
fn test_error_type_exported() {
    // Given: Layout errors
    // When: Creating error instances
    // Then: Should be accessible from crate root
    let _err1 = LayoutError::InvalidOptions("test".to_string());
    let _err2 = LayoutError::InvalidText("test".to_string());
    let _err3 = LayoutError::Overflow("test".to_string());
}

#[test]
fn test_result_types_exported() {
    // Given: Layout result types
    // When: Creating instances
    // Then: Should be accessible from crate root
    let _result = LayoutResult {
        lines: vec![],
        total_height: px(0.0),
        total_width: px(0.0),
        overflow: false,
    };

    let _line = LayoutLine {
        glyphs: vec![],
        width: px(0.0),
        height: px(0.0),
        baseline: px(0.0),
        x_offset: px(0.0),
        y_offset: px(0.0),
        text_range: (0, 0),
    };
}

#[test]
fn test_line_break_exported() {
    // Given: LineBreak type
    // When: Creating instances
    // Then: Should be accessible from crate root
    let _break = LineBreak {
        offset: 10,
        required: true,
    };
}

#[test]
fn test_default_implementations() {
    // Given: Types with Default implementations
    // When: Using default()
    // Then: Should create sensible defaults
    let options = LayoutOptions::default();
    assert_eq!(options.max_width, px(500.0));
    assert_eq!(options.justification, JustificationMode::Left);
    assert_eq!(options.line_spacing, sp(1.2));

    let _layout = ParagraphLayout::default();
    let _breaker = LineBreaker::default();
    let _justifier = Justifier::default();
    let _vertical = VerticalLayout::default();
}

#[test]
fn test_integration_basic_layout() {
    // Given: A paragraph layout engine and shaped text
    // When: Performing basic layout
    // Then: Should integrate all components successfully

    let layout = ParagraphLayout::new();

    // Create simple shaped text
    let glyphs = vec![
        PositionedGlyph {
            glyph_id: GlyphId { id: 1 },
            font_id: 0,
            position: Point { x: px(0.0), y: px(0.0) },
            advance: Vector { x: px(10.0), y: px(0.0) },
            offset: Vector { x: px(0.0), y: px(0.0) },
        },
        PositionedGlyph {
            glyph_id: GlyphId { id: 2 },
            font_id: 0,
            position: Point { x: px(10.0), y: px(0.0) },
            advance: Vector { x: px(10.0), y: px(0.0) },
            offset: Vector { x: px(0.0), y: px(0.0) },
        },
    ];

    let shaped_text = ShapedText {
        glyphs,
        width: px(20.0),
        height: px(20.0),
        baseline: px(15.0),
    };

    let options = LayoutOptions {
        max_width: px(100.0),
        max_height: None,
        justification: JustificationMode::Left,
        line_spacing: sp(1.0),
        direction: TextDirection::LeftToRight,
    };

    let result = layout.layout_paragraph("Hi", &shaped_text, &options);

    assert!(result.is_ok());
    let result = result.unwrap();
    assert!(!result.lines.is_empty());
}

#[test]
fn test_integration_line_breaking() {
    // Given: Line breaker
    // When: Finding breaks in text
    // Then: Should work correctly
    let breaker = LineBreaker::new();
    let breaks = breaker.find_breaks("Hello world");

    // Should find at least one break
    assert!(!breaks.is_empty());
}

#[test]
fn test_integration_justification() {
    // Given: Justifier and a line
    // When: Applying justification
    // Then: Should modify line correctly

    let justifier = Justifier::new();
    let mut line = LayoutLine {
        glyphs: vec![PositionedGlyph {
            glyph_id: GlyphId { id: 1 },
            font_id: 0,
            position: Point { x: px(0.0), y: px(0.0) },
            advance: Vector { x: px(10.0), y: px(0.0) },
            offset: Vector { x: px(0.0), y: px(0.0) },
        }],
        width: px(50.0),
        height: px(20.0),
        baseline: px(15.0),
        x_offset: px(0.0),
        y_offset: px(0.0),
        text_range: (0, 5),
    };

    justifier.justify_line(&mut line, px(100.0), JustificationMode::Center);

    // Should center the line
    assert_eq!(line.x_offset, px(25.0)); // (100 - 50) / 2
}

#[test]
fn test_integration_vertical_layout() {
    // Given: Vertical layout engine
    // When: Laying out vertical text
    // Then: Should create vertical layout

    let layout = VerticalLayout::new();

    let glyphs = vec![PositionedGlyph {
        glyph_id: GlyphId { id: 1 },
        font_id: 0,
        position: Point { x: px(0.0), y: px(0.0) },
        advance: Vector { x: px(10.0), y: px(0.0) },
        offset: Vector { x: px(0.0), y: px(0.0) },
    }];

    let shaped_text = ShapedText {
        glyphs,
        width: px(20.0),
        height: px(20.0),
        baseline: px(15.0),
    };

    let options = LayoutOptions {
        max_width: px(100.0),
        max_height: None,
        justification: JustificationMode::Left,
        line_spacing: sp(1.0),
        direction: TextDirection::TopToBottom,
    };

    let result = layout.layout_vertical("縦", &shaped_text, &options);

    assert!(result.is_ok());
}
