//! Types shared by every stage of the font system.
//!
//! Lengths in pixels are 26.6 fixed point (64 units to a pixel); angles in
//! degrees are 16.16 fixed point.

use vstd::prelude::*;

verus! {

/// Font weight on the scale from 100 to 900.
#[derive(Debug, Clone, Copy, PartialEq, Eq, PartialOrd, Ord, Hash, Structural)]
pub enum FontWeight {
    /// Thin (100).
    Thin,
    /// Extra light (200).
    ExtraLight,
    /// Light (300).
    Light,
    /// Regular (400).
    Regular,
    /// Medium (500).
    Medium,
    /// Semi-bold (600).
    SemiBold,
    /// Bold (700).
    Bold,
    /// Extra bold (800).
    ExtraBold,
    /// Black (900).
    Black,
}

impl FontWeight {
    /// The numeric weight, from 100 to 900.
    pub open spec fn spec_value(self) -> int {
        match self {
            FontWeight::Thin => 100,
            FontWeight::ExtraLight => 200,
            FontWeight::Light => 300,
            FontWeight::Regular => 400,
            FontWeight::Medium => 500,
            FontWeight::SemiBold => 600,
            FontWeight::Bold => 700,
            FontWeight::ExtraBold => 800,
            FontWeight::Black => 900,
        }
    }

    /// The weight with the given number; any number that is not a multiple
    /// of 100 between 100 and 900 reads as regular.
    pub open spec fn spec_from_number(number: int) -> FontWeight {
        if number == 100 {
            FontWeight::Thin
        } else if number == 200 {
            FontWeight::ExtraLight
        } else if number == 300 {
            FontWeight::Light
        } else if number == 500 {
            FontWeight::Medium
        } else if number == 600 {
            FontWeight::SemiBold
        } else if number == 700 {
            FontWeight::Bold
        } else if number == 800 {
            FontWeight::ExtraBold
        } else if number == 900 {
            FontWeight::Black
        } else {
            FontWeight::Regular
        }
    }

    /// The numeric weight, from 100 to 900.
    pub fn value(self) -> (v: u16)
        ensures
            v == self.spec_value(),
    {
        match self {
            FontWeight::Thin => 100,
            FontWeight::ExtraLight => 200,
            FontWeight::Light => 300,
            FontWeight::Regular => 400,
            FontWeight::Medium => 500,
            FontWeight::SemiBold => 600,
            FontWeight::Bold => 700,
            FontWeight::ExtraBold => 800,
            FontWeight::Black => 900,
        }
    }

    /// The weight with the given number; see [`FontWeight::spec_from_number`].
    pub fn from_number(number: u16) -> (w: FontWeight)
        ensures
            w == FontWeight::spec_from_number(number as int),
    {
        if number == 100 {
            FontWeight::Thin
        } else if number == 200 {
            FontWeight::ExtraLight
        } else if number == 300 {
            FontWeight::Light
        } else if number == 500 {
            FontWeight::Medium
        } else if number == 600 {
            FontWeight::SemiBold
        } else if number == 700 {
            FontWeight::Bold
        } else if number == 800 {
            FontWeight::ExtraBold
        } else if number == 900 {
            FontWeight::Black
        } else {
            FontWeight::Regular
        }
    }
}

/// Font style.
#[derive(Debug, Clone, Copy, PartialEq, Eq, Structural)]
pub enum FontStyle {
    /// Upright.
    Normal,
    /// Italic.
    Italic,
    /// Slanted by the given angle, in degrees as 16.16 fixed point.
    Oblique(i32),
}

/// Font width as a percentage of the normal width.
#[derive(Debug, Clone, Copy, PartialEq, Eq, PartialOrd, Ord, Hash, Structural)]
pub enum FontStretch {
    /// Ultra condensed (50%).
    UltraCondensed,
    /// Extra condensed (62%).
    ExtraCondensed,
    /// Condensed (75%).
    Condensed,
    /// Semi condensed (87%).
    SemiCondensed,
    /// Normal (100%).
    Normal,
    /// Semi expanded (112%).
    SemiExpanded,
    /// Expanded (125%).
    Expanded,
    /// Extra expanded (150%).
    ExtraExpanded,
    /// Ultra expanded (200%).
    UltraExpanded,
}

impl FontStretch {
    /// The width in percent, from 50 to 200.
    pub open spec fn spec_value(self) -> int {
        match self {
            FontStretch::UltraCondensed => 50,
            FontStretch::ExtraCondensed => 62,
            FontStretch::Condensed => 75,
            FontStretch::SemiCondensed => 87,
            FontStretch::Normal => 100,
            FontStretch::SemiExpanded => 112,
            FontStretch::Expanded => 125,
            FontStretch::ExtraExpanded => 150,
            FontStretch::UltraExpanded => 200,
        }
    }

    /// The width in percent, from 50 to 200.
    pub fn value(self) -> (v: u16)
        ensures
            v == self.spec_value(),
    {
        match self {
            FontStretch::UltraCondensed => 50,
            FontStretch::ExtraCondensed => 62,
            FontStretch::Condensed => 75,
            FontStretch::SemiCondensed => 87,
            FontStretch::Normal => 100,
            FontStretch::SemiExpanded => 112,
            FontStretch::Expanded => 125,
            FontStretch::ExtraExpanded => 150,
            FontStretch::UltraExpanded => 200,
        }
    }
}

/// Direction in which text runs.
#[derive(Debug, Clone, Copy, PartialEq, Eq, Structural)]
pub enum Direction {
    /// Left to right.
    LeftToRight,
    /// Right to left.
    RightToLeft,
    /// Top to bottom.
    TopToBottom,
    /// Bottom to top.
    BottomToTop,
}

impl Direction {
    /// A number that tells the directions apart.
    pub open spec fn spec_code(self) -> u8 {
        match self {
            Direction::LeftToRight => 0,
            Direction::RightToLeft => 1,
            Direction::TopToBottom => 2,
            Direction::BottomToTop => 3,
        }
    }

    /// A number that tells the directions apart.
    pub fn code(self) -> (c: u8)
        ensures
            c == self.spec_code(),
    {
        match self {
            Direction::LeftToRight => 0,
            Direction::RightToLeft => 1,
            Direction::TopToBottom => 2,
            Direction::BottomToTop => 3,
        }
    }
}

/// How a glyph is rasterized; this fixes the pixel layout of the bitmap.
#[derive(Debug, Clone, Copy, PartialEq, Eq, Hash, Structural)]
pub enum RenderMode {
    /// One bit per pixel.
    Mono,
    /// Eight bits of coverage per pixel.
    Gray,
    /// Horizontal subpixels in the order red, green, blue.
    SubpixelRgb,
    /// Horizontal subpixels in the order blue, green, red.
    SubpixelBgr,
    /// Vertical subpixels in the order red, green, blue.
    SubpixelVrgb,
    /// Vertical subpixels in the order blue, green, red.
    SubpixelVbgr,
}

impl RenderMode {
    /// A number that tells the modes apart.
    pub open spec fn spec_code(self) -> u8 {
        match self {
            RenderMode::Mono => 0,
            RenderMode::Gray => 1,
            RenderMode::SubpixelRgb => 2,
            RenderMode::SubpixelBgr => 3,
            RenderMode::SubpixelVrgb => 4,
            RenderMode::SubpixelVbgr => 5,
        }
    }

    /// A number that tells the modes apart.
    pub fn code(self) -> (c: u8)
        ensures
            c == self.spec_code(),
    {
        match self {
            RenderMode::Mono => 0,
            RenderMode::Gray => 1,
            RenderMode::SubpixelRgb => 2,
            RenderMode::SubpixelBgr => 3,
            RenderMode::SubpixelVrgb => 4,
            RenderMode::SubpixelVbgr => 5,
        }
    }

    /// Different modes have different codes.
    pub proof fn lemma_code_injective(a: RenderMode, b: RenderMode)
        ensures
            a.spec_code() == b.spec_code() <==> a == b,
    {
    }
}

/// A position in pixels, 26.6 fixed point.
#[derive(Debug, Clone, Copy, PartialEq, Eq, Structural)]
pub struct Point {
    /// Horizontal coordinate.
    pub x: i64,
    /// Vertical coordinate.
    pub y: i64,
}

/// A displacement in pixels, 26.6 fixed point.
#[derive(Debug, Clone, Copy, PartialEq, Eq, Structural)]
pub struct Vector {
    /// Horizontal component.
    pub x: i64,
    /// Vertical component.
    pub y: i64,
}

/// Identifies a glyph within a font. Two glyphs are the same exactly when
/// their ids are equal.
#[derive(Debug, Clone, Copy, PartialEq, Eq, Hash, Structural)]
pub struct GlyphId {
    /// The glyph index.
    pub id: u32,
}

/// Identifies a loaded face within a registry.
pub type FontId = usize;

/// Metrics of a face. As read from the font they are in font units; scaled
/// to a pixel size they are 26.6 fixed-point pixels.
#[derive(Debug, Clone, Copy, PartialEq, Eq, Structural)]
pub struct FontMetrics {
    /// Font units per em.
    pub units_per_em: u16,
    /// Distance from the baseline to the top of the line.
    pub ascent: i64,
    /// Distance from the baseline to the bottom of the line; usually negative.
    pub descent: i64,
    /// Extra distance between two lines.
    pub line_gap: i64,
    /// Height of capital letters.
    pub cap_height: i64,
    /// Height of lower-case letters.
    pub x_height: i64,
    /// Position of the underline relative to the baseline.
    pub underline_position: i64,
    /// Thickness of the underline.
    pub underline_thickness: i64,
}

/// A request for a font: families in order of preference, and the
/// attributes that the chosen face should come close to.
#[derive(Debug, Clone, PartialEq)]
pub struct FontDescriptor {
    /// Family names; the first is preferred, the rest are fallbacks.
    pub family: Vec<String>,
    /// Requested weight.
    pub weight: FontWeight,
    /// Requested style.
    pub style: FontStyle,
    /// Requested width.
    pub stretch: FontStretch,
    /// Size in pixels, 26.6 fixed point.
    pub size: i64,
}

/// A glyph placed on a line.
///
/// `position` is where the glyph is drawn: the pen position plus `offset`.
/// The pen then moves by `advance`; `offset` does not move the pen.
#[derive(Debug, Clone, Copy, PartialEq, Eq, Structural)]
pub struct PositionedGlyph {
    /// The glyph.
    pub glyph_id: GlyphId,
    /// The face that the glyph comes from.
    pub font_id: FontId,
    /// Where the glyph is drawn.
    pub position: Point,
    /// How far the pen moves after the glyph.
    pub advance: Vector,
    /// Nudge applied to this glyph alone.
    pub offset: Vector,
}

/// A shaped run of text: glyphs in visual order, and the size of the run.
#[derive(Debug, Clone, PartialEq)]
pub struct ShapedText {
    /// Glyphs in visual order.
    pub glyphs: Vec<PositionedGlyph>,
    /// Width of the run.
    pub width: i64,
    /// Height of the run.
    pub height: i64,
    /// Distance from the top of the run to its baseline.
    pub baseline: i64,
}

/// What a [`ShapedText`] holds, as mathematical values.
pub struct ShapedTextModel {
    /// Glyphs in visual order.
    pub glyphs: Seq<PositionedGlyph>,
    /// Width of the run.
    pub width: i64,
    /// Height of the run.
    pub height: i64,
    /// Distance from the top of the run to its baseline.
    pub baseline: i64,
}

impl View for ShapedText {
    type V = ShapedTextModel;

    open spec fn view(&self) -> ShapedTextModel {
        ShapedTextModel {
            glyphs: self.glyphs@,
            width: self.width,
            height: self.height,
            baseline: self.baseline,
        }
    }
}

/// A rasterized glyph.
#[derive(Debug, Clone, PartialEq)]
pub struct GlyphBitmap {
    /// Width in pixels.
    pub width: u32,
    /// Height in pixels.
    pub height: u32,
    /// Horizontal distance from the pen to the left edge of the bitmap.
    pub left: i32,
    /// Vertical distance from the baseline to the top edge of the bitmap.
    pub top: i32,
    /// Bytes per row.
    pub pitch: usize,
    /// Pixel data, row by row.
    pub data: Vec<u8>,
    /// Pixel layout of `data`.
    pub format: RenderMode,
}

/// What a [`GlyphBitmap`] holds, as mathematical values.
pub struct GlyphBitmapModel {
    /// Width in pixels.
    pub width: u32,
    /// Height in pixels.
    pub height: u32,
    /// Horizontal distance from the pen to the left edge of the bitmap.
    pub left: i32,
    /// Vertical distance from the baseline to the top edge of the bitmap.
    pub top: i32,
    /// Bytes per row.
    pub pitch: usize,
    /// Pixel data, row by row.
    pub data: Seq<u8>,
    /// Pixel layout of `data`.
    pub format: RenderMode,
}

impl View for GlyphBitmap {
    type V = GlyphBitmapModel;

    open spec fn view(&self) -> GlyphBitmapModel {
        GlyphBitmapModel {
            width: self.width,
            height: self.height,
            left: self.left,
            top: self.top,
            pitch: self.pitch,
            data: self.data@,
            format: self.format,
        }
    }
}

impl ShapedText {
    /// A copy of the run.
    pub fn duplicate(&self) -> (copy: ShapedText)
        ensures
            copy@ == self@,
    {
        ShapedText {
            glyphs: vstd::slice::slice_to_vec(self.glyphs.as_slice()),
            width: self.width,
            height: self.height,
            baseline: self.baseline,
        }
    }
}

impl GlyphBitmap {
    /// A copy of the bitmap.
    pub fn duplicate(&self) -> (copy: GlyphBitmap)
        ensures
            copy@ == self@,
    {
        GlyphBitmap {
            width: self.width,
            height: self.height,
            left: self.left,
            top: self.top,
            pitch: self.pitch,
            data: vstd::slice::slice_to_vec(self.data.as_slice()),
            format: self.format,
        }
    }
}

} // verus!
