//! Types of the layout engine.
//!
//! Lengths are in pixels as 26.6 fixed point; the line spacing is a
//! multiplier as 16.16 fixed point, so 65536 sets lines one line height apart.

use vstd::prelude::*;
use vstd::string::StringExecFns;
use crate::font_types::{Direction, PositionedGlyph};

verus! {

/// The line spacing that stands for 1.2 line heights.
pub const DEFAULT_LINE_SPACING: i32 = 78643;

/// The width of 500 pixels.
pub const DEFAULT_MAX_WIDTH: i64 = 32000;

/// Why text could not be laid out.
#[derive(Debug, Clone, PartialEq)]
pub enum LayoutError {
    /// The layout options cannot be used; carries the reason.
    InvalidOptions(String),
    /// A value that the layout computes does not fit; carries the reason.
    Overflow(String),
    /// The text is empty or cannot be used; carries the reason.
    InvalidText(String),
}

impl LayoutError {
    /// The text that `to_string` produces for this error.
    pub open spec fn spec_message(self) -> Seq<char> {
        match self {
            LayoutError::InvalidOptions(reason) => "Invalid layout options: "@ + reason@,
            LayoutError::Overflow(reason) => "Text overflow: "@ + reason@,
            LayoutError::InvalidText(reason) => "Invalid text input: "@ + reason@,
        }
    }

    /// A human-readable description of the error.
    pub fn to_string(&self) -> (text: String)
        ensures
            text@ == self.spec_message(),
    {
        match self {
            LayoutError::InvalidOptions(reason) => String::from_str(
                "Invalid layout options: ",
            ).concat(reason.as_str()),
            LayoutError::Overflow(reason) => String::from_str("Text overflow: ").concat(
                reason.as_str(),
            ),
            LayoutError::InvalidText(reason) => String::from_str("Invalid text input: ").concat(
                reason.as_str(),
            ),
        }
    }
}

/// Direction in which text is laid out.
#[derive(Debug, Clone, Copy, PartialEq, Eq, Structural)]
pub enum TextDirection {
    /// Lines run left to right.
    LeftToRight,
    /// Lines run right to left.
    RightToLeft,
    /// Columns run top to bottom.
    TopToBottom,
}

impl TextDirection {
    /// The layout direction of a text direction; both vertical directions
    /// are laid out top to bottom.
    pub open spec fn spec_from(direction: Direction) -> TextDirection {
        match direction {
            Direction::LeftToRight => TextDirection::LeftToRight,
            Direction::RightToLeft => TextDirection::RightToLeft,
            Direction::TopToBottom => TextDirection::TopToBottom,
            Direction::BottomToTop => TextDirection::TopToBottom,
        }
    }
}

impl vstd::std_specs::convert::FromSpecImpl<Direction> for TextDirection {
    open spec fn obeys_from_spec() -> bool {
        true
    }

    open spec fn from_spec(direction: Direction) -> TextDirection {
        TextDirection::spec_from(direction)
    }
}

impl From<Direction> for TextDirection {
    /// The layout direction of a text direction.
    fn from(direction: Direction) -> (r: TextDirection) {
        match direction {
            Direction::LeftToRight => TextDirection::LeftToRight,
            Direction::RightToLeft => TextDirection::RightToLeft,
            Direction::TopToBottom => TextDirection::TopToBottom,
            Direction::BottomToTop => TextDirection::TopToBottom,
        }
    }
}

/// How the lines of a paragraph are aligned.
#[derive(Debug, Clone, Copy, PartialEq, Eq, Structural)]
pub enum JustificationMode {
    /// Lines start at the left edge.
    Left,
    /// Lines end at the right edge.
    Right,
    /// Lines are centered.
    Center,
    /// Lines are stretched to fill the width, all but the last.
    Justify,
}

/// Options of a layout.
#[derive(Debug, Clone, PartialEq)]
pub struct LayoutOptions {
    /// Width that lines should not exceed.
    pub max_width: i64,
    /// Height beyond which the layout reports overflow, if there is one.
    pub max_height: Option<i64>,
    /// How lines are aligned.
    pub justification: JustificationMode,
    /// Distance between the tops of two lines, in line heights (16.16).
    pub line_spacing: i32,
    /// Direction of the layout.
    pub direction: TextDirection,
}

impl Default for LayoutOptions {
    /// 500 pixels wide, no height limit, left aligned, lines 1.2 line
    /// heights apart, left to right.
    fn default() -> (options: LayoutOptions)
        ensures
            options.max_width == DEFAULT_MAX_WIDTH,
            options.max_height is None,
            options.justification == JustificationMode::Left,
            options.line_spacing == DEFAULT_LINE_SPACING,
            options.direction == TextDirection::LeftToRight,
    {
        LayoutOptions {
            max_width: DEFAULT_MAX_WIDTH,
            max_height: None,
            justification: JustificationMode::Left,
            line_spacing: DEFAULT_LINE_SPACING,
            direction: TextDirection::LeftToRight,
        }
    }
}

/// One line of a layout.
#[derive(Debug, PartialEq)]
pub struct LayoutLine {
    /// The glyphs of the line.
    pub glyphs: Vec<PositionedGlyph>,
    /// Width of the line; the target width once the line was stretched.
    pub width: i64,
    /// Height of the line.
    pub height: i64,
    /// Distance from the top of the line to its baseline.
    pub baseline: i64,
    /// Horizontal offset that aligns the line.
    pub x_offset: i64,
    /// Distance from the top of the paragraph to the top of the line.
    pub y_offset: i64,
    /// Range of the source text that the line covers: start and end.
    pub text_range: (usize, usize),
}

/// What a [`LayoutLine`] holds, as mathematical values.
pub struct LayoutLineModel {
    /// The glyphs of the line.
    pub glyphs: Seq<PositionedGlyph>,
    /// Width of the line.
    pub width: i64,
    /// Height of the line.
    pub height: i64,
    /// Distance from the top of the line to its baseline.
    pub baseline: i64,
    /// Horizontal offset that aligns the line.
    pub x_offset: i64,
    /// Distance from the top of the paragraph to the top of the line.
    pub y_offset: i64,
    /// Range of the source text that the line covers.
    pub text_range: (usize, usize),
}

impl View for LayoutLine {
    type V = LayoutLineModel;

    open spec fn view(&self) -> LayoutLineModel {
        LayoutLineModel {
            glyphs: self.glyphs@,
            width: self.width,
            height: self.height,
            baseline: self.baseline,
            x_offset: self.x_offset,
            y_offset: self.y_offset,
            text_range: self.text_range,
        }
    }
}

impl Clone for LayoutLine {
    /// A copy of the line.
    fn clone(&self) -> (copy: LayoutLine)
        ensures
            copy@ == self@,
    {
        LayoutLine {
            glyphs: vstd::slice::slice_to_vec(self.glyphs.as_slice()),
            width: self.width,
            height: self.height,
            baseline: self.baseline,
            x_offset: self.x_offset,
            y_offset: self.y_offset,
            text_range: (self.text_range.0, self.text_range.1),
        }
    }
}

/// The result of a layout.
#[derive(Debug, Clone, PartialEq)]
pub struct LayoutResult {
    /// The lines, top to bottom; the columns of a vertical layout.
    pub lines: Vec<LayoutLine>,
    /// Height of the whole layout.
    pub total_height: i64,
    /// Width of the whole layout.
    pub total_width: i64,
    /// Whether the layout is higher than the height limit.
    pub overflow: bool,
}

/// The lines of a layout as mathematical values.
pub open spec fn spec_line_models(lines: Seq<LayoutLine>) -> Seq<LayoutLineModel> {
    Seq::new(lines.len(), |i: int| lines[i]@)
}

/// A place where a line may or must end.
#[derive(Debug, Clone, Copy, PartialEq, Eq, Structural)]
pub struct LineBreak {
    /// Offset in the text, in bytes, of the character after the break.
    pub offset: usize,
    /// Whether the line must end here.
    pub required: bool,
}

/// Whether a number fits a 64-bit fixed-point value.
pub open spec fn spec_fits(v: int) -> bool {
    i64::MIN <= v <= i64::MAX
}

} // verus!
