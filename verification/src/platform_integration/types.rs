//! Types that describe the fonts of the platform.

use vstd::prelude::*;
use crate::font_types::{FontStyle, FontWeight};

verus! {

/// Broad classes of fonts, used to pick default families.
#[derive(Debug, Clone, Copy, PartialEq, Eq, Hash, Structural)]
pub enum FontCategory {
    /// Fonts with serifs.
    Serif,
    /// Fonts without serifs.
    SansSerif,
    /// Fonts in which every glyph has the same width.
    Monospace,
    /// Fonts that imitate handwriting.
    Cursive,
    /// Decorative fonts.
    Fantasy,
    /// Fonts with emoji.
    Emoji,
}

/// The platforms that fonts are discovered on.
#[derive(Debug, Clone, Copy, PartialEq, Eq, Structural)]
pub enum Platform {
    /// Linux.
    Linux,
    /// Windows.
    Windows,
    /// macOS.
    MacOS,
    /// Any other platform.
    Unknown,
}

/// A font as the platform describes it.
#[derive(Debug, Clone, PartialEq)]
pub struct PlatformFontInfo {
    /// Family name.
    pub family_name: String,
    /// Path of the font file.
    pub path: String,
    /// Weight.
    pub weight: FontWeight,
    /// Style.
    pub style: FontStyle,
    /// Whether the font belongs to the system rather than to a user.
    pub is_system_font: bool,
}

impl PlatformFontInfo {
    /// A description made of the given parts.
    pub fn new(
        family_name: String,
        path: String,
        weight: FontWeight,
        style: FontStyle,
        is_system_font: bool,
    ) -> (info: PlatformFontInfo)
        ensures
            info.family_name == family_name,
            info.path == path,
            info.weight == weight,
            info.style == style,
            info.is_system_font == is_system_font,
    {
        PlatformFontInfo { family_name, path, weight, style, is_system_font }
    }
}

} // verus!
