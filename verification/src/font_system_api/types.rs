//! Configuration and errors of the font system.

use vstd::prelude::*;
use vstd::string::StringExecFns;

verus! {

/// Bounds of the glyph cache.
#[derive(Debug, Clone)]
pub struct GlyphCacheConfig {
    /// Largest number of cached glyphs.
    pub max_entries: usize,
    /// Budget for the bytes of pixel data.
    pub max_memory_bytes: usize,
    /// Whether statistics are kept.
    pub enable_statistics: bool,
}

impl Default for GlyphCacheConfig {
    /// 10 000 glyphs, 100 MiB, statistics on.
    fn default() -> (config: GlyphCacheConfig)
        ensures
            config.max_entries == 10_000,
            config.max_memory_bytes == 104_857_600,
            config.enable_statistics,
    {
        GlyphCacheConfig {
            max_entries: 10_000,
            max_memory_bytes: 104_857_600,
            enable_statistics: true,
        }
    }
}

/// Bounds of the shaping cache.
#[derive(Debug, Clone)]
pub struct ShapingCacheConfig {
    /// Largest number of cached runs.
    pub max_entries: usize,
    /// Whether statistics are kept.
    pub enable_statistics: bool,
}

impl Default for ShapingCacheConfig {
    /// 1000 runs, statistics on.
    fn default() -> (config: ShapingCacheConfig)
        ensures
            config.max_entries == 1_000,
            config.enable_statistics,
    {
        ShapingCacheConfig { max_entries: 1_000, enable_statistics: true }
    }
}

/// Bounds of both caches of the font system.
#[derive(Debug, Clone)]
pub struct CacheConfig {
    /// Bounds of the glyph cache.
    pub glyph_cache: GlyphCacheConfig,
    /// Bounds of the shaping cache.
    pub shaping_cache: ShapingCacheConfig,
}

impl Default for CacheConfig {
    /// The default bounds of both caches.
    fn default() -> (config: CacheConfig)
        ensures
            config.glyph_cache.max_entries == 10_000,
            config.glyph_cache.max_memory_bytes == 104_857_600,
            config.glyph_cache.enable_statistics,
            config.shaping_cache.max_entries == 1_000,
            config.shaping_cache.enable_statistics,
    {
        CacheConfig {
            glyph_cache: GlyphCacheConfig::default(),
            shaping_cache: ShapingCacheConfig::default(),
        }
    }
}

/// What can go wrong in the font system.
#[derive(Debug, Clone, PartialEq)]
pub enum FontError {
    /// No font matches.
    FontNotFound,
    /// The font data cannot be used; carries the reason.
    InvalidFont(String),
    /// A font could not be loaded; carries the reason.
    LoadError(String),
    /// Text could not be shaped; carries the reason.
    ShapingError(String),
    /// A glyph could not be rendered; carries the reason.
    RenderError(String),
    /// The system failed; carries the reason.
    SystemError(String),
}

impl FontError {
    /// The text that `to_string` produces for this error.
    pub open spec fn spec_message(self) -> Seq<char> {
        match self {
            FontError::FontNotFound => "Font not found"@,
            FontError::InvalidFont(msg) => "Invalid font: "@ + msg@,
            FontError::LoadError(msg) => "Load error: "@ + msg@,
            FontError::ShapingError(msg) => "Shaping error: "@ + msg@,
            FontError::RenderError(msg) => "Render error: "@ + msg@,
            FontError::SystemError(msg) => "System error: "@ + msg@,
        }
    }

    /// A human-readable description of the error.
    pub fn to_string(&self) -> (text: String)
        ensures
            text@ == self.spec_message(),
    {
        match self {
            FontError::FontNotFound => String::from_str("Font not found"),
            FontError::InvalidFont(msg) => String::from_str("Invalid font: ").concat(msg.as_str()),
            FontError::LoadError(msg) => String::from_str("Load error: ").concat(msg.as_str()),
            FontError::ShapingError(msg) => String::from_str("Shaping error: ").concat(
                msg.as_str(),
            ),
            FontError::RenderError(msg) => String::from_str("Render error: ").concat(msg.as_str()),
            FontError::SystemError(msg) => String::from_str("System error: ").concat(msg.as_str()),
        }
    }
}

/// Configuration of the font system.
#[derive(Debug, Clone)]
pub struct FontSystemConfig {
    /// Bounds of the caches.
    pub cache_config: CacheConfig,
    /// Whether glyphs are rendered with subpixels.
    pub enable_subpixel: bool,
    /// Whether glyphs are hinted.
    pub enable_hinting: bool,
    /// Whether the fonts of the system are loaded at the start.
    pub load_system_fonts_on_init: bool,
}

impl Default for FontSystemConfig {
    /// Default caches, subpixels and hinting on, system fonts loaded at the start.
    fn default() -> (config: FontSystemConfig)
        ensures
            config.cache_config.glyph_cache.max_entries == 10_000,
            config.cache_config.glyph_cache.max_memory_bytes == 104_857_600,
            config.cache_config.shaping_cache.max_entries == 1_000,
            config.enable_subpixel,
            config.enable_hinting,
            config.load_system_fonts_on_init,
    {
        FontSystemConfig {
            cache_config: CacheConfig::default(),
            enable_subpixel: true,
            enable_hinting: true,
            load_system_fonts_on_init: true,
        }
    }
}

} // verus!
