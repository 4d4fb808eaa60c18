//! The façade of the font system.
//!
//! The façade holds the configuration. Loading, matching, shaping and
//! rendering are done by the components themselves; the operations of the
//! façade report that they are not wired to them.

use vstd::prelude::*;
use vstd::string::StringExecFns;
use crate::font_system_api::types::{FontError, FontSystemConfig};
use crate::font_types::{FontDescriptor, FontMetrics, GlyphBitmap};
use crate::glyph_renderer::types::{GlyphId, GlyphOutline};
use crate::font_types::RenderMode;
use crate::text_shaper::types::ShapingOptions;

verus! {

/// A shaped run as the façade hands it out.
#[derive(Debug, Clone, Default)]
pub struct ShapedText {
    _data: Vec<u8>,
}

/// The font system.
pub struct FontSystem {
    config: FontSystemConfig,
}

impl FontSystem {
    /// The configuration of the font system.
    pub closed spec fn spec_config(&self) -> FontSystemConfig {
        self.config
    }

    /// A font system with the given configuration.
    pub fn new(config: FontSystemConfig) -> (r: Result<FontSystem, FontError>)
        ensures
            r is Ok,
            r->Ok_0.spec_config() == config,
    {
        Ok(FontSystem { config })
    }

    /// The configuration of the font system.
    pub fn config(&self) -> (config: &FontSystemConfig)
        ensures
            *config == self.spec_config(),
    {
        &self.config
    }

    /// Loads the fonts of the system. Always fails with `SystemError`.
    pub fn load_system_fonts(&mut self) -> (r: Result<usize, FontError>)
        ensures
            r matches Err(e) && e is SystemError,
            e_message(r) == "Not yet implemented - waiting for platform_integration"@,
            final(self).spec_config() == old(self).spec_config(),
    {
        Err(
            FontError::SystemError(
                String::from_str("Not yet implemented - waiting for platform_integration"),
            ),
        )
    }

    /// Loads a font from a file. Always fails with `LoadError`.
    pub fn load_font_file(&mut self, _path: &str) -> (r: Result<usize, FontError>)
        ensures
            r matches Err(e) && e is LoadError,
            e_message(r) == "Not yet implemented - waiting for font_parser"@,
            final(self).spec_config() == old(self).spec_config(),
    {
        Err(FontError::LoadError(String::from_str("Not yet implemented - waiting for font_parser")))
    }

    /// Loads a font from its bytes. Always fails with `LoadError`.
    pub fn load_font_data(&mut self, _data: Vec<u8>) -> (r: Result<usize, FontError>)
        ensures
            r matches Err(e) && e is LoadError,
            e_message(r) == "Not yet implemented - waiting for font_parser"@,
            final(self).spec_config() == old(self).spec_config(),
    {
        Err(FontError::LoadError(String::from_str("Not yet implemented - waiting for font_parser")))
    }

    /// The face that matches a request. There never is one.
    pub fn match_font(&self, _descriptor: &FontDescriptor) -> (r: Option<usize>)
        ensures
            r is None,
    {
        None
    }

    /// Shapes a run of text. Always fails with `ShapingError`.
    pub fn shape_text(&self, _text: &str, _font_id: usize, _size: i64, _options: &ShapingOptions)
        -> (r: Result<ShapedText, FontError>)
        ensures
            r matches Err(e) && e is ShapingError,
            e_message(r) == "Not yet implemented - waiting for text_shaper"@,
    {
        Err(
            FontError::ShapingError(String::from_str("Not yet implemented - waiting for text_shaper")),
        )
    }

    /// Shapes a run of text with the face that matches a request. Always
    /// fails with `ShapingError`.
    pub fn shape_text_with_fallback(
        &self,
        _text: &str,
        _descriptor: &FontDescriptor,
        _options: &ShapingOptions,
    ) -> (r: Result<ShapedText, FontError>)
        ensures
            r matches Err(e) && e is ShapingError,
            e_message(r) == "Not yet implemented - waiting for text_shaper"@,
    {
        Err(
            FontError::ShapingError(String::from_str("Not yet implemented - waiting for text_shaper")),
        )
    }

    /// Renders a glyph. Always fails with `RenderError`.
    pub fn rasterize_glyph(&self, _font_id: usize, _glyph_id: GlyphId, _size: i64, _mode: RenderMode)
        -> (r: Result<GlyphBitmap, FontError>)
        ensures
            r matches Err(e) && e is RenderError,
            e_message(r) == "Not yet implemented - waiting for glyph_renderer"@,
    {
        Err(
            FontError::RenderError(
                String::from_str("Not yet implemented - waiting for glyph_renderer"),
            ),
        )
    }

    /// The metrics of a face at a size. There never are any.
    pub fn get_font_metrics(&self, _font_id: usize, _size: i64) -> (r: Option<FontMetrics>)
        ensures
            r is None,
    {
        None
    }

    /// The outline of a glyph. Always fails with `SystemError`.
    pub fn get_glyph_outline(&self, _font_id: usize, _glyph_id: GlyphId) -> (r: Result<
        GlyphOutline,
        FontError,
    >)
        ensures
            r matches Err(e) && e is SystemError,
            e_message(r) == "Not yet implemented - waiting for font_registry"@,
    {
        Err(
            FontError::SystemError(
                String::from_str("Not yet implemented - waiting for font_registry"),
            ),
        )
    }

    /// Number of loaded fonts: always 0.
    pub fn font_count(&self) -> (n: usize)
        ensures
            n == 0,
    {
        0
    }

    /// Empties the caches. The façade has none, so nothing changes.
    pub fn clear_caches(&mut self)
        ensures
            final(self).spec_config() == old(self).spec_config(),
    {
    }
}

/// The message that an error result carries; empty for a result that is
/// not an error or an error without a message.
pub open spec fn e_message<T>(r: Result<T, FontError>) -> Seq<char> {
    match r {
        Err(FontError::InvalidFont(msg)) => msg@,
        Err(FontError::LoadError(msg)) => msg@,
        Err(FontError::ShapingError(msg)) => msg@,
        Err(FontError::RenderError(msg)) => msg@,
        Err(FontError::SystemError(msg)) => msg@,
        _ => Seq::<char>::empty(),
    }
}

} // verus!
