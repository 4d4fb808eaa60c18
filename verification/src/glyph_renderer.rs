//! Rasterized glyphs and the cache that keeps them.

pub mod cache;
pub mod rasterizer;
pub mod renderer;
pub mod types;

pub use types::{
    BoundingBox, CacheStats, Contour, GlyphId, GlyphOutline, OpenTypeFont, Point, RenderError,
};
pub use crate::font_types::{GlyphBitmap, RenderMode};
pub use cache::{CacheConfig, CacheKey, CacheStatistics, GlyphCache};
pub use renderer::GlyphRenderer;
