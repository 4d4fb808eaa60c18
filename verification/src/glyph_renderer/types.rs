//! Types of the glyph renderer.

use vstd::prelude::*;
use vstd::string::StringExecFns;
use crate::text::{spec_decimal, u64_to_decimal};

verus! {

/// Identifies a glyph within the font that is rendered.
#[derive(Debug, Copy, Clone, PartialEq, Eq, Hash, Structural)]
pub struct GlyphId(pub u16);

/// The font that glyphs are rendered from: the bytes of a font container
/// and the index of a face in it.
#[derive(Debug, Clone)]
pub struct OpenTypeFont {
    /// Id under which glyphs of this face are cached.
    pub face_id: usize,
    /// Bytes of the font container; empty for a stub.
    pub data: Vec<u8>,
    /// Index of the face in the container; 0 for a single-face file.
    pub face_index: isize,
}

impl OpenTypeFont {
    /// A font made of the bytes of a container and a face index.
    pub fn from_data(data: Vec<u8>, face_index: isize) -> (font: OpenTypeFont)
        ensures
            font.data == data,
            font.face_index == face_index,
            font.face_id == 0,
    {
        OpenTypeFont { face_id: 0, data, face_index }
    }

    /// A font made of the bytes of a container and a face index, to be
    /// cached under the given face id.
    pub fn for_face(face_id: usize, data: Vec<u8>, face_index: isize) -> (font: OpenTypeFont)
        ensures
            font.data == data,
            font.face_index == face_index,
            font.face_id == face_id,
    {
        OpenTypeFont { face_id, data, face_index }
    }

    /// A font without data, from which nothing can be rendered.
    pub fn new_stub() -> (font: OpenTypeFont)
        ensures
            font.data@.len() == 0,
            font.face_index == 0,
            font.face_id == 0,
    {
        OpenTypeFont { face_id: 0, data: Vec::new(), face_index: 0 }
    }

    /// Whether the font has any data.
    pub fn has_data(&self) -> (b: bool)
        ensures
            b == (self.data@.len() > 0),
    {
        self.data.len() > 0
    }
}

/// A point of an outline, in pixels as 26.6 fixed point.
#[derive(Debug, Clone, Copy, PartialEq, Eq, Structural)]
pub struct Point {
    /// Horizontal coordinate.
    pub x: i64,
    /// Vertical coordinate.
    pub y: i64,
}

/// The smallest rectangle around an outline, in pixels as 26.6 fixed point.
#[derive(Debug, Clone, Copy, PartialEq, Eq, Structural)]
pub struct BoundingBox {
    /// Smallest x coordinate.
    pub min_x: i64,
    /// Smallest y coordinate.
    pub min_y: i64,
    /// Largest x coordinate.
    pub max_x: i64,
    /// Largest y coordinate.
    pub max_y: i64,
}

/// One contour of an outline, as a list of points.
#[derive(Debug, Clone, PartialEq)]
pub struct Contour {
    /// The points of the contour, in order.
    pub points: Vec<Point>,
    /// Whether the last point is joined to the first.
    pub closed: bool,
}

/// The outline of a glyph.
#[derive(Debug, Clone, PartialEq)]
pub struct GlyphOutline {
    /// The contours of the outline.
    pub contours: Vec<Contour>,
    /// The smallest rectangle around all points.
    pub bounds: BoundingBox,
}

/// Counters and sizes of the glyph cache.
#[derive(Debug, Clone, Copy, PartialEq, Eq, Structural)]
pub struct CacheStats {
    /// Number of resident bitmaps.
    pub entries: usize,
    /// Number of lookups that found their bitmap.
    pub hits: u64,
    /// Number of lookups that did not.
    pub misses: u64,
    /// Number of bitmaps that were displaced.
    pub evictions: u64,
    /// Bytes of pixel data of the resident bitmaps.
    pub memory_bytes: usize,
    /// Largest number of resident bitmaps.
    pub max_entries: usize,
    /// Budget for the bytes of pixel data.
    pub max_memory_bytes: usize,
    /// Share of lookups that were hits, as 16.16 fixed point: 65536 when
    /// every lookup hit, 0 when none did or there was none.
    pub hit_rate: u32,
}

impl CacheStats {
    /// Statistics of a cache that was never used.
    pub fn new() -> (stats: CacheStats)
        ensures
            stats == (CacheStats {
                entries: 0,
                hits: 0,
                misses: 0,
                evictions: 0,
                memory_bytes: 0,
                max_entries: 0,
                max_memory_bytes: 0,
                hit_rate: 0,
            }),
    {
        CacheStats {
            entries: 0,
            hits: 0,
            misses: 0,
            evictions: 0,
            memory_bytes: 0,
            max_entries: 0,
            max_memory_bytes: 0,
            hit_rate: 0,
        }
    }
}

impl Default for CacheStats {
    /// Statistics of a cache that was never used.
    fn default() -> (stats: CacheStats)
        ensures
            stats == (CacheStats {
                entries: 0,
                hits: 0,
                misses: 0,
                evictions: 0,
                memory_bytes: 0,
                max_entries: 0,
                max_memory_bytes: 0,
                hit_rate: 0,
            }),
    {
        CacheStats::new()
    }
}

/// Why a glyph could not be rendered.
#[derive(Debug, Clone, PartialEq, Eq)]
pub enum RenderError {
    /// The font has no glyph with this id.
    GlyphNotFound(GlyphId),
    /// The rasterizer failed; carries its message.
    RasterizationFailed(String),
    /// Memory ran out while rendering.
    OutOfMemory,
}

impl RenderError {
    /// The text that `to_string` produces for this error.
    pub open spec fn spec_message(self) -> Seq<char> {
        match self {
            RenderError::GlyphNotFound(id) => "Glyph not found: GlyphId("@ + spec_decimal(
                id.0 as nat,
            ) + ")"@,
            RenderError::RasterizationFailed(msg) => "Rasterization failed: "@ + msg@,
            RenderError::OutOfMemory => "Out of memory during rendering"@,
        }
    }

    /// A human-readable description of the error.
    pub fn to_string(&self) -> (text: String)
        ensures
            text@ == self.spec_message(),
    {
        match self {
            RenderError::GlyphNotFound(id) => {
                let digits: String = u64_to_decimal(id.0 as u64);
                String::from_str("Glyph not found: GlyphId(").concat(digits.as_str()).concat(")")
            },
            RenderError::RasterizationFailed(msg) => String::from_str(
                "Rasterization failed: ",
            ).concat(msg.as_str()),
            RenderError::OutOfMemory => String::from_str("Out of memory during rendering"),
        }
    }
}

} // verus!
