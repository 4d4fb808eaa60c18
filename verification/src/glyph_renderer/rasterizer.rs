//! The FreeType rasterizer, one call at a time.
//!
//! FreeType keeps the glyph that was loaded last inside the face, so the
//! calls below depend on the calls made before them. Nothing is claimed of
//! their results beyond what each contract says.

use freetype::face::LoadFlag;
use freetype::{Face, Library};
use std::rc::Rc;
use vstd::prelude::*;

verus! {

#[verifier::external_type_specification]
#[verifier::external_body]
pub struct ExFtLibrary(Library);

#[verifier::external_type_specification]
#[verifier::external_body]
#[verifier::reject_recursive_types(BYTES)]
pub struct ExFtFace<BYTES>(Face<BYTES>);

/// How FreeType is asked to load a glyph.
#[derive(Debug, Clone, Copy, PartialEq, Eq, Structural)]
pub enum LoadKind {
    /// The default way.
    Default,
    /// For one-bit rendering.
    Monochrome,
    /// Without embedded bitmaps, for outlines.
    NoBitmap,
}

/// How FreeType is asked to render a loaded glyph.
#[derive(Debug, Clone, Copy, PartialEq, Eq, Structural)]
pub enum RasterKind {
    /// Eight bits of coverage per pixel.
    Normal,
    /// One bit per pixel.
    Mono,
    /// Horizontal subpixels.
    Lcd,
    /// Vertical subpixels.
    LcdVertical,
}

/// Why FreeType did not load a glyph.
#[derive(Debug, Clone, PartialEq, Eq)]
pub enum LoadFailure {
    /// The face has no glyph with this index.
    InvalidGlyphIndex,
    /// Any other error; carries its debug text.
    Other(String),
}

/// `freetype::Library::init`. An error is given as its debug text.
#[verifier::external_body]
pub(crate) fn ft_init() -> (r: Result<Library, String>) {
    Library::init().map_err(|e| format!("{:?}", e))
}

/// `freetype::Library::new_memory_face` on a copy of `data`. An error is
/// given as its debug text.
#[verifier::external_body]
pub(crate) fn ft_memory_face(library: &Library, data: &[u8], face_index: isize) -> (r: Result<
    Face,
    String,
>) {
    library.new_memory_face(Rc::new(data.to_vec()), face_index).map_err(|e| format!("{:?}", e))
}

/// `freetype::Face::set_char_size`: width and height of a character in
/// 26.6 fixed point, and the horizontal and vertical resolution in dots per
/// inch. An error is given as its debug text.
#[verifier::external_body]
pub(crate) fn ft_set_char_size(
    face: &Face,
    char_width: isize,
    char_height: isize,
    horizontal_dpi: u32,
    vertical_dpi: u32,
) -> (r: Result<(), String>) {
    face.set_char_size(char_width, char_height, horizontal_dpi, vertical_dpi).map_err(
        |e| format!("{:?}", e),
    )
}

/// `freetype::Face::load_glyph`. The error for a glyph index that the face
/// does not have is told apart from every other error.
#[verifier::external_body]
pub(crate) fn ft_load_glyph(face: &Face, glyph_index: u32, kind: LoadKind) -> (r: Result<
    (),
    LoadFailure,
>) {
    let flags = match kind {
        LoadKind::Default => LoadFlag::DEFAULT,
        LoadKind::Monochrome => LoadFlag::MONOCHROME,
        LoadKind::NoBitmap => LoadFlag::NO_BITMAP,
    };
    match face.load_glyph(glyph_index, flags) {
        Ok(()) => Ok(()),
        Err(freetype::Error::InvalidGlyphIndex) => Err(LoadFailure::InvalidGlyphIndex),
        Err(e) => Err(LoadFailure::Other(format!("{:?}", e))),
    }
}

/// `freetype::GlyphSlot::render_glyph` on the glyph that the face holds.
/// An error is given as its debug text.
#[verifier::external_body]
pub(crate) fn ft_render_glyph(face: &Face, kind: RasterKind) -> (r: Result<(), String>) {
    let mode = match kind {
        RasterKind::Normal => freetype::RenderMode::Normal,
        RasterKind::Mono => freetype::RenderMode::Mono,
        RasterKind::Lcd => freetype::RenderMode::Lcd,
        RasterKind::LcdVertical => freetype::RenderMode::LcdV,
    };
    face.glyph().render_glyph(mode).map_err(|e| format!("{:?}", e))
}

/// `freetype::Bitmap::width` of the bitmap that the face holds.
#[verifier::external_body]
pub(crate) fn ft_bitmap_width(face: &Face) -> (width: i32) {
    face.glyph().bitmap().width()
}

/// `freetype::Bitmap::rows` of the bitmap that the face holds.
#[verifier::external_body]
pub(crate) fn ft_bitmap_rows(face: &Face) -> (rows: i32) {
    face.glyph().bitmap().rows()
}

/// `freetype::Bitmap::pitch` of the bitmap that the face holds.
#[verifier::external_body]
pub(crate) fn ft_bitmap_pitch(face: &Face) -> (pitch: i32) {
    face.glyph().bitmap().pitch()
}

/// `freetype::Bitmap::buffer` of the bitmap that the face holds, copied.
/// The crate computes the length of the buffer as the number of rows times
/// the magnitude of the pitch, in 32 bits; the renderer calls this only
/// after it has seen that this product fits.
#[verifier::external_body]
pub(crate) fn ft_bitmap_buffer(face: &Face) -> (buffer: Vec<u8>) {
    face.glyph().bitmap().buffer().to_vec()
}

/// `freetype::GlyphSlot::metrics` of the glyph that the face holds: the
/// horizontal bearings, in 26.6 fixed point.
#[verifier::external_body]
pub(crate) fn ft_bearings(face: &Face) -> (bearings: (i64, i64)) {
    let metrics = face.glyph().metrics();
    (metrics.horiBearingX as i64, metrics.horiBearingY as i64)
}

/// `freetype::Outline::points` of the outline that the face holds, in 26.6
/// fixed point, or nothing when the glyph has no outline.
#[verifier::external_body]
pub(crate) fn ft_outline_points(face: &Face) -> (points: Option<Vec<(i64, i64)>>) {
    face.glyph().outline().map(|o| o.points().iter().map(|p| (p.x as i64, p.y as i64)).collect())
}

/// `freetype::Outline::contours` of the outline that the face holds: for
/// each contour the index of its last point. Nothing when the glyph has no
/// outline.
#[verifier::external_body]
pub(crate) fn ft_outline_contours(face: &Face) -> (ends: Option<Vec<i16>>) {
    face.glyph().outline().map(|o| o.contours().iter().map(|c| *c as i16).collect())
}

} // verus!
