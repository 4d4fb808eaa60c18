//! The glyph renderer: rasterizes glyphs on demand and keeps the results
//! in the glyph cache.

use freetype::{Face, Library};
use vstd::prelude::*;
use vstd::string::StringExecFns;
use crate::font_types::{GlyphBitmap, RenderMode};
use crate::glyph_renderer::cache::{
    size_key,
    spec_put,
    spec_size_key,
    CacheConfig,
    CacheKey,
    GlyphCache,
};
use crate::glyph_renderer::rasterizer::{
    ft_bearings,
    ft_bitmap_buffer,
    ft_bitmap_pitch,
    ft_bitmap_rows,
    ft_bitmap_width,
    ft_init,
    ft_load_glyph,
    ft_memory_face,
    ft_outline_contours,
    ft_outline_points,
    ft_render_glyph,
    ft_set_char_size,
    LoadFailure,
    LoadKind,
    RasterKind,
};
use crate::glyph_renderer::types::{
    BoundingBox,
    CacheStats,
    Contour,
    GlyphId,
    GlyphOutline,
    OpenTypeFont,
    Point,
    RenderError,
};
use crate::lru_model::{spec_contains, spec_lookup, spec_touched};

verus! {

/// Size at which outlines are extracted: 16 pixels, in 26.6 fixed point.
pub const OUTLINE_SIZE: isize = 1024;

/// Resolution at which glyphs are rendered, in dots per inch: at 72 dots
/// per inch a point is a pixel.
pub const RESOLUTION: u32 = 72;

/// How FreeType renders a glyph for a render mode.
pub open spec fn spec_raster_kind(mode: RenderMode) -> RasterKind {
    match mode {
        RenderMode::Mono => RasterKind::Mono,
        RenderMode::Gray => RasterKind::Normal,
        RenderMode::SubpixelRgb => RasterKind::Lcd,
        RenderMode::SubpixelBgr => RasterKind::Lcd,
        RenderMode::SubpixelVrgb => RasterKind::LcdVertical,
        RenderMode::SubpixelVbgr => RasterKind::LcdVertical,
    }
}

/// How FreeType renders a glyph for a render mode.
pub fn to_freetype_render_mode(mode: RenderMode) -> (kind: RasterKind)
    ensures
        kind == spec_raster_kind(mode),
{
    match mode {
        RenderMode::Mono => RasterKind::Mono,
        RenderMode::Gray => RasterKind::Normal,
        RenderMode::SubpixelRgb => RasterKind::Lcd,
        RenderMode::SubpixelBgr => RasterKind::Lcd,
        RenderMode::SubpixelVrgb => RasterKind::LcdVertical,
        RenderMode::SubpixelVbgr => RasterKind::LcdVertical,
    }
}

/// How FreeType loads a glyph for a render mode: for one-bit rendering in
/// the monochrome way, for every other mode in the default way.
pub fn get_load_flags(mode: RenderMode) -> (kind: LoadKind)
    ensures
        kind == (if mode == RenderMode::Mono {
            LoadKind::Monochrome
        } else {
            LoadKind::Default
        }),
{
    match mode {
        RenderMode::Mono => LoadKind::Monochrome,
        _ => LoadKind::Default,
    }
}

/// A 26.6 value in whole pixels, rounded toward zero.
pub open spec fn spec_whole_pixels(value: i64) -> int {
    if value >= 0 {
        value / 64
    } else {
        -((-value) / 64)
    }
}

/// A 26.6 value in whole pixels, rounded toward zero and held within 32 bits.
pub open spec fn spec_clamped_pixels(value: i64) -> int {
    if spec_whole_pixels(value) > i32::MAX {
        i32::MAX as int
    } else if spec_whole_pixels(value) < i32::MIN {
        i32::MIN as int
    } else {
        spec_whole_pixels(value)
    }
}

/// A 26.6 value in whole pixels, rounded toward zero and held within 32 bits.
pub fn whole_pixels(value: i64) -> (pixels: i32)
    ensures
        pixels == spec_clamped_pixels(value),
{
    let whole: i64 = if value >= 0 {
        value / 64
    } else if value == i64::MIN {
        -0x200_0000_0000_0000
    } else {
        -((-value) / 64)
    };
    if whole > i32::MAX as i64 {
        i32::MAX
    } else if whole < i32::MIN as i64 {
        i32::MIN
    } else {
        whole as i32
    }
}

/// A size of FreeType as an unsigned number; a negative size reads as 0.
pub open spec fn spec_unsigned_size(value: i32) -> int {
    if value >= 0 {
        value as int
    } else {
        0
    }
}

/// A size of FreeType as an unsigned number; a negative size reads as 0.
pub fn unsigned_size(value: i32) -> (size: u32)
    ensures
        size == spec_unsigned_size(value),
{
    if value >= 0 {
        value as u32
    } else {
        0
    }
}

/// The magnitude of a pitch of FreeType.
pub fn pitch_size(pitch: i32) -> (size: usize)
    ensures
        size == (if pitch >= 0 {
            pitch as int
        } else {
            -(pitch as int)
        }),
{
    if pitch >= 0 {
        pitch as usize
    } else if pitch == i32::MIN {
        0x8000_0000
    } else {
        (-pitch) as usize
    }
}

/// The smallest rectangle around the first `n` of `points`; all zero when
/// there is no point.
pub open spec fn spec_bounds(points: Seq<(i64, i64)>, n: int) -> BoundingBox
    decreases n,
{
    if n <= 0 {
        BoundingBox { min_x: 0, min_y: 0, max_x: 0, max_y: 0 }
    } else if n == 1 {
        BoundingBox {
            min_x: points[0].0,
            min_y: points[0].1,
            max_x: points[0].0,
            max_y: points[0].1,
        }
    } else {
        let earlier = spec_bounds(points, n - 1);
        let p = points[n - 1];
        BoundingBox {
            min_x: if p.0 < earlier.min_x {
                p.0
            } else {
                earlier.min_x
            },
            min_y: if p.1 < earlier.min_y {
                p.1
            } else {
                earlier.min_y
            },
            max_x: if p.0 > earlier.max_x {
                p.0
            } else {
                earlier.max_x
            },
            max_y: if p.1 > earlier.max_y {
                p.1
            } else {
                earlier.max_y
            },
        }
    }
}

/// Every one of the first `n` points lies inside their bounds.
pub proof fn lemma_bounds_contain(points: Seq<(i64, i64)>, n: int, k: int)
    requires
        0 <= k < n <= points.len(),
    ensures
        spec_bounds(points, n).min_x <= points[k].0 <= spec_bounds(points, n).max_x,
        spec_bounds(points, n).min_y <= points[k].1 <= spec_bounds(points, n).max_y,
    decreases n,
{
    if n > 1 && k < n - 1 {
        lemma_bounds_contain(points, n - 1, k);
    }
}

/// The points of one contour: those from `start` up to and including
/// `end`, as far as `points` reaches. Empty when `end` lies before `start`.
pub open spec fn spec_contour_points(points: Seq<(i64, i64)>, start: int, end: int) -> Seq<Point> {
    let stop = if end + 1 < points.len() {
        end + 1
    } else {
        points.len() as int
    };
    if 0 <= start < stop {
        Seq::new((stop - start) as nat, |i: int| Point { x: points[start + i].0, y: points[start + i].1 })
    } else {
        Seq::<Point>::empty()
    }
}

/// Start of contour `k`: the point after the end of the contour before it.
pub open spec fn spec_contour_start(ends: Seq<i16>, k: int) -> int {
    if k <= 0 {
        0
    } else {
        ends[k - 1] as int + 1
    }
}

/// The contours among the first `k` contour ends that have any point.
pub open spec fn spec_contours(points: Seq<(i64, i64)>, ends: Seq<i16>, k: int) -> Seq<Seq<Point>>
    decreases k,
{
    if k <= 0 {
        Seq::<Seq<Point>>::empty()
    } else {
        let earlier = spec_contours(points, ends, k - 1);
        let contour = spec_contour_points(
            points,
            spec_contour_start(ends, k - 1),
            ends[k - 1] as int,
        );
        if contour.len() > 0 {
            earlier.push(contour)
        } else {
            earlier
        }
    }
}

/// Whether `outline` is the outline made of the points of a glyph and the
/// ends of its contours: the bounds of all points, and each contour that has
/// a point as a closed list of points.
pub open spec fn spec_outline_of(outline: GlyphOutline, points: Seq<(i64, i64)>, ends: Seq<i16>) -> bool {
    &&& outline.bounds == spec_bounds(points, points.len() as int)
    &&& outline.contours@.len() == spec_contours(points, ends, ends.len() as int).len()
    &&& forall|c: int|
        0 <= c < outline.contours@.len() ==> {
            &&& (#[trigger] outline.contours@[c]).points@ == spec_contours(
                points,
                ends,
                ends.len() as int,
            )[c]
            &&& outline.contours@[c].closed
            &&& outline.contours@[c].points@.len() > 0
        }
}

/// Whether `outline` is the outline of some points and contour ends.
pub open spec fn spec_is_outline(outline: GlyphOutline) -> bool {
    exists|points: Seq<(i64, i64)>, ends: Seq<i16>| #[trigger]
        spec_outline_of(outline, points, ends)
}

/// The outline made of the points of a glyph and the ends of its
/// contours; see [`spec_outline_of`].
pub fn outline_from_points(points: &Vec<(i64, i64)>, ends: &Vec<i16>) -> (outline: GlyphOutline)
    ensures
        spec_outline_of(outline, points@, ends@),
{
    let mut bounds = BoundingBox { min_x: 0, min_y: 0, max_x: 0, max_y: 0 };
    let mut n: usize = 0;
    while n < points.len()
        invariant
            n <= points@.len(),
            bounds == spec_bounds(points@, n as int),
        decreases points@.len() - n,
    {
        let p: (i64, i64) = points[n];
        if n == 0 {
            bounds = BoundingBox { min_x: p.0, min_y: p.1, max_x: p.0, max_y: p.1 };
        } else {
            bounds = BoundingBox {
                min_x: if p.0 < bounds.min_x {
                    p.0
                } else {
                    bounds.min_x
                },
                min_y: if p.1 < bounds.min_y {
                    p.1
                } else {
                    bounds.min_y
                },
                max_x: if p.0 > bounds.max_x {
                    p.0
                } else {
                    bounds.max_x
                },
                max_y: if p.1 > bounds.max_y {
                    p.1
                } else {
                    bounds.max_y
                },
            };
        }
        n = n + 1;
    }
    let mut contours: Vec<Contour> = Vec::new();
    let mut start: i64 = 0;
    let mut k: usize = 0;
    while k < ends.len()
        invariant
            k <= ends@.len(),
            start == spec_contour_start(ends@, k as int),
            contours@.len() == spec_contours(points@, ends@, k as int).len(),
            forall|c: int|
                0 <= c < contours@.len() ==> (#[trigger] contours@[c]).points@ == spec_contours(
                    points@,
                    ends@,
                    k as int,
                )[c] && contours@[c].closed && contours@[c].points@.len() > 0,
        decreases ends@.len() - k,
    {
        let end: i64 = ends[k] as i64;
        let len: usize = points.len();
        let stop: i64 = if end + 1 < 0 {
            0
        } else if ((end + 1) as u64) < (len as u64) {
            end + 1
        } else if len as u64 > 0x7FFF {
            0x8000
        } else {
            len as i64
        };
        let mut contour: Vec<Point> = Vec::new();
        if 0 <= start && start < stop {
            let mut i: i64 = start;
            while i < stop
                invariant
                    0 <= start <= i <= stop <= points@.len(),
                    stop <= 0x8000,
                    contour@.len() == i - start,
                    forall|m: int|
                        0 <= m < i - start ==> #[trigger] contour@[m] == (Point {
                            x: points@[start + m].0,
                            y: points@[start + m].1,
                        }),
                decreases stop - i,
            {
                let p: (i64, i64) = points[i as usize];
                contour.push(Point { x: p.0, y: p.1 });
                i = i + 1;
            }
        }
        proof {
            assert(contour@ =~= spec_contour_points(points@, start as int, end as int));
        }
        if contour.len() > 0 {
            contours.push(Contour { points: contour, closed: true });
        }
        start = end + 1;
        k = k + 1;
    }
    GlyphOutline { contours, bounds }
}

/// Whether a bitmap of `rows` rows of `pitch` bytes each has a size that
/// fits in 32 bits with a sign. FreeType-rs computes the size of the pixel
/// buffer in such numbers.
pub open spec fn spec_buffer_size_fits(pitch: int, rows: int) -> bool {
    let magnitude = if pitch >= 0 {
        pitch
    } else {
        -pitch
    };
    pitch > i32::MIN && -0x8000_0000 <= magnitude * rows <= 0x7FFF_FFFF
}

/// Whether the size of a pixel buffer fits; see [`spec_buffer_size_fits`].
pub fn buffer_size_fits(pitch: i32, rows: i32) -> (fits: bool)
    ensures
        fits == spec_buffer_size_fits(pitch as int, rows as int),
{
    if pitch == i32::MIN {
        return false;
    }
    let magnitude: i64 = if pitch >= 0 {
        pitch as i64
    } else {
        -(pitch as i64)
    };
    assert(-0x8000_0000 * 0x8000_0000 <= magnitude * (rows as i64) <= 0x8000_0000 * 0x8000_0000)
        by (nonlinear_arith)
        requires
            0 <= magnitude <= 0x8000_0000,
            -0x8000_0000 <= rows <= 0x8000_0000,
    ;
    let size: i64 = magnitude * (rows as i64);
    -0x8000_0000 <= size && size <= 0x7FFF_FFFF
}

/// The bitmap that the measurements of a rendered glyph describe: width
/// and height as unsigned numbers, the bearings in whole pixels, the
/// magnitude of the pitch, and the pixel bytes as they are.
pub fn bitmap_from_parts(
    width: i32,
    rows: i32,
    pitch: i32,
    buffer: Vec<u8>,
    bearings: (i64, i64),
    mode: RenderMode,
) -> (bitmap: GlyphBitmap)
    ensures
        bitmap.width == spec_unsigned_size(width),
        bitmap.height == spec_unsigned_size(rows),
        bitmap.left == spec_clamped_pixels(bearings.0),
        bitmap.top == spec_clamped_pixels(bearings.1),
        bitmap.pitch == (if pitch >= 0 {
            pitch as int
        } else {
            -(pitch as int)
        }),
        bitmap.data == buffer,
        bitmap.format == mode,
{
    GlyphBitmap {
        width: unsigned_size(width),
        height: unsigned_size(rows),
        left: whole_pixels(bearings.0),
        top: whole_pixels(bearings.1),
        pitch: pitch_size(pitch),
        data: buffer,
        format: mode,
    }
}

/// The error for a glyph that was not loaded: the glyph is not found when
/// the face has no glyph with that index; any other failure is a failed
/// rasterization that carries the text of the failure.
pub fn load_error(failure: LoadFailure, glyph_id: GlyphId) -> (e: RenderError)
    ensures
        match failure {
            LoadFailure::InvalidGlyphIndex => e == RenderError::GlyphNotFound(glyph_id),
            LoadFailure::Other(text) => (e matches RenderError::RasterizationFailed(reason)
                && reason@ == "Failed to load glyph: "@ + text@),
        },
{
    match failure {
        LoadFailure::InvalidGlyphIndex => RenderError::GlyphNotFound(glyph_id),
        LoadFailure::Other(text) => RenderError::RasterizationFailed(
            String::from_str("Failed to load glyph: ").concat(text.as_str()),
        ),
    }
}

/// What FreeType is asked for a glyph.
#[derive(Debug, Clone, Copy, PartialEq, Eq, Structural)]
pub struct GlyphRequest {
    /// Width of a character, 26.6 fixed point.
    pub char_width: isize,
    /// Height of a character, 26.6 fixed point; 0 stands for the width.
    pub char_height: isize,
    /// Horizontal resolution, in dots per inch.
    pub horizontal_dpi: u32,
    /// Vertical resolution, in dots per inch.
    pub vertical_dpi: u32,
    /// Index of the glyph in the face.
    pub glyph_index: u32,
    /// How the glyph is loaded.
    pub load: LoadKind,
}

/// The character size for a size in pixels (26.6 fixed point): the size
/// itself, held between 0 and the largest 32-bit number with a sign.
pub open spec fn spec_char_size(size: i64) -> int {
    if size < 0 {
        0
    } else if size > 0x7FFF_FFFF {
        0x7FFF_FFFF
    } else {
        size as int
    }
}

/// The character size for a size in pixels; see [`spec_char_size`].
pub fn char_size(size: i64) -> (c: isize)
    ensures
        c == spec_char_size(size),
{
    if size < 0 {
        0
    } else if size > 0x7FFF_FFFF {
        0x7FFF_FFFF
    } else {
        size as isize
    }
}

/// What FreeType is asked when a glyph is rasterized: the character size
/// of the requested size, at the rendering resolution, and the glyph loaded
/// in the way of the render mode.
pub fn raster_request(glyph_id: GlyphId, size: i64, mode: RenderMode) -> (request: GlyphRequest)
    ensures
        request == (GlyphRequest {
            char_width: spec_char_size(size) as isize,
            char_height: 0,
            horizontal_dpi: RESOLUTION,
            vertical_dpi: RESOLUTION,
            glyph_index: glyph_id.0 as u32,
            load: if mode == RenderMode::Mono {
                LoadKind::Monochrome
            } else {
                LoadKind::Default
            },
        }),
{
    GlyphRequest {
        char_width: char_size(size),
        char_height: 0,
        horizontal_dpi: RESOLUTION,
        vertical_dpi: RESOLUTION,
        glyph_index: glyph_id.0 as u32,
        load: get_load_flags(mode),
    }
}

/// What FreeType is asked when an outline is read: a character size of 16
/// pixels at the rendering resolution, and the glyph loaded without
/// embedded bitmaps.
pub fn outline_request(glyph_id: GlyphId) -> (request: GlyphRequest)
    ensures
        request == (GlyphRequest {
            char_width: OUTLINE_SIZE,
            char_height: 0,
            horizontal_dpi: RESOLUTION,
            vertical_dpi: RESOLUTION,
            glyph_index: glyph_id.0 as u32,
            load: LoadKind::NoBitmap,
        }),
{
    GlyphRequest {
        char_width: OUTLINE_SIZE,
        char_height: 0,
        horizontal_dpi: RESOLUTION,
        vertical_dpi: RESOLUTION,
        glyph_index: glyph_id.0 as u32,
        load: LoadKind::NoBitmap,
    }
}

/// Renders glyphs and caches the bitmaps.
pub struct GlyphRenderer {
    cache: GlyphCache,
    config: CacheConfig,
}

impl GlyphRenderer {
    /// The glyph cache of the renderer.
    pub closed spec fn spec_cache(&self) -> GlyphCache {
        self.cache
    }

    /// The cache of the renderer is well formed.
    pub open spec fn wf(&self) -> bool {
        self.spec_cache().wf()
    }

    /// A renderer with the default bounds on its cache.
    pub fn new() -> (renderer: GlyphRenderer)
        ensures
            renderer.wf(),
            renderer.spec_cache()@.len() == 0,
    {
        Self::with_config(CacheConfig::default())
    }

    /// A renderer with the given bounds on its cache.
    pub fn with_config(config: CacheConfig) -> (renderer: GlyphRenderer)
        requires
            config.max_entries > 0,
        ensures
            renderer.wf(),
            renderer.spec_cache()@.len() == 0,
            renderer.spec_cache().spec_max_entries() == config.max_entries,
            renderer.spec_cache().spec_max_bytes() == config.max_memory_bytes,
    {
        GlyphRenderer {
            cache: GlyphCache::new(config.max_entries, config.max_memory_bytes),
            config,
        }
    }

    /// The bitmap of a glyph at a size in pixels (26.6 fixed point).
    ///
    /// A glyph that is in the cache comes from the cache. Any other glyph
    /// is rasterized and, when that succeeds, put into the cache. A font
    /// without data cannot be rasterized.
    pub fn rasterize_glyph(
        &mut self,
        font: &OpenTypeFont,
        glyph_id: GlyphId,
        size: i64,
        mode: RenderMode,
    ) -> (r: Result<GlyphBitmap, RenderError>)
        requires
            old(self).wf(),
        ensures
            final(self).wf(),
            spec_contains(old(self).spec_cache()@, spec_glyph_key(font.face_id, glyph_id, size, mode))
                ==> r is Ok && Some(r->Ok_0@) == spec_lookup(
                old(self).spec_cache()@,
                spec_glyph_key(font.face_id, glyph_id, size, mode),
            ) && final(self).spec_cache()@ == spec_touched(
                old(self).spec_cache()@,
                spec_glyph_key(font.face_id, glyph_id, size, mode),
            ),
            !spec_contains(
                old(self).spec_cache()@,
                spec_glyph_key(font.face_id, glyph_id, size, mode),
            ) ==> match r {
                Ok(bitmap) => font.data@.len() > 0 && bitmap.format == mode && final(self).spec_cache()@ == spec_put(
                    old(self).spec_cache()@,
                    old(self).spec_cache().spec_max_entries(),
                    old(self).spec_cache().spec_max_bytes() as int,
                    spec_glyph_key(font.face_id, glyph_id, size, mode),
                    bitmap@,
                ),
                Err(e) => final(self).spec_cache()@ == old(self).spec_cache()@ && (font.data@.len()
                    == 0 ==> e is RasterizationFailed),
            },
    {
        let cache_key = CacheKey { face_id: font.face_id, glyph_id, size: size_key(size), mode };
        match self.cache.get(&cache_key) {
            Some(bitmap) => {
                return Ok(bitmap);
            },
            None => {},
        }
        if font.data.len() == 0 {
            return Err(
                RenderError::RasterizationFailed(String::from_str("Font has no data (stub font)")),
            );
        }
        let bitmap: GlyphBitmap = Self::rasterize_with_freetype(font, glyph_id, size, mode)?;
        let copy: GlyphBitmap = bitmap.duplicate();
        self.cache.insert(cache_key, copy);
        Ok(bitmap)
    }

    /// Opens the font with FreeType and loads the glyph of a request: the
    /// character size and resolution of the request are set, and the glyph
    /// with its index is loaded in its way.
    fn load_requested(font: &OpenTypeFont, glyph_id: GlyphId, request: GlyphRequest) -> (r: Result<
        (Library, Face),
        RenderError,
    >)
        ensures
            r matches Err(e) ==> e is RasterizationFailed || e == RenderError::GlyphNotFound(
                glyph_id,
            ),
    {
        let library = match ft_init() {
            Ok(library) => library,
            Err(e) => {
                return Err(
                    RenderError::RasterizationFailed(
                        String::from_str("Failed to initialize FreeType: ").concat(e.as_str()),
                    ),
                );
            },
        };
        let face = match ft_memory_face(&library, font.data.as_slice(), font.face_index) {
            Ok(face) => face,
            Err(e) => {
                return Err(
                    RenderError::RasterizationFailed(
                        String::from_str("Failed to load font face: ").concat(e.as_str()),
                    ),
                );
            },
        };
        match ft_set_char_size(
            &face,
            request.char_width,
            request.char_height,
            request.horizontal_dpi,
            request.vertical_dpi,
        ) {
            Ok(_) => {},
            Err(e) => {
                return Err(
                    RenderError::RasterizationFailed(
                        String::from_str("Failed to set char size: ").concat(e.as_str()),
                    ),
                );
            },
        }
        match ft_load_glyph(&face, request.glyph_index, request.load) {
            Ok(_) => {},
            Err(failure) => {
                return Err(load_error(failure, glyph_id));
            },
        }
        Ok((library, face))
    }

    /// Rasterizes a glyph with FreeType: the glyph of
    /// [`raster_request`] is loaded and rendered in the way of
    /// [`to_freetype_render_mode`], and the bitmap is made of what FreeType
    /// measured, as [`bitmap_from_parts`] says.
    pub fn rasterize_with_freetype(
        font: &OpenTypeFont,
        glyph_id: GlyphId,
        size: i64,
        mode: RenderMode,
    ) -> (r: Result<GlyphBitmap, RenderError>)
        ensures
            match r {
                Ok(bitmap) => bitmap.format == mode && spec_buffer_size_fits(
                    bitmap.pitch as int,
                    bitmap.height as int,
                ),
                Err(e) => e is RasterizationFailed || e is OutOfMemory || e
                    == RenderError::GlyphNotFound(glyph_id),
            },
    {
        let (_library, face) = Self::load_requested(
            font,
            glyph_id,
            raster_request(glyph_id, size, mode),
        )?;
        match ft_render_glyph(&face, to_freetype_render_mode(mode)) {
            Ok(_) => {},
            Err(e) => {
                return Err(
                    RenderError::RasterizationFailed(
                        String::from_str("Failed to render glyph: ").concat(e.as_str()),
                    ),
                );
            },
        }
        let width: i32 = ft_bitmap_width(&face);
        let rows: i32 = ft_bitmap_rows(&face);
        let pitch: i32 = ft_bitmap_pitch(&face);
        if !buffer_size_fits(pitch, rows) {
            return Err(RenderError::OutOfMemory);
        }
        let buffer: Vec<u8> = ft_bitmap_buffer(&face);
        let bearings: (i64, i64) = ft_bearings(&face);
        Ok(bitmap_from_parts(width, rows, pitch, buffer, bearings, mode))
    }

    /// The outline of a glyph: the glyph of [`outline_request`] is loaded,
    /// and the outline is made of the points and contour ends that FreeType
    /// gives for it, as [`outline_from_points`] says. A font without data has
    /// no outlines.
    pub fn get_glyph_outline(&self, font: &OpenTypeFont, glyph_id: GlyphId) -> (r: Result<
        GlyphOutline,
        RenderError,
    >)
        ensures
            font.data@.len() == 0 ==> (r matches Err(e) && e is RasterizationFailed),
            match r {
                Ok(outline) => spec_is_outline(outline),
                Err(e) => e is RasterizationFailed || e == RenderError::GlyphNotFound(glyph_id),
            },
    {
        if font.data.len() == 0 {
            return Err(
                RenderError::RasterizationFailed(String::from_str("Font has no data (stub font)")),
            );
        }
        let (_library, face) = Self::load_requested(font, glyph_id, outline_request(glyph_id))?;
        let points: Vec<(i64, i64)> = match ft_outline_points(&face) {
            Some(points) => points,
            None => {
                return Err(
                    RenderError::RasterizationFailed(String::from_str("Glyph has no outline")),
                );
            },
        };
        let ends: Vec<i16> = match ft_outline_contours(&face) {
            Some(ends) => ends,
            None => {
                return Err(
                    RenderError::RasterizationFailed(String::from_str("Glyph has no outline")),
                );
            },
        };
        let outline: GlyphOutline = outline_from_points(&points, &ends);
        assert(spec_outline_of(outline, points@, ends@));
        Ok(outline)
    }

    /// Empties the glyph cache.
    pub fn clear_cache(&mut self)
        requires
            old(self).wf(),
        ensures
            final(self).wf(),
            final(self).spec_cache()@.len() == 0,
            final(self).spec_cache().spec_bytes() == 0,
            final(self).spec_cache().spec_stats() == old(self).spec_cache().spec_stats(),
    {
        self.cache.clear();
    }

    /// The counters and sizes of the glyph cache.
    pub fn cache_stats(&self) -> (stats: CacheStats)
        requires
            self.wf(),
        ensures
            stats.entries == self.spec_cache()@.len(),
            stats.hits == self.spec_cache().spec_stats().hits,
            stats.misses == self.spec_cache().spec_stats().misses,
            stats.evictions == self.spec_cache().spec_stats().evictions,
            stats.memory_bytes == self.spec_cache().spec_bytes(),
    {
        self.cache.get_stats()
    }
}

impl Default for GlyphRenderer {
    /// A renderer with the default bounds on its cache.
    fn default() -> (renderer: GlyphRenderer)
        ensures
            renderer.wf(),
    {
        GlyphRenderer::new()
    }
}

/// The cache key of a glyph of a face at a size and in a mode.
pub open spec fn spec_glyph_key(face_id: usize, glyph_id: GlyphId, size: i64, mode: RenderMode) -> (
    usize,
    u32,
    u32,
    u8,
) {
    (face_id, glyph_id.0 as u32, spec_size_key(size), mode.spec_code())
}

} // verus!
