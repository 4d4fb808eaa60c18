//! The text shaper: shapes runs of text with HarfBuzz, places the glyphs
//! along the pen, and remembers shaped runs.

use lru::LruCache;
use vstd::prelude::*;
use vstd::string::{StrSliceExecFns, StringExecFns};
use crate::fixed::floor_div;
use crate::font_parser::bytes::spec_be_u32;
use crate::font_registry::registry::{spec_match_font, FontRegistry};
use crate::font_registry::types::FontFace;
use crate::font_types::{
    Direction,
    FontDescriptor,
    FontMetrics,
    GlyphId,
    Point,
    PositionedGlyph,
    ShapedText,
    ShapedTextModel,
    Vector,
};
use crate::glyph_renderer::cache::{hit_rate, spec_count, spec_hit_rate, CacheStatistics};
use crate::lru_model::{
    lemma_pushed,
    lemma_touched,
    spec_contains,
    spec_displaced,
    spec_distinct_keys,
    spec_lookup,
    spec_pushed,
    spec_touched,
};
use crate::lru_store::{
    shaping_lru_cap,
    shaping_lru_capacity,
    shaping_lru_clear,
    shaping_lru_entries,
    shaping_lru_get,
    shaping_lru_len,
    shaping_lru_new,
    shaping_lru_push,
    spec_shaping_key,
    ShapingKey,
    ShapingKeyModel,
};
use crate::text_shaper::engine::{hb_shape, hb_shaped, RawGlyph};
use crate::text_shaper::features::FeatureSet;
use crate::text_shaper::types::{
    script_to_tag,
    spec_options_hash,
    ShapingError,
    ShapingOptions,
    ShapingOptionsModel,
};

verus! {

/// Default bound on the number of cached runs.
pub const DEFAULT_SHAPING_CACHE_SIZE: usize = 1000;

/// Bounds of the shaping cache.
#[derive(Debug, Clone)]
pub struct ShapingCacheConfig {
    /// Largest number of cached runs.
    pub max_entries: usize,
    /// Whether the cache and its statistics are kept at all.
    pub enable_statistics: bool,
}

impl Default for ShapingCacheConfig {
    /// 1000 runs, cache on.
    fn default() -> (config: ShapingCacheConfig)
        ensures
            config.max_entries == DEFAULT_SHAPING_CACHE_SIZE,
            config.enable_statistics,
    {
        ShapingCacheConfig { max_entries: DEFAULT_SHAPING_CACHE_SIZE, enable_statistics: true }
    }
}

/// Counters and sizes of the shaping cache.
#[derive(Debug, Clone, Copy, PartialEq, Eq, Structural)]
pub struct ShapingCacheStats {
    /// Lookups that found their run.
    pub hits: u64,
    /// Lookups that did not.
    pub misses: u64,
    /// Runs that were displaced.
    pub evictions: u64,
    /// Number of resident runs.
    pub current_size: usize,
    /// Largest number of resident runs.
    pub max_size: usize,
    /// Share of lookups that were hits, as 16.16 fixed point.
    pub hit_rate: u32,
}

/// The size of a cache key for a size in 26.6 fixed point: the size in
/// tenths of a pixel, rounded to the nearest tenth and held between 0 and
/// the largest 32-bit number.
pub open spec fn spec_size_fixed(size: i64) -> u32 {
    let tenths = (size * 10 + 32) / 64;
    if tenths < 0 {
        0
    } else if tenths > u32::MAX {
        u32::MAX
    } else {
        tenths as u32
    }
}

/// The size of a cache key for a size in 26.6 fixed point.
pub fn size_fixed(size: i64) -> (tenths: u32)
    ensures
        tenths == spec_size_fixed(size),
{
    let q: i128 = floor_div(size as i128 * 10 + 32, 64);
    if q < 0 {
        0
    } else if q > u32::MAX as i128 {
        u32::MAX
    } else {
        q as u32
    }
}

/// The cache key of a request.
pub open spec fn spec_cache_key(
    text: Seq<char>,
    font_id: usize,
    size: i64,
    options: ShapingOptionsModel,
) -> ShapingKeyModel {
    (text, font_id, spec_size_fixed(size), spec_options_hash(options))
}

/// What identifies a shaped run: the text, the face, the size in tenths of
/// a pixel, and the hash of the shaping options.
#[derive(Debug, Clone, PartialEq, Eq, Hash)]
pub struct ShapingCacheKey {
    /// The text of the run.
    pub text: String,
    /// The face.
    pub font_id: usize,
    /// The size in tenths of a pixel.
    pub size_fixed: u32,
    /// The hash of the shaping options.
    pub options_hash: u64,
}

impl ShapingCacheKey {
    /// The key of a request.
    pub fn new(text: &str, font_id: usize, size: i64, options: &ShapingOptions) -> (key:
        ShapingCacheKey)
        requires
            options.features.wf(),
        ensures
            (key.text@, key.font_id, key.size_fixed, key.options_hash) == spec_cache_key(
                text@,
                font_id,
                size,
                options@,
            ),
    {
        ShapingCacheKey {
            text: String::from_str(text),
            font_id,
            size_fixed: size_fixed(size),
            options_hash: options.options_hash(),
        }
    }

    /// The key as a tuple.
    pub fn into_tuple(self) -> (t: ShapingKey)
        ensures
            spec_shaping_key(t) == (self.text@, self.font_id, self.size_fixed, self.options_hash),
    {
        (self.text, self.font_id, self.size_fixed, self.options_hash)
    }
}

/// The cache of shaped runs: a bound on their number, no byte budget.
pub struct ShapingCache {
    cache: LruCache<ShapingKey, ShapedText>,
    stats: CacheStatistics,
}

impl View for ShapingCache {
    type V = Seq<(ShapingKeyModel, ShapedTextModel)>;

    /// The resident runs, least recently used first.
    closed spec fn view(&self) -> Seq<(ShapingKeyModel, ShapedTextModel)> {
        shaping_lru_entries(self.cache)
    }
}

/// A counter after one more event.
fn bump(counter: u64) -> (next: u64)
    ensures
        next == spec_count(counter, 1),
{
    if counter < u64::MAX {
        counter + 1
    } else {
        counter
    }
}

impl ShapingCache {
    /// The bound on the number of resident runs.
    pub closed spec fn spec_max_entries(&self) -> nat {
        shaping_lru_capacity(self.cache)
    }

    /// The counters of hits, misses and evictions.
    pub closed spec fn spec_stats(&self) -> CacheStatistics {
        self.stats
    }

    /// No key is resident twice, and the number of residents is within its bound.
    pub closed spec fn wf(&self) -> bool {
        &&& spec_distinct_keys(self@)
        &&& self@.len() <= self.spec_max_entries()
        &&& self.spec_max_entries() >= 1
    }

    /// What `wf` says, for callers that cannot see inside the cache.
    pub proof fn lemma_wf(&self)
        requires
            self.wf(),
        ensures
            spec_distinct_keys(self@),
            self@.len() <= self.spec_max_entries(),
            self.spec_max_entries() >= 1,
    {
    }

    /// An empty cache for at most `max_size` runs.
    pub fn new(max_size: usize) -> (cache: ShapingCache)
        requires
            max_size > 0,
        ensures
            cache.wf(),
            cache@.len() == 0,
            cache.spec_max_entries() == max_size,
            cache.spec_stats() == (CacheStatistics { hits: 0, misses: 0, evictions: 0 }),
    {
        ShapingCache {
            cache: shaping_lru_new(max_size),
            stats: CacheStatistics { hits: 0, misses: 0, evictions: 0 },
        }
    }

    /// Looks a run up. A resident key becomes the most recently used and
    /// counts as a hit; any other key counts as a miss.
    pub fn get(&mut self, key: &ShapingKey) -> (r: Option<ShapedText>)
        requires
            old(self).wf(),
        ensures
            final(self).wf(),
            r is Some <==> spec_contains(old(self)@, spec_shaping_key(*key)),
            r matches Some(shaped) ==> Some(shaped@) == spec_lookup(
                old(self)@,
                spec_shaping_key(*key),
            ),
            final(self)@ == spec_touched(old(self)@, spec_shaping_key(*key)),
            final(self).spec_max_entries() == old(self).spec_max_entries(),
            final(self).spec_stats() == (CacheStatistics {
                hits: spec_count(
                    old(self).spec_stats().hits,
                    if r is Some {
                        1
                    } else {
                        0
                    },
                ),
                misses: spec_count(
                    old(self).spec_stats().misses,
                    if r is Some {
                        0
                    } else {
                        1
                    },
                ),
                evictions: old(self).spec_stats().evictions,
            }),
    {
        proof {
            lemma_touched(self@, spec_shaping_key(*key));
        }
        match shaping_lru_get(&mut self.cache, key) {
            Some(shaped) => {
                self.stats.hits = bump(self.stats.hits);
                Some(shaped)
            },
            None => {
                self.stats.misses = bump(self.stats.misses);
                None
            },
        }
    }

    /// Stores a run as the most recently used. It replaces the run that
    /// was under the same key, or else, in a full cache, the least recently
    /// used run; either counts as an eviction.
    pub fn insert(&mut self, key: ShapingKey, value: ShapedText)
        requires
            old(self).wf(),
        ensures
            final(self).wf(),
            final(self)@ == spec_pushed(
                old(self)@,
                old(self).spec_max_entries(),
                spec_shaping_key(key),
                value@,
            ),
            spec_lookup(final(self)@, spec_shaping_key(key)) == Some(value@),
            final(self).spec_max_entries() == old(self).spec_max_entries(),
            final(self).spec_stats() == (CacheStatistics {
                hits: old(self).spec_stats().hits,
                misses: old(self).spec_stats().misses,
                evictions: spec_count(
                    old(self).spec_stats().evictions,
                    if spec_displaced(
                        old(self)@,
                        old(self).spec_max_entries(),
                        spec_shaping_key(key),
                    ) is Some {
                        1
                    } else {
                        0
                    },
                ),
            }),
    {
        proof {
            lemma_pushed(self@, self.spec_max_entries(), spec_shaping_key(key), value@);
        }
        if shaping_lru_push(&mut self.cache, key, value) {
            self.stats.evictions = bump(self.stats.evictions);
        }
    }

    /// Empties the cache. The counters stay as they are.
    pub fn clear(&mut self)
        requires
            old(self).wf(),
        ensures
            final(self).wf(),
            final(self)@.len() == 0,
            final(self).spec_max_entries() == old(self).spec_max_entries(),
            final(self).spec_stats() == old(self).spec_stats(),
    {
        shaping_lru_clear(&mut self.cache);
    }

    /// The counters and sizes of the cache.
    pub fn get_stats(&self) -> (stats: ShapingCacheStats)
        requires
            self.wf(),
        ensures
            stats.hits == self.spec_stats().hits,
            stats.misses == self.spec_stats().misses,
            stats.evictions == self.spec_stats().evictions,
            stats.current_size == self@.len(),
            stats.max_size == self.spec_max_entries(),
            stats.hit_rate == spec_hit_rate(self.spec_stats().hits, self.spec_stats().misses),
    {
        ShapingCacheStats {
            hits: self.stats.hits,
            misses: self.stats.misses,
            evictions: self.stats.evictions,
            current_size: shaping_lru_len(&self.cache),
            max_size: shaping_lru_cap(&self.cache),
            hit_rate: hit_rate(self.stats.hits, self.stats.misses),
        }
    }
}

/// A request that is repeated right after it was answered from the engine
/// finds its run in the cache, with the value that was stored.
pub proof fn lemma_second_request_hits(
    entries: Seq<(ShapingKeyModel, ShapedTextModel)>,
    capacity: nat,
    key: ShapingKeyModel,
    shaped: ShapedTextModel,
)
    requires
        spec_distinct_keys(entries),
        entries.len() <= capacity,
        capacity >= 1,
    ensures
        spec_contains(spec_pushed(spec_touched(entries, key), capacity, key, shaped), key),
        spec_lookup(spec_pushed(spec_touched(entries, key), capacity, key, shaped), key) == Some(
            shaped,
        ),
{
    lemma_touched(entries, key);
    lemma_pushed(spec_touched(entries, key), capacity, key, shaped);
}

/// The horizontal pen position before glyph `k`: the sum of the advances
/// of the glyphs before it, each with the letter spacing added.
pub open spec fn spec_pen_x(raw: Seq<RawGlyph>, k: int, letter_spacing: i32) -> int
    decreases k,
{
    if k <= 0 {
        0
    } else {
        spec_pen_x(raw, k - 1, letter_spacing) + raw[k - 1].1 + letter_spacing
    }
}

/// The vertical pen position before glyph `k`.
pub open spec fn spec_pen_y(raw: Seq<RawGlyph>, k: int) -> int
    decreases k,
{
    if k <= 0 {
        0
    } else {
        spec_pen_y(raw, k - 1) + raw[k - 1].2
    }
}

/// Glyph `k` of a run, placed: drawn at the pen position plus its offset,
/// and moving the pen by its advance plus the letter spacing.
pub open spec fn spec_placed(raw: Seq<RawGlyph>, k: int, font_id: usize, letter_spacing: i32)
    -> PositionedGlyph {
    PositionedGlyph {
        glyph_id: GlyphId { id: raw[k].0 },
        font_id,
        position: Point {
            x: (spec_pen_x(raw, k, letter_spacing) + raw[k].3) as i64,
            y: (spec_pen_y(raw, k) + raw[k].4) as i64,
        },
        advance: Vector { x: (raw[k].1 + letter_spacing) as i64, y: raw[k].2 as i64 },
        offset: Vector { x: raw[k].3 as i64, y: raw[k].4 as i64 },
    }
}

/// The height and the baseline of a run at a size: `(ascent - descent) *
/// size / units_per_em` and `ascent * size / units_per_em`, both rounded
/// toward negative infinity.
pub open spec fn spec_extent(metrics: FontMetrics, size: i64) -> (int, int) {
    (
        ((metrics.ascent - metrics.descent) * size) / (metrics.units_per_em as int),
        (metrics.ascent * size) / (metrics.units_per_em as int),
    )
}

/// Whether the height and the baseline of a run can be computed: the face
/// has units per em, and both fit in 64 bits.
pub open spec fn spec_extent_fits(metrics: FontMetrics, size: i64) -> bool {
    &&& metrics.units_per_em > 0
    &&& i64::MIN <= spec_extent(metrics, size).0 <= i64::MAX
    &&& i64::MIN <= spec_extent(metrics, size).1 <= i64::MAX
}

/// Whether a number fits a 64-bit fixed-point value.
pub open spec fn spec_fits_i64(v: int) -> bool {
    i64::MIN <= v <= i64::MAX
}

/// Whether the glyphs of the engine can be placed: the pen position
/// before and after every glyph fits, and so does the place where each
/// glyph is drawn.
pub open spec fn spec_run_fits(raw: Seq<RawGlyph>, letter_spacing: i32) -> bool {
    &&& forall|k: int|
        0 <= k <= raw.len() ==> spec_fits_i64(#[trigger] spec_pen_x(raw, k, letter_spacing))
            && spec_fits_i64(spec_pen_y(raw, k))
    &&& forall|k: int|
        0 <= k < raw.len() ==> spec_fits_i64(
            spec_pen_x(raw, k, letter_spacing) + (#[trigger] raw[k]).3,
        ) && spec_fits_i64(spec_pen_y(raw, k) + raw[k].4)
}

/// The run that the glyphs of the engine are placed to.
pub open spec fn spec_shaped_run(
    raw: Seq<RawGlyph>,
    font_id: usize,
    letter_spacing: i32,
    metrics: FontMetrics,
    size: i64,
) -> ShapedTextModel {
    ShapedTextModel {
        glyphs: Seq::new(raw.len(), |k: int| spec_placed(raw, k, font_id, letter_spacing)),
        width: spec_pen_x(raw, raw.len() as int, letter_spacing) as i64,
        height: spec_extent(metrics, size).0 as i64,
        baseline: spec_extent(metrics, size).1 as i64,
    }
}

/// Places the glyphs of the engine along the pen.
///
/// The pen starts at the origin. Each glyph is drawn at the pen position
/// plus its offset; the pen then moves by the advance of the glyph, to
/// which the letter spacing is added for every glyph, the last included.
/// The width of the run is the final horizontal pen position.
///
/// Fails with `Overflow` when the height and the baseline cannot be
/// computed from the metrics of the face or do not fit, or when a pen
/// position or the place of a glyph does not fit.
pub fn build_shaped_text(
    raw: &Vec<RawGlyph>,
    font_id: usize,
    letter_spacing: i32,
    metrics: &FontMetrics,
    size: i64,
) -> (r: Result<ShapedText, ShapingError>)
    ensures
        r is Ok <==> spec_run_fits(raw@, letter_spacing) && spec_extent_fits(*metrics, size),
        r matches Ok(shaped) ==> shaped@ == spec_shaped_run(
            raw@,
            font_id,
            letter_spacing,
            *metrics,
            size,
        ),
        r matches Err(e) ==> e is Overflow,
{
    if metrics.units_per_em == 0 {
        return Err(ShapingError::Overflow(String::from_str("Face has no units per em")));
    }
    let upem: i128 = metrics.units_per_em as i128;
    let span: i128 = metrics.ascent as i128 - metrics.descent as i128;
    assert(-0x7FFF_FFFF_FFFF_FFFF_8000_0000_0000_0000 <= span * (size as i128)
        <= 0x7FFF_FFFF_FFFF_FFFF_8000_0000_0000_0000) by (nonlinear_arith)
        requires
            -0xFFFF_FFFF_FFFF_FFFF <= span <= 0xFFFF_FFFF_FFFF_FFFF,
            -0x8000_0000_0000_0000 <= size <= 0x7FFF_FFFF_FFFF_FFFF,
    ;
    let height: i128 = floor_div(span * (size as i128), upem);
    let baseline: i128 = crate::fixed::mul_div(metrics.ascent, size, metrics.units_per_em as i64);
    if height < i64::MIN as i128 || height > i64::MAX as i128 || baseline < i64::MIN as i128
        || baseline > i64::MAX as i128 {
        return Err(
            ShapingError::Overflow(String::from_str("Height or baseline of the run does not fit")),
        );
    }
    let n: usize = raw.len();
    let mut glyphs: Vec<PositionedGlyph> = Vec::new();
    let mut cursor_x: i128 = 0;
    let mut cursor_y: i128 = 0;
    let mut k: usize = 0;
    while k < n
        invariant
            n == raw@.len(),
            k <= n,
            cursor_x == spec_pen_x(raw@, k as int, letter_spacing),
            cursor_y == spec_pen_y(raw@, k as int),
            glyphs@.len() == k,
            forall|j: int|
                0 <= j <= k ==> spec_fits_i64(#[trigger] spec_pen_x(raw@, j, letter_spacing))
                    && spec_fits_i64(spec_pen_y(raw@, j)),
            forall|j: int|
                0 <= j < k ==> spec_fits_i64(
                    spec_pen_x(raw@, j, letter_spacing) + (#[trigger] raw@[j]).3,
                ) && spec_fits_i64(spec_pen_y(raw@, j) + raw@[j].4),
            forall|j: int|
                0 <= j < k ==> #[trigger] glyphs@[j] == spec_placed(
                    raw@,
                    j,
                    font_id,
                    letter_spacing,
                ),
        decreases n - k,
    {
        let glyph: RawGlyph = raw[k];
        let x: i128 = cursor_x + glyph.3 as i128;
        let y: i128 = cursor_y + glyph.4 as i128;
        let next_x: i128 = cursor_x + glyph.1 as i128 + letter_spacing as i128;
        let next_y: i128 = cursor_y + glyph.2 as i128;
        if !fits_i64(x) || !fits_i64(y) || !fits_i64(next_x) || !fits_i64(next_y) {
            proof {
                assert(next_x == spec_pen_x(raw@, k as int + 1, letter_spacing));
                assert(next_y == spec_pen_y(raw@, k as int + 1));
                assert(x == spec_pen_x(raw@, k as int, letter_spacing) + raw@[k as int].3);
            }
            return Err(ShapingError::Overflow(String::from_str("A pen position does not fit")));
        }
        glyphs.push(
            PositionedGlyph {
                glyph_id: GlyphId { id: glyph.0 },
                font_id,
                position: Point { x: x as i64, y: y as i64 },
                advance: Vector { x: glyph.1 as i64 + letter_spacing as i64, y: glyph.2 as i64 },
                offset: Vector { x: glyph.3 as i64, y: glyph.4 as i64 },
            },
        );
        cursor_x = next_x;
        cursor_y = next_y;
        k = k + 1;
    }
    let shaped = ShapedText {
        glyphs,
        width: cursor_x as i64,
        height: height as i64,
        baseline: baseline as i64,
    };
    proof {
        assert(shaped@.glyphs =~= spec_shaped_run(
            raw@,
            font_id,
            letter_spacing,
            *metrics,
            size,
        ).glyphs);
    }
    Ok(shaped)
}

/// Whether a number fits a 64-bit fixed-point value.
fn fits_i64(v: i128) -> (fits: bool)
    ensures
        fits == spec_fits_i64(v as int),
{
    i64::MIN as i128 <= v && v <= i64::MAX as i128
}

/// A run without glyphs and without size.
pub fn empty_shaped_text() -> (shaped: ShapedText)
    ensures
        shaped@ == (ShapedTextModel {
            glyphs: Seq::<PositionedGlyph>::empty(),
            width: 0,
            height: 0,
            baseline: 0,
        }),
{
    ShapedText { glyphs: Vec::new(), width: 0, height: 0, baseline: 0 }
}

/// The scale that the engine is given for a size in 26.6 fixed point: the
/// size itself, held within 32 bits.
pub open spec fn spec_engine_scale(size: i64) -> i32 {
    if size > i32::MAX {
        i32::MAX
    } else if size < i32::MIN {
        i32::MIN
    } else {
        size as i32
    }
}

/// The pixels per em that the engine is given for a size in 26.6 fixed
/// point: the whole pixels of the size, held between 0 and the largest
/// 32-bit number.
pub open spec fn spec_engine_ppem(size: i64) -> u32 {
    if size < 0 {
        0
    } else if size / 64 > u32::MAX {
        u32::MAX
    } else {
        (size / 64) as u32
    }
}

/// The features that the engine is given, among the first `k` of
/// `features`: those whose tag is four bytes long, as the integer value of
/// the tag and the value of the feature.
pub open spec fn spec_engine_features(features: Seq<(Seq<u8>, u32)>, k: int) -> Seq<(u32, u32)>
    decreases k,
{
    if k <= 0 {
        Seq::<(u32, u32)>::empty()
    } else if features[k - 1].0.len() == 4 {
        spec_engine_features(features, k - 1).push(
            (spec_be_u32(features[k - 1].0, 0) as u32, features[k - 1].1),
        )
    } else {
        spec_engine_features(features, k - 1)
    }
}

/// The number that HarfBuzz gives a direction.
pub open spec fn spec_hb_direction(direction: Direction) -> u32 {
    match direction {
        Direction::LeftToRight => 4,
        Direction::RightToLeft => 5,
        Direction::TopToBottom => 6,
        Direction::BottomToTop => 7,
    }
}

/// The number that HarfBuzz gives a direction.
pub fn direction_to_hb_direction(direction: Direction) -> (raw: u32)
    ensures
        raw == spec_hb_direction(direction),
{
    match direction {
        Direction::LeftToRight => 4,
        Direction::RightToLeft => 5,
        Direction::TopToBottom => 6,
        Direction::BottomToTop => 7,
    }
}

/// The language tag that the engine is given: the tag of the options, or
/// `und` where that tag is empty or starts with a zero byte.
pub open spec fn spec_engine_language(tag: Seq<char>) -> Seq<char> {
    if tag.len() > 0 && tag[0] != '\0' {
        tag
    } else {
        "und"@
    }
}

/// What the engine shapes a request to.
pub open spec fn spec_engine_output(
    data: Seq<u8>,
    text: Seq<char>,
    size: i64,
    options: ShapingOptions,
) -> Seq<RawGlyph> {
    hb_shaped(
        data,
        text,
        spec_engine_scale(size),
        spec_engine_ppem(size),
        spec_hb_direction(options.direction),
        options.script.spec_tag(),
        spec_engine_language(options.language.tag@),
        spec_engine_features(options.features@, options.features@.len() as int),
    )
}

/// The features that the engine is given; see [`spec_engine_features`].
pub fn engine_features(features: &FeatureSet) -> (r: Vec<(u32, u32)>)
    ensures
        r@ == spec_engine_features(features@, features@.len() as int),
{
    let mut r: Vec<(u32, u32)> = Vec::new();
    let mut i: usize = 0;
    while i < features.len()
        invariant
            i <= features@.len(),
            r@ == spec_engine_features(features@, i as int),
        decreases features@.len() - i,
    {
        match features.entry(i) {
            Some(feature) => {
                let bytes: &[u8] = feature.tag.as_str().as_bytes();
                if bytes.len() == 4 {
                    let b0: u32 = bytes[0] as u32;
                    let b1: u32 = bytes[1] as u32;
                    let b2: u32 = bytes[2] as u32;
                    let b3: u32 = bytes[3] as u32;
                    r.push((((b0 * 256 + b1) * 256 + b2) * 256 + b3, feature.value));
                }
            },
            None => {},
        }
        i = i + 1;
    }
    r
}

/// The text shaper.
pub struct TextShaper<'a> {
    registry: &'a FontRegistry,
    cache: Option<ShapingCache>,
    config: ShapingCacheConfig,
}

impl<'a> TextShaper<'a> {
    /// The registry that faces are taken from.
    pub closed spec fn spec_registry(&self) -> &'a FontRegistry {
        self.registry
    }

    /// The cache of shaped runs, if the shaper keeps one.
    pub closed spec fn spec_cache(&self) -> Option<ShapingCache> {
        self.cache
    }

    /// The registry and the cache are well formed.
    pub open spec fn wf(&self) -> bool {
        &&& self.spec_registry().wf()
        &&& self.spec_cache() matches Some(cache) ==> cache.wf()
    }

    /// A shaper with the default bounds on its cache: an empty cache for
    /// 1000 runs whose counters stand at zero.
    pub fn new(registry: &'a FontRegistry) -> (shaper: TextShaper<'a>)
        requires
            registry.wf(),
        ensures
            shaper.wf(),
            shaper.spec_registry() == registry,
            shaper.spec_cache() is Some,
            shaper.spec_cache()->0@.len() == 0,
            shaper.spec_cache()->0.spec_max_entries() == DEFAULT_SHAPING_CACHE_SIZE,
            shaper.spec_cache()->0.spec_stats() == (CacheStatistics {
                hits: 0,
                misses: 0,
                evictions: 0,
            }),
    {
        Self::with_config(registry, ShapingCacheConfig::default())
    }

    /// A shaper with the given bounds on its cache, which is empty and
    /// whose counters stand at zero. Without statistics the shaper keeps no
    /// cache.
    pub fn with_config(registry: &'a FontRegistry, config: ShapingCacheConfig) -> (shaper:
        TextShaper<'a>)
        requires
            registry.wf(),
            config.enable_statistics ==> config.max_entries > 0,
        ensures
            shaper.wf(),
            shaper.spec_registry() == registry,
            shaper.spec_cache() is Some <==> config.enable_statistics,
            shaper.spec_cache() matches Some(cache) ==> cache@.len() == 0
                && cache.spec_max_entries() == config.max_entries && cache.spec_stats()
                == (CacheStatistics { hits: 0, misses: 0, evictions: 0 }),
    {
        let cache: Option<ShapingCache> = if config.enable_statistics {
            Some(ShapingCache::new(config.max_entries))
        } else {
            None
        };
        TextShaper { registry, cache, config }
    }

    /// The counters and sizes of the cache, if the shaper keeps one.
    pub fn cache_stats(&self) -> (r: Option<ShapingCacheStats>)
        requires
            self.wf(),
        ensures
            r is Some <==> self.spec_cache() is Some,
            r matches Some(stats) ==> stats.hits == self.spec_cache()->0.spec_stats().hits
                && stats.misses == self.spec_cache()->0.spec_stats().misses && stats.evictions
                == self.spec_cache()->0.spec_stats().evictions && stats.current_size
                == self.spec_cache()->0@.len() && stats.max_size
                == self.spec_cache()->0.spec_max_entries() && stats.hit_rate == spec_hit_rate(
                self.spec_cache()->0.spec_stats().hits,
                self.spec_cache()->0.spec_stats().misses,
            ),
    {
        match &self.cache {
            Some(cache) => Some(cache.get_stats()),
            None => None,
        }
    }

    /// Empties the cache.
    pub fn clear_cache(&mut self)
        requires
            old(self).wf(),
        ensures
            final(self).wf(),
            final(self).spec_registry() == old(self).spec_registry(),
            final(self).spec_cache() is Some <==> old(self).spec_cache() is Some,
            final(self).spec_cache() matches Some(cache) ==> cache@.len() == 0,
    {
        match &mut self.cache {
            Some(cache) => {
                cache.clear();
            },
            None => {},
        }
    }

    /// Shapes a run of text with a face at a size in pixels (26.6 fixed point).
    ///
    /// Empty text gives an empty run and leaves the cache alone. A request
    /// that is in the cache is answered from it. Any other request is
    /// shaped by the engine, placed along the pen, and stored in the cache.
    /// Fails with `FontNotFound` when the registry has no such face or the
    /// face has no data, and with `Overflow` when the run cannot be placed:
    /// a value that placing it computes does not fit.
    pub fn shape_text(
        &mut self,
        text: &str,
        font_id: usize,
        size: i64,
        options: &ShapingOptions,
    ) -> (r: Result<ShapedText, ShapingError>)
        requires
            old(self).wf(),
            options.features.wf(),
        ensures
            final(self).wf(),
            final(self).spec_registry() == old(self).spec_registry(),
            final(self).spec_cache() is Some <==> old(self).spec_cache() is Some,
            text@.len() == 0 ==> r is Ok && r->Ok_0@.glyphs.len() == 0 && r->Ok_0@.width == 0
                && r->Ok_0@.height == 0 && r->Ok_0@.baseline == 0 && final(self).spec_cache()
                == old(self).spec_cache(),
            text@.len() > 0 ==> spec_shape_outcome(
                old(self).spec_cache(),
                final(self).spec_cache(),
                old(self).spec_registry()@,
                text@,
                font_id,
                size,
                *options,
                r,
            ),
    {
        if text.is_empty() {
            return Ok(empty_shaped_text());
        }
        let ghost key_model = spec_cache_key(text@, font_id, size, options@);
        match &mut self.cache {
            Some(cache) => {
                let cache_key: ShapingKey = ShapingCacheKey::new(
                    text,
                    font_id,
                    size,
                    options,
                ).into_tuple();
                match cache.get(&cache_key) {
                    Some(shaped) => {
                        return Ok(shaped);
                    },
                    None => {},
                }
            },
            None => {},
        }
        let font_face: &FontFace = match self.registry.get_font_face(font_id) {
            Some(face) => face,
            None => {
                return Err(ShapingError::FontNotFound);
            },
        };
        let font_data: &[u8] = match font_face.data() {
            Some(data) => data,
            None => {
                return Err(ShapingError::FontNotFound);
            },
        };
        let scale: i32 = if size > i32::MAX as i64 {
            i32::MAX
        } else if size < i32::MIN as i64 {
            i32::MIN
        } else {
            size as i32
        };
        let ppem: u32 = if size < 0 {
            0
        } else if size / 64 > u32::MAX as i64 {
            u32::MAX
        } else {
            (size / 64) as u32
        };
        let features: Vec<(u32, u32)> = engine_features(&options.features);
        let tag: &str = options.language.tag.as_str();
        let usable: bool = !tag.is_empty() && tag.get_char(0) != '\0';
        let language: &str = if usable {
            tag
        } else {
            "und"
        };
        proof {
            reveal_strlit("und");
        }
        let raw: Vec<RawGlyph> = hb_shape(
            font_data,
            text,
            scale,
            ppem,
            direction_to_hb_direction(options.direction),
            script_to_tag(options.script),
            language,
            &features,
        );
        let shaped: ShapedText = build_shaped_text(
            &raw,
            font_id,
            options.letter_spacing,
            &font_face.metrics,
            size,
        )?;
        match &mut self.cache {
            Some(cache) => {
                let cache_key: ShapingKey = ShapingCacheKey::new(
                    text,
                    font_id,
                    size,
                    options,
                ).into_tuple();
                let copy: ShapedText = shaped.duplicate();
                cache.insert(cache_key, copy);
            },
            None => {},
        }
        Ok(shaped)
    }

    /// Shapes a run of text with the face that matches a request for a
    /// font, at the size of the request.
    ///
    /// Empty text gives an empty run. Fails with `FontNotFound` when no
    /// face matches; otherwise as [`TextShaper::shape_text`] with the
    /// matched face.
    pub fn shape_text_with_fallback(
        &mut self,
        text: &str,
        descriptor: &FontDescriptor,
        options: &ShapingOptions,
    ) -> (r: Result<ShapedText, ShapingError>)
        requires
            old(self).wf(),
            options.features.wf(),
        ensures
            final(self).wf(),
            final(self).spec_registry() == old(self).spec_registry(),
            final(self).spec_cache() is Some <==> old(self).spec_cache() is Some,
            text@.len() == 0 ==> r is Ok && r->Ok_0@.glyphs.len() == 0 && final(self).spec_cache()
                == old(self).spec_cache(),
            text@.len() > 0 ==> match spec_match_font(old(self).spec_registry()@, *descriptor) {
                Some(font_id) => spec_shape_outcome(
                    old(self).spec_cache(),
                    final(self).spec_cache(),
                    old(self).spec_registry()@,
                    text@,
                    font_id,
                    descriptor.size,
                    *options,
                    r,
                ),
                None => r matches Err(e) && e is FontNotFound && final(self).spec_cache() == old(self).spec_cache(),
            },
    {
        if text.is_empty() {
            return Ok(empty_shaped_text());
        }
        let font_id: usize = match self.registry.match_font(descriptor) {
            Some(id) => id,
            None => {
                return Err(ShapingError::FontNotFound);
            },
        };
        self.shape_text(text, font_id, descriptor.size, options)
    }
}

/// What shaping a non-empty text does to the cache and what it returns.
///
/// A request that is in the cache is a hit: it returns the cached run and
/// makes it the most recently used. Any other request is a miss. It then
/// fails when the registry has no such face or the face has no data. Else
/// the engine shapes the run; when the run can be placed, it is returned
/// and stored in the cache, and when it cannot, the request fails with
/// `Overflow`.
pub open spec fn spec_shape_outcome(
    before: Option<ShapingCache>,
    after: Option<ShapingCache>,
    faces: Seq<crate::font_registry::types::FontFaceModel>,
    text: Seq<char>,
    font_id: usize,
    size: i64,
    options: ShapingOptions,
    r: Result<ShapedText, ShapingError>,
) -> bool {
    let key = spec_cache_key(text, font_id, size, options@);
    let hit = before is Some && spec_contains(before->0@, key);
    if hit {
        &&& r is Ok
        &&& Some(r->Ok_0@) == spec_lookup(before->0@, key)
        &&& after->0@ == spec_touched(before->0@, key)
        &&& after->0.spec_stats() == (CacheStatistics {
            hits: spec_count(before->0.spec_stats().hits, 1),
            misses: before->0.spec_stats().misses,
            evictions: before->0.spec_stats().evictions,
        })
    } else {
        &&& before matches Some(cache) ==> after->0.spec_stats().misses == spec_count(
            cache.spec_stats().misses,
            1,
        ) && after->0.spec_stats().hits == cache.spec_stats().hits
        &&& if font_id >= faces.len() || faces[font_id as int].data is None {
            &&& r matches Err(e) && e is FontNotFound
            &&& before matches Some(cache) ==> after->0@ == cache@
        } else {
            let raw = spec_engine_output(faces[font_id as int].data->0, text, size, options);
            let metrics = faces[font_id as int].metrics;
            if spec_run_fits(raw, options.letter_spacing) && spec_extent_fits(metrics, size) {
                &&& r is Ok
                &&& r->Ok_0@ == spec_shaped_run(raw, font_id, options.letter_spacing, metrics, size)
                &&& before matches Some(cache) ==> after->0@ == spec_pushed(
                    cache@,
                    cache.spec_max_entries(),
                    key,
                    r->Ok_0@,
                )
            } else {
                &&& r matches Err(e) && e is Overflow
                &&& before matches Some(cache) ==> after->0@ == cache@
            }
        }
    }
}

} // verus!
