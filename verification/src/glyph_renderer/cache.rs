//! The glyph cache: rasterized bitmaps under a bound on their number and a
//! budget for their bytes, displaced least recently used first.

use lru::LruCache;
use vstd::prelude::*;
use crate::font_types::{GlyphBitmap, GlyphBitmapModel, RenderMode};
use crate::glyph_renderer::types::{CacheStats, GlyphId};
use crate::lru_model::{
    lemma_popped,
    lemma_position,
    lemma_pushed,
    lemma_touched,
    spec_contains,
    spec_displaced,
    spec_distinct_keys,
    spec_lookup,
    spec_position,
    spec_pushed,
    spec_touched,
};
use crate::lru_store::{
    glyph_lru_cap,
    glyph_lru_capacity,
    glyph_lru_clear,
    glyph_lru_entries,
    glyph_lru_get,
    glyph_lru_len,
    glyph_lru_new,
    glyph_lru_pop,
    glyph_lru_push,
    GlyphKey,
};

verus! {

/// Default bound on the number of cached glyphs.
pub const DEFAULT_CACHE_SIZE: usize = 10_000;

/// Default budget for the bytes of cached pixel data: 100 MiB.
pub const DEFAULT_MEMORY_LIMIT_BYTES: usize = 104_857_600;

/// Bounds of the glyph cache.
#[derive(Debug, Clone)]
pub struct CacheConfig {
    /// Largest number of cached glyphs.
    pub max_entries: usize,
    /// Budget for the bytes of pixel data.
    pub max_memory_bytes: usize,
    /// Whether statistics are kept.
    pub enable_statistics: bool,
}

impl Default for CacheConfig {
    /// 10 000 glyphs, 100 MiB, statistics on.
    fn default() -> (config: CacheConfig)
        ensures
            config.max_entries == DEFAULT_CACHE_SIZE,
            config.max_memory_bytes == DEFAULT_MEMORY_LIMIT_BYTES,
            config.enable_statistics,
    {
        CacheConfig {
            max_entries: DEFAULT_CACHE_SIZE,
            max_memory_bytes: DEFAULT_MEMORY_LIMIT_BYTES,
            enable_statistics: true,
        }
    }
}

/// What identifies a rasterized glyph: the face, the glyph, the size in
/// 26.6 fixed point, and the render mode.
#[derive(Debug, Clone, Copy, PartialEq, Eq, Hash, Structural)]
pub struct CacheKey {
    /// The face that the glyph comes from.
    pub face_id: usize,
    /// The glyph.
    pub glyph_id: GlyphId,
    /// The size in pixels as 26.6 fixed point.
    pub size: u32,
    /// The render mode.
    pub mode: RenderMode,
}

impl View for CacheKey {
    type V = GlyphKey;

    /// The key as a tuple of integers.
    open spec fn view(&self) -> GlyphKey {
        (self.face_id, self.glyph_id.0 as u32, self.size, self.mode.spec_code())
    }
}

impl CacheKey {
    /// The key as a tuple of integers.
    pub fn to_tuple(&self) -> (t: GlyphKey)
        ensures
            t == self@,
    {
        (self.face_id, self.glyph_id.0 as u32, self.size, self.mode.code())
    }

    /// Two keys have the same tuple exactly when they are the same key.
    pub proof fn lemma_view_injective(a: CacheKey, b: CacheKey)
        ensures
            a@ == b@ <==> a == b,
    {
        RenderMode::lemma_code_injective(a.mode, b.mode);
    }
}

/// The size of a cache key for a size in 26.6 fixed point: the size
/// itself, held between 0 and the largest 32-bit number.
pub open spec fn spec_size_key(size: i64) -> u32 {
    if size < 0 {
        0
    } else if size > u32::MAX {
        u32::MAX
    } else {
        size as u32
    }
}

/// The size of a cache key for a size in 26.6 fixed point.
pub fn size_key(size: i64) -> (key: u32)
    ensures
        key == spec_size_key(size),
{
    if size < 0 {
        0
    } else if size > u32::MAX as i64 {
        u32::MAX
    } else {
        size as u32
    }
}

/// Counters of the glyph cache.
#[derive(Debug, Clone, Copy, PartialEq, Eq, Structural)]
pub struct CacheStatistics {
    /// Lookups that found their bitmap.
    pub hits: u64,
    /// Lookups that did not.
    pub misses: u64,
    /// Bitmaps that were displaced.
    pub evictions: u64,
}

/// A counter after `n` more events; it stays at the largest 64-bit number
/// once it has reached it.
pub open spec fn spec_count(counter: u64, n: int) -> u64 {
    if counter + n > u64::MAX {
        u64::MAX
    } else {
        (counter + n) as u64
    }
}

/// A counter after one more event.
fn bump(counter: u64) -> (next: u64)
    ensures
        next == spec_count(counter, 1),
{
    if counter < u64::MAX {
        counter + 1
    } else {
        counter
    }
}

/// The bytes of pixel data of all pairs.
pub open spec fn spec_total_bytes(entries: Seq<(GlyphKey, GlyphBitmapModel)>) -> int
    decreases entries.len(),
{
    if entries.len() == 0 {
        0
    } else {
        spec_total_bytes(entries.drop_last()) + entries.last().1.data.len()
    }
}

/// The store after least recently used pairs were dropped until the bytes
/// of the rest are at most `target`, or nothing is left.
pub open spec fn spec_fitted(entries: Seq<(GlyphKey, GlyphBitmapModel)>, target: int) -> Seq<
    (GlyphKey, GlyphBitmapModel),
>
    decreases entries.len(),
{
    if entries.len() == 0 || spec_total_bytes(entries) <= target {
        entries
    } else {
        spec_fitted(entries.drop_first(), target)
    }
}

/// The store before the new pair is pushed: when the new bitmap would
/// take the bytes over the budget, pairs are dropped until the bytes are at
/// most the budget less the new bitmap, or nothing is left.
pub open spec fn spec_made_room(
    entries: Seq<(GlyphKey, GlyphBitmapModel)>,
    max_bytes: int,
    new_bytes: int,
) -> Seq<(GlyphKey, GlyphBitmapModel)> {
    if spec_total_bytes(entries) + new_bytes > max_bytes {
        spec_fitted(
            entries,
            if max_bytes >= new_bytes {
                max_bytes - new_bytes
            } else {
                0
            },
        )
    } else {
        entries
    }
}

/// The store after a bitmap was put under `key`.
pub open spec fn spec_put(
    entries: Seq<(GlyphKey, GlyphBitmapModel)>,
    capacity: nat,
    max_bytes: int,
    key: GlyphKey,
    bitmap: GlyphBitmapModel,
) -> Seq<(GlyphKey, GlyphBitmapModel)> {
    spec_pushed(
        spec_made_room(entries, max_bytes, bitmap.data.len() as int),
        capacity,
        key,
        bitmap,
    )
}

/// The number of pairs that putting a bitmap under `key` displaces.
pub open spec fn spec_put_evictions(
    entries: Seq<(GlyphKey, GlyphBitmapModel)>,
    capacity: nat,
    max_bytes: int,
    key: GlyphKey,
    bitmap: GlyphBitmapModel,
) -> int {
    let room = spec_made_room(entries, max_bytes, bitmap.data.len() as int);
    entries.len() - room.len() + if spec_displaced(room, capacity, key) is Some {
        1int
    } else {
        0int
    }
}

/// The bytes of a store are not negative, and a pair adds its own bytes.
pub proof fn lemma_total_push(entries: Seq<(GlyphKey, GlyphBitmapModel)>, pair: (
    GlyphKey,
    GlyphBitmapModel,
))
    ensures
        spec_total_bytes(entries) >= 0,
        spec_total_bytes(entries.push(pair)) == spec_total_bytes(entries) + pair.1.data.len(),
    decreases entries.len(),
{
    if entries.len() > 0 {
        lemma_total_push(entries.drop_last(), entries.last());
    }
    assert(entries.push(pair).drop_last() =~= entries);
}

/// Removing a pair takes its bytes away.
pub proof fn lemma_total_remove(entries: Seq<(GlyphKey, GlyphBitmapModel)>, i: int)
    requires
        0 <= i < entries.len(),
    ensures
        spec_total_bytes(entries.remove(i)) == spec_total_bytes(entries) - entries[i].1.data.len(),
    decreases entries.len(),
{
    let last = entries.len() - 1;
    if i == last {
        assert(entries.remove(i) =~= entries.drop_last());
    } else {
        lemma_total_remove(entries.drop_last(), i);
        assert(entries.remove(i) =~= entries.drop_last().remove(i).push(entries.last()));
        lemma_total_push(entries.drop_last().remove(i), entries.last());
    }
}

/// Dropping the least recently used pair takes its bytes away.
pub proof fn lemma_total_drop_first(entries: Seq<(GlyphKey, GlyphBitmapModel)>)
    requires
        entries.len() > 0,
    ensures
        spec_total_bytes(entries.drop_first()) == spec_total_bytes(entries)
            - entries[0].1.data.len(),
        entries[0].1.data.len() <= spec_total_bytes(entries),
{
    lemma_total_remove(entries, 0);
    assert(entries.remove(0) =~= entries.drop_first());
    lemma_total_push(entries.drop_first(), entries[0]);
}

/// Moving a pair to the most recently used end keeps the bytes.
pub proof fn lemma_total_touched(entries: Seq<(GlyphKey, GlyphBitmapModel)>, key: GlyphKey)
    ensures
        spec_total_bytes(spec_touched(entries, key)) == spec_total_bytes(entries),
{
    lemma_position(entries, key);
    if spec_contains(entries, key) {
        let i = spec_position(entries, key);
        lemma_total_remove(entries, i);
        lemma_total_push(entries.remove(i), entries[i]);
    }
}

/// The bytes of a store after a pair was pushed: the bytes before, plus
/// the new bitmap, less the displaced bitmap if there is one.
pub proof fn lemma_total_pushed(
    entries: Seq<(GlyphKey, GlyphBitmapModel)>,
    capacity: nat,
    key: GlyphKey,
    bitmap: GlyphBitmapModel,
)
    requires
        entries.len() <= capacity,
        capacity >= 1,
    ensures
        spec_total_bytes(spec_pushed(entries, capacity, key, bitmap)) == spec_total_bytes(entries)
            + bitmap.data.len() - (match spec_displaced(entries, capacity, key) {
            Some(pair) => pair.1.data.len() as int,
            None => 0int,
        }),
        spec_displaced(entries, capacity, key) matches Some(pair) ==> pair.1.data.len()
            <= spec_total_bytes(entries),
{
    lemma_position(entries, key);
    if spec_contains(entries, key) {
        let i = spec_position(entries, key);
        lemma_total_remove(entries, i);
        lemma_total_push(entries.remove(i), (key, bitmap));
    } else if entries.len() < capacity {
        lemma_total_push(entries, (key, bitmap));
    } else {
        lemma_total_drop_first(entries);
        lemma_total_push(entries.drop_first(), (key, bitmap));
    }
}

/// Making room keeps the keys distinct, drops pairs only from the least
/// recently used end, and leaves a store whose bytes are within the target
/// or that is empty.
pub proof fn lemma_fitted(entries: Seq<(GlyphKey, GlyphBitmapModel)>, target: int)
    requires
        spec_distinct_keys(entries),
    ensures
        spec_distinct_keys(spec_fitted(entries, target)),
        spec_fitted(entries, target).len() <= entries.len(),
        spec_fitted(entries, target) == entries.subrange(
            entries.len() - spec_fitted(entries, target).len(),
            entries.len() as int,
        ),
        spec_fitted(entries, target).len() == 0 || spec_total_bytes(spec_fitted(entries, target))
            <= target,
    decreases entries.len(),
{
    if entries.len() == 0 || spec_total_bytes(entries) <= target {
        assert(entries.subrange(0, entries.len() as int) =~= entries);
    } else {
        lemma_popped(entries);
        let rest = entries.drop_first();
        lemma_fitted(rest, target);
        let kept = spec_fitted(rest, target);
        assert(rest.subrange(rest.len() - kept.len(), rest.len() as int) =~= entries.subrange(
            entries.len() - kept.len(),
            entries.len() as int,
        ));
    }
}

/// The glyph cache.
pub struct GlyphCache {
    entries: LruCache<GlyphKey, GlyphBitmap>,
    stats: CacheStatistics,
    memory_bytes: usize,
    max_memory_bytes: usize,
}

impl View for GlyphCache {
    type V = Seq<(GlyphKey, GlyphBitmapModel)>;

    /// The resident pairs, least recently used first.
    closed spec fn view(&self) -> Seq<(GlyphKey, GlyphBitmapModel)> {
        glyph_lru_entries(self.entries)
    }
}

impl GlyphCache {
    /// The bound on the number of resident bitmaps.
    pub closed spec fn spec_max_entries(&self) -> nat {
        glyph_lru_capacity(self.entries)
    }

    /// The budget for the bytes of pixel data.
    pub closed spec fn spec_max_bytes(&self) -> usize {
        self.max_memory_bytes
    }

    /// The byte counter.
    pub closed spec fn spec_bytes(&self) -> usize {
        self.memory_bytes
    }

    /// The counters of hits, misses and evictions.
    pub closed spec fn spec_stats(&self) -> CacheStatistics {
        self.stats
    }

    /// The byte counter equals the bytes of the resident bitmaps, no key is
    /// resident twice, and the number of residents is within its bound.
    pub closed spec fn wf(&self) -> bool {
        &&& spec_distinct_keys(self@)
        &&& self@.len() <= self.spec_max_entries()
        &&& self.spec_max_entries() >= 1
        &&& self.memory_bytes == spec_total_bytes(self@)
    }

    /// What `wf` says, for callers that cannot see inside the cache.
    pub proof fn lemma_wf(&self)
        requires
            self.wf(),
        ensures
            spec_distinct_keys(self@),
            self@.len() <= self.spec_max_entries(),
            self.spec_max_entries() >= 1,
            self.spec_bytes() == spec_total_bytes(self@),
    {
    }

    /// An empty cache with the given bounds.
    pub fn new(max_entries: usize, max_memory_bytes: usize) -> (cache: GlyphCache)
        requires
            max_entries > 0,
        ensures
            cache.wf(),
            cache@.len() == 0,
            cache.spec_max_entries() == max_entries,
            cache.spec_max_bytes() == max_memory_bytes,
            cache.spec_bytes() == 0,
            cache.spec_stats() == (CacheStatistics { hits: 0, misses: 0, evictions: 0 }),
    {
        GlyphCache {
            entries: glyph_lru_new(max_entries),
            stats: CacheStatistics { hits: 0, misses: 0, evictions: 0 },
            memory_bytes: 0,
            max_memory_bytes,
        }
    }

    /// Looks a bitmap up. A resident key becomes the most recently used and
    /// counts as a hit; any other key counts as a miss.
    pub fn get(&mut self, key: &CacheKey) -> (r: Option<GlyphBitmap>)
        requires
            old(self).wf(),
        ensures
            final(self).wf(),
            r is Some <==> spec_contains(old(self)@, key@),
            r matches Some(bitmap) ==> Some(bitmap@) == spec_lookup(old(self)@, key@),
            final(self)@ == spec_touched(old(self)@, key@),
            final(self).spec_stats() == (CacheStatistics {
                hits: spec_count(
                    old(self).spec_stats().hits,
                    if r is Some {
                        1
                    } else {
                        0
                    },
                ),
                misses: spec_count(
                    old(self).spec_stats().misses,
                    if r is Some {
                        0
                    } else {
                        1
                    },
                ),
                evictions: old(self).spec_stats().evictions,
            }),
            final(self).spec_bytes() == old(self).spec_bytes(),
            final(self).spec_max_entries() == old(self).spec_max_entries(),
            final(self).spec_max_bytes() == old(self).spec_max_bytes(),
    {
        let tuple: GlyphKey = key.to_tuple();
        proof {
            lemma_touched(self@, tuple);
            lemma_total_touched(self@, tuple);
        }
        let found: Option<GlyphBitmap> = glyph_lru_get(&mut self.entries, &tuple);
        match found {
            Some(bitmap) => {
                self.stats.hits = bump(self.stats.hits);
                Some(bitmap)
            },
            None => {
                self.stats.misses = bump(self.stats.misses);
                None
            },
        }
    }

    /// Puts a bitmap under `key`.
    ///
    /// When the new bitmap would take the bytes over the budget, least
    /// recently used bitmaps are dropped first until the bytes are at most
    /// the budget less the new bitmap, or the cache is empty. The bitmap is
    /// then stored as the most recently used; it replaces the bitmap that
    /// was under the same key, or else, in a full cache, the least recently
    /// used one. Every bitmap that leaves counts as an eviction.
    pub fn insert(&mut self, key: CacheKey, bitmap: GlyphBitmap)
        requires
            old(self).wf(),
        ensures
            final(self).wf(),
            final(self)@ == spec_put(
                old(self)@,
                old(self).spec_max_entries(),
                old(self).spec_max_bytes() as int,
                key@,
                bitmap@,
            ),
            spec_lookup(final(self)@, key@) == Some(bitmap@),
            final(self).spec_stats() == (CacheStatistics {
                hits: old(self).spec_stats().hits,
                misses: old(self).spec_stats().misses,
                evictions: spec_count(
                    old(self).spec_stats().evictions,
                    spec_put_evictions(
                        old(self)@,
                        old(self).spec_max_entries(),
                        old(self).spec_max_bytes() as int,
                        key@,
                        bitmap@,
                    ),
                ),
            }),
            final(self).spec_max_entries() == old(self).spec_max_entries(),
            final(self).spec_max_bytes() == old(self).spec_max_bytes(),
            final(self)@.len() <= final(self).spec_max_entries(),
            final(self).spec_bytes() == spec_total_bytes(final(self)@),
            bitmap@.data.len() <= old(self).spec_max_bytes() ==> final(self).spec_bytes() <= final(self).spec_max_bytes(),
    {
        let bitmap_size: usize = bitmap.data.len();
        let ghost before = self@;
        let ghost before_evictions = self.stats.evictions;
        let over_budget: bool = self.memory_bytes > self.max_memory_bytes || bitmap_size
            > self.max_memory_bytes - self.memory_bytes;
        proof {
            lemma_total_push(before, (key@, bitmap@));
        }
        if over_budget {
            self.evict_to_fit(bitmap_size);
        }
        let ghost room = self@;
        assert(room == spec_made_room(before, self.max_memory_bytes as int, bitmap_size as int));
        let tuple: GlyphKey = key.to_tuple();
        proof {
            lemma_pushed(room, self.spec_max_entries(), tuple, bitmap@);
            lemma_total_pushed(room, self.spec_max_entries(), tuple, bitmap@);
            lemma_total_push(room, (tuple, bitmap@));
            lemma_position(room, tuple);
        }
        let ghost pushed_model = bitmap@;
        match glyph_lru_push(&mut self.entries, tuple, bitmap) {
            Some(pair) => {
                self.memory_bytes = self.memory_bytes - pair.1.data.len();
                self.stats.evictions = bump(self.stats.evictions);
            },
            None => {},
        }
        self.memory_bytes = self.memory_bytes + bitmap_size;
    }

    /// Drops least recently used bitmaps until the bytes are at most the
    /// budget less `required_bytes`, or the cache is empty.
    pub fn evict_to_fit(&mut self, required_bytes: usize)
        requires
            old(self).wf(),
        ensures
            final(self).wf(),
            final(self)@ == spec_fitted(
                old(self)@,
                if old(self).spec_max_bytes() >= required_bytes {
                    old(self).spec_max_bytes() - required_bytes
                } else {
                    0
                },
            ),
            final(self)@.len() <= old(self)@.len(),
            final(self)@.len() == 0 || final(self).spec_bytes() <= (if old(self).spec_max_bytes()
                >= required_bytes {
                old(self).spec_max_bytes() - required_bytes
            } else {
                0
            }),
            final(self).spec_stats() == (CacheStatistics {
                hits: old(self).spec_stats().hits,
                misses: old(self).spec_stats().misses,
                evictions: spec_count(
                    old(self).spec_stats().evictions,
                    old(self)@.len() - final(self)@.len(),
                ),
            }),
            final(self).spec_max_entries() == old(self).spec_max_entries(),
            final(self).spec_max_bytes() == old(self).spec_max_bytes(),
    {
        let target_memory: usize = if self.max_memory_bytes >= required_bytes {
            self.max_memory_bytes - required_bytes
        } else {
            0
        };
        let ghost start = self@;
        let ghost start_stats = self.stats;
        proof {
            lemma_fitted(start, target_memory as int);
        }
        while self.memory_bytes > target_memory && glyph_lru_len(&self.entries) > 0
            invariant
                self.wf(),
                self.stats.hits == start_stats.hits,
                self.stats.misses == start_stats.misses,
                self@.len() <= start.len(),
                self.stats.evictions == spec_count(
                    start_stats.evictions,
                    start.len() - self@.len(),
                ),
                spec_fitted(start, target_memory as int) == spec_fitted(
                    self@,
                    target_memory as int,
                ),
                self.spec_max_entries() == old(self).spec_max_entries(),
                self.max_memory_bytes == old(self).max_memory_bytes,
            decreases self@.len(),
        {
            proof {
                lemma_popped(self@);
                lemma_total_drop_first(self@);
            }
            match glyph_lru_pop(&mut self.entries) {
                Some(pair) => {
                    self.memory_bytes = self.memory_bytes - pair.1.data.len();
                    self.stats.evictions = bump(self.stats.evictions);
                },
                None => {},
            }
        }
    }

    /// Empties the cache and sets the byte counter to zero. The counters of
    /// hits, misses and evictions stay as they are.
    pub fn clear(&mut self)
        requires
            old(self).wf(),
        ensures
            final(self).wf(),
            final(self)@.len() == 0,
            final(self).spec_bytes() == 0,
            final(self).spec_stats() == old(self).spec_stats(),
            final(self).spec_max_entries() == old(self).spec_max_entries(),
            final(self).spec_max_bytes() == old(self).spec_max_bytes(),
    {
        glyph_lru_clear(&mut self.entries);
        self.memory_bytes = 0;
    }

    /// The counters and sizes of the cache.
    pub fn get_stats(&self) -> (stats: CacheStats)
        requires
            self.wf(),
        ensures
            stats.entries == self@.len(),
            stats.hits == self.spec_stats().hits,
            stats.misses == self.spec_stats().misses,
            stats.evictions == self.spec_stats().evictions,
            stats.memory_bytes == self.spec_bytes(),
            stats.max_entries == self.spec_max_entries(),
            stats.max_memory_bytes == self.spec_max_bytes(),
            stats.hit_rate == spec_hit_rate(self.spec_stats().hits, self.spec_stats().misses),
    {
        CacheStats {
            entries: glyph_lru_len(&self.entries),
            hits: self.stats.hits,
            misses: self.stats.misses,
            evictions: self.stats.evictions,
            memory_bytes: self.memory_bytes,
            max_entries: glyph_lru_cap(&self.entries),
            max_memory_bytes: self.max_memory_bytes,
            hit_rate: hit_rate(self.stats.hits, self.stats.misses),
        }
    }
}

/// The share of hits among all lookups as 16.16 fixed point, rounded
/// down; 0 when there was no lookup.
pub open spec fn spec_hit_rate(hits: u64, misses: u64) -> int {
    if hits + misses > 0 {
        (hits * 0x1_0000) / (hits + misses)
    } else {
        0
    }
}

/// The share of hits among all lookups as 16.16 fixed point.
pub fn hit_rate(hits: u64, misses: u64) -> (rate: u32)
    ensures
        rate == spec_hit_rate(hits, misses),
{
    let total: u128 = hits as u128 + misses as u128;
    if total > 0 {
        let scaled: u128 = hits as u128 * 0x1_0000;
        let q: u128 = scaled / total;
        assert(q <= 0x1_0000) by (nonlinear_arith)
            requires
                q == scaled / total,
                scaled == hits * 0x1_0000,
                total >= hits,
                total > 0,
        ;
        q as u32
    } else {
        0
    }
}

} // verus!
