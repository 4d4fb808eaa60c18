//! The least-recently-used stores of the `lru` crate, as the caches of
//! this library use them.
//!
//! What a store holds is named by a sequence of key-value pairs in order of
//! use, least recently used first (see [`crate::lru_model`]). Every
//! function here makes one call into the crate and says what that call
//! does to the sequence.

use lru::LruCache;
use std::num::NonZeroUsize;
use vstd::prelude::*;
use crate::font_types::{GlyphBitmap, GlyphBitmapModel, ShapedText, ShapedTextModel};
use crate::lru_model::{
    spec_contains,
    spec_displaced,
    spec_lookup,
    spec_pushed,
    spec_touched,
};

verus! {

#[verifier::external_type_specification]
#[verifier::external_body]
#[verifier::reject_recursive_types(K)]
#[verifier::reject_recursive_types(V)]
#[verifier::reject_recursive_types(S)]
pub struct ExLruCache<K, V, S>(LruCache<K, V, S>);

#[verifier::external_type_specification]
#[verifier::external_body]
pub struct ExLruHasher(lru::DefaultHasher);

/// Key of a rasterized glyph: face id, glyph id, size in 26.6 fixed point,
/// and the code of the render mode.
pub type GlyphKey = (usize, u32, u32, u8);

/// Key of a shaped run: text, face id, size in tenths of a pixel, and the
/// hash of the shaping options.
pub type ShapingKey = (String, usize, u32, u64);

/// A [`ShapingKey`] with the text as a sequence of characters.
pub type ShapingKeyModel = (Seq<char>, usize, u32, u64);

/// The pairs that a glyph store holds, least recently used first.
pub uninterp spec fn glyph_lru_entries(store: LruCache<GlyphKey, GlyphBitmap>) -> Seq<
    (GlyphKey, GlyphBitmapModel),
>;

/// The number of pairs that a glyph store was made to hold.
pub uninterp spec fn glyph_lru_capacity(store: LruCache<GlyphKey, GlyphBitmap>) -> nat;

/// `LruCache::new`: an empty store for at most `capacity` pairs. The crate
/// takes a non-zero capacity, which the precondition provides.
#[verifier::external_body]
pub(crate) fn glyph_lru_new(capacity: usize) -> (store: LruCache<GlyphKey, GlyphBitmap>)
    requires
        capacity > 0,
    ensures
        glyph_lru_entries(store) == Seq::<(GlyphKey, GlyphBitmapModel)>::empty(),
        glyph_lru_capacity(store) == capacity,
{
    LruCache::new(NonZeroUsize::new(capacity).unwrap())
}

/// `LruCache::get`, with the value cloned: the value under `key`, if the
/// key is resident, and the key becomes the most recently used.
#[verifier::external_body]
pub(crate) fn glyph_lru_get(store: &mut LruCache<GlyphKey, GlyphBitmap>, key: &GlyphKey) -> (r:
    Option<GlyphBitmap>)
    ensures
        r is Some <==> spec_contains(glyph_lru_entries(*old(store)), *key),
        r matches Some(bitmap) ==> Some(bitmap@) == spec_lookup(
            glyph_lru_entries(*old(store)),
            *key,
        ),
        glyph_lru_entries(*final(store)) == spec_touched(glyph_lru_entries(*old(store)), *key),
        glyph_lru_capacity(*final(store)) == glyph_lru_capacity(*old(store)),
{
    store.get(key).cloned()
}

/// `LruCache::push`: stores the pair as the most recently used. Returns the
/// pair that it displaces: the old value of a resident key, or the least
/// recently used pair of a full store.
#[verifier::external_body]
pub(crate) fn glyph_lru_push(
    store: &mut LruCache<GlyphKey, GlyphBitmap>,
    key: GlyphKey,
    value: GlyphBitmap,
) -> (r: Option<(GlyphKey, GlyphBitmap)>)
    ensures
        glyph_lru_entries(*final(store)) == spec_pushed(
            glyph_lru_entries(*old(store)),
            glyph_lru_capacity(*old(store)),
            key,
            value@,
        ),
        glyph_lru_capacity(*final(store)) == glyph_lru_capacity(*old(store)),
        r is Some <==> spec_displaced(
            glyph_lru_entries(*old(store)),
            glyph_lru_capacity(*old(store)),
            key,
        ) is Some,
        r matches Some(pair) ==> Some((pair.0, pair.1@)) == spec_displaced(
            glyph_lru_entries(*old(store)),
            glyph_lru_capacity(*old(store)),
            key,
        ),
{
    store.push(key, value)
}

/// `LruCache::pop_lru`: removes and returns the least recently used pair.
#[verifier::external_body]
pub(crate) fn glyph_lru_pop(store: &mut LruCache<GlyphKey, GlyphBitmap>) -> (r: Option<
    (GlyphKey, GlyphBitmap),
>)
    ensures
        r is Some <==> glyph_lru_entries(*old(store)).len() > 0,
        r matches Some(pair) ==> (pair.0, pair.1@) == glyph_lru_entries(*old(store))[0]
            && glyph_lru_entries(*final(store)) == glyph_lru_entries(*old(store)).drop_first(),
        r is None ==> glyph_lru_entries(*final(store)) == glyph_lru_entries(*old(store)),
        glyph_lru_capacity(*final(store)) == glyph_lru_capacity(*old(store)),
{
    store.pop_lru()
}

/// `LruCache::clear`: removes every pair.
#[verifier::external_body]
pub(crate) fn glyph_lru_clear(store: &mut LruCache<GlyphKey, GlyphBitmap>)
    ensures
        glyph_lru_entries(*final(store)) == Seq::<(GlyphKey, GlyphBitmapModel)>::empty(),
        glyph_lru_capacity(*final(store)) == glyph_lru_capacity(*old(store)),
{
    store.clear()
}

/// `LruCache::len`: the number of resident pairs.
#[verifier::external_body]
pub(crate) fn glyph_lru_len(store: &LruCache<GlyphKey, GlyphBitmap>) -> (n: usize)
    ensures
        n == glyph_lru_entries(*store).len(),
{
    store.len()
}

/// `LruCache::cap`: the number of pairs that the store was made to hold.
#[verifier::external_body]
pub(crate) fn glyph_lru_cap(store: &LruCache<GlyphKey, GlyphBitmap>) -> (n: usize)
    ensures
        n == glyph_lru_capacity(*store),
        n > 0,
{
    store.cap().get()
}

/// The pairs that a store of shaped runs holds, least recently used first.
pub uninterp spec fn shaping_lru_entries(store: LruCache<ShapingKey, ShapedText>) -> Seq<
    (ShapingKeyModel, ShapedTextModel),
>;

/// The number of pairs that a store of shaped runs was made to hold.
pub uninterp spec fn shaping_lru_capacity(store: LruCache<ShapingKey, ShapedText>) -> nat;

/// A shaping key with its text as a sequence of characters.
pub open spec fn spec_shaping_key(key: ShapingKey) -> ShapingKeyModel {
    (key.0@, key.1, key.2, key.3)
}

/// `LruCache::new`: an empty store for at most `capacity` pairs. The crate
/// takes a non-zero capacity, which the precondition provides.
#[verifier::external_body]
pub(crate) fn shaping_lru_new(capacity: usize) -> (store: LruCache<ShapingKey, ShapedText>)
    requires
        capacity > 0,
    ensures
        shaping_lru_entries(store) == Seq::<(ShapingKeyModel, ShapedTextModel)>::empty(),
        shaping_lru_capacity(store) == capacity,
{
    LruCache::new(NonZeroUsize::new(capacity).unwrap())
}

/// `LruCache::get`, with the value cloned: the value under `key`, if the
/// key is resident, and the key becomes the most recently used.
#[verifier::external_body]
pub(crate) fn shaping_lru_get(store: &mut LruCache<ShapingKey, ShapedText>, key: &ShapingKey) -> (r:
    Option<ShapedText>)
    ensures
        r is Some <==> spec_contains(shaping_lru_entries(*old(store)), spec_shaping_key(*key)),
        r matches Some(shaped) ==> Some(shaped@) == spec_lookup(
            shaping_lru_entries(*old(store)),
            spec_shaping_key(*key),
        ),
        shaping_lru_entries(*final(store)) == spec_touched(
            shaping_lru_entries(*old(store)),
            spec_shaping_key(*key),
        ),
        shaping_lru_capacity(*final(store)) == shaping_lru_capacity(*old(store)),
{
    store.get(key).cloned()
}

/// `LruCache::push`: stores the pair as the most recently used. Returns
/// whether it displaced a pair: the old value of a resident key, or the
/// least recently used pair of a full store.
#[verifier::external_body]
pub(crate) fn shaping_lru_push(
    store: &mut LruCache<ShapingKey, ShapedText>,
    key: ShapingKey,
    value: ShapedText,
) -> (displaced: bool)
    ensures
        shaping_lru_entries(*final(store)) == spec_pushed(
            shaping_lru_entries(*old(store)),
            shaping_lru_capacity(*old(store)),
            spec_shaping_key(key),
            value@,
        ),
        shaping_lru_capacity(*final(store)) == shaping_lru_capacity(*old(store)),
        displaced == spec_displaced(
            shaping_lru_entries(*old(store)),
            shaping_lru_capacity(*old(store)),
            spec_shaping_key(key),
        ) is Some,
{
    store.push(key, value).is_some()
}

/// `LruCache::clear`: removes every pair.
#[verifier::external_body]
pub(crate) fn shaping_lru_clear(store: &mut LruCache<ShapingKey, ShapedText>)
    ensures
        shaping_lru_entries(*final(store)) == Seq::<(ShapingKeyModel, ShapedTextModel)>::empty(),
        shaping_lru_capacity(*final(store)) == shaping_lru_capacity(*old(store)),
{
    store.clear()
}

/// `LruCache::len`: the number of resident pairs.
#[verifier::external_body]
pub(crate) fn shaping_lru_len(store: &LruCache<ShapingKey, ShapedText>) -> (n: usize)
    ensures
        n == shaping_lru_entries(*store).len(),
{
    store.len()
}

/// `LruCache::cap`: the number of pairs that the store was made to hold.
#[verifier::external_body]
pub(crate) fn shaping_lru_cap(store: &LruCache<ShapingKey, ShapedText>) -> (n: usize)
    ensures
        n == shaping_lru_capacity(*store),
        n > 0,
{
    store.cap().get()
}

} // verus!
