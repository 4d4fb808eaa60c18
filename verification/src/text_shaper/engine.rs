//! The HarfBuzz shaping engine.

use harfbuzz_rs::{shape, Direction, Face, Feature, Font, Language, Tag, UnicodeBuffer};
use std::str::FromStr;
use vstd::prelude::*;

verus! {

/// One glyph as the engine gives it: glyph id, horizontal and vertical
/// advance, horizontal and vertical offset, the last four in 26.6 fixed point.
pub type RawGlyph = (u32, i32, i32, i32, i32);

/// What HarfBuzz shapes a run to: a function of the bytes of the font, the
/// text, the scale and the pixels per em of the font, the direction of the
/// run as HarfBuzz numbers it, its script and language, and the features as
/// pairs of tag and value.
pub uninterp spec fn hb_shaped(
    data: Seq<u8>,
    text: Seq<char>,
    scale: i32,
    ppem: u32,
    direction: u32,
    script: u32,
    language: Seq<char>,
    features: Seq<(u32, u32)>,
) -> Seq<RawGlyph>;

/// `harfbuzz_rs::shape` on face 0 of `data`, scaled to `scale` in both
/// directions and to `ppem` pixels per em, over a buffer that holds `text`
/// with the given direction, script and language; each feature applies to
/// the whole run. Every output glyph is given with its advance and offset.
/// HarfBuzz numbers the four directions from 4 to 7 and guesses the
/// direction for any other number; it rejects a language tag that is empty
/// or starts with a zero byte. The precondition rules both out.
#[verifier::external_body]
pub(crate) fn hb_shape(
    data: &[u8],
    text: &str,
    scale: i32,
    ppem: u32,
    direction: u32,
    script: u32,
    language: &str,
    features: &Vec<(u32, u32)>,
) -> (glyphs: Vec<RawGlyph>)
    requires
        4 <= direction <= 7,
        language@.len() > 0,
        language@[0] != '\0',
    ensures
        glyphs@ == hb_shaped(data@, text@, scale, ppem, direction, script, language@, features@),
{
    let mut font = Font::new(Face::from_bytes(data, 0));
    font.set_scale(scale, scale);
    font.set_ppem(ppem, ppem);
    let buffer = UnicodeBuffer::new().add_str(text).set_direction(Direction::from_raw(direction)).set_script(Tag(script)).set_language(Language::from_str(language).unwrap());
    let features: Vec<Feature> = features.iter().map(|f| Feature::new(Tag(f.0), f.1, ..)).collect();
    let out = shape(&font, buffer, &features);
    out.get_glyph_infos().iter().zip(out.get_glyph_positions()).map(|(i, p)| (i.codepoint, p.x_advance, p.y_advance, p.x_offset, p.y_offset)).collect()
}

} // verus!
