//! The registry of loaded faces and the matching algorithm.

use std::collections::HashMap;
use vstd::prelude::*;
use vstd::string::StringExecFns;
use vstd::utf8::encode_utf8;
use crate::font_registry::face_source::{
    spec_name_records,
    ttf_asc,
    ttf_ascender,
    ttf_cap_height,
    ttf_capital_height,
    ttf_check,
    ttf_desc,
    ttf_descender,
    ttf_gap,
    ttf_is_italic,
    ttf_italic,
    ttf_line_gap,
    ttf_name_records,
    ttf_names,
    ttf_parse_failure,
    ttf_underline,
    ttf_underline_metrics,
    ttf_units_per_em,
    ttf_upem,
    ttf_weight,
    ttf_weight_number,
    ttf_x_height,
    ttf_xheight,
};
use crate::font_registry::types::{FontFace, FontFaceModel, RegistryError};
use crate::font_types::{FontDescriptor, FontMetrics, FontStretch, FontStyle, FontWeight};
use crate::platform_integration::types::PlatformFontInfo;

verus! {

broadcast use vstd::std_specs::hash::group_hash_axioms;

/// Name id of the family name in the `name` table.
pub const NAME_ID_FAMILY: u16 = 1;

/// Name id of the PostScript name in the `name` table.
pub const NAME_ID_POST_SCRIPT: u16 = 6;

/// Score added when a face does not have the requested style.
pub const STYLE_PENALTY: u32 = 1000;

/// The loaded faces. Ids are given in order of loading, starting from 0,
/// and never reused.
#[derive(Debug)]
pub struct FontRegistry {
    fonts: HashMap<usize, FontFace>,
    next_id: usize,
}

impl View for FontRegistry {
    type V = Seq<FontFaceModel>;

    /// The faces, indexed by their ids.
    closed spec fn view(&self) -> Seq<FontFaceModel> {
        Seq::new(self.next_id as nat, |i: int| self.fonts@[i as usize]@)
    }
}

/// A byte with ASCII upper-case letters folded to lower case.
pub open spec fn spec_ascii_lower(b: u8) -> u8 {
    if 0x41 <= b <= 0x5A {
        (b + 0x20) as u8
    } else {
        b
    }
}

/// Whether two family names are equal once the ASCII letters of both are
/// folded to lower case and their UTF-8 bytes compared one by one.
pub open spec fn spec_same_family(a: Seq<char>, b: Seq<char>) -> bool {
    let x = encode_utf8(a);
    let y = encode_utf8(b);
    x.len() == y.len() && forall|i: int|
        0 <= i < x.len() ==> spec_ascii_lower(#[trigger] x[i]) == spec_ascii_lower(y[i])
}

/// Distance between two numbers.
pub open spec fn spec_distance(a: int, b: int) -> int {
    if a >= b {
        a - b
    } else {
        b - a
    }
}

/// The score of a face against a request: the distance in weight, plus
/// the distance in width, plus 1000 when the style differs. Lower is better.
pub open spec fn spec_score(
    weight: FontWeight,
    style: FontStyle,
    stretch: FontStretch,
    face: FontFaceModel,
) -> int {
    spec_distance(weight.spec_value(), face.weight.spec_value()) + (if style != face.style {
        1000int
    } else {
        0int
    }) + spec_distance(stretch.spec_value(), face.stretch.spec_value())
}

/// The best of the first `n` faces for one family: among the faces of
/// that family the one with the lowest score, and of several such the one
/// with the lowest id. Nothing when no face is of that family.
pub open spec fn spec_best_in_family(
    faces: Seq<FontFaceModel>,
    n: int,
    family: Seq<char>,
    weight: FontWeight,
    style: FontStyle,
    stretch: FontStretch,
) -> Option<usize>
    decreases n,
{
    if n <= 0 {
        None
    } else {
        let earlier = spec_best_in_family(faces, n - 1, family, weight, style, stretch);
        if spec_same_family(family, faces[n - 1].family_name) {
            match earlier {
                None => Some((n - 1) as usize),
                Some(best) => if spec_score(weight, style, stretch, faces[n - 1]) < spec_score(
                    weight,
                    style,
                    stretch,
                    faces[best as int],
                ) {
                    Some((n - 1) as usize)
                } else {
                    Some(best)
                },
            }
        } else {
            earlier
        }
    }
}

/// The match for a chain of families, tried from family `k` on: the best
/// face of the first family that has a face at all.
pub open spec fn spec_match_from(
    faces: Seq<FontFaceModel>,
    families: Seq<Seq<char>>,
    k: int,
    weight: FontWeight,
    style: FontStyle,
    stretch: FontStretch,
) -> Option<usize>
    decreases families.len() - k,
{
    if k < 0 || k >= families.len() {
        None
    } else {
        match spec_best_in_family(faces, faces.len() as int, families[k], weight, style, stretch) {
            Some(id) => Some(id),
            None => spec_match_from(faces, families, k + 1, weight, style, stretch),
        }
    }
}

/// The family names of a request, as mathematical values.
pub open spec fn spec_families(descriptor: FontDescriptor) -> Seq<Seq<char>> {
    Seq::new(descriptor.family@.len(), |i: int| descriptor.family@[i]@)
}

/// The face that a request matches among `faces`.
pub open spec fn spec_match_font(faces: Seq<FontFaceModel>, descriptor: FontDescriptor) -> Option<
    usize,
> {
    spec_match_from(
        faces,
        spec_families(descriptor),
        0,
        descriptor.weight,
        descriptor.style,
        descriptor.stretch,
    )
}

/// What `spec_best_in_family` picks is of the family, has the lowest score
/// among the faces of the family, and the lowest id among those of that
/// score; it picks nothing exactly when no face is of the family.
pub proof fn lemma_best_in_family(
    faces: Seq<FontFaceModel>,
    n: int,
    family: Seq<char>,
    weight: FontWeight,
    style: FontStyle,
    stretch: FontStretch,
)
    requires
        0 <= n <= faces.len(),
        n <= usize::MAX,
    ensures
        spec_best_in_family(faces, n, family, weight, style, stretch) is None <==> forall|j: int|
            0 <= j < n ==> !spec_same_family(family, (#[trigger] faces[j]).family_name),
        spec_best_in_family(faces, n, family, weight, style, stretch) matches Some(best) ==> {
            &&& best < n
            &&& spec_same_family(family, faces[best as int].family_name)
            &&& forall|j: int|
                0 <= j < n && spec_same_family(family, (#[trigger] faces[j]).family_name) ==> {
                    ||| spec_score(weight, style, stretch, faces[best as int]) < spec_score(
                        weight,
                        style,
                        stretch,
                        faces[j],
                    )
                    ||| spec_score(weight, style, stretch, faces[best as int]) == spec_score(
                        weight,
                        style,
                        stretch,
                        faces[j],
                    ) && best <= j
                }
        },
    decreases n,
{
    if n > 0 {
        lemma_best_in_family(faces, n - 1, family, weight, style, stretch);
    }
}

/// Matching depends on nothing but the faces and the request: two
/// registries with the same faces give the same match for the same request.
pub proof fn lemma_match_deterministic(
    faces_a: Seq<FontFaceModel>,
    faces_b: Seq<FontFaceModel>,
    descriptor: FontDescriptor,
)
    requires
        faces_a == faces_b,
    ensures
        spec_match_font(faces_a, descriptor) == spec_match_font(faces_b, descriptor),
{
}

/// With the style agreement the same for two faces, the face that is no
/// farther from the request in weight and in width has no higher score.
pub proof fn lemma_score_monotone(
    weight: FontWeight,
    style: FontStyle,
    stretch: FontStretch,
    a: FontFaceModel,
    b: FontFaceModel,
)
    requires
        (style != a.style) == (style != b.style),
        spec_distance(weight.spec_value(), a.weight.spec_value()) <= spec_distance(
            weight.spec_value(),
            b.weight.spec_value(),
        ),
        spec_distance(stretch.spec_value(), a.stretch.spec_value()) <= spec_distance(
            stretch.spec_value(),
            b.stretch.spec_value(),
        ),
    ensures
        spec_score(weight, style, stretch, a) <= spec_score(weight, style, stretch, b),
{
}

/// Two faces of the same weight and width, of which only one has the
/// requested style, differ in score by exactly 1000.
pub proof fn lemma_score_style_penalty(
    weight: FontWeight,
    style: FontStyle,
    stretch: FontStretch,
    a: FontFaceModel,
    b: FontFaceModel,
)
    requires
        a.weight == b.weight,
        a.stretch == b.stretch,
        a.style == style,
        b.style != style,
    ensures
        spec_score(weight, style, stretch, b) == spec_score(weight, style, stretch, a) + 1000,
{
}

/// The text of the first record of `records`, from `k` on, with the given
/// name id. Nothing when there is no such record or it has no text.
pub open spec fn spec_first_name(records: Seq<(u16, Option<Seq<char>>)>, k: int, name_id: u16)
    -> Option<Seq<char>>
    decreases records.len() - k,
{
    if k < 0 || k >= records.len() {
        None
    } else if records[k].0 == name_id {
        records[k].1
    } else {
        spec_first_name(records, k + 1, name_id)
    }
}

/// The family name among `records`, or `Unknown`.
pub open spec fn spec_family_name(records: Seq<(u16, Option<Seq<char>>)>) -> Seq<char> {
    match spec_first_name(records, 0, NAME_ID_FAMILY) {
        Some(text) => text,
        None => "Unknown"@,
    }
}

/// The PostScript name among `records`, or `fallback`.
pub open spec fn spec_postscript_name(
    records: Seq<(u16, Option<Seq<char>>)>,
    fallback: Seq<char>,
) -> Seq<char> {
    match spec_first_name(records, 0, NAME_ID_POST_SCRIPT) {
        Some(text) => text,
        None => fallback,
    }
}

/// The metrics of a face in font units, with 700 and 500 for a missing
/// capital height and x-height and -150 and 50 for a missing underline.
pub open spec fn spec_face_metrics(
    units_per_em: u16,
    ascender: i16,
    descender: i16,
    line_gap: i16,
    capital_height: Option<i16>,
    x_height: Option<i16>,
    underline: Option<(i16, i16)>,
) -> FontMetrics {
    FontMetrics {
        units_per_em,
        ascent: ascender as i64,
        descent: descender as i64,
        line_gap: line_gap as i64,
        cap_height: match capital_height {
            Some(h) => h as i64,
            None => 700i64,
        },
        x_height: match x_height {
            Some(h) => h as i64,
            None => 500i64,
        },
        underline_position: match underline {
            Some(u) => u.0 as i64,
            None => -150i64,
        },
        underline_thickness: match underline {
            Some(u) => u.1 as i64,
            None => 50i64,
        },
    }
}

/// The metrics that `ttf-parser` reads from `data`.
pub open spec fn spec_ttf_metrics(data: Seq<u8>) -> FontMetrics {
    spec_face_metrics(
        ttf_units_per_em(data)->0,
        ttf_ascender(data)->0,
        ttf_descender(data)->0,
        ttf_line_gap(data)->0,
        ttf_capital_height(data)->0,
        ttf_x_height(data)->0,
        ttf_underline_metrics(data)->0,
    )
}

/// The face that loading `data` as face `id` registers.
pub open spec fn spec_loaded_face(data: Seq<u8>, id: usize) -> FontFaceModel {
    let family = spec_family_name(ttf_name_records(data));
    FontFaceModel {
        id,
        family_name: family,
        postscript_name: spec_postscript_name(ttf_name_records(data), family),
        weight: FontWeight::spec_from_number(ttf_weight_number(data)->0 as int),
        style: if ttf_is_italic(data)->0 {
            FontStyle::Italic
        } else {
            FontStyle::Normal
        },
        stretch: FontStretch::Normal,
        metrics: spec_ttf_metrics(data),
        file_path: None,
        data: Some(data),
        is_system_font: false,
    }
}

/// A font of the system together with the bytes of its file, where the
/// file could be read.
#[derive(Debug, Clone)]
pub struct SystemFontFile {
    /// The font as the platform describes it.
    pub info: PlatformFontInfo,
    /// The bytes of the font file, or nothing when the file could not be read.
    pub data: Option<Vec<u8>>,
}

/// What loading font data does to the faces of a registry and what it
/// returns. The data is loaded when it is not empty, `ttf-parser` accepts it
/// and the registry is not full: the new face gets the next id and stands
/// behind the faces that were there. Otherwise the registry stays as it is,
/// and the error is `InvalidFont` with the reason of [`spec_load_failure`].
pub open spec fn spec_load_outcome(
    before: Seq<FontFaceModel>,
    after: Seq<FontFaceModel>,
    data: Seq<u8>,
    r: Result<usize, RegistryError>,
) -> bool {
    if data.len() > 0 && ttf_parse_failure(data) is None && before.len() < usize::MAX {
        &&& r is Ok
        &&& r->Ok_0 == before.len()
        &&& after == before.push(spec_loaded_face(data, r->Ok_0))
    } else {
        &&& r is Err
        &&& r->Err_0 is InvalidFont
        &&& r->Err_0->InvalidFont_0@ == spec_load_failure(data)
        &&& after == before
    }
}

/// Why font data that cannot be loaded is refused: the data is empty,
/// `ttf-parser` rejects it, or, where neither holds, the registry is full.
pub open spec fn spec_load_failure(data: Seq<u8>) -> Seq<char> {
    if data.len() == 0 {
        "Empty font data"@
    } else if ttf_parse_failure(data) is Some {
        "Failed to parse font: "@ + ttf_parse_failure(data)->0
    } else {
        "Registry is full"@
    }
}

/// The face that a system font registers as face `id`: family, weight and
/// style as the platform gives them, metrics and PostScript name from the
/// file. Nothing when the file could not be read or does not parse.
pub open spec fn spec_system_face(font: SystemFontFile, id: usize) -> Option<FontFaceModel> {
    match font.data {
        Some(bytes) => if ttf_parse_failure(bytes@) is None {
            Some(
                FontFaceModel {
                    id,
                    family_name: font.info.family_name@,
                    postscript_name: spec_postscript_name(
                        ttf_name_records(bytes@),
                        font.info.family_name@,
                    ),
                    weight: font.info.weight,
                    style: font.info.style,
                    stretch: FontStretch::Normal,
                    metrics: spec_ttf_metrics(bytes@),
                    file_path: Some(font.info.path@),
                    data: Some(bytes@),
                    is_system_font: font.info.is_system_font,
                },
            )
        } else {
            None
        },
        None => None,
    }
}

/// The faces of a registry after the first `k` system fonts were loaded
/// into it, one after the other; fonts that cannot be loaded are skipped.
pub open spec fn spec_load_system(
    faces: Seq<FontFaceModel>,
    fonts: Seq<SystemFontFile>,
    k: int,
) -> Seq<FontFaceModel>
    decreases k,
{
    if k <= 0 {
        faces
    } else {
        let earlier = spec_load_system(faces, fonts, k - 1);
        if earlier.len() >= usize::MAX {
            earlier
        } else {
            match spec_system_face(fonts[k - 1], earlier.len() as usize) {
                Some(face) => earlier.push(face),
                None => earlier,
            }
        }
    }
}

/// A metric scaled from font units to a pixel size: `value * size /
/// units_per_em`, rounded toward negative infinity.
pub open spec fn spec_scale(value: i64, size: i64, units_per_em: u16) -> int {
    (value as int * size as int) / (units_per_em as int)
}

/// Whether a scaled metric fits in 64 bits.
pub open spec fn spec_scale_fits(value: i64, size: i64, units_per_em: u16) -> bool {
    i64::MIN <= spec_scale(value, size, units_per_em) <= i64::MAX
}

/// Whether every metric of `metrics` can be scaled to `size`.
pub open spec fn spec_metrics_scalable(metrics: FontMetrics, size: i64) -> bool {
    &&& metrics.units_per_em > 0
    &&& spec_scale_fits(metrics.ascent, size, metrics.units_per_em)
    &&& spec_scale_fits(metrics.descent, size, metrics.units_per_em)
    &&& spec_scale_fits(metrics.line_gap, size, metrics.units_per_em)
    &&& spec_scale_fits(metrics.cap_height, size, metrics.units_per_em)
    &&& spec_scale_fits(metrics.x_height, size, metrics.units_per_em)
    &&& spec_scale_fits(metrics.underline_position, size, metrics.units_per_em)
    &&& spec_scale_fits(metrics.underline_thickness, size, metrics.units_per_em)
}

/// `metrics` scaled to `size`: every field but `units_per_em` is
/// multiplied by `size / units_per_em`.
pub open spec fn spec_scaled_metrics(metrics: FontMetrics, size: i64) -> FontMetrics {
    FontMetrics {
        units_per_em: metrics.units_per_em,
        ascent: spec_scale(metrics.ascent, size, metrics.units_per_em) as i64,
        descent: spec_scale(metrics.descent, size, metrics.units_per_em) as i64,
        line_gap: spec_scale(metrics.line_gap, size, metrics.units_per_em) as i64,
        cap_height: spec_scale(metrics.cap_height, size, metrics.units_per_em) as i64,
        x_height: spec_scale(metrics.x_height, size, metrics.units_per_em) as i64,
        underline_position: spec_scale(metrics.underline_position, size, metrics.units_per_em) as i64,
        underline_thickness: spec_scale(
            metrics.underline_thickness,
            size,
            metrics.units_per_em,
        ) as i64,
    }
}

/// A byte with ASCII upper-case letters folded to lower case.
pub fn ascii_lower(b: u8) -> (r: u8)
    ensures
        r == spec_ascii_lower(b),
{
    if 0x41 <= b && b <= 0x5A {
        b + 0x20
    } else {
        b
    }
}

/// Whether two family names are equal up to the case of ASCII letters.
pub fn same_family(a: &str, b: &str) -> (same: bool)
    ensures
        same == spec_same_family(a@, b@),
{
    let x: &[u8] = a.as_bytes();
    let y: &[u8] = b.as_bytes();
    if x.len() != y.len() {
        return false;
    }
    let mut i: usize = 0;
    while i < x.len()
        invariant
            x@ == encode_utf8(a@),
            y@ == encode_utf8(b@),
            x@.len() == y@.len(),
            i <= x@.len(),
            forall|k: int| 0 <= k < i ==> spec_ascii_lower(#[trigger] x@[k]) == spec_ascii_lower(y@[k]),
        decreases x@.len() - i,
    {
        if ascii_lower(x[i]) != ascii_lower(y[i]) {
            return false;
        }
        i = i + 1;
    }
    true
}

/// Distance between two 16-bit numbers.
fn distance(a: u16, b: u16) -> (d: u32)
    ensures
        d == spec_distance(a as int, b as int),
{
    if a >= b {
        (a - b) as u32
    } else {
        (b - a) as u32
    }
}

/// The score of a face against a request; see [`spec_score`].
pub fn score(weight: FontWeight, style: FontStyle, stretch: FontStretch, face: &FontFace) -> (s:
    u32)
    ensures
        s == spec_score(weight, style, stretch, face@),
{
    let weight_diff: u32 = distance(weight.value(), face.weight.value());
    let style_penalty: u32 = if style != face.style {
        STYLE_PENALTY
    } else {
        0
    };
    let stretch_diff: u32 = distance(stretch.value(), face.stretch.value());
    weight_diff + style_penalty + stretch_diff
}

/// The text of the first record with the given name id; see [`spec_first_name`].
pub fn first_name(names: &Vec<(u16, Option<String>)>, name_id: u16) -> (r: Option<String>)
    ensures
        r is Some <==> spec_first_name(spec_name_records(names@), 0, name_id) is Some,
        r matches Some(text) ==> Some(text@) == spec_first_name(
            spec_name_records(names@),
            0,
            name_id,
        ),
{
    let ghost records = spec_name_records(names@);
    let mut i: usize = 0;
    while i < names.len()
        invariant
            records == spec_name_records(names@),
            i <= names@.len(),
            spec_first_name(records, 0, name_id) == spec_first_name(records, i as int, name_id),
        decreases names@.len() - i,
    {
        if names[i].0 == name_id {
            return match &names[i].1 {
                Some(text) => Some(text.clone()),
                None => None,
            };
        }
        i = i + 1;
    }
    None
}

/// Metrics in font units from the values of a font's tables; see
/// [`spec_face_metrics`].
pub fn face_metrics(
    units_per_em: u16,
    ascender: i16,
    descender: i16,
    line_gap: i16,
    capital_height: Option<i16>,
    x_height: Option<i16>,
    underline: Option<(i16, i16)>,
) -> (m: FontMetrics)
    ensures
        m == spec_face_metrics(
            units_per_em,
            ascender,
            descender,
            line_gap,
            capital_height,
            x_height,
            underline,
        ),
{
    FontMetrics {
        units_per_em,
        ascent: ascender as i64,
        descent: descender as i64,
        line_gap: line_gap as i64,
        cap_height: match capital_height {
            Some(h) => h as i64,
            None => 700,
        },
        x_height: match x_height {
            Some(h) => h as i64,
            None => 500,
        },
        underline_position: match underline {
            Some(u) => u.0 as i64,
            None => -150,
        },
        underline_thickness: match underline {
            Some(u) => u.1 as i64,
            None => 50,
        },
    }
}

/// The metrics that `ttf-parser` reads from a font that it parses.
fn ttf_metrics(data: &[u8]) -> (m: FontMetrics)
    requires
        ttf_parse_failure(data@) is None,
    ensures
        m == spec_ttf_metrics(data@),
{
    let units_per_em: u16 = match ttf_upem(data) {
        Some(v) => v,
        None => 0,
    };
    let ascender: i16 = match ttf_asc(data) {
        Some(v) => v,
        None => 0,
    };
    let descender: i16 = match ttf_desc(data) {
        Some(v) => v,
        None => 0,
    };
    let line_gap: i16 = match ttf_gap(data) {
        Some(v) => v,
        None => 0,
    };
    let capital_height: Option<i16> = match ttf_cap_height(data) {
        Some(v) => v,
        None => None,
    };
    let x_height: Option<i16> = match ttf_xheight(data) {
        Some(v) => v,
        None => None,
    };
    let underline: Option<(i16, i16)> = match ttf_underline(data) {
        Some(v) => v,
        None => None,
    };
    face_metrics(
        units_per_em,
        ascender,
        descender,
        line_gap,
        capital_height,
        x_height,
        underline,
    )
}

/// One metric scaled to a pixel size, where it fits in 64 bits.
fn scale(value: i64, size: i64, units_per_em: u16) -> (r: Option<i64>)
    requires
        units_per_em > 0,
    ensures
        r is Some <==> spec_scale_fits(value, size, units_per_em),
        r matches Some(v) ==> v == spec_scale(value, size, units_per_em),
{
    let q: i128 = crate::fixed::mul_div(value, size, units_per_em as i64);
    if q < i64::MIN as i128 || q > i64::MAX as i128 {
        None
    } else {
        Some(q as i64)
    }
}

impl FontRegistry {
    /// The ids of the faces are exactly the numbers below the next id, and
    /// each face knows its own id.
    pub closed spec fn wf(&self) -> bool {
        &&& forall|id: usize| self.fonts@.contains_key(id) <==> id < self.next_id
        &&& forall|id: usize| id < self.next_id ==> (#[trigger] self.fonts@[id]).id == id
    }

    /// An empty registry.
    pub fn new() -> (registry: FontRegistry)
        ensures
            registry.wf(),
            registry@.len() == 0,
    {
        FontRegistry { fonts: HashMap::new(), next_id: 0 }
    }

    /// Number of loaded faces.
    pub fn font_count(&self) -> (n: usize)
        requires
            self.wf(),
        ensures
            n == self@.len(),
    {
        self.next_id
    }

    /// Adds `face` to the registry under the next free id, which replaces
    /// the id that `face` came with.
    pub fn register(&mut self, face: FontFace) -> (id: usize)
        requires
            old(self).wf(),
            old(self)@.len() < usize::MAX,
        ensures
            final(self).wf(),
            id == old(self)@.len(),
            final(self)@ == old(self)@.push(
                FontFaceModel {
                    id,
                    family_name: face@.family_name,
                    postscript_name: face@.postscript_name,
                    weight: face@.weight,
                    style: face@.style,
                    stretch: face@.stretch,
                    metrics: face@.metrics,
                    file_path: face@.file_path,
                    data: face@.data,
                    is_system_font: face@.is_system_font,
                },
            ),
    {
        let id: usize = self.next_id;
        let mut face = face;
        face.id = id;
        let ghost before = self@;
        let ghost model = face@;
        self.fonts.insert(id, face);
        self.next_id = id + 1;
        proof {
            assert(self@ =~= before.push(model));
        }
        id
    }

    /// Loads a font from a file that the caller has read: `contents` holds
    /// the bytes of the file at `path`, or nothing when the file could not be
    /// read.
    ///
    /// Fails with `FileNotFound`, which carries the path, when there are no
    /// contents. Otherwise as [`FontRegistry::load_font_data`].
    pub fn load_font_file(&mut self, path: &str, contents: Option<Vec<u8>>) -> (r: Result<
        usize,
        RegistryError,
    >)
        requires
            old(self).wf(),
        ensures
            final(self).wf(),
            match contents {
                Some(data) => spec_load_outcome(old(self)@, final(self)@, data@, r),
                None => final(self)@ == old(self)@ && r is Err && r->Err_0 is FileNotFound
                    && r->Err_0->FileNotFound_0@ == path@,
            },
    {
        match contents {
            Some(data) => self.load_font_data(data),
            None => Err(RegistryError::FileNotFound(String::from_str(path))),
        }
    }

    /// Loads a font from its bytes and returns the id of the new face.
    ///
    /// Fails with `InvalidFont` when the data is empty, when `ttf-parser`
    /// does not accept it, or when the registry cannot hold another face;
    /// the reason is that of [`spec_load_failure`].
    pub fn load_font_data(&mut self, data: Vec<u8>) -> (r: Result<usize, RegistryError>)
        requires
            old(self).wf(),
        ensures
            final(self).wf(),
            spec_load_outcome(old(self)@, final(self)@, data@, r),
    {
        if data.len() == 0 {
            return Err(RegistryError::InvalidFont(String::from_str("Empty font data")));
        }
        match ttf_check(data.as_slice()) {
            Ok(_) => {},
            Err(reason) => {
                return Err(
                    RegistryError::InvalidFont(
                        String::from_str("Failed to parse font: ").concat(reason.as_str()),
                    ),
                );
            },
        }
        if self.next_id == usize::MAX {
            return Err(RegistryError::InvalidFont(String::from_str("Registry is full")));
        }
        let names: Vec<(u16, Option<String>)> = ttf_names(data.as_slice());
        let family_name: String = match first_name(&names, NAME_ID_FAMILY) {
            Some(text) => text,
            None => String::from_str("Unknown"),
        };
        let postscript_name: String = match first_name(&names, NAME_ID_POST_SCRIPT) {
            Some(text) => text,
            None => family_name.clone(),
        };
        let weight: FontWeight = match ttf_weight(data.as_slice()) {
            Some(number) => FontWeight::from_number(number),
            None => FontWeight::Regular,
        };
        let style: FontStyle = match ttf_italic(data.as_slice()) {
            Some(true) => FontStyle::Italic,
            _ => FontStyle::Normal,
        };
        let metrics: FontMetrics = ttf_metrics(data.as_slice());
        let face = FontFace {
            id: 0,
            family_name,
            postscript_name,
            weight,
            style,
            stretch: FontStretch::Normal,
            metrics,
            file_path: None,
            data: Some(data),
            is_system_font: false,
        };
        Ok(self.register(face))
    }

    /// Loads the fonts of the system, given with the bytes of their files,
    /// and returns how many were loaded. A font whose file could not be read
    /// or does not parse is skipped; the operation as a whole never fails.
    pub fn load_system_fonts(&mut self, fonts: Vec<SystemFontFile>) -> (r: Result<
        usize,
        RegistryError,
    >)
        requires
            old(self).wf(),
        ensures
            final(self).wf(),
            final(self)@ == spec_load_system(old(self)@, fonts@, fonts@.len() as int),
            r matches Ok(count) && count == final(self)@.len() - old(self)@.len(),
    {
        let mut loaded_count: usize = 0;
        let mut fonts = fonts;
        let ghost all = fonts@;
        let ghost start = self@;
        let total: usize = fonts.len();
        let mut i: usize = 0;
        while i < total
            invariant
                self.wf(),
                total == all.len(),
                fonts@.len() == all.len(),
                forall|k: int| i <= k < all.len() ==> fonts@[k] == all[k],
                i <= total,
                self@ == spec_load_system(start, all, i as int),
                loaded_count == self@.len() - start.len(),
            decreases total - i,
        {
            let mut entry = SystemFontFile {
                info: PlatformFontInfo {
                    family_name: String::new(),
                    path: String::new(),
                    weight: FontWeight::Regular,
                    style: FontStyle::Normal,
                    is_system_font: false,
                },
                data: None,
            };
            let ghost taken = fonts@[i as int];
            core::mem::swap(&mut fonts[i], &mut entry);
            assert(entry == taken);
            i = i + 1;
            if self.next_id == usize::MAX {
                continue;
            }
            let font_data: Vec<u8> = match entry.data {
                Some(bytes) => bytes,
                None => {
                    continue;
                },
            };
            match ttf_check(font_data.as_slice()) {
                Ok(_) => {},
                Err(_) => {
                    continue;
                },
            }
            let metrics: FontMetrics = ttf_metrics(font_data.as_slice());
            let names: Vec<(u16, Option<String>)> = ttf_names(font_data.as_slice());
            let postscript_name: String = match first_name(&names, NAME_ID_POST_SCRIPT) {
                Some(text) => text,
                None => entry.info.family_name.clone(),
            };
            let face = FontFace {
                id: 0,
                family_name: entry.info.family_name,
                postscript_name,
                weight: entry.info.weight,
                style: entry.info.style,
                stretch: FontStretch::Normal,
                metrics,
                file_path: Some(entry.info.path),
                data: Some(font_data),
                is_system_font: entry.info.is_system_font,
            };
            self.register(face);
            loaded_count = loaded_count + 1;
        }
        Ok(loaded_count)
    }

    /// The best of all faces for one family; see [`spec_best_in_family`].
    fn best_in_family(
        &self,
        family: &str,
        weight: FontWeight,
        style: FontStyle,
        stretch: FontStretch,
    ) -> (r: Option<usize>)
        requires
            self.wf(),
        ensures
            r == spec_best_in_family(self@, self@.len() as int, family@, weight, style, stretch),
    {
        let mut best: Option<(usize, u32)> = None;
        let mut id: usize = 0;
        while id < self.next_id
            invariant
                self.wf(),
                id <= self.next_id,
                self.next_id == self@.len(),
                match best {
                    Some(b) => spec_best_in_family(
                        self@,
                        id as int,
                        family@,
                        weight,
                        style,
                        stretch,
                    ) == Some(b.0) && b.0 < id && b.1 == spec_score(
                        weight,
                        style,
                        stretch,
                        self@[b.0 as int],
                    ),
                    None => spec_best_in_family(self@, id as int, family@, weight, style, stretch)
                        is None,
                },
            decreases self.next_id - id,
        {
            match self.fonts.get(&id) {
                Some(face) => {
                    assert(face@ == self@[id as int]);
                    if same_family(family, face.family_name.as_str()) {
                        let s: u32 = score(weight, style, stretch, face);
                        match best {
                            Some(b) => {
                                if s < b.1 {
                                    best = Some((id, s));
                                }
                            },
                            None => {
                                best = Some((id, s));
                            },
                        }
                    }
                },
                None => {
                    assert(false);
                },
            }
            id = id + 1;
        }
        match best {
            Some(b) => Some(b.0),
            None => None,
        }
    }

    /// The face that best matches a request.
    ///
    /// The families of the request are tried in order. The first family of
    /// which the registry has a face decides: of its faces the one with the
    /// lowest score wins, and of several with that score the one with the
    /// lowest id. Nothing when the registry has no face of any family.
    pub fn match_font(&self, descriptor: &FontDescriptor) -> (r: Option<usize>)
        requires
            self.wf(),
        ensures
            r == spec_match_font(self@, *descriptor),
            r matches Some(id) ==> id < self@.len(),
    {
        let ghost families = spec_families(*descriptor);
        let mut k: usize = 0;
        while k < descriptor.family.len()
            invariant
                self.wf(),
                families == spec_families(*descriptor),
                k <= descriptor.family@.len(),
                spec_match_font(self@, *descriptor) == spec_match_from(
                    self@,
                    families,
                    k as int,
                    descriptor.weight,
                    descriptor.style,
                    descriptor.stretch,
                ),
            decreases descriptor.family@.len() - k,
        {
            let best: Option<usize> = self.best_in_family(
                descriptor.family[k].as_str(),
                descriptor.weight,
                descriptor.style,
                descriptor.stretch,
            );
            if best.is_some() {
                proof {
                    lemma_best_in_family(
                        self@,
                        self@.len() as int,
                        families[k as int],
                        descriptor.weight,
                        descriptor.style,
                        descriptor.stretch,
                    );
                }
                return best;
            }
            k = k + 1;
        }
        None
    }

    /// The face with the given id, if the registry has one.
    pub fn get_font_face(&self, font_id: usize) -> (r: Option<&FontFace>)
        requires
            self.wf(),
        ensures
            r is Some <==> font_id < self@.len(),
            r matches Some(face) ==> face@ == self@[font_id as int],
    {
        self.fonts.get(&font_id)
    }

    /// The metrics of a face scaled to a size in pixels (26.6 fixed point).
    ///
    /// Every field but `units_per_em` is multiplied by `size /
    /// units_per_em`. Nothing when the size is not positive, when the
    /// registry has no such face, when the face has zero units per em, or
    /// when a scaled metric does not fit in 64 bits.
    pub fn get_font_metrics(&self, font_id: usize, size: i64) -> (r: Option<FontMetrics>)
        requires
            self.wf(),
        ensures
            r is Some <==> size > 0 && font_id < self@.len() && spec_metrics_scalable(
                self@[font_id as int].metrics,
                size,
            ),
            r matches Some(m) ==> m == spec_scaled_metrics(self@[font_id as int].metrics, size),
    {
        if size <= 0 {
            return None;
        }
        let font: &FontFace = match self.fonts.get(&font_id) {
            Some(face) => face,
            None => {
                return None;
            },
        };
        let metrics: FontMetrics = font.metrics;
        assert(metrics == self@[font_id as int].metrics);
        let upem: u16 = metrics.units_per_em;
        if upem == 0 {
            return None;
        }
        let ascent: i64 = match scale(metrics.ascent, size, upem) {
            Some(v) => v,
            None => {
                return None;
            },
        };
        let descent: i64 = match scale(metrics.descent, size, upem) {
            Some(v) => v,
            None => {
                return None;
            },
        };
        let line_gap: i64 = match scale(metrics.line_gap, size, upem) {
            Some(v) => v,
            None => {
                return None;
            },
        };
        let cap_height: i64 = match scale(metrics.cap_height, size, upem) {
            Some(v) => v,
            None => {
                return None;
            },
        };
        let x_height: i64 = match scale(metrics.x_height, size, upem) {
            Some(v) => v,
            None => {
                return None;
            },
        };
        let underline_position: i64 = match scale(metrics.underline_position, size, upem) {
            Some(v) => v,
            None => {
                return None;
            },
        };
        let underline_thickness: i64 = match scale(metrics.underline_thickness, size, upem) {
            Some(v) => v,
            None => {
                return None;
            },
        };
        Some(
            FontMetrics {
                units_per_em: upem,
                ascent,
                descent,
                line_gap,
                cap_height,
                x_height,
                underline_position,
                underline_thickness,
            },
        )
    }
}

impl Default for FontRegistry {
    /// An empty registry.
    fn default() -> (registry: FontRegistry)
        ensures
            registry.wf(),
            registry@.len() == 0,
    {
        FontRegistry::new()
    }
}

impl Default for FontDescriptor {
    /// A request for a regular, upright `sans-serif` face of normal width
    /// at 16 pixels.
    fn default() -> (d: FontDescriptor)
        ensures
            d.family@.len() == 1,
            d.family@[0]@ == "sans-serif"@,
            d.weight == FontWeight::Regular,
            d.style == FontStyle::Normal,
            d.stretch == FontStretch::Normal,
            d.size == 16 * 64,
    {
        let mut family: Vec<String> = Vec::new();
        family.push(String::from_str("sans-serif"));
        FontDescriptor {
            family,
            weight: FontWeight::Regular,
            style: FontStyle::Normal,
            stretch: FontStretch::Normal,
            size: 16 * 64,
        }
    }
}

} // verus!
