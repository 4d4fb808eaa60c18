//! Color-font tables: `CPAL` palettes, `COLR` layered glyphs, and the
//! headers of `CBDT` and `SVG `.

use vstd::prelude::*;
use crate::font_parser::bytes::{
    expect_u16,
    expect_u32,
    fits,
    spec_be_u16,
    spec_be_u32,
};
use crate::font_parser::error::ParseError;

verus! {

/// A color with 8-bit channels. `CPAL` stores the channels in the order
/// blue, green, red, alpha.
#[derive(Debug, Clone, Copy, PartialEq, Eq)]
pub struct Color {
    /// Blue channel.
    pub blue: u8,
    /// Green channel.
    pub green: u8,
    /// Red channel.
    pub red: u8,
    /// Alpha channel; 255 is opaque.
    pub alpha: u8,
}

impl Color {
    /// The color as one integer: alpha in the top byte, then red, green, blue.
    pub open spec fn spec_rgba_u32(self) -> int {
        ((self.alpha as int * 256 + self.red as int) * 256 + self.green as int) * 256
            + self.blue as int
    }

    /// A color from its red, green, blue and alpha channels.
    pub fn from_rgba(red: u8, green: u8, blue: u8, alpha: u8) -> (c: Color)
        ensures
            c == (Color { blue, green, red, alpha }),
    {
        Color { red, green, blue, alpha }
    }

    /// The color as one integer: alpha in the top byte, then red, green, blue.
    pub fn to_rgba_u32(&self) -> (v: u32)
        ensures
            v == self.spec_rgba_u32(),
    {
        let a: u32 = self.alpha as u32;
        let r: u32 = self.red as u32;
        let g: u32 = self.green as u32;
        let b: u32 = self.blue as u32;
        ((a * 256 + r) * 256 + g) * 256 + b
    }
}

/// The `CPAL` table: color palettes for layered color glyphs.
#[derive(Debug, Clone)]
pub struct CpalTable {
    /// Palettes; each holds the same number of colors. Palette 0 is the default.
    pub palettes: Vec<Vec<Color>>,
    /// Name-table id of each palette's label, where it has one.
    pub palette_labels: Vec<Option<u16>>,
    /// Type flags of each palette.
    pub palette_types: Vec<u32>,
}

/// What a [`CpalTable`] holds, as mathematical values.
pub struct CpalModel {
    /// Palettes, each a sequence of colors.
    pub palettes: Seq<Seq<Color>>,
    /// Name-table id of each palette's label, where it has one.
    pub palette_labels: Seq<Option<u16>>,
    /// Type flags of each palette.
    pub palette_types: Seq<u32>,
}

impl View for CpalTable {
    type V = CpalModel;

    open spec fn view(&self) -> CpalModel {
        CpalModel {
            palettes: Seq::new(self.palettes@.len(), |i: int| self.palettes@[i]@),
            palette_labels: self.palette_labels@,
            palette_types: self.palette_types@,
        }
    }
}

/// Number of colors in each palette, from the header.
pub open spec fn spec_cpal_entry_count(data: Seq<u8>) -> int {
    spec_be_u16(data, 2)
}

/// Number of palettes, from the header.
pub open spec fn spec_cpal_palette_count(data: Seq<u8>) -> int {
    spec_be_u16(data, 4)
}

/// Number of color records, from the header.
pub open spec fn spec_cpal_record_count(data: Seq<u8>) -> int {
    spec_be_u16(data, 6)
}

/// Offset of the color records, from the header.
pub open spec fn spec_cpal_records_offset(data: Seq<u8>) -> int {
    spec_be_u32(data, 8)
}

/// Index of the first color record of palette `i`.
pub open spec fn spec_cpal_palette_start(data: Seq<u8>, i: int) -> int {
    spec_be_u16(data, 12 + 2 * i)
}

/// Color record `k`: four bytes in the order blue, green, red, alpha.
pub open spec fn spec_cpal_record(data: Seq<u8>, k: int) -> Color {
    let at = spec_cpal_records_offset(data) + 4 * k;
    Color { blue: data[at], green: data[at + 1], red: data[at + 2], alpha: data[at + 3] }
}

/// Whether the header, the palette index array and the color records lie
/// inside the table.
pub open spec fn spec_cpal_fits(data: Seq<u8>) -> bool {
    &&& data.len() >= 12
    &&& 12 + 2 * spec_cpal_palette_count(data) <= data.len()
    &&& spec_cpal_record_count(data) > 0 ==> spec_cpal_records_offset(data) + 4
        * spec_cpal_record_count(data) <= data.len()
}

/// Whether palette `i` lies inside the color records.
pub open spec fn spec_cpal_palette_in_range(data: Seq<u8>, i: int) -> bool {
    spec_cpal_palette_start(data, i) + spec_cpal_entry_count(data) <= spec_cpal_record_count(
        data,
    )
}

/// Whether `data` is a well-formed `CPAL` table.
pub open spec fn spec_cpal_valid(data: Seq<u8>) -> bool {
    &&& spec_cpal_fits(data)
    &&& forall|i: int|
        0 <= i < spec_cpal_palette_count(data) ==> #[trigger] spec_cpal_palette_in_range(data, i)
}

/// Palette `i` of a well-formed `CPAL` table.
pub open spec fn spec_cpal_palette(data: Seq<u8>, i: int) -> Seq<Color> {
    Seq::new(
        spec_cpal_entry_count(data) as nat,
        |e: int| spec_cpal_record(data, spec_cpal_palette_start(data, i) + e),
    )
}

/// The contents of a well-formed `CPAL` table. Labels and type flags of the
/// extended header are not decoded: every palette has no label and type 0.
pub open spec fn spec_cpal(data: Seq<u8>) -> CpalModel {
    CpalModel {
        palettes: Seq::new(
            spec_cpal_palette_count(data) as nat,
            |i: int| spec_cpal_palette(data, i),
        ),
        palette_labels: Seq::new(spec_cpal_palette_count(data) as nat, |i: int| None::<u16>),
        palette_types: Seq::new(spec_cpal_palette_count(data) as nat, |i: int| 0u32),
    }
}

impl CpalTable {
    /// Decodes a `CPAL` table.
    ///
    /// Fails with `CorruptedData` when the header, the palette index array or
    /// a color record runs past the end of `data`, or when a palette reaches
    /// past the last color record.
    pub fn parse(data: &[u8]) -> (r: Result<CpalTable, ParseError>)
        ensures
            r is Ok <==> spec_cpal_valid(data@),
            r matches Ok(table) ==> table@ == spec_cpal(data@),
            r matches Err(e) ==> e is CorruptedData,
    {
        let ghost bytes = data@;
        let len: usize = data.len();
        let _version: u16 = expect_u16(data, 0, "CPAL version")?;
        let num_palette_entries: u16 = expect_u16(data, 2, "CPAL entry count")?;
        let num_palettes: u16 = expect_u16(data, 4, "CPAL palette count")?;
        let num_color_records: u16 = expect_u16(data, 6, "CPAL record count")?;
        let color_records_array_offset: u32 = expect_u32(data, 8, "CPAL records offset")?;

        if !fits(data, 12, 2 * (num_palettes as u64)) {
            return Err(ParseError::corrupted("CPAL palette indices"));
        }
        let mut color_record_indices: Vec<u16> = Vec::new();
        let mut i: usize = 0;
        while i < num_palettes as usize
            invariant
                bytes == data@,
                len == bytes.len(),
                12 + 2 * num_palettes <= bytes.len(),
                i <= num_palettes,
                color_record_indices@.len() == i,
                forall|k: int|
                    0 <= k < i ==> #[trigger] color_record_indices@[k] == spec_cpal_palette_start(
                        bytes,
                        k,
                    ),
            decreases num_palettes - i,
        {
            let index: u16 = expect_u16(data, 12 + 2 * i, "CPAL palette index")?;
            color_record_indices.push(index);
            i = i + 1;
        }

        if num_color_records > 0 && !fits(
            data,
            color_records_array_offset as u64,
            4 * (num_color_records as u64),
        ) {
            return Err(ParseError::corrupted("CPAL color records"));
        }
        let mut color_records: Vec<Color> = Vec::new();
        let mut k: usize = 0;
        while k < num_color_records as usize
            invariant
                bytes == data@,
                len == bytes.len(),
                color_records_array_offset == spec_cpal_records_offset(bytes),
                num_color_records > 0 ==> color_records_array_offset + 4 * num_color_records
                    <= bytes.len(),
                k <= num_color_records,
                color_records@.len() == k,
                forall|m: int|
                    0 <= m < k ==> #[trigger] color_records@[m] == spec_cpal_record(bytes, m),
            decreases num_color_records - k,
        {
            let at: usize = color_records_array_offset as usize + 4 * k;
            let blue: u8 = data[at];
            let green: u8 = data[at + 1];
            let red: u8 = data[at + 2];
            let alpha: u8 = data[at + 3];
            color_records.push(Color { blue, green, red, alpha });
            k = k + 1;
        }

        let mut palettes: Vec<Vec<Color>> = Vec::new();
        let mut palette_labels: Vec<Option<u16>> = Vec::new();
        let mut palette_types: Vec<u32> = Vec::new();
        let mut p: usize = 0;
        while p < num_palettes as usize
            invariant
                bytes == data@,
                spec_cpal_fits(bytes),
                num_palettes == spec_cpal_palette_count(bytes),
                num_palette_entries == spec_cpal_entry_count(bytes),
                num_color_records == spec_cpal_record_count(bytes),
                color_record_indices@.len() == num_palettes,
                forall|k: int|
                    0 <= k < num_palettes ==> #[trigger] color_record_indices@[k]
                        == spec_cpal_palette_start(bytes, k),
                color_records@.len() == num_color_records,
                forall|m: int|
                    0 <= m < num_color_records ==> #[trigger] color_records@[m]
                        == spec_cpal_record(bytes, m),
                p <= num_palettes,
                palettes@.len() == p,
                palette_labels@.len() == p,
                palette_types@.len() == p,
                forall|q: int|
                    0 <= q < p ==> (#[trigger] palettes@[q])@ == spec_cpal_palette(bytes, q),
                forall|q: int| 0 <= q < p ==> #[trigger] spec_cpal_palette_in_range(bytes, q),
                forall|q: int| 0 <= q < p ==> #[trigger] palette_labels@[q] == None::<u16>,
                forall|q: int| 0 <= q < p ==> #[trigger] palette_types@[q] == 0u32,
            decreases num_palettes - p,
        {
            let start_index: usize = color_record_indices[p] as usize;
            let end_index: usize = start_index + num_palette_entries as usize;
            if end_index > color_records.len() {
                proof {
                    assert(!spec_cpal_palette_in_range(bytes, p as int));
                }
                return Err(ParseError::corrupted("CPAL palette index out of range"));
            }
            let mut palette: Vec<Color> = Vec::new();
            let mut e: usize = start_index;
            while e < end_index
                invariant
                    start_index <= e <= end_index,
                    end_index <= color_records@.len(),
                    palette@.len() == e - start_index,
                    forall|m: int|
                        0 <= m < e - start_index ==> #[trigger] palette@[m] == color_records@[
                            start_index + m
                        ],
                decreases end_index - e,
            {
                palette.push(color_records[e]);
                e = e + 1;
            }
            proof {
                assert(palette@ =~= spec_cpal_palette(bytes, p as int));
            }
            palettes.push(palette);
            palette_labels.push(None);
            palette_types.push(0);
            p = p + 1;
        }
        let table = CpalTable { palettes, palette_labels, palette_types };
        proof {
            assert(table@.palettes =~= spec_cpal(bytes).palettes);
            assert(table@.palette_labels =~= spec_cpal(bytes).palette_labels);
            assert(table@.palette_types =~= spec_cpal(bytes).palette_types);
        }
        Ok(table)
    }

    /// The palette with the given index, if the table has one.
    pub fn get_palette(&self, index: usize) -> (r: Option<&Vec<Color>>)
        ensures
            r is Some <==> index < self.palettes@.len(),
            r matches Some(p) ==> *p == self.palettes@[index as int],
    {
        if index < self.palettes.len() {
            Some(&self.palettes[index])
        } else {
            None
        }
    }

    /// The default palette, which is palette 0.
    pub fn default_palette(&self) -> (r: Option<&Vec<Color>>)
        ensures
            r is Some <==> self.palettes@.len() > 0,
            r matches Some(p) ==> *p == self.palettes@[0],
    {
        self.get_palette(0)
    }

    /// Number of palettes.
    pub fn palette_count(&self) -> (n: usize)
        ensures
            n == self.palettes@.len(),
    {
        self.palettes.len()
    }
}

/// One layer of a color glyph: a glyph painted in one palette color.
#[derive(Debug, Clone, Copy, PartialEq, Eq)]
pub struct Layer {
    /// Glyph that gives the layer its shape.
    pub glyph_id: u16,
    /// Index of the layer's color in the palette.
    pub palette_index: u16,
}

/// A glyph that is drawn as a stack of layers, bottom layer first.
#[derive(Debug, Clone, PartialEq, Eq)]
pub struct BaseGlyph {
    /// The glyph that the layers replace.
    pub glyph_id: u16,
    /// Layers in painting order, back to front.
    pub layers: Vec<Layer>,
}

/// What a [`BaseGlyph`] holds, as mathematical values.
pub struct BaseGlyphModel {
    /// The glyph that the layers replace.
    pub glyph_id: u16,
    /// Layers in painting order, back to front.
    pub layers: Seq<Layer>,
}

impl View for BaseGlyph {
    type V = BaseGlyphModel;

    open spec fn view(&self) -> BaseGlyphModel {
        BaseGlyphModel { glyph_id: self.glyph_id, layers: self.layers@ }
    }
}

/// The `COLR` table: the glyphs that are drawn in layers.
#[derive(Debug, Clone)]
pub struct ColrTable {
    /// Base glyphs, in table order.
    pub base_glyphs: Vec<BaseGlyph>,
}

impl View for ColrTable {
    type V = Seq<BaseGlyphModel>;

    open spec fn view(&self) -> Seq<BaseGlyphModel> {
        Seq::new(self.base_glyphs@.len(), |i: int| self.base_glyphs@[i]@)
    }
}

/// Number of base glyph records, from the header.
pub open spec fn spec_colr_base_count(data: Seq<u8>) -> int {
    spec_be_u16(data, 2)
}

/// Offset of the base glyph records, from the header.
pub open spec fn spec_colr_base_offset(data: Seq<u8>) -> int {
    spec_be_u32(data, 4)
}

/// Offset of the layer records, from the header.
pub open spec fn spec_colr_layer_offset(data: Seq<u8>) -> int {
    spec_be_u32(data, 8)
}

/// Number of layer records, from the header.
pub open spec fn spec_colr_layer_count(data: Seq<u8>) -> int {
    spec_be_u16(data, 12)
}

/// Glyph id of base glyph record `i`.
pub open spec fn spec_colr_base_glyph_id(data: Seq<u8>, i: int) -> int {
    spec_be_u16(data, spec_colr_base_offset(data) + 6 * i)
}

/// Index of the first layer of base glyph record `i`.
pub open spec fn spec_colr_first_layer(data: Seq<u8>, i: int) -> int {
    spec_be_u16(data, spec_colr_base_offset(data) + 6 * i + 2)
}

/// Number of layers of base glyph record `i`.
pub open spec fn spec_colr_num_layers(data: Seq<u8>, i: int) -> int {
    spec_be_u16(data, spec_colr_base_offset(data) + 6 * i + 4)
}

/// Layer record `k`.
pub open spec fn spec_colr_layer(data: Seq<u8>, k: int) -> Layer {
    Layer {
        glyph_id: spec_be_u16(data, spec_colr_layer_offset(data) + 4 * k) as u16,
        palette_index: spec_be_u16(data, spec_colr_layer_offset(data) + 4 * k + 2) as u16,
    }
}

/// Whether the header and both record arrays lie inside the table.
pub open spec fn spec_colr_fits(data: Seq<u8>) -> bool {
    &&& data.len() >= 14
    &&& spec_colr_base_count(data) > 0 ==> spec_colr_base_offset(data) + 6 * spec_colr_base_count(
        data,
    ) <= data.len()
    &&& spec_colr_layer_count(data) > 0 ==> spec_colr_layer_offset(data) + 4
        * spec_colr_layer_count(data) <= data.len()
}

/// Whether the layers of base glyph record `i` lie inside the layer records.
pub open spec fn spec_colr_layers_in_range(data: Seq<u8>, i: int) -> bool {
    spec_colr_first_layer(data, i) + spec_colr_num_layers(data, i) <= spec_colr_layer_count(data)
}

/// Whether `data` is a well-formed `COLR` table.
pub open spec fn spec_colr_valid(data: Seq<u8>) -> bool {
    &&& spec_colr_fits(data)
    &&& forall|i: int|
        0 <= i < spec_colr_base_count(data) ==> #[trigger] spec_colr_layers_in_range(data, i)
}

/// Base glyph `i` of a well-formed `COLR` table, with its layers in stored order.
pub open spec fn spec_colr_base_glyph(data: Seq<u8>, i: int) -> BaseGlyphModel {
    BaseGlyphModel {
        glyph_id: spec_colr_base_glyph_id(data, i) as u16,
        layers: Seq::new(
            spec_colr_num_layers(data, i) as nat,
            |m: int| spec_colr_layer(data, spec_colr_first_layer(data, i) + m),
        ),
    }
}

/// The contents of a well-formed `COLR` table.
pub open spec fn spec_colr(data: Seq<u8>) -> Seq<BaseGlyphModel> {
    Seq::new(spec_colr_base_count(data) as nat, |i: int| spec_colr_base_glyph(data, i))
}

/// Position of the first base glyph with the given id, or the number of
/// base glyphs when there is none.
pub open spec fn spec_find_base_glyph(glyphs: Seq<BaseGlyphModel>, glyph_id: u16) -> int
    decreases glyphs.len(),
{
    if glyphs.len() == 0 {
        0
    } else if glyphs[0].glyph_id == glyph_id {
        0
    } else {
        1 + spec_find_base_glyph(glyphs.drop_first(), glyph_id)
    }
}

/// `spec_find_base_glyph` is the first index whose glyph id matches.
pub proof fn lemma_find_base_glyph(glyphs: Seq<BaseGlyphModel>, glyph_id: u16, i: int)
    requires
        0 <= i <= glyphs.len(),
        i < glyphs.len() ==> glyphs[i].glyph_id == glyph_id,
        forall|k: int| 0 <= k < i ==> (#[trigger] glyphs[k]).glyph_id != glyph_id,
    ensures
        spec_find_base_glyph(glyphs, glyph_id) == i,
    decreases glyphs.len(),
{
    if glyphs.len() > 0 && i > 0 {
        let rest = glyphs.drop_first();
        assert(glyphs[0].glyph_id != glyph_id);
        assert forall|k: int| 0 <= k < i - 1 implies (#[trigger] rest[k]).glyph_id != glyph_id by {
            assert(rest[k] == glyphs[k + 1]);
        }
        lemma_find_base_glyph(rest, glyph_id, i - 1);
    }
}

impl ColrTable {
    /// The layers of `glyph_id`, if it is a color glyph.
    pub open spec fn spec_layers(self, glyph_id: u16) -> Option<Seq<Layer>> {
        let i = spec_find_base_glyph(self@, glyph_id);
        if i < self@.len() {
            Some(self@[i].layers)
        } else {
            None
        }
    }

    /// Decodes a `COLR` table.
    ///
    /// Fails with `CorruptedData` when the header or a record runs past the
    /// end of `data`, or when a base glyph's layers reach past the last layer
    /// record.
    pub fn parse(data: &[u8]) -> (r: Result<ColrTable, ParseError>)
        ensures
            r is Ok <==> spec_colr_valid(data@),
            r matches Ok(table) ==> table@ == spec_colr(data@),
            r matches Err(e) ==> e is CorruptedData,
    {
        let ghost bytes = data@;
        let len: usize = data.len();
        let _version: u16 = expect_u16(data, 0, "COLR version")?;
        let num_base_glyph_records: u16 = expect_u16(data, 2, "COLR base glyph count")?;
        let base_glyph_records_offset: u32 = expect_u32(data, 4, "COLR base glyph offset")?;
        let layer_records_offset: u32 = expect_u32(data, 8, "COLR layer offset")?;
        let num_layer_records: u16 = expect_u16(data, 12, "COLR layer count")?;

        if num_base_glyph_records > 0 && !fits(
            data,
            base_glyph_records_offset as u64,
            6 * (num_base_glyph_records as u64),
        ) {
            return Err(ParseError::corrupted("COLR base glyph records"));
        }
        if num_layer_records > 0 && !fits(
            data,
            layer_records_offset as u64,
            4 * (num_layer_records as u64),
        ) {
            return Err(ParseError::corrupted("COLR layer records"));
        }
        let mut layer_records: Vec<Layer> = Vec::new();
        let mut k: usize = 0;
        while k < num_layer_records as usize
            invariant
                bytes == data@,
                len == bytes.len(),
                layer_records_offset == spec_colr_layer_offset(bytes),
                num_layer_records > 0 ==> layer_records_offset + 4 * num_layer_records
                    <= bytes.len(),
                k <= num_layer_records,
                layer_records@.len() == k,
                forall|m: int|
                    0 <= m < k ==> #[trigger] layer_records@[m] == spec_colr_layer(bytes, m),
            decreases num_layer_records - k,
        {
            let at: usize = layer_records_offset as usize + 4 * k;
            let glyph_id: u16 = expect_u16(data, at, "COLR layer glyph")?;
            let palette_index: u16 = expect_u16(data, at + 2, "COLR layer palette index")?;
            layer_records.push(Layer { glyph_id, palette_index });
            k = k + 1;
        }

        let mut base_glyphs: Vec<BaseGlyph> = Vec::new();
        let mut i: usize = 0;
        while i < num_base_glyph_records as usize
            invariant
                bytes == data@,
                len == bytes.len(),
                spec_colr_fits(bytes),
                num_base_glyph_records == spec_colr_base_count(bytes),
                base_glyph_records_offset == spec_colr_base_offset(bytes),
                num_layer_records == spec_colr_layer_count(bytes),
                layer_records@.len() == num_layer_records,
                forall|m: int|
                    0 <= m < num_layer_records ==> #[trigger] layer_records@[m] == spec_colr_layer(
                        bytes,
                        m,
                    ),
                i <= num_base_glyph_records,
                base_glyphs@.len() == i,
                forall|q: int|
                    0 <= q < i ==> (#[trigger] base_glyphs@[q])@ == spec_colr_base_glyph(bytes, q),
                forall|q: int| 0 <= q < i ==> #[trigger] spec_colr_layers_in_range(bytes, q),
            decreases num_base_glyph_records - i,
        {
            let at: usize = base_glyph_records_offset as usize + 6 * i;
            let glyph_id: u16 = expect_u16(data, at, "COLR base glyph id")?;
            let first_layer_index: u16 = expect_u16(data, at + 2, "COLR first layer")?;
            let num_layers: u16 = expect_u16(data, at + 4, "COLR layer count")?;
            let start: usize = first_layer_index as usize;
            let end: usize = start + num_layers as usize;
            if end > layer_records.len() {
                proof {
                    assert(!spec_colr_layers_in_range(bytes, i as int));
                }
                return Err(ParseError::corrupted("COLR layer index out of range"));
            }
            let mut layers: Vec<Layer> = Vec::new();
            let mut m: usize = start;
            while m < end
                invariant
                    start <= m <= end,
                    end <= layer_records@.len(),
                    layers@.len() == m - start,
                    forall|n: int|
                        0 <= n < m - start ==> #[trigger] layers@[n] == layer_records@[start + n],
                decreases end - m,
            {
                layers.push(layer_records[m]);
                m = m + 1;
            }
            let glyph = BaseGlyph { glyph_id, layers };
            proof {
                assert(glyph@.layers =~= spec_colr_base_glyph(bytes, i as int).layers);
            }
            base_glyphs.push(glyph);
            i = i + 1;
        }
        let table = ColrTable { base_glyphs };
        proof {
            assert(table@ =~= spec_colr(bytes));
        }
        Ok(table)
    }

    /// Index of the first base glyph with the given id.
    fn find(&self, glyph_id: u16) -> (i: usize)
        ensures
            i == spec_find_base_glyph(self@, glyph_id),
            i <= self.base_glyphs@.len(),
    {
        let mut i: usize = 0;
        while i < self.base_glyphs.len()
            invariant
                i <= self.base_glyphs@.len(),
                forall|k: int| 0 <= k < i ==> (#[trigger] self@[k]).glyph_id != glyph_id,
            decreases self.base_glyphs@.len() - i,
        {
            if self.base_glyphs[i].glyph_id == glyph_id {
                proof {
                    assert(self@[i as int].glyph_id == glyph_id);
                    lemma_find_base_glyph(self@, glyph_id, i as int);
                }
                return i;
            }
            proof {
                assert(self@[i as int].glyph_id != glyph_id);
            }
            i = i + 1;
        }
        proof {
            lemma_find_base_glyph(self@, glyph_id, i as int);
        }
        i
    }

    /// The layers of the first base glyph with the given id, in painting
    /// order, or nothing when the glyph is not a color glyph.
    pub fn get_layers(&self, glyph_id: u16) -> (r: Option<&Vec<Layer>>)
        ensures
            r is Some <==> self.spec_layers(glyph_id) is Some,
            r matches Some(layers) ==> Some(layers@) == self.spec_layers(glyph_id),
    {
        let i: usize = self.find(glyph_id);
        if i < self.base_glyphs.len() {
            Some(&self.base_glyphs[i].layers)
        } else {
            None
        }
    }

    /// Whether `glyph_id` occurs as a base glyph.
    pub fn is_color_glyph(&self, glyph_id: u16) -> (b: bool)
        ensures
            b == self.spec_layers(glyph_id) is Some,
            b == exists|i: int| 0 <= i < self@.len() && (#[trigger] self@[i]).glyph_id == glyph_id,
    {
        let i: usize = self.find(glyph_id);
        proof {
            lemma_find_base_glyph_first(self@, glyph_id);
        }
        i < self.base_glyphs.len()
    }

    /// Number of base glyphs.
    pub fn color_glyph_count(&self) -> (n: usize)
        ensures
            n == self@.len(),
    {
        self.base_glyphs.len()
    }
}

/// What `spec_find_base_glyph` finds matches, and nothing before it does.
pub proof fn lemma_find_base_glyph_first(glyphs: Seq<BaseGlyphModel>, glyph_id: u16)
    ensures
        0 <= spec_find_base_glyph(glyphs, glyph_id) <= glyphs.len(),
        spec_find_base_glyph(glyphs, glyph_id) < glyphs.len() ==> glyphs[spec_find_base_glyph(
            glyphs,
            glyph_id,
        )].glyph_id == glyph_id,
        forall|k: int|
            0 <= k < spec_find_base_glyph(glyphs, glyph_id) ==> (#[trigger] glyphs[k]).glyph_id
                != glyph_id,
    decreases glyphs.len(),
{
    if glyphs.len() > 0 && glyphs[0].glyph_id != glyph_id {
        let rest = glyphs.drop_first();
        lemma_find_base_glyph_first(rest, glyph_id);
        assert forall|k: int| 0 <= k < spec_find_base_glyph(glyphs, glyph_id) implies (
        #[trigger] glyphs[k]).glyph_id != glyph_id by {
            if k > 0 {
                assert(glyphs[k] == rest[k - 1]);
            }
        }
    }
}

/// The header of the `CBDT` table. The bitmap data is left to the renderer.
#[derive(Debug, Clone)]
pub struct CbdtTable {
    /// Major version.
    pub major_version: u16,
    /// Minor version.
    pub minor_version: u16,
}

/// The major and minor version that a `CBDT` header announces.
pub open spec fn spec_cbdt_model(data: Seq<u8>) -> (int, int) {
    (spec_be_u16(data, 0), spec_be_u16(data, 2))
}

impl CbdtTable {
    /// Decodes the header of a `CBDT` table: two 16-bit version numbers.
    pub fn parse(data: &[u8]) -> (r: Result<CbdtTable, ParseError>)
        ensures
            r is Ok <==> data@.len() >= 4,
            r matches Ok(table) ==> (table.major_version as int, table.minor_version as int)
                == spec_cbdt_model(data@),
            r matches Err(e) ==> e is CorruptedData,
    {
        let major_version: u16 = expect_u16(data, 0, "CBDT major version")?;
        let minor_version: u16 = expect_u16(data, 2, "CBDT minor version")?;
        Ok(CbdtTable { major_version, minor_version })
    }
}

/// The header of the `SVG ` table. The documents are left to the renderer.
#[derive(Debug, Clone)]
pub struct SvgTable {
    /// Table version.
    pub version: u16,
}

impl SvgTable {
    /// Decodes the header of an `SVG ` table: a 16-bit version, the offset of
    /// the document list and a reserved field, ten bytes in all.
    pub fn parse(data: &[u8]) -> (r: Result<SvgTable, ParseError>)
        ensures
            r is Ok <==> data@.len() >= 10,
            r matches Ok(table) ==> table.version == spec_be_u16(data@, 0),
            r matches Err(e) ==> e is CorruptedData,
    {
        let version: u16 = expect_u16(data, 0, "SVG version")?;
        let _svg_document_list_offset: u32 = expect_u32(data, 2, "SVG document list offset")?;
        let _reserved: u32 = expect_u32(data, 6, "SVG reserved field")?;
        Ok(SvgTable { version })
    }
}

/// The ways in which a font can carry color glyphs.
#[derive(Debug, Clone, Copy, PartialEq, Eq)]
pub enum ColorFormat {
    /// Layered vector glyphs (`COLR` with `CPAL`).
    ColrCpal,
    /// Embedded color bitmaps (`CBDT` with `CBLC`).
    Cbdt,
    /// Embedded bitmaps in the `sbix` table.
    Sbix,
    /// SVG documents in the `SVG ` table.
    Svg,
}

} // verus!
