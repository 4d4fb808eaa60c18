//! The parsed font container and the values read from its tables.

use std::collections::HashMap;
use vstd::prelude::*;
use crate::font_parser::bytes::{
    expect_u16,
    expect_u32,
    fits,
    read_i16,
    read_u16,
    spec_be_i16,
    spec_be_u16,
    spec_be_u32,
};
use crate::font_parser::color_fonts::{
    spec_cbdt_model,
    spec_colr,
    spec_colr_valid,
    spec_cpal,
    spec_cpal_valid,
    CbdtTable,
    ColorFormat,
    ColrTable,
    CpalTable,
    Layer,
    SvgTable,
};
use crate::font_parser::error::ParseError;
use crate::font_parser::tag::{
    Tag,
    TAG_AVAR,
    TAG_CBDT,
    TAG_COLR,
    TAG_CPAL,
    TAG_FVAR,
    TAG_HEAD,
    TAG_HHEA,
    TAG_SBIX,
    TAG_SVG,
};
use crate::font_parser::variable_fonts::{
    lemma_fvar_axes_ordered,
    spec_avar,
    spec_avar_valid,
    spec_axis_ordered,
    spec_fvar,
    spec_fvar_valid,
    AvarTable,
    FvarModel,
    FvarTable,
    NamedInstance,
    VariationAxis,
    VariationCoordinates,
};
use crate::font_parser::woff::{
    spec_sfnt_rebuilt,
    spec_woff_entries,
    spec_woff_valid,
    WoffFont,
    WOFF_SIGNATURE,
};
use crate::font_parser::woff2::{
    brotli_decompressed,
    spec_woff2_stream,
    spec_woff2_valid,
    Woff2Font,
    WOFF2_SIGNATURE,
};

verus! {

broadcast use vstd::std_specs::hash::group_hash_axioms;

/// Glyph index within a font.
pub type GlyphId = u16;

/// The sfnt version of a font with TrueType outlines.
pub const SFNT_VERSION_TRUETYPE: u32 = 0x0001_0000;

/// The sfnt version `OTTO` of a font with CFF outlines.
pub const SFNT_VERSION_CFF: u32 = 0x4F54_544F;

/// Where one table lies in the container, and its checksum.
#[derive(Debug, Clone, Copy, PartialEq, Eq)]
pub struct TableRecord {
    /// Checksum as stored in the directory.
    pub checksum: u32,
    /// Offset of the table from the start of the container.
    pub offset: u32,
    /// Length of the table in bytes.
    pub length: u32,
}

/// A parsed font: the container bytes and the table directory.
///
/// Every table that the directory lists lies inside the container bytes.
#[derive(Debug)]
pub struct OpenTypeFont {
    data: Vec<u8>,
    tables: HashMap<u32, TableRecord>,
}

/// Global metrics from the `head` and `hhea` tables, in font units.
#[derive(Debug, Clone, Copy, PartialEq)]
pub struct FontMetrics {
    /// Font units per em.
    pub units_per_em: u16,
    /// Distance from the baseline to the top of the line.
    pub ascender: i16,
    /// Distance from the baseline to the bottom of the line; usually negative.
    pub descender: i16,
    /// Extra distance between two lines.
    pub line_gap: i16,
}

/// A map from code points to glyphs.
#[derive(Debug, Clone)]
pub struct CMapTable {
    mappings: HashMap<u32, GlyphId>,
}

impl CMapTable {
    /// The mapping, from code points to glyph ids.
    pub closed spec fn spec_mappings(self) -> Map<u32, GlyphId> {
        self.mappings@
    }

    /// The glyph of a character, if the map has one.
    pub fn get_glyph(&self, codepoint: char) -> (r: Option<GlyphId>)
        ensures
            r is Some <==> self.spec_mappings().contains_key(codepoint as u32),
            r matches Some(g) ==> g == self.spec_mappings()[codepoint as u32],
    {
        let key: u32 = codepoint as u32;
        match self.mappings.get(&key) {
            Some(glyph) => Some(*glyph),
            None => None,
        }
    }
}

/// The smallest rectangle around an outline, in font units.
#[derive(Debug, Clone, Copy, PartialEq)]
pub struct BoundingBox {
    /// Smallest x coordinate.
    pub x_min: i16,
    /// Smallest y coordinate.
    pub y_min: i16,
    /// Largest x coordinate.
    pub x_max: i16,
    /// Largest y coordinate.
    pub y_max: i16,
}

/// One closed curve of an outline.
#[derive(Debug, Clone, PartialEq)]
pub struct Contour {
    /// Points of the curve, in font units.
    pub points: Vec<(i16, i16)>,
    /// For each point, whether it lies on the curve.
    pub on_curve: Vec<bool>,
}

/// The outline of a glyph.
#[derive(Debug, Clone, PartialEq)]
pub struct GlyphOutline {
    /// The curves of the outline.
    pub contours: Vec<Contour>,
    /// The smallest rectangle around the outline.
    pub bounds: BoundingBox,
}

/// Number of tables, from the sfnt header.
pub open spec fn spec_sfnt_table_count(sfnt: Seq<u8>) -> int {
    spec_be_u16(sfnt, 4)
}

/// Tag of directory entry `i`.
pub open spec fn spec_sfnt_tag(sfnt: Seq<u8>, i: int) -> u32 {
    spec_be_u32(sfnt, 12 + 16 * i) as u32
}

/// Directory entry `i`: a checksum, an offset and a length.
pub open spec fn spec_sfnt_record(sfnt: Seq<u8>, i: int) -> TableRecord {
    TableRecord {
        checksum: spec_be_u32(sfnt, 12 + 16 * i + 4) as u32,
        offset: spec_be_u32(sfnt, 12 + 16 * i + 8) as u32,
        length: spec_be_u32(sfnt, 12 + 16 * i + 12) as u32,
    }
}

/// Whether the table that `record` describes lies inside `sfnt`.
pub open spec fn spec_record_in_bounds(sfnt: Seq<u8>, record: TableRecord) -> bool {
    record.offset + record.length <= sfnt.len()
}

/// The directory made of the first `k` entries. Where a tag occurs twice,
/// the later entry replaces the earlier one.
pub open spec fn spec_sfnt_tables(sfnt: Seq<u8>, k: int) -> Map<u32, TableRecord>
    decreases k,
{
    if k <= 0 {
        Map::<u32, TableRecord>::empty()
    } else {
        spec_sfnt_tables(sfnt, k - 1).insert(
            spec_sfnt_tag(sfnt, k - 1),
            spec_sfnt_record(sfnt, k - 1),
        )
    }
}

/// Whether the sfnt declares a version other than TrueType or `OTTO`.
pub open spec fn spec_sfnt_bad_version(sfnt: Seq<u8>) -> bool {
    sfnt.len() >= 4 && spec_be_u32(sfnt, 0) != SFNT_VERSION_TRUETYPE && spec_be_u32(sfnt, 0)
        != SFNT_VERSION_CFF
}

/// Whether `sfnt` is a well-formed sfnt: the header and the directory lie
/// inside it, and so does every table that the directory lists.
pub open spec fn spec_sfnt_valid(sfnt: Seq<u8>) -> bool {
    &&& sfnt.len() >= 12
    &&& !spec_sfnt_bad_version(sfnt)
    &&& 12 + 16 * spec_sfnt_table_count(sfnt) <= sfnt.len()
    &&& forall|i: int|
        0 <= i < spec_sfnt_table_count(sfnt) ==> spec_record_in_bounds(
            sfnt,
            #[trigger] spec_sfnt_record(sfnt, i),
        )
}

/// The sfnt inside a container: what a WOFF container rebuilds to, what the
/// stream of a WOFF2 container decompresses to, taken as it is, and the
/// bytes themselves for any other signature. Nothing when the container is
/// shorter than 12 bytes or cannot be unwrapped.
pub open spec fn spec_container_sfnt(data: Seq<u8>) -> Option<Seq<u8>> {
    if data.len() < 12 {
        None
    } else if spec_be_u32(data, 0) == WOFF_SIGNATURE {
        if spec_woff_valid(data) {
            Some(spec_sfnt_rebuilt(data, spec_woff_entries(data), spec_be_u32(data, 4) as u32))
        } else {
            None
        }
    } else if spec_be_u32(data, 0) == WOFF2_SIGNATURE {
        if spec_woff2_valid(data) {
            brotli_decompressed(spec_woff2_stream(data))
        } else {
            None
        }
    } else {
        Some(data)
    }
}

/// Whether `data` is a font container that can be parsed.
pub open spec fn spec_font_valid(data: Seq<u8>) -> bool {
    spec_container_sfnt(data) is Some && spec_sfnt_valid(spec_container_sfnt(data)->0)
}

/// The units per em that a `head` table announces at offset 18, or 1000
/// when there is no table or it is too short to hold the field.
pub open spec fn spec_units_per_em(head: Option<Seq<u8>>) -> int {
    match head {
        Some(table) => if table.len() >= 20 {
            spec_be_u16(table, 18)
        } else {
            1000
        },
        None => 1000,
    }
}

/// Ascender, descender and line gap that an `hhea` table announces at
/// offsets 4, 6 and 8, or 800, -200 and 0 when there is no table or it is
/// shorter than 12 bytes.
pub open spec fn spec_line_metrics(hhea: Option<Seq<u8>>) -> (int, int, int) {
    match hhea {
        Some(table) => if table.len() >= 12 {
            (spec_be_i16(table, 4), spec_be_i16(table, 6), spec_be_i16(table, 8))
        } else {
            (800, -200, 0)
        },
        None => (800, -200, 0),
    }
}

/// Whether `value` lies within the bounds of the first axis of `axes` with
/// the given tag; a tag that no axis has is not constrained.
pub open spec fn spec_coordinate_in_range(axes: Seq<VariationAxis>, tag: Seq<u8>, value: i32)
    -> bool {
    forall|j: int|
        0 <= j < axes.len() && (#[trigger] axes[j]).tag@ == tag && (forall|k: int|
            0 <= k < j ==> (#[trigger] axes[k]).tag@ != tag) ==> axes[j].min_value <= value
            <= axes[j].max_value
}

impl Clone for OpenTypeFont {
    /// A copy with the same bytes and the same directory.
    fn clone(&self) -> (copy: OpenTypeFont)
        ensures
            copy.spec_data() == self.spec_data(),
            copy.spec_directory() == self.spec_directory(),
    {
        proof {
            use_type_invariant(self);
        }
        OpenTypeFont { data: self.data.clone(), tables: self.tables.clone() }
    }
}

impl OpenTypeFont {
    /// Every table of the directory lies inside the container bytes.
    #[verifier::type_invariant]
    spec fn well_formed(self) -> bool {
        forall|tag: u32|
            self.tables@.contains_key(tag) ==> spec_record_in_bounds(
                self.data@,
                #[trigger] self.tables@[tag],
            )
    }

    /// The sfnt bytes of the font.
    pub closed spec fn spec_data(self) -> Seq<u8> {
        self.data@
    }

    /// The table directory, keyed by the integer value of the tag.
    pub closed spec fn spec_directory(self) -> Map<u32, TableRecord> {
        self.tables@
    }

    /// Whether the directory lists a table with the given tag.
    pub open spec fn spec_has_table(self, tag: u32) -> bool {
        self.spec_directory().contains_key(tag)
    }

    /// The bytes of the table with the given tag, if the directory lists it.
    pub open spec fn spec_table(self, tag: u32) -> Option<Seq<u8>> {
        if self.spec_has_table(tag) {
            let record = self.spec_directory()[tag];
            Some(
                self.spec_data().subrange(
                    record.offset as int,
                    record.offset as int + record.length as int,
                ),
            )
        } else {
            None
        }
    }

    /// The decoded `fvar` table, if the font has a well-formed one.
    pub open spec fn spec_fvar_table(self) -> Option<FvarModel> {
        match self.spec_table(TAG_FVAR) {
            Some(table) => if spec_fvar_valid(table) {
                Some(spec_fvar(table))
            } else {
                None
            },
            None => None,
        }
    }

    /// Parses a font container.
    ///
    /// The first four bytes select the container: `wOFF` is rebuilt to the
    /// sfnt that it holds; the stream of `wOF2` is decompressed and taken as
    /// the sfnt as it is, without a header or directory being rebuilt for
    /// it, so only a stream that is an sfnt by itself parses; anything else
    /// is read as an sfnt.
    /// Fails with `InvalidFormat` when the sfnt version is neither TrueType
    /// nor `OTTO`, and with `CorruptedData` when the container is shorter
    /// than 12 bytes, cannot be unwrapped, or its directory or one of the
    /// tables it lists runs past the end of the sfnt.
    pub fn parse(data: Vec<u8>) -> (r: Result<OpenTypeFont, ParseError>)
        ensures
            r is Ok <==> spec_font_valid(data@),
            r matches Ok(font) ==> {
                &&& Some(font.spec_data()) == spec_container_sfnt(data@)
                &&& font.spec_directory() == spec_sfnt_tables(
                    font.spec_data(),
                    spec_sfnt_table_count(font.spec_data()),
                )
            },
            r matches Err(e) ==> (e is InvalidFormat <==> spec_container_sfnt(data@) is Some
                && spec_sfnt_bad_version(spec_container_sfnt(data@)->0)) && (e is InvalidFormat
                || e is CorruptedData),
    {
        if data.len() < 12 {
            return Err(ParseError::corrupted("Font data too short"));
        }
        let signature: u32 = match read_u32_at_start(&data) {
            Some(v) => v,
            None => {
                return Err(ParseError::corrupted("Font data too short"));
            },
        };
        let ghost original = data@;
        let sfnt: Vec<u8> = if signature == WOFF_SIGNATURE {
            match WoffFont::parse(data.as_slice()) {
                Ok(woff) => woff.ttf_data,
                Err(_) => {
                    return Err(ParseError::corrupted("WOFF container cannot be unwrapped"));
                },
            }
        } else if signature == WOFF2_SIGNATURE {
            match Woff2Font::parse(data.as_slice()) {
                Ok(woff2) => woff2.ttf_data,
                Err(_) => {
                    return Err(ParseError::corrupted("WOFF2 container cannot be unwrapped"));
                },
            }
        } else {
            data
        };
        assert(Some(sfnt@) == spec_container_sfnt(original));
        Self::parse_sfnt(sfnt)
    }

    /// Parses an sfnt: a 12-byte header, a directory of 16-byte entries, and
    /// the tables that the entries point to.
    pub fn parse_sfnt(sfnt: Vec<u8>) -> (r: Result<OpenTypeFont, ParseError>)
        ensures
            r is Ok <==> spec_sfnt_valid(sfnt@),
            r matches Ok(font) ==> {
                &&& font.spec_data() == sfnt@
                &&& font.spec_directory() == spec_sfnt_tables(sfnt@, spec_sfnt_table_count(sfnt@))
            },
            r matches Err(e) ==> (e is InvalidFormat <==> spec_sfnt_bad_version(sfnt@)) && (e
                is InvalidFormat || e is CorruptedData),
    {
        let data: &[u8] = sfnt.as_slice();
        let ghost bytes = sfnt@;
        let len: usize = data.len();
        let version: u32 = expect_u32(data, 0, "sfnt version")?;
        if version != SFNT_VERSION_TRUETYPE && version != SFNT_VERSION_CFF {
            return Err(ParseError::InvalidFormat);
        }
        let num_tables: u16 = expect_u16(data, 4, "sfnt table count")?;
        let _search_range: u16 = expect_u16(data, 6, "sfnt search range")?;
        let _entry_selector: u16 = expect_u16(data, 8, "sfnt entry selector")?;
        let _range_shift: u16 = expect_u16(data, 10, "sfnt range shift")?;
        if !fits(data, 12, 16 * (num_tables as u64)) {
            return Err(ParseError::corrupted("sfnt table directory"));
        }
        let mut tables: HashMap<u32, TableRecord> = HashMap::new();
        let mut i: usize = 0;
        while i < num_tables as usize
            invariant
                bytes == data@,
                bytes == sfnt@,
                len == bytes.len(),
                bytes.len() >= 12,
                !spec_sfnt_bad_version(bytes),
                num_tables == spec_sfnt_table_count(bytes),
                12 + 16 * num_tables <= bytes.len(),
                i <= num_tables,
                tables@ == spec_sfnt_tables(bytes, i as int),
                forall|k: int|
                    0 <= k < i ==> spec_record_in_bounds(
                        bytes,
                        #[trigger] spec_sfnt_record(bytes, k),
                    ),
                forall|tag: u32|
                    tables@.contains_key(tag) ==> spec_record_in_bounds(
                        bytes,
                        #[trigger] tables@[tag],
                    ),
            decreases num_tables - i,
        {
            let at: usize = 12 + 16 * i;
            let tag_bytes: u32 = expect_u32(data, at, "table tag")?;
            let checksum: u32 = expect_u32(data, at + 4, "table checksum")?;
            let offset: u32 = expect_u32(data, at + 8, "table offset")?;
            let length: u32 = expect_u32(data, at + 12, "table length")?;
            if !fits(data, offset as u64, length as u64) {
                proof {
                    assert(!spec_record_in_bounds(bytes, spec_sfnt_record(bytes, i as int)));
                }
                return Err(ParseError::corrupted("table lies outside the font data"));
            }
            tables.insert(tag_bytes, TableRecord { checksum, offset, length });
            i = i + 1;
        }
        Ok(OpenTypeFont { data: sfnt, tables })
    }

    /// Number of tables in the directory.
    pub fn table_count(&self) -> (n: usize)
        ensures
            n == self.spec_directory().len(),
    {
        self.tables.len()
    }

    /// Whether the directory lists a table with the given tag.
    pub fn has_table(&self, tag: Tag) -> (b: bool)
        ensures
            b == self.spec_has_table(tag.spec_to_bytes()),
    {
        let key: u32 = tag.to_bytes();
        self.tables.contains_key(&key)
    }

    /// The bytes of the table with the given tag, if the directory lists it.
    pub fn get_table(&self, tag: Tag) -> (r: Option<&[u8]>)
        ensures
            r is Some <==> self.spec_has_table(tag.spec_to_bytes()),
            r matches Some(table) ==> Some(table@) == self.spec_table(tag.spec_to_bytes()),
    {
        self.table_by_value(tag.to_bytes())
    }

    /// The bytes of the table whose tag has the integer value `key`.
    fn table_by_value(&self, key: u32) -> (r: Option<&[u8]>)
        ensures
            r is Some <==> self.spec_has_table(key),
            r matches Some(table) ==> Some(table@) == self.spec_table(key),
    {
        proof {
            use_type_invariant(self);
        }
        match self.tables.get(&key) {
            Some(record) => {
                assert(self.tables@.contains_key(key) && self.tables@[key] == *record);
                let len: usize = self.data.len();
                let start: usize = record.offset as usize;
                let end: usize = start + record.length as usize;
                Some(vstd::slice::slice_subrange(self.data.as_slice(), start, end))
            },
            None => None,
        }
    }

    /// Global metrics of the font, with defaults where a table is absent.
    pub fn get_metrics(&self) -> (m: FontMetrics)
        ensures
            m.units_per_em == spec_units_per_em(self.spec_table(TAG_HEAD)),
            (m.ascender as int, m.descender as int, m.line_gap as int) == spec_line_metrics(
                self.spec_table(TAG_HHEA),
            ),
    {
        let units_per_em: u16 = match self.table_by_value(TAG_HEAD) {
            Some(table) => {
                if table.len() >= 18 {
                    match read_u16(table, 18) {
                        Some(v) => v,
                        None => 1000,
                    }
                } else {
                    1000
                }
            },
            None => 1000,
        };
        let mut ascender: i16 = 800;
        let mut descender: i16 = -200;
        let mut line_gap: i16 = 0;
        match self.table_by_value(TAG_HHEA) {
            Some(table) => {
                if table.len() >= 12 {
                    match (read_i16(table, 4), read_i16(table, 6), read_i16(table, 8)) {
                        (Some(a), Some(d), Some(g)) => {
                            ascender = a;
                            descender = d;
                            line_gap = g;
                        },
                        _ => {},
                    }
                }
            },
            None => {},
        }
        FontMetrics { units_per_em, ascender, descender, line_gap }
    }

    /// The character map of the font. The `cmap` table is not decoded: the
    /// map is always present and empty.
    pub fn get_cmap(&self) -> (r: Option<CMapTable>)
        ensures
            r is Some,
            r->0.spec_mappings() == Map::<u32, GlyphId>::empty(),
    {
        Some(CMapTable { mappings: HashMap::new() })
    }

    /// The outline of a glyph. The `glyf` table is not decoded: there never
    /// is an outline.
    pub fn get_glyph_outline(&self, _glyph_id: GlyphId) -> (r: Option<GlyphOutline>)
        ensures
            r is None,
    {
        None
    }

    /// Whether the font has an `fvar` table.
    pub fn is_variable(&self) -> (b: bool)
        ensures
            b == self.spec_has_table(TAG_FVAR),
    {
        self.tables.contains_key(&TAG_FVAR)
    }

    /// The decoded `fvar` table, if the font has a well-formed one.
    pub fn get_fvar(&self) -> (r: Option<FvarTable>)
        ensures
            r is Some <==> self.spec_fvar_table() is Some,
            r matches Some(table) ==> Some(table@) == self.spec_fvar_table(),
    {
        match self.table_by_value(TAG_FVAR) {
            Some(data) => match FvarTable::parse(data) {
                Ok(table) => Some(table),
                Err(_) => None,
            },
            None => None,
        }
    }

    /// The decoded `avar` table, if the font has well-formed `fvar` and
    /// `avar` tables that agree on the number of axes.
    pub fn get_avar(&self) -> (r: Option<AvarTable>)
        ensures
            r is Some <==> self.spec_fvar_table() is Some && self.spec_table(TAG_AVAR) is Some
                && spec_avar_valid(
                self.spec_table(TAG_AVAR)->0,
                self.spec_fvar_table()->0.axes.len(),
            ),
            r matches Some(table) ==> table@ == spec_avar(
                self.spec_table(TAG_AVAR)->0,
                self.spec_fvar_table()->0.axes.len(),
            ),
    {
        let fvar: FvarTable = match self.get_fvar() {
            Some(table) => table,
            None => {
                return None;
            },
        };
        match self.table_by_value(TAG_AVAR) {
            Some(data) => match AvarTable::parse(data, fvar.axes.len()) {
                Ok(table) => Some(table),
                Err(_) => None,
            },
            None => None,
        }
    }

    /// The variation axes of the font; empty when it has no well-formed
    /// `fvar`. The default of every axis lies between its least and its
    /// greatest value.
    pub fn get_variation_axes(&self) -> (axes: Vec<VariationAxis>)
        ensures
            self.spec_fvar_table() matches Some(fvar) ==> axes@ == fvar.axes,
            self.spec_fvar_table() is None ==> axes@.len() == 0,
            forall|i: int| 0 <= i < axes@.len() ==> spec_axis_ordered(#[trigger] axes@[i]),
    {
        proof {
            if self.spec_fvar_table() is Some {
                lemma_fvar_axes_ordered(self.spec_table(TAG_FVAR)->0);
            }
        }
        match self.get_fvar() {
            Some(fvar) => fvar.axes,
            None => Vec::new(),
        }
    }

    /// The named instances of the font; empty when it has no well-formed `fvar`.
    pub fn get_named_instances(&self) -> (instances: Vec<NamedInstance>)
        ensures
            self.spec_fvar_table() matches Some(fvar) ==> instances@.len() == fvar.instances.len()
                && forall|j: int|
                0 <= j < instances@.len() ==> (#[trigger] instances@[j])@ == fvar.instances[j],
            self.spec_fvar_table() is None ==> instances@.len() == 0,
    {
        match self.get_fvar() {
            Some(fvar) => fvar.instances,
            None => Vec::new(),
        }
    }

    /// Checks a set of coordinates against the axes of the font.
    ///
    /// Fails with `CorruptedData` when the font has no well-formed `fvar`
    /// table, or when a coordinate lies outside the bounds of the first axis
    /// with its tag. A tag that the font has no axis for is ignored.
    pub fn validate_coordinates(&self, coords: &VariationCoordinates) -> (r: Result<
        (),
        ParseError,
    >)
        ensures
            r is Ok <==> self.spec_fvar_table() is Some && forall|i: int|
                0 <= i < coords.values@.len() ==> spec_coordinate_in_range(
                    self.spec_fvar_table()->0.axes,
                    (#[trigger] coords.values@[i]).0@,
                    coords.values@[i].1,
                ),
            r matches Err(e) ==> e is CorruptedData,
    {
        let fvar: FvarTable = match self.get_fvar() {
            Some(table) => table,
            None => {
                return Err(ParseError::corrupted("Not a variable font"));
            },
        };
        let ghost axes = fvar.axes@;
        let mut i: usize = 0;
        while i < coords.values.len()
            invariant
                axes == fvar.axes@,
                self.spec_fvar_table() is Some,
                self.spec_fvar_table()->0.axes == axes,
                i <= coords.values@.len(),
                forall|k: int|
                    0 <= k < i ==> spec_coordinate_in_range(
                        axes,
                        (#[trigger] coords.values@[k]).0@,
                        coords.values@[k].1,
                    ),
            decreases coords.values@.len() - i,
        {
            let tag: Tag = coords.values[i].0;
            let value: i32 = coords.values[i].1;
            match fvar.get_axis(tag) {
                Some(axis) => {
                    if value < axis.min_value || value > axis.max_value {
                        proof {
                            let j = choose|j: int|
                                0 <= j < axes.len() && axes[j] == *axis && axis.tag@ == tag@
                                    && forall|k: int| 0 <= k < j ==> axes[k].tag@ != tag@;
                            assert(axes[j].tag@ == tag@);
                            assert(!spec_coordinate_in_range(
                                axes,
                                coords.values@[i as int].0@,
                                coords.values@[i as int].1,
                            ));
                        }
                        return Err(ParseError::corrupted("Coordinate out of range"));
                    }
                    proof {
                        let j = choose|j: int|
                            0 <= j < axes.len() && axes[j] == *axis && axis.tag@ == tag@
                                && forall|k: int| 0 <= k < j ==> axes[k].tag@ != tag@;
                        assert forall|m: int|
                            0 <= m < axes.len() && (#[trigger] axes[m]).tag@ == tag@ && (forall|
                                k: int,
                            |
                                0 <= k < m ==> (#[trigger] axes[k]).tag@ != tag@) implies axes[m].min_value
                            <= value <= axes[m].max_value by {
                            if m < j {
                                assert(axes[m].tag@ != tag@);
                            }
                            if j < m {
                                assert(axes[j].tag@ != tag@);
                            }
                        }
                    }
                },
                None => {},
            }
            i = i + 1;
        }
        Ok(())
    }

    /// Whether the font has one of the tables `COLR`, `CBDT`, `sbix`, `SVG `.
    pub fn is_color_font(&self) -> (b: bool)
        ensures
            b == (self.spec_has_table(TAG_COLR) || self.spec_has_table(TAG_CBDT)
                || self.spec_has_table(TAG_SBIX) || self.spec_has_table(TAG_SVG)),
    {
        self.tables.contains_key(&TAG_COLR) || self.tables.contains_key(&TAG_CBDT)
            || self.tables.contains_key(&TAG_SBIX) || self.tables.contains_key(&TAG_SVG)
    }

    /// The color formats of the font, in the order layered, bitmap, `sbix`, SVG.
    pub fn get_color_formats(&self) -> (formats: Vec<ColorFormat>)
        ensures
            formats@ == spec_color_formats(
                self.spec_has_table(TAG_COLR),
                self.spec_has_table(TAG_CBDT),
                self.spec_has_table(TAG_SBIX),
                self.spec_has_table(TAG_SVG),
            ),
    {
        let mut formats: Vec<ColorFormat> = Vec::new();
        if self.tables.contains_key(&TAG_COLR) {
            formats.push(ColorFormat::ColrCpal);
        }
        if self.tables.contains_key(&TAG_CBDT) {
            formats.push(ColorFormat::Cbdt);
        }
        if self.tables.contains_key(&TAG_SBIX) {
            formats.push(ColorFormat::Sbix);
        }
        if self.tables.contains_key(&TAG_SVG) {
            formats.push(ColorFormat::Svg);
        }
        assert(formats@ =~= spec_color_formats(
            self.spec_has_table(TAG_COLR),
            self.spec_has_table(TAG_CBDT),
            self.spec_has_table(TAG_SBIX),
            self.spec_has_table(TAG_SVG),
        ));
        formats
    }

    /// The decoded `CPAL` table, if the font has a well-formed one.
    pub fn get_cpal(&self) -> (r: Option<CpalTable>)
        ensures
            r is Some <==> self.spec_table(TAG_CPAL) is Some && spec_cpal_valid(
                self.spec_table(TAG_CPAL)->0,
            ),
            r matches Some(table) ==> table@ == spec_cpal(self.spec_table(TAG_CPAL)->0),
    {
        match self.table_by_value(TAG_CPAL) {
            Some(data) => match CpalTable::parse(data) {
                Ok(table) => Some(table),
                Err(_) => None,
            },
            None => None,
        }
    }

    /// The decoded `COLR` table, if the font has a well-formed one.
    pub fn get_colr(&self) -> (r: Option<ColrTable>)
        ensures
            r is Some <==> self.spec_table(TAG_COLR) is Some && spec_colr_valid(
                self.spec_table(TAG_COLR)->0,
            ),
            r matches Some(table) ==> table@ == spec_colr(self.spec_table(TAG_COLR)->0),
    {
        match self.table_by_value(TAG_COLR) {
            Some(data) => match ColrTable::parse(data) {
                Ok(table) => Some(table),
                Err(_) => None,
            },
            None => None,
        }
    }

    /// The header of the `CBDT` table, if the font has one of at least four bytes.
    pub fn get_cbdt(&self) -> (r: Option<CbdtTable>)
        ensures
            r is Some <==> self.spec_table(TAG_CBDT) is Some && self.spec_table(TAG_CBDT)->0.len()
                >= 4,
            r matches Some(table) ==> (table.major_version as int, table.minor_version as int)
                == spec_cbdt_model(self.spec_table(TAG_CBDT)->0),
    {
        match self.table_by_value(TAG_CBDT) {
            Some(data) => match CbdtTable::parse(data) {
                Ok(table) => Some(table),
                Err(_) => None,
            },
            None => None,
        }
    }

    /// The header of the `SVG ` table, if the font has one of at least ten bytes.
    pub fn get_svg(&self) -> (r: Option<SvgTable>)
        ensures
            r is Some <==> self.spec_table(TAG_SVG) is Some && self.spec_table(TAG_SVG)->0.len()
                >= 10,
            r matches Some(table) ==> table.version == spec_be_u16(self.spec_table(TAG_SVG)->0, 0),
    {
        match self.table_by_value(TAG_SVG) {
            Some(data) => match SvgTable::parse(data) {
                Ok(table) => Some(table),
                Err(_) => None,
            },
            None => None,
        }
    }

    /// The layers of a glyph in the font's `COLR` table, if the font has a
    /// well-formed one and the glyph is a color glyph.
    pub open spec fn spec_color_layers(self, glyph_id: GlyphId) -> Option<Seq<Layer>> {
        match self.spec_table(TAG_COLR) {
            Some(table) => if spec_colr_valid(table) {
                spec_layers_of(spec_colr(table), glyph_id)
            } else {
                None
            },
            None => None,
        }
    }

    /// Whether the glyph is drawn in color layers.
    pub fn has_color_layers(&self, glyph_id: GlyphId) -> (b: bool)
        ensures
            b == self.spec_color_layers(glyph_id) is Some,
    {
        match self.get_colr() {
            Some(colr) => colr.is_color_glyph(glyph_id),
            None => false,
        }
    }

    /// The color layers of the glyph, in painting order.
    pub fn get_color_layers(&self, glyph_id: GlyphId) -> (r: Option<Vec<Layer>>)
        ensures
            r is Some <==> self.spec_color_layers(glyph_id) is Some,
            r matches Some(layers) ==> Some(layers@) == self.spec_color_layers(glyph_id),
    {
        let colr: ColrTable = match self.get_colr() {
            Some(table) => table,
            None => {
                return None;
            },
        };
        match colr.get_layers(glyph_id) {
            Some(layers) => {
                let mut copy: Vec<Layer> = Vec::new();
                let mut i: usize = 0;
                while i < layers.len()
                    invariant
                        i <= layers@.len(),
                        copy@ == layers@.subrange(0, i as int),
                    decreases layers@.len() - i,
                {
                    copy.push(layers[i]);
                    proof {
                        assert(copy@ =~= layers@.subrange(0, i as int + 1));
                    }
                    i = i + 1;
                }
                proof {
                    assert(copy@ =~= layers@);
                }
                Some(copy)
            },
            None => None,
        }
    }
}

/// The first four bytes of `data` as a big-endian integer.
fn read_u32_at_start(data: &Vec<u8>) -> (r: Option<u32>)
    ensures
        r is Some <==> data@.len() >= 4,
        r matches Some(v) ==> v == spec_be_u32(data@, 0),
{
    crate::font_parser::bytes::read_u32(data.as_slice(), 0)
}

/// The layers of `glyph_id` among `glyphs`, if it is a base glyph.
pub open spec fn spec_layers_of(
    glyphs: Seq<crate::font_parser::color_fonts::BaseGlyphModel>,
    glyph_id: u16,
) -> Option<Seq<Layer>> {
    let i = crate::font_parser::color_fonts::spec_find_base_glyph(glyphs, glyph_id);
    if i < glyphs.len() {
        Some(glyphs[i].layers)
    } else {
        None
    }
}

/// The color formats of a font with the given tables, in the order
/// layered, bitmap, `sbix`, SVG.
pub open spec fn spec_color_formats(colr: bool, cbdt: bool, sbix: bool, svg: bool) -> Seq<
    ColorFormat,
> {
    (if colr {
        seq![ColorFormat::ColrCpal]
    } else {
        Seq::<ColorFormat>::empty()
    }) + (if cbdt {
        seq![ColorFormat::Cbdt]
    } else {
        Seq::<ColorFormat>::empty()
    }) + (if sbix {
        seq![ColorFormat::Sbix]
    } else {
        Seq::<ColorFormat>::empty()
    }) + (if svg {
        seq![ColorFormat::Svg]
    } else {
        Seq::<ColorFormat>::empty()
    })
}

} // verus!
