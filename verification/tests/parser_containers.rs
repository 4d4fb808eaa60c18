//! Container parsing: sfnt, WOFF, WOFF2 and the variable and color tables.

use flate2::write::ZlibEncoder;
use flate2::Compression;
use font_system::font_parser::bytes::{push_u16, push_u32, read_i16, read_i32, read_u16, read_u8};
use font_system::font_parser::{
    AvarTable, AxisSegmentMap, CbdtTable, ColorFormat, ColrTable, CpalTable, FvarTable,
    OpenTypeFont, ParseError, SvgTable, Tag, VariationCoordinates, Woff2Font, WoffFont,
};
use std::io::Write;

fn fx(v: f32) -> i32 {
    (v * 65536.0).round() as i32
}

fn unfx(v: i32) -> f32 {
    v as f32 / 65536.0
}

/// An sfnt with the given tables, laid out one after the other.
fn build_sfnt(version: u32, tables: &[(&str, Vec<u8>)]) -> Vec<u8> {
    let mut out = Vec::new();
    push_u32(&mut out, version);
    push_u16(&mut out, tables.len() as u16);
    push_u16(&mut out, 0);
    push_u16(&mut out, 0);
    push_u16(&mut out, 0);
    let mut offset = 12 + 16 * tables.len();
    for (tag, data) in tables {
        out.extend_from_slice(tag.as_bytes());
        push_u32(&mut out, 0xDEADBEEF);
        push_u32(&mut out, offset as u32);
        push_u32(&mut out, data.len() as u32);
        offset += (data.len() + 3) & !3;
    }
    for (_, data) in tables {
        out.extend_from_slice(data);
        while out.len() % 4 != 0 {
            out.push(0);
        }
    }
    out
}

/// A `head` table of 54 bytes with the given units per em.
fn head_table(units_per_em: u16) -> Vec<u8> {
    let mut head = vec![0u8; 54];
    head[18] = (units_per_em >> 8) as u8;
    head[19] = (units_per_em & 0xFF) as u8;
    head
}

/// An `hhea` table of 36 bytes with the given line metrics.
fn hhea_table(ascender: i16, descender: i16, line_gap: i16) -> Vec<u8> {
    let mut hhea = vec![0u8; 36];
    hhea[4..6].copy_from_slice(&ascender.to_be_bytes());
    hhea[6..8].copy_from_slice(&descender.to_be_bytes());
    hhea[8..10].copy_from_slice(&line_gap.to_be_bytes());
    hhea
}

/// A WOFF container with the given tables; a table is stored compressed
/// when `compress` is set and compression makes it smaller.
fn build_woff(flavor: u32, tables: &[(&str, Vec<u8>)], compress: bool) -> Vec<u8> {
    let mut stored: Vec<Vec<u8>> = Vec::new();
    for (_, data) in tables {
        let mut bytes = data.clone();
        if compress {
            let mut encoder = ZlibEncoder::new(Vec::new(), Compression::default());
            encoder.write_all(data).unwrap();
            let packed = encoder.finish().unwrap();
            if packed.len() < data.len() {
                bytes = packed;
            }
        }
        stored.push(bytes);
    }
    let mut out = Vec::new();
    push_u32(&mut out, 0x774F4646);
    push_u32(&mut out, flavor);
    push_u32(&mut out, 0);
    push_u16(&mut out, tables.len() as u16);
    push_u16(&mut out, 0);
    push_u32(&mut out, 0);
    push_u16(&mut out, 1);
    push_u16(&mut out, 0);
    for _ in 0..5 {
        push_u32(&mut out, 0);
    }
    assert_eq!(out.len(), 44);
    let mut offset = 44 + 20 * tables.len();
    for (i, (tag, data)) in tables.iter().enumerate() {
        out.extend_from_slice(tag.as_bytes());
        push_u32(&mut out, offset as u32);
        push_u32(&mut out, stored[i].len() as u32);
        push_u32(&mut out, data.len() as u32);
        push_u32(&mut out, 0x1234_0000 + i as u32);
        offset += (stored[i].len() + 3) & !3;
    }
    for bytes in &stored {
        out.extend_from_slice(bytes);
        while out.len() % 4 != 0 {
            out.push(0);
        }
    }
    out
}

#[test]
fn big_endian_readers_read_most_significant_byte_first() {
    let data = [0x12u8, 0x34, 0x56, 0x78, 0xFF, 0xFE];
    assert_eq!(read_u8(&data, 0), Some(0x12));
    assert_eq!(read_u16(&data, 0), Some(0x1234));
    assert_eq!(read_u16(&data, 1), Some(0x3456));
    assert_eq!(font_system::font_parser::bytes::read_u32(&data, 0), Some(0x12345678));
    assert_eq!(read_i16(&data, 4), Some(-2));
    assert_eq!(read_i32(&data, 2), Some(0x5678FFFEu32 as i32));
    assert_eq!(read_u16(&data, 5), None);
    assert_eq!(font_system::font_parser::bytes::read_u32(&data, 3), None);
    assert_eq!(read_u8(&data, 6), None);
}

#[test]
fn tag_round_trips_through_integers_and_strings() {
    for n in [0u32, 1, 0x636D6170, 0x7FFF_FFFF, 0x8000_0000, 0xFFFF_FFFF, 0x53564720] {
        assert_eq!(Tag::from_bytes(n).to_bytes(), n);
    }
    for s in ["cmap", "head", "SVG ", "wght", "a b ", "\u{e9}\u{e9}"] {
        let tag = Tag::new(s).unwrap();
        assert_eq!(tag.to_string(), s);
        assert_eq!(tag.as_str(), s);
    }
    for s in ["", "a", "abc", "abcde", "\u{e9}\u{e9}\u{e9}"] {
        assert!(Tag::new(s).is_none());
        assert!(s.parse::<Tag>().is_err());
    }
}

#[test]
fn tag_that_is_not_utf8_reads_as_question_marks() {
    let tag = Tag::from_bytes(0xFF00FF00);
    assert_eq!(tag.as_str(), "????");
    assert_eq!(tag.to_string(), "????");
    assert_eq!(tag.to_bytes(), 0xFF00FF00);
}

#[test]
fn tags_compare_by_their_bytes() {
    let a = Tag::new("head").unwrap();
    let b = Tag::from_bytes(0x68656164);
    let c = Tag::new("hhea").unwrap();
    assert!(a.same(&b));
    assert!(!a.same(&c));
    assert_eq!(a, b);
    assert_eq!(Tag::weight().to_bytes(), 0x77676874);
    assert_eq!(Tag::italic().as_str(), "ital");
}

#[test]
fn sfnt_parse_reads_the_directory() {
    let data = build_sfnt(
        0x00010000,
        &[("head", head_table(2048)), ("hhea", hhea_table(1900, -500, 90)), ("cmap", vec![1; 8])],
    );
    let font = OpenTypeFont::parse(data).unwrap();
    assert_eq!(font.table_count(), 3);
    assert!(font.has_table(Tag::new("head").unwrap()));
    assert!(!font.has_table(Tag::new("glyf").unwrap()));
    assert_eq!(font.get_table(Tag::new("head").unwrap()).unwrap().len(), 54);
    assert_eq!(font.get_table(Tag::new("cmap").unwrap()).unwrap(), &[1u8; 8][..]);
    assert!(font.get_table(Tag::new("glyf").unwrap()).is_none());
    let metrics = font.get_metrics();
    assert_eq!(metrics.units_per_em, 2048);
    assert_eq!(metrics.ascender, 1900);
    assert_eq!(metrics.descender, -500);
    assert_eq!(metrics.line_gap, 90);
}

#[test]
fn sfnt_metrics_default_when_tables_are_absent_or_short() {
    let font = OpenTypeFont::parse(build_sfnt(0x4F54544F, &[("CFF ", vec![0; 4])])).unwrap();
    let metrics = font.get_metrics();
    assert_eq!(metrics.units_per_em, 1000);
    assert_eq!(metrics.ascender, 800);
    assert_eq!(metrics.descender, -200);
    assert_eq!(metrics.line_gap, 0);

    let short = build_sfnt(0x00010000, &[("head", vec![9; 19]), ("hhea", vec![9; 11])]);
    let metrics = OpenTypeFont::parse(short).unwrap().get_metrics();
    assert_eq!(metrics.units_per_em, 1000);
    assert_eq!(metrics.ascender, 800);
}

#[test]
fn sfnt_parse_rejects_what_is_not_a_font() {
    assert!(matches!(OpenTypeFont::parse(vec![]), Err(ParseError::CorruptedData(_))));
    assert!(matches!(OpenTypeFont::parse(vec![0, 1, 0, 0, 0, 1]), Err(ParseError::CorruptedData(_))));
    let unknown = vec![0x74, 0x74, 0x63, 0x66, 0, 0, 0, 0, 0, 0, 0, 0];
    assert!(matches!(OpenTypeFont::parse(unknown), Err(ParseError::InvalidFormat)));
    // The directory announces two tables but holds none.
    let mut truncated = build_sfnt(0x00010000, &[]);
    truncated[5] = 2;
    assert!(matches!(OpenTypeFont::parse(truncated), Err(ParseError::CorruptedData(_))));
}

#[test]
fn sfnt_parse_rejects_a_table_outside_the_data() {
    let mut data = build_sfnt(0x00010000, &[("head", head_table(1000))]);
    // Table length 54 -> 55: one byte past the end of the data.
    let len = data.len();
    data.truncate(len - 2);
    let at = 12 + 12;
    data[at..at + 4].copy_from_slice(&55u32.to_be_bytes());
    assert!(matches!(OpenTypeFont::parse(data), Err(ParseError::CorruptedData(_))));
}

#[test]
fn sfnt_later_directory_entry_replaces_earlier_one() {
    let data = build_sfnt(0x00010000, &[("cmap", vec![1; 4]), ("cmap", vec![2; 8])]);
    let font = OpenTypeFont::parse(data).unwrap();
    assert_eq!(font.table_count(), 1);
    assert_eq!(font.get_table(Tag::new("cmap").unwrap()).unwrap(), &[2u8; 8][..]);
}

#[test]
fn woff_with_uncompressed_tables_rebuilds_the_sfnt() {
    let woff = build_woff(
        0x00010000,
        &[("head", head_table(1234)), ("cmap", vec![7, 6, 5, 4, 3, 2, 1, 0])],
        false,
    );
    let font = OpenTypeFont::parse(woff).unwrap();
    assert_eq!(font.get_metrics().units_per_em, 1234);
    assert_eq!(font.get_table(Tag::new("head").unwrap()).unwrap().len(), 54);
    assert_eq!(
        font.get_table(Tag::new("cmap").unwrap()).unwrap(),
        &[7u8, 6, 5, 4, 3, 2, 1, 0][..]
    );
}

#[test]
fn woff_rebuilt_sfnt_has_header_directory_and_padded_tables() {
    let woff = build_woff(0x4F54544F, &[("abcd", vec![1, 2, 3]), ("efgh", vec![4, 5, 6, 7, 8])], false);
    let sfnt = WoffFont::parse(&woff).unwrap().ttf_data;
    let expected: Vec<u8> = vec![
        0x4F, 0x54, 0x54, 0x4F, // flavor
        0, 2, // two tables
        0, 32, // search range: 2 * 16
        0, 1, // entry selector: log2(2)
        0, 0, // range shift: 32 - 32
        b'a', b'b', b'c', b'd', 0x12, 0x34, 0, 0, 0, 0, 0, 44, 0, 0, 0, 3, // entry 1
        b'e', b'f', b'g', b'h', 0x12, 0x34, 0, 1, 0, 0, 0, 48, 0, 0, 0, 5, // entry 2
        1, 2, 3, 0, // table 1, padded
        4, 5, 6, 7, 8, 0, 0, 0, // table 2, padded
    ];
    assert_eq!(sfnt, expected);
}

#[test]
fn woff_search_fields_for_three_tables() {
    let woff = build_woff(0x00010000, &[("aaaa", vec![]), ("bbbb", vec![]), ("cccc", vec![])], false);
    let sfnt = WoffFont::parse(&woff).unwrap().ttf_data;
    // Smallest power of two that is at least 3, times 16; log2 rounded down; 48 - 64 held at 0.
    assert_eq!(&sfnt[6..12], &[0, 64, 0, 1, 0, 0]);
}

#[test]
fn woff_with_compressed_table_inflates_it() {
    let table: Vec<u8> = (0..4000u32).map(|i| (i % 7) as u8).collect();
    let woff = build_woff(0x00010000, &[("head", head_table(1000)), ("data", table.clone())], true);
    assert!(woff.len() < 2000, "the table is stored compressed");
    let font = OpenTypeFont::parse(woff).unwrap();
    assert_eq!(font.get_table(Tag::new("data").unwrap()).unwrap(), &table[..]);
}

#[test]
fn woff_with_wrong_lengths_is_corrupted() {
    let good = build_woff(0x00010000, &[("data", vec![5; 100])], false);
    // Original length larger than the stored length: the bytes are inflated, which fails.
    let mut claims_compressed = good.clone();
    claims_compressed[44 + 12..44 + 16].copy_from_slice(&200u32.to_be_bytes());
    assert!(matches!(WoffFont::parse(&claims_compressed), Err(ParseError::CorruptedData(_))));
    // Original length smaller than the stored length: the sizes do not match.
    let mut too_long = good.clone();
    too_long[44 + 12..44 + 16].copy_from_slice(&50u32.to_be_bytes());
    assert!(matches!(WoffFont::parse(&too_long), Err(ParseError::CorruptedData(_))));
    // Table offset beyond the end of the container.
    let mut outside = good.clone();
    outside[44 + 4..44 + 8].copy_from_slice(&5000u32.to_be_bytes());
    assert!(matches!(WoffFont::parse(&outside), Err(ParseError::CorruptedData(_))));
    assert!(WoffFont::parse(&good).is_ok());
}

#[test]
fn woff_metadata_is_inflated_text() {
    let mut woff = build_woff(0x00010000, &[("data", vec![1, 2, 3, 4])], false);
    let mut encoder = ZlibEncoder::new(Vec::new(), Compression::default());
    encoder.write_all("<metadata version=\"1.0\"/>".as_bytes()).unwrap();
    let packed = encoder.finish().unwrap();
    let at = woff.len() as u32;
    woff.extend_from_slice(&packed);
    woff[24..28].copy_from_slice(&at.to_be_bytes());
    woff[28..32].copy_from_slice(&(packed.len() as u32).to_be_bytes());
    let font = WoffFont::parse(&woff).unwrap();
    assert_eq!(font.metadata.as_deref(), Some("<metadata version=\"1.0\"/>"));

    let plain = build_woff(0x00010000, &[("data", vec![1, 2, 3, 4])], false);
    assert_eq!(WoffFont::parse(&plain).unwrap().metadata, None);

    // A metadata block that is not a zlib stream.
    let mut broken = plain.clone();
    broken[24..28].copy_from_slice(&44u32.to_be_bytes());
    broken[28..32].copy_from_slice(&8u32.to_be_bytes());
    assert!(matches!(WoffFont::parse(&broken), Err(ParseError::CorruptedData(_))));
}

#[test]
fn woff2_stream_is_decompressed() {
    let sfnt = build_sfnt(0x00010000, &[("head", head_table(500)), ("cmap", vec![3; 8])]);
    let mut packed = Vec::new();
    {
        let mut writer = brotli::CompressorWriter::new(&mut packed, 4096, 5, 22);
        writer.write_all(&sfnt).unwrap();
    }
    let mut woff2 = Vec::new();
    push_u32(&mut woff2, 0x774F4632);
    push_u32(&mut woff2, 0x00010000);
    push_u32(&mut woff2, 0);
    push_u16(&mut woff2, 2);
    push_u16(&mut woff2, 0);
    push_u32(&mut woff2, sfnt.len() as u32);
    push_u32(&mut woff2, packed.len() as u32);
    push_u16(&mut woff2, 1);
    push_u16(&mut woff2, 0);
    for _ in 0..5 {
        push_u32(&mut woff2, 0);
    }
    assert_eq!(woff2.len(), 48);
    woff2.extend_from_slice(&packed);

    let unpacked = Woff2Font::parse(&woff2).unwrap();
    assert_eq!(unpacked.ttf_data, sfnt);
    assert_eq!(unpacked.metadata, None);
    let font = OpenTypeFont::parse(woff2.clone()).unwrap();
    assert_eq!(font.get_metrics().units_per_em, 500);
    assert_eq!(font.get_table(Tag::new("cmap").unwrap()).unwrap(), &[3u8; 8][..]);

    // A stream that is announced longer than the container.
    let mut short = woff2.clone();
    short.truncate(60);
    assert!(matches!(Woff2Font::parse(&short), Err(ParseError::CorruptedData(_))));
    // A stream that is not Brotli.
    let mut garbage = woff2[..48].to_vec();
    garbage[20..24].copy_from_slice(&4u32.to_be_bytes());
    garbage.extend_from_slice(&[0xFF, 0xFF, 0xFF, 0xFF]);
    assert!(matches!(Woff2Font::parse(&garbage), Err(ParseError::CorruptedData(_))));
    assert_eq!(
        Woff2Font::reconstruct_sfnt(vec![1, 2, 3], 0x00010000, 1).unwrap(),
        vec![1, 2, 3]
    );
}

fn fvar_header(
    major: u16,
    axes_offset: u16,
    axis_count: u16,
    axis_size: u16,
    instance_count: u16,
    instance_size: u16,
) -> Vec<u8> {
    let mut data = Vec::new();
    push_u16(&mut data, major);
    push_u16(&mut data, 0);
    push_u16(&mut data, axes_offset);
    push_u16(&mut data, 2);
    push_u16(&mut data, axis_count);
    push_u16(&mut data, axis_size);
    push_u16(&mut data, instance_count);
    push_u16(&mut data, instance_size);
    data
}

fn push_axis(data: &mut Vec<u8>, tag: &str, min: f32, default: f32, max: f32, name_id: u16) {
    data.extend_from_slice(tag.as_bytes());
    data.extend_from_slice(&fx(min).to_be_bytes());
    data.extend_from_slice(&fx(default).to_be_bytes());
    data.extend_from_slice(&fx(max).to_be_bytes());
    push_u16(data, 0);
    push_u16(data, name_id);
}

#[test]
fn fvar_skips_surplus_bytes_and_reads_postscript_names() {
    // Axis records of 24 bytes, instance records of 4 + 2 * 4 + 2 + 2 bytes.
    let mut data = fvar_header(1, 18, 2, 24, 2, 16);
    data.extend_from_slice(&[0xAA, 0xBB]);
    push_axis(&mut data, "wght", 100.0, 400.0, 900.0, 256);
    data.extend_from_slice(&[0xCC; 4]);
    push_axis(&mut data, "wdth", 75.0, 100.0, 125.0, 257);
    data.extend_from_slice(&[0xCC; 4]);
    for (name, w, d, ps) in [(300u16, 700.0f32, 100.0f32, 400u16), (301, 300.0, 90.5, 401)] {
        push_u16(&mut data, name);
        push_u16(&mut data, 0);
        data.extend_from_slice(&fx(w).to_be_bytes());
        data.extend_from_slice(&fx(d).to_be_bytes());
        push_u16(&mut data, ps);
        data.extend_from_slice(&[0xDD; 2]);
    }
    let fvar = FvarTable::parse(&data).unwrap();
    assert!(fvar.is_variable());
    assert_eq!(fvar.axes.len(), 2);
    assert_eq!(fvar.axes[1].tag, Tag::width());
    assert_eq!(fvar.axes[1].name_id, 257);
    assert_eq!(fvar.axes[1].min_value, 75 * 65536);
    assert_eq!(fvar.axes[1].default_value, 100 * 65536);
    assert_eq!(fvar.axes[1].max_value, 125 * 65536);
    assert_eq!(fvar.get_axis(Tag::weight()).unwrap().max_value, 900 * 65536);
    assert!(fvar.get_axis(Tag::slant()).is_none());
    assert_eq!(fvar.instances.len(), 2);
    assert_eq!(fvar.instances[0].subfamily_name_id, 300);
    assert_eq!(fvar.instances[0].coordinates, vec![700 * 65536, 100 * 65536]);
    assert_eq!(fvar.instances[0].postscript_name_id, Some(400));
    assert_eq!(fvar.instances[1].coordinates, vec![300 * 65536, 90 * 65536 + 32768]);
    assert_eq!(fvar.instances[1].postscript_name_id, Some(401));

    // One byte short of the last instance record that is read (14 of its 16 bytes).
    let mut short = data.clone();
    short.truncate(data.len() - 3);
    assert!(matches!(FvarTable::parse(&short), Err(ParseError::CorruptedData(_))));
    // The surplus bytes of the last record need not be there.
    let mut enough = data.clone();
    enough.truncate(data.len() - 2);
    assert!(FvarTable::parse(&enough).is_ok());
}

#[test]
fn fvar_without_postscript_names() {
    let mut data = fvar_header(1, 16, 1, 20, 1, 8);
    push_axis(&mut data, "slnt", -12.0, 0.0, 0.0, 5);
    push_u16(&mut data, 9);
    push_u16(&mut data, 0);
    data.extend_from_slice(&fx(-6.0).to_be_bytes());
    let fvar = FvarTable::parse(&data).unwrap();
    assert_eq!(fvar.axes[0].min_value, -12 * 65536);
    assert_eq!(fvar.instances[0].coordinates, vec![-6 * 65536]);
    assert_eq!(fvar.instances[0].postscript_name_id, None);
}

#[test]
fn fvar_and_avar_reject_other_versions() {
    let data = fvar_header(2, 16, 0, 20, 0, 4);
    assert!(matches!(FvarTable::parse(&data), Err(ParseError::UnsupportedVersion)));
    assert!(matches!(FvarTable::parse(&data[..3]), Err(ParseError::CorruptedData(_))));
    assert!(matches!(FvarTable::parse(&fvar_header(1, 16, 0, 20, 0, 4)[..10]), Err(ParseError::CorruptedData(_))));
    let empty = FvarTable::parse(&fvar_header(1, 16, 0, 20, 0, 4)).unwrap();
    assert!(!empty.is_variable());

    let avar = [0u8, 1, 0, 1, 0, 0, 0, 0];
    assert!(matches!(AvarTable::parse(&avar, 0), Err(ParseError::UnsupportedVersion)));
    let avar = [0u8, 1, 0, 0, 0, 0, 0, 2];
    assert!(matches!(AvarTable::parse(&avar, 1), Err(ParseError::CorruptedData(_))));
    assert!(matches!(AvarTable::parse(&avar, 2), Err(ParseError::CorruptedData(_))));
    let avar = [0u8, 1, 0, 0, 0, 0, 0, 2, 0, 0, 0, 0];
    let table = AvarTable::parse(&avar, 2).unwrap();
    assert_eq!(table.axis_segment_maps.len(), 2);
    assert!(table.axis_segment_maps[0].mappings.is_empty());
}

fn avar_of(mappings: &[(f32, f32)]) -> AvarTable {
    AvarTable {
        axis_segment_maps: vec![AxisSegmentMap {
            mappings: mappings.iter().map(|(from, to)| (fx(*from), fx(*to))).collect(),
        }],
    }
}

#[test]
fn avar_identity_map_leaves_every_value_unchanged() {
    let avar = avar_of(&[(-1.0, -1.0), (0.0, 0.0), (1.0, 1.0)]);
    let mut v: i32 = -65536;
    while v <= 65536 {
        assert_eq!(avar.map_value(0, v), v);
        v += 257;
    }
    for v in [-65536, -1, 0, 1, 65535, 65536, 3 * 65536, -3 * 65536, i32::MAX, i32::MIN] {
        assert_eq!(avar.map_value(0, v), v);
    }
}

#[test]
fn avar_interpolates_between_the_ends_of_a_segment() {
    let avar = avar_of(&[(-1.0, -1.0), (0.0, -0.5), (1.0, 1.0)]);
    assert_eq!(avar.map_value(0, 0), -32768);
    assert_eq!(avar.map_value(0, 32768), 16384);
    assert!((unfx(avar.map_value(0, fx(0.0))) - (-0.5)).abs() < 0.0001);
    assert!((unfx(avar.map_value(0, fx(0.5))) - 0.25).abs() < 0.0001);
    assert_eq!(avar.map_value(0, -65536), -65536);
    assert_eq!(avar.map_value(0, 65536), 65536);
    // -0.5 lies halfway between -1 and 0: halfway between -1 and -0.5.
    assert_eq!(avar.map_value(0, -32768), -49152);
    // Rounding is toward negative infinity: 1/3 of the way from -0.5 to 1.
    assert_eq!(avar.map_value(0, 21845), -32768 + (21845i64 * 98304 / 65536) as i32);
    // Outside the mapped range, and for an axis that the table does not have.
    assert_eq!(avar.map_value(0, 2 * 65536), 2 * 65536);
    assert_eq!(avar.map_value(3, 1234), 1234);
    assert_eq!(avar_of(&[]).map_value(0, 77), 77);
    assert_eq!(avar_of(&[(0.0, 1.0)]).map_value(0, 0), 0);
    // A segment of zero length maps to the value of its first end.
    assert_eq!(avar_of(&[(0.5, 0.25), (0.5, 0.75)]).map_value(0, 32768), 16384);
}

#[test]
fn variation_coordinates_hold_one_value_per_tag() {
    let mut coords = VariationCoordinates::new();
    coords.set_axis(Tag::weight(), 1);
    coords.set_axis(Tag::width(), 2);
    coords.set_axis(Tag::weight(), 3);
    assert_eq!(coords.values, vec![(Tag::weight(), 3), (Tag::width(), 2)]);
    assert_eq!(coords.get_axis(Tag::weight()), Some(3));
    assert_eq!(coords.get_axis(Tag::slant()), None);
}

#[test]
fn coordinates_are_validated_against_the_axes() {
    let mut fvar = fvar_header(1, 16, 1, 20, 0, 4);
    push_axis(&mut fvar, "wght", 100.0, 400.0, 900.0, 256);
    let font = OpenTypeFont::parse(build_sfnt(0x00010000, &[("fvar", fvar)])).unwrap();
    assert!(font.is_variable());
    assert_eq!(font.get_variation_axes().len(), 1);
    assert!(font.get_named_instances().is_empty());

    let mut coords = VariationCoordinates::new();
    assert!(font.validate_coordinates(&coords).is_ok());
    coords.set_axis(Tag::weight(), fx(100.0));
    assert!(font.validate_coordinates(&coords).is_ok());
    coords.set_axis(Tag::weight(), fx(900.0));
    assert!(font.validate_coordinates(&coords).is_ok());
    coords.set_axis(Tag::slant(), fx(-500.0));
    assert!(font.validate_coordinates(&coords).is_ok());
    coords.set_axis(Tag::weight(), fx(900.0) + 1);
    assert!(matches!(font.validate_coordinates(&coords), Err(ParseError::CorruptedData(_))));
    coords.set_axis(Tag::weight(), fx(100.0) - 1);
    assert!(matches!(font.validate_coordinates(&coords), Err(ParseError::CorruptedData(_))));

    let plain = OpenTypeFont::parse(build_sfnt(0x00010000, &[("head", head_table(1000))])).unwrap();
    assert!(!plain.is_variable());
    assert!(plain.get_fvar().is_none());
    assert!(plain.get_avar().is_none());
    assert!(matches!(
        plain.validate_coordinates(&VariationCoordinates::new()),
        Err(ParseError::CorruptedData(_))
    ));
}

fn cpal_table(entries: u16, starts: &[u16], records: &[[u8; 4]]) -> Vec<u8> {
    let mut data = Vec::new();
    push_u16(&mut data, 0);
    push_u16(&mut data, entries);
    push_u16(&mut data, starts.len() as u16);
    push_u16(&mut data, records.len() as u16);
    push_u32(&mut data, 12 + 2 * starts.len() as u32);
    for start in starts {
        push_u16(&mut data, *start);
    }
    for record in records {
        data.extend_from_slice(record);
    }
    data
}

#[test]
fn cpal_palettes_are_slices_of_the_color_records() {
    let records = [[1, 2, 3, 4], [5, 6, 7, 8], [9, 10, 11, 12]];
    let cpal = CpalTable::parse(&cpal_table(2, &[0, 1], &records)).unwrap();
    assert_eq!(cpal.palette_count(), 2);
    let first = cpal.default_palette().unwrap();
    assert_eq!((first[0].blue, first[0].green, first[0].red, first[0].alpha), (1, 2, 3, 4));
    assert_eq!(first[1].to_rgba_u32(), 0x08070605);
    let second = cpal.get_palette(1).unwrap();
    assert_eq!(second[0], first[1]);
    assert_eq!(second[1].red, 11);
    assert!(cpal.get_palette(2).is_none());
    assert_eq!(cpal.palette_labels, vec![None, None]);
    assert_eq!(cpal.palette_types, vec![0, 0]);

    // A palette that reaches past the last record.
    assert!(matches!(
        CpalTable::parse(&cpal_table(2, &[0, 2], &records)),
        Err(ParseError::CorruptedData(_))
    ));
    // Color records that reach past the end of the table.
    let mut short = cpal_table(2, &[0, 1], &records);
    short.pop();
    assert!(matches!(CpalTable::parse(&short), Err(ParseError::CorruptedData(_))));
    assert!(matches!(CpalTable::parse(&[0, 0, 0]), Err(ParseError::CorruptedData(_))));
    let none = CpalTable::parse(&cpal_table(3, &[], &[])).unwrap();
    assert_eq!(none.palette_count(), 0);
    assert!(none.default_palette().is_none());
}

fn colr_table(bases: &[(u16, u16, u16)], layers: &[(u16, u16)]) -> Vec<u8> {
    let mut data = Vec::new();
    push_u16(&mut data, 0);
    push_u16(&mut data, bases.len() as u16);
    push_u32(&mut data, 14);
    push_u32(&mut data, 14 + 6 * bases.len() as u32);
    push_u16(&mut data, layers.len() as u16);
    for (glyph, first, count) in bases {
        push_u16(&mut data, *glyph);
        push_u16(&mut data, *first);
        push_u16(&mut data, *count);
    }
    for (glyph, palette) in layers {
        push_u16(&mut data, *glyph);
        push_u16(&mut data, *palette);
    }
    data
}

#[test]
fn colr_layers_come_in_stored_order() {
    let layers = [(100, 0), (101, 1), (102, 2)];
    let colr = ColrTable::parse(&colr_table(&[(42, 1, 2), (43, 0, 3), (42, 0, 1)], &layers)).unwrap();
    assert_eq!(colr.color_glyph_count(), 3);
    assert!(colr.is_color_glyph(42));
    assert!(colr.is_color_glyph(43));
    assert!(!colr.is_color_glyph(100));
    let found = colr.get_layers(42).unwrap();
    assert_eq!(found.len(), 2);
    assert_eq!((found[0].glyph_id, found[0].palette_index), (101, 1));
    assert_eq!((found[1].glyph_id, found[1].palette_index), (102, 2));
    assert_eq!(colr.get_layers(43).unwrap().len(), 3);
    assert!(colr.get_layers(44).is_none());

    assert!(matches!(
        ColrTable::parse(&colr_table(&[(42, 2, 2)], &layers)),
        Err(ParseError::CorruptedData(_))
    ));
    let mut short = colr_table(&[(42, 0, 1)], &layers);
    short.pop();
    assert!(matches!(ColrTable::parse(&short), Err(ParseError::CorruptedData(_))));
    assert!(matches!(ColrTable::parse(&[0; 13]), Err(ParseError::CorruptedData(_))));
}

#[test]
fn color_tables_of_a_font() {
    let colr = colr_table(&[(42, 0, 2)], &[(100, 0), (101, 1)]);
    let cpal = cpal_table(2, &[0], &[[0, 0, 255, 255], [0, 255, 0, 255]]);
    let font = OpenTypeFont::parse(build_sfnt(
        0x00010000,
        &[("COLR", colr), ("CPAL", cpal), ("CBDT", vec![0, 3, 0, 1]), ("SVG ", vec![0, 1, 0, 0, 0, 10, 0, 0, 0, 0])],
    ))
    .unwrap();
    assert!(font.is_color_font());
    assert_eq!(
        font.get_color_formats(),
        vec![ColorFormat::ColrCpal, ColorFormat::Cbdt, ColorFormat::Svg]
    );
    assert!(font.has_color_layers(42));
    assert!(!font.has_color_layers(41));
    let layers = font.get_color_layers(42).unwrap();
    assert_eq!(layers.len(), 2);
    assert_eq!(layers[1].glyph_id, 101);
    assert!(font.get_color_layers(7).is_none());
    assert_eq!(font.get_cpal().unwrap().default_palette().unwrap()[0].red, 255);
    let cbdt = font.get_cbdt().unwrap();
    assert_eq!((cbdt.major_version, cbdt.minor_version), (3, 1));
    assert_eq!(font.get_svg().unwrap().version, 1);
    assert!(font.get_cmap().unwrap().get_glyph('A').is_none());
    assert!(font.get_glyph_outline(0).is_none());

    assert!(matches!(CbdtTable::parse(&[0, 3, 0]), Err(ParseError::CorruptedData(_))));
    assert!(matches!(SvgTable::parse(&[0; 9]), Err(ParseError::CorruptedData(_))));

    let sbix = OpenTypeFont::parse(build_sfnt(0x00010000, &[("sbix", vec![0; 8])])).unwrap();
    assert!(sbix.is_color_font());
    assert_eq!(sbix.get_color_formats(), vec![ColorFormat::Sbix]);
    assert!(!sbix.has_color_layers(42));
    let plain = OpenTypeFont::parse(build_sfnt(0x00010000, &[])).unwrap();
    assert!(!plain.is_color_font());
    assert!(plain.get_color_formats().is_empty());
}

#[test]
fn parse_error_messages() {
    assert_eq!(ParseError::InvalidFormat.to_string(), "Invalid font format");
    assert_eq!(ParseError::UnsupportedVersion.to_string(), "Unsupported font version");
    assert_eq!(
        ParseError::MissingTable("head".to_string()).to_string(),
        "Missing required table: head"
    );
    assert_eq!(ParseError::corrupted("x").to_string(), "Corrupted font data: x");
    let io = std::io::Error::new(std::io::ErrorKind::UnexpectedEof, "early end");
    assert_eq!(ParseError::from_io(&io), ParseError::CorruptedData("early end".to_string()));
    assert_eq!(ParseError::from(io), ParseError::CorruptedData("early end".to_string()));
}

#[test]
fn tags_are_ordered_by_their_bytes() {
    let head = Tag::new("head").unwrap();
    let hhea = Tag::new("hhea").unwrap();
    let cpal = Tag::new("CPAL").unwrap();
    assert!(head < hhea);
    assert!(hhea > head);
    assert!(cpal < head);
    assert!(head <= head && head >= head);
    assert_eq!(head.partial_cmp(&hhea), Some(std::cmp::Ordering::Less));
    assert_eq!(head.partial_cmp(&head), Some(std::cmp::Ordering::Equal));
    assert_eq!(hhea.partial_cmp(&cpal), Some(std::cmp::Ordering::Greater));
    // The derived total order agrees with the order of the integers.
    let mut tags = vec![hhea, Tag::from_bytes(0xFFFF_FFFF), head, Tag::from_bytes(0), cpal];
    tags.sort();
    let numbers: Vec<u32> = tags.iter().map(|t| t.to_bytes()).collect();
    let mut sorted = numbers.clone();
    sorted.sort();
    assert_eq!(numbers, sorted);
    assert_eq!(tags[0].to_bytes(), 0);
    assert_eq!(tags[4].to_bytes(), 0xFFFF_FFFF);
}

#[test]
fn fvar_rejects_an_axis_whose_default_lies_outside_its_range() {
    let table = |min: f32, default: f32, max: f32| {
        let mut data = fvar_header(1, 16, 1, 20, 0, 0);
        push_axis(&mut data, "wght", min, default, max, 256);
        data
    };
    let parsed = FvarTable::parse(&table(100.0, 400.0, 900.0)).unwrap();
    assert_eq!(parsed.axes[0].default_value, 400 * 65536);
    assert!(FvarTable::parse(&table(400.0, 400.0, 400.0)).is_ok());
    assert!(FvarTable::parse(&table(-1.0, -1.0, 1.0)).is_ok());
    assert_eq!(
        FvarTable::parse(&table(500.0, 400.0, 900.0)),
        Err(ParseError::CorruptedData("axis default outside its range".to_string()))
    );
    assert_eq!(
        FvarTable::parse(&table(100.0, 950.0, 900.0)),
        Err(ParseError::CorruptedData("axis default outside its range".to_string()))
    );
    assert!(matches!(
        FvarTable::parse(&table(900.0, 400.0, 100.0)),
        Err(ParseError::CorruptedData(_))
    ));
    // A later axis is held to the rule too.
    let mut two = fvar_header(1, 16, 2, 20, 0, 0);
    push_axis(&mut two, "wght", 100.0, 400.0, 900.0, 256);
    push_axis(&mut two, "wdth", 100.0, 50.0, 125.0, 257);
    assert!(matches!(FvarTable::parse(&two), Err(ParseError::CorruptedData(_))));
}
