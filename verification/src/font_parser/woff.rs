//! WOFF 1.0 containers: a table directory followed by tables that are each
//! stored raw or zlib-compressed. Decoding rebuilds the sfnt that the
//! container wraps.

use flate2::read::ZlibDecoder;
use std::io::Read;
use vstd::prelude::*;
use vstd::string::StringExecFns;
use vstd::utf8::{decode_utf8, valid_utf8};
use crate::font_parser::bytes::{
    expect_u16,
    expect_u32,
    fits,
    push_u16,
    push_u32,
    spec_be_u16,
    spec_be_u32,
    spec_u16_be_bytes,
    spec_u32_be_bytes,
    utf8_str,
};
use crate::font_parser::error::ParseError;

verus! {

/// The signature `wOFF` as a big-endian integer.
pub const WOFF_SIGNATURE: u32 = 0x774F_4646;

/// Length in bytes of the WOFF header.
pub const WOFF_HEADER_LEN: usize = 44;

/// One entry of the WOFF table directory.
#[derive(Debug, Clone, Copy)]
pub struct WoffTableEntry {
    /// Table tag.
    pub tag: u32,
    /// Offset of the stored table from the start of the container.
    pub offset: u32,
    /// Length of the table as stored.
    pub comp_length: u32,
    /// Length of the table once decompressed.
    pub orig_length: u32,
    /// Checksum of the decompressed table; copied into the sfnt directory.
    pub orig_checksum: u32,
}

/// A decoded WOFF container.
#[derive(Debug, Clone)]
pub struct WoffFont {
    /// The sfnt rebuilt from the container.
    pub ttf_data: Vec<u8>,
    /// The container's metadata document, when it has one.
    pub metadata: Option<String>,
}

/// What the zlib decoder reads from a compressed stream, or nothing when
/// the decoder reports an error.
pub uninterp spec fn zlib_inflated(compressed: Seq<u8>) -> Option<Seq<u8>>;

/// `flate2::read::ZlibDecoder` read to its end over `compressed`: the
/// inflated bytes, or nothing when the decoder reports an error.
#[verifier::external_body]
pub(crate) fn zlib_inflate(compressed: &[u8]) -> (r: Option<Vec<u8>>)
    ensures
        r is Some <==> zlib_inflated(compressed@) is Some,
        r matches Some(v) ==> Some(v@) == zlib_inflated(compressed@),
{
    let mut inflated = Vec::new();
    match ZlibDecoder::new(compressed).read_to_end(&mut inflated) {
        Ok(_) => Some(inflated),
        Err(_) => None,
    }
}

/// `n` zero bytes.
pub open spec fn spec_zeros(n: int) -> Seq<u8> {
    Seq::new(n as nat, |i: int| 0u8)
}

/// Number of zero bytes that pad a table of `len` bytes to a multiple of four.
pub open spec fn spec_padding(len: int) -> int {
    (4 - len % 4) % 4
}

/// The smallest of `p, 2p, 4p, ...` that is at least `n`.
pub open spec fn spec_power_at_least(n: int, p: int) -> int
    decreases
            if n > p {
                n - p
            } else {
                0
            },
{
    if p > 0 && p < n {
        spec_power_at_least(n, p + p)
    } else {
        p
    }
}

/// The number of times `n` can be halved before it reaches one: the
/// exponent of the largest power of two that is at most `n`.
pub open spec fn spec_floor_log2(n: int) -> int
    decreases n,
{
    if n <= 1 {
        0
    } else {
        1 + spec_floor_log2(n / 2)
    }
}

/// The `searchRange` field written for `n` tables: sixteen times the
/// smallest power of two that is at least `n`, kept to 16 bits.
pub open spec fn spec_search_range(n: int) -> int {
    if n == 0 {
        0
    } else {
        (spec_power_at_least(n, 1) * 16) % 0x1_0000
    }
}

/// The `rangeShift` field written for `n` tables: sixteen times `n`, kept
/// to 16 bits, less the search range, and zero where that would be negative.
pub open spec fn spec_range_shift(n: int) -> int {
    let total = (n * 16) % 0x1_0000;
    if total >= spec_search_range(n) {
        total - spec_search_range(n)
    } else {
        0
    }
}

/// The twelve bytes of the sfnt header for `n` tables.
pub open spec fn spec_sfnt_header(flavor: u32, n: u16) -> Seq<u8> {
    spec_u32_be_bytes(flavor) + spec_u16_be_bytes(n) + spec_u16_be_bytes(
        spec_search_range(n as int) as u16,
    ) + spec_u16_be_bytes(spec_floor_log2(n as int) as u16) + spec_u16_be_bytes(
        spec_range_shift(n as int) as u16,
    )
}

/// Offset of table `k` in the rebuilt sfnt: the tables follow the header
/// and the directory, each starting on a multiple of four.
pub open spec fn spec_sfnt_offset(entries: Seq<WoffTableEntry>, k: int) -> int
    decreases k,
{
    if k <= 0 {
        12 + 16 * (entries.len() as int)
    } else {
        let end = spec_sfnt_offset(entries, k - 1) + entries[k - 1].orig_length;
        end + spec_padding(end)
    }
}

/// The sfnt directory entries of the first `k` tables: tag, checksum,
/// offset in the sfnt and unpadded length of each.
pub open spec fn spec_sfnt_directory(entries: Seq<WoffTableEntry>, k: int) -> Seq<u8>
    decreases k,
{
    if k <= 0 {
        Seq::<u8>::empty()
    } else {
        spec_sfnt_directory(entries, k - 1) + spec_u32_be_bytes(entries[k - 1].tag)
            + spec_u32_be_bytes(entries[k - 1].orig_checksum) + spec_u32_be_bytes(
            spec_sfnt_offset(entries, k - 1) as u32,
        ) + spec_u32_be_bytes(entries[k - 1].orig_length)
    }
}

/// Whether the sfnt offsets of the first `k` tables fit in 32 bits.
pub open spec fn spec_sfnt_offsets_fit(entries: Seq<WoffTableEntry>, k: int) -> bool {
    forall|j: int| 0 <= j < k ==> #[trigger] spec_sfnt_offset(entries, j) <= u32::MAX
}

/// The decompressed bytes of one table: the stored bytes themselves when
/// the stored length is not below the original length, and what they
/// inflate to otherwise. Nothing when the stored bytes reach past the end
/// of the container, do not inflate, or differ in length from the
/// original length that the directory announces.
pub open spec fn spec_woff_table(woff: Seq<u8>, entry: WoffTableEntry) -> Option<Seq<u8>> {
    if entry.offset + entry.comp_length > woff.len() {
        None
    } else {
        let stored = woff.subrange(
            entry.offset as int,
            entry.offset as int + entry.comp_length as int,
        );
        let table = if entry.comp_length < entry.orig_length {
            zlib_inflated(stored)
        } else {
            Some(stored)
        };
        match table {
            Some(bytes) => if bytes.len() == entry.orig_length {
                Some(bytes)
            } else {
                None
            },
            None => None,
        }
    }
}

/// Whether each of the first `k` tables can be decompressed.
pub open spec fn spec_woff_tables_ok(woff: Seq<u8>, entries: Seq<WoffTableEntry>, k: int) -> bool {
    forall|j: int| 0 <= j < k ==> (#[trigger] spec_woff_table(woff, entries[j])) is Some
}

/// The first `k` tables, decompressed and each padded with zero bytes to a
/// multiple of four.
pub open spec fn spec_sfnt_bodies(woff: Seq<u8>, entries: Seq<WoffTableEntry>, k: int) -> Seq<u8>
    decreases k,
{
    if k <= 0 {
        Seq::<u8>::empty()
    } else {
        let table = spec_woff_table(woff, entries[k - 1])->0;
        spec_sfnt_bodies(woff, entries, k - 1) + table + spec_zeros(spec_padding(table.len() as int))
    }
}

/// Whether the tables that `entries` describe can be rebuilt into an sfnt.
pub open spec fn spec_sfnt_rebuildable(woff: Seq<u8>, entries: Seq<WoffTableEntry>) -> bool {
    &&& spec_sfnt_offsets_fit(entries, entries.len() as int)
    &&& spec_woff_tables_ok(woff, entries, entries.len() as int)
}

/// The sfnt rebuilt from a WOFF container: header, directory, tables.
pub open spec fn spec_sfnt_rebuilt(woff: Seq<u8>, entries: Seq<WoffTableEntry>, flavor: u32) -> Seq<
    u8,
> {
    spec_sfnt_header(flavor, entries.len() as u16) + spec_sfnt_directory(
        entries,
        entries.len() as int,
    ) + spec_sfnt_bodies(woff, entries, entries.len() as int)
}

/// Number of tables, from the WOFF header.
pub open spec fn spec_woff_table_count(data: Seq<u8>) -> int {
    spec_be_u16(data, 12)
}

/// Entry `i` of the WOFF table directory.
pub open spec fn spec_woff_entry(data: Seq<u8>, i: int) -> WoffTableEntry {
    WoffTableEntry {
        tag: spec_be_u32(data, 44 + 20 * i) as u32,
        offset: spec_be_u32(data, 44 + 20 * i + 4) as u32,
        comp_length: spec_be_u32(data, 44 + 20 * i + 8) as u32,
        orig_length: spec_be_u32(data, 44 + 20 * i + 12) as u32,
        orig_checksum: spec_be_u32(data, 44 + 20 * i + 16) as u32,
    }
}

/// The WOFF table directory.
pub open spec fn spec_woff_entries(data: Seq<u8>) -> Seq<WoffTableEntry> {
    Seq::new(spec_woff_table_count(data) as nat, |i: int| spec_woff_entry(data, i))
}

/// Whether the container announces a metadata block.
pub open spec fn spec_woff_has_metadata(data: Seq<u8>) -> bool {
    spec_be_u32(data, 24) > 0 && spec_be_u32(data, 28) > 0
}

/// The metadata document: the announced block, inflated and read as UTF-8.
/// Nothing when the block reaches past the end of the container, does not
/// inflate, or is not well-formed UTF-8.
pub open spec fn spec_woff_metadata(data: Seq<u8>) -> Option<Seq<char>> {
    let offset = spec_be_u32(data, 24);
    let length = spec_be_u32(data, 28);
    if offset + length > data.len() {
        None
    } else {
        match zlib_inflated(data.subrange(offset, offset + length)) {
            Some(bytes) => if valid_utf8(bytes) {
                Some(decode_utf8(bytes))
            } else {
                None
            },
            None => None,
        }
    }
}

/// Whether the container does not start with the signature `wOFF`.
pub open spec fn spec_woff_bad_signature(data: Seq<u8>) -> bool {
    data.len() >= 4 && spec_be_u32(data, 0) != WOFF_SIGNATURE
}

/// Whether `data` is a WOFF container that can be decoded.
pub open spec fn spec_woff_valid(data: Seq<u8>) -> bool {
    &&& data.len() >= 44
    &&& !spec_woff_bad_signature(data)
    &&& 44 + 20 * spec_woff_table_count(data) <= data.len()
    &&& spec_sfnt_rebuildable(data, spec_woff_entries(data))
    &&& spec_woff_has_metadata(data) ==> spec_woff_metadata(data) is Some
}

/// The smallest power of two that is at least `n`, for `n` of 16 bits.
fn power_at_least(n: u16) -> (p: u32)
    ensures
        p == spec_power_at_least(n as int, 1),
        1 <= p <= 0x1_0000,
{
    let mut p: u32 = 1;
    let mut e: u32 = 0;
    proof {
        lemma_pow2_bound(0);
    }
    while e < 16 && p < n as u32
        invariant
            e <= 16,
            p == spec_pow2(e as int),
            1 <= p <= 0x1_0000,
            e == 16 ==> p == 0x1_0000,
            spec_power_at_least(n as int, 1) == spec_power_at_least(n as int, p as int),
        decreases 16 - e,
    {
        proof {
            lemma_pow2_bound(e as int);
            lemma_pow2_bound(e as int + 1);
            lemma_pow2_step(e as int);
        }
        p = p * 2;
        e = e + 1;
    }
    p
}

/// The exponent of the largest power of two that is at most `n`.
fn floor_log2(n: u16) -> (e: u16)
    ensures
        e == spec_floor_log2(n as int),
        e <= 15,
{
    let mut rest: u16 = n;
    let mut e: u16 = 0;
    while rest > 1
        invariant
            spec_floor_log2(n as int) == e + spec_floor_log2(rest as int),
            e <= 15,
            rest as int * spec_pow2(e as int) <= 0xFFFF,
        decreases rest,
    {
        proof {
            lemma_pow2_step(e as int);
            assert((rest / 2) as int * (2 * spec_pow2(e as int)) <= rest as int * spec_pow2(
                e as int,
            )) by (nonlinear_arith)
                requires
                    spec_pow2(e as int) >= 1,
                    rest >= 0,
            ;
            if e == 15 {
                lemma_pow2_values();
            }
        }
        rest = rest / 2;
        e = e + 1;
    }
    e
}

/// Two to the power `e`.
pub open spec fn spec_pow2(e: int) -> int
    decreases e,
{
    if e <= 0 {
        1
    } else {
        2 * spec_pow2(e - 1)
    }
}

/// `spec_pow2` doubles with each step and is positive.
proof fn lemma_pow2_step(e: int)
    requires
        e >= 0,
    ensures
        spec_pow2(e + 1) == 2 * spec_pow2(e),
        spec_pow2(e) >= 1,
    decreases e,
{
    if e > 0 {
        lemma_pow2_step(e - 1);
    }
}

/// Two to the sixteenth is 65536.
proof fn lemma_pow2_values()
    ensures
        spec_pow2(16) == 0x1_0000,
{
    reveal_with_fuel(spec_pow2, 18);
}

/// Powers of two up to the sixteenth stay within 65536.
proof fn lemma_pow2_bound(e: int)
    requires
        0 <= e <= 16,
    ensures
        1 <= spec_pow2(e) <= 0x1_0000,
        e < 16 ==> spec_pow2(e) <= 0x8000,
        e == 16 ==> spec_pow2(e) == 0x1_0000,
    decreases 16 - e,
{
    if e < 16 {
        lemma_pow2_bound(e + 1);
        lemma_pow2_step(e);
    } else {
        lemma_pow2_values();
    }
}

/// The end of a table of `length` bytes at `offset`, rounded up to a
/// multiple of four.
fn padded_end(offset: u64, length: u32) -> (next: u64)
    requires
        offset <= 0xFFFF_FFFF,
    ensures
        next == offset + length + spec_padding(offset + length),
        next % 4 == 0,
        next <= offset + length + 3,
{
    let end: u64 = offset + length as u64;
    (end + 3) / 4 * 4
}

/// The offset of table `k + 1` is the padded end of table `k`.
proof fn lemma_offset_step(entries: Seq<WoffTableEntry>, k: int)
    requires
        0 <= k,
    ensures
        spec_sfnt_offset(entries, k + 1) == spec_sfnt_offset(entries, k) + entries[k].orig_length
            + spec_padding(spec_sfnt_offset(entries, k) + entries[k].orig_length),
{
}

/// Concatenation of byte sequences is associative.
proof fn lemma_concat_assoc(a: Seq<u8>, b: Seq<u8>, c: Seq<u8>)
    ensures
        (a + b) + c == a + (b + c),
{
    assert((a + b) + c =~= a + (b + c));
}

/// Appends one sfnt directory entry to `out`.
fn push_directory_entry(out: &mut Vec<u8>, tag: u32, checksum: u32, offset: u32, length: u32)
    ensures
        final(out)@ == old(out)@ + (spec_u32_be_bytes(tag) + spec_u32_be_bytes(checksum)
            + spec_u32_be_bytes(offset) + spec_u32_be_bytes(length)),
        final(out)@.len() == old(out)@.len() + 16,
{
    push_u32(out, tag);
    push_u32(out, checksum);
    push_u32(out, offset);
    push_u32(out, length);
    assert(out@ =~= old(out)@ + (spec_u32_be_bytes(tag) + spec_u32_be_bytes(checksum)
        + spec_u32_be_bytes(offset) + spec_u32_be_bytes(length)));
}

/// The directory of `k + 1` tables is the directory of `k` tables followed
/// by the entry of table `k`.
proof fn lemma_directory_step(entries: Seq<WoffTableEntry>, k: int)
    requires
        0 <= k,
    ensures
        spec_sfnt_directory(entries, k + 1) == spec_sfnt_directory(entries, k) + (
        spec_u32_be_bytes(entries[k].tag) + spec_u32_be_bytes(entries[k].orig_checksum)
            + spec_u32_be_bytes(spec_sfnt_offset(entries, k) as u32) + spec_u32_be_bytes(
            entries[k].orig_length,
        )),
        spec_sfnt_directory(entries, k).len() == 16 * k,
    decreases k,
{
    let d = spec_sfnt_directory(entries, k);
    let a = spec_u32_be_bytes(entries[k].tag);
    let b = spec_u32_be_bytes(entries[k].orig_checksum);
    let c = spec_u32_be_bytes(spec_sfnt_offset(entries, k) as u32);
    let e = spec_u32_be_bytes(entries[k].orig_length);
    assert(d + a + b + c + e =~= d + (a + b + c + e));
    if k > 0 {
        lemma_directory_step(entries, k - 1);
    }
}

impl WoffFont {
    /// Decodes a WOFF container and rebuilds the sfnt that it wraps.
    ///
    /// Fails with `InvalidFormat` when the container does not start with the
    /// signature `wOFF`, and with `CorruptedData` when the header, the
    /// directory, a table or the metadata block runs past the end of `data`,
    /// a table or the metadata does not decompress, a decompressed table
    /// differs in length from what the directory announces, or the rebuilt
    /// sfnt would need an offset beyond 32 bits.
    pub fn parse(data: &[u8]) -> (r: Result<WoffFont, ParseError>)
        ensures
            r is Ok <==> spec_woff_valid(data@),
            r matches Ok(font) ==> {
                &&& font.ttf_data@ == spec_sfnt_rebuilt(
                    data@,
                    spec_woff_entries(data@),
                    spec_be_u32(data@, 4) as u32,
                )
                &&& font.metadata is Some <==> spec_woff_has_metadata(data@)
                &&& font.metadata matches Some(text) ==> Some(text@) == spec_woff_metadata(data@)
            },
            r matches Err(e) ==> (e is InvalidFormat <==> spec_woff_bad_signature(data@)) && (e
                is InvalidFormat || e is CorruptedData),
    {
        let ghost bytes = data@;
        let len: usize = data.len();
        let signature: u32 = expect_u32(data, 0, "WOFF signature")?;
        if signature != WOFF_SIGNATURE {
            return Err(ParseError::InvalidFormat);
        }
        let flavor: u32 = expect_u32(data, 4, "WOFF flavor")?;
        let _length: u32 = expect_u32(data, 8, "WOFF length")?;
        let num_tables: u16 = expect_u16(data, 12, "WOFF table count")?;
        let _reserved: u16 = expect_u16(data, 14, "WOFF reserved field")?;
        let _total_sfnt_size: u32 = expect_u32(data, 16, "WOFF sfnt size")?;
        let _major_version: u16 = expect_u16(data, 20, "WOFF major version")?;
        let _minor_version: u16 = expect_u16(data, 22, "WOFF minor version")?;
        let meta_offset: u32 = expect_u32(data, 24, "WOFF metadata offset")?;
        let meta_length: u32 = expect_u32(data, 28, "WOFF metadata length")?;
        let meta_orig_length: u32 = expect_u32(data, 32, "WOFF metadata original length")?;
        let _priv_offset: u32 = expect_u32(data, 36, "WOFF private offset")?;
        let _priv_length: u32 = expect_u32(data, 40, "WOFF private length")?;

        if !fits(data, 44, 20 * (num_tables as u64)) {
            return Err(ParseError::corrupted("WOFF table directory"));
        }
        let mut tables: Vec<WoffTableEntry> = Vec::new();
        let mut i: usize = 0;
        while i < num_tables as usize
            invariant
                bytes == data@,
                len == bytes.len(),
                44 + 20 * num_tables <= bytes.len(),
                i <= num_tables,
                tables@.len() == i,
                forall|k: int| 0 <= k < i ==> #[trigger] tables@[k] == spec_woff_entry(bytes, k),
            decreases num_tables - i,
        {
            let at: usize = 44 + 20 * i;
            let tag: u32 = expect_u32(data, at, "WOFF table tag")?;
            let offset: u32 = expect_u32(data, at + 4, "WOFF table offset")?;
            let comp_length: u32 = expect_u32(data, at + 8, "WOFF table stored length")?;
            let orig_length: u32 = expect_u32(data, at + 12, "WOFF table original length")?;
            let orig_checksum: u32 = expect_u32(data, at + 16, "WOFF table checksum")?;
            tables.push(WoffTableEntry { tag, offset, comp_length, orig_length, orig_checksum });
            i = i + 1;
        }
        assert(tables@ =~= spec_woff_entries(bytes));

        let ttf_data: Vec<u8> = Self::reconstruct_sfnt(data, &tables, flavor, num_tables)?;

        let metadata: Option<String> = if meta_offset > 0 && meta_length > 0 {
            Some(
                Self::extract_metadata(
                    data,
                    meta_offset as usize,
                    meta_length as usize,
                    meta_orig_length as usize,
                )?,
            )
        } else {
            None
        };
        Ok(WoffFont { ttf_data, metadata })
    }

    /// Rebuilds the sfnt that the directory `tables` of the container
    /// `woff_data` describes: a header, one directory entry per table, and
    /// the decompressed tables, each padded to a multiple of four bytes.
    fn reconstruct_sfnt(
        woff_data: &[u8],
        tables: &Vec<WoffTableEntry>,
        flavor: u32,
        num_tables: u16,
    ) -> (r: Result<Vec<u8>, ParseError>)
        requires
            tables@.len() == num_tables,
        ensures
            r is Ok <==> spec_sfnt_rebuildable(woff_data@, tables@),
            r matches Ok(sfnt) ==> sfnt@ == spec_sfnt_rebuilt(woff_data@, tables@, flavor),
            r matches Err(e) ==> e is CorruptedData,
    {
        let ghost woff = woff_data@;
        let ghost entries = tables@;
        let search_range: u32 = if num_tables == 0 {
            0
        } else {
            power_at_least(num_tables) * 16
        };
        let entry_selector: u16 = if num_tables == 0 {
            0
        } else {
            floor_log2(num_tables)
        };
        let search_range_low: u16 = (search_range % 0x1_0000) as u16;
        let total_low: u16 = ((num_tables as u32 * 16) % 0x1_0000) as u16;
        let range_shift: u16 = if total_low >= search_range_low {
            total_low - search_range_low
        } else {
            0
        };

        let mut sfnt: Vec<u8> = Vec::new();
        push_u32(&mut sfnt, flavor);
        push_u16(&mut sfnt, num_tables);
        push_u16(&mut sfnt, search_range_low);
        push_u16(&mut sfnt, entry_selector);
        push_u16(&mut sfnt, range_shift);
        assert(sfnt@ == spec_sfnt_header(flavor, num_tables));

        let mut offset: u64 = 12 + 16 * (num_tables as u64);
        let mut k: usize = 0;
        while k < tables.len()
            invariant
                entries == tables@,
                entries.len() == num_tables,
                k <= entries.len(),
                offset == spec_sfnt_offset(entries, k as int),
                offset % 4 == 0,
                offset <= 12 + 16 * 0xFFFF + k * 0x1_0000_0004,
                spec_sfnt_offsets_fit(entries, k as int),
                sfnt@.len() == 12 + 16 * k,
                sfnt@ == spec_sfnt_header(flavor, num_tables) + spec_sfnt_directory(
                    entries,
                    k as int,
                ),
            decreases entries.len() - k,
        {
            if offset > 0xFFFF_FFFF {
                return Err(ParseError::corrupted("sfnt offset exceeds 32 bits"));
            }
            let table: WoffTableEntry = tables[k];
            push_directory_entry(
                &mut sfnt,
                table.tag,
                table.orig_checksum,
                offset as u32,
                table.orig_length,
            );
            proof {
                lemma_directory_step(entries, k as int);
                lemma_concat_assoc(
                    spec_sfnt_header(flavor, num_tables),
                    spec_sfnt_directory(entries, k as int),
                    spec_u32_be_bytes(table.tag) + spec_u32_be_bytes(table.orig_checksum)
                        + spec_u32_be_bytes(offset as u32) + spec_u32_be_bytes(table.orig_length),
                );
            }
            offset = padded_end(offset, table.orig_length);
            proof {
                lemma_offset_step(entries, k as int);
            }
            k = k + 1;
        }

        let ghost directory_end = sfnt@;
        let len: usize = woff_data.len();
        let mut t: usize = 0;
        while t < tables.len()
            invariant
                woff == woff_data@,
                len == woff.len(),
                entries == tables@,
                t <= entries.len(),
                spec_sfnt_offsets_fit(entries, entries.len() as int),
                spec_woff_tables_ok(woff, entries, t as int),
                directory_end.len() % 4 == 0,
                sfnt@.len() % 4 == 0,
                sfnt@ == directory_end + spec_sfnt_bodies(woff, entries, t as int),
            decreases entries.len() - t,
        {
            let table: WoffTableEntry = tables[t];
            if !fits(woff_data, table.offset as u64, table.comp_length as u64) {
                proof {
                    assert(spec_woff_table(woff, entries[t as int]) is None);
                }
                return Err(ParseError::corrupted("WOFF table out of range"));
            }
            let start: usize = table.offset as usize;
            let stop: usize = start + table.comp_length as usize;
            let comp_data: &[u8] = vstd::slice::slice_subrange(woff_data, start, stop);
            let decompressed: Vec<u8> = if table.comp_length < table.orig_length {
                match zlib_inflate(comp_data) {
                    Some(v) => v,
                    None => {
                        proof {
                            assert(spec_woff_table(woff, entries[t as int]) is None);
                        }
                        return Err(ParseError::corrupted("WOFF table does not inflate"));
                    },
                }
            } else {
                vstd::slice::slice_to_vec(comp_data)
            };
            if decompressed.len() != table.orig_length as usize {
                proof {
                    assert(spec_woff_table(woff, entries[t as int]) is None);
                }
                return Err(ParseError::corrupted("Decompression size mismatch"));
            }
            proof {
                assert(spec_woff_table(woff, entries[t as int]) == Some(decompressed@));
            }
            let ghost before = sfnt@;
            let mut c: usize = 0;
            while c < decompressed.len()
                invariant
                    c <= decompressed@.len(),
                    sfnt@ == before + decompressed@.subrange(0, c as int),
                decreases decompressed@.len() - c,
            {
                sfnt.push(decompressed[c]);
                proof {
                    assert(sfnt@ =~= before + decompressed@.subrange(0, c as int + 1));
                }
                c = c + 1;
            }
            proof {
                assert(decompressed@.subrange(0, decompressed@.len() as int) =~= decompressed@);
            }
            let ghost unpadded = sfnt@;
            let ghost pad = spec_padding(decompressed@.len() as int);
            let mut z: usize = 0;
            while sfnt.len() % 4 != 0
                invariant
                    before.len() % 4 == 0,
                    unpadded == before + decompressed@,
                    pad == spec_padding(decompressed@.len() as int),
                    0 <= z <= pad,
                    sfnt@ == unpadded + spec_zeros(z as int),
                    unpadded.len() % 4 == decompressed@.len() % 4,
                decreases pad - z,
            {
                sfnt.push(0);
                proof {
                    assert(sfnt@ =~= unpadded + spec_zeros(z as int + 1));
                }
                z = z + 1;
            }
            proof {
                assert(z == pad);
                assert(sfnt@ =~= directory_end + spec_sfnt_bodies(woff, entries, t as int + 1));
            }
            t = t + 1;
        }
        Ok(sfnt)
    }

    /// The metadata document stored in `comp_length` bytes at `offset`:
    /// inflated and read as UTF-8.
    pub fn extract_metadata(
        woff_data: &[u8],
        offset: usize,
        comp_length: usize,
        _orig_length: usize,
    ) -> (r: Result<String, ParseError>)
        ensures
            r is Ok <==> offset + comp_length <= woff_data@.len() && zlib_inflated(
                woff_data@.subrange(offset as int, offset + comp_length),
            ) is Some && valid_utf8(
                zlib_inflated(woff_data@.subrange(offset as int, offset + comp_length))->0,
            ),
            r matches Ok(text) ==> text@ == decode_utf8(
                zlib_inflated(woff_data@.subrange(offset as int, offset + comp_length))->0,
            ),
            r matches Err(e) ==> e is CorruptedData,
    {
        let len: usize = woff_data.len();
        if !fits(woff_data, offset as u64, comp_length as u64) {
            return Err(ParseError::corrupted("WOFF metadata out of range"));
        }
        let comp_data: &[u8] = vstd::slice::slice_subrange(
            woff_data,
            offset,
            offset + comp_length,
        );
        let inflated: Vec<u8> = match zlib_inflate(comp_data) {
            Some(v) => v,
            None => {
                return Err(ParseError::corrupted("WOFF metadata does not inflate"));
            },
        };
        match utf8_str(inflated.as_slice()) {
            Some(text) => {
                proof {
                    vstd::utf8::encode_utf8_decode_utf8(text@);
                }
                Ok(String::from_str(text))
            },
            None => Err(ParseError::corrupted("WOFF metadata is not UTF-8")),
        }
    }
}

} // verus!
