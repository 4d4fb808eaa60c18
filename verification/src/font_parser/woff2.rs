//! WOFF 2.0 containers: a header followed by one Brotli stream that holds
//! every table.

use brotli::Decompressor;
use std::io::Read;
use vstd::prelude::*;
use vstd::string::StringExecFns;
use vstd::utf8::{decode_utf8, valid_utf8};
use crate::font_parser::bytes::{expect_u16, expect_u32, fits, spec_be_u32, utf8_str};
use crate::font_parser::error::ParseError;

verus! {

/// The signature `wOF2` as a big-endian integer.
pub const WOFF2_SIGNATURE: u32 = 0x774F_4632;

/// Length in bytes of the WOFF2 header.
pub const WOFF2_HEADER_LEN: usize = 48;

/// A decoded WOFF2 container.
#[derive(Debug, Clone)]
pub struct Woff2Font {
    /// The decompressed table data.
    pub ttf_data: Vec<u8>,
    /// The container's metadata document, when it has one.
    pub metadata: Option<String>,
}

/// What the Brotli decompressor reads from a compressed stream, or nothing
/// when the decompressor reports an error.
pub uninterp spec fn brotli_decompressed(compressed: Seq<u8>) -> Option<Seq<u8>>;

/// `brotli::Decompressor` with a 4096-byte buffer, read to its end over
/// `compressed`: the decompressed bytes, or nothing when the decompressor
/// reports an error.
#[verifier::external_body]
pub(crate) fn brotli_decompress(compressed: &[u8]) -> (r: Option<Vec<u8>>)
    ensures
        r is Some <==> brotli_decompressed(compressed@) is Some,
        r matches Some(v) ==> Some(v@) == brotli_decompressed(compressed@),
{
    let mut decompressed = Vec::new();
    match Decompressor::new(compressed, 4096).read_to_end(&mut decompressed) {
        Ok(_) => Some(decompressed),
        Err(_) => None,
    }
}

/// The bytes of the compressed stream: `totalCompressedSize` bytes that
/// follow the header.
pub open spec fn spec_woff2_stream(data: Seq<u8>) -> Seq<u8> {
    data.subrange(48, 48 + spec_be_u32(data, 20))
}

/// Whether the container announces a metadata block.
pub open spec fn spec_woff2_has_metadata(data: Seq<u8>) -> bool {
    spec_be_u32(data, 28) > 0 && spec_be_u32(data, 32) > 0
}

/// The document stored in `length` bytes at `offset`: decompressed and
/// read as UTF-8. Nothing when the block reaches past the end of the
/// container, does not decompress, or is not well-formed UTF-8.
pub open spec fn spec_brotli_text(data: Seq<u8>, offset: int, length: int) -> Option<Seq<char>> {
    if offset + length > data.len() {
        None
    } else {
        match brotli_decompressed(data.subrange(offset, offset + length)) {
            Some(bytes) => if valid_utf8(bytes) {
                Some(decode_utf8(bytes))
            } else {
                None
            },
            None => None,
        }
    }
}

/// The metadata document of the container.
pub open spec fn spec_woff2_metadata(data: Seq<u8>) -> Option<Seq<char>> {
    spec_brotli_text(data, spec_be_u32(data, 28), spec_be_u32(data, 32))
}

/// Whether the container does not start with the signature `wOF2`.
pub open spec fn spec_woff2_bad_signature(data: Seq<u8>) -> bool {
    data.len() >= 4 && spec_be_u32(data, 0) != WOFF2_SIGNATURE
}

/// Whether `data` is a WOFF2 container that can be decoded.
pub open spec fn spec_woff2_valid(data: Seq<u8>) -> bool {
    &&& data.len() >= 48
    &&& !spec_woff2_bad_signature(data)
    &&& 48 + spec_be_u32(data, 20) <= data.len()
    &&& brotli_decompressed(spec_woff2_stream(data)) is Some
    &&& spec_woff2_has_metadata(data) ==> spec_woff2_metadata(data) is Some
}

impl Woff2Font {
    /// Decodes a WOFF2 container.
    ///
    /// Fails with `InvalidFormat` when the container does not start with the
    /// signature `wOF2`, and with `CorruptedData` when the header, the
    /// compressed stream or the metadata block runs past the end of `data`,
    /// or the stream or the metadata does not decompress.
    pub fn parse(data: &[u8]) -> (r: Result<Woff2Font, ParseError>)
        ensures
            r is Ok <==> spec_woff2_valid(data@),
            r matches Ok(font) ==> {
                &&& Some(font.ttf_data@) == brotli_decompressed(spec_woff2_stream(data@))
                &&& font.metadata is Some <==> spec_woff2_has_metadata(data@)
                &&& font.metadata matches Some(text) ==> Some(text@) == spec_woff2_metadata(data@)
            },
            r matches Err(e) ==> (e is InvalidFormat <==> spec_woff2_bad_signature(data@)) && (e
                is InvalidFormat || e is CorruptedData),
    {
        let len: usize = data.len();
        let signature: u32 = expect_u32(data, 0, "WOFF2 signature")?;
        if signature != WOFF2_SIGNATURE {
            return Err(ParseError::InvalidFormat);
        }
        let flavor: u32 = expect_u32(data, 4, "WOFF2 flavor")?;
        let _length: u32 = expect_u32(data, 8, "WOFF2 length")?;
        let num_tables: u16 = expect_u16(data, 12, "WOFF2 table count")?;
        let _reserved: u16 = expect_u16(data, 14, "WOFF2 reserved field")?;
        let _total_sfnt_size: u32 = expect_u32(data, 16, "WOFF2 sfnt size")?;
        let total_compressed_size: u32 = expect_u32(data, 20, "WOFF2 compressed size")?;
        let _major_version: u16 = expect_u16(data, 24, "WOFF2 major version")?;
        let _minor_version: u16 = expect_u16(data, 26, "WOFF2 minor version")?;
        let meta_offset: u32 = expect_u32(data, 28, "WOFF2 metadata offset")?;
        let meta_length: u32 = expect_u32(data, 32, "WOFF2 metadata length")?;
        let _meta_orig_length: u32 = expect_u32(data, 36, "WOFF2 metadata original length")?;
        let _priv_offset: u32 = expect_u32(data, 40, "WOFF2 private offset")?;
        let _priv_length: u32 = expect_u32(data, 44, "WOFF2 private length")?;

        if !fits(data, 48, total_compressed_size as u64) {
            return Err(ParseError::corrupted("WOFF2 compressed stream out of range"));
        }
        let compressed_data: &[u8] = vstd::slice::slice_subrange(
            data,
            48,
            48 + total_compressed_size as usize,
        );
        let decompressed: Vec<u8> = match brotli_decompress(compressed_data) {
            Some(v) => v,
            None => {
                return Err(ParseError::corrupted("WOFF2 stream does not decompress"));
            },
        };
        let ttf_data: Vec<u8> = Self::reconstruct_sfnt(decompressed, flavor, num_tables)?;

        let metadata: Option<String> = if meta_offset > 0 && meta_length > 0 {
            Some(Self::extract_metadata(data, meta_offset as usize, meta_length as usize)?)
        } else {
            None
        };
        Ok(Woff2Font { ttf_data, metadata })
    }

    /// The table data of the container, given its decompressed stream. The
    /// stream is handed on as it is: transformed tables are not rebuilt.
    pub fn reconstruct_sfnt(decompressed: Vec<u8>, _flavor: u32, _num_tables: u16) -> (r: Result<
        Vec<u8>,
        ParseError,
    >)
        ensures
            r == Ok::<Vec<u8>, ParseError>(decompressed),
    {
        Ok(decompressed)
    }

    /// The metadata document stored in `comp_length` bytes at `offset`:
    /// decompressed and read as UTF-8.
    pub fn extract_metadata(woff2_data: &[u8], offset: usize, comp_length: usize) -> (r: Result<
        String,
        ParseError,
    >)
        ensures
            r is Ok <==> spec_brotli_text(woff2_data@, offset as int, comp_length as int) is Some,
            r matches Ok(text) ==> Some(text@) == spec_brotli_text(
                woff2_data@,
                offset as int,
                comp_length as int,
            ),
            r matches Err(e) ==> e is CorruptedData,
    {
        let len: usize = woff2_data.len();
        if !fits(woff2_data, offset as u64, comp_length as u64) {
            return Err(ParseError::corrupted("WOFF2 metadata out of range"));
        }
        let comp_data: &[u8] = vstd::slice::slice_subrange(
            woff2_data,
            offset,
            offset + comp_length,
        );
        let decompressed: Vec<u8> = match brotli_decompress(comp_data) {
            Some(v) => v,
            None => {
                return Err(ParseError::corrupted("WOFF2 metadata does not decompress"));
            },
        };
        match utf8_str(decompressed.as_slice()) {
            Some(text) => {
                proof {
                    vstd::utf8::encode_utf8_decode_utf8(text@);
                }
                Ok(String::from_str(text))
            },
            None => Err(ParseError::corrupted("WOFF2 metadata is not UTF-8")),
        }
    }
}

} // verus!
