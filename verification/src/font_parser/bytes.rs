//! Big-endian integer decoding over byte slices.
//!
//! Every table in a font container stores its integers big-endian. The
//! functions here read one integer at a byte offset and report `None` when
//! the integer would run past the end of the data.

use byteorder::{BigEndian, ByteOrder};
use vstd::prelude::*;
use vstd::utf8::{encode_utf8, valid_utf8};
use crate::font_parser::error::ParseError;

verus! {

/// The unsigned 16-bit big-endian integer stored at `at`.
pub open spec fn spec_be_u16(bytes: Seq<u8>, at: int) -> int {
    bytes[at] as int * 256 + bytes[at + 1] as int
}

/// The unsigned 32-bit big-endian integer stored at `at`.
pub open spec fn spec_be_u32(bytes: Seq<u8>, at: int) -> int {
    ((bytes[at] as int * 256 + bytes[at + 1] as int) * 256 + bytes[at + 2] as int) * 256
        + bytes[at + 3] as int
}

/// The signed (two's complement) 16-bit big-endian integer stored at `at`.
pub open spec fn spec_be_i16(bytes: Seq<u8>, at: int) -> int {
    let u = spec_be_u16(bytes, at);
    if u >= 0x8000 {
        u - 0x1_0000
    } else {
        u
    }
}

/// The signed (two's complement) 32-bit big-endian integer stored at `at`.
pub open spec fn spec_be_i32(bytes: Seq<u8>, at: int) -> int {
    let u = spec_be_u32(bytes, at);
    if u >= 0x8000_0000 {
        u - 0x1_0000_0000
    } else {
        u
    }
}

/// `byteorder::BigEndian::read_u16` on the bytes from `at` on: the first two
/// bytes of that slice, most significant first. The crate panics on a slice
/// shorter than two bytes, which the precondition rules out.
#[verifier::external_body]
fn be_u16_unchecked(bytes: &[u8], at: usize) -> (v: u16)
    requires
        at + 2 <= bytes@.len(),
    ensures
        v as int == spec_be_u16(bytes@, at as int),
{
    BigEndian::read_u16(&bytes[at..])
}

/// `byteorder::BigEndian::read_u32` on the bytes from `at` on: the first four
/// bytes of that slice, most significant first. The crate panics on a slice
/// shorter than four bytes, which the precondition rules out.
#[verifier::external_body]
fn be_u32_unchecked(bytes: &[u8], at: usize) -> (v: u32)
    requires
        at + 4 <= bytes@.len(),
    ensures
        v as int == spec_be_u32(bytes@, at as int),
{
    BigEndian::read_u32(&bytes[at..])
}

/// `byteorder::BigEndian::read_i16` on the bytes from `at` on: the unsigned
/// reading of the first two bytes, reinterpreted as two's complement.
#[verifier::external_body]
fn be_i16_unchecked(bytes: &[u8], at: usize) -> (v: i16)
    requires
        at + 2 <= bytes@.len(),
    ensures
        v as int == spec_be_i16(bytes@, at as int),
{
    BigEndian::read_i16(&bytes[at..])
}

/// `byteorder::BigEndian::read_i32` on the bytes from `at` on: the unsigned
/// reading of the first four bytes, reinterpreted as two's complement.
#[verifier::external_body]
fn be_i32_unchecked(bytes: &[u8], at: usize) -> (v: i32)
    requires
        at + 4 <= bytes@.len(),
    ensures
        v as int == spec_be_i32(bytes@, at as int),
{
    BigEndian::read_i32(&bytes[at..])
}

/// `core::str::from_utf8`: the string whose UTF-8 encoding is `bytes`, when
/// `bytes` is well-formed UTF-8, and nothing otherwise.
#[verifier::external_body]
pub(crate) fn utf8_str(bytes: &[u8]) -> (r: Option<&str>)
    ensures
        r is Some <==> valid_utf8(bytes@),
        r matches Some(s) ==> encode_utf8(s@) == bytes@,
{
    core::str::from_utf8(bytes).ok()
}

/// Whether `width` bytes starting at `at` lie inside `bytes`.
pub open spec fn spec_in_bounds(bytes: Seq<u8>, at: int, width: int) -> bool {
    0 <= at && at + width <= bytes.len()
}

/// Whether `width` bytes starting at `at` lie inside `bytes`.
pub fn in_bounds(bytes: &[u8], at: usize, width: usize) -> (ok: bool)
    ensures
        ok == spec_in_bounds(bytes@, at as int, width as int),
{
    at <= bytes.len() && width <= bytes.len() - at
}

/// Reads the byte at `at`.
pub fn read_u8(bytes: &[u8], at: usize) -> (r: Option<u8>)
    ensures
        r is Some <==> spec_in_bounds(bytes@, at as int, 1),
        r matches Some(v) ==> v == bytes@[at as int],
{
    if in_bounds(bytes, at, 1) {
        Some(bytes[at])
    } else {
        None
    }
}

/// Reads an unsigned 16-bit big-endian integer at `at`.
pub fn read_u16(bytes: &[u8], at: usize) -> (r: Option<u16>)
    ensures
        r is Some <==> spec_in_bounds(bytes@, at as int, 2),
        r matches Some(v) ==> v as int == spec_be_u16(bytes@, at as int),
{
    if in_bounds(bytes, at, 2) {
        Some(be_u16_unchecked(bytes, at))
    } else {
        None
    }
}

/// Reads an unsigned 32-bit big-endian integer at `at`.
pub fn read_u32(bytes: &[u8], at: usize) -> (r: Option<u32>)
    ensures
        r is Some <==> spec_in_bounds(bytes@, at as int, 4),
        r matches Some(v) ==> v as int == spec_be_u32(bytes@, at as int),
{
    if in_bounds(bytes, at, 4) {
        Some(be_u32_unchecked(bytes, at))
    } else {
        None
    }
}

/// Reads a signed 16-bit big-endian integer at `at`.
pub fn read_i16(bytes: &[u8], at: usize) -> (r: Option<i16>)
    ensures
        r is Some <==> spec_in_bounds(bytes@, at as int, 2),
        r matches Some(v) ==> v as int == spec_be_i16(bytes@, at as int),
{
    if in_bounds(bytes, at, 2) {
        Some(be_i16_unchecked(bytes, at))
    } else {
        None
    }
}

/// Reads a signed 32-bit big-endian integer at `at`.
pub fn read_i32(bytes: &[u8], at: usize) -> (r: Option<i32>)
    ensures
        r is Some <==> spec_in_bounds(bytes@, at as int, 4),
        r matches Some(v) ==> v as int == spec_be_i32(bytes@, at as int),
{
    if in_bounds(bytes, at, 4) {
        Some(be_i32_unchecked(bytes, at))
    } else {
        None
    }
}

/// Whether `width` bytes starting at the 64-bit offset `at` lie inside `bytes`.
pub fn fits(bytes: &[u8], at: u64, width: u64) -> (ok: bool)
    ensures
        ok == spec_in_bounds(bytes@, at as int, width as int),
{
    let len: usize = bytes.len();
    match at.checked_add(width) {
        Some(end) => end <= len as u64,
        None => false,
    }
}

/// Reads an unsigned 16-bit integer at `at`, or reports corrupted data.
pub fn expect_u16(bytes: &[u8], at: usize, what: &str) -> (r: Result<u16, ParseError>)
    ensures
        r is Ok <==> spec_in_bounds(bytes@, at as int, 2),
        r matches Ok(v) ==> v as int == spec_be_u16(bytes@, at as int),
        r matches Err(e) ==> e is CorruptedData,
{
    match read_u16(bytes, at) {
        Some(v) => Ok(v),
        None => Err(ParseError::corrupted(what)),
    }
}

/// Reads an unsigned 32-bit integer at `at`, or reports corrupted data.
pub fn expect_u32(bytes: &[u8], at: usize, what: &str) -> (r: Result<u32, ParseError>)
    ensures
        r is Ok <==> spec_in_bounds(bytes@, at as int, 4),
        r matches Ok(v) ==> v as int == spec_be_u32(bytes@, at as int),
        r matches Err(e) ==> e is CorruptedData,
{
    match read_u32(bytes, at) {
        Some(v) => Ok(v),
        None => Err(ParseError::corrupted(what)),
    }
}

/// Reads a signed 32-bit integer at `at`, or reports corrupted data.
pub fn expect_i32(bytes: &[u8], at: usize, what: &str) -> (r: Result<i32, ParseError>)
    ensures
        r is Ok <==> spec_in_bounds(bytes@, at as int, 4),
        r matches Ok(v) ==> v as int == spec_be_i32(bytes@, at as int),
        r matches Err(e) ==> e is CorruptedData,
{
    match read_i32(bytes, at) {
        Some(v) => Ok(v),
        None => Err(ParseError::corrupted(what)),
    }
}

/// The four bytes of `value`, most significant first.
pub open spec fn spec_u32_be_bytes(value: u32) -> Seq<u8> {
    seq![
        (value / 0x100_0000) as u8,
        (value / 0x1_0000 % 0x100) as u8,
        (value / 0x100 % 0x100) as u8,
        (value % 0x100) as u8,
    ]
}

/// The two bytes of `value`, most significant first.
pub open spec fn spec_u16_be_bytes(value: u16) -> Seq<u8> {
    seq![(value / 0x100) as u8, (value % 0x100) as u8]
}

/// Appends the four big-endian bytes of `value` to `out`.
pub fn push_u32(out: &mut Vec<u8>, value: u32)
    ensures
        final(out)@ == old(out)@ + spec_u32_be_bytes(value),
{
    let b0: u8 = (value / 0x100_0000) as u8;
    let b1: u8 = (value / 0x1_0000 % 0x100) as u8;
    let b2: u8 = (value / 0x100 % 0x100) as u8;
    let b3: u8 = (value % 0x100) as u8;
    out.push(b0);
    out.push(b1);
    out.push(b2);
    out.push(b3);
    assert(out@ =~= old(out)@ + spec_u32_be_bytes(value));
}

/// Appends the two big-endian bytes of `value` to `out`.
pub fn push_u16(out: &mut Vec<u8>, value: u16)
    ensures
        final(out)@ == old(out)@ + spec_u16_be_bytes(value),
{
    let b0: u8 = (value / 0x100) as u8;
    let b1: u8 = (value % 0x100) as u8;
    out.push(b0);
    out.push(b1);
    assert(out@ =~= old(out)@ + spec_u16_be_bytes(value));
}

/// Reading back what `push_u32` wrote gives the value that was written.
pub proof fn lemma_u32_bytes_round_trip(value: u32)
    ensures
        spec_be_u32(spec_u32_be_bytes(value), 0) == value,
{
    let v: int = value as int;
    let b = spec_u32_be_bytes(value);
    assert(b[0] as int == v / 0x100_0000);
    assert(b[1] as int == v / 0x1_0000 % 0x100);
    assert(b[2] as int == v / 0x100 % 0x100);
    assert(b[3] as int == v % 0x100);
}

} // verus!
