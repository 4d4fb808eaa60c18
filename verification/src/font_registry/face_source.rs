//! What the registry reads from a font file before it registers a face.
//!
//! The values come from the `ttf-parser` crate. Each is named by a function
//! of the font bytes alone; the registry's contracts speak of those names.

use ttf_parser::Face;
use vstd::prelude::*;

verus! {

/// The debug text of the error with which `ttf-parser` rejects the bytes
/// as face 0 of a font, or nothing when it accepts them.
pub uninterp spec fn ttf_parse_failure(data: Seq<u8>) -> Option<Seq<char>>;

/// The records of the `name` table: name id and, where the record is
/// Unicode, its text.
pub uninterp spec fn ttf_name_records(data: Seq<u8>) -> Seq<(u16, Option<Seq<char>>)>;

/// The weight class of the face as a number.
pub uninterp spec fn ttf_weight_number(data: Seq<u8>) -> Option<u16>;

/// Whether the face is italic.
pub uninterp spec fn ttf_is_italic(data: Seq<u8>) -> Option<bool>;

/// Font units per em.
pub uninterp spec fn ttf_units_per_em(data: Seq<u8>) -> Option<u16>;

/// The ascender of the face.
pub uninterp spec fn ttf_ascender(data: Seq<u8>) -> Option<i16>;

/// The descender of the face.
pub uninterp spec fn ttf_descender(data: Seq<u8>) -> Option<i16>;

/// The line gap of the face.
pub uninterp spec fn ttf_line_gap(data: Seq<u8>) -> Option<i16>;

/// The height of capital letters, where the face records it.
pub uninterp spec fn ttf_capital_height(data: Seq<u8>) -> Option<Option<i16>>;

/// The height of lower-case letters, where the face records it.
pub uninterp spec fn ttf_x_height(data: Seq<u8>) -> Option<Option<i16>>;

/// Position and thickness of the underline, where the face records them.
pub uninterp spec fn ttf_underline_metrics(data: Seq<u8>) -> Option<Option<(i16, i16)>>;

/// The name records as mathematical values.
pub open spec fn spec_name_records(names: Seq<(u16, Option<String>)>) -> Seq<
    (u16, Option<Seq<char>>),
> {
    Seq::new(
        names.len(),
        |i: int|
            (
                names[i].0,
                match names[i].1 {
                    Some(text) => Some(text@),
                    None => None,
                },
            ),
    )
}

/// `ttf_parser::Face::parse` on face 0: succeeds, or fails with the
/// debug text of the parser's error.
#[verifier::external_body]
pub(crate) fn ttf_check(data: &[u8]) -> (r: Result<(), String>)
    ensures
        r is Ok <==> ttf_parse_failure(data@) is None,
        r matches Err(reason) ==> Some(reason@) == ttf_parse_failure(data@),
{
    match Face::parse(data, 0) {
        Ok(_) => Ok(()),
        Err(e) => Err(format!("{:?}", e)),
    }
}

/// `ttf_parser::Face::names`, each record given as its name id and the
/// result of `Name::to_string`. A font that does not parse has no records.
#[verifier::external_body]
pub(crate) fn ttf_names(data: &[u8]) -> (names: Vec<(u16, Option<String>)>)
    ensures
        spec_name_records(names@) == ttf_name_records(data@),
{
    match Face::parse(data, 0) {
        Ok(face) => face.names().into_iter().map(|name| (name.name_id, name.to_string())).collect(),
        Err(_) => Vec::new(),
    }
}

/// `ttf_parser::Face::weight`, as the number that `Weight::to_number` gives.
#[verifier::external_body]
pub(crate) fn ttf_weight(data: &[u8]) -> (r: Option<u16>)
    ensures
        r == ttf_weight_number(data@),
        r is Some <==> ttf_parse_failure(data@) is None,
{
    Face::parse(data, 0).ok().map(|face| face.weight().to_number())
}

/// `ttf_parser::Face::is_italic`.
#[verifier::external_body]
pub(crate) fn ttf_italic(data: &[u8]) -> (r: Option<bool>)
    ensures
        r == ttf_is_italic(data@),
        r is Some <==> ttf_parse_failure(data@) is None,
{
    Face::parse(data, 0).ok().map(|face| face.is_italic())
}

/// `ttf_parser::Face::units_per_em`.
#[verifier::external_body]
pub(crate) fn ttf_upem(data: &[u8]) -> (r: Option<u16>)
    ensures
        r == ttf_units_per_em(data@),
        r is Some <==> ttf_parse_failure(data@) is None,
{
    Face::parse(data, 0).ok().map(|face| face.units_per_em())
}

/// `ttf_parser::Face::ascender`.
#[verifier::external_body]
pub(crate) fn ttf_asc(data: &[u8]) -> (r: Option<i16>)
    ensures
        r == ttf_ascender(data@),
        r is Some <==> ttf_parse_failure(data@) is None,
{
    Face::parse(data, 0).ok().map(|face| face.ascender())
}

/// `ttf_parser::Face::descender`.
#[verifier::external_body]
pub(crate) fn ttf_desc(data: &[u8]) -> (r: Option<i16>)
    ensures
        r == ttf_descender(data@),
        r is Some <==> ttf_parse_failure(data@) is None,
{
    Face::parse(data, 0).ok().map(|face| face.descender())
}

/// `ttf_parser::Face::line_gap`.
#[verifier::external_body]
pub(crate) fn ttf_gap(data: &[u8]) -> (r: Option<i16>)
    ensures
        r == ttf_line_gap(data@),
        r is Some <==> ttf_parse_failure(data@) is None,
{
    Face::parse(data, 0).ok().map(|face| face.line_gap())
}

/// `ttf_parser::Face::capital_height`.
#[verifier::external_body]
pub(crate) fn ttf_cap_height(data: &[u8]) -> (r: Option<Option<i16>>)
    ensures
        r == ttf_capital_height(data@),
        r is Some <==> ttf_parse_failure(data@) is None,
{
    Face::parse(data, 0).ok().map(|face| face.capital_height())
}

/// `ttf_parser::Face::x_height`.
#[verifier::external_body]
pub(crate) fn ttf_xheight(data: &[u8]) -> (r: Option<Option<i16>>)
    ensures
        r == ttf_x_height(data@),
        r is Some <==> ttf_parse_failure(data@) is None,
{
    Face::parse(data, 0).ok().map(|face| face.x_height())
}

/// `ttf_parser::Face::underline_metrics`, as position and thickness.
#[verifier::external_body]
pub(crate) fn ttf_underline(data: &[u8]) -> (r: Option<Option<(i16, i16)>>)
    ensures
        r == ttf_underline_metrics(data@),
        r is Some <==> ttf_parse_failure(data@) is None,
{
    Face::parse(data, 0).ok().map(|face| face.underline_metrics().map(|m| (m.position, m.thickness)))
}

} // verus!
