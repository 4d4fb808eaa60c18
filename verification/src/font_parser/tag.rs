//! Four-byte table and axis tags.

use core::cmp::Ordering;
use vstd::prelude::*;
use vstd::std_specs::cmp::PartialOrdSpecImpl;
use vstd::string::StringExecFns;
use vstd::utf8::{encode_utf8, valid_utf8};
use crate::font_parser::bytes::{spec_be_u32, spec_u32_be_bytes, utf8_str};

verus! {

/// `wght`, the weight axis.
pub const TAG_WGHT: u32 = 0x7767_6874;

/// `wdth`, the width axis.
pub const TAG_WDTH: u32 = 0x7764_7468;

/// `slnt`, the slant axis.
pub const TAG_SLNT: u32 = 0x736C_6E74;

/// `opsz`, the optical size axis.
pub const TAG_OPSZ: u32 = 0x6F70_737A;

/// `ital`, the italic axis.
pub const TAG_ITAL: u32 = 0x6974_616C;

/// `head`, the font header table.
pub const TAG_HEAD: u32 = 0x6865_6164;

/// `hhea`, the horizontal header table.
pub const TAG_HHEA: u32 = 0x6868_6561;

/// `cmap`, the character map table.
pub const TAG_CMAP: u32 = 0x636D_6170;

/// `glyf`, the glyph outline table.
pub const TAG_GLYF: u32 = 0x676C_7966;

/// `fvar`, the font variations table.
pub const TAG_FVAR: u32 = 0x6676_6172;

/// `avar`, the axis variations table.
pub const TAG_AVAR: u32 = 0x6176_6172;

/// `CPAL`, the color palette table.
pub const TAG_CPAL: u32 = 0x4350_414C;

/// `COLR`, the color layer table.
pub const TAG_COLR: u32 = 0x434F_4C52;

/// `CBDT`, the color bitmap data table.
pub const TAG_CBDT: u32 = 0x4342_4454;

/// `sbix`, the standard bitmap graphics table.
pub const TAG_SBIX: u32 = 0x7362_6978;

/// `SVG ` (with a trailing space), the SVG glyph table.
pub const TAG_SVG: u32 = 0x5356_4720;

/// A four-byte identifier of a table, a variation axis or a feature.
///
/// Tags are ordered and compared by their bytes, which is the same as
/// comparing the big-endian 32-bit integers they encode; see
/// [`lemma_tag_order`].
#[derive(Debug, Clone, Copy, PartialEq, Eq, Ord, Hash)]
pub struct Tag([u8; 4]);

/// Raised when a string that is not exactly four bytes long is read as a tag.
#[derive(Debug, Clone)]
pub struct TagParseError;

impl TagParseError {
    /// A human-readable description of the error.
    pub fn to_string(&self) -> (text: String)
        ensures
            text@ == "Tag must be exactly 4 bytes"@,
    {
        String::from_str("Tag must be exactly 4 bytes")
    }
}

impl View for Tag {
    type V = Seq<u8>;

    /// The four bytes of the tag, in order.
    closed spec fn view(&self) -> Seq<u8> {
        self.0@
    }
}

/// Whether the four bytes `a` come before the four bytes `b` in
/// lexicographic order.
pub open spec fn spec_tag_bytes_less(a: Seq<u8>, b: Seq<u8>) -> bool {
    a[0] < b[0] || (a[0] == b[0] && (a[1] < b[1] || (a[1] == b[1] && (a[2] < b[2] || (a[2] == b[2]
        && a[3] < b[3])))))
}

impl PartialOrdSpecImpl for Tag {
    open spec fn obeys_partial_cmp_spec() -> bool {
        true
    }

    /// Tags are ordered as the big-endian integers that they encode.
    open spec fn partial_cmp_spec(&self, other: &Tag) -> Option<Ordering> {
        if self.spec_to_bytes() < other.spec_to_bytes() {
            Some(Ordering::Less)
        } else if self.spec_to_bytes() == other.spec_to_bytes() {
            Some(Ordering::Equal)
        } else {
            Some(Ordering::Greater)
        }
    }
}

impl PartialOrd for Tag {
    /// Tags are ordered as the big-endian integers that they encode, which
    /// is the lexicographic order of their bytes.
    fn partial_cmp(&self, other: &Tag) -> (r: Option<Ordering>) {
        let a: u32 = self.to_bytes();
        let b: u32 = other.to_bytes();
        if a < b {
            Some(Ordering::Less)
        } else if a == b {
            Some(Ordering::Equal)
        } else {
            Some(Ordering::Greater)
        }
    }
}

/// The order of the integers that two tags encode is the lexicographic
/// order of their bytes, and it is total: of two tags with different bytes
/// one comes before the other.
pub proof fn lemma_tag_order(a: Tag, b: Tag)
    ensures
        a.spec_to_bytes() < b.spec_to_bytes() <==> spec_tag_bytes_less(a@, b@),
        a@ == b@ || spec_tag_bytes_less(a@, b@) || spec_tag_bytes_less(b@, a@),
        !(spec_tag_bytes_less(a@, b@) && spec_tag_bytes_less(b@, a@)),
{
    a.lemma_tag_bytes();
    b.lemma_tag_bytes();
    assert(a@ =~= b@ <==> (a@[0] == b@[0] && a@[1] == b@[1] && a@[2] == b@[2] && a@[3] == b@[3]));
}

impl core::str::FromStr for Tag {
    type Err = TagParseError;

    /// Reads a tag from a string. Succeeds exactly when the string is four
    /// bytes long; the tag then holds those bytes.
    fn from_str(s: &str) -> (r: Result<Tag, TagParseError>)
        ensures
            r is Ok <==> encode_utf8(s@).len() == 4,
            r matches Ok(t) ==> t@ == encode_utf8(s@),
    {
        match Tag::new(s) {
            Some(t) => Ok(t),
            None => Err(TagParseError),
        }
    }
}

impl Tag {
    /// Weight axis (`wght`).
    pub fn weight() -> (t: Tag)
        ensures
            t.spec_to_bytes() == TAG_WGHT,
    {
        Tag::from_bytes(TAG_WGHT)
    }

    /// Width axis (`wdth`).
    pub fn width() -> (t: Tag)
        ensures
            t.spec_to_bytes() == TAG_WDTH,
    {
        Tag::from_bytes(TAG_WDTH)
    }

    /// Slant axis (`slnt`).
    pub fn slant() -> (t: Tag)
        ensures
            t.spec_to_bytes() == TAG_SLNT,
    {
        Tag::from_bytes(TAG_SLNT)
    }

    /// Optical size axis (`opsz`).
    pub fn optical_size() -> (t: Tag)
        ensures
            t.spec_to_bytes() == TAG_OPSZ,
    {
        Tag::from_bytes(TAG_OPSZ)
    }

    /// Italic axis (`ital`).
    pub fn italic() -> (t: Tag)
        ensures
            t.spec_to_bytes() == TAG_ITAL,
    {
        Tag::from_bytes(TAG_ITAL)
    }

    /// The tag whose big-endian integer value is `value`.
    pub closed spec fn spec_from_bytes(value: u32) -> Tag {
        Tag(
            [
                (value / 0x100_0000) as u8,
                (value / 0x1_0000 % 0x100) as u8,
                (value / 0x100 % 0x100) as u8,
                (value % 0x100) as u8,
            ],
        )
    }

    /// `spec_from_bytes` and `spec_to_bytes` are inverse to each other.
    pub proof fn lemma_from_bytes_to_bytes(value: u32)
        ensures
            Tag::spec_from_bytes(value)@ == spec_u32_be_bytes(value),
            Tag::spec_from_bytes(value).spec_to_bytes() == value,
    {
        let t = Tag::spec_from_bytes(value);
        assert(t@ =~= spec_u32_be_bytes(value));
        crate::font_parser::bytes::lemma_u32_bytes_round_trip(value);
    }

    /// The tag as a big-endian 32-bit integer.
    pub open spec fn spec_to_bytes(self) -> u32 {
        spec_be_u32(self@, 0) as u32
    }

    /// The text of the tag: its bytes read as UTF-8, or four question marks
    /// when they are not well-formed UTF-8.
    pub open spec fn spec_text_bytes(self) -> Seq<u8> {
        if valid_utf8(self@) {
            self@
        } else {
            seq![0x3Fu8, 0x3Fu8, 0x3Fu8, 0x3Fu8]
        }
    }

    /// Every tag has exactly four bytes, and its integer value determines it.
    pub proof fn lemma_tag_bytes(self)
        ensures
            self@.len() == 4,
            0 <= spec_be_u32(self@, 0) <= u32::MAX,
            self@ =~= spec_u32_be_bytes(self.spec_to_bytes()),
    {
        assert(self.0@.len() == 4);
    }

    /// Two tags with the same integer value have the same bytes.
    pub proof fn lemma_tag_value_injective(self, other: Tag)
        ensures
            self.spec_to_bytes() == other.spec_to_bytes() <==> self@ == other@,
    {
        self.lemma_tag_bytes();
        other.lemma_tag_bytes();
    }

    /// Reads a tag from a string. Succeeds exactly when the string is four
    /// bytes long; the tag then holds those bytes.
    pub fn new(s: &str) -> (r: Option<Tag>)
        ensures
            r is Some <==> encode_utf8(s@).len() == 4,
            r matches Some(t) ==> t@ == encode_utf8(s@),
    {
        if s.len() != 4 {
            return None;
        }
        let bytes = s.as_bytes();
        let t = Tag([bytes[0], bytes[1], bytes[2], bytes[3]]);
        assert(t@ =~= encode_utf8(s@));
        Some(t)
    }

    /// The tag whose big-endian integer value is `value`.
    pub fn from_bytes(value: u32) -> (t: Tag)
        ensures
            t == Tag::spec_from_bytes(value),
            t@ == spec_u32_be_bytes(value),
            t.spec_to_bytes() == value,
    {
        let b0: u8 = (value / 0x100_0000) as u8;
        let b1: u8 = (value / 0x1_0000 % 0x100) as u8;
        let b2: u8 = (value / 0x100 % 0x100) as u8;
        let b3: u8 = (value % 0x100) as u8;
        let t = Tag([b0, b1, b2, b3]);
        proof {
            Tag::lemma_from_bytes_to_bytes(value);
            assert(t.0@ =~= Tag::spec_from_bytes(value).0@);
        }
        t
    }

    /// The tag as a big-endian 32-bit integer.
    pub fn to_bytes(&self) -> (value: u32)
        ensures
            value == self.spec_to_bytes(),
    {
        let b0: u32 = self.0[0] as u32;
        let b1: u32 = self.0[1] as u32;
        let b2: u32 = self.0[2] as u32;
        let b3: u32 = self.0[3] as u32;
        ((b0 * 256 + b1) * 256 + b2) * 256 + b3
    }

    /// The tag as text. Bytes that are not well-formed UTF-8 read as `????`.
    pub fn as_str(&self) -> (s: &str)
        ensures
            encode_utf8(s@) == self.spec_text_bytes(),
    {
        match utf8_str(self.0.as_slice()) {
            Some(s) => s,
            None => {
                let fallback = "????";
                proof {
                    reveal_strlit("????");
                    lemma_question_marks();
                }
                fallback
            },
        }
    }

    /// The tag as an owned string; see [`Tag::as_str`].
    pub fn to_string(&self) -> (text: String)
        ensures
            text@.len() <= 4,
            encode_utf8(text@) == self.spec_text_bytes(),
    {
        let s = self.as_str();
        let text = String::from_str(s);
        proof {
            self.lemma_tag_bytes();
            lemma_encoded_len(text@);
        }
        text
    }

    /// Whether two tags hold the same bytes.
    pub fn same(&self, other: &Tag) -> (eq: bool)
        ensures
            eq == (self@ == other@),
    {
        proof {
            self.lemma_tag_value_injective(*other);
        }
        self.to_bytes() == other.to_bytes()
    }
}

/// A tag built from a 32-bit integer gives that integer back.
pub proof fn lemma_tag_integer_round_trip(n: u32, t: Tag)
    requires
        t@ == spec_u32_be_bytes(n),
    ensures
        t.spec_to_bytes() == n,
{
    crate::font_parser::bytes::lemma_u32_bytes_round_trip(n);
}

/// A tag read from a four-byte string gives that string back as its text.
pub proof fn lemma_tag_text_round_trip(s: Seq<char>, t: Tag, text: Seq<char>)
    requires
        encode_utf8(s).len() == 4,
        t@ == encode_utf8(s),
        encode_utf8(text) == t.spec_text_bytes(),
    ensures
        text == s,
{
    vstd::utf8::encode_utf8_valid_utf8(s);
    vstd::utf8::encode_utf8_decode_utf8(s);
    vstd::utf8::encode_utf8_decode_utf8(text);
}

/// The UTF-8 encoding of `????` is four bytes `0x3F`.
proof fn lemma_question_marks()
    ensures
        encode_utf8("????"@) =~= seq![0x3Fu8, 0x3Fu8, 0x3Fu8, 0x3Fu8],
{
    reveal_strlit("????");
    let chars = "????"@;
    assert(chars.len() == 4);
    assert(chars[0] == '?' && chars[1] == '?' && chars[2] == '?' && chars[3] == '?');
    assert(vstd::utf8::is_ascii_chars(chars));
    vstd::utf8::is_ascii_chars_encode_utf8(chars);
    assert('?' as u8 == 0x3Fu8);
    assert(encode_utf8(chars)[0] == chars[0] as u8);
    assert(encode_utf8(chars)[1] == chars[1] as u8);
    assert(encode_utf8(chars)[2] == chars[2] as u8);
    assert(encode_utf8(chars)[3] == chars[3] as u8);
}

/// A string has at most as many characters as its UTF-8 encoding has bytes.
proof fn lemma_encoded_len(chars: Seq<char>)
    ensures
        chars.len() <= encode_utf8(chars).len(),
    decreases chars.len(),
{
    if chars.len() > 0 {
        lemma_encoded_len(chars.drop_first());
        reveal_with_fuel(encode_utf8, 2);
    }
}

} // verus!
