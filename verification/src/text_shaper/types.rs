//! Types of a shaping request.

use std::hash::Hasher;
use std::collections::hash_map::DefaultHasher;
use vstd::prelude::*;
use vstd::std_specs::hash::DefaultHasherAdditionalSpecFns;
use vstd::string::StringExecFns;
use vstd::utf8::encode_utf8;
use crate::font_parser::bytes::{push_u32, spec_u32_be_bytes};
use crate::font_types::Direction;
use crate::text_shaper::features::FeatureSet;

verus! {

/// The script of a run of text.
#[derive(Debug, Clone, Copy, PartialEq, Eq, Hash, Structural)]
pub enum Script {
    /// Latin.
    Latin,
    /// Arabic.
    Arabic,
    /// Hebrew.
    Hebrew,
    /// Cyrillic.
    Cyrillic,
    /// Greek.
    Greek,
    /// Han.
    Han,
    /// Hangul.
    Hangul,
    /// Hiragana.
    Hiragana,
    /// Katakana.
    Katakana,
    /// Characters that are shared between scripts.
    Common,
}

impl Script {
    /// The four-letter tag of the script, as a big-endian integer.
    pub open spec fn spec_tag(self) -> u32 {
        match self {
            Script::Latin => 0x6C61_746E,
            Script::Arabic => 0x6172_6162,
            Script::Hebrew => 0x6865_6272,
            Script::Cyrillic => 0x6379_726C,
            Script::Greek => 0x6772_656B,
            Script::Han => 0x6861_6E69,
            Script::Hangul => 0x6861_6E67,
            Script::Hiragana => 0x6869_7261,
            Script::Katakana => 0x6B61_6E61,
            Script::Common => 0x7A79_7979,
        }
    }

    /// A number that tells the scripts apart.
    pub open spec fn spec_code(self) -> u8 {
        match self {
            Script::Latin => 0,
            Script::Arabic => 1,
            Script::Hebrew => 2,
            Script::Cyrillic => 3,
            Script::Greek => 4,
            Script::Han => 5,
            Script::Hangul => 6,
            Script::Hiragana => 7,
            Script::Katakana => 8,
            Script::Common => 9,
        }
    }

    /// A number that tells the scripts apart.
    pub fn code(self) -> (c: u8)
        ensures
            c == self.spec_code(),
    {
        match self {
            Script::Latin => 0,
            Script::Arabic => 1,
            Script::Hebrew => 2,
            Script::Cyrillic => 3,
            Script::Greek => 4,
            Script::Han => 5,
            Script::Hangul => 6,
            Script::Hiragana => 7,
            Script::Katakana => 8,
            Script::Common => 9,
        }
    }
}

/// The four-letter tag of a script (`latn`, `arab`, ...), as a big-endian
/// integer.
pub fn script_to_tag(script: Script) -> (tag: u32)
    ensures
        tag == script.spec_tag(),
{
    match script {
        Script::Latin => 0x6C61_746E,
        Script::Arabic => 0x6172_6162,
        Script::Hebrew => 0x6865_6272,
        Script::Cyrillic => 0x6379_726C,
        Script::Greek => 0x6772_656B,
        Script::Han => 0x6861_6E69,
        Script::Hangul => 0x6861_6E67,
        Script::Hiragana => 0x6869_7261,
        Script::Katakana => 0x6B61_6E61,
        Script::Common => 0x7A79_7979,
    }
}

/// A language, given by its BCP 47 tag.
#[derive(Debug, Clone, PartialEq, Eq, Hash)]
pub struct Language {
    /// The BCP 47 tag, such as `en-US`.
    pub tag: String,
}

/// Why a run of text could not be shaped.
#[derive(Debug, Clone, PartialEq, Eq)]
pub enum ShapingError {
    /// The registry has no usable face for the request.
    FontNotFound,
    /// The text cannot be shaped; carries the reason.
    InvalidText(String),
    /// The script is not supported; carries its name.
    UnsupportedScript(String),
    /// The run is beyond what can be computed; carries the reason.
    Overflow(String),
}

impl ShapingError {
    /// The text that `to_string` produces for this error.
    pub open spec fn spec_message(self) -> Seq<char> {
        match self {
            ShapingError::FontNotFound => "Font not found"@,
            ShapingError::InvalidText(reason) => "Invalid text: "@ + reason@,
            ShapingError::UnsupportedScript(script) => "Unsupported script: "@ + script@,
            ShapingError::Overflow(reason) => "Shaping overflow: "@ + reason@,
        }
    }

    /// A human-readable description of the error.
    pub fn to_string(&self) -> (text: String)
        ensures
            text@ == self.spec_message(),
    {
        match self {
            ShapingError::FontNotFound => String::from_str("Font not found"),
            ShapingError::InvalidText(reason) => String::from_str("Invalid text: ").concat(
                reason.as_str(),
            ),
            ShapingError::UnsupportedScript(script) => String::from_str(
                "Unsupported script: ",
            ).concat(script.as_str()),
            ShapingError::Overflow(reason) => String::from_str("Shaping overflow: ").concat(
                reason.as_str(),
            ),
        }
    }
}

/// How a run of text is to be shaped. Spacings are in pixels as 26.6
/// fixed point.
#[derive(Debug, Clone)]
pub struct ShapingOptions {
    /// Script of the run.
    pub script: Script,
    /// Language of the run.
    pub language: Language,
    /// Direction of the run.
    pub direction: Direction,
    /// OpenType features to apply.
    pub features: FeatureSet,
    /// Whether kerning is applied.
    pub kerning: bool,
    /// Whether ligatures are formed.
    pub ligatures: bool,
    /// Space added after every glyph.
    pub letter_spacing: i32,
    /// Space added between words.
    pub word_spacing: i32,
}

/// What a [`ShapingOptions`] holds, as mathematical values.
pub struct ShapingOptionsModel {
    /// Script of the run.
    pub script: Script,
    /// The bytes of the language tag.
    pub language: Seq<u8>,
    /// Direction of the run.
    pub direction: Direction,
    /// Features as pairs of tag bytes and value, in ascending tag order.
    pub features: Seq<(Seq<u8>, u32)>,
    /// Whether kerning is applied.
    pub kerning: bool,
    /// Whether ligatures are formed.
    pub ligatures: bool,
    /// Space added after every glyph.
    pub letter_spacing: i32,
    /// Space added between words.
    pub word_spacing: i32,
}

impl View for ShapingOptions {
    type V = ShapingOptionsModel;

    open spec fn view(&self) -> ShapingOptionsModel {
        ShapingOptionsModel {
            script: self.script,
            language: encode_utf8(self.language.tag@),
            direction: self.direction,
            features: self.features@,
            kerning: self.kerning,
            ligatures: self.ligatures,
            letter_spacing: self.letter_spacing,
            word_spacing: self.word_spacing,
        }
    }
}

/// The four bytes of a signed 32-bit number in two's complement, most
/// significant first.
pub open spec fn spec_i32_bytes(value: i32) -> Seq<u8> {
    spec_u32_be_bytes(
        if value >= 0 {
            value as u32
        } else {
            (value + 0x1_0000_0000) as u32
        },
    )
}

/// One byte for a flag: 1 for true, 0 for false.
pub open spec fn spec_flag_byte(flag: bool) -> u8 {
    if flag {
        1
    } else {
        0
    }
}

/// The byte strings that the first `k` features contribute to the hash: for
/// each feature its tag bytes and then the four bytes of its value.
pub open spec fn spec_feature_writes(features: Seq<(Seq<u8>, u32)>, k: int) -> Seq<Seq<u8>>
    decreases k,
{
    if k <= 0 {
        Seq::<Seq<u8>>::empty()
    } else {
        spec_feature_writes(features, k - 1).push(features[k - 1].0).push(
            spec_u32_be_bytes(features[k - 1].1),
        )
    }
}

/// The byte strings that are hashed for a set of options, in order: the
/// script, the language tag, the direction, the features in ascending tag
/// order, the two flags and the two spacings.
pub open spec fn spec_option_writes(options: ShapingOptionsModel) -> Seq<Seq<u8>> {
    seq![seq![options.script.spec_code()], options.language, seq![options.direction.spec_code()]]
        + spec_feature_writes(options.features, options.features.len() as int) + seq![
        seq![spec_flag_byte(options.kerning)],
        seq![spec_flag_byte(options.ligatures)],
        spec_i32_bytes(options.letter_spacing),
        spec_i32_bytes(options.word_spacing),
    ]
}

/// The hash of a set of options: the hash that the default hasher of the
/// standard library gives the byte strings of [`spec_option_writes`].
pub open spec fn spec_options_hash(options: ShapingOptionsModel) -> u64 {
    DefaultHasher::spec_finish(spec_option_writes(options))
}

/// The four bytes of a signed 32-bit number in two's complement.
fn i32_bytes(value: i32) -> (bytes: Vec<u8>)
    ensures
        bytes@ == spec_i32_bytes(value),
{
    let unsigned: u32 = if value >= 0 {
        value as u32
    } else {
        (value as i64 + 0x1_0000_0000) as u32
    };
    let mut bytes: Vec<u8> = Vec::new();
    push_u32(&mut bytes, unsigned);
    assert(bytes@ =~= spec_i32_bytes(value));
    bytes
}

/// A vector that holds one byte.
fn one_byte(b: u8) -> (bytes: Vec<u8>)
    ensures
        bytes@ == seq![b],
{
    let mut bytes: Vec<u8> = Vec::new();
    bytes.push(b);
    assert(bytes@ =~= seq![b]);
    bytes
}

impl ShapingOptions {
    /// The hash of the options. Options that agree in every field have the
    /// same hash, in whatever order their features were inserted.
    pub fn options_hash(&self) -> (hash: u64)
        requires
            self.features.wf(),
        ensures
            hash == spec_options_hash(self@),
    {
        let mut hasher = DefaultHasher::new();
        hasher.write(one_byte(self.script.code()).as_slice());
        hasher.write(self.language.tag.as_str().as_bytes());
        hasher.write(one_byte(self.direction.code()).as_slice());
        let ghost head = hasher@;
        assert(head =~= seq![
            seq![self@.script.spec_code()],
            self@.language,
            seq![self@.direction.spec_code()],
        ]);
        let mut i: usize = 0;
        while i < self.features.len()
            invariant
                i <= self.features@.len(),
                hasher@ == head + spec_feature_writes(self.features@, i as int),
            decreases self.features@.len() - i,
        {
            match self.features.entry(i) {
                Some(feature) => {
                    hasher.write(feature.tag.as_str().as_bytes());
                    let mut value_bytes: Vec<u8> = Vec::new();
                    push_u32(&mut value_bytes, feature.value);
                    assert(value_bytes@ =~= spec_u32_be_bytes(feature.value));
                    hasher.write(value_bytes.as_slice());
                    assert(hasher@ =~= head + spec_feature_writes(self.features@, i as int + 1));
                },
                None => {},
            }
            i = i + 1;
        }
        hasher.write(one_byte(if self.kerning {
            1
        } else {
            0
        }).as_slice());
        hasher.write(one_byte(if self.ligatures {
            1
        } else {
            0
        }).as_slice());
        hasher.write(i32_bytes(self.letter_spacing).as_slice());
        hasher.write(i32_bytes(self.word_spacing).as_slice());
        assert(hasher@ =~= spec_option_writes(self@));
        hasher.finish()
    }
}

/// Options with the same values have the same hash.
pub proof fn lemma_equal_options_equal_hash(a: ShapingOptionsModel, b: ShapingOptionsModel)
    requires
        a.script == b.script,
        a.language == b.language,
        a.direction == b.direction,
        a.features == b.features,
        a.kerning == b.kerning,
        a.ligatures == b.ligatures,
        a.letter_spacing == b.letter_spacing,
        a.word_spacing == b.word_spacing,
    ensures
        spec_options_hash(a) == spec_options_hash(b),
{
}

} // verus!
