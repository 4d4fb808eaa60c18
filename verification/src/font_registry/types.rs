//! Types of the font registry.

use vstd::prelude::*;
use vstd::string::StringExecFns;
use crate::font_types::{FontMetrics, FontStretch, FontStyle, FontWeight};

verus! {

/// A face loaded into a registry.
#[derive(Debug, Clone, PartialEq)]
pub struct FontFace {
    /// Id that the registry gave the face.
    pub id: usize,
    /// Family name.
    pub family_name: String,
    /// PostScript name.
    pub postscript_name: String,
    /// Weight.
    pub weight: FontWeight,
    /// Style.
    pub style: FontStyle,
    /// Width.
    pub stretch: FontStretch,
    /// Metrics in font units.
    pub metrics: FontMetrics,
    /// The file that the face was loaded from, if it came from a file.
    pub file_path: Option<String>,
    /// The bytes of the font container.
    pub data: Option<Vec<u8>>,
    /// Whether the face was found among the fonts of the system.
    pub is_system_font: bool,
}

/// What a [`FontFace`] holds, as mathematical values.
pub struct FontFaceModel {
    /// Id that the registry gave the face.
    pub id: usize,
    /// Family name.
    pub family_name: Seq<char>,
    /// PostScript name.
    pub postscript_name: Seq<char>,
    /// Weight.
    pub weight: FontWeight,
    /// Style.
    pub style: FontStyle,
    /// Width.
    pub stretch: FontStretch,
    /// Metrics in font units.
    pub metrics: FontMetrics,
    /// The file that the face was loaded from, if it came from a file.
    pub file_path: Option<Seq<char>>,
    /// The bytes of the font container.
    pub data: Option<Seq<u8>>,
    /// Whether the face was found among the fonts of the system.
    pub is_system_font: bool,
}

impl View for FontFace {
    type V = FontFaceModel;

    open spec fn view(&self) -> FontFaceModel {
        FontFaceModel {
            id: self.id,
            family_name: self.family_name@,
            postscript_name: self.postscript_name@,
            weight: self.weight,
            style: self.style,
            stretch: self.stretch,
            metrics: self.metrics,
            file_path: match self.file_path {
                Some(path) => Some(path@),
                None => None,
            },
            data: match self.data {
                Some(bytes) => Some(bytes@),
                None => None,
            },
            is_system_font: self.is_system_font,
        }
    }
}

impl FontFace {
    /// The bytes of the font container, if they are loaded.
    pub fn data(&self) -> (r: Option<&[u8]>)
        ensures
            r is Some <==> self@.data is Some,
            r matches Some(bytes) ==> Some(bytes@) == self@.data,
    {
        match &self.data {
            Some(bytes) => Some(bytes.as_slice()),
            None => None,
        }
    }

    /// Whether the face was found among the fonts of the system.
    pub fn is_system_font(&self) -> (b: bool)
        ensures
            b == self@.is_system_font,
    {
        self.is_system_font
    }

    /// The file that the face was loaded from, if it came from a file.
    pub fn file_path(&self) -> (r: Option<&str>)
        ensures
            r is Some <==> self@.file_path is Some,
            r matches Some(path) ==> Some(path@) == self@.file_path,
    {
        match &self.file_path {
            Some(path) => Some(path.as_str()),
            None => None,
        }
    }
}

/// Why a font could not be loaded into a registry.
#[derive(Debug, Clone, PartialEq)]
pub enum RegistryError {
    /// The font file could not be read; carries the path.
    FileNotFound(String),
    /// The font data could not be used; carries the reason.
    InvalidFont(String),
    /// The font is already loaded. Reserved: duplicates are accepted.
    DuplicateFont,
    /// The fonts of the system could not be listed.
    SystemFontsUnavailable,
}

impl RegistryError {
    /// The text that `to_string` produces for this error.
    pub open spec fn spec_message(self) -> Seq<char> {
        match self {
            RegistryError::FileNotFound(path) => "File not found: "@ + path@,
            RegistryError::InvalidFont(reason) => "Invalid font: "@ + reason@,
            RegistryError::DuplicateFont => "Duplicate font"@,
            RegistryError::SystemFontsUnavailable => "System fonts unavailable"@,
        }
    }

    /// A human-readable description of the error.
    pub fn to_string(&self) -> (text: String)
        ensures
            text@ == self.spec_message(),
    {
        match self {
            RegistryError::FileNotFound(path) => String::from_str("File not found: ").concat(
                path.as_str(),
            ),
            RegistryError::InvalidFont(reason) => String::from_str("Invalid font: ").concat(
                reason.as_str(),
            ),
            RegistryError::DuplicateFont => String::from_str("Duplicate font"),
            RegistryError::SystemFontsUnavailable => String::from_str("System fonts unavailable"),
        }
    }
}

} // verus!
