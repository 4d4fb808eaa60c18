//! Errors raised while decoding a font container or one of its tables.

use vstd::prelude::*;
use vstd::string::StringExecFns;

verus! {

#[verifier::external_type_specification]
#[verifier::external_body]
pub struct ExIoError(std::io::Error);

/// `std::io::Error`'s text, as its `Display` gives it.
#[verifier::external_body]
fn io_error_text(err: &std::io::Error) -> (text: String) {
    err.to_string()
}

/// Why a font container, or a table inside it, could not be decoded.
#[derive(Debug, Clone, PartialEq)]
pub enum ParseError {
    /// The container signature is not one of the supported formats.
    InvalidFormat,
    /// A table that the operation needs is absent; carries the table tag.
    MissingTable(String),
    /// A length, offset or compressed stream is inconsistent; carries the reason.
    CorruptedData(String),
    /// The table declares a version this decoder does not understand.
    UnsupportedVersion,
}

impl ParseError {
    /// The text that `to_string` produces for this error.
    pub open spec fn spec_message(self) -> Seq<char> {
        match self {
            ParseError::InvalidFormat => "Invalid font format"@,
            ParseError::MissingTable(table) => "Missing required table: "@ + table@,
            ParseError::CorruptedData(reason) => "Corrupted font data: "@ + reason@,
            ParseError::UnsupportedVersion => "Unsupported font version"@,
        }
    }

    /// A human-readable description of the error.
    pub fn to_string(&self) -> (text: String)
        ensures
            text@ == self.spec_message(),
    {
        match self {
            ParseError::InvalidFormat => String::from_str("Invalid font format"),
            ParseError::MissingTable(table) => String::from_str("Missing required table: ").concat(
                table.as_str(),
            ),
            ParseError::CorruptedData(reason) => String::from_str("Corrupted font data: ").concat(
                reason.as_str(),
            ),
            ParseError::UnsupportedVersion => String::from_str("Unsupported font version"),
        }
    }

    /// A `CorruptedData` error with the given reason.
    pub fn corrupted(reason: &str) -> (e: ParseError)
        ensures
            e is CorruptedData,
            e->CorruptedData_0@ == reason@,
    {
        ParseError::CorruptedData(String::from_str(reason))
    }
}

impl vstd::std_specs::convert::FromSpecImpl<std::io::Error> for ParseError {
    open spec fn obeys_from_spec() -> bool {
        false
    }

    open spec fn from_spec(err: std::io::Error) -> ParseError {
        ParseError::InvalidFormat
    }
}

impl From<std::io::Error> for ParseError {
    /// An input error while reading font data counts as corrupted data;
    /// the reason is the text of the input error.
    fn from(err: std::io::Error) -> (e: ParseError) {
        ParseError::CorruptedData(io_error_text(&err))
    }
}

impl ParseError {
    /// The parse error for an input error: corrupted data, with the text
    /// of the input error as the reason.
    pub fn from_io(err: &std::io::Error) -> (e: ParseError)
        ensures
            e is CorruptedData,
    {
        ParseError::CorruptedData(io_error_text(err))
    }
}

} // verus!
