//! Decoding of sfnt, WOFF and WOFF2 font containers and of the tables that
//! describe variable and color fonts.

pub mod bytes;
pub mod color_fonts;
pub mod error;
pub mod tag;
pub mod types;
pub mod variable_fonts;
pub mod woff;
pub mod woff2;

pub use error::ParseError;
pub use tag::{Tag, TagParseError};
pub use variable_fonts::{
    AvarTable, AxisSegmentMap, FvarTable, NamedInstance, VariationAxis, VariationCoordinates,
};
pub use color_fonts::{
    BaseGlyph, CbdtTable, Color, ColorFormat, ColrTable, CpalTable, Layer, SvgTable,
};
pub use woff::WoffFont;
pub use woff2::Woff2Font;
pub use types::{
    BoundingBox, CMapTable, Contour, FontMetrics, GlyphId, GlyphOutline, OpenTypeFont,
    TableRecord,
};
