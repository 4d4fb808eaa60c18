//! The font registry: loaded faces, their ids, and the matching of a font
//! request to a face.

pub mod face_source;
pub mod registry;
pub mod types;

pub use crate::font_types::{
    FontDescriptor, FontId, FontMetrics, FontStretch, FontStyle, FontWeight,
};
pub use types::{FontFace, RegistryError};
pub use registry::{FontRegistry, SystemFontFile};
