//! What the font system knows about the platforms it runs on: how their
//! font lists are read, and which families stand in for generic names.

pub mod discovery;
pub mod listing;
pub mod order;
pub mod paths;
pub mod types;

pub use crate::font_types::{FontStyle, FontWeight};
pub use types::{FontCategory, Platform, PlatformFontInfo};
pub use discovery::{
    detect_platform, discover_fonts, discover_fonts_detailed, discover_system_fonts,
    discover_system_fonts_detailed, get_config_path, get_default_font_families, get_defaults,
    get_font_config_path, map_fontconfig_slant, map_fontconfig_weight, use_fontconfig_library,
    DefaultFamilies, FontconfigEntry,
};
pub use listing::{fc_list_paths, font_directories, scans_subdirectories};
pub use paths::{
    expand_home, extract_family_from_path, is_font_file, join_path, join_windows,
};
