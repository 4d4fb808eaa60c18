//! Font system: container parsing, font matching, glyph and shaping caches, and text layout.

pub mod fixed;
pub mod font_parser;
pub mod font_registry;
pub mod font_system_api;
pub mod font_types;
pub mod glyph_renderer;
pub mod lru_model;
pub mod lru_store;
pub mod platform_integration;
pub mod text;
pub mod text_layout;
pub mod text_shaper;
