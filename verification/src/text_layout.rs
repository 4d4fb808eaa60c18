//! Layout of shaped text: line breaking, paragraph layout, justification
//! and vertical layout.

pub mod justification;
pub mod line_breaker;
pub mod paragraph;
pub mod types;
pub mod vertical;

pub use types::{
    JustificationMode, LayoutError, LayoutLine, LayoutOptions, LayoutResult, LineBreak,
    TextDirection,
};
pub use line_breaker::LineBreaker;
pub use justification::Justifier;
pub use paragraph::ParagraphLayout;
pub use vertical::VerticalLayout;
