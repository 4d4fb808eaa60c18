//! The façade of the font system, its configuration and its accounting of
//! memory.

pub mod profiling;
pub mod system;
pub mod types;

pub use profiling::{ComponentMemoryBreakdown, MemoryProfiler, MemoryStats};
pub use system::{FontSystem, ShapedText};
pub use types::{CacheConfig, FontError, FontSystemConfig, GlyphCacheConfig, ShapingCacheConfig};
