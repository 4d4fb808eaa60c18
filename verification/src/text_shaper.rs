//! Shaping of text runs, and the cache of shaped runs.

pub mod engine;
pub mod features;
pub mod shaper;
pub mod types;

pub use features::{FeatureSet, FeatureSetting};
pub use types::{Language, Script, ShapingError, ShapingOptions};
pub use shaper::{ShapingCache, ShapingCacheConfig, ShapingCacheKey, ShapingCacheStats, TextShaper};
