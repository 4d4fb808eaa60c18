//! Accounting of the memory that the font system uses.

use vstd::prelude::*;

verus! {

/// Memory that the font system uses, in bytes, and what it holds.
#[derive(Debug, Clone, Copy, PartialEq, Eq, Structural)]
pub struct MemoryStats {
    /// Bytes of loaded font data.
    pub font_data_bytes: usize,
    /// Bytes of the glyph cache.
    pub glyph_cache_bytes: usize,
    /// Bytes of the shaping cache.
    pub shaping_cache_bytes: usize,
    /// Bytes in all.
    pub total_bytes: usize,
    /// Number of loaded fonts.
    pub font_count: usize,
    /// Number of cached glyphs.
    pub cached_glyphs: usize,
    /// Number of cached shaped runs.
    pub cached_shapings: usize,
}

impl MemoryStats {
    /// Statistics in which everything is zero.
    pub fn new() -> (stats: MemoryStats)
        ensures
            stats == (MemoryStats {
                font_data_bytes: 0,
                glyph_cache_bytes: 0,
                shaping_cache_bytes: 0,
                total_bytes: 0,
                font_count: 0,
                cached_glyphs: 0,
                cached_shapings: 0,
            }),
    {
        MemoryStats {
            font_data_bytes: 0,
            glyph_cache_bytes: 0,
            shaping_cache_bytes: 0,
            total_bytes: 0,
            font_count: 0,
            cached_glyphs: 0,
            cached_shapings: 0,
        }
    }

    /// The whole mebibytes of a number of bytes.
    pub open spec fn spec_whole_mb(bytes: usize) -> int {
        bytes as int / 1_048_576
    }

    /// The whole mebibytes in use.
    pub fn total_whole_mb(&self) -> (mb: usize)
        ensures
            mb == Self::spec_whole_mb(self.total_bytes),
    {
        self.total_bytes / 1_048_576
    }
}

impl Default for MemoryStats {
    /// Statistics in which everything is zero.
    fn default() -> (stats: MemoryStats)
        ensures
            stats == (MemoryStats {
                font_data_bytes: 0,
                glyph_cache_bytes: 0,
                shaping_cache_bytes: 0,
                total_bytes: 0,
                font_count: 0,
                cached_glyphs: 0,
                cached_shapings: 0,
            }),
    {
        MemoryStats::new()
    }
}

/// Implemented by the parts of the system that can say how much memory
/// they use.
pub trait MemoryProfiler {
    /// The memory in use, in bytes.
    fn memory_usage(&self) -> usize;

    /// The memory in use, in detail.
    fn detailed_stats(&self) -> MemoryStats;
}

/// Memory in use by each component, in bytes.
#[derive(Debug, Clone, Copy, PartialEq, Eq, Structural)]
pub struct ComponentMemoryBreakdown {
    /// Bytes used by the font registry.
    pub font_registry_bytes: usize,
    /// Bytes used by the glyph renderer.
    pub glyph_renderer_bytes: usize,
    /// Bytes used by the text shaper.
    pub text_shaper_bytes: usize,
    /// Bytes used by the platform integration.
    pub platform_integration_bytes: usize,
}

impl ComponentMemoryBreakdown {
    /// The sum of the bytes of all components.
    pub open spec fn spec_total(self) -> int {
        self.font_registry_bytes + self.glyph_renderer_bytes + self.text_shaper_bytes
            + self.platform_integration_bytes
    }

    /// A breakdown in which no component uses memory.
    pub fn new() -> (breakdown: ComponentMemoryBreakdown)
        ensures
            breakdown == (ComponentMemoryBreakdown {
                font_registry_bytes: 0,
                glyph_renderer_bytes: 0,
                text_shaper_bytes: 0,
                platform_integration_bytes: 0,
            }),
    {
        ComponentMemoryBreakdown {
            font_registry_bytes: 0,
            glyph_renderer_bytes: 0,
            text_shaper_bytes: 0,
            platform_integration_bytes: 0,
        }
    }

    /// The sum of the bytes of all components.
    pub fn total(&self) -> (sum: usize)
        requires
            self.spec_total() <= usize::MAX,
        ensures
            sum == self.spec_total(),
    {
        self.font_registry_bytes + self.glyph_renderer_bytes + self.text_shaper_bytes
            + self.platform_integration_bytes
    }

    /// The sum of the bytes of all components, where it can be
    /// represented.
    pub fn checked_total(&self) -> (sum: Option<usize>)
        ensures
            sum is Some <==> self.spec_total() <= usize::MAX,
            sum matches Some(s) ==> s == self.spec_total(),
    {
        let a: usize = self.font_registry_bytes.checked_add(self.glyph_renderer_bytes)?;
        let b: usize = a.checked_add(self.text_shaper_bytes)?;
        b.checked_add(self.platform_integration_bytes)
    }
}

impl Default for ComponentMemoryBreakdown {
    /// A breakdown in which no component uses memory.
    fn default() -> (breakdown: ComponentMemoryBreakdown)
        ensures
            breakdown == (ComponentMemoryBreakdown {
                font_registry_bytes: 0,
                glyph_renderer_bytes: 0,
                text_shaper_bytes: 0,
                platform_integration_bytes: 0,
            }),
    {
        ComponentMemoryBreakdown::new()
    }
}

} // verus!
