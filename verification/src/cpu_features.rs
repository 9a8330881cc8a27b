//! CPU capability tiers for the frame-difference primitive.
//!
//! The environment resolves one tier before the detector is constructed; the
//! detector only carries it along to select a difference-computation variant.

use vstd::prelude::*;

verus! {

/// Ranked instruction-set tiers, from the baseline scalar implementation up
/// through progressively wider vector extensions.
#[derive(Debug, Copy, Clone, PartialEq, Eq, PartialOrd, Structural)]
pub enum CpuFeatureLevel {
    RUST,
    SSE2,
    SSSE3,
    SSE4_1,
    AVX2,
    AVX512,
    AVX512ICL,
}

/// Rank of a tier within the ordered enumeration, baseline first.
pub open spec fn tier_index(level: CpuFeatureLevel) -> int {
    match level {
        CpuFeatureLevel::RUST => 0,
        CpuFeatureLevel::SSE2 => 1,
        CpuFeatureLevel::SSSE3 => 2,
        CpuFeatureLevel::SSE4_1 => 3,
        CpuFeatureLevel::AVX2 => 4,
        CpuFeatureLevel::AVX512 => 5,
        CpuFeatureLevel::AVX512ICL => 6,
    }
}

impl CpuFeatureLevel {
    /// Number of tiers in the enumeration.
    pub fn len() -> (n: usize)
        ensures
            n == 7,
    {
        7
    }

    /// Position of this tier in the enumeration, baseline scalar being 0.
    pub fn as_index(self) -> (i: usize)
        ensures
            i == tier_index(self),
            i < 7,
    {
        match self {
            CpuFeatureLevel::RUST => 0,
            CpuFeatureLevel::SSE2 => 1,
            CpuFeatureLevel::SSSE3 => 2,
            CpuFeatureLevel::SSE4_1 => 3,
            CpuFeatureLevel::AVX2 => 4,
            CpuFeatureLevel::AVX512 => 5,
            CpuFeatureLevel::AVX512ICL => 6,
        }
    }
}

} // verus!
