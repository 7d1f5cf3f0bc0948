//! The performance interface's CPU-feature report: the SIMD capability
//! bitmask the frontend hands a core that asks for the perf interface.
//!
//! The embedding application detects the machine's features; the
//! bitmask assembly over the ABI's SIMD flag constants is verified
//! here.

use vstd::prelude::*;

use crate::retro_sys::{
    RETRO_SIMD_AVX, RETRO_SIMD_AVX2, RETRO_SIMD_MMX, RETRO_SIMD_SSE, RETRO_SIMD_SSE2,
    RETRO_SIMD_SSE3, RETRO_SIMD_SSE4, RETRO_SIMD_SSE42,
};

verus! {

/// Which SIMD families the running machine supports, as the embedder
/// detected them.
#[derive(Clone, Copy, Debug, PartialEq, Eq, Structural)]
pub struct CpuFeatures {
    pub has_avx: bool,
    pub has_avx2: bool,
    pub has_mmx: bool,
    pub has_sse: bool,
    pub has_sse2: bool,
    pub has_sse3: bool,
    pub has_sse41: bool,
    pub has_sse42: bool,
}

/// The capability bitmask for one feature report: the ABI's SIMD flag
/// of every supported family, or-ed together.
pub open spec fn spec_cpu_feature_bits(f: CpuFeatures) -> u64 {
    let c = 0u64;
    let c = if f.has_avx {
        c | RETRO_SIMD_AVX
    } else {
        c
    };
    let c = if f.has_avx2 {
        c | RETRO_SIMD_AVX2
    } else {
        c
    };
    let c = if f.has_mmx {
        c | RETRO_SIMD_MMX
    } else {
        c
    };
    let c = if f.has_sse {
        c | RETRO_SIMD_SSE
    } else {
        c
    };
    let c = if f.has_sse2 {
        c | RETRO_SIMD_SSE2
    } else {
        c
    };
    let c = if f.has_sse3 {
        c | RETRO_SIMD_SSE3
    } else {
        c
    };
    let c = if f.has_sse41 {
        c | RETRO_SIMD_SSE4
    } else {
        c
    };
    let c = if f.has_sse42 {
        c | RETRO_SIMD_SSE42
    } else {
        c
    };
    c
}

/// Assembles the SIMD capability bitmask the perf interface reports.
pub fn get_cpu_features(features: &CpuFeatures) -> (r: u64)
    ensures
        r == spec_cpu_feature_bits(*features),
{
    let mut cpu: u64 = 0;
    if features.has_avx {
        cpu = cpu | RETRO_SIMD_AVX;
    }
    if features.has_avx2 {
        cpu = cpu | RETRO_SIMD_AVX2;
    }
    if features.has_mmx {
        cpu = cpu | RETRO_SIMD_MMX;
    }
    if features.has_sse {
        cpu = cpu | RETRO_SIMD_SSE;
    }
    if features.has_sse2 {
        cpu = cpu | RETRO_SIMD_SSE2;
    }
    if features.has_sse3 {
        cpu = cpu | RETRO_SIMD_SSE3;
    }
    if features.has_sse41 {
        cpu = cpu | RETRO_SIMD_SSE4;
    }
    if features.has_sse42 {
        cpu = cpu | RETRO_SIMD_SSE42;
    }
    cpu
}

} // verus!
