//! The frame-difference primitive: sum of absolute differences (SAD)
//! between two equally-shaped planes.
//!
//! The CPU capability tier selects the difference-computation variant; this
//! library ships the baseline scalar variant, which serves every tier.

use vstd::prelude::*;
use crate::cpu_features::CpuFeatureLevel;
use crate::frame::Plane;

verus! {

/// Absolute difference between two samples.
pub open spec fn abs_diff(a: u16, b: u16) -> int {
    if a >= b {
        a - b
    } else {
        b - a
    }
}

/// Sum of absolute differences over the first `n` samples of two sequences.
pub open spec fn sad_prefix(a: Seq<u16>, b: Seq<u16>, n: int) -> int
    decreases n,
{
    if n <= 0 {
        0
    } else {
        sad_prefix(a, b, n - 1) + abs_diff(a[n - 1], b[n - 1])
    }
}

/// Sum of absolute differences between two equal-length sample sequences.
pub open spec fn sad_seq(a: Seq<u16>, b: Seq<u16>) -> int {
    sad_prefix(a, b, a.len() as int)
}

/// A SAD over `n` samples lies in `[0, n * 65535]`.
pub proof fn lemma_sad_prefix_bounds(a: Seq<u16>, b: Seq<u16>, n: int)
    requires
        n >= 0,
    ensures
        0 <= sad_prefix(a, b, n) <= n * 65535,
    decreases n,
{
    if n > 0 {
        lemma_sad_prefix_bounds(a, b, n - 1);
    }
}

/// Identical sequences differ by zero.
pub proof fn lemma_sad_self_zero(a: Seq<u16>, n: int)
    ensures
        sad_prefix(a, a, n) == 0,
    decreases n,
{
    if n > 0 {
        lemma_sad_self_zero(a, n - 1);
    }
}

/// Scalar SAD between two equally-shaped planes.  `cpu` names the highest
/// instruction-set tier the difference computation may use; every tier is
/// served by this baseline variant.
#[verifier::loop_isolation(false)]
pub fn sad_plane(plane1: &Plane, plane2: &Plane, cpu: CpuFeatureLevel) -> (r: u64)
    requires
        plane1.wf(),
        plane2.wf(),
        plane1.width == plane2.width,
        plane1.height == plane2.height,
        plane1.data@.len() <= 0x2000_0000_0000,
    ensures
        r == sad_seq(plane1.data@, plane2.data@),
        0 <= r <= plane1.data@.len() * 65535,
{
    let _ = cpu;
    let n = plane1.data.len();
    let mut sum: u64 = 0;
    for i in 0..n
        invariant
            sum == sad_prefix(plane1.data@, plane2.data@, i as int),
            sum <= i * 65535,
    {
        let a = plane1.data[i];
        let b = plane2.data[i];
        let d: u64 = if a >= b {
            (a - b) as u64
        } else {
            (b - a) as u64
        };
        sum = sum + d;
    }
    proof {
        lemma_sad_prefix_bounds(plane1.data@, plane2.data@, n as int);
    }
    sum
}

} // verus!
