//! The fast scene-cut algorithm: raw pixel difference between (possibly
//! downscaled) frames, and the resolution-driven downscale policy.

use std::sync::Arc;
use vstd::prelude::*;
use crate::frame::{Frame, Plane};
use crate::sad_plane::{sad_plane, sad_seq};
use crate::scenechange::{FrameBuffer, SceneChangeDetector, ScenecutResult};

verus! {

/// Primary threshold constant: a pair is over threshold when its cost
/// reaches `FAST_THRESHOLD * bit_depth / 8` per pixel.
pub const FAST_THRESHOLD: u64 = 18;

/// The downscale factor chosen for a native resolution, by the smaller
/// frame edge: none up to 240, then 2, 4, 8, 16 and 32 for progressively
/// larger frames.  A fixed lookup table, not configurable.
pub open spec fn spec_scale_factor(width: int, height: int) -> Option<usize> {
    let small_edge = if height < width {
        height
    } else {
        width
    };
    if small_edge <= 240 {
        None
    } else if small_edge <= 480 {
        Some(2usize)
    } else if small_edge <= 720 {
        Some(4usize)
    } else if small_edge <= 1080 {
        Some(8usize)
    } else if small_edge <= 1600 {
        Some(16usize)
    } else {
        Some(32usize)
    }
}

/// The factor a policy choice stands for: 1 when no downscaling is chosen.
pub open spec fn scale_factor_value(choice: Option<usize>) -> int {
    match choice {
        Some(f) => f as int,
        None => 1,
    }
}

/// Every factor the policy returns is a power of two, and it is returned
/// only for frames whose edges both exceed the factor many times over.
pub proof fn lemma_scale_factor_choices(width: int, height: int)
    ensures
        match spec_scale_factor(width, height) {
            Some(f) => (f == 2 || f == 4 || f == 8 || f == 16 || f == 32) && width >= 241
                && height >= 241,
            None => true,
        },
{
}

/// Law: every factor the policy returns is a power of two.
pub proof fn lemma_scale_factor_power_of_two(width: int, height: int)
    ensures
        match spec_scale_factor(width, height) {
            Some(f) => exists|k: nat| f as int == vstd::arithmetic::power2::pow2(k),
            None => true,
        },
{
    vstd::arithmetic::power2::lemma2_to64();
    if let Some(f) = spec_scale_factor(width, height) {
        assert(f as int == vstd::arithmetic::power2::pow2(1) || f as int
            == vstd::arithmetic::power2::pow2(2) || f as int == vstd::arithmetic::power2::pow2(3)
            || f as int == vstd::arithmetic::power2::pow2(4) || f as int
            == vstd::arithmetic::power2::pow2(5));
    }
}

/// Law: the chosen factor (1 when no downscaling applies) is monotone
/// non-decreasing in the smaller frame edge.
pub proof fn lemma_scale_factor_monotone(w1: int, h1: int, w2: int, h2: int)
    requires
        (if h1 < w1 {
            h1
        } else {
            w1
        }) <= (if h2 < w2 {
            h2
        } else {
            w2
        }),
    ensures
        scale_factor_value(spec_scale_factor(w1, h1)) <= scale_factor_value(
            spec_scale_factor(w2, h2),
        ),
{
}

/// Scaling factor for frames in scene detection.
pub fn detect_scale_factor(max_width: u32, max_height: u32) -> (r: Option<usize>)
    ensures
        r == spec_scale_factor(max_width as int, max_height as int),
{
    let small_edge = if max_height < max_width {
        max_height
    } else {
        max_width
    };
    if small_edge <= 240 {
        None
    } else if small_edge <= 480 {
        Some(2)
    } else if small_edge <= 720 {
        Some(4)
    } else if small_edge <= 1080 {
        Some(8)
    } else if small_edge <= 1600 {
        Some(16)
    } else {
        Some(32)
    }
}

/// Integer division by a downscale factor.  Every factor the policy emits
/// is a power of two, so this compiles down to a shift.
pub(crate) fn fast_idiv(n: u64, d: u64) -> (r: u64)
    requires
        d == 1 || d == 2 || d == 4 || d == 8 || d == 16 || d == 32,
    ensures
        r as int == n as int / d as int,
{
    n / d
}

impl SceneChangeDetector {
    /// The fast algorithm detects fast cuts using a raw difference in pixel
    /// values between the (possibly downscaled) frames.
    ///
    /// The two-slot buffer rotates: the newer slot of the previous call
    /// becomes the older slot, and only the incoming second frame is
    /// processed anew, so each frame is downscaled exactly once across its
    /// lifetime in the window.
    pub fn fast_scenecut(&mut self, frame1: Arc<Frame>, frame2: Arc<Frame>) -> (result:
        ScenecutResult)
        requires
            old(self).wf_config(),
            old(self).wf_buffer(),
            (*frame1).luma.wf(),
            (*frame1).luma.width == old(self).frame_width,
            (*frame1).luma.height == old(self).frame_height,
            (*frame2).luma.wf(),
            (*frame2).luma.width == old(self).frame_width,
            (*frame2).luma.height == old(self).frame_height,
        ensures
            final(self).same_config(*old(self)),
            final(self).wf_buffer(),
            final(self).score_deque@ == old(self).score_deque@,
            final(self).deque_offset == old(self).deque_offset,
            !(final(self).frame_buffer is Empty),
            final(self).buffer_last() == Some(old(self).luma_repr((*frame2).luma)),
            result == old(self).cost_result(
                old(self).pair_cost_from(
                    old(self).buffer_last(),
                    (*frame1).luma,
                    (*frame2).luma,
                ),
            ),
    {
        proof {
            lemma_scale_factor_choices(self.frame_width as int, self.frame_height as int);
        }
        match self.scale_factor {
            Some(factor) => {
                // Rotate the two scratch slots, or populate both on the
                // first comparison; the older slot's allocation is reused
                // for the incoming frame.
                let mut taken = FrameBuffer::Empty;
                core::mem::swap(&mut taken, &mut self.frame_buffer);
                let (s0, s1) = match taken {
                    FrameBuffer::Scaled(slot0, slot1) => {
                        let mut fresh = slot0;
                        frame2.luma.downscale_in_place(factor, &mut fresh);
                        (slot1, fresh)
                    },
                    _ => (frame1.luma.downscale(factor), frame2.luma.downscale(factor)),
                };
                proof {
                    assert(s0.width as int * s0.height as int == s0.height as int
                        * s0.width as int) by (nonlinear_arith);
                }
                let delta = self.delta_in_planes(&s0, &s1);
                self.frame_buffer = FrameBuffer::Scaled(s0, s1);

                ScenecutResult {
                    threshold: self.threshold,
                    imp_block_cost: delta,
                    forward_adjusted_cost: delta,
                    backward_adjusted_cost: delta,
                }
            },
            None => {
                // No downscaling: rotate shared references to the source
                // frames instead of copying any data.
                let mut taken = FrameBuffer::Empty;
                core::mem::swap(&mut taken, &mut self.frame_buffer);
                let (f0, f1) = match taken {
                    FrameBuffer::Retained(slot0, slot1) => (slot1, frame2),
                    _ => (frame1, frame2),
                };
                proof {
                    assert(f0.luma.width as int * f0.luma.height as int == f0.luma.height as int
                        * f0.luma.width as int) by (nonlinear_arith);
                }
                let delta = self.delta_in_planes(&f0.luma, &f1.luma);
                self.frame_buffer = FrameBuffer::Retained(f0, f1);

                ScenecutResult {
                    threshold: self.threshold,
                    imp_block_cost: delta,
                    backward_adjusted_cost: delta,
                    forward_adjusted_cost: delta,
                }
            },
        }
    }

    /// The scaled cost of the difference between two planes: `8 * SAD`,
    /// the exact fixed-point form of the average per-pixel difference.
    fn delta_in_planes(&self, plane1: &Plane, plane2: &Plane) -> (r: u64)
        requires
            plane1.wf(),
            plane2.wf(),
            plane1.width == plane2.width,
            plane1.height == plane2.height,
            plane1.data@.len() <= 0x2000_0000_0000,
        ensures
            r as int == 8 * sad_seq(plane1.data@, plane2.data@),
    {
        let delta = sad_plane(plane1, plane2, self.cpu_feature_level);
        proof {
            assert(plane1.data@.len() * 65535 <= 0x2000_0000_0000 * 65535) by (nonlinear_arith)
                requires 0 <= plane1.data@.len() <= 0x2000_0000_0000,
            ;
        }
        8 * delta
    }
}

} // verus!
