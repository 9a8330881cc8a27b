//! The scene-cut detector: cost history, adaptive decision engine, and
//! hard keyframe-interval policy.
//!
//! Costs are exact fixed-point numbers: a frame pair's cost is stored as
//! `8 * SAD` and each threshold as `constant * bit_depth * pixels`, so the
//! comparison `cost >= threshold` is exactly the per-pixel comparison
//! `SAD / pixels >= constant * bit_depth / 8` in rational arithmetic.

mod fast;

use std::sync::Arc;
use vstd::prelude::*;
use crate::cpu_features::CpuFeatureLevel;
use crate::frame::{downscale_seq, Frame, Plane};
use crate::sad_plane::sad_seq;
pub use self::fast::{
    detect_scale_factor, lemma_scale_factor_choices, lemma_scale_factor_monotone,
    lemma_scale_factor_power_of_two, scale_factor_value, spec_scale_factor, FAST_THRESHOLD,
};

verus! {

/// Secondary evidence threshold constant; the importance-block cost of some
/// entry at or after the decision offset must reach
/// `IMP_BLOCK_DIFF_THRESHOLD * bit_depth / 8` per pixel before any cut is
/// allowed.
pub const IMP_BLOCK_DIFF_THRESHOLD: u64 = 7;

/// One compared frame pair: its threshold and its cost under the three
/// adjustments.  The fast algorithm computes a single raw cost, so the three
/// cost fields are equal; the separation supports a richer cost algorithm.
#[derive(Debug, Clone, Copy, PartialEq, Eq, Structural)]
pub struct ScenecutResult {
    pub threshold: u64,
    pub imp_block_cost: u64,
    pub backward_adjusted_cost: u64,
    pub forward_adjusted_cost: u64,
}

/// The two-slot rotation buffer of the comparator.  Exactly one of the two
/// populated forms is ever used by a given detector, fixed by whether a
/// downscale factor is configured; `Empty` only precedes the first
/// comparison.
pub enum FrameBuffer {
    /// No comparison has run yet.
    Empty,
    /// Two downscale scratch planes; the second slot holds the newer frame.
    /// Once populated the planes stay valid for the detector's lifetime and
    /// are only overwritten, never reallocated.
    Scaled(Plane, Plane),
    /// Shared references to the two most recently compared frames, used
    /// instead of scratch planes when no downscaling is configured.
    Retained(Arc<Frame>, Arc<Frame>),
}

/// Runs keyframe detection on frames from the lookahead queue.
pub struct SceneChangeDetector {
    /// Minimum scaled cost (`8 * SAD`) that will trigger a scene change:
    /// `FAST_THRESHOLD * bit_depth * pixels`.
    pub threshold: u64,
    /// Downscaling factor for fast scene detection, `None` for small frames.
    pub scale_factor: Option<usize>,
    /// Two-slot rotation buffer for the frames last compared.
    pub frame_buffer: FrameBuffer,
    /// Start deque offset based on lookahead.
    pub lookahead_offset: usize,
    /// Deque offset of the frame currently under decision.
    pub deque_offset: usize,
    /// Scene-change results for the adaptive threshold, newest at the front.
    pub score_deque: Vec<ScenecutResult>,
    /// Number of pixels in a (possibly downscaled) compared plane.
    pub pixels: u64,
    /// The bit depth of the video.
    pub bit_depth: usize,
    /// The CPU feature level to be used.
    pub cpu_feature_level: CpuFeatureLevel,
    pub min_kf_interval: u64,
    pub max_kf_interval: u64,
    /// Native frame dimensions, fixed at construction.
    pub frame_width: usize,
    pub frame_height: usize,
}

impl SceneChangeDetector {
    /// The configured downscale factor, or 1 when none is configured.
    pub open spec fn factor_or_1(self) -> int {
        match self.scale_factor {
            Some(f) => f as int,
            None => 1,
        }
    }

    /// Width of a compared plane after downscaling.
    pub open spec fn scaled_width(self) -> int {
        self.frame_width as int / self.factor_or_1()
    }

    /// Height of a compared plane after downscaling.
    pub open spec fn scaled_height(self) -> int {
        self.frame_height as int / self.factor_or_1()
    }

    /// The construction-time configuration is consistent.
    pub open spec fn wf_config(self) -> bool {
        &&& 8 <= self.bit_depth <= 16
        &&& 1 <= self.frame_width
        &&& 1 <= self.frame_height
        &&& self.frame_width * self.frame_height <= 0x2000_0000_0000
        &&& self.scale_factor == spec_scale_factor(
            self.frame_width as int,
            self.frame_height as int,
        )
        &&& self.pixels as int == self.scaled_height() * self.scaled_width()
        &&& 1 <= self.pixels <= 0x2000_0000_0000
        &&& self.threshold as int == FAST_THRESHOLD as int * self.bit_depth as int
            * self.pixels as int
        &&& (self.lookahead_offset == 0 || self.lookahead_offset == 5)
    }

    /// The rotation buffer matches the configuration: scratch planes exist
    /// only with a downscale factor and have the downscaled shape; retained
    /// frames exist only without one and have the native shape.
    pub open spec fn wf_buffer(self) -> bool {
        match self.frame_buffer {
            FrameBuffer::Empty => true,
            FrameBuffer::Scaled(s0, s1) => {
                &&& self.scale_factor is Some
                &&& s0.wf() && s1.wf()
                &&& s0.width as int == self.scaled_width() && s0.height as int
                    == self.scaled_height()
                &&& s1.width as int == self.scaled_width() && s1.height as int
                    == self.scaled_height()
            },
            FrameBuffer::Retained(f0, f1) => {
                &&& self.scale_factor is None
                &&& (*f0).luma.wf() && (*f1).luma.wf()
                &&& (*f0).luma.width == self.frame_width && (*f0).luma.height == self.frame_height
                &&& (*f1).luma.width == self.frame_width && (*f1).luma.height == self.frame_height
            },
        }
    }

    /// Full detector invariant, established by `new` and preserved by
    /// `analyze_next_frame`.
    pub open spec fn wf(self) -> bool {
        &&& self.wf_config()
        &&& self.wf_buffer()
        &&& (self.deque_offset as int) < 5 + self.lookahead_offset as int
        &&& self.score_deque@.len() <= 5 + self.lookahead_offset as int
        &&& (self.score_deque@.len() == 0 ==> self.deque_offset == self.lookahead_offset
            && self.frame_buffer is Empty)
        &&& (self.score_deque@.len() > 0 ==> (self.deque_offset as int) < self.score_deque@.len()
            && !(self.frame_buffer is Empty))
    }

    /// A window plane is valid for this detector: well-formed with the
    /// configured native dimensions.
    pub open spec fn valid_window(self, lumas: Seq<Plane>) -> bool {
        forall|i: int|
            0 <= i < lumas.len() ==> (#[trigger] lumas[i]).wf() && lumas[i].width
                == self.frame_width && lumas[i].height == self.frame_height
    }

    /// The sample sequence a plane contributes to a comparison: its
    /// downscale when a factor is configured, its raw samples otherwise.
    pub open spec fn luma_repr(self, p: Plane) -> Seq<u16> {
        match self.scale_factor {
            Some(f) => downscale_seq(p, f as int),
            None => p.data@,
        }
    }

    /// The representation held in the newer rotation slot, if any.
    pub open spec fn buffer_last(self) -> Option<Seq<u16>> {
        match self.frame_buffer {
            FrameBuffer::Empty => None,
            FrameBuffer::Scaled(s0, s1) => Some(s1.data@),
            FrameBuffer::Retained(f0, f1) => Some((*f1).luma.data@),
        }
    }

    /// Cost of one comparison: the newer slot is always the second frame's
    /// representation; the older slot is the representation retained from
    /// the previous comparison, or the first frame's when none is retained.
    pub open spec fn pair_cost_from(self, prev: Option<Seq<u16>>, l1: Plane, l2: Plane) -> int {
        8 * sad_seq(
            match prev {
                Some(s) => s,
                None => self.luma_repr(l1),
            },
            self.luma_repr(l2),
        )
    }

    /// Cost of comparing two frames with nothing retained: both sides fresh.
    pub open spec fn fresh_pair_cost(self, l1: Plane, l2: Plane) -> int {
        8 * sad_seq(self.luma_repr(l1), self.luma_repr(l2))
    }

    /// The result record for a computed cost: the fast algorithm stores the
    /// same cost under all three adjustments.
    pub open spec fn cost_result(self, cost: int) -> ScenecutResult {
        ScenecutResult {
            threshold: self.threshold,
            imp_block_cost: cost as u64,
            backward_adjusted_cost: cost as u64,
            forward_adjusted_cost: cost as u64,
        }
    }

    /// Evidence threshold of the secondary importance-block check, in the
    /// same fixed-point scale as stored costs.
    pub open spec fn imp_block_threshold(self) -> int {
        IMP_BLOCK_DIFF_THRESHOLD as int * self.bit_depth as int * self.pixels as int
    }
}

/// Number of entries in `dq[lo..hi)` whose backward-adjusted cost reaches
/// their own threshold.
pub open spec fn count_back_over(dq: Seq<ScenecutResult>, lo: int, hi: int) -> int
    decreases hi - lo,
{
    if lo >= hi {
        0
    } else {
        count_back_over(dq, lo, hi - 1) + (if dq[hi - 1].backward_adjusted_cost >= dq[hi
            - 1].threshold {
            1int
        } else {
            0int
        })
    }
}

/// Number of entries in `dq[lo..hi)` whose forward-adjusted cost reaches
/// their own threshold.
pub open spec fn count_fwd_over(dq: Seq<ScenecutResult>, lo: int, hi: int) -> int
    decreases hi - lo,
{
    if lo >= hi {
        0
    } else {
        count_fwd_over(dq, lo, hi - 1) + (if dq[hi - 1].forward_adjusted_cost >= dq[hi
            - 1].threshold {
            1int
        } else {
            0int
        })
    }
}

proof fn lemma_count_back_bounds(dq: Seq<ScenecutResult>, lo: int, hi: int)
    requires
        lo <= hi,
    ensures
        0 <= count_back_over(dq, lo, hi) <= hi - lo,
    decreases hi - lo,
{
    if lo < hi {
        lemma_count_back_bounds(dq, lo, hi - 1);
    }
}

proof fn lemma_count_fwd_bounds(dq: Seq<ScenecutResult>, lo: int, hi: int)
    requires
        lo <= hi,
    ensures
        0 <= count_fwd_over(dq, lo, hi) <= hi - lo,
    decreases hi - lo,
{
    if lo < hi {
        lemma_count_fwd_bounds(dq, lo, hi - 1);
    }
}

/// Some entry at or after the decision offset shows importance-block
/// evidence: a hard cut on this frame, or a pan within the past few frames.
pub open spec fn imp_evidence(dq: Seq<ScenecutResult>, offset: int, imp_thr: int) -> bool {
    exists|i: int| offset <= i < dq.len() && (#[trigger] dq[i]).imp_block_cost as int >= imp_thr
}

/// The adaptive decision for the entry at `offset` in `dq` (front-is-newest
/// ordering): a threshold crossing, filtered by the flash-rejection rules
/// over the backward (older) and forward (newer) entries.
pub open spec fn adaptive_decision(dq: Seq<ScenecutResult>, offset: int, imp_thr: int) -> bool {
    if !imp_evidence(dq, offset, imp_thr) {
        false
    } else {
        let score = dq[offset];
        if score.forward_adjusted_cost >= score.threshold {
            let back_over = count_back_over(dq, offset + 1, dq.len() as int);
            let fwd_over = count_fwd_over(dq, 0, offset);
            if fwd_over == 0 && back_over >= 2 {
                true
            } else if back_over == 0 && fwd_over == 1 && dq[0].forward_adjusted_cost
                >= dq[0].threshold {
                true
            } else if back_over != 0 || fwd_over != 0 {
                false
            } else {
                true
            }
        } else {
            false
        }
    }
}

/// The luma planes of a window of shared frames, in window order.
pub open spec fn window_lumas(fs: Seq<Arc<Frame>>) -> Seq<Plane> {
    Seq::new(fs.len(), |i: int| (*fs[i]).luma)
}

/// The hard-interval override: distances below the minimum force "no cut";
/// distances at or above the maximum force a cut; otherwise the adaptive
/// decision stands.
pub open spec fn spec_interval_override(distance: u64, min_kf: u64, max_kf: u64) -> Option<bool> {
    if distance < min_kf {
        Some(false)
    } else if distance >= max_kf {
        Some(true)
    } else {
        None
    }
}

impl SceneChangeDetector {
    /// Results of priming comparisons over window pairs `(0,1) .. (n-1,n)`,
    /// front-inserted in order, so the front is the newest pair.
    pub open spec fn primed_results(self, lumas: Seq<Plane>, n: int) -> Seq<ScenecutResult> {
        Seq::new(
            n as nat,
            |j: int| self.cost_result(self.fresh_pair_cost(lumas[n - 1 - j], lumas[n - j])),
        )
    }

    /// Deque, decision offset and retained representation after the warm-up
    /// phase of one call on window `lumas`.
    pub open spec fn step_primed(self, lumas: Seq<Plane>) -> (Seq<ScenecutResult>, int, Option<
        Seq<u16>,
    >) {
        let w = lumas.len() as int;
        if self.score_deque@.len() == 0 && self.deque_offset > 0 && w > self.deque_offset as int
            + 1 {
            (
                self.primed_results(lumas, self.deque_offset as int),
                self.deque_offset as int,
                Some(self.luma_repr(lumas[self.deque_offset as int])),
            )
        } else if self.score_deque@.len() == 0 {
            (self.primed_results(lumas, w - 1), w - 2, Some(self.luma_repr(lumas[w - 1])))
        } else {
            (self.score_deque@, self.deque_offset as int, self.buffer_last())
        }
    }

    /// Deque, decision offset and retained representation after the single
    /// per-call comparison (or, with no look-ahead left, the offset
    /// decrement) that follows warm-up.
    pub open spec fn step_compared(self, lumas: Seq<Plane>) -> (Seq<ScenecutResult>, int, Option<
        Seq<u16>,
    >) {
        let w = lumas.len() as int;
        let primed = self.step_primed(lumas);
        let dq1 = primed.0;
        let off1 = primed.1;
        let last1 = primed.2;
        if w > off1 + 1 {
            (
                dq1.insert(
                    0,
                    self.cost_result(self.pair_cost_from(last1, lumas[off1], lumas[off1 + 1])),
                ),
                off1,
                Some(self.luma_repr(lumas[off1 + 1])),
            )
        } else {
            (dq1, off1 - 1, last1)
        }
    }

    /// One full call of the detector on window `lumas` at `distance` frames
    /// since the last keyframe: short-window guard, warm-up, comparison,
    /// adaptive decision, hard-interval override, and eviction.
    pub open spec fn detector_step(self, lumas: Seq<Plane>, distance: u64) -> (
        Seq<ScenecutResult>,
        int,
        Option<Seq<u16>>,
        bool,
    ) {
        let w = lumas.len() as int;
        if w <= self.lookahead_offset as int {
            (self.score_deque@, self.deque_offset as int, self.buffer_last(), false)
        } else {
            let compared = self.step_compared(lumas);
            let dq2 = compared.0;
            let off2 = compared.1;
            let last2 = compared.2;
            let cut = adaptive_decision(dq2, off2, self.imp_block_threshold());
            let out = match spec_interval_override(
                distance,
                self.min_kf_interval,
                self.max_kf_interval,
            ) {
                Some(b) => b,
                None => cut,
            };
            let dq3 = if dq2.len() > 5 + self.lookahead_offset as int {
                dq2.drop_last()
            } else {
                dq2
            };
            (dq3, off2, last2, out)
        }
    }

    /// All configuration fields agree between two detector states.
    pub open spec fn same_config(self, other: Self) -> bool {
        &&& self.threshold == other.threshold
        &&& self.scale_factor == other.scale_factor
        &&& self.lookahead_offset == other.lookahead_offset
        &&& self.pixels == other.pixels
        &&& self.bit_depth == other.bit_depth
        &&& self.cpu_feature_level == other.cpu_feature_level
        &&& self.min_kf_interval == other.min_kf_interval
        &&& self.max_kf_interval == other.max_kf_interval
        &&& self.frame_width == other.frame_width
        &&& self.frame_height == other.frame_height
    }
}

/// Law: comparing a frame with itself yields cost 0, with or without
/// downscaling — identical planes differ by zero, and downscaling is a
/// function of the samples alone.
pub proof fn lemma_identical_frames_zero_cost(d: SceneChangeDetector, p: Plane)
    ensures
        d.fresh_pair_cost(p, p) == 0,
{
    crate::sad_plane::lemma_sad_self_zero(d.luma_repr(p), d.luma_repr(p).len() as int);
}

/// Law: scratch-buffer rotation leaks no stale data.  After a comparison
/// `(a, b)` the buffer retains exactly `b`'s representation (an `ensures`
/// of the comparator), so the rotated comparison `(b, c)` costs exactly
/// what a fresh detector comparing only `(b, c)` would compute.
pub proof fn lemma_rotation_matches_fresh(d: SceneChangeDetector, b: Plane, c: Plane)
    ensures
        d.pair_cost_from(Some(d.luma_repr(b)), b, c) == d.fresh_pair_cost(b, c),
{
}

/// Law: the hard-interval override.  Below the minimum keyframe interval
/// the detector never cuts; at or beyond the maximum (minimum permitting,
/// and given a window long enough to escape the short-window guard) it
/// always cuts, regardless of the adaptive signal.
pub proof fn lemma_hard_interval(d: SceneChangeDetector, lumas: Seq<Plane>, distance: u64)
    ensures
        distance < d.min_kf_interval ==> !d.detector_step(lumas, distance).3,
        (lumas.len() as int > d.lookahead_offset as int && d.min_kf_interval <= distance
            && d.max_kf_interval <= distance) ==> d.detector_step(lumas, distance).3,
{
}

/// Law: a window no longer than the lookahead offset yields no cut and
/// leaves the cost history, the decision offset and the retained
/// representation unchanged.
pub proof fn lemma_short_window_guard(d: SceneChangeDetector, lumas: Seq<Plane>, distance: u64)
    requires
        lumas.len() as int <= d.lookahead_offset as int,
    ensures
        d.detector_step(lumas, distance) == (
            d.score_deque@,
            d.deque_offset as int,
            d.buffer_last(),
            false,
        ),
{
}

/// Law: the cost history is bounded.  A well-formed detector holds at most
/// `5 + lookahead_offset` history entries, and the lookahead offset never
/// exceeds the lookahead distance it was configured from, so the history
/// never exceeds `5 + lookahead_distance` after any number of calls.
pub proof fn lemma_history_capacity(d: SceneChangeDetector, lookahead_distance: int)
    requires
        d.wf(),
        lookahead_distance >= 0,
        d.lookahead_offset as int == (if lookahead_distance >= 5 {
            5int
        } else {
            0int
        }),
    ensures
        d.score_deque@.len() <= 5 + d.lookahead_offset as int <= 5 + lookahead_distance,
{
}

impl SceneChangeDetector {
    /// Constructs a detector for one encoding session.
    pub fn new(
        bit_depth: usize,
        cpu_feature_level: CpuFeatureLevel,
        lookahead_distance: usize,
        max_frame_width: u32,
        max_frame_height: u32,
        min_kf_interval: u64,
        max_kf_interval: u64,
    ) -> (r: Self)
        requires
            8 <= bit_depth <= 16,
            1 <= max_frame_width,
            1 <= max_frame_height,
            max_frame_width as int * max_frame_height as int <= 0x2000_0000_0000,
        ensures
            r.wf(),
            r.score_deque@.len() == 0,
            r.frame_buffer is Empty,
            r.frame_width as int == max_frame_width as int,
            r.frame_height as int == max_frame_height as int,
            r.bit_depth == bit_depth,
            r.cpu_feature_level == cpu_feature_level,
            r.min_kf_interval == min_kf_interval,
            r.max_kf_interval == max_kf_interval,
            r.lookahead_offset as int == (if lookahead_distance >= 5 {
                5int
            } else {
                0int
            }),
            r.deque_offset == r.lookahead_offset,
            r.scale_factor == spec_scale_factor(max_frame_width as int, max_frame_height as int),
    {
        let scale_factor = detect_scale_factor(max_frame_width, max_frame_height);

        // Use the lookahead offset 5 if normal lookahead is available.
        let lookahead_offset: usize = if lookahead_distance >= 5 {
            5
        } else {
            0
        };
        let deque_offset = lookahead_offset;
        let score_deque: Vec<ScenecutResult> = Vec::new();

        // The downscaling factor is always a power of two.
        let factor: u64 = match scale_factor {
            Some(f) => f as u64,
            None => 1,
        };
        proof {
            fast::lemma_scale_factor_choices(max_frame_width as int, max_frame_height as int);
        }
        let ph = fast::fast_idiv(max_frame_height as u64, factor);
        let pw = fast::fast_idiv(max_frame_width as u64, factor);
        proof {
            vstd::arithmetic::div_mod::lemma_div_nonincreasing(max_frame_height as int, factor as int);
            vstd::arithmetic::div_mod::lemma_div_nonincreasing(max_frame_width as int, factor as int);
            if factor > 1 {
                vstd::arithmetic::div_mod::lemma_div_non_zero(max_frame_height as int, factor as int);
                vstd::arithmetic::div_mod::lemma_div_non_zero(max_frame_width as int, factor as int);
            }
            assert(1 <= ph as int * pw as int <= max_frame_height as int * max_frame_width as int)
                by (nonlinear_arith)
                requires
                    1 <= ph as int <= max_frame_height as int,
                    1 <= pw as int <= max_frame_width as int,
            ;
            assert(max_frame_height as int * max_frame_width as int == max_frame_width as int
                * max_frame_height as int) by (nonlinear_arith);
        }
        let pixels: u64 = ph * pw;
        proof {
            assert(FAST_THRESHOLD as int * bit_depth as int <= 288);
            assert(FAST_THRESHOLD as int * bit_depth as int * pixels as int <= 288
                * 0x2000_0000_0000) by (nonlinear_arith)
                requires
                    0 <= FAST_THRESHOLD as int * bit_depth as int <= 288,
                    0 <= pixels as int <= 0x2000_0000_0000,
            ;
        }
        let threshold: u64 = FAST_THRESHOLD * (bit_depth as u64) * pixels;

        Self {
            threshold,
            scale_factor,
            frame_buffer: FrameBuffer::Empty,
            lookahead_offset,
            deque_offset,
            score_deque,
            pixels,
            bit_depth,
            cpu_feature_level,
            min_kf_interval,
            max_kf_interval,
            frame_width: max_frame_width as usize,
            frame_height: max_frame_height as usize,
        }
    }

    /// Runs keyframe detection on the next frame in the lookahead queue.
    ///
    /// Windows must be presented in strict temporal order across successive
    /// calls, and `input_frameno` corresponds to the second frame of
    /// `frame_set`; this method is the only writer of detector state.  The
    /// first frame of the video is handled gracefully.
    pub fn analyze_next_frame(
        &mut self,
        frame_set: &[Arc<Frame>],
        input_frameno: u64,
        previous_keyframe: u64,
    ) -> (r: bool)
        requires
            old(self).wf(),
            previous_keyframe <= input_frameno,
            frame_set@.len() >= 2,
            frame_set@.len() as int <= 6 + old(self).lookahead_offset as int,
            old(self).valid_window(window_lumas(frame_set@)),
        ensures
            final(self).wf(),
            final(self).same_config(*old(self)),
            ({
                let step = old(self).detector_step(
                    window_lumas(frame_set@),
                    (input_frameno - previous_keyframe) as u64,
                );
                &&& final(self).score_deque@ == step.0
                &&& final(self).deque_offset as int == step.1
                &&& final(self).buffer_last() == step.2
                &&& r == step.3
            }),
            frame_set@.len() as int <= old(self).lookahead_offset as int ==> *final(self) == *old(
                self,
            ),
    {
        let ghost lumas = window_lumas(frame_set@);

        // Find the distance to the previous keyframe.
        let distance = input_frameno - previous_keyframe;

        if frame_set.len() <= self.lookahead_offset {
            // Don't insert keyframes in the last few frames of the video:
            // that is basically a scene flash and a waste of bits.
            return false;
        }

        // Initialization of the score deque based on the window length.
        if self.deque_offset > 0 && frame_set.len() > self.deque_offset + 1
            && self.score_deque.len() == 0 {
            let off = self.deque_offset;
            self.initialize_score_deque(frame_set, off);
        } else if self.score_deque.len() == 0 {
            let n = frame_set.len() - 1;
            self.initialize_score_deque(frame_set, n);
            self.deque_offset = frame_set.len() - 2;
        }
        proof {
            let primed = old(self).step_primed(lumas);
            assert(self.score_deque@ == primed.0);
            assert(self.deque_offset as int == primed.1);
            assert(self.buffer_last() == primed.2);
            assert(self.score_deque@.len() > 0);
        }

        // Run the single frame comparison, or decrease the deque offset if
        // no new frames remain in the window.
        if frame_set.len() > self.deque_offset + 1 {
            proof {
                let off = self.deque_offset as int;
                assert(lumas[off] == (*frame_set@[off]).luma);
                assert(lumas[off + 1] == (*frame_set@[off + 1]).luma);
                assert(lumas[off].wf() && lumas[off + 1].wf());
            }
            let frame1 = frame_set[self.deque_offset].clone();
            let frame2 = frame_set[self.deque_offset + 1].clone();
            self.run_comparison(frame1, frame2);
        } else {
            self.deque_offset = self.deque_offset - 1;
        }
        proof {
            let compared = old(self).step_compared(lumas);
            assert(self.score_deque@ == compared.0);
            assert(self.deque_offset as int == compared.1);
            assert(self.buffer_last() == compared.2);
        }

        // Adaptive scenecut check, then the hard-interval override.
        let scenecut = self.adaptive_scenecut();
        let scenecut = match self.handle_min_max_intervals(distance) {
            Some(forced) => forced,
            None => scenecut,
        };

        // Keep a score deque of 5 backward frames plus the lookahead offset.
        if self.score_deque.len() > 5 + self.lookahead_offset {
            self.score_deque.pop();
        }

        scenecut
    }

    /// Initially fills the score deque with the costs of the consecutive
    /// window pairs `(0,1) .. (init_len-1, init_len)`.
    #[verifier::loop_isolation(false)]
    fn initialize_score_deque(&mut self, frame_set: &[Arc<Frame>], init_len: usize)
        requires
            old(self).wf_config(),
            old(self).frame_buffer is Empty,
            old(self).score_deque@.len() == 0,
            init_len as int + 1 <= frame_set@.len(),
            old(self).valid_window(window_lumas(frame_set@)),
        ensures
            final(self).same_config(*old(self)),
            final(self).wf_buffer(),
            final(self).deque_offset == old(self).deque_offset,
            final(self).score_deque@ == old(self).primed_results(
                window_lumas(frame_set@),
                init_len as int,
            ),
            final(self).buffer_last() == (if init_len > 0 {
                Some(old(self).luma_repr(window_lumas(frame_set@)[init_len as int]))
            } else {
                None::<Seq<u16>>
            }),
    {
        let ghost lumas = window_lumas(frame_set@);
        for x in 0..init_len
            invariant
                self.same_config(*old(self)),
                self.wf_buffer(),
                self.deque_offset == old(self).deque_offset,
                self.score_deque@ == old(self).primed_results(lumas, x as int),
                self.buffer_last() == (if x > 0 {
                    Some(old(self).luma_repr(lumas[x as int]))
                } else {
                    None::<Seq<u16>>
                }),
        {
            proof {
                assert(lumas[x as int] == (*frame_set@[x as int]).luma);
                assert(lumas[x as int + 1] == (*frame_set@[x as int + 1]).luma);
                assert(lumas[x as int].wf() && lumas[x as int + 1].wf());
            }
            let frame1 = frame_set[x].clone();
            let frame2 = frame_set[x + 1].clone();
            self.run_comparison(frame1, frame2);
            proof {
                let inserted = old(self).primed_results(lumas, x as int).insert(
                    0,
                    old(self).cost_result(
                        old(self).fresh_pair_cost(lumas[x as int], lumas[x as int + 1]),
                    ),
                );
                assert(inserted =~= old(self).primed_results(lumas, x as int + 1));
            }
        }
    }

    /// Runs the scene change comparison between two frames and inserts the
    /// result at the front of the score deque.
    fn run_comparison(&mut self, frame1: Arc<Frame>, frame2: Arc<Frame>)
        requires
            old(self).wf_config(),
            old(self).wf_buffer(),
            (*frame1).luma.wf(),
            (*frame1).luma.width == old(self).frame_width,
            (*frame1).luma.height == old(self).frame_height,
            (*frame2).luma.wf(),
            (*frame2).luma.width == old(self).frame_width,
            (*frame2).luma.height == old(self).frame_height,
        ensures
            final(self).same_config(*old(self)),
            final(self).wf_buffer(),
            final(self).deque_offset == old(self).deque_offset,
            !(final(self).frame_buffer is Empty),
            final(self).buffer_last() == Some(old(self).luma_repr((*frame2).luma)),
            final(self).score_deque@ == old(self).score_deque@.insert(
                0,
                old(self).cost_result(
                    old(self).pair_cost_from(
                        old(self).buffer_last(),
                        (*frame1).luma,
                        (*frame2).luma,
                    ),
                ),
            ),
    {
        let result = self.fast_scenecut(frame1, frame2);
        self.score_deque.insert(0, result);
    }

    /// Forces the decision when the distance to the previous keyframe hits a
    /// hard bound: below the minimum interval no cut is placed, at or above
    /// the maximum a cut is forced.
    fn handle_min_max_intervals(&self, distance: u64) -> (r: Option<bool>)
        ensures
            r == spec_interval_override(distance, self.min_kf_interval, self.max_kf_interval),
    {
        if distance < self.min_kf_interval {
            return Some(false);
        }
        if distance >= self.max_kf_interval {
            return Some(true);
        }
        None
    }

    /// Compares the current scene score to a threshold adapted over the
    /// recorded history: returns true if the entry at the deque offset
    /// crosses its threshold and no flash-rejection rule suppresses it.
    fn adaptive_scenecut(&self) -> (r: bool)
        requires
            self.wf_config(),
            self.score_deque@.len() > 0,
            (self.deque_offset as int) < self.score_deque@.len(),
        ensures
            r == adaptive_decision(
                self.score_deque@,
                self.deque_offset as int,
                self.imp_block_threshold(),
            ),
    {
        let len = self.score_deque.len();
        proof {
            assert(IMP_BLOCK_DIFF_THRESHOLD as int * self.bit_depth as int <= 112);
            assert(IMP_BLOCK_DIFF_THRESHOLD as int * self.bit_depth as int * self.pixels as int
                <= 112 * 0x2000_0000_0000) by (nonlinear_arith)
                requires
                    0 <= IMP_BLOCK_DIFF_THRESHOLD as int * self.bit_depth as int <= 112,
                    0 <= self.pixels as int <= 0x2000_0000_0000,
            ;
        }
        // We use the importance block algorithm's cost metric as a secondary
        // check: it is very good at detecting hard scenecuts and pans, so a
        // frame is only considered when that metric is over its threshold on
        // this frame (hard scenecut) or within the past few frames (pan).
        // This filters out false positives of the cost-based algorithm.
        let imp_block_threshold: u64 = IMP_BLOCK_DIFF_THRESHOLD * (self.bit_depth as u64)
            * self.pixels;
        let mut found = false;
        let mut i = self.deque_offset;
        while i < len
            invariant
                self.deque_offset <= i <= len,
                len == self.score_deque@.len(),
                imp_block_threshold as int == self.imp_block_threshold(),
                found == exists|j: int|
                    self.deque_offset as int <= j < i && (#[trigger] self.score_deque@[j]).imp_block_cost
                        >= imp_block_threshold,
            decreases len - i,
        {
            if self.score_deque[i].imp_block_cost >= imp_block_threshold {
                found = true;
            }
            i = i + 1;
        }
        if !found {
            return false;
        }

        let score = self.score_deque[self.deque_offset];
        let cost = score.forward_adjusted_cost;
        if cost >= score.threshold {
            let mut back_over_tr_count: usize = 0;
            let mut i = self.deque_offset + 1;
            while i < len
                invariant
                    self.deque_offset as int + 1 <= i <= len,
                    len == self.score_deque@.len(),
                    back_over_tr_count == count_back_over(
                        self.score_deque@,
                        self.deque_offset as int + 1,
                        i as int,
                    ),
                decreases len - i,
            {
                proof {
                    lemma_count_back_bounds(
                        self.score_deque@,
                        self.deque_offset as int + 1,
                        i as int,
                    );
                }
                if self.score_deque[i].backward_adjusted_cost >= self.score_deque[i].threshold {
                    back_over_tr_count = back_over_tr_count + 1;
                }
                i = i + 1;
            }
            let mut forward_over_tr_count: usize = 0;
            let mut i: usize = 0;
            while i < self.deque_offset
                invariant
                    0 <= i <= self.deque_offset,
                    (self.deque_offset as int) < self.score_deque@.len(),
                    forward_over_tr_count == count_fwd_over(self.score_deque@, 0, i as int),
                decreases self.deque_offset - i,
            {
                proof {
                    lemma_count_fwd_bounds(self.score_deque@, 0, i as int);
                }
                if self.score_deque[i].forward_adjusted_cost >= self.score_deque[i].threshold {
                    forward_over_tr_count = forward_over_tr_count + 1;
                }
                i = i + 1;
            }

            // A cut after a flash needs several backward frames over their
            // threshold and none forward: the fast algorithm is sensitive to
            // false flash detection, so more evidence is required.
            if forward_over_tr_count == 0 && back_over_tr_count >= 2 {
                return true;
            }

            // A cut before a flash: exactly one forward frame over its
            // threshold, and it is the newest entry.
            if back_over_tr_count == 0 && forward_over_tr_count == 1 {
                proof {
                    lemma_count_fwd_bounds(self.score_deque@, 0, self.deque_offset as int);
                }
                let first = self.score_deque[0];
                if first.forward_adjusted_cost >= first.threshold {
                    return true;
                }
            }

            // Any other mix of threshold crossings around the decision frame
            // is an ambiguous flash pattern: suppress the cut.
            if back_over_tr_count != 0 || forward_over_tr_count != 0 {
                return false;
            }
        }

        cost >= score.threshold
    }
}

} // verus!
