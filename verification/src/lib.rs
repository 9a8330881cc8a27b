//! Keyframe (scene-cut) detection for a video encoder's lookahead pipeline.
//!
//! Given a sliding window of decoded frames, the detector emits, frame by
//! frame, a boolean "start a new scene here" decision.  The decision engine
//! keeps a bounded history of frame-pair difference costs, applies a flash
//! rejection heuristic over that history, and enforces hard minimum/maximum
//! keyframe intervals.

mod cpu_features;
mod frame;
mod sad_plane;
mod scenechange;

pub use cpu_features::CpuFeatureLevel;
pub use frame::{downscale_seq, scaled_sample, Frame, Plane};
pub use sad_plane::{sad_seq, lemma_sad_self_zero};
pub use scenechange::{
    adaptive_decision, count_back_over, count_fwd_over, detect_scale_factor, imp_evidence,
    lemma_hard_interval, lemma_history_capacity, lemma_identical_frames_zero_cost,
    lemma_rotation_matches_fresh, lemma_scale_factor_choices, lemma_scale_factor_monotone,
    lemma_scale_factor_power_of_two, lemma_short_window_guard, scale_factor_value,
    spec_interval_override, spec_scale_factor,
    window_lumas, FrameBuffer, SceneChangeDetector, ScenecutResult, FAST_THRESHOLD,
    IMP_BLOCK_DIFF_THRESHOLD,
};
