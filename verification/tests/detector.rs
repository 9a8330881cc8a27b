//! End-to-end scenarios for the scene-cut detector.

use scenechange::{CpuFeatureLevel, Frame, Plane, SceneChangeDetector};
use std::sync::Arc;

fn gray_frame(width: usize, height: usize, value: u16) -> Arc<Frame> {
    Arc::new(Frame {
        luma: Plane {
            data: vec![value; width * height],
            width,
            height,
        },
    })
}

/// Feeds `frames` through a fresh detector the way an encoder's lookahead
/// would: for each decided frame `n`, the window starts at frame `n - 1`
/// and extends `window_size` frames (clipped at the end of the stream).
/// Returns the indices reported as scene cuts.
fn run_detector(
    frames: &[Arc<Frame>],
    lookahead_distance: usize,
    window_size: usize,
    min_kf: u64,
    max_kf: u64,
    width: u32,
    height: u32,
) -> Vec<usize> {
    let mut detector = SceneChangeDetector::new(
        8,
        CpuFeatureLevel::RUST,
        lookahead_distance,
        width,
        height,
        min_kf,
        max_kf,
    );
    let mut cuts = Vec::new();
    let mut last_kf = 0u64;
    for n in 1..frames.len() {
        let end = (n - 1 + window_size).min(frames.len());
        let window: Vec<Arc<Frame>> = frames[n - 1..end].to_vec();
        if window.len() < 2 {
            break;
        }
        if detector.analyze_next_frame(&window, n as u64, last_kf) {
            cuts.push(n);
            last_kf = n as u64;
        }
    }
    cuts
}

#[test]
fn identical_frames_never_cut() {
    let frames: Vec<_> = (0..10).map(|_| gray_frame(64, 48, 128)).collect();
    let cuts = run_detector(&frames, 5, 7, 0, 1000, 64, 48);
    assert!(cuts.is_empty());
}

#[test]
fn identical_frames_never_cut_downscaled() {
    let frames: Vec<_> = (0..10).map(|_| gray_frame(300, 260, 128)).collect();
    let cuts = run_detector(&frames, 5, 7, 0, 1000, 300, 260);
    assert!(cuts.is_empty());
}

#[test]
fn scene_transition_cuts_exactly_once() {
    // Frames 0-4 are one gray level, frames 5-9 a very different one: the
    // detector must report a cut exactly at the transition frame.
    let mut frames = Vec::new();
    for _ in 0..5 {
        frames.push(gray_frame(64, 48, 40));
    }
    for _ in 0..5 {
        frames.push(gray_frame(64, 48, 215));
    }
    let cuts = run_detector(&frames, 5, 7, 0, 1000, 64, 48);
    assert_eq!(cuts, vec![5]);
}

#[test]
fn scene_transition_cuts_exactly_once_downscaled() {
    let mut frames = Vec::new();
    for _ in 0..5 {
        frames.push(gray_frame(300, 260, 40));
    }
    for _ in 0..5 {
        frames.push(gray_frame(300, 260, 215));
    }
    let cuts = run_detector(&frames, 5, 7, 0, 1000, 300, 260);
    assert_eq!(cuts, vec![5]);
}

#[test]
fn single_flash_is_rejected() {
    // A single outlier frame between otherwise identical frames: at the
    // decision on the pair leaving the flash there is no forward evidence
    // and only one backward entry over threshold, so no cut may be placed.
    let mut frames: Vec<_> = (0..10).map(|_| gray_frame(64, 48, 60)).collect();
    frames[4] = gray_frame(64, 48, 250);
    let cuts = run_detector(&frames, 5, 7, 0, 1000, 64, 48);
    assert!(cuts.is_empty());
}

#[test]
fn cut_recognized_after_flash() {
    // Two transient frames before a stable new scene: once the decision
    // frame crosses its threshold with two backward entries over threshold
    // and none forward, the cut is recognized just after the flash.
    let mut frames = Vec::new();
    for _ in 0..3 {
        frames.push(gray_frame(64, 48, 10));
    }
    frames.push(gray_frame(64, 48, 200));
    frames.push(gray_frame(64, 48, 90));
    for _ in 5..10 {
        frames.push(gray_frame(64, 48, 150));
    }
    let cuts = run_detector(&frames, 5, 7, 0, 1000, 64, 48);
    assert_eq!(cuts, vec![5]);
}

#[test]
fn cut_recognized_before_flash() {
    // With a short lookahead the decision offset starts at 0 and grows from
    // the window: a cut right before a later flash is recognized when the
    // newest entry is the only forward entry over threshold.
    let mut frames = Vec::new();
    for _ in 0..5 {
        frames.push(gray_frame(64, 48, 10));
    }
    frames.push(gray_frame(64, 48, 100));
    frames.push(gray_frame(64, 48, 100));
    for _ in 7..10 {
        frames.push(gray_frame(64, 48, 200));
    }
    let cuts = run_detector(&frames, 2, 4, 0, 1000, 64, 48);
    assert_eq!(cuts, vec![5]);
}

#[test]
fn min_interval_suppresses_real_transition() {
    let mut frames = Vec::new();
    for _ in 0..5 {
        frames.push(gray_frame(64, 48, 40));
    }
    for _ in 0..5 {
        frames.push(gray_frame(64, 48, 215));
    }
    let cuts = run_detector(&frames, 5, 7, 1000, 2000, 64, 48);
    assert!(cuts.is_empty());
}

#[test]
fn max_interval_forces_cuts() {
    // Identical frames give no adaptive signal, but every third frame the
    // maximum interval forces a cut (while the window is long enough to
    // escape the end-of-stream guard).
    let frames: Vec<_> = (0..12).map(|_| gray_frame(64, 48, 128)).collect();
    let cuts = run_detector(&frames, 5, 7, 0, 3, 64, 48);
    assert_eq!(cuts, vec![3, 6]);
}

#[test]
fn min_interval_takes_precedence_over_max() {
    // When the distance is below the minimum and at the maximum at once,
    // the minimum wins and no cut is forced.
    let frames: Vec<_> = (0..12).map(|_| gray_frame(64, 48, 128)).collect();
    let cuts = run_detector(&frames, 5, 7, 1000, 3, 64, 48);
    assert!(cuts.is_empty());
}

#[test]
fn history_never_exceeds_capacity() {
    let frames: Vec<_> = (0..30).map(|i| gray_frame(64, 48, (i * 7 % 256) as u16)).collect();
    let mut detector =
        SceneChangeDetector::new(8, CpuFeatureLevel::RUST, 5, 64, 48, 0, 1000);
    let mut last_kf = 0u64;
    for n in 1..frames.len() {
        let end = (n - 1 + 7).min(frames.len());
        let window: Vec<Arc<Frame>> = frames[n - 1..end].to_vec();
        if window.len() < 2 {
            break;
        }
        if detector.analyze_next_frame(&window, n as u64, last_kf) {
            last_kf = n as u64;
        }
        assert!(detector.score_deque.len() <= 5 + 5);
    }
}

#[test]
fn history_never_exceeds_capacity_short_lookahead() {
    let frames: Vec<_> = (0..30).map(|i| gray_frame(64, 48, (i * 11 % 256) as u16)).collect();
    let mut detector =
        SceneChangeDetector::new(8, CpuFeatureLevel::RUST, 2, 64, 48, 0, 1000);
    let mut last_kf = 0u64;
    for n in 1..frames.len() {
        let end = (n - 1 + 4).min(frames.len());
        let window: Vec<Arc<Frame>> = frames[n - 1..end].to_vec();
        if window.len() < 2 {
            break;
        }
        if detector.analyze_next_frame(&window, n as u64, last_kf) {
            last_kf = n as u64;
        }
        assert!(detector.score_deque.len() <= 5 + 2);
    }
}

#[test]
fn short_window_returns_false_and_keeps_state() {
    // A window no longer than the lookahead offset is the end-of-stream
    // guard: the call returns false and leaves the detector untouched.
    let frames: Vec<_> = (0..3).map(|_| gray_frame(64, 48, 128)).collect();
    let mut detector =
        SceneChangeDetector::new(8, CpuFeatureLevel::RUST, 5, 64, 48, 0, 1000);
    let window: Vec<Arc<Frame>> = frames.to_vec();
    let cut = detector.analyze_next_frame(&window, 1, 0);
    assert!(!cut);
    assert_eq!(detector.score_deque.len(), 0);
    assert_eq!(detector.deque_offset, 5);
}

#[test]
fn scene_transition_cuts_high_bit_depth() {
    let mut frames = Vec::new();
    for _ in 0..5 {
        frames.push(gray_frame(64, 48, 100));
    }
    for _ in 0..5 {
        frames.push(gray_frame(64, 48, 800));
    }
    let mut detector =
        SceneChangeDetector::new(10, CpuFeatureLevel::RUST, 5, 64, 48, 0, 1000);
    let mut cuts = Vec::new();
    let mut last_kf = 0u64;
    for n in 1..frames.len() {
        let end = (n - 1 + 7).min(frames.len());
        let window: Vec<Arc<Frame>> = frames[n - 1..end].to_vec();
        if window.len() < 2 {
            break;
        }
        if detector.analyze_next_frame(&window, n as u64, last_kf) {
            cuts.push(n);
            last_kf = n as u64;
        }
    }
    assert_eq!(cuts, vec![5]);
}

#[test]
fn short_first_window_recomputes_offset() {
    // A six-frame stream with full lookahead: the first productive call
    // sees the whole remaining window, primes across it and shrinks the
    // decision offset to fit.
    let frames: Vec<_> = (0..6).map(|_| gray_frame(64, 48, 128)).collect();
    let mut detector =
        SceneChangeDetector::new(8, CpuFeatureLevel::RUST, 5, 64, 48, 0, 1000);
    let window: Vec<Arc<Frame>> = frames.to_vec();
    let cut = detector.analyze_next_frame(&window, 1, 0);
    assert!(!cut);
    assert_eq!(detector.deque_offset, 4);
    assert_eq!(detector.score_deque.len(), 6);
}
