//! Unit checks for the downscale policy, the downscale transform, and the
//! frame-pair comparator.

use scenechange::{detect_scale_factor, CpuFeatureLevel, Frame, Plane, SceneChangeDetector};
use std::sync::Arc;

fn plane_from(data: Vec<u16>, width: usize, height: usize) -> Plane {
    assert_eq!(data.len(), width * height);
    Plane {
        data,
        width,
        height,
    }
}

fn frame_with(data: Vec<u16>, width: usize, height: usize) -> Arc<Frame> {
    Arc::new(Frame {
        luma: plane_from(data, width, height),
    })
}

fn patterned_frame(width: usize, height: usize, mul: usize, modulus: usize) -> Arc<Frame> {
    let data: Vec<u16> = (0..width * height).map(|i| ((i * mul) % modulus) as u16).collect();
    frame_with(data, width, height)
}

#[test]
fn downscale_policy_table() {
    assert_eq!(detect_scale_factor(100, 100), None);
    assert_eq!(detect_scale_factor(320, 240), None);
    assert_eq!(detect_scale_factor(426, 241), Some(2));
    assert_eq!(detect_scale_factor(640, 480), Some(2));
    assert_eq!(detect_scale_factor(1280, 720), Some(4));
    assert_eq!(detect_scale_factor(1920, 1080), Some(8));
    assert_eq!(detect_scale_factor(2560, 1600), Some(16));
    assert_eq!(detect_scale_factor(3840, 2160), Some(32));
}

#[test]
fn downscale_policy_monotone_in_smaller_edge() {
    let edges = [1u32, 240, 241, 480, 481, 720, 721, 1080, 1081, 1600, 1601, 4000];
    let mut previous = 1usize;
    for &edge in edges.iter() {
        let factor = detect_scale_factor(8192, edge).map_or(1, |f| f);
        assert!(factor >= previous);
        assert!(factor.is_power_of_two());
        previous = factor;
    }
}

#[test]
fn downscale_box_average_rounds_to_nearest() {
    let plane = plane_from(
        vec![
            10, 20, 30, 40,
            50, 60, 70, 80,
            5, 5, 9, 9,
            5, 5, 9, 9,
        ],
        4,
        4,
    );
    let scaled = plane.downscale(2);
    assert_eq!(scaled.width, 2);
    assert_eq!(scaled.height, 2);
    assert_eq!(scaled.data, vec![35, 55, 5, 9]);
}

#[test]
fn downscale_constant_plane_stays_constant() {
    let plane = plane_from(vec![123; 64 * 32], 64, 32);
    let scaled = plane.downscale(4);
    assert_eq!(scaled.width, 16);
    assert_eq!(scaled.height, 8);
    assert!(scaled.data.iter().all(|&s| s == 123));
}

#[test]
fn comparator_cost_zero_for_identical_frames() {
    let mut detector = SceneChangeDetector::new(8, CpuFeatureLevel::RUST, 5, 64, 48, 0, 1000);
    let a = patterned_frame(64, 48, 3, 251);
    let result = detector.fast_scenecut(a.clone(), a.clone());
    assert_eq!(result.imp_block_cost, 0);
    assert_eq!(result.forward_adjusted_cost, 0);
    assert_eq!(result.backward_adjusted_cost, 0);
}

#[test]
fn comparator_cost_zero_for_identical_frames_downscaled() {
    let mut detector = SceneChangeDetector::new(8, CpuFeatureLevel::RUST, 5, 300, 260, 0, 1000);
    let a = patterned_frame(300, 260, 7, 199);
    let result = detector.fast_scenecut(a.clone(), a.clone());
    assert_eq!(result.imp_block_cost, 0);
}

#[test]
fn comparator_cost_exact_value() {
    // 4x4 frames all 10 vs all 30: SAD = 16 * 20 = 320, stored cost is
    // 8 * SAD = 2560; the stored threshold is 18 * bit_depth * pixels.
    let mut detector = SceneChangeDetector::new(8, CpuFeatureLevel::RUST, 5, 4, 4, 0, 1000);
    let a = frame_with(vec![10; 16], 4, 4);
    let b = frame_with(vec![30; 16], 4, 4);
    let result = detector.fast_scenecut(a, b);
    assert_eq!(result.forward_adjusted_cost, 2560);
    assert_eq!(result.backward_adjusted_cost, 2560);
    assert_eq!(result.imp_block_cost, 2560);
    assert_eq!(result.threshold, 18 * 8 * 16);
}

#[test]
fn comparator_cost_exact_value_downscaled() {
    // 300x260 frames, factor 2, pixels = 150 * 130; constant gray levels
    // survive the box average, so SAD = pixels * 20.
    let mut detector = SceneChangeDetector::new(8, CpuFeatureLevel::RUST, 5, 300, 260, 0, 1000);
    let pixels: u64 = 150 * 130;
    let a = frame_with(vec![10; 300 * 260], 300, 260);
    let b = frame_with(vec![30; 300 * 260], 300, 260);
    let result = detector.fast_scenecut(a, b);
    assert_eq!(result.forward_adjusted_cost, 8 * pixels * 20);
    assert_eq!(result.threshold, 18 * 8 * pixels);
}

#[test]
fn rotation_matches_fresh_comparison() {
    // Comparing (A, B) then (B, C) must cost the (B, C) pair the same as a
    // fresh detector comparing only (B, C): rotation leaks no stale data.
    let a = patterned_frame(300, 260, 3, 251);
    let b = patterned_frame(300, 260, 5, 239);
    let c = patterned_frame(300, 260, 11, 227);

    let mut warmed = SceneChangeDetector::new(8, CpuFeatureLevel::RUST, 5, 300, 260, 0, 1000);
    warmed.fast_scenecut(a.clone(), b.clone());
    let rotated = warmed.fast_scenecut(b.clone(), c.clone());

    let mut fresh = SceneChangeDetector::new(8, CpuFeatureLevel::RUST, 5, 300, 260, 0, 1000);
    let direct = fresh.fast_scenecut(b.clone(), c.clone());

    assert_eq!(rotated.forward_adjusted_cost, direct.forward_adjusted_cost);
    assert_eq!(rotated.backward_adjusted_cost, direct.backward_adjusted_cost);
    assert_eq!(rotated.imp_block_cost, direct.imp_block_cost);
}

#[test]
fn rotation_matches_fresh_comparison_full_resolution() {
    let a = patterned_frame(64, 48, 3, 251);
    let b = patterned_frame(64, 48, 5, 239);
    let c = patterned_frame(64, 48, 11, 227);

    let mut warmed = SceneChangeDetector::new(8, CpuFeatureLevel::RUST, 5, 64, 48, 0, 1000);
    warmed.fast_scenecut(a.clone(), b.clone());
    let rotated = warmed.fast_scenecut(b.clone(), c.clone());

    let mut fresh = SceneChangeDetector::new(8, CpuFeatureLevel::RUST, 5, 64, 48, 0, 1000);
    let direct = fresh.fast_scenecut(b, c);

    assert_eq!(rotated.forward_adjusted_cost, direct.forward_adjusted_cost);
}

#[test]
fn cpu_feature_levels_are_ranked() {
    assert_eq!(CpuFeatureLevel::len(), 7);
    assert_eq!(CpuFeatureLevel::RUST.as_index(), 0);
    assert_eq!(CpuFeatureLevel::SSE2.as_index(), 1);
    assert_eq!(CpuFeatureLevel::SSSE3.as_index(), 2);
    assert_eq!(CpuFeatureLevel::SSE4_1.as_index(), 3);
    assert_eq!(CpuFeatureLevel::AVX2.as_index(), 4);
    assert_eq!(CpuFeatureLevel::AVX512.as_index(), 5);
    assert_eq!(CpuFeatureLevel::AVX512ICL.as_index(), 6);
    assert!(CpuFeatureLevel::RUST < CpuFeatureLevel::AVX2);
}
