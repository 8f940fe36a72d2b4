use gswt::catmull_rom_files::CatmullRomMotionMeta;
use gswt::catmull_rom_loading::CatmullRomMotionSet;
use gswt::catmull_rom_motion::{CatmullRomMotionTeacher, CatmullRomTimeSampling};
use gswt::catmull_rom_motion_gpu::{
    check_knot_data, check_upload, compatibility_uniform, finite_samples, knot_preview_fraction,
    knot_texels, knot_texture_layout, knot_uploads, motion_uniform, plan_compatibility,
    plan_texture_comparison, reduce_partials, sample_at_rank, source_volume_key_count,
    texture_compare_uniform, volume_comparison_fraction, volume_comparison_knot_count,
    worst_knot_and_splat, worst_splat_within, CatmullRomGpuError, KnotTextureLayout,
    MotionCompatibilityScope, PartialStats,
};
use gswt::pickle::PickleNumber;

fn bits(values: &[f32]) -> Vec<u32> {
    values.iter().map(|v| v.to_bits()).collect()
}

fn p95(samples: &[f32]) -> f32 {
    let finite = finite_samples(&bits(samples));
    let rank = ((finite.len().max(1) - 1) as f32 * 0.95).round() as usize;
    f32::from_bits(sample_at_rank(&finite, rank))
}

fn mean(sum: impl Fn(&PartialStats) -> u32, partials: &[PartialStats], count: u64) -> f32 {
    let total: f64 = partials.iter().map(|p| f32::from_bits(sum(p)) as f64).sum();
    (total / count as f64) as f32
}

fn meta() -> CatmullRomMotionMeta {
    CatmullRomMotionMeta {
        knot_count: 28,
        include_lods: vec![0],
        sample_times: (0..28).map(|i| (i as f32 / 28.0).to_bits()).collect(),
        time_sampling: CatmullRomTimeSampling::Periodic,
        has_time_sampling_field: true,
        periodic_flag: true,
        motion_teacher: CatmullRomMotionTeacher::Volume,
        volume_res: Some(64),
        volume_key_count: Some(25),
        source_knot_count: Some(25),
        exported_knot_count: Some(28),
        loop_closure_knots: Some(3),
        loop_closure_method: Some("cubic_hermite".to_string()),
        source_frame_count: Some(75),
        source_fps: Some(PickleNumber::Double { bits: 30.0_f64.to_bits() }),
        duration_seconds: Some(PickleNumber::Double { bits: 2.5_f64.to_bits() }),
    }
}

fn motion() -> CatmullRomMotionSet {
    CatmullRomMotionSet {
        meta: meta(),
        total_splats: 1,
        global_knots: vec![0; 28 * 3],
    }
}

#[test]
fn catmull_rom_motion_uniform_is_32_bytes() {
    let sizes = check_upload(&motion()).unwrap();
    let words = motion_uniform(0.5_f32.to_bits(), 2048, 4096, sizes);
    assert_eq!(std::mem::size_of_val(&words), 32);
    assert_eq!(words[0], 0.5_f32.to_bits());
    assert_eq!(words[1], 1);
}

#[test]
fn compatibility_uniform_and_partial_stats_have_expected_layout() {
    let sizes = check_upload(&motion()).unwrap();
    let plan =
        plan_compatibility(sizes, Some((64, 25)), MotionCompatibilityScope::AllKnots, 0).unwrap();
    let words = compatibility_uniform(plan, sizes, 4096, MotionCompatibilityScope::AllKnots);
    assert_eq!(std::mem::size_of_val(&words), 48);
    assert_eq!(words[0], 25);
    assert_eq!(plan.plan.partial_bytes % 64, 0);
    let plan = plan_texture_comparison(3).unwrap();
    let words = texture_compare_uniform(plan, 3, 2048);
    assert_eq!(std::mem::size_of_val(&words), 32);
    assert_eq!(&words[..3], &[3, 3, 2048]);
    assert_eq!(plan.partial_bytes, 48);
}

#[test]
fn partials_are_read_word_by_word() {
    let words: [u32; 16] = std::array::from_fn(|i| i as u32 + 1);
    let p = PartialStats::from_compatibility_words(&words);
    assert_eq!((p.count, p.worst_item, p.nonzero_error_count), (1, 2, 3));
    assert_eq!((p.nonzero_first_count, p.nonzero_second_count), (4, 5));
    assert_eq!((p.sum_error, p.sum_error_sq, p.max_error), (9, 10, 11));
    assert_eq!((p.sum_first_magnitude, p.max_first_magnitude), (12, 13));
    assert_eq!((p.sum_second_magnitude, p.max_second_magnitude), (14, 15));
    let words: [u32; 12] = std::array::from_fn(|i| i as u32 + 1);
    let p = PartialStats::from_texture_words(&words);
    assert_eq!((p.count, p.worst_item, p.nonzero_error_count), (1, 2, 3));
    assert_eq!((p.sum_error, p.sum_error_sq, p.max_error), (5, 6, 7));
    assert_eq!((p.sum_first_magnitude, p.max_first_magnitude), (8, 9));
    assert_eq!((p.sum_second_magnitude, p.max_second_magnitude), (10, 11));
}

fn partial(counts: [u32; 5], values: [f32; 7]) -> PartialStats {
    PartialStats {
        count: counts[0],
        worst_item: counts[1],
        nonzero_error_count: counts[2],
        nonzero_first_count: counts[3],
        nonzero_second_count: counts[4],
        sum_error: values[0].to_bits(),
        sum_error_sq: values[1].to_bits(),
        max_error: values[2].to_bits(),
        sum_first_magnitude: values[3].to_bits(),
        max_first_magnitude: values[4].to_bits(),
        sum_second_magnitude: values[5].to_bits(),
        max_second_magnitude: values[6].to_bits(),
    }
}

#[test]
fn compatibility_reduction_reports_aggregate_errors() {
    let partials = [
        partial([2, 1, 2, 1, 2], [3.0, 5.0, 2.0, 10.0, 7.0, 12.0, 8.0]),
        partial([1, 4, 1, 1, 1], [4.0, 16.0, 4.0, 5.0, 5.0, 6.0, 6.0]),
    ];
    let samples = [1.0, 4.0, 2.0];

    let result = reduce_partials(&partials);
    let (worst_knot, worst_splat) =
        worst_knot_and_splat(MotionCompatibilityScope::AllKnots, result.worst_item, 3, 0);

    assert_eq!(worst_knot, 1);
    assert_eq!(worst_splat, 1);
    assert_eq!(result.count, 3);
    assert_eq!(result.nonzero_error_count, 3);
    assert_eq!(result.nonzero_first_count, 2);
    assert_eq!(result.nonzero_second_count, 3);
    assert_eq!(finite_samples(&bits(&samples)).len(), 3);
    let mean_error = mean(|p| p.sum_error, &partials, result.count);
    let mean_square = mean(|p| p.sum_error_sq, &partials, result.count);
    assert!((mean_error - 7.0 / 3.0).abs() < 1e-6);
    assert!((mean_square.sqrt() - (21.0_f32 / 3.0).sqrt()).abs() < 1e-6);
    assert!((mean(|p| p.sum_first_magnitude, &partials, result.count) - 5.0).abs() < 1e-6);
    assert_eq!(f32::from_bits(result.max_first_magnitude), 7.0);
    assert!((mean(|p| p.sum_second_magnitude, &partials, result.count) - 6.0).abs() < 1e-6);
    assert_eq!(f32::from_bits(result.max_second_magnitude), 8.0);
    assert_eq!(f32::from_bits(result.max_error), 4.0);
    assert_eq!(p95(&samples), 4.0);
}

#[test]
fn selected_knot_reduction_reports_selected_knot_as_worst_knot() {
    let partials = [partial([1, 42, 1, 0, 1], [0.25, 0.0625, 0.25, 0.0, 0.0, 0.25, 0.25])];

    let result = reduce_partials(&partials);
    let (worst_knot, worst_splat) = worst_knot_and_splat(
        MotionCompatibilityScope::SelectedKnot,
        result.worst_item,
        100,
        7,
    );

    assert_eq!(worst_knot, 7);
    assert_eq!(worst_splat, 42);
    let sizes = check_upload(&motion()).unwrap();
    let plan =
        plan_compatibility(sizes, Some((64, 25)), MotionCompatibilityScope::SelectedKnot, 7)
            .unwrap();
    assert_eq!(plan.plan.item_count, 1);
    assert_eq!(plan.selected_knot, 7);
}

#[test]
fn texture_compare_reduction_reports_zero_for_identical_means() {
    let partials = [partial([2, 0, 0, 0, 0], [0.0, 0.0, 0.0, 10.0, 6.0, 10.0, 6.0])];

    let result = reduce_partials(&partials);

    assert_eq!(result.count, 2);
    assert_eq!(result.nonzero_error_count, 0);
    assert_eq!(mean(|p| p.sum_error, &partials, result.count), 0.0);
    assert_eq!(mean(|p| p.sum_error_sq, &partials, result.count).sqrt(), 0.0);
    assert_eq!(f32::from_bits(result.max_error), 0.0);
    assert_eq!(p95(&[0.0, 0.0]), 0.0);
    assert!((mean(|p| p.sum_first_magnitude, &partials, result.count) - 5.0).abs() < 1e-6);
    assert!((mean(|p| p.sum_second_magnitude, &partials, result.count) - 5.0).abs() < 1e-6);
    assert_eq!(worst_splat_within(result.worst_item, 2), 0);
}

#[test]
fn texture_compare_reduction_reports_nonzero_final_mean_errors() {
    let partials = [
        partial([2, 1, 1, 0, 0], [3.0, 9.0, 3.0, 12.0, 7.0, 11.0, 6.0]),
        partial([1, 2, 1, 0, 0], [4.0, 16.0, 4.0, 5.0, 5.0, 9.0, 9.0]),
    ];

    let result = reduce_partials(&partials);

    assert_eq!(result.count, 3);
    assert_eq!(result.nonzero_error_count, 2);
    assert!((mean(|p| p.sum_error, &partials, result.count) - 7.0 / 3.0).abs() < 1e-6);
    assert!(
        (mean(|p| p.sum_error_sq, &partials, result.count).sqrt() - (25.0_f32 / 3.0).sqrt()).abs()
            < 1e-6
    );
    assert_eq!(f32::from_bits(result.max_error), 4.0);
    assert_eq!(p95(&[3.0, 0.0, 4.0]), 4.0);
    assert_eq!(worst_splat_within(result.worst_item, 3), 2);
    assert!((mean(|p| p.sum_first_magnitude, &partials, result.count) - 17.0 / 3.0).abs() < 1e-6);
    assert_eq!(f32::from_bits(result.max_first_magnitude), 7.0);
    assert!((mean(|p| p.sum_second_magnitude, &partials, result.count) - 20.0 / 3.0).abs() < 1e-6);
    assert_eq!(f32::from_bits(result.max_second_magnitude), 9.0);
}

fn preview_time(selected: u32, knots: u32, volume_keys: bool) -> f32 {
    match knot_preview_fraction(selected, knots, volume_keys) {
        Some((n, d)) => n as f32 / d as f32,
        None => 0.0,
    }
}

#[test]
fn selected_knot_time_handles_volume_key_and_periodic_assets() {
    assert!((preview_time(24, 25, true) - 1.0).abs() < 1e-6);
    assert!((preview_time(24, 25, false) - 24.0 / 25.0).abs() < 1e-6);
    assert_eq!(preview_time(100, 25, true), 1.0);
    assert_eq!(preview_time(0, 0, true), 0.0);
}

#[test]
fn volume_comparison_uses_source_knots_for_loop_closure_assets() {
    let motion = motion();

    assert_eq!(volume_comparison_knot_count(&motion.meta), 25);
    assert_eq!(source_volume_key_count(&motion.meta), 25);
    let sizes = check_upload(&motion).unwrap();
    assert_eq!(volume_comparison_fraction(sizes, 100), Some((24, 24)));
}

#[test]
fn catmull_rom_knot_texture_layout_covers_all_knots() {
    let layout = knot_texture_layout(1000, 32, 8192).unwrap();
    assert_eq!(layout.width, 4096);
    assert!(layout.width * layout.height >= layout.total_knots);
    assert_eq!(layout.total_knots, 32_000);
}

#[test]
fn catmull_rom_knot_texture_layout_expands_width_to_fit_height_limit() {
    let layout = knot_texture_layout(2_641_692, 32, 16_384).unwrap();
    assert!(layout.width > 4096);
    assert!(layout.width <= 16_384);
    assert!(layout.height <= 16_384);
    assert!(layout.width * layout.height >= layout.total_knots);
}

#[test]
fn layouts_beyond_the_limits_are_refused() {
    assert_eq!(knot_texture_layout(usize::MAX, 2, 8192), Err(CatmullRomGpuError::KnotOverflow));
    assert_eq!(
        knot_texture_layout(u32::MAX as usize, 2, 8192),
        Err(CatmullRomGpuError::TooManyKnots)
    );
    let error = knot_texture_layout(2_641_692, 32, 64).unwrap_err();
    assert!(matches!(
        error,
        CatmullRomGpuError::TextureWidth { .. }
            | CatmullRomGpuError::TextureHeight { .. }
            | CatmullRomGpuError::TextureLimit { .. }
    ));
    assert!(!error.message().is_empty());
}

#[test]
fn uploads_cover_every_row_once() {
    let layout = KnotTextureLayout { width: 16_384, height: 1000, total_knots: 16_384_000 };
    let uploads = knot_uploads(layout);
    assert!(uploads.len() > 1);
    let mut next = 0;
    for (row, rows) in uploads {
        assert_eq!(row, next);
        assert!(rows > 0);
        assert!(rows as u64 * 16_384 * 16 <= 67_108_864);
        next += rows;
    }
    assert_eq!(next, 1000);
}

#[test]
fn texels_hold_a_knot_each() {
    let layout = KnotTextureLayout { width: 2, height: 2, total_knots: 3 };
    let knots = bits(&[1.0, 2.0, 3.0, 4.0, 5.0, 6.0, 7.0, 8.0, 9.0]);
    assert_eq!(check_knot_data(layout, 9), Ok(()));
    assert_eq!(
        check_knot_data(layout, 8),
        Err(CatmullRomGpuError::KnotData { found: 8, expected: 9 })
    );
    let texels = knot_texels(&knots, layout, 1, 1);
    assert_eq!(texels[0].to_vec(), bits(&[7.0, 8.0, 9.0, 0.0]));
    assert_eq!(texels[1].to_vec(), bits(&[0.0, 0.0, 0.0, 0.0]));
}

#[test]
fn comparisons_need_something_to_compare() {
    assert!(plan_texture_comparison(0).is_err());
    let sizes = check_upload(&motion()).unwrap();
    assert!(plan_compatibility(sizes, None, MotionCompatibilityScope::AllKnots, 0).is_err());
    let large = plan_texture_comparison(10_000_000).unwrap();
    assert!(large.sample_count <= 131_072);
    assert_eq!(
        large.readback_bytes(),
        large.partial_bytes + large.sample_bytes
    );
    let mut bad = motion();
    bad.global_knots.pop();
    assert_eq!(
        check_upload(&bad),
        Err(CatmullRomGpuError::ValueCount { found: 83, expected: 84 })
    );
    assert!(check_upload(&bad).unwrap_err().message().contains("83"));
}

#[test]
fn ranks_ignore_what_is_not_finite() {
    let samples = [f32::NAN, 3.0, f32::INFINITY, 1.0];
    assert_eq!(finite_samples(&bits(&samples)), bits(&[3.0, 1.0]));
    assert_eq!(f32::from_bits(sample_at_rank(&bits(&[3.0, 1.0]), 0)), 1.0);
    assert_eq!(f32::from_bits(sample_at_rank(&bits(&[3.0, 1.0]), 9)), 3.0);
    assert_eq!(sample_at_rank(&Vec::new(), 0), 0);
}
