use gswt::basis_branch_regions::{BasisGraphBranchDomain, BasisGraphRegionConfig};
use gswt::motion::MotionEditConfig;
use gswt::renderer::{
    base_tile_means, check_motion_splats, expand_to_sixteen, is_out_of_sight, plan_draws,
    plan_motion, plan_playback, playback_state_index, scene_uniforms, tile_uniforms, DrawSource,
    DrawStep, MotionRequest, PlaybackAction, SceneState, SortedSplats, SortedTile, SplatMismatch,
    TileInstance, TileTransitionStatus,
};

fn request() -> MotionRequest {
    let config = BasisGraphRegionConfig::default();
    MotionRequest {
        motion_ready: true,
        log_frame: 0,
        region_config: config,
        present_regions: config,
        region_ids: 4,
        splat_count: 4,
        has_runtime: true,
        edits_dirty: false,
        knots_dirty: false,
        has_knot_edits: false,
        clear_requested: false,
        refresh_requested: false,
        auto_refresh: false,
        authoring_stale: false,
        dragging: false,
    }
}

#[test]
fn motion_needs_a_row_per_splat() {
    assert_eq!(check_motion_splats(3, 3), Ok(()));
    let error = check_motion_splats(3, 4).unwrap_err();
    assert_eq!(error, SplatMismatch { motion: 3, scene: 4 });
    assert_eq!(
        error.message(),
        "shared-LoD0 motion splat count 3 does not match merged scene splat count 4"
    );
}

#[test]
fn means_are_the_first_words_of_a_splat() {
    let texture: Vec<u32> = (0..24).collect();
    assert_eq!(base_tile_means(&texture, 3), vec![[0, 1, 2], [8, 9, 10], [16, 17, 18]]);
}

#[test]
fn motion_work_follows_what_changed() {
    assert!(plan_motion(&MotionRequest { motion_ready: false, ..request() }).is_none());
    let idle = plan_motion(&request()).unwrap();
    assert_eq!(idle.log_frame, 1);
    assert!(idle.dispatch && !idle.assign_regions && !idle.write_edits && !idle.write_regions);
    assert!(!idle.refresh_branches && !idle.clear_branches && !idle.log_time);
    assert!(plan_motion(&MotionRequest { log_frame: 14, ..request() }).unwrap().log_time);
    assert_eq!(
        plan_motion(&MotionRequest { log_frame: u32::MAX, ..request() }).unwrap().log_frame,
        0
    );
    assert!(plan_motion(&MotionRequest { region_ids: 3, ..request() }).unwrap().write_regions);
    let mut other = BasisGraphRegionConfig::default();
    other.domain = BasisGraphBranchDomain::FbmRegions;
    other.region_count = 100;
    let plan = plan_motion(&MotionRequest { region_config: other, ..request() }).unwrap();
    assert!(plan.assign_regions);
    assert_eq!(plan.regions.region_count, 64);
    assert_eq!(plan.region_count, 64);
    let stale = MotionRequest { auto_refresh: true, authoring_stale: true, ..request() };
    assert!(plan_motion(&stale).unwrap().refresh_branches);
    assert!(!plan_motion(&MotionRequest { dragging: true, ..stale }).unwrap().refresh_branches);
    let asked = MotionRequest { refresh_requested: true, dragging: true, ..request() };
    assert!(plan_motion(&asked).unwrap().refresh_branches);
    let knots = MotionRequest { knots_dirty: true, has_knot_edits: true, ..request() };
    assert!(plan_motion(&knots).unwrap().write_knots);
    assert!(!plan_motion(&MotionRequest { has_runtime: false, ..knots }).unwrap().write_knots);
}

#[test]
fn playback_is_planned() {
    assert_eq!(plan_playback(false, true, true, true, true), PlaybackAction::Off);
    assert_eq!(plan_playback(true, true, false, true, true), PlaybackAction::Off);
    assert_eq!(plan_playback(true, true, true, true, true), PlaybackAction::Reset);
    assert_eq!(
        plan_playback(true, true, true, false, false),
        PlaybackAction::Advance { with_overrides: true }
    );
    assert_eq!(playback_state_index(1, 2, 4, 7), Some(6));
    assert_eq!(playback_state_index(1, 2, 4, 6), None);
    assert_eq!(playback_state_index(1, 4, 4, 100), None);
}

fn tile(lod: usize, sorted: Option<SortedSplats>, transition: TileTransitionStatus) -> TileInstance {
    TileInstance {
        map_index: 9,
        lod,
        tile: 3,
        view_id: 2,
        offset: [1.0_f32, 2.0, 3.0].map(f32::to_bits),
        map_coord: [4, 5],
        transition,
        sorted,
    }
}

#[test]
fn tile_uniforms_tell_how_a_tile_is_drawn() {
    let stable = tile_uniforms(&tile(1, None, TileTransitionStatus::Stable));
    assert_eq!(&stable[..8], &[0, 9, u32::MAX, 1, 0, u32::MAX, 0, 0]);
    assert_eq!(&stable[8..12], &[1, 3, 2, 0]);
    assert_eq!(f32::from_bits(stable[14]), 3.0);
    assert_eq!(&stable[16..], &[4, 5, 0, 0]);
    let changing =
        tile_uniforms(&tile(1, None, TileTransitionStatus::Changing { to_lower: false }));
    assert_eq!(&changing[..6], &[0, 9, u32::MAX, u32::MAX, 1, 0]);
    let sorted = SortedSplats { splat_count: 7, single_lod_id: -1 };
    let merged = tile_uniforms(&tile(1, Some(sorted), TileTransitionStatus::Stable));
    assert_eq!(&merged[..6], &[1, 9, u32::MAX, u32::MAX, 1, u32::MAX]);
    let sorted = SortedSplats { splat_count: 7, single_lod_id: 2 };
    let single = tile_uniforms(&tile(1, Some(sorted), TileTransitionStatus::Stable));
    assert_eq!(&single[..6], &[1, 9, 2, u32::MAX, 0, u32::MAX]);
}

fn corner(x: f32, y: f32, z: f32) -> [u32; 3] {
    [x.to_bits(), y.to_bits(), z.to_bits()]
}

#[test]
fn tiles_out_of_sight_are_left_out() {
    let clip = 1.2_f32.to_bits();
    assert!(!is_out_of_sight(&vec![corner(5.0, 5.0, 0.0), corner(-1.0, -1.0, 0.0)], clip));
    assert!(is_out_of_sight(&vec![corner(5.0, 0.0, 0.0), corner(-4.0, 0.0, 0.0)], clip));
    assert!(is_out_of_sight(&vec![corner(0.0, 2.0, 0.0)], clip));
    assert!(is_out_of_sight(&vec![corner(0.0, 0.0, -2.0), corner(0.0, 0.0, -1.5)], clip));
    assert!(!is_out_of_sight(&vec![corner(0.0, 0.0, -2.0), corner(0.0, 0.0, 1.0)], clip));
}

#[test]
fn draws_upload_one_behind_the_other() {
    let near = vec![corner(0.0, 0.0, 0.0)];
    let far = vec![corner(9.0, 0.0, 0.0)];
    let splats = |n| Some(SortedSplats { splat_count: n, single_lod_id: -1 });
    let one = Some(SortedSplats { splat_count: 2, single_lod_id: 0 });
    let of = |instance, parts, corners: &Vec<[u32; 3]>| SortedTile {
        instance,
        parts,
        corners: corners.clone(),
    };
    let stable = TileTransitionStatus::Stable;
    let up = TileTransitionStatus::Changing { to_lower: false };
    let tiles = vec![
        of(tile(0, splats(10), stable), 2, &far),
        of(tile(0, splats(20), stable), 1, &far),
        of(tile(0, one, stable), 1, &near),
        of(tile(1, splats(5), stable), 1, &near),
        of(tile(2, None, up), 1, &near),
        of(tile(9, None, stable), 1, &far),
        of(tile(0, None, up), 1, &far),
    ];
    let draws = plan_draws(&tiles, &vec![true, false, true], 1.2_f32.to_bits());
    assert_eq!(
        draws,
        vec![
            DrawStep {
                index: 0,
                uniform_offset: 0,
                source: DrawSource::Uploaded { offset: 0, size: 40, splat_count: 10, with_lods: true }
            },
            DrawStep {
                index: 2,
                uniform_offset: 512,
                source: DrawSource::Uploaded { offset: 40, size: 8, splat_count: 2, with_lods: false }
            },
            DrawStep {
                index: 4,
                uniform_offset: 1024,
                source: DrawSource::Prepared { lod: 1, tile: 3, view_id: 2 }
            },
        ]
    );
}

#[test]
fn scene_uniforms_are_laid_out_word_by_word() {
    let mut motion = MotionEditConfig::default();
    motion.load_wave_preset();
    let state = SceneState {
        splat_scale: 1,
        tile_width: 2,
        use_clip: true,
        clip_height: 3,
        surface_type: 4,
        sphere_radius: 5,
        draw_point_cloud: false,
        point_cloud_radius: 6,
        transition_width_ratio: 7,
        lod_count: 8,
        draw_mode: 9,
        map_half_size: [10, 11],
        center_coord: [-1, 12],
        transition_distances: vec![13, 14],
        height_map_scale: [15, 16, 17],
        scene_scale: [18, 19, 20],
        motion,
        animation_time: 21,
        heatmap_basis: 3,
        top_k: Some(4),
        active_top_k: None,
        heatmap_normalization: 0.0_f32.to_bits(),
    };
    let words = scene_uniforms(&state);
    assert_eq!(words.len(), 340);
    assert_eq!(&words[..16], &[1, 2, 1, 3, 4, 5, 0, 7, 8, 9, 10, 11, u32::MAX, 12, 0, 0]);
    assert_eq!(&words[16..20], &[13, 14, 0, 0]);
    assert_eq!(&words[32..40], &[15, 16, 17, 0, 18, 19, 20, 0]);
    assert_eq!(f32::from_bits(words[40]), 1.0);
    assert_eq!(words[44], 21);
    assert_eq!(&words[48..52].iter().map(|w| f32::from_bits(*w)).collect::<Vec<_>>(), &[3.0, 4.0, 4.0, 1e-6]);
    assert_eq!(words[52 + 6 * 4 + 2], state.motion.spline_groups[0].wave.knots[0][2]);
    assert_eq!(expand_to_sixteen(&[1; 20], 0), vec![1; 16]);
}
