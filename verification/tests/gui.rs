use gswt::basis_bank_edit::{BasisEditOverride, BasisKnotEditPlane, BasisKnotEditState};
use gswt::basis_branch_regions::{BasisGraphBranchDomain, BasisGraphRegionConfig};
use gswt::basis_graph_authoring::BasisGraphAuthoringRefreshSummary;
use gswt::basis_graph_playback::{
    BasisBranchRejection, BasisGraphLastEdge, BasisGraphPlaybackConfig, BasisGraphPlaybackPolicy,
};
use gswt::basis_motion_graph::BasisMotionGraphBranch;
use gswt::batch_selection::{basis_batch_ids, parse_basis_batch_selection};
use gswt::gui::{
    apply_basis_batch_scalar_edit, apply_basis_graph_quality_preset, apply_graph_controls,
    basis_graph_quality_preset, basis_graph_quality_preset_label, basis_projection_edit_plane,
    best_target, clamp_active_top_k, clamp_selection, next_segment, project_basis_point,
    quality_choice, reset_all_basis_authoring_edits, reset_basis_batch_scalar_edits, reset_knots,
    reset_selected_basis_authoring_edits, switch_heatmap, usable_branch_count, AuthoringRequest,
    BasisGraphQualityPreset, BasisPreviewProjection, DrawMode, GraphControlEdits, KnotReset,
};
use gswt::gui_forms::{
    config_fields, follow_fly_path, menu_parts, ConfigChoices, ConfigField, FlyPathMenus,
    FlyPathStep, HeightMapType, MenuPart, MenuState, SelectiveMergeType, SurfaceType,
};
use gswt::gui_labels::{
    artist_basis_label, artist_branch_target_label, authoring_label, basis_bank_status_summary,
    basis_graph_diagnostics_section_label, basis_graph_last_edge_label,
    basis_graph_policy_ui_label, basis_knot_editor_label, branch_rejection_label,
    branch_rejection_quality_label, branch_rejection_status_label, cooldown_label, count_label,
    knot_counts_label, knot_mark, playback_label, show_number, splat_count_label, top_k_label,
    usable_branches_label, BasisGraphDiagnosticsSection,
};
use gswt::gui_plot::{
    confirm_config, curve_samples, fly_path_offer, knot_points, mark_knot, nearest_knot,
    press_pointer, release_pointer, view3d_samples, FlyPathOffer, GUIStatus, KnotMark,
    KnotSelection,
};

#[test]
fn batch_selection_accepts_all_case_insensitively() {
    let valid = vec![0, 1, 2, 3];
    assert_eq!(parse_basis_batch_selection("all", &valid).unwrap(), valid);
    assert_eq!(parse_basis_batch_selection(" ALL ", &valid).unwrap(), valid);
}

#[test]
fn batch_selection_keeps_ranges_and_rejects_empty_or_invalid_ids() {
    let valid = vec![0, 1, 2, 3];
    assert_eq!(
        parse_basis_batch_selection("0,2-3", &valid).unwrap(),
        vec![0, 2, 3]
    );
    assert!(parse_basis_batch_selection("", &valid).is_err());
    assert!(parse_basis_batch_selection("4", &valid).is_err());
}

#[test]
fn batch_selection_says_what_is_wrong() {
    let valid = vec![0, 1, 2, 3];
    let wrong = |text: &str| parse_basis_batch_selection(text, &valid).unwrap_err();
    assert_eq!(wrong(" \t "), "Enter basis IDs or ranges");
    assert_eq!(parse_basis_batch_selection("all", &[]).unwrap_err(), "No basis IDs available");
    assert_eq!(wrong("1,,2"), "Empty basis entry");
    assert_eq!(wrong("1-2-3"), "Invalid range '1-2-3'");
    assert_eq!(wrong(" x "), "Invalid basis 'x'");
    assert_eq!(wrong("1-y"), "Invalid basis '1-y'");
    assert_eq!(wrong("-1"), "Invalid basis '-1'");
    assert_eq!(wrong("3-1"), "Range '3-1' is reversed");
    assert_eq!(wrong("2-9"), "Basis 4 is out of range");
    assert_eq!(wrong("99999999999999999999999"), "Invalid basis '99999999999999999999999'");
}

#[test]
fn batch_selections_are_valid_and_distinct() {
    assert_eq!(basis_batch_ids(10, "3, 1 - 4 ,3,+5").unwrap(), vec![3, 1, 2, 4, 5]);
    assert_eq!(basis_batch_ids(3, "aLl").unwrap(), vec![0, 1, 2]);
    assert!(basis_batch_ids(0, "0").is_err());
}

#[test]
fn labels_read_as_in_the_panels() {
    assert_eq!(artist_basis_label(7), "Shared LoD0 basis 7");
    assert_eq!(artist_branch_target_label(3, 12), "shared basis 3 / segment 12");
    assert_eq!(basis_knot_editor_label(2, 6, 8), "source knot 2 / 5");
    assert_eq!(basis_knot_editor_label(7, 6, 8), "closure knot C2 / C2");
    assert_eq!(knot_mark(7, 6), "C2");
    assert_eq!(knot_mark(5, 6), "5");
    assert_eq!(
        basis_graph_diagnostics_section_label(BasisGraphDiagnosticsSection::Filtering),
        "Filtering"
    );
    assert_eq!(
        basis_graph_diagnostics_section_label(BasisGraphDiagnosticsSection::Asset),
        "Asset"
    );
    assert_eq!(basis_graph_policy_ui_label(BasisGraphPlaybackPolicy::Rank0), "Best");
    assert_eq!(basis_graph_policy_ui_label(BasisGraphPlaybackPolicy::Stochastic), "Random");
    assert_eq!(
        basis_graph_policy_ui_label(BasisGraphPlaybackPolicy::Continue),
        BasisGraphPlaybackPolicy::Continue.as_str()
    );
    assert_eq!(basis_graph_last_edge_label(BasisGraphLastEdge::Reset), "reset");
    assert_eq!(basis_graph_last_edge_label(BasisGraphLastEdge::Continue), "default successor");
    assert_eq!(
        basis_graph_last_edge_label(BasisGraphLastEdge::Branch {
            rank: 1,
            to_basis_id: 20,
            to_segment: 3
        }),
        "branch rank 1 -> global 20 / segment 3"
    );
    assert_eq!(
        playback_label(BasisGraphBranchDomain::FbmRegions, 2, 4, 5),
        "Region 2 / Shared LoD0 basis 4 -> Shared LoD0 basis 5"
    );
    assert_eq!(
        playback_label(BasisGraphBranchDomain::GlobalBasis, 2, 4, 5),
        "Shared LoD0 basis 4 -> Shared LoD0 basis 5"
    );
    assert_eq!(cooldown_label(3, 8), "3 / 8 active");
    assert_eq!(cooldown_label(8, 8), "8 / 8");
    assert_eq!(usable_branches_label(2, 5), "Usable branches 2 / 5");
    assert_eq!(knot_counts_label(6, 2, 8), "Knots: 6 source + 2 closure = 8 exported");
    assert_eq!(top_k_label(2, 4), "Using 2 / 4 basis coefficients");
    assert_eq!(show_number(Some(10)), "10");
    assert_eq!(show_number(None), "n/a");
}

#[test]
fn branch_labels_name_the_limits_exceeded() {
    let good = BasisBranchRejection { score: false, position: false, velocity: false, acceleration: false };
    assert_eq!(BasisBranchRejection::default(), good);
    let bad = BasisBranchRejection { score: false, position: true, velocity: false, acceleration: true };
    let one = BasisBranchRejection { score: true, position: false, velocity: false, acceleration: false };
    let speed = BasisBranchRejection { score: false, position: false, velocity: true, acceleration: true };
    assert_eq!(branch_rejection_quality_label(good), "Good");
    assert_eq!(branch_rejection_quality_label(bad), "Position");
    assert_eq!(branch_rejection_quality_label(one), "Score");
    assert_eq!(branch_rejection_quality_label(speed), "Velocity");
    assert_eq!(branch_rejection_status_label(good), "Usable");
    assert_eq!(branch_rejection_status_label(bad), "Rejected");
    assert_eq!(branch_rejection_label(good), "");
    assert_eq!(branch_rejection_label(one), " | rejected by score");
    assert_eq!(branch_rejection_label(bad), " | rejected by position, acceleration");
    assert_eq!(branch_rejection_label(speed), " | rejected by velocity, acceleration");
}

#[test]
fn counts_are_grouped_by_thousands() {
    assert_eq!(count_label(0), "0");
    assert_eq!(count_label(999), "999");
    assert_eq!(count_label(1000), "1,000");
    assert_eq!(count_label(2641692), "2,641,692");
    assert_eq!(splat_count_label(1234567, 1000), "1,234,567 (1,000)");
}

#[test]
fn status_summary_tells_bases_and_coefficients() {
    assert_eq!(
        basis_bank_status_summary(Some(16), None, Some(2), Some(4)),
        "Basis bank: shared LoD0, 16 shared bases, basis used per splat 2/4"
    );
    assert_eq!(
        basis_bank_status_summary(None, Some(16), None, Some(4)),
        "Basis bank: basis=16, basis used per splat 4/4"
    );
    assert_eq!(
        basis_bank_status_summary(None, None, None, None),
        "Basis bank: basis=n/a, basis used per splat n/a/n/a"
    );
    let summary = BasisGraphAuthoringRefreshSummary {
        refreshed_node_count: 12,
        changed_best_target_count: 3,
        last_refresh_ms: 0,
    };
    assert_eq!(
        authoring_label(false, &None),
        "Local branches: baseline, refreshed nodes 0, changed best targets 0"
    );
    assert_eq!(
        authoring_label(true, &None),
        "Local branches: stale, refreshed nodes 0, changed best targets 0"
    );
    assert_eq!(
        authoring_label(false, &Some(summary)),
        "Local branches: fresh, refreshed nodes 12, changed best targets 3"
    );
}

#[test]
fn projections_match_their_planes() {
    assert_eq!(project_basis_point([1, 2, 3], BasisPreviewProjection::XY), [1, 2]);
    assert_eq!(project_basis_point([1, 2, 3], BasisPreviewProjection::XZ), [1, 3]);
    assert_eq!(project_basis_point([1, 2, 3], BasisPreviewProjection::YZ), [2, 3]);
    assert_eq!(
        basis_projection_edit_plane(BasisPreviewProjection::YZ),
        BasisKnotEditPlane::YZ
    );
    assert_eq!(
        basis_projection_edit_plane(BasisPreviewProjection::XZ),
        BasisKnotEditPlane::XZ
    );
}

#[test]
fn presets_are_recognised_once_applied() {
    for preset in [
        BasisGraphQualityPreset::Relaxed,
        BasisGraphQualityPreset::Balanced,
        BasisGraphQualityPreset::Strict,
    ] {
        let mut config = BasisGraphPlaybackConfig::default();
        config.max_velocity_cost = 3.0_f32.to_bits();
        apply_basis_graph_quality_preset(&mut config, preset);
        assert_eq!(basis_graph_quality_preset(config), preset);
    }
    let mut config = BasisGraphPlaybackConfig::default();
    assert_eq!(basis_graph_quality_preset(config), BasisGraphQualityPreset::Balanced);
    config.max_velocity_cost_enabled = false;
    assert_eq!(basis_graph_quality_preset(config), BasisGraphQualityPreset::Custom);
    apply_basis_graph_quality_preset(&mut config, BasisGraphQualityPreset::Custom);
    assert!(!config.max_velocity_cost_enabled);
    assert_eq!(basis_graph_quality_preset_label(BasisGraphQualityPreset::Strict), "Strict");
    assert_eq!(basis_graph_quality_preset_label(BasisGraphQualityPreset::Relaxed), "Relaxed");
}

#[test]
fn presets_allow_for_rounding() {
    for (cost, preset) in [
        (0.75_f32, BasisGraphQualityPreset::Balanced),
        (0.5_f32, BasisGraphQualityPreset::Strict),
    ] {
        for step in -12_i32..=12 {
            let bits = (cost.to_bits() as i32 + step) as u32;
            let near = (f32::from_bits(bits) - cost).abs() <= f32::EPSILON;
            let mut config = BasisGraphPlaybackConfig::default();
            config.max_position_cost = bits;
            config.max_velocity_cost = bits;
            config.max_acceleration_cost = bits;
            assert_eq!(basis_graph_quality_preset(config) == preset, near, "{cost} {step}");
        }
    }
}

fn edit(enabled: bool, amplitude: f32) -> BasisEditOverride {
    BasisEditOverride {
        enabled,
        amplitude_scale: amplitude.to_bits(),
        phase_offset: 0.0_f32.to_bits(),
        time_scale: 1.0_f32.to_bits(),
    }
}

#[test]
fn batch_edits_reach_listed_bases_only() {
    let mut edits = vec![BasisEditOverride::default(); 4];
    assert!(apply_basis_batch_scalar_edit(&mut edits, &[1, 3, 1, 9], edit(false, 2.0)));
    assert_eq!(edits[0], BasisEditOverride::default());
    assert_eq!(edits[1], edit(true, 2.0));
    assert_eq!(edits[2], BasisEditOverride::default());
    assert_eq!(edits[3], edit(true, 2.0));
    assert!(!apply_basis_batch_scalar_edit(&mut edits, &[1, 3], edit(true, 2.0)));
    assert!(reset_basis_batch_scalar_edits(&mut edits, &[3]));
    assert_eq!(edits[3], BasisEditOverride::default());
    assert_eq!(edits[1], edit(true, 2.0));
    assert!(!reset_basis_batch_scalar_edits(&mut edits, &[0, 2, 3, 100]));
}

fn bank() -> BasisKnotEditState {
    let knots: Vec<u32> = (0..18).map(|i| (i as f32).to_bits()).collect();
    BasisKnotEditState::new(knots, 2, 3, 3)
}

#[test]
fn resets_report_what_changed() {
    let mut edits = vec![edit(true, 2.0), BasisEditOverride::default()];
    let mut knots = Some(bank());
    assert!(knots.as_mut().unwrap().set_knot(0, 1, [7, 8, 9]));
    let r = reset_selected_basis_authoring_edits(&mut edits, &mut knots, 0);
    assert_eq!(r, (BasisEditOverride::default(), true, true));
    assert!(!knots.as_ref().unwrap().basis_is_edited(0));
    let r = reset_selected_basis_authoring_edits(&mut edits, &mut knots, 5);
    assert_eq!(r, (BasisEditOverride::default(), false, false));
    let r = reset_selected_basis_authoring_edits(&mut edits, &mut None, 1);
    assert_eq!(r, (BasisEditOverride::default(), false, false));

    edits[1] = edit(true, 0.5);
    assert!(knots.as_mut().unwrap().set_knot(1, 2, [7, 8, 9]));
    let r = reset_all_basis_authoring_edits(&mut edits, &mut knots, 1);
    assert_eq!(r, (BasisEditOverride::default(), true, true));
    assert!(!knots.as_ref().unwrap().basis_is_edited(1));
    let r = reset_all_basis_authoring_edits(&mut edits, &mut None, 1);
    assert_eq!(r, (BasisEditOverride::default(), false, false));
}

#[test]
fn knot_resets_ask_for_new_branches() {
    let mut knots = Some(bank());
    knots.as_mut().unwrap().set_knot(0, 1, [7, 8, 9]);
    knots.as_mut().unwrap().set_knot(1, 1, [7, 8, 9]);
    assert_eq!(reset_knots(&mut knots, 0, 1, KnotReset::Nothing), AuthoringRequest::Nothing);
    assert!(knots.as_ref().unwrap().knot_is_edited(0, 1));
    assert_eq!(reset_knots(&mut knots, 0, 9, KnotReset::Knot), AuthoringRequest::Nothing);
    assert_eq!(reset_knots(&mut knots, 0, 1, KnotReset::Knot), AuthoringRequest::Refresh);
    assert!(!knots.as_ref().unwrap().knot_is_edited(0, 1));
    assert!(knots.as_ref().unwrap().knot_is_edited(1, 1));
    assert_eq!(reset_knots(&mut knots, 2, 1, KnotReset::Basis), AuthoringRequest::Nothing);
    assert_eq!(reset_knots(&mut knots, 1, 1, KnotReset::Basis), AuthoringRequest::Refresh);
    assert!(!knots.as_ref().unwrap().knot_is_edited(1, 1));
    assert_eq!(reset_knots(&mut knots, 1, 1, KnotReset::All), AuthoringRequest::Clear);
    assert_eq!(reset_knots(&mut None, 1, 1, KnotReset::All), AuthoringRequest::Nothing);
}

#[test]
fn selections_are_kept_in_range() {
    assert_eq!(clamp_selection(7, 4), 3);
    assert_eq!(clamp_selection(2, 4), 2);
    assert_eq!(clamp_selection(2, 0), 0);
    assert_eq!(clamp_active_top_k(Some(9), Some(4)), Some(4));
    assert_eq!(clamp_active_top_k(Some(0), Some(4)), Some(1));
    assert_eq!(clamp_active_top_k(None, Some(4)), Some(4));
    assert_eq!(clamp_active_top_k(Some(2), Some(0)), None);
    assert_eq!(clamp_active_top_k(Some(2), None), None);
    assert_eq!(next_segment(5, 6), 0);
    assert_eq!(next_segment(2, 6), 3);
}

#[test]
fn heatmap_switch_restores_normal_drawing() {
    assert_eq!(switch_heatmap(DrawMode::View, true), DrawMode::BasisWeight);
    assert_eq!(switch_heatmap(DrawMode::BasisWeight, false), DrawMode::Normal);
    assert_eq!(switch_heatmap(DrawMode::TileID, false), DrawMode::TileID);
}

fn untouched() -> GraphControlEdits {
    GraphControlEdits {
        enabled_toggled: false,
        policy_changed: false,
        reset_clicked: false,
        region_changed: false,
        number_changed: false,
        seed_changed: false,
        interval_changed: false,
        preset_picked: None,
    }
}

#[test]
fn controls_restart_playback_when_needed() {
    let before = BasisGraphPlaybackConfig::default();
    let regions = BasisGraphRegionConfig::default();
    let apply = |shown, edits| apply_graph_controls(before, shown, regions, regions, 5, edits);

    let r = apply(before, untouched());
    assert_eq!((r.config, r.changed, r.reset, r.selected_region), (before, false, false, 0));
    let r = apply(before, GraphControlEdits { reset_clicked: true, ..untouched() });
    assert_eq!((r.config, r.changed, r.reset), (before, false, true));

    let mut on = before;
    on.enabled = true;
    let r = apply(on, GraphControlEdits { enabled_toggled: true, ..untouched() });
    assert_eq!((r.config, r.changed, r.reset), (on, true, true));
    let off = apply_graph_controls(
        on,
        before,
        regions,
        regions,
        0,
        GraphControlEdits { enabled_toggled: true, ..untouched() },
    );
    assert_eq!((off.config, off.changed, off.reset), (before, true, false));

    let mut smooth = before;
    smooth.blend_duration = 0.25_f32.to_bits();
    let r = apply(smooth, GraphControlEdits { number_changed: true, ..untouched() });
    assert_eq!((r.config, r.changed, r.reset), (smooth, true, false));
    let mut limit = before;
    limit.max_velocity_cost = 0.25_f32.to_bits();
    let r = apply(limit, GraphControlEdits { number_changed: true, ..untouched() });
    assert_eq!((r.config, r.changed, r.reset), (limit, true, true));

    let r = apply(
        before,
        GraphControlEdits { preset_picked: Some(BasisGraphQualityPreset::Strict), ..untouched() },
    );
    assert_eq!(f32::from_bits(r.config.max_position_cost), 0.5);
    assert!(r.changed && r.reset);
    let r = apply(
        before,
        GraphControlEdits { preset_picked: Some(BasisGraphQualityPreset::Custom), ..untouched() },
    );
    assert_eq!((r.config, r.changed, r.reset), (before, false, false));
}

#[test]
fn region_changes_are_put_in_range() {
    let before = BasisGraphPlaybackConfig::default();
    let regions = BasisGraphRegionConfig::default();
    let mut wide = regions;
    wide.domain = BasisGraphBranchDomain::FbmRegions;
    wide.region_count = 500;
    let r = apply_graph_controls(
        before,
        before,
        regions,
        wide,
        100,
        GraphControlEdits { region_changed: true, ..untouched() },
    );
    assert_eq!(r.regions.region_count, 64);
    assert_eq!(r.selected_region, 63);
    assert!(r.changed && r.reset);
}

#[test]
fn quality_choice_follows_the_limits() {
    let balanced = BasisGraphPlaybackConfig::default();
    let mut custom = balanced;
    custom.max_position_cost = 0.1_f32.to_bits();
    assert_eq!(quality_choice(balanced, false, None), (false, BasisGraphQualityPreset::Balanced));
    assert_eq!(quality_choice(balanced, true, None), (true, BasisGraphQualityPreset::Custom));
    assert_eq!(quality_choice(custom, false, None), (true, BasisGraphQualityPreset::Custom));
    assert_eq!(
        quality_choice(custom, true, Some(BasisGraphQualityPreset::Relaxed)),
        (false, BasisGraphQualityPreset::Relaxed)
    );
    assert_eq!(
        quality_choice(balanced, false, Some(BasisGraphQualityPreset::Custom)),
        (true, BasisGraphQualityPreset::Custom)
    );
}

fn branch(to_basis: usize, rank: usize, cost: f32) -> BasisMotionGraphBranch {
    BasisMotionGraphBranch {
        from_basis: 0,
        from_segment: 0,
        to_basis,
        to_segment: 1,
        rank,
        score: 0,
        position_cost: cost.to_bits(),
        velocity_cost: 0,
        acceleration_cost: 0,
        usage_bonus: 0,
        transition: None,
    }
}

#[test]
fn best_target_is_the_first_usable_branch() {
    let config = BasisGraphPlaybackConfig::default();
    let branches = vec![branch(1, 0, 2.0), branch(2, 1, 0.5), branch(3, 2, 0.1)];
    assert_eq!(usable_branch_count(&branches, config), 2);
    assert_eq!(best_target(&branches, config, true), Some(2));
    assert_eq!(best_target(&branches, config, false), None);
    assert_eq!(best_target(&vec![branch(1, 0, 2.0)], config, true), None);
    assert_eq!(usable_branch_count(&Vec::new(), config), 0);
}

#[test]
fn pointer_grabs_the_nearest_knot_in_reach() {
    let d = |v: &[f32]| v.iter().map(|x| x.to_bits()).collect::<Vec<u32>>();
    assert_eq!(nearest_knot(&d(&[20.0, 5.0, 3.0, 3.0])), Some(2));
    assert_eq!(nearest_knot(&d(&[12.0])), Some(0));
    assert_eq!(nearest_knot(&d(&[12.5, 100.0])), None);
    assert_eq!(nearest_knot(&d(&[f32::NAN, 1.0])), Some(1));
    assert_eq!(nearest_knot(&[]), None);
}

#[test]
fn dragging_starts_and_ends_with_the_button() {
    let start = KnotSelection { selected: 1, dragging: None };
    assert_eq!(press_pointer(start, false, false, Some(4)), start);
    assert_eq!(
        press_pointer(start, false, true, Some(4)),
        KnotSelection { selected: 4, dragging: None }
    );
    let dragged = press_pointer(start, true, false, Some(4));
    assert_eq!(dragged, KnotSelection { selected: 4, dragging: Some(4) });
    assert_eq!(
        press_pointer(dragged, true, false, None),
        KnotSelection { selected: 4, dragging: None }
    );
    assert_eq!(
        release_pointer(dragged),
        (KnotSelection { selected: 4, dragging: None }, AuthoringRequest::Refresh)
    );
    assert_eq!(release_pointer(start), (start, AuthoringRequest::Nothing));
}

#[test]
fn knots_are_marked_by_what_matters_most() {
    let mut state = bank();
    state.set_knot(1, 1, [7, 8, 9]);
    let edits = Some(state);
    assert_eq!(mark_knot(0, 2, Some(0), 1, &edits), (KnotMark::Selected, true));
    assert_eq!(mark_knot(2, 2, Some(0), 1, &edits), (KnotMark::Closure, true));
    assert_eq!(mark_knot(1, 3, Some(0), 1, &edits), (KnotMark::Edited, false));
    assert_eq!(mark_knot(1, 3, None, 0, &edits), (KnotMark::Plain, false));
    assert_eq!(mark_knot(1, 2, None, 0, &None), (KnotMark::Plain, true));
}

#[test]
fn knots_of_a_basis_are_read_in_order() {
    let knots: Vec<u32> = (0..18).collect();
    assert_eq!(knot_points(&knots, 3, 1), vec![[9, 10, 11], [12, 13, 14], [15, 16, 17]]);
    assert_eq!(curve_samples(3), 96);
    assert_eq!(curve_samples(30), 120);
    assert_eq!(view3d_samples(3), 128);
    assert_eq!(view3d_samples(30), 150);
}

#[test]
fn confirmed_configurations_are_sent_once() {
    assert_eq!(confirm_config(GUIStatus::Config, 4, true, true), (GUIStatus::PostConfig, 5));
    assert_eq!(confirm_config(GUIStatus::Config, 4, true, false), (GUIStatus::Config, 4));
    assert_eq!(confirm_config(GUIStatus::Config, 4, false, true), (GUIStatus::Config, 4));
    assert_eq!(confirm_config(GUIStatus::Render, 4, true, true), (GUIStatus::Render, 4));
}

#[test]
fn fly_path_offers_follow_its_state() {
    assert_eq!(fly_path_offer(true, false, true, true, true), FlyPathOffer::Start);
    assert_eq!(fly_path_offer(true, false, false, false, false), FlyPathOffer::Pause);
    assert_eq!(fly_path_offer(false, true, true, true, true), FlyPathOffer::ShowError);
    assert_eq!(fly_path_offer(true, true, true, false, true), FlyPathOffer::EndBenchmark);
    assert_eq!(fly_path_offer(false, false, true, false, true), FlyPathOffer::Nothing);
}

#[test]
fn forms_offer_what_the_choices_need() {
    let mut choices = ConfigChoices {
        merge_type: SelectiveMergeType::Off,
        use_cache: true,
        lod_blending: false,
        surface_type: SurfaceType::Flat,
        height_map_type: HeightMapType::Texture,
    };
    let plain = config_fields(choices);
    assert_eq!(plain.len(), 12);
    assert_eq!(plain[5], ConfigField::MergeType);
    assert_eq!(plain[11], ConfigField::Switches);
    assert!(!plain.contains(&ConfigField::CacheSize) && !plain.contains(&ConfigField::HeightTexture));
    choices.merge_type = SelectiveMergeType::Edge;
    choices.lod_blending = true;
    choices.surface_type = SurfaceType::HeightMap;
    assert_eq!(
        config_fields(choices)[5..19],
        [
            ConfigField::MergeType,
            ConfigField::MergeDotThreshold,
            ConfigField::MergeTopK,
            ConfigField::UseCache,
            ConfigField::CacheSize,
            ConfigField::LodMaxDistance,
            ConfigField::LodBlending,
            ConfigField::BlendingWidth,
            ConfigField::BboxCheck,
            ConfigField::BlendingTolerance,
            ConfigField::SurfaceType,
            ConfigField::HeightMapSize,
            ConfigField::HeightMapType,
            ConfigField::HeightTexture,
        ]
    );
    choices.merge_type = SelectiveMergeType::Axis;
    choices.use_cache = false;
    choices.height_map_type = HeightMapType::Random;
    let fields = config_fields(choices);
    assert!(fields.contains(&ConfigField::MergeDistance));
    assert!(!fields.contains(&ConfigField::CacheSize) && !fields.contains(&ConfigField::HeightTexture));
    choices.surface_type = SurfaceType::Sphere;
    assert!(config_fields(choices).contains(&ConfigField::SphereRadius));
}

#[test]
fn menus_have_the_parts_that_apply() {
    let mut state = MenuState {
        draw_point_cloud: false,
        has_motion: true,
        use_skybox: false,
        use_proxy: false,
        use_clip: true,
    };
    assert_eq!(menu_parts(state), vec![MenuPart::Dynamics, MenuPart::ClipHeight]);
    state.draw_point_cloud = true;
    state.use_skybox = true;
    state.use_proxy = true;
    assert_eq!(menu_parts(state).len(), 5);
    assert_eq!(menu_parts(state)[3], MenuPart::Proxy);
}

#[test]
fn camera_paths_are_measured_from_start_to_end() {
    let menus = FlyPathMenus { show_fly_path: true, show_main: true, benchmark: false };
    let (step, running) = follow_fly_path(FlyPathOffer::Start, true, true, menus);
    assert_eq!(step, FlyPathStep::Start);
    assert_eq!(
        running,
        FlyPathMenus { show_fly_path: false, show_main: false, benchmark: true }
    );
    assert!(follow_fly_path(FlyPathOffer::Start, true, false, menus).1.show_main);
    assert_eq!(
        follow_fly_path(FlyPathOffer::Start, false, true, menus),
        (FlyPathStep::Nothing, menus)
    );
    assert_eq!(
        follow_fly_path(FlyPathOffer::Pause, true, true, running),
        (FlyPathStep::Pause, running)
    );
    let offer = fly_path_offer(true, true, false, false, running.benchmark);
    let (step, ended) = follow_fly_path(offer, false, true, running);
    assert_eq!((step, ended.benchmark), (FlyPathStep::Report, false));
}
