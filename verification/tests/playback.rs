use gswt::basis_bank_edit::BasisEditOverride;
use gswt::basis_branch_regions::{BasisGraphBranchDomain, BasisGraphRegionConfig};
use gswt::basis_graph_authoring::BasisGraphBranchOverrides;
use gswt::basis_graph_packing::{
    pack_basis_graph_blend_overrides, pack_basis_graph_direct_overrides,
    pack_basis_graph_sample_overrides, packed_graph_len,
};
use gswt::basis_graph_playback::{
    branch_rejection, new_playback_state, playback_timings, start_segment, state_rng_seed,
    BasisGraphLastEdge, BasisGraphPlaybackConfig, BasisGraphPlaybackController,
    BasisGraphPlaybackPolicy, BasisGraphPlaybackRng, BasisGraphPlaybackState,
    BasisPlaybackTiming, PlaybackClock, SegmentStart,
};
use gswt::basis_graph_steps::{
    pick_weighted, transition_span, BlendSample, EdgeChoice, PlaybackMove, TransitionTangent,
};
use gswt::basis_motion_graph::{
    BasisMotionGraph, BasisMotionGraphBranch, BasisMotionGraphLod, BasisMotionGraphScoreWeights,
    BasisMotionGraphTransition,
};

fn f(bits: u32) -> f32 {
    f32::from_bits(bits)
}

fn graph() -> BasisMotionGraph {
    BasisMotionGraph {
        format: "basis_motion_graph".to_string(),
        format_version: 1,
        basis_scope: "shared_lod0".to_string(),
        basis_source_lod: Some(0),
        node_unit: "basis_segment".to_string(),
        include_lods: vec![0],
        basis_count: 2,
        knot_count: 4,
        branch_top_k: 1,
        score_weights: BasisMotionGraphScoreWeights {
            position: 1.0_f32.to_bits(),
            velocity: 1.0_f32.to_bits(),
            acceleration: 1.0_f32.to_bits(),
            usage: 0.0_f32.to_bits(),
        },
        lods: vec![BasisMotionGraphLod {
            lod_id: 0,
            branches: Vec::new(),
        }],
    }
}

fn branch(from: (usize, usize), to: (usize, usize), rank: usize, cost: f32) -> BasisMotionGraphBranch {
    BasisMotionGraphBranch {
        from_basis: from.0,
        from_segment: from.1,
        to_basis: to.0,
        to_segment: to.1,
        rank,
        score: cost.to_bits(),
        position_cost: cost.to_bits(),
        velocity_cost: 0.0_f32.to_bits(),
        acceleration_cost: 0.0_f32.to_bits(),
        usage_bonus: 0.0_f32.to_bits(),
        transition: None,
    }
}

fn start_at(time01: f32, knot_count: usize) -> SegmentStart {
    let scaled = time01.rem_euclid(1.0) * knot_count as f32;
    let segment = start_segment(scaled.floor() as usize, knot_count);
    SegmentStart { segment, phase: (scaled - segment as f32).to_bits() }
}

fn starts(time01: f32, graph: &BasisMotionGraph, timings: &[BasisPlaybackTiming]) -> Vec<SegmentStart> {
    timings
        .iter()
        .map(|t| start_at(time01 * f(t.time_scale) + f(t.phase_offset), graph.knot_count))
        .collect()
}

struct Player {
    controller: BasisGraphPlaybackController,
}

impl Player {
    fn reset(&mut self, time01: f32, graph: &BasisMotionGraph, config: BasisGraphPlaybackConfig, edits: &[BasisEditOverride]) {
        let timings = playback_timings(edits, graph.basis_count);
        self.controller.reset_with_region_config_and_edits(
            &starts(time01, graph, &timings),
            time01.rem_euclid(1.0).to_bits(),
            graph.basis_count,
            config,
            BasisGraphRegionConfig::default(),
            edits,
        );
    }

    fn advance(&mut self, time01: f32, graph: &BasisMotionGraph, config: BasisGraphPlaybackConfig, edits: &[BasisEditOverride]) {
        let timings = playback_timings(edits, graph.basis_count);
        let wrapped = time01.rem_euclid(1.0);
        let elapsed = match self.controller.previous_time() {
            Some(previous) => (wrapped - f(previous)).rem_euclid(1.0),
            None => 0.0,
        };
        let clock = PlaybackClock {
            wrapped_time: wrapped.to_bits(),
            elapsed: elapsed.to_bits(),
            starts: starts(time01, graph, &timings),
            wrapped_starts: starts(wrapped, graph, &timings),
        };
        let moving = self.controller.advance_with_region_config_and_overrides_and_edits(
            &clock,
            graph.basis_count,
            config,
            BasisGraphRegionConfig::default(),
            edits,
        );
        for index in moving {
            let mut state = self.controller.states()[index].clone();
            let speed = f(timings[state.original_basis_id].time_scale);
            let distance = elapsed * speed * graph.knot_count as f32;
            move_state(&mut state, distance, graph, config, None);
            assert!(self.controller.replace_state(index, state));
        }
    }
}

fn blend_sample(phase: f32, config: BasisGraphPlaybackConfig) -> BlendSample {
    let duration = f(config.blend_duration).clamp(0.0, 1.0);
    let t = (phase / duration).clamp(0.0, 1.0);
    BlendSample { phase: t.to_bits(), weight: (t * t * (3.0 - 2.0 * t)).to_bits() }
}

fn move_state(
    state: &mut BasisGraphPlaybackState,
    mut distance: f32,
    graph: &BasisMotionGraph,
    config: BasisGraphPlaybackConfig,
    overrides: Option<&BasisGraphBranchOverrides>,
) {
    loop {
        let to_boundary = 1.0 - f(state.segment_phase);
        let remaining =
            (f(state.transition_duration_segments) - f(state.transition_phase_segments)).max(0.0);
        match state.next_move(distance.to_bits(), to_boundary.to_bits(), remaining.to_bits()) {
            PlaybackMove::Stop => return,
            PlaybackMove::WithinTransition => {
                let phase = f(state.transition_phase_segments) + distance;
                state.move_within_transition(phase.to_bits(), [0; 3]);
                distance = 0.0;
            }
            PlaybackMove::FinishTransition => {
                distance -= remaining;
                state.finish_transition([0; 3]);
            }
            PlaybackMove::WithinSegment => {
                let phase = f(state.segment_phase) + distance;
                state.set_phase(phase.to_bits(), config, blend_sample(phase, config));
                return;
            }
            PlaybackMove::CrossBoundary => {
                state.set_phase(1.0_f32.to_bits(), config, blend_sample(1.0, config));
                distance -= to_boundary;
                let taken = match state.choose_next_edge(graph, config, overrides) {
                    EdgeChoice::Continue => None,
                    EdgeChoice::Branch(branch) => Some(branch),
                    EdgeChoice::Draw { draw, kept } => {
                        let unit = draw as f32 / (u32::MAX >> 8) as f32;
                        match state.pass_draw(unit.to_bits(), config) {
                            None => None,
                            Some(_) => Some(kept[0]),
                        }
                    }
                };
                state.follow_edge(taken, [0; 3], graph.knot_count, graph.basis_count, config);
                state.set_phase(0.0_f32.to_bits(), config, blend_sample(0.0, config));
            }
        }
    }
}

fn player() -> Player {
    Player { controller: BasisGraphPlaybackController::new(2) }
}

fn enabled_config() -> BasisGraphPlaybackConfig {
    BasisGraphPlaybackConfig {
        enabled: true,
        ..BasisGraphPlaybackConfig::default()
    }
}

fn timing_edit(time_scale: f32, phase_offset: f32) -> BasisEditOverride {
    BasisEditOverride {
        enabled: true,
        amplitude_scale: 1.0_f32.to_bits(),
        phase_offset: phase_offset.to_bits(),
        time_scale: time_scale.to_bits(),
    }
}

#[test]
fn reset_creates_one_direct_state_per_shared_basis() {
    let mut playback = player();
    playback.reset(0.25, &graph(), BasisGraphPlaybackConfig::default(), &[]);
    let states = playback.controller.states();
    assert_eq!(states.len(), 2);
    assert_eq!(states[0].original_basis_id, 0);
    assert_eq!(states[1].original_basis_id, 1);
    assert_eq!(states[1].active_basis_id, 1);
}

#[test]
fn edited_graph_clocks_scale_freeze_and_offset_per_basis() {
    let graph = graph();
    let mut playback = player();
    let edits = [timing_edit(2.0, 0.25), timing_edit(0.0, 0.0)];
    playback.reset(0.0, &graph, enabled_config(), &edits);
    let states = playback.controller.states();
    assert_eq!(states[0].segment, 1);
    assert_eq!(f(states[0].segment_phase), 0.0);
    assert_eq!(states[1].segment, 0);

    playback.advance(0.125, &graph, enabled_config(), &edits);
    let states = playback.controller.states();
    assert_eq!(states[0].segment, 2);
    assert_eq!(f(states[0].segment_phase), 0.0);
    assert_eq!(states[1].segment, 0);
    assert_eq!(f(states[1].segment_phase), 0.0);
}

#[test]
fn timing_change_rebases_only_affected_basis_states() {
    let graph = graph();
    let mut playback = player();
    let default_edits = [BasisEditOverride::default(), BasisEditOverride::default()];
    playback.reset(0.0, &graph, enabled_config(), &default_edits);
    playback.advance(0.125, &graph, enabled_config(), &default_edits);

    let changed_edits = [timing_edit(2.0, 0.0), BasisEditOverride::default()];
    playback.advance(0.25, &graph, enabled_config(), &changed_edits);
    let states = playback.controller.states();
    assert_eq!(states[0].segment, 2);
    assert_eq!(f(states[0].segment_phase), 0.0);
    assert_eq!(states[1].segment, 1);
    assert_eq!(f(states[1].segment_phase), 0.0);
}

#[test]
fn playback_starts_over_when_it_cannot_go_on() {
    let graph = graph();
    let mut playback = player();
    playback.advance(0.5, &graph, enabled_config(), &[]);
    assert_eq!(playback.controller.states().len(), 2);
    assert_eq!(playback.controller.states()[0].segment, 2);
    playback.advance(0.55, &graph, enabled_config(), &[]);
    assert!((f(playback.controller.states()[0].segment_phase) - 0.2).abs() < 1e-5);
    playback.advance(0.4, &graph, enabled_config(), &[]);
    assert_eq!(playback.controller.states()[0].last_edge, BasisGraphLastEdge::Reset);
    assert_eq!(playback.controller.states()[0].segment, 1);
    let mut seeded = enabled_config();
    seeded.seed = 77;
    playback.advance(0.45, &graph, seeded, &[]);
    assert_eq!(playback.controller.states()[1].rng, BasisGraphPlaybackRng::new(state_rng_seed(77, 0, 1)));
    let off = BasisGraphPlaybackConfig::default();
    let before = playback.controller.states()[0].segment_phase;
    playback.advance(0.7, &graph, off, &[]);
    assert_eq!(playback.controller.states()[0].segment_phase, before);
    assert_eq!(playback.controller.previous_time().map(f), Some(0.7));
}

#[test]
fn regions_play_on_their_own() {
    let graph = graph();
    let mut controller = BasisGraphPlaybackController::new(2);
    let mut regions = BasisGraphRegionConfig::default();
    regions.domain = BasisGraphBranchDomain::FbmRegions;
    regions.region_count = 3;
    let timings = playback_timings(&[], 2);
    controller.reset_with_region_config_and_edits(
        &starts(0.0, &graph, &timings),
        0,
        2,
        enabled_config(),
        regions,
        &[],
    );
    let states = controller.states();
    assert_eq!(states.len(), 6);
    for (i, state) in states.iter().enumerate() {
        assert_eq!((state.region_id, state.original_basis_id), (i / 2, i % 2));
    }
    assert!(!controller.replace_state(0, controller.states()[1].clone()));
    assert!(!controller.replace_state(9, controller.states()[1].clone()));
}

#[test]
fn best_branch_is_followed_with_a_blend() {
    let mut graph = graph();
    graph.lods[0].branches = vec![branch((0, 0), (1, 3), 1, 0.1), branch((0, 0), (1, 2), 0, 0.5)];
    let mut config = enabled_config();
    config.policy = BasisGraphPlaybackPolicy::Rank0;
    let mut state = new_playback_state(0, 0, start_at(0.0, 4), config);
    move_state(&mut state, 1.25, &graph, config, None);
    assert_eq!((state.active_basis_id, state.segment), (1, 2));
    assert_eq!(
        state.last_edge,
        BasisGraphLastEdge::Branch { rank: 0, to_basis_id: 1, to_segment: 2 }
    );
    assert!(state.blend_active);
    assert_eq!((state.blend_from_basis_id, state.blend_from_segment), (0, 1));
    assert_eq!(f(state.blend_phase), 0.5);
    assert_eq!(f(state.blend_weight), 0.5);
    assert_eq!(state.segments_since_branch, 0);
    move_state(&mut state, 0.5, &graph, config, None);
    assert!(!state.blend_active);
    assert_eq!(f(state.blend_weight), 1.0);
}

#[test]
fn branches_keep_their_distance_and_limits() {
    let mut graph = graph();
    graph.lods[0].branches = vec![branch((0, 0), (1, 2), 0, 2.0), branch((1, 1), (0, 0), 0, 0.1)];
    let mut config = enabled_config();
    config.policy = BasisGraphPlaybackPolicy::Rank0;
    let mut state = new_playback_state(0, 0, start_at(0.0, 4), config);
    move_state(&mut state, 1.0, &graph, config, None);
    assert_eq!((state.active_basis_id, state.segment), (0, 1));
    assert_eq!(state.rejected_branch_count, 1);
    assert_eq!(state.rejected_branch_position_count, 1);
    assert_eq!(state.last_edge, BasisGraphLastEdge::Continue);
    let rejection = branch_rejection(&graph.lods[0].branches[0], config);
    assert!(rejection.position && !rejection.score && rejection.rejected());

    let mut state = new_playback_state(0, 1, start_at(0.25, 4), config);
    state.segments_since_branch = 7;
    move_state(&mut state, 1.0, &graph, config, None);
    assert_eq!((state.active_basis_id, state.segment), (1, 2));
    assert_eq!(state.segments_since_branch, 8);
}

#[test]
fn local_branches_take_the_place_of_those_of_the_graph() {
    let mut graph = graph();
    graph.lods[0].branches = vec![branch((0, 0), (1, 2), 0, 0.1)];
    let mut overrides = BasisGraphBranchOverrides::new();
    overrides.set_node_branches(0, 0, vec![branch((0, 0), (1, 3), 0, 0.1)]);
    let mut config = enabled_config();
    config.policy = BasisGraphPlaybackPolicy::Rank0;
    let mut state = new_playback_state(0, 0, start_at(0.0, 4), config);
    move_state(&mut state, 1.0, &graph, config, Some(&overrides));
    assert_eq!((state.active_basis_id, state.segment), (1, 3));
    overrides.set_node_branches(0, 0, Vec::new());
    let mut state = new_playback_state(0, 0, start_at(0.0, 4), config);
    move_state(&mut state, 1.0, &graph, config, Some(&overrides));
    assert_eq!((state.active_basis_id, state.segment), (0, 1));
}

#[test]
fn chance_decides_whether_to_branch() {
    let mut graph = graph();
    graph.lods[0].branches = vec![branch((0, 0), (1, 2), 0, 0.1)];
    let mut config = enabled_config();
    config.policy = BasisGraphPlaybackPolicy::Stochastic;
    config.branch_probability = 1.0_f32.to_bits();
    let mut state = new_playback_state(0, 0, start_at(0.0, 4), config);
    move_state(&mut state, 1.0, &graph, config, None);
    assert_eq!(state.active_basis_id, 1);
    config.branch_probability = 0.0_f32.to_bits();
    let mut state = new_playback_state(0, 0, start_at(0.0, 4), config);
    let seed = state.rng;
    move_state(&mut state, 1.0, &graph, config, None);
    assert_eq!(state.active_basis_id, 0);
    assert_ne!(state.rng, seed);
}

#[test]
fn draws_fall_on_branches_by_weight() {
    let b = |v: &[f32]| v.iter().map(|x| x.to_bits()).collect::<Vec<u32>>();
    assert_eq!(pick_weighted(&b(&[0.2, -0.3]), &b(&[0.5, 0.5])), 0);
    assert_eq!(pick_weighted(&b(&[0.7, 0.2]), &b(&[0.5, 0.5])), 1);
    assert_eq!(pick_weighted(&b(&[1.0, 0.6]), &b(&[0.4, 0.5])), 1);
    let mut rng = BasisGraphPlaybackRng::new(0);
    assert_eq!(rng.state, 1);
    let next = 1_664_525_u32.wrapping_add(1_013_904_223);
    assert_eq!(rng.next_draw(), next >> 8);
    assert_eq!(rng.state, next);
}

fn transition() -> BasisMotionGraphTransition {
    let p = |x: f32| [x.to_bits(), 0, 0];
    BasisMotionGraphTransition {
        kind: "open_catmull_rom".to_string(),
        duration_segments: 3,
        knots: vec![p(0.0), p(1.0), p(4.0), p(9.0)],
        start_tangent: p(0.5),
        end_tangent: p(6.0),
    }
}

#[test]
fn transitions_lead_to_their_target() {
    let mut graph = graph();
    let mut b = branch((0, 0), (1, 2), 0, 0.1);
    b.transition = Some(transition());
    graph.lods[0].branches = vec![b];
    let mut config = enabled_config();
    config.policy = BasisGraphPlaybackPolicy::Rank0;
    let mut state = new_playback_state(0, 0, start_at(0.0, 4), config);
    move_state(&mut state, 2.5, &graph, config, None);
    assert!(state.transition_active);
    assert_eq!((state.active_basis_id, state.segment), (0, 0));
    assert_eq!(f(state.transition_phase_segments), 1.5);
    assert_eq!(f(state.transition_duration_segments), 3.0);
    move_state(&mut state, 2.0, &graph, config, None);
    assert!(!state.transition_active && state.transition.is_none());
    assert_eq!((state.active_basis_id, state.segment), (1, 2));
    assert_eq!(f(state.segment_phase), 0.5);
}

#[test]
fn transition_spans_have_tangents() {
    let curve = transition();
    let span = transition_span(&curve, 0).unwrap();
    assert_eq!(f(span.end[0]), 1.0);
    assert!(matches!(span.start_tangent, TransitionTangent::Given { tangent } if f(tangent[0]) == 0.5));
    assert!(matches!(
        span.end_tangent,
        TransitionTangent::Central { before, after } if f(before[0]) == 0.0 && f(after[0]) == 4.0
    ));
    let span = transition_span(&curve, 9).unwrap();
    assert_eq!(f(span.start[0]), 4.0);
    assert!(matches!(span.end_tangent, TransitionTangent::Given { tangent } if f(tangent[0]) == 6.0));
    let mut short = transition();
    short.knots.pop();
    assert!(transition_span(&short, 0).is_none());
}

#[test]
fn states_are_packed_by_region_and_basis() {
    assert_eq!(packed_graph_len(3, 0), 3);
    assert_eq!(packed_graph_len(3, 2), 6);
    assert_eq!(packed_graph_len(usize::MAX, 2), usize::MAX);
    let config = enabled_config();
    let mut state = new_playback_state(1, 0, start_at(0.25, 4), config);
    state.active_basis_id = 1;
    state.segment_phase = 0.5_f32.to_bits();
    let mut moving = new_playback_state(0, 1, start_at(0.0, 4), config);
    moving.transition_active = true;
    moving.transition_delta = [1.0_f32, 2.0, 3.0].map(f32::to_bits);
    moving.blend_active = true;
    moving.blend_from_basis_id = 0;
    moving.blend_from_segment = 3;
    moving.blend_weight = 0.25_f32.to_bits();
    let states = vec![state, moving];
    let row = |r: [u32; 4]| r.map(f32::from_bits);
    let sample = pack_basis_graph_sample_overrides(Some(&states), 2, 2);
    assert_eq!(row(sample[2]), [1.0, 1.0, 0.5, 1.0]);
    assert_eq!(row(sample[3]), [0.0, 0.0, 0.0, 0.0]);
    let direct = pack_basis_graph_direct_overrides(Some(&states), 2, 2);
    assert_eq!(row(direct[1]), [1.0, 2.0, 3.0, 1.0]);
    assert_eq!(row(direct[2]), [0.0, 0.0, 0.0, 0.0]);
    let blend = pack_basis_graph_blend_overrides(Some(&states), 2, 2);
    assert_eq!(row(blend[1]), [0.0, 3.0, 0.0, 0.25]);
    assert_eq!(row(blend[2]), [1.0, 1.0, 0.5, 1.0]);
    assert_eq!(row(blend[0]), [0.0, 0.0, 0.0, 1.0]);
    assert_eq!(pack_basis_graph_blend_overrides(None, 2, 2).len(), 4);
}

#[test]
fn timings_are_kept_in_range() {
    let edits = [timing_edit(9.0, 0.25), timing_edit(-1.0, f32::NAN)];
    let timings = playback_timings(&edits, 3);
    assert_eq!((f(timings[0].time_scale), f(timings[0].phase_offset)), (4.0, 0.25));
    assert_eq!((f(timings[1].time_scale), f(timings[1].phase_offset)), (0.0, 0.0));
    assert_eq!((f(timings[2].time_scale), f(timings[2].phase_offset)), (1.0, 0.0));
    assert!(timings[2].equals(BasisPlaybackTiming::from_edit(None)));
    assert!(!timings[0].equals(timings[1]));
    assert_eq!(BasisGraphPlaybackPolicy::all().len(), 3);
}

#[test]
fn state_seeds_differ_by_region_and_basis() {
    let expected = |seed: u32, region: u32, basis: u32| {
        let mut h = seed.max(1);
        h ^= region.wrapping_mul(0x9E37_79B9);
        h = h.rotate_left(13);
        h ^= basis.wrapping_mul(0x85EB_CA6B);
        h.max(1)
    };
    for (seed, region, basis) in [(0, 0, 0), (1, 0, 0), (7, 3, 2), (u32::MAX, 63, 999)] {
        assert_eq!(
            state_rng_seed(seed, region as usize, basis as usize),
            expected(seed, region, basis)
        );
    }
}

#[test]
fn settings_and_states_are_compared_by_value() {
    let minus = (-0.0_f32).to_bits();
    let config = BasisGraphPlaybackConfig { temperature: 0, ..BasisGraphPlaybackConfig::default() };
    assert_eq!(config, BasisGraphPlaybackConfig { temperature: minus, ..config });
    assert_ne!(config, BasisGraphPlaybackConfig { seed: 7, ..config });
    let regions = BasisGraphRegionConfig { warp_strength: 0, ..BasisGraphRegionConfig::default() };
    assert_eq!(regions, BasisGraphRegionConfig { warp_strength: minus, ..regions });
    let state = new_playback_state(0, 0, start_at(0.0, 4), config);
    let mut other = state.clone();
    other.transition_delta = [minus; 3];
    assert_eq!(state, other);
    other.segment_phase = f32::NAN.to_bits();
    assert_ne!(state, other);
}
