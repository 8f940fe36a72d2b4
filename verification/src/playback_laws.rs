//! Laws of playback as a whole: its timing, its fresh states, and what makes it start over.

use crate::basis_bank_edit::BasisEditOverride;
use crate::basis_branch_regions::BasisGraphRegionConfig;
use crate::basis_graph_playback::{
    BasisGraphPlaybackConfig, BasisGraphPlaybackController, BasisGraphPlaybackState,
    BasisPlaybackTiming, SegmentStart,
};
use vstd::prelude::*;

verus! {

/// Two numbers have the same value: neither is a NaN, and zeros are equal whatever their sign.
pub open spec fn equal_numbers(a: u32, b: u32) -> bool {
    &&& a % 0x8000_0000 <= 0x7f80_0000
    &&& b % 0x8000_0000 <= 0x7f80_0000
    &&& a == b || (a % 0x8000_0000 == 0 && b % 0x8000_0000 == 0)
}

/// Comparing by value means this of the bit patterns.
pub proof fn values_compare_by_pattern(a: u32, b: u32)
    ensures
        crate::float_bits::same_value(a, b) <==> equal_numbers(a, b),
        crate::float_bits::nan(a) <==> a % 0x8000_0000 > 0x7f80_0000,
        crate::float_bits::finite(a) <==> a % 0x8000_0000 < 0x7f80_0000,
        crate::float_bits::less(a, b) ==> !crate::float_bits::less(b, a),
        a < 0x8000_0000 && b < 0x8000_0000 && b <= 0x7f80_0000 ==> (crate::float_bits::less(a, b)
            <==> a < b),
        0x8000_0000 < b <= 0xff80_0000 && a < 0x7f80_0000 ==> crate::float_bits::less(b, a),
{
}

/// An edit that is switched off, or missing, leaves a basis at its own pace.
pub proof fn switched_off_edits_keep_the_pace(edit: Option<BasisEditOverride>)
    requires
        edit matches Some(e) ==> !e.enabled,
    ensures
        crate::basis_graph_playback::timing_of(edit).time_scale == 0x3f80_0000,
        crate::basis_graph_playback::timing_of(edit).phase_offset == 0,
{
}

/// The pace of an edited basis lies between standing still and four times as fast. A pace in that
/// range is taken as it is, and one that is no number counts as the basis's own; so does a phase.
pub proof fn edited_pace_stays_in_range(edit: BasisEditOverride)
    requires
        edit.enabled,
    ensures
        ({
            let timing = crate::basis_graph_playback::timing_of(Some(edit));
            &&& crate::float_bits::less_or_same(0, timing.time_scale)
            &&& crate::float_bits::less_or_same(timing.time_scale, 0x4080_0000)
            &&& crate::float_bits::less_or_same(0, edit.time_scale)
                && crate::float_bits::less_or_same(edit.time_scale, 0x4080_0000)
                ==> timing.time_scale == edit.time_scale
            &&& crate::float_bits::finite(edit.time_scale) && crate::float_bits::less(
                0x4080_0000,
                edit.time_scale,
            ) ==> timing.time_scale == 0x4080_0000
            &&& crate::float_bits::finite(edit.time_scale) && crate::float_bits::less(
                edit.time_scale,
                0,
            ) ==> timing.time_scale == 0
            &&& !crate::float_bits::finite(edit.time_scale) ==> timing.time_scale == 0x3f80_0000
            &&& crate::float_bits::finite(timing.phase_offset)
            &&& crate::float_bits::finite(edit.phase_offset) ==> timing.phase_offset
                == edit.phase_offset
            &&& !crate::float_bits::finite(edit.phase_offset) ==> timing.phase_offset == 0
        }),
{
}

/// The timing of a basis comes from the edit of that basis alone; a basis without one keeps its pace.
pub proof fn every_basis_has_its_own_timing(
    edits: Seq<BasisEditOverride>,
    basis_count: nat,
    basis: int,
)
    requires
        0 <= basis < basis_count,
    ensures
        ({
            let timings = crate::basis_graph_playback::timings_of(edits, basis_count);
            &&& timings.len() == basis_count
            &&& basis < edits.len() ==> timings[basis] == crate::basis_graph_playback::timing_of(
                Some(edits[basis]),
            )
            &&& basis >= edits.len() ==> timings[basis].time_scale == 0x3f80_0000
                && timings[basis].phase_offset == 0
        }),
{
}

/// Playback starts with one state for every basis of every region: it plays its own basis from the
/// given place on, blends nothing, follows no curve, has refused nothing and may branch at once.
pub proof fn fresh_playback_plays_every_basis(
    starts: Seq<SegmentStart>,
    basis_count: int,
    regions: int,
    config: BasisGraphPlaybackConfig,
    region: int,
    basis: int,
)
    requires
        0 < basis_count <= usize::MAX,
        0 <= basis < basis_count,
        0 <= region < regions <= usize::MAX,
    ensures
        ({
            let states = crate::basis_graph_playback::fresh_states(
                starts,
                basis_count,
                regions,
                config,
            );
            let state = states[region * basis_count + basis];
            &&& states.len() == regions * basis_count
            &&& state.region_id == region
            &&& state.original_basis_id == basis
            &&& state.active_basis_id == basis
            &&& state.segment == starts[basis].segment
            &&& state.segment_phase == starts[basis].phase
            &&& state.blend_from_basis_id == basis
            &&& state.blend_from_segment == starts[basis].segment
            &&& !state.blend_active
            &&& state.blend_phase == 0x3f80_0000
            &&& state.blend_weight == 0x3f80_0000
            &&& !state.transition_active
            &&& state.transition is None
            &&& state.transition_phase_segments == 0
            &&& state.transition_duration_segments == 0
            &&& state.transition_delta[0] == 0
            &&& state.transition_delta[1] == 0
            &&& state.transition_delta[2] == 0
            &&& state.transition_target_basis_id == basis
            &&& state.transition_target_segment == starts[basis].segment
            &&& state.rejected_branch_count == 0
            &&& state.rejected_branch_score_count == 0
            &&& state.rejected_branch_position_count == 0
            &&& state.rejected_branch_velocity_count == 0
            &&& state.rejected_branch_acceleration_count == 0
            &&& state.segments_since_branch >= config.min_branch_interval_segments
            &&& state.last_edge is Reset
            &&& state.rng.state >= 1
        }),
{
    let i = region * basis_count + basis;
    vstd::arithmetic::div_mod::lemma_fundamental_div_mod_converse(i, basis_count, region, basis);
    assert(0 <= i < regions * basis_count) by (nonlinear_arith)
        requires
            i == region * basis_count + basis,
            0 <= basis < basis_count,
            0 <= region < regions,
    ;
}

/// The random numbers of a state follow from its seed, region and basis; seed 0 counts as seed 1,
/// and no state is seeded with 0.
pub proof fn seeds_are_never_zero(seed: u32, region_id: usize, basis_id: usize)
    ensures
        crate::basis_graph_playback::mixed_seed(seed, region_id, basis_id) >= 1,
        crate::basis_graph_playback::mixed_seed(0, region_id, basis_id)
            == crate::basis_graph_playback::mixed_seed(1, region_id, basis_id),
{
}

/// One step of the random numbers, modulo 2^32.
pub proof fn random_numbers_step(state: u32)
    ensures
        crate::basis_graph_playback::stepped(state) == (state * 1_664_525 + 1_013_904_223)
            % 0x1_0000_0000,
{
    let product = state * 1_664_525;
    vstd::arithmetic::div_mod::lemma_add_mod_noop(product, 1_013_904_223, 0x1_0000_0000);
}

/// What a change of the settings does to playback that is going on.
pub open spec fn same_course(a: BasisGraphPlaybackConfig, b: BasisGraphPlaybackConfig) -> bool {
    &&& a.policy == b.policy
    &&& a.seed == b.seed
    &&& a.min_branch_interval_segments == b.min_branch_interval_segments
    &&& a.max_position_cost_enabled == b.max_position_cost_enabled
    &&& a.max_velocity_cost_enabled == b.max_velocity_cost_enabled
    &&& a.max_acceleration_cost_enabled == b.max_acceleration_cost_enabled
    &&& equal_numbers(a.max_position_cost, b.max_position_cost)
    &&& equal_numbers(a.max_velocity_cost, b.max_velocity_cost)
    &&& equal_numbers(a.max_acceleration_cost, b.max_acceleration_cost)
}

/// Playback that is off only lets the clock move. Otherwise it goes on where nothing it depends on
/// has changed: the bank and its timings, the regions, the policy, the seed, the interval and the
/// limits of the costs. Another of these starts it over at the given time; a clock that has no
/// previous time, or has jumped by more than half the loop, starts it over at the wrapped time.
pub proof fn playback_goes_on_where_nothing_changed(
    controller: BasisGraphPlaybackController,
    elapsed: u32,
    basis_count: usize,
    config: BasisGraphPlaybackConfig,
    regions: BasisGraphRegionConfig,
)
    requires
        basis_count * regions.region_total() <= usize::MAX,
    ensures
        ({
            let kind = controller.tick(elapsed, basis_count, config, regions);
            let kept = {
                &&& controller.started()
                &&& controller.state_list().len() == basis_count * regions.region_total()
                &&& controller.timing_list().len() == basis_count
                &&& same_course(config, controller.config())
                &&& regions.same_config(controller.regions())
            };
            let jumped = controller.previous() is None || crate::float_bits::less(
                0x3f00_0000,
                elapsed,
            );
            &&& kind is Skip <==> !config.enabled
            &&& kind is Restart <==> config.enabled && !kept
            &&& kind is RestartWrapped <==> config.enabled && kept && jumped
            &&& kind is Step <==> config.enabled && kept && !jumped
        }),
{
    let last = controller.config();
    values_compare_by_pattern(config.max_position_cost, last.max_position_cost);
    values_compare_by_pattern(config.max_velocity_cost, last.max_velocity_cost);
    values_compare_by_pattern(config.max_acceleration_cost, last.max_acceleration_cost);
}

/// Playback that has started over holds what it was started with, and would go on from there.
pub proof fn restarted_playback_goes_on(
    controller: BasisGraphPlaybackController,
    starts: Seq<SegmentStart>,
    wrapped_time: u32,
    basis_count: usize,
    config: BasisGraphPlaybackConfig,
    regions: BasisGraphRegionConfig,
    edits: Seq<BasisEditOverride>,
    elapsed: u32,
)
    requires
        controller.restarted(starts, wrapped_time, basis_count, config, regions, edits),
        basis_count * regions.region_total() <= usize::MAX,
        config.enabled,
        same_course(config, config),
        regions.same_config(regions),
        crate::float_bits::less_or_same(elapsed, 0x3f00_0000),
    ensures
        controller.previous() == Some(wrapped_time),
        controller.config() == config,
        controller.regions() == regions,
        controller.timing_list().len() == basis_count,
        controller.tick(elapsed, basis_count, config, regions) is Step,
{
    playback_goes_on_where_nothing_changed(controller, elapsed, basis_count, config, regions);
    vstd::arithmetic::mul::lemma_mul_is_commutative(
        basis_count as int,
        regions.region_total() as int,
    );
}

/// States move on with their basis: where the timing of a basis changed, its states start over at
/// its place with the settings of now; all others are listed to move, in order, and stay as they
/// were.
pub proof fn changed_timings_start_over(
    before: Seq<BasisGraphPlaybackState>,
    after: Seq<BasisGraphPlaybackState>,
    old_timings: Seq<BasisPlaybackTiming>,
    timings: Seq<BasisPlaybackTiming>,
    starts: Seq<SegmentStart>,
    config: BasisGraphPlaybackConfig,
    moving: Seq<usize>,
    i: int,
)
    requires
        crate::basis_graph_playback::stepped_states(
            before,
            after,
            old_timings,
            timings,
            starts,
            config,
            moving,
        ),
        0 <= i < before.len() <= usize::MAX,
    ensures
        after.len() == before.len(),
        ({
            let basis = before[i].original_basis_id as int;
            let kept = equal_numbers(timings[basis].time_scale, old_timings[basis].time_scale)
                && equal_numbers(timings[basis].phase_offset, old_timings[basis].phase_offset);
            &&& moving.contains(i as usize) <==> kept
            &&& kept ==> after[i] == before[i]
            &&& after[i].region_id == before[i].region_id
            &&& after[i].original_basis_id == before[i].original_basis_id
            &&& !kept ==> {
                &&& after[i].active_basis_id == basis
                &&& after[i].segment == starts[basis].segment
                &&& after[i].segment_phase == starts[basis].phase
                &&& !after[i].blend_active
                &&& !after[i].transition_active
                &&& after[i].transition is None
                &&& after[i].last_edge is Reset
                &&& after[i].rejected_branch_count == 0
                &&& after[i].segments_since_branch == config.min_branch_interval_segments
            }
        }),
        forall|p: int, q: int|
            0 <= p < q < moving.len() ==> (#[trigger] moving[p]) < (#[trigger] moving[q]),
{
    let basis = before[i].original_basis_id as int;
    values_compare_by_pattern(timings[basis].time_scale, old_timings[basis].time_scale);
    values_compare_by_pattern(timings[basis].phase_offset, old_timings[basis].phase_offset);
    if moving.contains(i as usize) {
        let p = choose|p: int| 0 <= p < moving.len() && moving[p] == i as usize;
        assert(moving[p] < before.len());
    }
}

/// Settings are equal where every one of them is: switches and counts as they are, numbers by value.
pub proof fn settings_compare_field_by_field(
    a: BasisGraphPlaybackConfig,
    b: BasisGraphPlaybackConfig,
)
    ensures
        a.same_config(b) <==> {
            &&& same_course(a, b)
            &&& a.enabled == b.enabled
            &&& a.max_branch_score_enabled == b.max_branch_score_enabled
            &&& equal_numbers(a.branch_probability, b.branch_probability)
            &&& equal_numbers(a.temperature, b.temperature)
            &&& equal_numbers(a.blend_duration, b.blend_duration)
            &&& equal_numbers(a.max_branch_score, b.max_branch_score)
        },
{
    values_compare_by_pattern(a.branch_probability, b.branch_probability);
    values_compare_by_pattern(a.temperature, b.temperature);
    values_compare_by_pattern(a.blend_duration, b.blend_duration);
    values_compare_by_pattern(a.max_branch_score, b.max_branch_score);
    values_compare_by_pattern(a.max_position_cost, b.max_position_cost);
    values_compare_by_pattern(a.max_velocity_cost, b.max_velocity_cost);
    values_compare_by_pattern(a.max_acceleration_cost, b.max_acceleration_cost);
}

/// States that are equal play the same: the same basis, segment and phase, the same blend, the same
/// way along a curve to the same target, with the same refusals and random numbers.
pub proof fn equal_states_play_the_same(a: BasisGraphPlaybackState, b: BasisGraphPlaybackState)
    requires
        a.same_state(b),
    ensures
        a.region_id == b.region_id,
        a.original_basis_id == b.original_basis_id,
        a.active_basis_id == b.active_basis_id,
        a.segment == b.segment,
        equal_numbers(a.segment_phase, b.segment_phase),
        a.blend_from_basis_id == b.blend_from_basis_id,
        a.blend_from_segment == b.blend_from_segment,
        equal_numbers(a.blend_phase, b.blend_phase),
        equal_numbers(a.blend_weight, b.blend_weight),
        a.blend_active == b.blend_active,
        a.transition_active == b.transition_active,
        equal_numbers(a.transition_phase_segments, b.transition_phase_segments),
        equal_numbers(a.transition_duration_segments, b.transition_duration_segments),
        equal_numbers(a.transition_delta[0], b.transition_delta[0]),
        equal_numbers(a.transition_delta[1], b.transition_delta[1]),
        equal_numbers(a.transition_delta[2], b.transition_delta[2]),
        a.transition is Some <==> b.transition is Some,
        a.transition is Some ==> (a.transition->0).duration_segments
            == (b.transition->0).duration_segments && (a.transition->0).knots@.len()
            == (b.transition->0).knots@.len() && (a.transition->0).kind@
            == (b.transition->0).kind@,
        a.transition_target_basis_id == b.transition_target_basis_id,
        a.transition_target_segment == b.transition_target_segment,
        a.rejected_branch_count == b.rejected_branch_count,
        a.rejected_branch_score_count == b.rejected_branch_score_count,
        a.rejected_branch_position_count == b.rejected_branch_position_count,
        a.rejected_branch_velocity_count == b.rejected_branch_velocity_count,
        a.rejected_branch_acceleration_count == b.rejected_branch_acceleration_count,
        a.segments_since_branch == b.segments_since_branch,
        a.last_edge == b.last_edge,
        a.rng.state == b.rng.state,
{
    values_compare_by_pattern(a.segment_phase, b.segment_phase);
    values_compare_by_pattern(a.blend_phase, b.blend_phase);
    values_compare_by_pattern(a.blend_weight, b.blend_weight);
    values_compare_by_pattern(a.transition_phase_segments, b.transition_phase_segments);
    values_compare_by_pattern(a.transition_duration_segments, b.transition_duration_segments);
    values_compare_by_pattern(a.transition_delta[0], b.transition_delta[0]);
    values_compare_by_pattern(a.transition_delta[1], b.transition_delta[1]);
    values_compare_by_pattern(a.transition_delta[2], b.transition_delta[2]);
}

} // verus!
