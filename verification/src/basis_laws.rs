//! Laws of the settings, edits and packed rows of a basis bank.

use crate::basis_bank_edit::{BasisEditOverride, BasisKnotEditPlane, BasisKnotEditState};
use crate::basis_branch_regions::BasisGraphRegionConfig;
use crate::basis_graph_playback::BasisGraphPlaybackState;
use vstd::prelude::*;

verus! {

/// Settings of the regions are brought into range, each by itself, and those in range are kept: 1 to
/// 64 regions, 1 to 4 octaves, a size of at least 0.001, a warp from 0 to 4. A size or warp that is
/// no number becomes 8 or 0.35. The domain and the seed stay.
pub proof fn region_settings_are_brought_into_range(config: BasisGraphRegionConfig)
    ensures
        ({
            let r = config.in_range();
            &&& r.domain == config.domain
            &&& r.seed == config.seed
            &&& 1 <= r.region_count <= 64
            &&& 1 <= config.region_count <= 64 ==> r.region_count == config.region_count
            &&& config.region_count == 0 ==> r.region_count == 1
            &&& config.region_count > 64 ==> r.region_count == 64
            &&& 1 <= r.octaves <= 4
            &&& 1 <= config.octaves <= 4 ==> r.octaves == config.octaves
            &&& config.octaves == 0 ==> r.octaves == 1
            &&& config.octaves > 4 ==> r.octaves == 4
            &&& crate::float_bits::less_or_same(0x3a83_126f, r.region_size_world)
            &&& crate::float_bits::finite(config.region_size_world)
                && crate::float_bits::less_or_same(0x3a83_126f, config.region_size_world)
                ==> r.region_size_world == config.region_size_world
            &&& crate::float_bits::less(config.region_size_world, 0x3a83_126f)
                && crate::float_bits::finite(config.region_size_world) ==> r.region_size_world
                == 0x3a83_126f
            &&& !crate::float_bits::finite(config.region_size_world) ==> r.region_size_world
                == 0x4100_0000
            &&& crate::float_bits::less_or_same(0, r.warp_strength)
            &&& crate::float_bits::less_or_same(r.warp_strength, 0x4080_0000)
            &&& crate::float_bits::less_or_same(0, config.warp_strength)
                && crate::float_bits::less_or_same(config.warp_strength, 0x4080_0000)
                ==> r.warp_strength == config.warp_strength
            &&& !crate::float_bits::finite(config.warp_strength) ==> r.warp_strength == 0x3eb3_3333
        }),
{
}

/// Without spatial variation there is one region; with it there are as many as the settings in range
/// ask for. Bringing the settings into range does not change the number.
pub proof fn regions_are_counted_in_range(config: BasisGraphRegionConfig)
    ensures
        config.domain is GlobalBasis ==> config.region_total() == 1,
        config.domain is FbmRegions ==> config.region_total() == config.in_range().region_count,
        config.in_range().region_total() == config.region_total(),
{
}

/// Settings of the regions are equal where every one of them is.
pub proof fn region_settings_compare_field_by_field(
    a: BasisGraphRegionConfig,
    b: BasisGraphRegionConfig,
)
    ensures
        a.same_config(b) <==> {
            &&& a.domain == b.domain
            &&& a.region_count == b.region_count
            &&& a.octaves == b.octaves
            &&& a.seed == b.seed
            &&& crate::playback_laws::equal_numbers(a.region_size_world, b.region_size_world)
            &&& crate::playback_laws::equal_numbers(a.warp_strength, b.warp_strength)
        },
{
    crate::playback_laws::values_compare_by_pattern(a.region_size_world, b.region_size_world);
    crate::playback_laws::values_compare_by_pattern(a.warp_strength, b.warp_strength);
}

/// States are numbered basis by basis within a region, and region by region.
pub proof fn states_are_numbered_region_by_region(
    region_id: usize,
    basis_id: usize,
    basis_count: usize,
)
    requires
        0 < basis_count,
        (region_id + 1) * basis_count + basis_count <= usize::MAX,
        basis_id < basis_count,
    ensures
        crate::basis_branch_regions::state_index(0, basis_id, basis_count) == Some(basis_id),
        crate::basis_branch_regions::state_index(region_id, basis_id, basis_count) is Some,
        basis_id + 1 < basis_count ==> crate::basis_branch_regions::state_index(
            region_id,
            (basis_id + 1) as usize,
            basis_count,
        )->0 == crate::basis_branch_regions::state_index(region_id, basis_id, basis_count)->0 + 1,
        region_id < usize::MAX ==> crate::basis_branch_regions::state_index(
            (region_id + 1) as usize,
            basis_id,
            basis_count,
        )->0 == crate::basis_branch_regions::state_index(region_id, basis_id, basis_count)->0
            + basis_count,
        crate::basis_branch_regions::state_index(region_id, basis_count, basis_count) is None,
{
    assert((region_id + 1) * basis_count == region_id * basis_count + basis_count)
        by (nonlinear_arith);
    assert(region_id * basis_count >= 0) by (nonlinear_arith);
    assert(0 * basis_count == 0);
}

/// A row of edits for the device: whether the edit is on, its amplitude, its phase and its pace.
pub proof fn edit_rows_show_the_edit(edit: BasisEditOverride)
    ensures
        edit.packed_words().len() == 4,
        edit.enabled ==> edit.packed_words()[0] == 0x3f80_0000,
        !edit.enabled ==> edit.packed_words()[0] == 0,
        edit.packed_words()[1] == edit.amplitude_scale,
        edit.packed_words()[2] == edit.phase_offset,
        edit.packed_words()[3] == edit.time_scale,
{
}

/// An edit to start with is off and changes nothing: amplitude and pace 1, phase 0.
pub proof fn edits_start_without_effect()
    ensures
        !crate::basis_bank_edit::default_edit().enabled,
        crate::basis_bank_edit::default_edit().amplitude_scale == 0x3f80_0000,
        crate::basis_bank_edit::default_edit().phase_offset == 0,
        crate::basis_bank_edit::default_edit().time_scale == 0x3f80_0000,
{
}

/// Edits are equal where their switch, amplitude, phase and pace are.
pub proof fn edits_compare_field_by_field(a: BasisEditOverride, b: BasisEditOverride)
    ensures
        a.same_edit(b) <==> {
            &&& a.enabled == b.enabled
            &&& crate::playback_laws::equal_numbers(a.amplitude_scale, b.amplitude_scale)
            &&& crate::playback_laws::equal_numbers(a.phase_offset, b.phase_offset)
            &&& crate::playback_laws::equal_numbers(a.time_scale, b.time_scale)
        },
{
    crate::playback_laws::values_compare_by_pattern(a.amplitude_scale, b.amplitude_scale);
    crate::playback_laws::values_compare_by_pattern(a.phase_offset, b.phase_offset);
    crate::playback_laws::values_compare_by_pattern(a.time_scale, b.time_scale);
}

/// A plane names two different coordinates, and each plane leaves out another one.
pub proof fn planes_leave_one_coordinate_out(plane: BasisKnotEditPlane)
    ensures
        ({
            let (u, v) = crate::basis_bank_edit::plane_axes(plane);
            &&& 0 <= u < v < 3
            &&& plane is XY ==> u != 2 && v != 2
            &&& plane is XZ ==> u != 1 && v != 1
            &&& plane is YZ ==> u != 0 && v != 0
        }),
{
}

/// Moving a knot in a plane keeps the coordinate across the plane, and puts the others where they
/// were moved to.
pub proof fn moving_in_a_plane_keeps_the_depth(
    point: [u32; 3],
    plane: BasisKnotEditPlane,
    moved: [u32; 2],
    edited: [u32; 3],
)
    requires
        edited@ == point@.update(crate::basis_bank_edit::plane_axes(plane).0, moved[0]).update(
            crate::basis_bank_edit::plane_axes(plane).1,
            moved[1],
        ),
    ensures
        plane is XY ==> edited[0] == moved[0] && edited[1] == moved[1] && edited[2] == point[2],
        plane is XZ ==> edited[0] == moved[0] && edited[1] == point[1] && edited[2] == moved[1],
        plane is YZ ==> edited[0] == point[0] && edited[1] == moved[0] && edited[2] == moved[1],
{
    assert(edited[0] == edited@[0] && edited[1] == edited@[1] && edited[2] == edited@[2]);
}

/// A basis is edited where one of its knots is.
pub proof fn a_basis_is_edited_where_a_knot_is(state: BasisKnotEditState, basis_id: usize)
    requires
        state.shaped(),
        basis_id < state.bases(),
    ensures
        crate::basis_bank_edit::differs_in(
            state.edited(),
            state.original(),
            basis_id * state.knots() * 3,
            basis_id * state.knots() * 3 + state.knots() * 3,
        ) <==> exists|knot: int|
            #![trigger crate::basis_bank_edit::knot_offset(basis_id as int, knot, state.knots() as int)]
            0 <= knot < state.knots() && crate::basis_bank_edit::differs_in(
                state.edited(),
                state.original(),
                crate::basis_bank_edit::knot_offset(basis_id as int, knot, state.knots() as int),
                crate::basis_bank_edit::knot_offset(basis_id as int, knot, state.knots() as int)
                    + 3,
            ),
{
    let k = state.knots() as int;
    let from = basis_id * k * 3;
    let edited = state.edited();
    let original = state.original();
    if crate::basis_bank_edit::differs_in(edited, original, from, from + k * 3) {
        let i = choose|i: int|
            from <= i < from + k * 3 && !crate::float_bits::same_value(
                #[trigger] edited[i],
                original[i],
            );
        let knot = (i - from) / 3;
        let at = crate::basis_bank_edit::knot_offset(basis_id as int, knot, k);
        assert(at == from + 3 * knot);
        assert(at <= i < at + 3);
        assert(crate::basis_bank_edit::differs_in(edited, original, at, at + 3));
    }
    assert forall|knot: int|
        #![trigger crate::basis_bank_edit::knot_offset(basis_id as int, knot, k)]
        0 <= knot < k && crate::basis_bank_edit::differs_in(
            edited,
            original,
            crate::basis_bank_edit::knot_offset(basis_id as int, knot, k),
            crate::basis_bank_edit::knot_offset(basis_id as int, knot, k) + 3,
        ) implies crate::basis_bank_edit::differs_in(edited, original, from, from + k * 3) by {
        let at = crate::basis_bank_edit::knot_offset(basis_id as int, knot, k);
        assert(at == from + 3 * knot);
        let i = choose|i: int|
            at <= i < at + 3 && !crate::float_bits::same_value(#[trigger] edited[i], original[i]);
        assert(from <= i < from + k * 3);
    }
}

/// A knot counts as edited where one of its numbers has another value than at first.
pub proof fn a_knot_is_edited_where_a_number_changed(a: Seq<u32>, b: Seq<u32>, at: int)
    ensures
        crate::basis_bank_edit::differs_in(a, b, at, at + 3) <==> {
            ||| !crate::playback_laws::equal_numbers(a[at], b[at])
            ||| !crate::playback_laws::equal_numbers(a[at + 1], b[at + 1])
            ||| !crate::playback_laws::equal_numbers(a[at + 2], b[at + 2])
        },
{
    crate::playback_laws::values_compare_by_pattern(a[at], b[at]);
    crate::playback_laws::values_compare_by_pattern(a[at + 1], b[at + 1]);
    crate::playback_laws::values_compare_by_pattern(a[at + 2], b[at + 2]);
    if crate::basis_bank_edit::differs_in(a, b, at, at + 3) {
        let i = choose|i: int|
            at <= i < at + 3 && !crate::float_bits::same_value(#[trigger] a[i], b[i]);
        assert(i == at || i == at + 1 || i == at + 2);
    }
}

/// The rows of a state for the device. A blend starts from where the state came from, and without
/// one from where it is; a sample is where it is; a curve gives the place itself. Phases and weights
/// lie between 0 and 1.
pub proof fn rows_show_the_state(state: BasisGraphPlaybackState)
    ensures
        ({
            let blend = crate::basis_graph_packing::blend_row(state);
            let sample = crate::basis_graph_packing::sample_row(state);
            let direct = crate::basis_graph_packing::direct_row(state);
            let from = if state.blend_active {
                (state.blend_from_basis_id, state.blend_from_segment)
            } else {
                (state.active_basis_id, state.segment)
            };
            &&& blend.len() == 4
            &&& sample.len() == 4
            &&& direct.len() == 4
            &&& holds_number(blend[0], from.0)
            &&& holds_number(blend[1], from.1)
            &&& holds_number(sample[0], state.active_basis_id)
            &&& holds_number(sample[1], state.segment)
            &&& is_share_of(blend[2], state.segment_phase)
            &&& is_share_of(blend[3], state.blend_weight)
            &&& is_share_of(sample[2], state.segment_phase)
            &&& sample[3] == 0x3f80_0000
            &&& direct[0] == state.transition_delta[0]
            &&& direct[1] == state.transition_delta[1]
            &&& direct[2] == state.transition_delta[2]
            &&& direct[3] == 0x3f80_0000
        }),
{
    numbers_are_held(state.blend_from_basis_id);
    numbers_are_held(state.blend_from_segment);
    numbers_are_held(state.active_basis_id);
    numbers_are_held(state.segment);
}

/// A bit pattern holds a whole number; below 2^24 it can be read back.
pub open spec fn holds_number(bits: u32, n: usize) -> bool {
    &&& n == 0 ==> bits == 0
    &&& 0 < n < 0x100_0000 ==> crate::float_bits::whole_part(bits) == n
}

/// A number is brought between 0 and 1; one that lies there is kept.
pub open spec fn is_share_of(share: u32, bits: u32) -> bool {
    &&& !crate::float_bits::nan(bits) ==> crate::float_bits::less_or_same(0, share)
        && crate::float_bits::less_or_same(share, 0x3f80_0000)
    &&& crate::float_bits::less_or_same(0, bits) && crate::float_bits::less_or_same(
        bits,
        0x3f80_0000,
    ) ==> share == bits
    &&& crate::float_bits::less(bits, 0) ==> share == 0
    &&& crate::float_bits::less(0x3f80_0000, bits) ==> share == 0x3f80_0000
}

proof fn numbers_are_held(n: usize)
    ensures
        holds_number(crate::basis_graph_packing::number(n), n),
{
    if 0 < n < 0x100_0000 {
        crate::float_bits::small_integers_are_kept(n as nat);
    }
}

/// A slot that no state fills holds zeros and the given weight.
pub proof fn empty_slots_hold_zeros(weight: u32)
    ensures
        crate::basis_graph_packing::empty_row(weight).len() == 4,
        crate::basis_graph_packing::empty_row(weight)[0] == 0,
        crate::basis_graph_packing::empty_row(weight)[1] == 0,
        crate::basis_graph_packing::empty_row(weight)[2] == 0,
        crate::basis_graph_packing::empty_row(weight)[3] == weight,
{
}

/// There is one slot for every basis of every region, and at least one region.
pub proof fn there_is_a_slot_for_every_state(basis_count: usize, region_count: usize)
    requires
        basis_count * region_count <= usize::MAX,
    ensures
        region_count > 0 ==> crate::basis_graph_packing::slot_count(basis_count, region_count)
            == basis_count * region_count,
        crate::basis_graph_packing::slot_count(basis_count, 0) == basis_count,
{
    assert(basis_count * 1 == basis_count);
}

/// A state has a number exactly where its basis is in the bank and the number can be represented.
pub proof fn states_are_numbered_where_they_fit(
    region_id: usize,
    basis_id: usize,
    basis_count: usize,
)
    ensures
        ({
            let r = crate::basis_branch_regions::state_index(region_id, basis_id, basis_count);
            &&& r is Some <==> basis_id < basis_count && basis_count * region_id + basis_id
                <= usize::MAX
            &&& r is Some ==> r->0 == basis_count * region_id + basis_id
        }),
{
    assert(basis_count * region_id == region_id * basis_count) by (nonlinear_arith);
    assert(region_id * basis_count >= 0) by (nonlinear_arith)
        requires
            region_id >= 0,
            basis_count >= 0,
    ;
}

} // verus!
