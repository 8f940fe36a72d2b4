//! Playback states as rows of four numbers for the GPU.

use crate::basis_branch_regions::graph_state_index;
use crate::basis_graph_playback::BasisGraphPlaybackState;
use vstd::prelude::*;

verus! {

/// What a row says of a state.
#[derive(Clone, Copy, Debug, PartialEq, Eq, Structural)]
enum RowKind {
    Blend,
    Direct,
    Sample,
}

pub open spec fn unit(bits: u32) -> u32 {
    crate::float_bits::clamped(bits, crate::float_bits::ZERO, crate::float_bits::ONE)
}

pub open spec fn number(n: usize) -> u32 {
    crate::float_bits::integer_bits(n as nat) as u32
}

/// Where the blend comes from (the state itself where none goes on), the phase and the weight.
pub open spec fn blend_row(state: BasisGraphPlaybackState) -> Seq<u32> {
    if state.blend_active {
        seq![
            number(state.blend_from_basis_id),
            number(state.blend_from_segment),
            unit(state.segment_phase),
            unit(state.blend_weight),
        ]
    } else {
        seq![
            number(state.active_basis_id),
            number(state.segment),
            unit(state.segment_phase),
            unit(state.blend_weight),
        ]
    }
}

/// Where the transition is.
pub open spec fn direct_row(state: BasisGraphPlaybackState) -> Seq<u32> {
    seq![
        state.transition_delta[0],
        state.transition_delta[1],
        state.transition_delta[2],
        crate::float_bits::ONE,
    ]
}

/// What is played, and the phase.
pub open spec fn sample_row(state: BasisGraphPlaybackState) -> Seq<u32> {
    seq![
        number(state.active_basis_id),
        number(state.segment),
        unit(state.segment_phase),
        crate::float_bits::ONE,
    ]
}

/// The row of a state, if it has one.
spec fn row_of(state: BasisGraphPlaybackState, kind: RowKind) -> Option<Seq<u32>> {
    match kind {
        RowKind::Blend => Some(blend_row(state)),
        RowKind::Direct => if state.transition_active {
            Some(direct_row(state))
        } else {
            None
        },
        RowKind::Sample => Some(sample_row(state)),
    }
}

/// The rows of a slot that no state fills.
pub open spec fn empty_row(weight: u32) -> Seq<u32> {
    seq![crate::float_bits::ZERO, crate::float_bits::ZERO, crate::float_bits::ZERO, weight]
}

/// The last of the first `n` states that fills a slot.
pub open spec fn last_in_slot(
    states: Seq<BasisGraphPlaybackState>,
    n: nat,
    slot: int,
    basis_count: usize,
    only_transitions: bool,
) -> Option<BasisGraphPlaybackState>
    decreases n,
{
    if n == 0 {
        None
    } else {
        let state = states[n - 1];
        if crate::basis_branch_regions::state_index(
            state.region_id,
            state.original_basis_id,
            basis_count,
        ) == Some(slot as usize) && (only_transitions ==> state.transition_active) {
            Some(state)
        } else {
            last_in_slot(states, (n - 1) as nat, slot, basis_count, only_transitions)
        }
    }
}

/// Slots for all bases in all regions; at least one region.
pub open spec fn slot_count(basis_count: usize, region_count: usize) -> int {
    let regions = if region_count == 0 {
        1
    } else {
        region_count as int
    };
    if basis_count * regions > usize::MAX {
        usize::MAX as int
    } else {
        basis_count * regions
    }
}

/// Slots for all bases in all regions.
pub fn packed_graph_len(basis_count: usize, graph_region_count: usize) -> (r: usize)
    ensures
        r == slot_count(basis_count, graph_region_count),
{
    let regions: usize = if graph_region_count == 0 {
        1
    } else {
        graph_region_count
    };
    match basis_count.checked_mul(regions) {
        Some(product) => product,
        None => usize::MAX,
    }
}

fn unit_bits(bits: u32) -> (r: u32)
    ensures
        r == unit(bits),
{
    crate::float_bits::clamp(bits, crate::float_bits::ZERO, crate::float_bits::ONE)
}

fn number_bits(n: usize) -> (r: u32)
    ensures
        r == number(n),
{
    crate::float_bits::from_integer(n as u64)
}

fn pack_row(state: &BasisGraphPlaybackState, kind: RowKind) -> (r: Option<[u32; 4]>)
    ensures
        match r {
            Some(row) => row_of(*state, kind) == Some(row@),
            None => row_of(*state, kind) is None,
        },
{
    match kind {
        RowKind::Blend => {
            let from_basis: usize = if state.blend_active {
                state.blend_from_basis_id
            } else {
                state.active_basis_id
            };
            let from_segment: usize = if state.blend_active {
                state.blend_from_segment
            } else {
                state.segment
            };
            let row: [u32; 4] = [
                number_bits(from_basis),
                number_bits(from_segment),
                unit_bits(state.segment_phase),
                unit_bits(state.blend_weight),
            ];
            assert(row@ =~= blend_row(*state));
            Some(row)
        },
        RowKind::Direct => {
            if !state.transition_active {
                return None;
            }
            let row: [u32; 4] = [
                state.transition_delta[0],
                state.transition_delta[1],
                state.transition_delta[2],
                crate::float_bits::ONE,
            ];
            assert(row@ =~= direct_row(*state));
            Some(row)
        },
        RowKind::Sample => {
            let row: [u32; 4] = [
                number_bits(state.active_basis_id),
                number_bits(state.segment),
                unit_bits(state.segment_phase),
                crate::float_bits::ONE,
            ];
            assert(row@ =~= sample_row(*state));
            Some(row)
        },
    }
}

/// The row of a slot.
spec fn slot_row(
    states: Seq<BasisGraphPlaybackState>,
    n: nat,
    slot: int,
    basis_count: usize,
    kind: RowKind,
    weight: u32,
) -> Seq<u32> {
    match last_in_slot(states, n, slot, basis_count, kind == RowKind::Direct) {
        Some(state) => row_of(state, kind)->0,
        None => empty_row(weight),
    }
}

fn pack_rows(
    states: Option<&Vec<BasisGraphPlaybackState>>,
    basis_count: usize,
    graph_region_count: usize,
    kind: RowKind,
    weight: u32,
) -> (r: Vec<[u32; 4]>)
    ensures
        r@.len() == slot_count(basis_count, graph_region_count),
        forall|slot: int|
            0 <= slot < r@.len() ==> (#[trigger] r@[slot])@ == match states {
                Some(list) => slot_row(list@, list@.len(), slot, basis_count, kind, weight),
                None => empty_row(weight),
            },
{
    let total: usize = packed_graph_len(basis_count, graph_region_count);
    let mut packed: Vec<[u32; 4]> = Vec::new();
    for i in 0..total
        invariant
            packed@.len() == i,
            forall|slot: int| 0 <= slot < i ==> (#[trigger] packed@[slot])@ == empty_row(weight),
    {
        let row: [u32; 4] = [
            crate::float_bits::ZERO,
            crate::float_bits::ZERO,
            crate::float_bits::ZERO,
            weight,
        ];
        assert(row@ =~= empty_row(weight));
        packed.push(row);
    }
    let list: &Vec<BasisGraphPlaybackState> = match states {
        Some(list) => list,
        None => {
            return packed;
        },
    };
    for n in 0..list.len()
        invariant
            packed@.len() == total,
            forall|slot: int|
                0 <= slot < total ==> (#[trigger] packed@[slot])@ == slot_row(
                    list@,
                    n as nat,
                    slot,
                    basis_count,
                    kind,
                    weight,
                ),
    {
        let state: &BasisGraphPlaybackState = &list[n];
        if let Some(index) = graph_state_index(
            state.region_id,
            state.original_basis_id,
            basis_count,
        ) {
            if index < total {
                if let Some(row) = pack_row(state, kind) {
                    packed.set(index, row);
                }
            }
        }
    }
    packed
}

/// The blend rows of all slots: zero, with full weight, where there is no state.
pub fn pack_basis_graph_blend_overrides(
    states: Option<&Vec<BasisGraphPlaybackState>>,
    basis_count: usize,
    graph_region_count: usize,
) -> (r: Vec<[u32; 4]>)
    ensures
        r@.len() == slot_count(basis_count, graph_region_count),
        states is None ==> forall|slot: int|
            0 <= slot < r@.len() ==> (#[trigger] r@[slot])@ == empty_row(crate::float_bits::ONE),
        states matches Some(list) ==> forall|slot: int|
            0 <= slot < r@.len() ==> (#[trigger] r@[slot])@ == match last_in_slot(
                list@,
                list@.len(),
                slot,
                basis_count,
                false,
            ) {
                Some(state) => blend_row(state),
                None => empty_row(crate::float_bits::ONE),
            },
{
    pack_rows(states, basis_count, graph_region_count, RowKind::Blend, crate::float_bits::ONE)
}

/// The transition rows of all slots: zero where no transition goes on.
pub fn pack_basis_graph_direct_overrides(
    states: Option<&Vec<BasisGraphPlaybackState>>,
    basis_count: usize,
    graph_region_count: usize,
) -> (r: Vec<[u32; 4]>)
    ensures
        r@.len() == slot_count(basis_count, graph_region_count),
        states is None ==> forall|slot: int|
            0 <= slot < r@.len() ==> (#[trigger] r@[slot])@ == empty_row(crate::float_bits::ZERO),
        states matches Some(list) ==> forall|slot: int|
            0 <= slot < r@.len() ==> (#[trigger] r@[slot])@ == match last_in_slot(
                list@,
                list@.len(),
                slot,
                basis_count,
                true,
            ) {
                Some(state) => direct_row(state),
                None => empty_row(crate::float_bits::ZERO),
            },
{
    let r: Vec<[u32; 4]> = pack_rows(
        states,
        basis_count,
        graph_region_count,
        RowKind::Direct,
        crate::float_bits::ZERO,
    );
    proof {
        if let Some(list) = states {
            assert forall|slot: int| 0 <= slot < r@.len() implies (#[trigger] r@[slot])@
                == match last_in_slot(list@, list@.len(), slot, basis_count, true) {
                Some(state) => direct_row(state),
                None => empty_row(crate::float_bits::ZERO),
            } by {
                slot_holds_transition(list@, list@.len(), slot, basis_count);
            }
        }
    }
    r
}

proof fn slot_holds_transition(
    states: Seq<BasisGraphPlaybackState>,
    n: nat,
    slot: int,
    basis_count: usize,
)
    ensures
        last_in_slot(states, n, slot, basis_count, true) matches Some(state)
            ==> state.transition_active,
    decreases n,
{
    if n > 0 {
        slot_holds_transition(states, (n - 1) as nat, slot, basis_count);
    }
}

/// The sample rows of all slots: zero where there is no state.
pub fn pack_basis_graph_sample_overrides(
    states: Option<&Vec<BasisGraphPlaybackState>>,
    basis_count: usize,
    graph_region_count: usize,
) -> (r: Vec<[u32; 4]>)
    ensures
        r@.len() == slot_count(basis_count, graph_region_count),
        states is None ==> forall|slot: int|
            0 <= slot < r@.len() ==> (#[trigger] r@[slot])@ == empty_row(crate::float_bits::ZERO),
        states matches Some(list) ==> forall|slot: int|
            0 <= slot < r@.len() ==> (#[trigger] r@[slot])@ == match last_in_slot(
                list@,
                list@.len(),
                slot,
                basis_count,
                false,
            ) {
                Some(state) => sample_row(state),
                None => empty_row(crate::float_bits::ZERO),
            },
{
    pack_rows(states, basis_count, graph_region_count, RowKind::Sample, crate::float_bits::ZERO)
}

/// Every state of a playback has a slot of its own, that of its place.
pub proof fn states_fill_their_slots(
    states: Seq<BasisGraphPlaybackState>,
    basis_count: usize,
    regions: int,
    slot: int,
)
    requires
        crate::basis_graph_playback::laid_out(states, basis_count as int, regions),
        states.len() <= usize::MAX,
        0 <= slot < states.len(),
    ensures
        last_in_slot(states, states.len(), slot, basis_count, false) == Some(states[slot]),
{
    slot_of_state(states, basis_count, regions, slot, states.len());
}

proof fn slot_of_state(
    states: Seq<BasisGraphPlaybackState>,
    basis_count: usize,
    regions: int,
    slot: int,
    n: nat,
)
    requires
        crate::basis_graph_playback::laid_out(states, basis_count as int, regions),
        states.len() <= usize::MAX,
        0 <= slot < n <= states.len(),
    ensures
        last_in_slot(states, n, slot, basis_count, false) == Some(states[slot]),
    decreases n,
{
    let state = states[n - 1];
    assert(basis_count > 0) by (nonlinear_arith)
        requires
            0 < states.len(),
            states.len() == regions * basis_count,
    ;
    vstd::arithmetic::div_mod::lemma_fundamental_div_mod(n - 1, basis_count as int);
    vstd::arithmetic::div_mod::lemma_mod_bound(n - 1, basis_count as int);
    assert(state.region_id * basis_count + state.original_basis_id == n - 1) by (nonlinear_arith)
        requires
            state.region_id == (n - 1) / basis_count as int,
            state.original_basis_id == (n - 1) % basis_count as int,
            n - 1 == basis_count * ((n - 1) / basis_count as int) + (n - 1) % basis_count as int,
    ;
    if slot < n - 1 {
        slot_of_state(states, basis_count, regions, slot, (n - 1) as nat);
    }
}

} // verus!
