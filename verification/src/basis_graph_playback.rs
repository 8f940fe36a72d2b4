//! Playback of a motion graph: which segment of which basis each basis plays, and how it got
//! there.
//!
//! Numbers are bit patterns. Positions on the clock, sampled curves and blend weights are computed
//! by the caller and handed in; what follows from them is decided here.

use crate::basis_bank_edit::BasisEditOverride;
use crate::basis_branch_regions::BasisGraphRegionConfig;
use crate::basis_motion_graph::{BasisMotionGraphBranch, BasisMotionGraphTransition};
use vstd::prelude::*;

pub use crate::basis_graph_packing::{
    pack_basis_graph_blend_overrides, pack_basis_graph_direct_overrides,
    pack_basis_graph_sample_overrides, packed_graph_len,
};

verus! {

/// Bit pattern of `0.5`, the farthest that playback follows the clock in one step.
pub const MAX_PLAYBACK_STEP: u32 = 0x3f00_0000;

/// Bit pattern of `4.0`, the greatest time scale.
pub const MAX_TIME_SCALE: u32 = 0x4080_0000;

/// What happens at the end of a segment.
#[derive(Clone, Copy, Debug, PartialEq, Eq, Structural)]
pub enum BasisGraphPlaybackPolicy {
    Continue,
    Rank0,
    Stochastic,
}

impl BasisGraphPlaybackPolicy {
    /// All policies, in the order they are offered.
    pub fn all() -> (r: [BasisGraphPlaybackPolicy; 3])
        ensures
            r[0] == BasisGraphPlaybackPolicy::Continue,
            r[1] == BasisGraphPlaybackPolicy::Rank0,
            r[2] == BasisGraphPlaybackPolicy::Stochastic,
    {
        [
            BasisGraphPlaybackPolicy::Continue,
            BasisGraphPlaybackPolicy::Rank0,
            BasisGraphPlaybackPolicy::Stochastic,
        ]
    }

    pub open spec fn label(self) -> Seq<char> {
        match self {
            BasisGraphPlaybackPolicy::Continue => "Continue"@,
            BasisGraphPlaybackPolicy::Rank0 => "Rank 0"@,
            BasisGraphPlaybackPolicy::Stochastic => "Stochastic"@,
        }
    }

    pub fn as_str(self) -> (r: &'static str)
        ensures
            r@ == self.label(),
    {
        match self {
            BasisGraphPlaybackPolicy::Continue => "Continue",
            BasisGraphPlaybackPolicy::Rank0 => "Rank 0",
            BasisGraphPlaybackPolicy::Stochastic => "Stochastic",
        }
    }
}

/// How branches are chosen. Probability, temperature, duration and limits are bit patterns.
#[derive(Clone, Copy, Debug)]
pub struct BasisGraphPlaybackConfig {
    pub enabled: bool,
    pub policy: BasisGraphPlaybackPolicy,
    pub branch_probability: u32,
    pub temperature: u32,
    pub seed: u32,
    pub blend_duration: u32,
    pub max_branch_score_enabled: bool,
    pub max_branch_score: u32,
    pub min_branch_interval_segments: u32,
    pub max_position_cost_enabled: bool,
    pub max_position_cost: u32,
    pub max_velocity_cost_enabled: bool,
    pub max_velocity_cost: u32,
    pub max_acceleration_cost_enabled: bool,
    pub max_acceleration_cost: u32,
}

/// Off; else follow segments, branch with probability 0.2, temperature 0.25, blends over half a
/// segment, branches eight segments apart and costs of at most 0.75.
pub open spec fn default_playback() -> BasisGraphPlaybackConfig {
    BasisGraphPlaybackConfig {
        enabled: false,
        policy: BasisGraphPlaybackPolicy::Continue,
        branch_probability: 0x3e4c_cccd,
        temperature: 0x3e80_0000,
        seed: 1,
        blend_duration: 0x3f00_0000,
        max_branch_score_enabled: false,
        max_branch_score: 0x3f80_0000,
        min_branch_interval_segments: 8,
        max_position_cost_enabled: true,
        max_position_cost: 0x3f40_0000,
        max_velocity_cost_enabled: true,
        max_velocity_cost: 0x3f40_0000,
        max_acceleration_cost_enabled: true,
        max_acceleration_cost: 0x3f40_0000,
    }
}

impl Default for BasisGraphPlaybackConfig {
    fn default() -> (r: BasisGraphPlaybackConfig)
        ensures
            r == default_playback(),
    {
        BasisGraphPlaybackConfig {
            enabled: false,
            policy: BasisGraphPlaybackPolicy::Continue,
            branch_probability: 0x3e4c_cccd,
            temperature: 0x3e80_0000,
            seed: 1,
            blend_duration: 0x3f00_0000,
            max_branch_score_enabled: false,
            max_branch_score: 0x3f80_0000,
            min_branch_interval_segments: 8,
            max_position_cost_enabled: true,
            max_position_cost: 0x3f40_0000,
            max_velocity_cost_enabled: true,
            max_velocity_cost: 0x3f40_0000,
            max_acceleration_cost_enabled: true,
            max_acceleration_cost: 0x3f40_0000,
        }
    }
}

impl BasisGraphPlaybackConfig {
    pub open spec fn same_config(self, other: BasisGraphPlaybackConfig) -> bool {
        &&& self.enabled == other.enabled
        &&& self.policy == other.policy
        &&& crate::float_bits::same_value(self.branch_probability, other.branch_probability)
        &&& crate::float_bits::same_value(self.temperature, other.temperature)
        &&& self.seed == other.seed
        &&& crate::float_bits::same_value(self.blend_duration, other.blend_duration)
        &&& self.max_branch_score_enabled == other.max_branch_score_enabled
        &&& crate::float_bits::same_value(self.max_branch_score, other.max_branch_score)
        &&& self.min_branch_interval_segments == other.min_branch_interval_segments
        &&& self.max_position_cost_enabled == other.max_position_cost_enabled
        &&& crate::float_bits::same_value(self.max_position_cost, other.max_position_cost)
        &&& self.max_velocity_cost_enabled == other.max_velocity_cost_enabled
        &&& crate::float_bits::same_value(self.max_velocity_cost, other.max_velocity_cost)
        &&& self.max_acceleration_cost_enabled == other.max_acceleration_cost_enabled
        &&& crate::float_bits::same_value(self.max_acceleration_cost, other.max_acceleration_cost)
    }
}

impl PartialEq for BasisGraphPlaybackConfig {
    /// Numbers compare by value, not by bit pattern.
    fn eq(&self, other: &BasisGraphPlaybackConfig) -> (r: bool) {
        self.enabled == other.enabled
            && self.policy == other.policy
            && crate::float_bits::is_same_value(self.branch_probability, other.branch_probability)
            && crate::float_bits::is_same_value(self.temperature, other.temperature)
            && self.seed == other.seed
            && crate::float_bits::is_same_value(self.blend_duration, other.blend_duration)
            && self.max_branch_score_enabled == other.max_branch_score_enabled
            && crate::float_bits::is_same_value(self.max_branch_score, other.max_branch_score)
            && self.min_branch_interval_segments == other.min_branch_interval_segments
            && self.max_position_cost_enabled == other.max_position_cost_enabled
            && crate::float_bits::is_same_value(self.max_position_cost, other.max_position_cost)
            && self.max_velocity_cost_enabled == other.max_velocity_cost_enabled
            && crate::float_bits::is_same_value(self.max_velocity_cost, other.max_velocity_cost)
            && self.max_acceleration_cost_enabled == other.max_acceleration_cost_enabled
            && crate::float_bits::is_same_value(self.max_acceleration_cost, other.max_acceleration_cost)
    }
}

impl vstd::std_specs::cmp::PartialEqSpecImpl for BasisGraphPlaybackConfig {
    open spec fn obeys_eq_spec() -> bool {
        true
    }

    open spec fn eq_spec(&self, other: &BasisGraphPlaybackConfig) -> bool {
        self.same_config(*other)
    }
}

/// The limits that a branch exceeds.
#[derive(Clone, Copy, Debug, PartialEq, Eq, Structural)]
pub struct BasisBranchRejection {
    pub score: bool,
    pub position: bool,
    pub velocity: bool,
    pub acceleration: bool,
}

impl Default for BasisBranchRejection {
    /// No limit is exceeded.
    fn default() -> (r: BasisBranchRejection)
        ensures
            r == (BasisBranchRejection {
                score: false,
                position: false,
                velocity: false,
                acceleration: false,
            }),
    {
        BasisBranchRejection {
            score: false,
            position: false,
            velocity: false,
            acceleration: false,
        }
    }
}

impl BasisBranchRejection {
    pub open spec fn any(self) -> bool {
        self.score || self.position || self.velocity || self.acceleration
    }

    pub fn rejected(self) -> (r: bool)
        ensures
            r == self.any(),
    {
        self.score || self.position || self.velocity || self.acceleration
    }
}

/// The limits of `config` that are in force and that `branch` exceeds.
pub open spec fn rejection_of(
    branch: BasisMotionGraphBranch,
    config: BasisGraphPlaybackConfig,
) -> BasisBranchRejection {
    BasisBranchRejection {
        score: config.max_branch_score_enabled && crate::float_bits::less(
            config.max_branch_score,
            branch.score,
        ),
        position: config.max_position_cost_enabled && crate::float_bits::less(
            config.max_position_cost,
            branch.position_cost,
        ),
        velocity: config.max_velocity_cost_enabled && crate::float_bits::less(
            config.max_velocity_cost,
            branch.velocity_cost,
        ),
        acceleration: config.max_acceleration_cost_enabled && crate::float_bits::less(
            config.max_acceleration_cost,
            branch.acceleration_cost,
        ),
    }
}

/// The limits that a branch exceeds.
pub fn branch_rejection(branch: &BasisMotionGraphBranch, config: BasisGraphPlaybackConfig) -> (r:
    BasisBranchRejection)
    ensures
        r == rejection_of(*branch, config),
        r.score == crate::basis_graph_laws::above(
            config.max_branch_score_enabled,
            config.max_branch_score,
            branch.score,
        ),
        r.position == crate::basis_graph_laws::above(
            config.max_position_cost_enabled,
            config.max_position_cost,
            branch.position_cost,
        ),
        r.velocity == crate::basis_graph_laws::above(
            config.max_velocity_cost_enabled,
            config.max_velocity_cost,
            branch.velocity_cost,
        ),
        r.acceleration == crate::basis_graph_laws::above(
            config.max_acceleration_cost_enabled,
            config.max_acceleration_cost,
            branch.acceleration_cost,
        ),
{
    BasisBranchRejection {
        score: config.max_branch_score_enabled && crate::float_bits::is_less(
            config.max_branch_score,
            branch.score,
        ),
        position: config.max_position_cost_enabled && crate::float_bits::is_less(
            config.max_position_cost,
            branch.position_cost,
        ),
        velocity: config.max_velocity_cost_enabled && crate::float_bits::is_less(
            config.max_velocity_cost,
            branch.velocity_cost,
        ),
        acceleration: config.max_acceleration_cost_enabled && crate::float_bits::is_less(
            config.max_acceleration_cost,
            branch.acceleration_cost,
        ),
    }
}

/// How a state came to its segment.
#[derive(Clone, Copy, Debug, PartialEq, Eq, Structural)]
pub enum BasisGraphLastEdge {
    Reset,
    Continue,
    Branch { rank: usize, to_basis_id: usize, to_segment: usize },
}

/// A linear congruential generator.
#[derive(Clone, Copy, Debug, PartialEq, Eq, Structural)]
pub struct BasisGraphPlaybackRng {
    pub state: u32,
}

pub open spec fn stepped(state: u32) -> u32 {
    state.wrapping_mul(1_664_525).wrapping_add(1_013_904_223)
}

impl BasisGraphPlaybackRng {
    pub fn new(seed: u32) -> (r: BasisGraphPlaybackRng)
        ensures
            r.state == if seed == 0 {
                1
            } else {
                seed
            },
    {
        BasisGraphPlaybackRng {
            state: if seed == 0 {
                1
            } else {
                seed
            },
        }
    }

    /// The next draw: 24 random bits.
    pub fn next_draw(&mut self) -> (r: u32)
        ensures
            final(self).state == stepped(old(self).state),
            r == final(self).state >> 8u32,
            r <= 0xff_ffff,
    {
        self.state = self.state.wrapping_mul(1_664_525).wrapping_add(1_013_904_223);
        let state: u32 = self.state;
        assert(state >> 8u32 <= 0xff_ffffu32) by (bit_vector);
        state >> 8u32
    }
}

/// Mixes seed, region and basis.
pub open spec fn mixed_seed(seed: u32, region_id: usize, basis_id: usize) -> u32 {
    let start = if seed == 0 {
        1u32
    } else {
        seed
    };
    let with_region = start ^ (region_id as u32).wrapping_mul(0x9E37_79B9u32);
    let turned = (with_region << 13u32) | (with_region >> 19u32);
    let mixed = turned ^ (basis_id as u32).wrapping_mul(0x85EB_CA6Bu32);
    if mixed == 0 {
        1
    } else {
        mixed
    }
}

/// The seed of the generator of one basis in one region.
pub fn state_rng_seed(seed: u32, region_id: usize, basis_id: usize) -> (r: u32)
    ensures
        r == mixed_seed(seed, region_id, basis_id),
        r >= 1,
{
    let start: u32 = if seed == 0 {
        1
    } else {
        seed
    };
    let with_region: u32 = start ^ (region_id as u32).wrapping_mul(0x9E37_79B9);
    let turned: u32 = (with_region << 13u32) | (with_region >> 19u32);
    let mixed: u32 = turned ^ (basis_id as u32).wrapping_mul(0x85EB_CA6B);
    if mixed == 0 {
        1
    } else {
        mixed
    }
}

/// A place on the clock: a segment and how far into it.
#[derive(Clone, Copy, Debug, PartialEq, Eq, Structural)]
pub struct SegmentStart {
    pub segment: usize,
    pub phase: u32,
}

/// The segment at a whole number of segments from the start of the clock.
pub fn start_segment(whole_segments: usize, knot_count: usize) -> (r: usize)
    ensures
        r == if knot_count == 0 {
            0
        } else {
            whole_segments as int % knot_count as int
        },
{
    if knot_count == 0 {
        0
    } else {
        whole_segments % knot_count
    }
}

/// What one basis plays in one region.
#[derive(Debug)]
pub struct BasisGraphPlaybackState {
    pub region_id: usize,
    pub original_basis_id: usize,
    pub active_basis_id: usize,
    pub segment: usize,
    pub segment_phase: u32,
    pub blend_from_basis_id: usize,
    pub blend_from_segment: usize,
    pub blend_phase: u32,
    pub blend_weight: u32,
    pub blend_active: bool,
    pub transition_active: bool,
    pub transition_phase_segments: u32,
    pub transition_duration_segments: u32,
    pub transition_delta: [u32; 3],
    pub transition: Option<BasisMotionGraphTransition>,
    pub transition_target_basis_id: usize,
    pub transition_target_segment: usize,
    pub rejected_branch_count: usize,
    pub rejected_branch_score_count: usize,
    pub rejected_branch_position_count: usize,
    pub rejected_branch_velocity_count: usize,
    pub rejected_branch_acceleration_count: usize,
    pub segments_since_branch: u32,
    pub last_edge: BasisGraphLastEdge,
    pub rng: BasisGraphPlaybackRng,
}

impl BasisGraphPlaybackState {
    pub open spec fn same_state(self, other: BasisGraphPlaybackState) -> bool {
        &&& self.region_id == other.region_id
        &&& self.original_basis_id == other.original_basis_id
        &&& self.active_basis_id == other.active_basis_id
        &&& self.segment == other.segment
        &&& crate::float_bits::same_value(self.segment_phase, other.segment_phase)
        &&& self.blend_from_basis_id == other.blend_from_basis_id
        &&& self.blend_from_segment == other.blend_from_segment
        &&& crate::float_bits::same_value(self.blend_phase, other.blend_phase)
        &&& crate::float_bits::same_value(self.blend_weight, other.blend_weight)
        &&& self.blend_active == other.blend_active
        &&& self.transition_active == other.transition_active
        &&& crate::float_bits::same_value(self.transition_phase_segments, other.transition_phase_segments)
        &&& crate::float_bits::same_value(self.transition_duration_segments, other.transition_duration_segments)
        &&& crate::float_bits::same_point(self.transition_delta, other.transition_delta)
        &&& match (self.transition, other.transition) {
            (None, None) => true,
            (Some(a), Some(b)) => a.same_curve(b),
            _ => false,
        }
        &&& self.transition_target_basis_id == other.transition_target_basis_id
        &&& self.transition_target_segment == other.transition_target_segment
        &&& self.rejected_branch_count == other.rejected_branch_count
        &&& self.rejected_branch_score_count == other.rejected_branch_score_count
        &&& self.rejected_branch_position_count == other.rejected_branch_position_count
        &&& self.rejected_branch_velocity_count == other.rejected_branch_velocity_count
        &&& self.rejected_branch_acceleration_count == other.rejected_branch_acceleration_count
        &&& self.segments_since_branch == other.segments_since_branch
        &&& self.last_edge == other.last_edge
        &&& self.rng == other.rng
    }
}

impl PartialEq for BasisGraphPlaybackState {
    /// Numbers compare by value, not by bit pattern.
    fn eq(&self, other: &BasisGraphPlaybackState) -> (r: bool) {
        self.region_id == other.region_id
            && self.original_basis_id == other.original_basis_id
            && self.active_basis_id == other.active_basis_id
            && self.segment == other.segment
            && crate::float_bits::is_same_value(self.segment_phase, other.segment_phase)
            && self.blend_from_basis_id == other.blend_from_basis_id
            && self.blend_from_segment == other.blend_from_segment
            && crate::float_bits::is_same_value(self.blend_phase, other.blend_phase)
            && crate::float_bits::is_same_value(self.blend_weight, other.blend_weight)
            && self.blend_active == other.blend_active
            && self.transition_active == other.transition_active
            && crate::float_bits::is_same_value(self.transition_phase_segments, other.transition_phase_segments)
            && crate::float_bits::is_same_value(self.transition_duration_segments, other.transition_duration_segments)
            && crate::float_bits::is_same_point(self.transition_delta, other.transition_delta)
            && (match (&self.transition, &other.transition) {
                (None, None) => true,
                (Some(a), Some(b)) => *a == *b,
                _ => false,
            })
            && self.transition_target_basis_id == other.transition_target_basis_id
            && self.transition_target_segment == other.transition_target_segment
            && self.rejected_branch_count == other.rejected_branch_count
            && self.rejected_branch_score_count == other.rejected_branch_score_count
            && self.rejected_branch_position_count == other.rejected_branch_position_count
            && self.rejected_branch_velocity_count == other.rejected_branch_velocity_count
            && self.rejected_branch_acceleration_count == other.rejected_branch_acceleration_count
            && self.segments_since_branch == other.segments_since_branch
            && self.last_edge == other.last_edge
            && self.rng == other.rng
    }
}

impl vstd::std_specs::cmp::PartialEqSpecImpl for BasisGraphPlaybackState {
    open spec fn obeys_eq_spec() -> bool {
        true
    }

    open spec fn eq_spec(&self, other: &BasisGraphPlaybackState) -> bool {
        self.same_state(*other)
    }
}

/// A state that has just started: it plays its own basis, may branch at once and blends nothing.
pub open spec fn fresh_state(
    region_id: usize,
    basis_id: usize,
    start: SegmentStart,
    config: BasisGraphPlaybackConfig,
) -> BasisGraphPlaybackState {
    BasisGraphPlaybackState {
        region_id,
        original_basis_id: basis_id,
        active_basis_id: basis_id,
        segment: start.segment,
        segment_phase: start.phase,
        blend_from_basis_id: basis_id,
        blend_from_segment: start.segment,
        blend_phase: crate::float_bits::ONE,
        blend_weight: crate::float_bits::ONE,
        blend_active: false,
        transition_active: false,
        transition_phase_segments: crate::float_bits::ZERO,
        transition_duration_segments: crate::float_bits::ZERO,
        transition_delta: [0u32, 0u32, 0u32],
        transition: None,
        transition_target_basis_id: basis_id,
        transition_target_segment: start.segment,
        rejected_branch_count: 0,
        rejected_branch_score_count: 0,
        rejected_branch_position_count: 0,
        rejected_branch_velocity_count: 0,
        rejected_branch_acceleration_count: 0,
        segments_since_branch: config.min_branch_interval_segments,
        last_edge: BasisGraphLastEdge::Reset,
        rng: BasisGraphPlaybackRng { state: mixed_seed(config.seed, region_id, basis_id) },
    }
}

/// Starts a state.
pub fn new_playback_state(
    region_id: usize,
    basis_id: usize,
    start: SegmentStart,
    config: BasisGraphPlaybackConfig,
) -> (r: BasisGraphPlaybackState)
    ensures
        r == fresh_state(region_id, basis_id, start, config),
{
    let seed: u32 = state_rng_seed(config.seed, region_id, basis_id);
    BasisGraphPlaybackState {
        region_id,
        original_basis_id: basis_id,
        active_basis_id: basis_id,
        segment: start.segment,
        segment_phase: start.phase,
        blend_from_basis_id: basis_id,
        blend_from_segment: start.segment,
        blend_phase: crate::float_bits::ONE,
        blend_weight: crate::float_bits::ONE,
        blend_active: false,
        transition_active: false,
        transition_phase_segments: crate::float_bits::ZERO,
        transition_duration_segments: crate::float_bits::ZERO,
        transition_delta: [0u32, 0u32, 0u32],
        transition: None,
        transition_target_basis_id: basis_id,
        transition_target_segment: start.segment,
        rejected_branch_count: 0,
        rejected_branch_score_count: 0,
        rejected_branch_position_count: 0,
        rejected_branch_velocity_count: 0,
        rejected_branch_acceleration_count: 0,
        segments_since_branch: config.min_branch_interval_segments,
        last_edge: BasisGraphLastEdge::Reset,
        rng: BasisGraphPlaybackRng::new(seed),
    }
}

/// How fast the clock of a basis runs, and where it starts.
#[derive(Clone, Copy, Debug)]
pub struct BasisPlaybackTiming {
    pub time_scale: u32,
    pub phase_offset: u32,
}

/// The timing that an edit asks for: scale confined to `[0, 4]`, what is not finite ignored; the
/// plain clock without an enabled edit.
pub open spec fn timing_of(edit: Option<BasisEditOverride>) -> BasisPlaybackTiming {
    match edit {
        Some(e) if e.enabled => BasisPlaybackTiming {
            time_scale: if crate::float_bits::finite(e.time_scale) {
                crate::float_bits::clamped(e.time_scale, crate::float_bits::ZERO, MAX_TIME_SCALE)
            } else {
                crate::float_bits::ONE
            },
            phase_offset: if crate::float_bits::finite(e.phase_offset) {
                e.phase_offset
            } else {
                crate::float_bits::ZERO
            },
        },
        _ => BasisPlaybackTiming {
            time_scale: crate::float_bits::ONE,
            phase_offset: crate::float_bits::ZERO,
        },
    }
}

impl BasisPlaybackTiming {
    pub fn from_edit(edit: Option<BasisEditOverride>) -> (r: BasisPlaybackTiming)
        ensures
            r == timing_of(edit),
    {
        match edit {
            Some(e) if e.enabled => BasisPlaybackTiming {
                time_scale: if crate::float_bits::is_finite(e.time_scale) {
                    crate::float_bits::clamp(e.time_scale, crate::float_bits::ZERO, MAX_TIME_SCALE)
                } else {
                    crate::float_bits::ONE
                },
                phase_offset: if crate::float_bits::is_finite(e.phase_offset) {
                    e.phase_offset
                } else {
                    crate::float_bits::ZERO
                },
            },
            _ => BasisPlaybackTiming {
                time_scale: crate::float_bits::ONE,
                phase_offset: crate::float_bits::ZERO,
            },
        }
    }

    /// Equal as values: numbers compare by value, not by bit pattern.
    pub open spec fn same_timing(self, other: BasisPlaybackTiming) -> bool {
        crate::float_bits::same_value(self.time_scale, other.time_scale)
            && crate::float_bits::same_value(self.phase_offset, other.phase_offset)
    }

    pub fn equals(self, other: BasisPlaybackTiming) -> (r: bool)
        ensures
            r == self.same_timing(other),
    {
        crate::float_bits::is_same_value(self.time_scale, other.time_scale)
            && crate::float_bits::is_same_value(self.phase_offset, other.phase_offset)
    }
}

impl PartialEq for BasisPlaybackTiming {
    /// Numbers compare by value, not by bit pattern.
    fn eq(&self, other: &BasisPlaybackTiming) -> (r: bool) {
        self.equals(*other)
    }
}

impl vstd::std_specs::cmp::PartialEqSpecImpl for BasisPlaybackTiming {
    open spec fn obeys_eq_spec() -> bool {
        true
    }

    open spec fn eq_spec(&self, other: &BasisPlaybackTiming) -> bool {
        self.same_timing(*other)
    }
}

/// The timing of every basis; a basis without an edit has the plain clock.
pub open spec fn timings_of(edits: Seq<BasisEditOverride>, basis_count: nat) -> Seq<
    BasisPlaybackTiming,
> {
    Seq::new(
        basis_count,
        |b: int|
            timing_of(
                if b < edits.len() {
                    Some(edits[b])
                } else {
                    None
                },
            ),
    )
}

/// The timing of every basis.
pub fn playback_timings(edits: &[BasisEditOverride], basis_count: usize) -> (r: Vec<
    BasisPlaybackTiming,
>)
    ensures
        r@ == timings_of(edits@, basis_count as nat),
{
    let mut out: Vec<BasisPlaybackTiming> = Vec::new();
    for b in 0..basis_count
        invariant
            out@ == timings_of(edits@, b as nat),
    {
        let timing: BasisPlaybackTiming = if b < edits.len() {
            BasisPlaybackTiming::from_edit(Some(edits[b]))
        } else {
            BasisPlaybackTiming::from_edit(None)
        };
        out.push(timing);
        assert(out@ =~= timings_of(edits@, (b + 1) as nat));
    }
    out
}

/// Where the clocks of all bases stand. `starts` is for the time as given, `wrapped_starts` for the
/// time brought into `[0, 1)`.
#[derive(Debug)]
pub struct PlaybackClock {
    pub wrapped_time: u32,
    /// From the previous time forward to this one, in `[0, 1)`; not used without a previous time.
    pub elapsed: u32,
    pub starts: Vec<SegmentStart>,
    pub wrapped_starts: Vec<SegmentStart>,
}

/// What a tick of the clock means for playback.
#[derive(Clone, Copy, Debug, PartialEq, Eq, Structural)]
pub enum AdvanceKind {
    /// Playback is off: only the clock moves.
    Skip,
    /// Everything starts over at the given time.
    Restart,
    /// Everything starts over at the wrapped time.
    RestartWrapped,
    /// States move on.
    Step,
}

/// Playback of all bases in all regions.
pub struct BasisGraphPlaybackController {
    states: Vec<BasisGraphPlaybackState>,
    state_basis_count: usize,
    previous_time01: Option<u32>,
    last_config: BasisGraphPlaybackConfig,
    last_region_config: BasisGraphRegionConfig,
    timings: Vec<BasisPlaybackTiming>,
    initialized: bool,
}

/// The states of `regions` regions of `basis_count` bases, row-major by region, then basis.
pub open spec fn laid_out(
    states: Seq<BasisGraphPlaybackState>,
    basis_count: int,
    regions: int,
) -> bool {
    &&& states.len() == regions * basis_count
    &&& forall|i: int|
        0 <= i < states.len() ==> (#[trigger] states[i]).region_id == i / basis_count
            && states[i].original_basis_id == i % basis_count
}

/// A change of configuration that playback cannot carry over.
pub open spec fn breaks_playback(
    config: BasisGraphPlaybackConfig,
    last: BasisGraphPlaybackConfig,
) -> bool {
    ||| config.policy != last.policy
    ||| config.seed != last.seed
    ||| config.min_branch_interval_segments != last.min_branch_interval_segments
    ||| config.max_position_cost_enabled != last.max_position_cost_enabled
    ||| !crate::float_bits::same_value(config.max_position_cost, last.max_position_cost)
    ||| config.max_velocity_cost_enabled != last.max_velocity_cost_enabled
    ||| !crate::float_bits::same_value(config.max_velocity_cost, last.max_velocity_cost)
    ||| config.max_acceleration_cost_enabled != last.max_acceleration_cost_enabled
    ||| !crate::float_bits::same_value(config.max_acceleration_cost, last.max_acceleration_cost)
}

fn is_playback_broken(
    config: &BasisGraphPlaybackConfig,
    last: &BasisGraphPlaybackConfig,
) -> (r: bool)
    ensures
        r == breaks_playback(*config, *last),
{
    config.policy != last.policy || config.seed != last.seed || config.min_branch_interval_segments
        != last.min_branch_interval_segments || config.max_position_cost_enabled
        != last.max_position_cost_enabled || !crate::float_bits::is_same_value(
        config.max_position_cost,
        last.max_position_cost,
    ) || config.max_velocity_cost_enabled != last.max_velocity_cost_enabled
        || !crate::float_bits::is_same_value(config.max_velocity_cost, last.max_velocity_cost)
        || config.max_acceleration_cost_enabled != last.max_acceleration_cost_enabled
        || !crate::float_bits::is_same_value(
        config.max_acceleration_cost,
        last.max_acceleration_cost,
    )
}

/// The states of a playback that has just started.
pub open spec fn fresh_states(
    starts: Seq<SegmentStart>,
    basis_count: int,
    regions: int,
    config: BasisGraphPlaybackConfig,
) -> Seq<BasisGraphPlaybackState> {
    Seq::new(
        (regions * basis_count) as nat,
        |i: int|
            fresh_state(
                (i / basis_count) as usize,
                (i % basis_count) as usize,
                starts[i % basis_count],
                config,
            ),
    )
}

impl BasisGraphPlaybackController {
    pub closed spec fn state_list(self) -> Seq<BasisGraphPlaybackState> {
        self.states@
    }

    pub closed spec fn timing_list(self) -> Seq<BasisPlaybackTiming> {
        self.timings@
    }

    pub closed spec fn previous(self) -> Option<u32> {
        self.previous_time01
    }

    pub closed spec fn config(self) -> BasisGraphPlaybackConfig {
        self.last_config
    }

    pub closed spec fn regions(self) -> BasisGraphRegionConfig {
        self.last_region_config
    }

    pub closed spec fn started(self) -> bool {
        self.initialized
    }

    /// A playback that has started holds a state for each basis in each region.
    pub closed spec fn well_formed(self) -> bool {
        self.initialized ==> laid_out(
            self.states@,
            self.state_basis_count as int,
            self.last_region_config.region_total() as int,
        )
    }

    /// What a tick means for this playback.
    pub open spec fn tick(
        self,
        elapsed: u32,
        basis_count: usize,
        config: BasisGraphPlaybackConfig,
        regions: BasisGraphRegionConfig,
    ) -> AdvanceKind {
        let expected = basis_count * regions.region_total();
        if !config.enabled {
            AdvanceKind::Skip
        } else if !self.started() || self.state_list().len() != (if expected > usize::MAX {
            usize::MAX as int
        } else {
            expected
        }) || self.timing_list().len() != basis_count || breaks_playback(config, self.config())
            || !regions.same_config(self.regions()) {
            AdvanceKind::Restart
        } else if self.previous() is None || crate::float_bits::less(MAX_PLAYBACK_STEP, elapsed) {
            AdvanceKind::RestartWrapped
        } else {
            AdvanceKind::Step
        }
    }

    /// The playback has just started.
    pub open spec fn restarted(
        self,
        starts: Seq<SegmentStart>,
        wrapped_time: u32,
        basis_count: usize,
        config: BasisGraphPlaybackConfig,
        regions: BasisGraphRegionConfig,
        edits: Seq<BasisEditOverride>,
    ) -> bool {
        &&& self.started()
        &&& self.state_list() == fresh_states(
            starts,
            basis_count as int,
            regions.region_total() as int,
            config,
        )
        &&& self.timing_list() == timings_of(edits, basis_count as nat)
        &&& self.previous() == Some(wrapped_time)
        &&& self.config() == config
        &&& self.regions() == regions
    }

    /// A playback that has not started.
    pub fn new(basis_count: usize) -> (r: BasisGraphPlaybackController)
        ensures
            r.well_formed(),
            !r.started(),
            r.state_list().len() == 0,
            r.previous() is None,
            r.config() == default_playback(),
            r.regions() == crate::basis_branch_regions::default_region_config(),
            r.timing_list() == timings_of(Seq::empty(), basis_count as nat),
    {
        let no_edits: Vec<BasisEditOverride> = Vec::new();
        BasisGraphPlaybackController {
            states: Vec::new(),
            state_basis_count: 0,
            previous_time01: None,
            last_config: BasisGraphPlaybackConfig::default(),
            last_region_config: BasisGraphRegionConfig::default(),
            timings: playback_timings(no_edits.as_slice(), basis_count),
            initialized: false,
        }
    }

    pub fn states(&self) -> (r: &Vec<BasisGraphPlaybackState>)
        ensures
            r@ == self.state_list(),
    {
        &self.states
    }

    pub fn timings(&self) -> (r: &Vec<BasisPlaybackTiming>)
        ensures
            r@ == self.timing_list(),
    {
        &self.timings
    }

    /// The time of the previous tick.
    pub fn previous_time(&self) -> (r: Option<u32>)
        ensures
            r == self.previous(),
    {
        self.previous_time01
    }

    /// Starts everything over: each basis in each region at the place of its basis on the clock.
    pub fn reset_with_region_config_and_edits(
        &mut self,
        starts: &[SegmentStart],
        wrapped_time: u32,
        basis_count: usize,
        config: BasisGraphPlaybackConfig,
        region_config: BasisGraphRegionConfig,
        edits: &[BasisEditOverride],
    )
        requires
            starts@.len() == basis_count,
            basis_count * region_config.region_total() <= usize::MAX,
        ensures
            final(self).well_formed(),
            final(self).restarted(
                starts@,
                wrapped_time,
                basis_count,
                config,
                region_config.in_range(),
                edits@,
            ),
            laid_out(
                final(self).state_list(),
                basis_count as int,
                region_config.region_total() as int,
            ),
    {
        let regions: BasisGraphRegionConfig = region_config.sanitized();
        let region_count: usize = regions.effective_region_count() as usize;
        proof {
            crate::basis_branch_regions::sanitizing_is_idempotent(region_config);
        }
        self.timings = playback_timings(edits, basis_count);
        let mut states: Vec<BasisGraphPlaybackState> = Vec::new();
        proof {
            assert(region_count * basis_count == basis_count * region_count) by (nonlinear_arith);
            assert(0 * basis_count == 0);
            assert(states@ =~= fresh_states(starts@, basis_count as int, 0, config));
        }
        for region_id in 0..region_count
            invariant
                starts@.len() == basis_count,
                region_count * basis_count <= usize::MAX,
                states@ == fresh_states(starts@, basis_count as int, region_id as int, config),
        {
            for basis_id in 0..basis_count
                invariant
                    starts@.len() == basis_count,
                    region_id < region_count,
                    region_count * basis_count <= usize::MAX,
                    states@.len() == region_id * basis_count + basis_id,
                    forall|i: int|
                        0 <= i < states@.len() ==> #[trigger] states@[i] == fresh_state(
                            (i / basis_count as int) as usize,
                            (i % basis_count as int) as usize,
                            starts@[i % basis_count as int],
                            config,
                        ),
            {
                proof {
                    vstd::arithmetic::div_mod::lemma_fundamental_div_mod_converse(
                        region_id * basis_count + basis_id,
                        basis_count as int,
                        region_id as int,
                        basis_id as int,
                    );
                }
                states.push(new_playback_state(region_id, basis_id, starts[basis_id], config));
            }
            assert(states@.len() == (region_id + 1) * basis_count) by (nonlinear_arith)
                requires
                    states@.len() == region_id * basis_count + basis_count,
            ;
            assert(states@ =~= fresh_states(
                starts@,
                basis_count as int,
                region_id + 1,
                config,
            ));
        }
        proof {
            assert forall|i: int| 0 <= i < states@.len() implies (
            #[trigger] states@[i]).region_id == i / basis_count as int
                && states@[i].original_basis_id == i % basis_count as int by {
                place_in_layout(i, basis_count as int, region_count as int);
            }
        }
        self.states = states;
        self.state_basis_count = basis_count;
        self.previous_time01 = Some(wrapped_time);
        self.last_config = config;
        self.last_region_config = regions;
        self.initialized = true;
    }
}

/// A place in a row-major layout has a row and a column in it.
proof fn place_in_layout(i: int, columns: int, rows: int)
    requires
        0 <= i < rows * columns,
        columns >= 0,
    ensures
        columns > 0,
        0 <= i / columns < rows,
        0 <= i % columns < columns,
{
    assert(columns > 0) by (nonlinear_arith)
        requires
            0 <= i < rows * columns,
            columns >= 0,
    ;
    vstd::arithmetic::div_mod::lemma_fundamental_div_mod(i, columns);
    vstd::arithmetic::div_mod::lemma_mod_bound(i, columns);
    assert(0 <= i / columns < rows) by (nonlinear_arith)
        requires
            0 <= i < rows * columns,
            columns > 0,
            i == columns * (i / columns) + i % columns,
            0 <= i % columns < columns,
    ;
}

/// The clock of a basis runs otherwise than before.
pub open spec fn timing_changed(
    before: Seq<BasisPlaybackTiming>,
    now: Seq<BasisPlaybackTiming>,
    basis_id: int,
) -> bool {
    !now[basis_id].same_timing(before[basis_id])
}

impl BasisGraphPlaybackController {
    /// What a tick means for this playback.
    fn find_tick(
        &self,
        elapsed: u32,
        basis_count: usize,
        config: &BasisGraphPlaybackConfig,
        regions: &BasisGraphRegionConfig,
    ) -> (r: AdvanceKind)
        ensures
            r == self.tick(elapsed, basis_count, *config, *regions),
    {
        if !config.enabled {
            return AdvanceKind::Skip;
        }
        let region_count: usize = regions.effective_region_count() as usize;
        let expected: usize = match basis_count.checked_mul(region_count) {
            Some(product) => product,
            None => usize::MAX,
        };
        if !self.initialized || self.states.len() != expected || self.timings.len() != basis_count
            || is_playback_broken(config, &self.last_config) || !regions.equals(
            self.last_region_config,
        ) {
            return AdvanceKind::Restart;
        }
        if self.previous_time01.is_none() || crate::float_bits::is_less(
            MAX_PLAYBACK_STEP,
            elapsed,
        ) {
            return AdvanceKind::RestartWrapped;
        }
        AdvanceKind::Step
    }

    /// Moves playback to a new time. States whose basis has a new timing start over at their place
    /// on the clock; the places of the others, which are to move on by the elapsed time, are
    /// returned in order. Where everything starts over, or playback is off, none is to move on.
    pub fn advance_with_region_config_and_overrides_and_edits(
        &mut self,
        clock: &PlaybackClock,
        basis_count: usize,
        config: BasisGraphPlaybackConfig,
        region_config: BasisGraphRegionConfig,
        edits: &[BasisEditOverride],
    ) -> (moving: Vec<usize>)
        requires
            old(self).well_formed(),
            clock.starts@.len() == basis_count,
            clock.wrapped_starts@.len() == basis_count,
            config.enabled ==> basis_count * region_config.region_total() <= usize::MAX,
        ensures
            final(self).well_formed(),
            ({
                let regions = region_config.in_range();
                let timings = timings_of(edits@, basis_count as nat);
                match old(self).tick(clock.elapsed, basis_count, config, regions) {
                    AdvanceKind::Skip => {
                        &&& moving@.len() == 0
                        &&& final(self).state_list() == old(self).state_list()
                        &&& final(self).timing_list() == timings
                        &&& final(self).previous() == Some(clock.wrapped_time)
                        &&& final(self).config() == old(self).config()
                        &&& final(self).regions() == old(self).regions()
                        &&& final(self).started() == old(self).started()
                    },
                    AdvanceKind::Restart => {
                        &&& moving@.len() == 0
                        &&& final(self).restarted(
                            clock.starts@,
                            clock.wrapped_time,
                            basis_count,
                            config,
                            regions,
                            edits@,
                        )
                    },
                    AdvanceKind::RestartWrapped => {
                        &&& moving@.len() == 0
                        &&& final(self).restarted(
                            clock.wrapped_starts@,
                            clock.wrapped_time,
                            basis_count,
                            config,
                            regions,
                            edits@,
                        )
                    },
                    AdvanceKind::Step => {
                        &&& final(self).started()
                        &&& final(self).timing_list() == timings
                        &&& final(self).previous() == Some(clock.wrapped_time)
                        &&& final(self).config() == config
                        &&& final(self).regions() == regions
                        &&& stepped_states(
                            old(self).state_list(),
                            final(self).state_list(),
                            old(self).timing_list(),
                            timings,
                            clock.wrapped_starts@,
                            config,
                            moving@,
                        )
                    },
                }
            }),
    {
        let regions: BasisGraphRegionConfig = region_config.sanitized();
        proof {
            crate::basis_branch_regions::sanitizing_is_idempotent(region_config);
        }
        match self.find_tick(clock.elapsed, basis_count, &config, &regions) {
            AdvanceKind::Skip => {
                self.previous_time01 = Some(clock.wrapped_time);
                self.timings = playback_timings(edits, basis_count);
                Vec::new()
            },
            AdvanceKind::Restart => {
                self.reset_with_region_config_and_edits(
                    clock.starts.as_slice(),
                    clock.wrapped_time,
                    basis_count,
                    config,
                    regions,
                    edits,
                );
                Vec::new()
            },
            AdvanceKind::RestartWrapped => {
                self.reset_with_region_config_and_edits(
                    clock.wrapped_starts.as_slice(),
                    clock.wrapped_time,
                    basis_count,
                    config,
                    regions,
                    edits,
                );
                Vec::new()
            },
            AdvanceKind::Step => {
                let timings: Vec<BasisPlaybackTiming> = playback_timings(edits, basis_count);
                let moving: Vec<usize> = self.rebase_states(
                    &timings,
                    &clock.wrapped_starts,
                    config,
                );
                self.timings = timings;
                self.previous_time01 = Some(clock.wrapped_time);
                self.last_config = config;
                self.last_region_config = regions;
                moving
            },
        }
    }

    /// Starts the states over whose basis has a new timing and lists the others.
    fn rebase_states(
        &mut self,
        timings: &Vec<BasisPlaybackTiming>,
        starts: &Vec<SegmentStart>,
        config: BasisGraphPlaybackConfig,
    ) -> (moving: Vec<usize>)
        requires
            old(self).initialized,
            old(self).well_formed(),
            old(self).timings@.len() == timings@.len(),
            starts@.len() == timings@.len(),
            old(self).states@.len() == timings@.len()
                * old(self).last_region_config.region_total(),
        ensures
            *final(self) == (BasisGraphPlaybackController { states: final(self).states, ..*old(self)
            }),
            final(self).well_formed(),
            stepped_states(
                old(self).states@,
                final(self).states@,
                old(self).timings@,
                timings@,
                starts@,
                config,
                moving@,
            ),
    {
        let ghost before = self.states@;
        let ghost regions = self.last_region_config.region_total() as int;
        proof {
            assert(self.state_basis_count == timings@.len()) by (nonlinear_arith)
                requires
                    before.len() == regions * self.state_basis_count,
                    before.len() == timings@.len() * regions,
                    regions >= 1,
            ;
        }
        let mut moving: Vec<usize> = Vec::new();
        let total: usize = self.states.len();
        let mut i: usize = 0;
        while i < total
            invariant
                i <= total,
                total == before.len(),
                self.states@.len() == total,
                *self == (BasisGraphPlaybackController { states: self.states, ..*old(self) }),
                laid_out(before, timings@.len() as int, regions),
                self.timings@.len() == timings@.len(),
                starts@.len() == timings@.len(),
                forall|k: int| i <= k < total ==> #[trigger] self.states@[k] == before[k],
                stepped_states(
                    before.take(i as int),
                    self.states@.take(i as int),
                    self.timings@,
                    timings@,
                    starts@,
                    config,
                    moving@,
                ),
            decreases total - i,
        {
            proof {
                place_in_layout(i as int, timings@.len() as int, regions);
                assert(before[i as int].original_basis_id < timings@.len());
            }
            let region_id: usize = self.states[i].region_id;
            let basis_id: usize = self.states[i].original_basis_id;
            let ghost so_far = self.states@;
            let ghost listed = moving@;
            if !timings[basis_id].equals(self.timings[basis_id]) {
                let fresh: BasisGraphPlaybackState = new_playback_state(
                    region_id,
                    basis_id,
                    starts[basis_id],
                    config,
                );
                self.states.set(i, fresh);
            } else {
                moving.push(i);
            }
            proof {
                let old_front = before.take(i + 1);
                let new_front = self.states@.take(i + 1);
                assert forall|k: int| 0 <= k < i implies old_front[k] == before.take(i as int)[k]
                    && new_front[k] == so_far.take(i as int)[k] by {}
                assert forall|k: int| 0 <= k <= i && !timing_changed(
                    self.timings@,
                    timings@,
                    (#[trigger] old_front[k]).original_basis_id as int,
                ) implies moving@.contains(k as usize) by {
                    if k < i {
                        assert(before.take(i as int)[k] == old_front[k]);
                        assert(listed.contains(k as usize));
                        let p = choose|p: int| 0 <= p < listed.len() && listed[p] == k as usize;
                        assert(moving@[p] == k as usize);
                    } else {
                        assert(moving@[moving@.len() - 1] == i);
                    }
                }
                assert(stepped_states(
                    old_front,
                    new_front,
                    self.timings@,
                    timings@,
                    starts@,
                    config,
                    moving@,
                ));
            }
            i = i + 1;
        }
        proof {
            assert(before.take(total as int) =~= before);
            assert(self.states@.take(total as int) =~= self.states@);
            assert(laid_out(self.states@, timings@.len() as int, regions));
        }
        moving
    }

    /// Puts a state that has moved back in its place; refuses one of another basis or region.
    pub fn replace_state(&mut self, index: usize, state: BasisGraphPlaybackState) -> (r: bool)
        requires
            old(self).well_formed(),
        ensures
            final(self).well_formed(),
            r == (index < old(self).state_list().len() && state.region_id
                == old(self).state_list()[index as int].region_id && state.original_basis_id
                == old(self).state_list()[index as int].original_basis_id),
            r ==> final(self).state_list() == old(self).state_list().update(index as int, state),
            !r ==> final(self).state_list() == old(self).state_list(),
            final(self).timing_list() == old(self).timing_list(),
            final(self).previous() == old(self).previous(),
            final(self).config() == old(self).config(),
            final(self).regions() == old(self).regions(),
            final(self).started() == old(self).started(),
    {
        if index >= self.states.len() {
            return false;
        }
        let region_id: usize = self.states[index].region_id;
        let basis_id: usize = self.states[index].original_basis_id;
        if state.region_id != region_id || state.original_basis_id != basis_id {
            return false;
        }
        self.states.set(index, state);
        true
    }
}

/// States whose basis has a new timing started over; the others are as they were, and `moving`
/// lists their places in order.
pub open spec fn stepped_states(
    before: Seq<BasisGraphPlaybackState>,
    after: Seq<BasisGraphPlaybackState>,
    old_timings: Seq<BasisPlaybackTiming>,
    timings: Seq<BasisPlaybackTiming>,
    starts: Seq<SegmentStart>,
    config: BasisGraphPlaybackConfig,
    moving: Seq<usize>,
) -> bool {
    &&& after.len() == before.len()
    &&& forall|i: int|
        0 <= i < before.len() ==> #[trigger] after[i] == if timing_changed(
            old_timings,
            timings,
            before[i].original_basis_id as int,
        ) {
            fresh_state(
                before[i].region_id,
                before[i].original_basis_id,
                starts[before[i].original_basis_id as int],
                config,
            )
        } else {
            before[i]
        }
    &&& forall|p: int|
        0 <= p < moving.len() ==> (#[trigger] moving[p]) < before.len() && !timing_changed(
            old_timings,
            timings,
            before[moving[p] as int].original_basis_id as int,
        )
    &&& forall|p: int, q: int|
        0 <= p < q < moving.len() ==> (#[trigger] moving[p]) < (#[trigger] moving[q])
    &&& forall|i: int|
        0 <= i < before.len() && !timing_changed(
            old_timings,
            timings,
            (#[trigger] before[i]).original_basis_id as int,
        ) ==> moving.contains(i as usize)
}

} // verus!
