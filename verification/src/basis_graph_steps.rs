//! The steps of playback: how one state moves along its segment, follows a transition and chooses
//! where to go at the end of a segment.

use crate::basis_graph_authoring::BasisGraphBranchOverrides;
use crate::basis_graph_playback::{
    branch_rejection, BasisBranchRejection, BasisGraphLastEdge, BasisGraphPlaybackConfig,
    BasisGraphPlaybackPolicy, BasisGraphPlaybackRng, BasisGraphPlaybackState,
};
use crate::basis_motion_graph::{
    BasisMotionGraph, BasisMotionGraphBranch, BasisMotionGraphTransition,
};
use vstd::prelude::*;

verus! {

/// The next thing that a state does.
#[derive(Clone, Copy, Debug, PartialEq, Eq, Structural)]
pub enum PlaybackMove {
    Stop,
    WithinTransition,
    FinishTransition,
    WithinSegment,
    CrossBoundary,
}

/// A distance that is used up ends the moves. Otherwise a state follows its transition, or its
/// segment, as far as the distance goes, at most to the end.
pub open spec fn move_of(
    in_transition: bool,
    distance: u32,
    to_boundary: u32,
    remaining: u32,
) -> PlaybackMove {
    if !crate::float_bits::less(crate::float_bits::ZERO, distance) {
        PlaybackMove::Stop
    } else if in_transition {
        if crate::float_bits::less(distance, remaining) {
            PlaybackMove::WithinTransition
        } else {
            PlaybackMove::FinishTransition
        }
    } else if crate::float_bits::less(distance, to_boundary) {
        PlaybackMove::WithinSegment
    } else {
        PlaybackMove::CrossBoundary
    }
}

/// How far a blend has come, and the weight that goes with it.
#[derive(Clone, Copy, Debug, PartialEq, Eq, Structural)]
pub struct BlendSample {
    pub phase: u32,
    pub weight: u32,
}

/// A state after its blend was brought up to date.
pub open spec fn blended(
    state: BasisGraphPlaybackState,
    config: BasisGraphPlaybackConfig,
    sample: BlendSample,
) -> BasisGraphPlaybackState {
    let duration = crate::float_bits::clamped(
        config.blend_duration,
        crate::float_bits::ZERO,
        crate::float_bits::ONE,
    );
    if !state.blend_active {
        BasisGraphPlaybackState {
            blend_phase: crate::float_bits::ONE,
            blend_weight: crate::float_bits::ONE,
            ..state
        }
    } else if crate::float_bits::less_or_same(duration, crate::float_bits::ZERO) {
        BasisGraphPlaybackState {
            blend_active: false,
            blend_phase: crate::float_bits::ONE,
            blend_weight: crate::float_bits::ONE,
            ..state
        }
    } else if crate::float_bits::less_or_same(crate::float_bits::ONE, sample.phase) {
        BasisGraphPlaybackState {
            blend_active: false,
            blend_phase: sample.phase,
            blend_weight: crate::float_bits::ONE,
            ..state
        }
    } else {
        BasisGraphPlaybackState { blend_phase: sample.phase, blend_weight: sample.weight, ..state }
    }
}

/// A state that has followed its transition to the end: it plays the target.
pub open spec fn after_transition(
    state: BasisGraphPlaybackState,
    delta: [u32; 3],
) -> BasisGraphPlaybackState {
    BasisGraphPlaybackState {
        transition_phase_segments: state.transition_duration_segments,
        transition_delta: if state.transition_active && state.transition is Some {
            delta
        } else {
            state.transition_delta
        },
        transition_active: false,
        transition: None,
        active_basis_id: state.transition_target_basis_id,
        segment: state.transition_target_segment,
        segment_phase: crate::float_bits::ZERO,
        blend_active: false,
        blend_phase: crate::float_bits::ONE,
        blend_weight: crate::float_bits::ONE,
        ..state
    }
}

impl Clone for BasisGraphPlaybackState {
    fn clone(&self) -> (r: BasisGraphPlaybackState)
        ensures
            r == (BasisGraphPlaybackState { transition: r.transition, ..*self }),
            crate::basis_motion_graph::same_optional_transition(r.transition, self.transition),
    {
        BasisGraphPlaybackState {
            region_id: self.region_id,
            original_basis_id: self.original_basis_id,
            active_basis_id: self.active_basis_id,
            segment: self.segment,
            segment_phase: self.segment_phase,
            blend_from_basis_id: self.blend_from_basis_id,
            blend_from_segment: self.blend_from_segment,
            blend_phase: self.blend_phase,
            blend_weight: self.blend_weight,
            blend_active: self.blend_active,
            transition_active: self.transition_active,
            transition_phase_segments: self.transition_phase_segments,
            transition_duration_segments: self.transition_duration_segments,
            transition_delta: self.transition_delta,
            transition: match &self.transition {
                Some(t) => Some(t.clone()),
                None => None,
            },
            transition_target_basis_id: self.transition_target_basis_id,
            transition_target_segment: self.transition_target_segment,
            rejected_branch_count: self.rejected_branch_count,
            rejected_branch_score_count: self.rejected_branch_score_count,
            rejected_branch_position_count: self.rejected_branch_position_count,
            rejected_branch_velocity_count: self.rejected_branch_velocity_count,
            rejected_branch_acceleration_count: self.rejected_branch_acceleration_count,
            segments_since_branch: self.segments_since_branch,
            last_edge: self.last_edge,
            rng: self.rng,
        }
    }
}

/// The branches that a node offers: those that were set for it, else those of the graph.
pub open spec fn offered_branches(
    graph: BasisMotionGraph,
    overrides: Option<&BasisGraphBranchOverrides>,
    basis_id: usize,
    segment: usize,
) -> Seq<BasisMotionGraphBranch> {
    match overrides {
        Some(set) => match set.node(basis_id, segment) {
            Some(branches) => branches,
            None => crate::basis_motion_graph::listed_branches(graph, basis_id, segment),
        },
        None => crate::basis_motion_graph::listed_branches(graph, basis_id, segment),
    }
}

/// The branches that a node offers.
pub fn find_offered_branches<'a>(
    graph: &'a BasisMotionGraph,
    overrides: Option<&'a BasisGraphBranchOverrides>,
    basis_id: usize,
    segment: usize,
) -> (r: Vec<&'a BasisMotionGraphBranch>)
    ensures
        r@.len() == offered_branches(*graph, overrides, basis_id, segment).len(),
        forall|p: int|
            0 <= p < r@.len() ==> *(#[trigger] r@[p]) == offered_branches(
                *graph,
                overrides,
                basis_id,
                segment,
            )[p],
{
    if let Some(set) = overrides {
        if let Some(branches) = set.branches_for(basis_id, segment) {
            let mut out: Vec<&'a BasisMotionGraphBranch> = Vec::new();
            for i in 0..branches.len()
                invariant
                    out@.len() == i,
                    forall|p: int| 0 <= p < i ==> *(#[trigger] out@[p]) == branches@[p],
            {
                out.push(&branches[i]);
            }
            return out;
        }
    }
    graph.branches_for(basis_id, segment)
}

/// Branches within the limits of a configuration.
pub open spec fn within_limits(
    config: BasisGraphPlaybackConfig,
) -> spec_fn(BasisMotionGraphBranch) -> bool {
    |branch: BasisMotionGraphBranch| !crate::basis_graph_playback::rejection_of(branch, config).any()
}

pub open spec fn beyond_limits(
    config: BasisGraphPlaybackConfig,
) -> spec_fn(BasisMotionGraphBranch) -> bool {
    |branch: BasisMotionGraphBranch| crate::basis_graph_playback::rejection_of(branch, config).any()
}

pub open spec fn beyond_score(
    config: BasisGraphPlaybackConfig,
) -> spec_fn(BasisMotionGraphBranch) -> bool {
    |branch: BasisMotionGraphBranch| crate::basis_graph_playback::rejection_of(branch, config).score
}

pub open spec fn beyond_position(config: BasisGraphPlaybackConfig) -> spec_fn(
    BasisMotionGraphBranch,
) -> bool {
    |branch: BasisMotionGraphBranch|
        crate::basis_graph_playback::rejection_of(branch, config).position
}

pub open spec fn beyond_velocity(config: BasisGraphPlaybackConfig) -> spec_fn(
    BasisMotionGraphBranch,
) -> bool {
    |branch: BasisMotionGraphBranch|
        crate::basis_graph_playback::rejection_of(branch, config).velocity
}

pub open spec fn beyond_acceleration(config: BasisGraphPlaybackConfig) -> spec_fn(
    BasisMotionGraphBranch,
) -> bool {
    |branch: BasisMotionGraphBranch|
        crate::basis_graph_playback::rejection_of(branch, config).acceleration
}

/// No branch can be chosen: a blend is still going on, the last branch is too recent, or the policy
/// is to go on.
pub open spec fn choice_blocked(
    state: BasisGraphPlaybackState,
    config: BasisGraphPlaybackConfig,
) -> bool {
    state.blend_active || state.segments_since_branch < config.min_branch_interval_segments
        || config.policy == BasisGraphPlaybackPolicy::Continue
}

/// The branches that are weighed at the end of a segment.
pub open spec fn weighed_branches(
    state: BasisGraphPlaybackState,
    graph: BasisMotionGraph,
    overrides: Option<&BasisGraphBranchOverrides>,
    config: BasisGraphPlaybackConfig,
) -> Seq<BasisMotionGraphBranch> {
    if choice_blocked(state, config) {
        Seq::empty()
    } else {
        offered_branches(graph, overrides, state.active_basis_id, state.segment)
    }
}

/// A state with the rejected branches counted, for each limit and in all.
pub open spec fn counted(
    state: BasisGraphPlaybackState,
    weighed: Seq<BasisMotionGraphBranch>,
    config: BasisGraphPlaybackConfig,
) -> BasisGraphPlaybackState {
    BasisGraphPlaybackState {
        rejected_branch_count: weighed.filter(beyond_limits(config)).len() as usize,
        rejected_branch_score_count: weighed.filter(beyond_score(config)).len() as usize,
        rejected_branch_position_count: weighed.filter(beyond_position(config)).len() as usize,
        rejected_branch_velocity_count: weighed.filter(beyond_velocity(config)).len() as usize,
        rejected_branch_acceleration_count: weighed.filter(
            beyond_acceleration(config),
        ).len() as usize,
        ..state
    }
}

/// What is decided at the end of a segment: go on, take a branch, or draw a number to decide.
pub enum EdgeChoice<'a> {
    Continue,
    Branch(&'a BasisMotionGraphBranch),
    Draw { draw: u32, kept: Vec<&'a BasisMotionGraphBranch> },
}

/// `refs` points to the branches of `list`, in order.
pub open spec fn points_to(
    refs: Seq<&BasisMotionGraphBranch>,
    list: Seq<BasisMotionGraphBranch>,
) -> bool {
    &&& refs.len() == list.len()
    &&& forall|p: int| 0 <= p < refs.len() ==> *(#[trigger] refs[p]) == list[p]
}

/// The decision for the branches that are within the limits.
pub open spec fn choice_is(
    choice: EdgeChoice<'_>,
    policy: BasisGraphPlaybackPolicy,
    kept: Seq<BasisMotionGraphBranch>,
    draw: u32,
) -> bool {
    if kept.len() == 0 || policy == BasisGraphPlaybackPolicy::Continue {
        choice is Continue
    } else if policy == BasisGraphPlaybackPolicy::Rank0 {
        choice matches EdgeChoice::Branch(branch) && *branch == kept[0]
    } else {
        choice matches EdgeChoice::Draw { draw: d, kept: k } && d == draw && points_to(k@, kept)
    }
}

impl BasisGraphPlaybackState {
    /// The next thing to do with a distance that is left, given the distances to the end of the
    /// segment and of the transition.
    pub fn next_move(&self, distance: u32, to_boundary: u32, remaining: u32) -> (r: PlaybackMove)
        ensures
            r == move_of(self.transition_active, distance, to_boundary, remaining),
    {
        if !crate::float_bits::is_less(crate::float_bits::ZERO, distance) {
            PlaybackMove::Stop
        } else if self.transition_active {
            if crate::float_bits::is_less(distance, remaining) {
                PlaybackMove::WithinTransition
            } else {
                PlaybackMove::FinishTransition
            }
        } else if crate::float_bits::is_less(distance, to_boundary) {
            PlaybackMove::WithinSegment
        } else {
            PlaybackMove::CrossBoundary
        }
    }

    /// Brings the blend up to date.
    pub fn update_blend(&mut self, config: BasisGraphPlaybackConfig, sample: BlendSample)
        ensures
            *final(self) == blended(*old(self), config, sample),
    {
        if !self.blend_active {
            self.blend_phase = crate::float_bits::ONE;
            self.blend_weight = crate::float_bits::ONE;
            return ;
        }
        let duration: u32 = crate::float_bits::clamp(
            config.blend_duration,
            crate::float_bits::ZERO,
            crate::float_bits::ONE,
        );
        if crate::float_bits::is_less_or_same(duration, crate::float_bits::ZERO) {
            self.blend_active = false;
            self.blend_phase = crate::float_bits::ONE;
            self.blend_weight = crate::float_bits::ONE;
            return ;
        }
        self.blend_phase = sample.phase;
        self.blend_weight = sample.weight;
        if crate::float_bits::is_less_or_same(crate::float_bits::ONE, sample.phase) {
            self.blend_active = false;
            self.blend_weight = crate::float_bits::ONE;
        }
    }

    /// Puts a state at a phase of its segment.
    pub fn set_phase(&mut self, phase: u32, config: BasisGraphPlaybackConfig, sample: BlendSample)
        ensures
            *final(self) == blended(
                (BasisGraphPlaybackState { segment_phase: phase, ..*old(self) }),
                config,
                sample,
            ),
    {
        self.segment_phase = phase;
        self.update_blend(config, sample);
    }

    /// Moves a state to a phase of its transition, where the curve is at `delta`.
    pub fn move_within_transition(&mut self, phase: u32, delta: [u32; 3])
        ensures
            *final(self) == (BasisGraphPlaybackState {
                transition_phase_segments: phase,
                transition_delta: if old(self).transition_active && old(self).transition is Some {
                    delta
                } else {
                    old(self).transition_delta
                },
                ..*old(self)
            }),
    {
        self.transition_phase_segments = phase;
        if self.transition_active && self.transition.is_some() {
            self.transition_delta = delta;
        }
    }

    /// Moves a state to the end of its transition, where the curve is at `delta`.
    pub fn finish_transition(&mut self, delta: [u32; 3])
        ensures
            *final(self) == after_transition(*old(self), delta),
    {
        self.move_within_transition(self.transition_duration_segments, delta);
        self.transition_active = false;
        self.transition = None;
        self.active_basis_id = self.transition_target_basis_id;
        self.segment = self.transition_target_segment;
        self.segment_phase = crate::float_bits::ZERO;
        self.blend_active = false;
        self.blend_phase = crate::float_bits::ONE;
        self.blend_weight = crate::float_bits::ONE;
    }
}

/// The branches within the limits, and how many exceed each limit: all, score, position, velocity,
/// acceleration.
fn weigh_branches<'a>(
    weighed: &Vec<&'a BasisMotionGraphBranch>,
    config: BasisGraphPlaybackConfig,
    Ghost(list): Ghost<Seq<BasisMotionGraphBranch>>,
) -> (r: (Vec<&'a BasisMotionGraphBranch>, [usize; 5]))
    requires
        points_to(weighed@, list),
    ensures
        points_to(r.0@, list.filter(within_limits(config))),
        r.1[0] == list.filter(beyond_limits(config)).len(),
        r.1[1] == list.filter(beyond_score(config)).len(),
        r.1[2] == list.filter(beyond_position(config)).len(),
        r.1[3] == list.filter(beyond_velocity(config)).len(),
        r.1[4] == list.filter(beyond_acceleration(config)).len(),
{
    let mut kept: Vec<&'a BasisMotionGraphBranch> = Vec::new();
    let mut all: usize = 0;
    let mut score: usize = 0;
    let mut position: usize = 0;
    let mut velocity: usize = 0;
    let mut acceleration: usize = 0;
    let total: usize = weighed.len();
    let mut i: usize = 0;
    proof {
        reveal(Seq::filter);
        assert(list.take(0) =~= Seq::empty());
    }
    while i < total
        invariant
            i <= total,
            total == weighed@.len(),
            points_to(weighed@, list),
            points_to(kept@, list.take(i as int).filter(within_limits(config))),
            all == list.take(i as int).filter(beyond_limits(config)).len(),
            score == list.take(i as int).filter(beyond_score(config)).len(),
            position == list.take(i as int).filter(beyond_position(config)).len(),
            velocity == list.take(i as int).filter(beyond_velocity(config)).len(),
            acceleration == list.take(i as int).filter(beyond_acceleration(config)).len(),
            all <= i,
            score <= i,
            position <= i,
            velocity <= i,
            acceleration <= i,
        decreases total - i,
    {
        let branch: &'a BasisMotionGraphBranch = weighed[i];
        let rejection: BasisBranchRejection = branch_rejection(branch, config);
        proof {
            let front = list.take(i as int);
            assert(list.take(i + 1) =~= front.push(list[i as int]));
            front.lemma_filter_push(list[i as int], within_limits(config));
            front.lemma_filter_push(list[i as int], beyond_limits(config));
            front.lemma_filter_push(list[i as int], beyond_score(config));
            front.lemma_filter_push(list[i as int], beyond_position(config));
            front.lemma_filter_push(list[i as int], beyond_velocity(config));
            front.lemma_filter_push(list[i as int], beyond_acceleration(config));
        }
        if rejection.rejected() {
            all = all + 1;
            if rejection.score {
                score = score + 1;
            }
            if rejection.position {
                position = position + 1;
            }
            if rejection.velocity {
                velocity = velocity + 1;
            }
            if rejection.acceleration {
                acceleration = acceleration + 1;
            }
        } else {
            kept.push(branch);
        }
        i = i + 1;
    }
    assert(list.take(total as int) =~= list);
    (kept, [all, score, position, velocity, acceleration])
}

/// The branch that a draw falls on: the first whose weight covers what is left of the draw, else
/// the last. `left[i]` is what is left of the draw once the weights before branch `i` are taken
/// off.
pub open spec fn picked(left: Seq<u32>, weights: Seq<u32>, from: nat) -> int
    decreases weights.len() - from,
{
    if from >= weights.len() {
        weights.len() - 1
    } else if crate::float_bits::less_or_same(left[from as int], weights[from as int]) {
        from as int
    } else {
        picked(left, weights, from + 1)
    }
}

pub fn pick_weighted(left: &[u32], weights: &[u32]) -> (r: usize)
    requires
        weights@.len() > 0,
        left@.len() == weights@.len(),
    ensures
        r == picked(left@, weights@, 0),
        r < weights@.len(),
{
    let total: usize = weights.len();
    let mut i: usize = 0;
    while i < total
        invariant
            i <= total,
            total == weights@.len(),
            left@.len() == weights@.len(),
            picked(left@, weights@, 0) == picked(left@, weights@, i as nat),
        decreases total - i,
    {
        if crate::float_bits::is_less_or_same(left[i], weights[i]) {
            return i;
        }
        i = i + 1;
    }
    total - 1
}

/// The segment after the present one is played, or blended from, on this edge.
pub open spec fn edge_counts_on(
    branch: Option<&BasisMotionGraphBranch>,
    knot_count: usize,
    basis_count: usize,
) -> bool {
    match branch {
        None => true,
        Some(b) => b.to_basis < basis_count && b.transition is None && knot_count > 0,
    }
}

/// A state after it went on to the next segment (no branch), refused a branch to a basis that does
/// not exist, entered the transition of a branch, or jumped to the target of a branch and blends
/// from where it would have gone.
pub open spec fn after_edge(
    state: BasisGraphPlaybackState,
    branch: Option<&BasisMotionGraphBranch>,
    start_delta: [u32; 3],
    knot_count: usize,
    basis_count: usize,
    config: BasisGraphPlaybackConfig,
    entered: Option<BasisMotionGraphTransition>,
) -> BasisGraphPlaybackState {
    match branch {
        None => BasisGraphPlaybackState {
            segment: ((state.segment + 1) % knot_count as int) as usize,
            segments_since_branch: if state.segments_since_branch == u32::MAX {
                u32::MAX
            } else {
                (state.segments_since_branch + 1) as u32
            },
            last_edge: BasisGraphLastEdge::Continue,
            ..state
        },
        Some(b) => if b.to_basis >= basis_count {
            BasisGraphPlaybackState { last_edge: BasisGraphLastEdge::Continue, ..state }
        } else {
            let last_edge = BasisGraphLastEdge::Branch {
                rank: b.rank,
                to_basis_id: b.to_basis,
                to_segment: b.to_segment,
            };
            match b.transition {
                Some(t) => BasisGraphPlaybackState {
                    transition_active: true,
                    transition_phase_segments: crate::float_bits::ZERO,
                    transition_duration_segments: crate::float_bits::integer_bits(
                        t.duration_segments as nat,
                    ) as u32,
                    transition_delta: start_delta,
                    transition: entered,
                    transition_target_basis_id: b.to_basis,
                    transition_target_segment: b.to_segment,
                    blend_active: false,
                    blend_phase: crate::float_bits::ONE,
                    blend_weight: crate::float_bits::ONE,
                    segments_since_branch: 0,
                    last_edge,
                    ..state
                },
                None => BasisGraphPlaybackState {
                    active_basis_id: b.to_basis,
                    segment: b.to_segment,
                    blend_from_basis_id: state.active_basis_id,
                    blend_from_segment: if knot_count == 0 {
                        state.segment
                    } else {
                        ((state.segment + 1) % knot_count as int) as usize
                    },
                    blend_phase: crate::float_bits::ZERO,
                    blend_weight: if crate::float_bits::less_or_same(
                        config.blend_duration,
                        crate::float_bits::ZERO,
                    ) {
                        crate::float_bits::ONE
                    } else {
                        crate::float_bits::ZERO
                    },
                    blend_active: crate::float_bits::less(
                        crate::float_bits::ZERO,
                        config.blend_duration,
                    ),
                    segments_since_branch: 0,
                    last_edge,
                    ..state
                },
            }
        },
    }
}

/// The transition that a state holds after an edge: that of the branch where it enters one, else
/// the one it held.
pub open spec fn enters(
    state: BasisGraphPlaybackState,
    branch: Option<&BasisMotionGraphBranch>,
    basis_count: usize,
    entered: Option<BasisMotionGraphTransition>,
) -> bool {
    match branch {
        Some(b) => if b.to_basis < basis_count && b.transition is Some {
            crate::basis_motion_graph::same_optional_transition(entered, b.transition)
        } else {
            entered == state.transition
        },
        None => entered == state.transition,
    }
}

impl BasisGraphPlaybackState {
    /// Weighs the branches at the end of the segment and decides where to go, or draws the number
    /// that decides whether to branch at all.
    pub fn choose_next_edge<'a>(
        &mut self,
        graph: &'a BasisMotionGraph,
        config: BasisGraphPlaybackConfig,
        overrides: Option<&'a BasisGraphBranchOverrides>,
    ) -> (r: EdgeChoice<'a>)
        ensures
            ({
                let weighed = weighed_branches(*old(self), *graph, overrides, config);
                let kept = weighed.filter(within_limits(config));
                &&& choice_is(r, config.policy, kept, final(self).rng.state >> 8u32)
                &&& *final(self) == BasisGraphPlaybackState {
                    rng: if kept.len() > 0 && config.policy
                        == BasisGraphPlaybackPolicy::Stochastic {
                        BasisGraphPlaybackRng {
                            state: crate::basis_graph_playback::stepped(old(self).rng.state),
                        }
                    } else {
                        old(self).rng
                    },
                    ..counted(*old(self), weighed, config)
                }
            }),
            r matches EdgeChoice::Branch(b) ==> crate::basis_graph_laws::respects_limits(
                *b,
                config,
            ),
            r matches EdgeChoice::Draw { draw, kept } ==> forall|p: int|
                0 <= p < kept@.len() ==> crate::basis_graph_laws::respects_limits(
                    *(#[trigger] kept@[p]),
                    config,
                ),
    {
        let blocked: bool = self.blend_active || self.segments_since_branch
            < config.min_branch_interval_segments || config.policy
            == BasisGraphPlaybackPolicy::Continue;
        let weighed: Vec<&'a BasisMotionGraphBranch> = if blocked {
            Vec::new()
        } else {
            find_offered_branches(graph, overrides, self.active_basis_id, self.segment)
        };
        let ghost list = weighed_branches(*old(self), *graph, overrides, config);
        let (kept, counts) = weigh_branches(&weighed, config, Ghost(list));
        proof {
            crate::basis_graph_laws::kept_branches_respect_the_limits(list, config);
        }
        self.rejected_branch_count = counts[0];
        self.rejected_branch_score_count = counts[1];
        self.rejected_branch_position_count = counts[2];
        self.rejected_branch_velocity_count = counts[3];
        self.rejected_branch_acceleration_count = counts[4];
        if kept.len() == 0 {
            return EdgeChoice::Continue;
        }
        proof {
            reveal(Seq::filter);
        }
        match config.policy {
            BasisGraphPlaybackPolicy::Continue => EdgeChoice::Continue,
            BasisGraphPlaybackPolicy::Rank0 => EdgeChoice::Branch(kept[0]),
            BasisGraphPlaybackPolicy::Stochastic => {
                let draw: u32 = self.rng.next_draw();
                EdgeChoice::Draw { draw, kept }
            },
        }
    }

    /// Whether a draw, as a number from 0 to 1, lets the state branch; if so, the draw that picks
    /// the branch.
    pub fn pass_draw(&mut self, draw: u32, config: BasisGraphPlaybackConfig) -> (r: Option<u32>)
        ensures
            ({
                let limit = crate::float_bits::clamped(
                    config.branch_probability,
                    crate::float_bits::ZERO,
                    crate::float_bits::ONE,
                );
                if crate::float_bits::less(limit, draw) {
                    r is None && *final(self) == *old(self)
                } else {
                    let state = crate::basis_graph_playback::stepped(old(self).rng.state);
                    &&& r == Some(state >> 8u32)
                    &&& *final(self) == BasisGraphPlaybackState {
                        rng: BasisGraphPlaybackRng { state },
                        ..*old(self)
                    }
                }
            }),
    {
        let limit: u32 = crate::float_bits::clamp(
            config.branch_probability,
            crate::float_bits::ZERO,
            crate::float_bits::ONE,
        );
        if crate::float_bits::is_less(limit, draw) {
            None
        } else {
            Some(self.rng.next_draw())
        }
    }

    /// Follows a branch, or goes on without one. `start_delta` is where the transition of the
    /// branch starts.
    pub fn follow_edge(
        &mut self,
        branch: Option<&BasisMotionGraphBranch>,
        start_delta: [u32; 3],
        knot_count: usize,
        basis_count: usize,
        config: BasisGraphPlaybackConfig,
    )
        requires
            branch is None ==> knot_count > 0,
            edge_counts_on(branch, knot_count, basis_count) ==> old(self).segment < usize::MAX,
        ensures
            *final(self) == after_edge(
                *old(self),
                branch,
                start_delta,
                knot_count,
                basis_count,
                config,
                final(self).transition,
            ),
            enters(*old(self), branch, basis_count, final(self).transition),
    {
        match branch {
            None => {
                self.segment = (self.segment + 1) % knot_count;
                if self.segments_since_branch < u32::MAX {
                    self.segments_since_branch = self.segments_since_branch + 1;
                }
                self.last_edge = BasisGraphLastEdge::Continue;
            },
            Some(b) => {
                self.apply_branch(b, start_delta, knot_count, basis_count, config);
            },
        }
    }

    /// Follows a branch, unless its target does not exist.
    pub fn apply_branch(
        &mut self,
        branch: &BasisMotionGraphBranch,
        start_delta: [u32; 3],
        knot_count: usize,
        basis_count: usize,
        config: BasisGraphPlaybackConfig,
    )
        requires
            edge_counts_on(Some(branch), knot_count, basis_count) ==> old(self).segment
                < usize::MAX,
        ensures
            *final(self) == after_edge(
                *old(self),
                Some(branch),
                start_delta,
                knot_count,
                basis_count,
                config,
                final(self).transition,
            ),
            enters(*old(self), Some(branch), basis_count, final(self).transition),
    {
        if branch.to_basis >= basis_count {
            self.last_edge = BasisGraphLastEdge::Continue;
            return ;
        }
        let last_edge: BasisGraphLastEdge = BasisGraphLastEdge::Branch {
            rank: branch.rank,
            to_basis_id: branch.to_basis,
            to_segment: branch.to_segment,
        };
        if let Some(transition) = &branch.transition {
            self.transition_active = true;
            self.transition_phase_segments = crate::float_bits::ZERO;
            self.transition_duration_segments = crate::float_bits::from_integer(
                transition.duration_segments as u64,
            );
            self.transition_delta = start_delta;
            self.transition = Some(transition.clone());
            self.transition_target_basis_id = branch.to_basis;
            self.transition_target_segment = branch.to_segment;
            self.blend_active = false;
            self.blend_phase = crate::float_bits::ONE;
            self.blend_weight = crate::float_bits::ONE;
            self.segments_since_branch = 0;
            self.last_edge = last_edge;
            return ;
        }
        let source_basis_id: usize = self.active_basis_id;
        let source_segment: usize = if knot_count == 0 {
            self.segment
        } else {
            (self.segment + 1) % knot_count
        };
        self.active_basis_id = branch.to_basis;
        self.segment = branch.to_segment;
        self.blend_from_basis_id = source_basis_id;
        self.blend_from_segment = source_segment;
        self.blend_phase = crate::float_bits::ZERO;
        self.blend_weight = if crate::float_bits::is_less_or_same(
            config.blend_duration,
            crate::float_bits::ZERO,
        ) {
            crate::float_bits::ONE
        } else {
            crate::float_bits::ZERO
        };
        self.blend_active = crate::float_bits::is_less(
            crate::float_bits::ZERO,
            config.blend_duration,
        );
        self.segments_since_branch = 0;
        self.last_edge = last_edge;
    }
}

/// What a state plays, and will play after its transition, exists.
pub open spec fn in_graph(
    state: BasisGraphPlaybackState,
    knot_count: usize,
    basis_count: usize,
) -> bool {
    &&& state.active_basis_id < basis_count
    &&& state.segment < knot_count
    &&& state.transition_active ==> state.transition_target_basis_id < basis_count
        && state.transition_target_segment < knot_count
}

/// Playback of branches that stay in the graph stays in the graph: no edge, blend or transition
/// leads to a basis or segment that does not exist, and a state keeps its region and basis.
pub proof fn playback_stays_in_graph(
    state: BasisGraphPlaybackState,
    branch: Option<&BasisMotionGraphBranch>,
    delta: [u32; 3],
    knot_count: usize,
    basis_count: usize,
    config: BasisGraphPlaybackConfig,
    sample: BlendSample,
    entered: Option<BasisMotionGraphTransition>,
)
    requires
        in_graph(state, knot_count, basis_count),
        branch matches Some(b) ==> b.to_segment < knot_count,
    ensures
        in_graph(
            after_edge(state, branch, delta, knot_count, basis_count, config, entered),
            knot_count,
            basis_count,
        ),
        in_graph(blended(state, config, sample), knot_count, basis_count),
        state.transition_active ==> in_graph(
            after_transition(state, delta),
            knot_count,
            basis_count,
        ),
        after_edge(state, branch, delta, knot_count, basis_count, config, entered).region_id
            == state.region_id,
        after_edge(state, branch, delta, knot_count, basis_count, config, entered).original_basis_id
            == state.original_basis_id,
        after_transition(state, delta).original_basis_id == state.original_basis_id,
        after_transition(state, delta).region_id == state.region_id,
{
    vstd::arithmetic::div_mod::lemma_mod_bound(state.segment + 1, knot_count as int);
}

/// After a branch is followed, none is weighed before the configured number of segments has been
/// played: `n` segments later the count of segments is still too low, for any `n` below it.
pub proof fn branches_keep_their_distance(
    state: BasisGraphPlaybackState,
    config: BasisGraphPlaybackConfig,
    knot_count: usize,
    basis_count: usize,
    delta: [u32; 3],
    n: nat,
)
    requires
        state.segments_since_branch == 0,
        n < config.min_branch_interval_segments,
    ensures
        choice_blocked(went_on(state, knot_count, basis_count, delta, config, n), config),
{
    went_on_counts(state, config, knot_count, basis_count, delta, n);
}

/// A state after `n` edges without a branch.
pub open spec fn went_on(
    state: BasisGraphPlaybackState,
    knot_count: usize,
    basis_count: usize,
    delta: [u32; 3],
    config: BasisGraphPlaybackConfig,
    n: nat,
) -> BasisGraphPlaybackState
    decreases n,
{
    if n == 0 {
        state
    } else {
        let before = went_on(state, knot_count, basis_count, delta, config, (n - 1) as nat);
        after_edge(before, None, delta, knot_count, basis_count, config, before.transition)
    }
}

proof fn went_on_counts(
    state: BasisGraphPlaybackState,
    config: BasisGraphPlaybackConfig,
    knot_count: usize,
    basis_count: usize,
    delta: [u32; 3],
    n: nat,
)
    requires
        state.segments_since_branch == 0,
        n <= u32::MAX,
    ensures
        went_on(state, knot_count, basis_count, delta, config, n).segments_since_branch == n,
    decreases n,
{
    if n > 0 {
        went_on_counts(state, config, knot_count, basis_count, delta, (n - 1) as nat);
    }
}

/// The part of a transition curve between two knots, with what its tangents are made of.
#[derive(Clone, Copy, Debug)]
pub struct TransitionSpan {
    pub start: [u32; 3],
    pub end: [u32; 3],
    pub start_tangent: TransitionTangent,
    pub end_tangent: TransitionTangent,
}

/// A tangent that the transition gives, or half the way between two knots.
#[derive(Clone, Copy, Debug)]
pub enum TransitionTangent {
    Given { tangent: [u32; 3] },
    Central { before: [u32; 3], after: [u32; 3] },
}

pub open spec fn tangent_of(
    transition: BasisMotionGraphTransition,
    knot: int,
) -> TransitionTangent {
    if knot == 0 {
        TransitionTangent::Given { tangent: transition.start_tangent }
    } else if knot + 1 == transition.knots@.len() {
        TransitionTangent::Given { tangent: transition.end_tangent }
    } else {
        TransitionTangent::Central {
            before: transition.knots@[knot - 1],
            after: transition.knots@[knot + 1],
        }
    }
}

fn tangent_at(transition: &BasisMotionGraphTransition, knot: usize) -> (r: TransitionTangent)
    requires
        knot < transition.knots@.len(),
    ensures
        r == tangent_of(*transition, knot as int),
{
    let total: usize = transition.knots.len();
    if knot == 0 {
        TransitionTangent::Given { tangent: transition.start_tangent }
    } else if knot + 1 == total {
        TransitionTangent::Given { tangent: transition.end_tangent }
    } else {
        TransitionTangent::Central {
            before: transition.knots[knot - 1],
            after: transition.knots[knot + 1],
        }
    }
}

/// Segments of a transition: at least one.
pub open spec fn transition_segments(transition: BasisMotionGraphTransition) -> int {
    if transition.duration_segments == 0 {
        1
    } else {
        transition.duration_segments as int
    }
}

/// The span at a whole number of segments into a transition, its last one at the end or beyond;
/// nothing if the curve has too few knots.
pub fn transition_span(
    transition: &BasisMotionGraphTransition,
    whole_segments: usize,
) -> (r: Option<TransitionSpan>)
    ensures
        ({
            let segments = transition_segments(*transition);
            let segment = if whole_segments < segments {
                whole_segments as int
            } else {
                segments - 1
            };
            r == if transition.knots@.len() < segments + 1 {
                None::<TransitionSpan>
            } else {
                Some(
                    TransitionSpan {
                        start: transition.knots@[segment],
                        end: transition.knots@[segment + 1],
                        start_tangent: tangent_of(*transition, segment),
                        end_tangent: tangent_of(*transition, segment + 1),
                    },
                )
            }
        }),
{
    let segments: usize = if transition.duration_segments == 0 {
        1
    } else {
        transition.duration_segments
    };
    let total: usize = transition.knots.len();
    if total <= segments {
        return None;
    }
    let segment: usize = if whole_segments < segments {
        whole_segments
    } else {
        segments - 1
    };
    Some(
        TransitionSpan {
            start: transition.knots[segment],
            end: transition.knots[segment + 1],
            start_tangent: tangent_at(transition, segment),
            end_tangent: tangent_at(transition, segment + 1),
        },
    )
}

} // verus!
