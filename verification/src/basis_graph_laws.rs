//! What playback and authoring of a motion graph are for: laws about the fields of branches and
//! states.

use crate::basis_graph_authoring::BasisGraphBranchOverrides;
use crate::basis_graph_playback::{
    BasisGraphLastEdge, BasisGraphPlaybackConfig, BasisGraphPlaybackPolicy, BasisGraphPlaybackState,
};
use crate::basis_graph_steps::{BlendSample, EdgeChoice, TransitionSpan, TransitionTangent};
use crate::basis_motion_graph::{
    BasisMotionGraph, BasisMotionGraphBranch, BasisMotionGraphTransition,
};
use vstd::prelude::*;

verus! {

/// A cost is above a limit that is switched on.
pub open spec fn above(enabled: bool, limit: u32, cost: u32) -> bool {
    enabled && crate::float_bits::less(limit, cost)
}

/// No cost of a branch is above a limit that is switched on.
pub open spec fn respects_limits(
    branch: BasisMotionGraphBranch,
    config: BasisGraphPlaybackConfig,
) -> bool {
    &&& !above(config.max_branch_score_enabled, config.max_branch_score, branch.score)
    &&& !above(config.max_position_cost_enabled, config.max_position_cost, branch.position_cost)
    &&& !above(config.max_velocity_cost_enabled, config.max_velocity_cost, branch.velocity_cost)
    &&& !above(
        config.max_acceleration_cost_enabled,
        config.max_acceleration_cost,
        branch.acceleration_cost,
    )
}

/// Each limit acts on its own cost: a branch is rejected for score, position, velocity or
/// acceleration exactly where that limit is switched on and that cost is above it, and it is
/// rejected as soon as one of them is.
pub proof fn every_limit_acts(branch: BasisMotionGraphBranch, config: BasisGraphPlaybackConfig)
    ensures
        ({
            let r = crate::basis_graph_playback::rejection_of(branch, config);
            &&& r.score == above(
                config.max_branch_score_enabled,
                config.max_branch_score,
                branch.score,
            )
            &&& r.position == above(
                config.max_position_cost_enabled,
                config.max_position_cost,
                branch.position_cost,
            )
            &&& r.velocity == above(
                config.max_velocity_cost_enabled,
                config.max_velocity_cost,
                branch.velocity_cost,
            )
            &&& r.acceleration == above(
                config.max_acceleration_cost_enabled,
                config.max_acceleration_cost,
                branch.acceleration_cost,
            )
            &&& r.any() == !respects_limits(branch, config)
            &&& r.any() == (r.score || r.position || r.velocity || r.acceleration)
        }),
{
}

/// Of positive numbers, the greater one has the greater pattern: a positive cost beyond a positive
/// limit is told by comparing the patterns.
pub proof fn limits_compare_patterns(limit: u32, cost: u32)
    requires
        limit <= 0x7f80_0000,
        cost <= 0x7f80_0000,
    ensures
        above(true, limit, cost) <==> limit < cost,
        !above(false, limit, cost),
{
}

/// What `choose_next_edge` leaves behind.
pub open spec fn chosen(
    before: BasisGraphPlaybackState,
    after: BasisGraphPlaybackState,
    choice: EdgeChoice<'_>,
    graph: BasisMotionGraph,
    overrides: Option<&BasisGraphBranchOverrides>,
    config: BasisGraphPlaybackConfig,
) -> bool {
    let weighed = crate::basis_graph_steps::weighed_branches(before, graph, overrides, config);
    let kept = weighed.filter(crate::basis_graph_steps::within_limits(config));
    &&& crate::basis_graph_steps::choice_is(choice, config.policy, kept, after.rng.state >> 8u32)
    &&& after == BasisGraphPlaybackState {
        rng: after.rng,
        ..crate::basis_graph_steps::counted(before, weighed, config)
    }
}

/// Branches are weighed only where playback may branch: no blend goes on, the last branch is long
/// enough ago, and the policy is to branch.
pub open spec fn may_branch(
    state: BasisGraphPlaybackState,
    config: BasisGraphPlaybackConfig,
) -> bool {
    &&& !state.blend_active
    &&& state.segments_since_branch >= config.min_branch_interval_segments
    &&& config.policy != BasisGraphPlaybackPolicy::Continue
}

/// A branch that is taken, or kept for the draw, is offered by the node that is played and respects
/// every limit; one that respects them all is kept. Without one, or where playback may not branch,
/// it goes on. The best kept branch is taken by rank.
pub proof fn taken_branches_respect_the_limits(
    before: BasisGraphPlaybackState,
    after: BasisGraphPlaybackState,
    choice: EdgeChoice<'_>,
    graph: BasisMotionGraph,
    overrides: Option<&BasisGraphBranchOverrides>,
    config: BasisGraphPlaybackConfig,
)
    requires
        chosen(before, after, choice, graph, overrides, config),
    ensures
        ({
            let offered = crate::basis_graph_steps::offered_branches(
                graph,
                overrides,
                before.active_basis_id,
                before.segment,
            );
            &&& choice matches EdgeChoice::Branch(b) ==> {
                &&& respects_limits(*b, config)
                &&& offered.contains(*b)
                &&& may_branch(before, config)
                &&& config.policy == BasisGraphPlaybackPolicy::Rank0
                &&& exists|i: int|
                    0 <= i < offered.len() && *b == #[trigger] offered[i] && forall|j: int|
                        0 <= j < i ==> !respects_limits(#[trigger] offered[j], config)
            }
            &&& choice matches EdgeChoice::Draw { draw, kept } ==> {
                &&& may_branch(before, config)
                &&& config.policy == BasisGraphPlaybackPolicy::Stochastic
                &&& kept@.len() > 0
                &&& forall|p: int|
                    0 <= p < kept@.len() ==> respects_limits(*(#[trigger] kept@[p]), config)
                        && offered.contains(*kept@[p])
                &&& forall|i: int|
                    0 <= i < offered.len() && respects_limits(#[trigger] offered[i], config)
                        ==> exists|p: int| 0 <= p < kept@.len() && *(#[trigger] kept@[p]) == offered[i]
            }
            &&& choice is Continue <==> !may_branch(before, config) || forall|i: int|
                0 <= i < offered.len() ==> !respects_limits(#[trigger] offered[i], config)
        }),
{
    let weighed = crate::basis_graph_steps::weighed_branches(before, graph, overrides, config);
    let offered = crate::basis_graph_steps::offered_branches(
        graph,
        overrides,
        before.active_basis_id,
        before.segment,
    );
    let pred = crate::basis_graph_steps::within_limits(config);
    let kept = weighed.filter(pred);
    kept_are_weighed(weighed, pred);
    assert forall|b: BasisMotionGraphBranch| #[trigger] pred(b) == respects_limits(b, config) by {}
    assert forall|i: int| 0 <= i < kept.len() implies respects_limits(
        #[trigger] kept[i],
        config,
    ) && weighed.contains(kept[i]) by {
        assert(pred(kept[i]));
    }
    assert forall|i: int|
        0 <= i < weighed.len() && respects_limits(#[trigger] weighed[i], config) implies kept.contains(
        weighed[i],
    ) by {
        assert(pred(weighed[i]));
    }
    if kept.len() > 0 {
        first_kept_is_first(weighed, pred);
    }
    if may_branch(before, config) {
        assert(weighed == offered);
        if kept.len() == 0 {
            assert forall|i: int| 0 <= i < offered.len() implies !respects_limits(
                #[trigger] offered[i],
                config,
            ) by {
                if respects_limits(offered[i], config) {
                    assert(kept.contains(weighed[i]));
                }
            }
        } else {
            assert(respects_limits(kept[0], config));
            let i = choose|i: int| 0 <= i < weighed.len() && weighed[i] == kept[0];
            assert(respects_limits(offered[i], config));
        }
    }
    match choice {
        EdgeChoice::Draw { draw, kept: refs } => {
            assert forall|i: int|
                0 <= i < offered.len() && respects_limits(
                    #[trigger] offered[i],
                    config,
                ) implies exists|p: int| 0 <= p < refs@.len() && *(#[trigger] refs@[p])
                == offered[i] by {
                assert(kept.contains(weighed[i]));
                let p = choose|p: int| 0 <= p < kept.len() && kept[p] == weighed[i];
                assert(*refs@[p] == offered[i]);
            }
        },
        _ => {},
    }
}

/// The branches that are kept of a list are those of it that respect every limit.
pub proof fn kept_branches_respect_the_limits(
    list: Seq<BasisMotionGraphBranch>,
    config: BasisGraphPlaybackConfig,
)
    ensures
        ({
            let kept = list.filter(crate::basis_graph_steps::within_limits(config));
            &&& forall|i: int|
                0 <= i < kept.len() ==> respects_limits(#[trigger] kept[i], config)
                    && list.contains(kept[i])
            &&& forall|i: int|
                0 <= i < list.len() && respects_limits(#[trigger] list[i], config) ==> kept.contains(
                    list[i],
                )
            &&& kept.len() > 0 ==> exists|i: int|
                0 <= i < list.len() && kept[0] == #[trigger] list[i] && forall|j: int|
                    0 <= j < i ==> !respects_limits(#[trigger] list[j], config)
        }),
{
    let pred = crate::basis_graph_steps::within_limits(config);
    let kept = list.filter(pred);
    kept_are_weighed(list, pred);
    assert forall|i: int| 0 <= i < kept.len() implies respects_limits(#[trigger] kept[i], config)
        && list.contains(kept[i]) by {
        assert(pred(kept[i]));
    }
    assert forall|i: int|
        0 <= i < list.len() && respects_limits(#[trigger] list[i], config) implies kept.contains(
        list[i],
    ) by {
        assert(pred(list[i]));
    }
    if kept.len() > 0 {
        first_kept_is_first(list, pred);
        let i = choose|i: int|
            0 <= i < list.len() && kept[0] == #[trigger] list[i] && forall|j: int|
                0 <= j < i ==> !pred(#[trigger] list[j]);
        assert forall|j: int| 0 <= j < i implies !respects_limits(#[trigger] list[j], config) by {
            assert(!pred(list[j]));
        }
        assert(kept[0] == list[i]);
    }
}

/// A node offers what was set for it, and only without that what the graph lists for it, by rank.
pub proof fn set_branches_are_offered(
    graph: BasisMotionGraph,
    overrides: BasisGraphBranchOverrides,
    basis_id: usize,
    segment: usize,
)
    ensures
        ({
            let offered = crate::basis_graph_steps::offered_branches(
                graph,
                Some(&overrides),
                basis_id,
                segment,
            );
            let plain = crate::basis_graph_steps::offered_branches(graph, None, basis_id, segment);
            &&& overrides.node(basis_id, segment) is Some ==> offered == overrides.node(
                basis_id,
                segment,
            )->0
            &&& overrides.node(basis_id, segment) is None ==> offered == plain
            &&& graph.lods@.len() == 0 ==> plain.len() == 0
        }),
{
}

proof fn kept_are_weighed(
    list: Seq<BasisMotionGraphBranch>,
    pred: spec_fn(BasisMotionGraphBranch) -> bool,
)
    ensures
        forall|i: int|
            0 <= i < list.filter(pred).len() ==> pred(#[trigger] list.filter(pred)[i])
                && list.contains(list.filter(pred)[i]),
        forall|i: int|
            0 <= i < list.len() && pred(#[trigger] list[i]) ==> list.filter(pred).contains(list[i]),
    decreases list.len(),
{
    reveal(Seq::filter);
    if list.len() > 0 {
        let front = list.drop_last();
        let kept = list.filter(pred);
        let before = front.filter(pred);
        kept_are_weighed(front, pred);
        assert forall|i: int| 0 <= i < kept.len() implies pred(#[trigger] kept[i])
            && list.contains(kept[i]) by {
            if i < before.len() {
                assert(kept[i] == before[i]);
                let j = choose|j: int| 0 <= j < front.len() && front[j] == before[i];
                assert(list[j] == kept[i]);
            } else {
                assert(kept[i] == list.last());
            }
        }
        assert forall|i: int| 0 <= i < list.len() && pred(#[trigger] list[i]) implies kept.contains(
            list[i],
        ) by {
            if i < front.len() {
                assert(front[i] == list[i]);
                assert(before.contains(front[i]));
                let j = choose|j: int| 0 <= j < before.len() && before[j] == front[i];
                assert(kept[j] == list[i]);
            } else {
                assert(kept[kept.len() - 1] == list[i]);
            }
        }
    }
}

proof fn first_kept_is_first(
    list: Seq<BasisMotionGraphBranch>,
    pred: spec_fn(BasisMotionGraphBranch) -> bool,
)
    requires
        list.filter(pred).len() > 0,
    ensures
        exists|i: int|
            0 <= i < list.len() && list.filter(pred)[0] == #[trigger] list[i] && forall|j: int|
                0 <= j < i ==> !pred(#[trigger] list[j]),
    decreases list.len(),
{
    reveal(Seq::filter);
    if list.len() > 0 {
        let front = list.drop_last();
        if front.filter(pred).len() > 0 {
            first_kept_is_first(front, pred);
            let i = choose|i: int|
                0 <= i < front.len() && front.filter(pred)[0] == #[trigger] front[i] && forall|j: int|
                    0 <= j < i ==> !pred(#[trigger] front[j]);
            assert forall|j: int| 0 <= j < i implies !pred(#[trigger] list[j]) by {
                assert(front[j] == list[j]);
            }
            assert(list.filter(pred)[0] == list[i]);
        } else {
            kept_are_weighed(front, pred);
            let i = list.len() - 1;
            assert forall|j: int| 0 <= j < i implies !pred(#[trigger] list[j]) by {
                if pred(list[j]) {
                    assert(front[j] == list[j]);
                    assert(front.filter(pred).contains(front[j]));
                }
            }
            assert(list.filter(pred)[0] == list[i]);
        }
    }
}

/// How many of the first `n` branches are above a limit.
pub open spec fn count_above(
    branches: Seq<BasisMotionGraphBranch>,
    cost: spec_fn(BasisMotionGraphBranch) -> u32,
    enabled: bool,
    limit: u32,
    n: nat,
) -> nat
    decreases n,
{
    if n == 0 {
        0
    } else {
        count_above(branches, cost, enabled, limit, (n - 1) as nat) + if above(
            enabled,
            limit,
            cost(branches[n - 1]),
        ) {
            1nat
        } else {
            0nat
        }
    }
}

proof fn filter_counts(
    branches: Seq<BasisMotionGraphBranch>,
    pred: spec_fn(BasisMotionGraphBranch) -> bool,
    cost: spec_fn(BasisMotionGraphBranch) -> u32,
    enabled: bool,
    limit: u32,
    n: nat,
)
    requires
        n <= branches.len(),
        forall|b: BasisMotionGraphBranch| #[trigger] pred(b) == above(enabled, limit, cost(b)),
    ensures
        branches.take(n as int).filter(pred).len() == count_above(branches, cost, enabled, limit, n),
    decreases n,
{
    reveal(Seq::filter);
    if n > 0 {
        filter_counts(branches, pred, cost, enabled, limit, (n - 1) as nat);
        assert(branches.take(n as int).drop_last() =~= branches.take(n - 1));
        assert(pred(branches[n - 1]) == above(enabled, limit, cost(branches[n - 1])));
    } else {
        assert(branches.take(0) =~= Seq::empty());
    }
}

/// The branches that are rejected are counted, each limit by its own cost: where playback may
/// branch, among the branches that the node offers; else there are none. Nothing else of a state
/// changes but its random numbers.
pub proof fn rejected_branches_are_counted(
    before: BasisGraphPlaybackState,
    after: BasisGraphPlaybackState,
    choice: EdgeChoice<'_>,
    graph: BasisMotionGraph,
    overrides: Option<&BasisGraphBranchOverrides>,
    config: BasisGraphPlaybackConfig,
)
    requires
        chosen(before, after, choice, graph, overrides, config),
        crate::basis_graph_steps::offered_branches(
            graph,
            overrides,
            before.active_basis_id,
            before.segment,
        ).len() <= usize::MAX,
    ensures
        ({
            let offered = if may_branch(before, config) {
                crate::basis_graph_steps::offered_branches(
                    graph,
                    overrides,
                    before.active_basis_id,
                    before.segment,
                )
            } else {
                Seq::empty()
            };
            let n = offered.len();
            &&& after.rejected_branch_score_count == count_above(
                offered,
                |b: BasisMotionGraphBranch| b.score,
                config.max_branch_score_enabled,
                config.max_branch_score,
                n,
            )
            &&& after.rejected_branch_position_count == count_above(
                offered,
                |b: BasisMotionGraphBranch| b.position_cost,
                config.max_position_cost_enabled,
                config.max_position_cost,
                n,
            )
            &&& after.rejected_branch_velocity_count == count_above(
                offered,
                |b: BasisMotionGraphBranch| b.velocity_cost,
                config.max_velocity_cost_enabled,
                config.max_velocity_cost,
                n,
            )
            &&& after.rejected_branch_acceleration_count == count_above(
                offered,
                |b: BasisMotionGraphBranch| b.acceleration_cost,
                config.max_acceleration_cost_enabled,
                config.max_acceleration_cost,
                n,
            )
            &&& after.rejected_branch_count + offered.filter(
                |b: BasisMotionGraphBranch| respects_limits(b, config),
            ).len() == n
            &&& after.active_basis_id == before.active_basis_id
            &&& after.segment == before.segment
            &&& after.segment_phase == before.segment_phase
            &&& after.blend_active == before.blend_active
            &&& after.blend_phase == before.blend_phase
            &&& after.blend_weight == before.blend_weight
            &&& after.transition_active == before.transition_active
            &&& after.transition == before.transition
            &&& after.segments_since_branch == before.segments_since_branch
            &&& after.last_edge == before.last_edge
            &&& after.region_id == before.region_id
            &&& after.original_basis_id == before.original_basis_id
        }),
{
    let offered = crate::basis_graph_steps::weighed_branches(before, graph, overrides, config);
    let n = offered.len();
    assert(offered.take(n as int) =~= offered);
    filter_counts(
        offered,
        crate::basis_graph_steps::beyond_score(config),
        |b: BasisMotionGraphBranch| b.score,
        config.max_branch_score_enabled,
        config.max_branch_score,
        n,
    );
    filter_counts(
        offered,
        crate::basis_graph_steps::beyond_position(config),
        |b: BasisMotionGraphBranch| b.position_cost,
        config.max_position_cost_enabled,
        config.max_position_cost,
        n,
    );
    filter_counts(
        offered,
        crate::basis_graph_steps::beyond_velocity(config),
        |b: BasisMotionGraphBranch| b.velocity_cost,
        config.max_velocity_cost_enabled,
        config.max_velocity_cost,
        n,
    );
    filter_counts(
        offered,
        crate::basis_graph_steps::beyond_acceleration(config),
        |b: BasisMotionGraphBranch| b.acceleration_cost,
        config.max_acceleration_cost_enabled,
        config.max_acceleration_cost,
        n,
    );
    offered.lemma_filter_len(crate::basis_graph_steps::beyond_limits(config));
    offered.lemma_filter_len(crate::basis_graph_steps::beyond_score(config));
    offered.lemma_filter_len(crate::basis_graph_steps::beyond_position(config));
    offered.lemma_filter_len(crate::basis_graph_steps::beyond_velocity(config));
    offered.lemma_filter_len(crate::basis_graph_steps::beyond_acceleration(config));
    kept_and_rejected_are_all(
        offered,
        crate::basis_graph_steps::beyond_limits(config),
        |b: BasisMotionGraphBranch| respects_limits(b, config),
    );
}

proof fn kept_and_rejected_are_all(
    list: Seq<BasisMotionGraphBranch>,
    out: spec_fn(BasisMotionGraphBranch) -> bool,
    kept: spec_fn(BasisMotionGraphBranch) -> bool,
)
    requires
        forall|b: BasisMotionGraphBranch| #[trigger] out(b) == !kept(b),
    ensures
        list.filter(out).len() + list.filter(kept).len() == list.len(),
    decreases list.len(),
{
    reveal(Seq::filter);
    if list.len() > 0 {
        kept_and_rejected_are_all(list.drop_last(), out, kept);
        assert(out(list.last()) == !kept(list.last()));
    }
}

/// Going on without a branch plays the next segment of the same basis, round the loop, and counts it.
pub proof fn going_on_plays_the_next_segment(
    state: BasisGraphPlaybackState,
    delta: [u32; 3],
    knot_count: usize,
    basis_count: usize,
    config: BasisGraphPlaybackConfig,
)
    requires
        state.segment < knot_count,
    ensures
        ({
            let after = crate::basis_graph_steps::after_edge(
                state,
                None,
                delta,
                knot_count,
                basis_count,
                config,
                state.transition,
            );
            &&& after.active_basis_id == state.active_basis_id
            &&& state.segment + 1 < knot_count ==> after.segment == state.segment + 1
            &&& state.segment + 1 == knot_count ==> after.segment == 0
            &&& state.segments_since_branch < u32::MAX ==> after.segments_since_branch
                == state.segments_since_branch + 1
            &&& after.segments_since_branch >= state.segments_since_branch
            &&& after.last_edge is Continue
            &&& after.blend_active == state.blend_active
            &&& after.blend_phase == state.blend_phase
            &&& after.blend_weight == state.blend_weight
            &&& after.blend_from_basis_id == state.blend_from_basis_id
            &&& after.blend_from_segment == state.blend_from_segment
            &&& after.segment_phase == state.segment_phase
            &&& after.transition_active == state.transition_active
            &&& after.transition == state.transition
            &&& after.rng == state.rng
        }),
{
    if state.segment + 1 < knot_count {
        vstd::arithmetic::div_mod::lemma_small_mod((state.segment + 1) as nat, knot_count as nat);
    } else {
        vstd::arithmetic::div_mod::lemma_mod_self_0(knot_count as int);
    }
}

/// A branch without a curve is a jump: the target is played at once, and blended from the segment
/// that would have come, unless blends take no time. The branch is remembered, and the count of
/// segments starts over.
pub proof fn branches_without_a_curve_jump(
    state: BasisGraphPlaybackState,
    branch: BasisMotionGraphBranch,
    delta: [u32; 3],
    knot_count: usize,
    basis_count: usize,
    config: BasisGraphPlaybackConfig,
    entered: Option<BasisMotionGraphTransition>,
)
    requires
        state.segment < knot_count,
        branch.to_basis < basis_count,
        branch.transition is None,
        crate::basis_graph_steps::enters(state, Some(&branch), basis_count, entered),
    ensures
        ({
            let after = crate::basis_graph_steps::after_edge(
                state,
                Some(&branch),
                delta,
                knot_count,
                basis_count,
                config,
                entered,
            );
            let timed = crate::float_bits::less(0, config.blend_duration);
            &&& after.active_basis_id == branch.to_basis
            &&& after.segment == branch.to_segment
            &&& after.blend_from_basis_id == state.active_basis_id
            &&& state.segment + 1 < knot_count ==> after.blend_from_segment == state.segment + 1
            &&& state.segment + 1 == knot_count ==> after.blend_from_segment == 0
            &&& after.blend_active == timed
            &&& after.blend_phase == 0
            &&& timed ==> after.blend_weight == 0
            &&& !timed && !crate::float_bits::nan(config.blend_duration) ==> after.blend_weight
                == 0x3f80_0000
            &&& after.transition_active == state.transition_active
            &&& after.transition == state.transition
            &&& after.segments_since_branch == 0
            &&& after.last_edge matches BasisGraphLastEdge::Branch {
                rank,
                to_basis_id,
                to_segment,
            } && rank == branch.rank && to_basis_id == branch.to_basis && to_segment
                == branch.to_segment
        }),
{
    if state.segment + 1 < knot_count {
        vstd::arithmetic::div_mod::lemma_small_mod((state.segment + 1) as nat, knot_count as nat);
    } else {
        vstd::arithmetic::div_mod::lemma_mod_self_0(knot_count as int);
    }
}

/// A branch with a curve is followed: the state keeps playing what it played while it is on the
/// curve, which starts at the given place and is the one of the branch; at its end it plays the
/// target of the branch from the start of its segment, with nothing left to blend.
pub proof fn branches_with_a_curve_are_followed(
    state: BasisGraphPlaybackState,
    branch: BasisMotionGraphBranch,
    delta: [u32; 3],
    end_delta: [u32; 3],
    knot_count: usize,
    basis_count: usize,
    config: BasisGraphPlaybackConfig,
    entered: Option<BasisMotionGraphTransition>,
)
    requires
        branch.to_basis < basis_count,
        branch.transition is Some,
        crate::basis_graph_steps::enters(state, Some(&branch), basis_count, entered),
    ensures
        ({
            let on = crate::basis_graph_steps::after_edge(
                state,
                Some(&branch),
                delta,
                knot_count,
                basis_count,
                config,
                entered,
            );
            let end = crate::basis_graph_steps::after_transition(on, end_delta);
            let curve = branch.transition->0;
            &&& on.transition_active
            &&& on.transition is Some
            &&& (on.transition->0).knots@ == curve.knots@
            &&& (on.transition->0).duration_segments == curve.duration_segments
            &&& (on.transition->0).start_tangent == curve.start_tangent
            &&& (on.transition->0).end_tangent == curve.end_tangent
            &&& on.transition_phase_segments == 0
            &&& on.transition_delta == delta
            &&& on.active_basis_id == state.active_basis_id
            &&& on.segment == state.segment
            &&& !on.blend_active
            &&& on.segments_since_branch == 0
            &&& on.last_edge matches BasisGraphLastEdge::Branch {
                rank,
                to_basis_id,
                to_segment,
            } && rank == branch.rank && to_basis_id == branch.to_basis && to_segment
                == branch.to_segment
            &&& !end.transition_active
            &&& end.transition is None
            &&& end.active_basis_id == branch.to_basis
            &&& end.segment == branch.to_segment
            &&& end.segment_phase == 0
            &&& end.transition_delta == end_delta
            &&& end.transition_phase_segments == on.transition_duration_segments
            &&& !end.blend_active
            &&& end.blend_phase == 0x3f80_0000
            &&& end.blend_weight == 0x3f80_0000
            &&& end.last_edge == on.last_edge
            &&& end.segments_since_branch == 0
        }),
{
}

/// The length of a curve is its number of segments as a number: for small numbers the pattern of
/// `1.0`, `2.0` and so on, growing with the number of segments.
pub proof fn curves_last_their_segments(
    state: BasisGraphPlaybackState,
    branch: BasisMotionGraphBranch,
    delta: [u32; 3],
    knot_count: usize,
    basis_count: usize,
    config: BasisGraphPlaybackConfig,
    entered: Option<BasisMotionGraphTransition>,
)
    requires
        branch.to_basis < basis_count,
        branch.transition matches Some(curve) && 1 <= curve.duration_segments < 0x100_0000,
    ensures
        ({
            let on = crate::basis_graph_steps::after_edge(
                state,
                Some(&branch),
                delta,
                knot_count,
                basis_count,
                config,
                entered,
            );
            crate::float_bits::whole_part(on.transition_duration_segments)
                == (branch.transition->0).duration_segments
        }),
{
    let n = (branch.transition->0).duration_segments as nat;
    crate::float_bits::small_integers_are_kept(n);
}

/// A branch to a basis that does not exist changes nothing but what is remembered.
pub proof fn branches_out_of_the_bank_are_refused(
    state: BasisGraphPlaybackState,
    branch: BasisMotionGraphBranch,
    delta: [u32; 3],
    knot_count: usize,
    basis_count: usize,
    config: BasisGraphPlaybackConfig,
    entered: Option<BasisMotionGraphTransition>,
)
    requires
        branch.to_basis >= basis_count,
    ensures
        ({
            let after = crate::basis_graph_steps::after_edge(
                state,
                Some(&branch),
                delta,
                knot_count,
                basis_count,
                config,
                entered,
            );
            &&& after.last_edge is Continue
            &&& after == BasisGraphPlaybackState { last_edge: after.last_edge, ..state }
        }),
{
}

/// A blend ends where its time is over: then, as without a blend, the weight is 1. Until then it has
/// the phase and weight of the sample. A blend never starts here, and what is played stays.
pub proof fn blends_end_with_weight_one(
    state: BasisGraphPlaybackState,
    config: BasisGraphPlaybackConfig,
    sample: BlendSample,
)
    ensures
        ({
            let after = crate::basis_graph_steps::blended(state, config, sample);
            let over = crate::float_bits::less_or_same(0x3f80_0000, sample.phase)
                || crate::float_bits::less_or_same(config.blend_duration, 0);
            &&& after.blend_active == (state.blend_active && !over)
            &&& !after.blend_active ==> after.blend_weight == 0x3f80_0000
            &&& after.blend_active ==> after.blend_weight == sample.weight && after.blend_phase
                == sample.phase
            &&& !state.blend_active ==> after.blend_phase == 0x3f80_0000
            &&& after.active_basis_id == state.active_basis_id
            &&& after.segment == state.segment
            &&& after.segment_phase == state.segment_phase
            &&& after.blend_from_basis_id == state.blend_from_basis_id
            &&& after.blend_from_segment == state.blend_from_segment
            &&& after.transition_active == state.transition_active
            &&& after.transition == state.transition
            &&& after.transition_delta == state.transition_delta
            &&& after.segments_since_branch == state.segments_since_branch
            &&& after.last_edge == state.last_edge
            &&& after.rng == state.rng
        }),
{
}

/// A move goes as far as the distance: it stays within the transition, or the segment, where the
/// distance is shorter than what is left of it, and reaches its end otherwise. Nothing moves
/// without a distance.
pub proof fn moves_use_up_the_distance(
    in_transition: bool,
    distance: u32,
    to_boundary: u32,
    remaining: u32,
)
    requires
        !crate::float_bits::nan(distance),
        !crate::float_bits::nan(to_boundary),
        !crate::float_bits::nan(remaining),
    ensures
        ({
            let r = crate::basis_graph_steps::move_of(
                in_transition,
                distance,
                to_boundary,
                remaining,
            );
            let left = if in_transition {
                remaining
            } else {
                to_boundary
            };
            &&& r is Stop <==> crate::float_bits::less_or_same(distance, 0)
            &&& r is WithinTransition || r is FinishTransition ==> in_transition
            &&& r is WithinSegment || r is CrossBoundary ==> !in_transition
            &&& r is WithinTransition || r is WithinSegment ==> crate::float_bits::less(
                distance,
                left,
            )
            &&& r is FinishTransition || r is CrossBoundary ==> crate::float_bits::less_or_same(
                left,
                distance,
            )
        }),
{
}

/// The draw picks the first branch whose weight covers what is left of it, or the last.
pub proof fn draws_pick_the_first_that_covers(left: Seq<u32>, weights: Seq<u32>)
    requires
        weights.len() > 0,
        left.len() == weights.len(),
    ensures
        ({
            let r = crate::basis_graph_steps::picked(left, weights, 0);
            &&& 0 <= r < weights.len()
            &&& r + 1 < weights.len() ==> crate::float_bits::less_or_same(left[r], weights[r])
            &&& forall|i: int|
                0 <= i < r ==> !crate::float_bits::less_or_same(#[trigger] left[i], weights[i])
        }),
{
    picked_from(left, weights, 0);
}

proof fn picked_from(left: Seq<u32>, weights: Seq<u32>, from: nat)
    requires
        weights.len() > 0,
        left.len() == weights.len(),
        from <= weights.len(),
    ensures
        ({
            let r = crate::basis_graph_steps::picked(left, weights, from);
            &&& 0 <= r < weights.len()
            &&& r >= from || r == weights.len() - 1
            &&& r + 1 < weights.len() ==> crate::float_bits::less_or_same(left[r], weights[r])
            &&& forall|i: int|
                from <= i < r ==> !crate::float_bits::less_or_same(#[trigger] left[i], weights[i])
        }),
    decreases weights.len() - from,
{
    if from < weights.len() && !crate::float_bits::less_or_same(
        left[from as int],
        weights[from as int],
    ) {
        picked_from(left, weights, from + 1);
    }
}

/// What `transition_span` gives for a whole number of segments.
pub open spec fn span_at(
    transition: BasisMotionGraphTransition,
    whole_segments: int,
) -> TransitionSpan {
    TransitionSpan {
        start: transition.knots@[whole_segments],
        end: transition.knots@[whole_segments + 1],
        start_tangent: crate::basis_graph_steps::tangent_of(transition, whole_segments),
        end_tangent: crate::basis_graph_steps::tangent_of(transition, whole_segments + 1),
    }
}

/// A curve leaves its first knot along the given start tangent and reaches its last along the given
/// end tangent; in between, the tangent at a knot comes from the knots beside it, and is the same
/// for the spans on both sides, which meet in the knot.
pub proof fn spans_meet_in_their_knots(transition: BasisMotionGraphTransition, k: int)
    requires
        0 <= k,
        k + 1 < transition.knots@.len(),
    ensures
        span_at(transition, k).start == transition.knots@[k],
        span_at(transition, k).end == transition.knots@[k + 1],
        k == 0 ==> (span_at(transition, k).start_tangent matches TransitionTangent::Given { tangent }
            && tangent == transition.start_tangent),
        k + 2 == transition.knots@.len() ==> (span_at(transition, k).end_tangent
            matches TransitionTangent::Given { tangent } && tangent == transition.end_tangent),
        k + 2 < transition.knots@.len() ==> {
            &&& span_at(transition, k).end == span_at(transition, k + 1).start
            &&& span_at(transition, k).end_tangent == span_at(transition, k + 1).start_tangent
            &&& span_at(transition, k).end_tangent matches TransitionTangent::Central {
                before,
                after,
            } && before == transition.knots@[k] && after == transition.knots@[k + 2]
        },
{
}

} // verus!
