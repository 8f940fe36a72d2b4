//! Laws of motion graphs: what is accepted, why something is not, and what authoring reads of them.

use crate::basis_bank_motion::BasisBankMotionMeta;
use crate::basis_graph_authoring::{
    BasisGraphAuthoringRefreshSummary, BasisGraphNodeKey, NodeCandidates,
};
use crate::basis_motion_graph::{
    BasisMotionGraph, BasisMotionGraphBranch, BasisMotionGraphTransition, BranchError, GraphError,
    TransitionError,
};
use vstd::prelude::*;

verus! {

/// The three numbers of a point are finite.
pub open spec fn finite_point(p: [u32; 3]) -> bool {
    &&& crate::float_bits::finite(p[0])
    &&& crate::float_bits::finite(p[1])
    &&& crate::float_bits::finite(p[2])
}

/// A curve is accepted where it is an open Catmull-Rom curve of at least one segment, with one knot
/// more than segments and finite numbers. The error says what is wrong.
pub proof fn curves_are_accepted_where_all_holds(t: BasisMotionGraphTransition)
    ensures
        crate::basis_motion_graph::transition_error(t) is None <==> {
            &&& t.kind@ == "open_catmull_rom"@
            &&& t.duration_segments >= 1
            &&& t.knots@.len() == t.duration_segments + 1
            &&& forall|i: int| 0 <= i < t.knots@.len() ==> finite_point(#[trigger] t.knots@[i])
            &&& finite_point(t.start_tangent)
            &&& finite_point(t.end_tangent)
        },
        crate::basis_motion_graph::transition_error(t) matches Some(error) ==> match error {
            TransitionError::Kind { kind } => kind == t.kind && kind@ != "open_catmull_rom"@,
            TransitionError::NoDuration => t.duration_segments == 0,
            TransitionError::KnotCount { found, expected } => {
                &&& found == t.knots@.len() as usize
                &&& t.knots@.len() != t.duration_segments + 1
                &&& t.duration_segments < usize::MAX ==> expected == t.duration_segments + 1
            },
            TransitionError::NonFinite => t.knots@.len() == t.duration_segments + 1,
        },
{
    assert forall|p: [u32; 3]| #[trigger] finite_point(p) == crate::basis_motion_graph::finite3(
        p,
    ) by {}
    if crate::basis_motion_graph::transition_finite(t) {
        assert forall|i: int| 0 <= i < t.knots@.len() implies finite_point(
            #[trigger] t.knots@[i],
        ) by {
            assert(crate::basis_motion_graph::finite3(t.knots@[i]));
        }
    } else if forall|i: int| 0 <= i < t.knots@.len() ==> finite_point(#[trigger] t.knots@[i]) {
        assert forall|i: int| 0 <= i < t.knots@.len() implies crate::basis_motion_graph::finite3(
            #[trigger] t.knots@[i],
        ) by {
            assert(finite_point(t.knots@[i]));
        }
        assert(!finite_point(t.start_tangent) || !finite_point(t.end_tangent));
    }
}

/// A branch is accepted where it leads from a segment of one basis to a segment of another, has a
/// rank below the limit and, from version 2 on, a curve that is accepted. The error says what is
/// wrong, with the numbers at fault.
pub proof fn branches_are_accepted_where_all_holds(
    branch: BasisMotionGraphBranch,
    format_version: u32,
    basis_count: usize,
    knot_count: usize,
    branch_top_k: usize,
)
    ensures
        ({
            let error = crate::basis_motion_graph::branch_error(
                branch,
                format_version,
                basis_count,
                knot_count,
                branch_top_k,
            );
            &&& error is None <==> {
                &&& branch.from_basis < basis_count
                &&& branch.to_basis < basis_count
                &&& branch.from_segment < knot_count
                &&& branch.to_segment < knot_count
                &&& branch.from_basis != branch.to_basis
                &&& branch.rank < branch_top_k
                &&& format_version >= 2 ==> branch.transition is Some
                &&& format_version >= 2 ==> crate::basis_motion_graph::transition_error(
                    branch.transition->0,
                ) is None
            }
            &&& error matches Some(e) ==> match e {
                BranchError::Basis { from, to, basis_count: count } => {
                    &&& from == branch.from_basis
                    &&& to == branch.to_basis
                    &&& count == basis_count
                    &&& from >= count || to >= count
                },
                BranchError::Segment { from, to, knot_count: count } => {
                    &&& from == branch.from_segment
                    &&& to == branch.to_segment
                    &&& count == knot_count
                    &&& from >= count || to >= count
                },
                BranchError::SameBasis { basis } => basis == branch.from_basis && basis
                    == branch.to_basis,
                BranchError::Rank { rank, branch_top_k: limit } => rank == branch.rank && limit
                    == branch_top_k && rank >= limit,
                BranchError::TransitionMissing {
                    from_basis,
                    from_segment,
                    to_basis,
                    to_segment,
                } => {
                    &&& from_basis == branch.from_basis
                    &&& from_segment == branch.from_segment
                    &&& to_basis == branch.to_basis
                    &&& to_segment == branch.to_segment
                    &&& branch.transition is None
                    &&& format_version >= 2
                },
                BranchError::Transition { error: inner } => {
                    &&& branch.transition is Some
                    &&& format_version >= 2
                    &&& crate::basis_motion_graph::transition_error(branch.transition->0) == Some(
                        inner,
                    )
                },
            }
        }),
{
}

/// A graph is accepted where it is of a known version, shared from LoD 0, made of basis segments and
/// not empty in any dimension. The error says what is wrong, with what was found.
pub proof fn graphs_are_accepted_where_all_holds(graph: BasisMotionGraph)
    ensures
        crate::basis_motion_graph::graph_error(graph) is None <==> {
            &&& graph.format@ == "basis_motion_graph"@
            &&& graph.format_version == 1 || graph.format_version == 2
            &&& graph.basis_scope@ == "shared_lod0"@
            &&& graph.basis_source_lod == Some(0usize)
            &&& graph.node_unit@ == "basis_segment"@
            &&& graph.basis_count >= 1
            &&& graph.knot_count >= 1
            &&& graph.branch_top_k >= 1
        },
        crate::basis_motion_graph::graph_error(graph) matches Some(error) ==> match error {
            GraphError::Format { format } => format == graph.format && format@
                != "basis_motion_graph"@,
            GraphError::Version { version } => version == graph.format_version && version != 1
                && version != 2,
            GraphError::Scope { scope } => scope == graph.basis_scope && scope@ != "shared_lod0"@,
            GraphError::SourceLod { lod } => lod == graph.basis_source_lod && lod != Some(0usize),
            GraphError::NodeUnit { unit } => unit == graph.node_unit && unit@ != "basis_segment"@,
            GraphError::Dimensions { basis_count, knot_count, branch_top_k } => {
                &&& basis_count == graph.basis_count
                &&& knot_count == graph.knot_count
                &&& branch_top_k == graph.branch_top_k
                &&& basis_count == 0 || knot_count == 0 || branch_top_k == 0
            },
            _ => false,
        },
{
}

proof fn the_first_bad_branch_is_found(
    graph: BasisMotionGraph,
    branches: Seq<BasisMotionGraphBranch>,
    from: nat,
)
    requires
        from <= branches.len(),
    ensures
        match crate::basis_motion_graph::first_bad_branch(graph, branches, from) {
            Some((at, error)) => {
                &&& from <= at < branches.len()
                &&& error_of(graph, branches[at]) == Some(error)
                &&& forall|i: int| from <= i < at ==> error_of(graph, #[trigger] branches[i]) is None
            },
            None => forall|i: int|
                from <= i < branches.len() ==> error_of(graph, #[trigger] branches[i]) is None,
        },
    decreases branches.len() - from,
{
    if from < branches.len() && error_of(graph, branches[from as int]) is None {
        the_first_bad_branch_is_found(graph, branches, from + 1);
    }
}

/// What is wrong with a branch of a graph.
pub open spec fn error_of(graph: BasisMotionGraph, branch: BasisMotionGraphBranch) -> Option<
    BranchError,
> {
    crate::basis_motion_graph::branch_error(
        branch,
        graph.format_version,
        graph.basis_count,
        graph.knot_count,
        graph.branch_top_k,
    )
}

/// A graph fits a bank where both list the same LoDs and have as many bases and knots, and the graph
/// has the branches of LoD 0 alone, all of them accepted. The error says what is wrong; of the
/// branches it is about the first that is not accepted.
pub proof fn graphs_fit_their_bank_where_all_holds(
    graph: BasisMotionGraph,
    meta: BasisBankMotionMeta,
)
    requires
        graph.lods@.len() >= 1 ==> graph.lods@[0].branches@.len() <= usize::MAX,
    ensures
        crate::basis_motion_graph::bank_error(graph, meta) is None <==> {
            &&& graph.include_lods@ == meta.include_lods@
            &&& graph.basis_count == meta.basis_count
            &&& graph.knot_count == meta.exported_knot_count
            &&& graph.lods@.len() == 1
            &&& graph.lods@[0].lod_id == 0
            &&& forall|i: int|
                0 <= i < graph.lods@[0].branches@.len() ==> error_of(
                    graph,
                    #[trigger] graph.lods@[0].branches@[i],
                ) is None
        },
        crate::basis_motion_graph::bank_error(graph, meta) matches Some(error) ==> match error {
            GraphError::IncludeLods { graph: found, bank } => found@ == graph.include_lods@ && bank@
                == meta.include_lods@ && found@ != bank@,
            GraphError::BasisCount { graph: found, bank } => found == graph.basis_count && bank
                == meta.basis_count && found != bank,
            GraphError::KnotCount { graph: found, bank } => found == graph.knot_count && bank
                == meta.exported_knot_count && found != bank,
            GraphError::LodCount => graph.lods@.len() != 1,
            GraphError::Lod { lod } => graph.lods@.len() == 1 && lod == graph.lods@[0].lod_id && lod
                != 0,
            GraphError::Branch { index, error: inner } => {
                &&& index < graph.lods@[0].branches@.len()
                &&& error_of(graph, graph.lods@[0].branches@[index as int]) == Some(inner)
                &&& forall|i: int|
                    0 <= i < index ==> error_of(graph, #[trigger] graph.lods@[0].branches@[i])
                        is None
            },
            _ => false,
        },
{
    if graph.lods@.len() >= 1 {
        the_first_bad_branch_is_found(graph, graph.lods@[0].branches@, 0);
    }
}

/// The branches that leave a node come by rank, those of one rank as the graph lists them, and none
/// that leaves it is missing.
pub proof fn branches_come_by_rank(
    branches: Seq<BasisMotionGraphBranch>,
    basis_id: usize,
    segment: usize,
    order: Seq<usize>,
)
    requires
        branches.len() <= usize::MAX,
        crate::basis_motion_graph::is_branch_order(
            branches,
            branches.len() as int,
            basis_id,
            segment,
            order,
        ),
    ensures
        forall|p: int|
            0 <= p < order.len() ==> (#[trigger] order[p]) < branches.len()
                && branches[order[p] as int].from_basis == basis_id
                && branches[order[p] as int].from_segment == segment,
        forall|p: int, q: int|
            0 <= p < q < order.len() ==> {
                let a = #[trigger] order[p];
                let b = #[trigger] order[q];
                &&& branches[a as int].rank <= branches[b as int].rank
                &&& branches[a as int].rank == branches[b as int].rank ==> a < b
            },
        forall|i: int|
            0 <= i < branches.len() && (#[trigger] branches[i]).from_basis == basis_id
                && branches[i].from_segment == segment ==> exists|p: int|
                0 <= p < order.len() && #[trigger] order[p] == i,
{
    assert forall|i: int|
        0 <= i < branches.len() && (#[trigger] branches[i]).from_basis == basis_id
            && branches[i].from_segment == segment implies exists|p: int|
        0 <= p < order.len() && #[trigger] order[p] == i by {
        assert(crate::basis_motion_graph::leaves_node(branches[i], basis_id, segment));
        assert(order.contains(i as usize));
        let p = choose|p: int| 0 <= p < order.len() && order[p] == i as usize;
        assert(order[p] == i);
    }
}

/// Graphs play the segments between the source knots; those of the closure too where a branch of
/// LoD 0 leaves from or leads to one.
pub proof fn segments_of_the_closure_count_where_used(
    graph: BasisMotionGraph,
    meta: BasisBankMotionMeta,
)
    requires
        1 <= meta.source_knot_count <= meta.exported_knot_count,
    ensures
        ({
            let used = graph.lods@.len() > 0 && exists|i: int|
                0 <= i < graph.lods@[0].branches@.len() && ((
                #[trigger] graph.lods@[0].branches@[i]).from_segment >= meta.source_knot_count
                    || graph.lods@[0].branches@[i].to_segment >= meta.source_knot_count);
            let r = crate::basis_graph_authoring::active_segments(graph, meta);
            &&& used ==> r == meta.exported_knot_count
            &&& !used ==> r == meta.source_knot_count
        }),
{
}

/// There is always a segment to play, and never more than are exported.
pub proof fn there_is_always_a_segment(graph: BasisMotionGraph, meta: BasisBankMotionMeta)
    ensures
        crate::basis_graph_authoring::active_segments(graph, meta) >= 1,
        meta.exported_knot_count >= 1 ==> crate::basis_graph_authoring::active_segments(graph, meta)
            <= meta.exported_knot_count,
        meta.source_knot_count > meta.exported_knot_count && meta.exported_knot_count >= 1
            ==> crate::basis_graph_authoring::active_segments(graph, meta)
            == meta.exported_knot_count,
{
}

proof fn the_first_leaving_is_found(
    branches: Seq<BasisMotionGraphBranch>,
    basis_id: usize,
    segment: usize,
    from: nat,
)
    requires
        from <= branches.len(),
    ensures
        match crate::basis_graph_authoring::first_leaving(branches, basis_id, segment, from) {
            Some(at) => {
                &&& from <= at < branches.len()
                &&& branches[at].from_basis == basis_id
                &&& branches[at].from_segment == segment
                &&& forall|i: int|
                    from <= i < at ==> (#[trigger] branches[i]).from_basis != basis_id
                        || branches[i].from_segment != segment
            },
            None => forall|i: int|
                from <= i < branches.len() ==> (#[trigger] branches[i]).from_basis != basis_id
                    || branches[i].from_segment != segment,
        },
    decreases branches.len() - from,
{
    if from < branches.len() && !(branches[from as int].from_basis == basis_id
        && branches[from as int].from_segment == segment) {
        the_first_leaving_is_found(branches, basis_id, segment, from + 1);
    }
}

/// A curve out of a node takes as long as the first branch that leaves the node in a graph of
/// version 2, and at least one segment; other graphs and nodes without branches have no curves.
pub proof fn curves_take_as_long_as_the_first_branch(
    graph: BasisMotionGraph,
    basis_id: usize,
    segment: usize,
    first: int,
)
    requires
        graph.format_version >= 2,
        graph.lods@.len() > 0,
        0 <= first < graph.lods@[0].branches@.len(),
        graph.lods@[0].branches@[first].from_basis == basis_id,
        graph.lods@[0].branches@[first].from_segment == segment,
        forall|i: int|
            0 <= i < first ==> (#[trigger] graph.lods@[0].branches@[i]).from_basis != basis_id
                || graph.lods@[0].branches@[i].from_segment != segment,
    ensures
        ({
            let duration = crate::basis_graph_authoring::node_transition_duration(
                graph,
                basis_id,
                segment,
            );
            let curve = graph.lods@[0].branches@[first].transition;
            &&& duration is Some
            &&& duration->0 >= 1
            &&& curve is None ==> duration->0 == 1
            &&& curve is Some && (curve->0).duration_segments >= 1 ==> duration->0
                == (curve->0).duration_segments
        }),
{
    the_first_leaving_is_found(graph.lods@[0].branches@, basis_id, segment, 0);
}

/// Graphs of version 1, without branches, or without one that leaves the node, have no curves there.
pub proof fn other_nodes_have_no_curves(graph: BasisMotionGraph, basis_id: usize, segment: usize)
    requires
        graph.format_version < 2 || graph.lods@.len() == 0 || forall|i: int|
            0 <= i < graph.lods@[0].branches@.len() ==> (
            #[trigger] graph.lods@[0].branches@[i]).from_basis != basis_id
                || graph.lods@[0].branches@[i].from_segment != segment,
    ensures
        crate::basis_graph_authoring::node_transition_duration(graph, basis_id, segment) is None,
{
    if graph.lods@.len() > 0 {
        the_first_leaving_is_found(graph.lods@[0].branches@, basis_id, segment, 0);
    }
}

/// A branch may lead to every segment of every other basis, and to nothing else.
pub proof fn targets_are_the_other_bases(n: nat, segments: nat, from_basis: int, b: usize, s: usize)
    requires
        n <= usize::MAX,
        segments <= usize::MAX,
    ensures
        crate::basis_graph_authoring::targets_of(n, segments, from_basis).contains((b, s)) <==> b
            < n && b != from_basis && s < segments,
    decreases n,
{
    if n > 0 {
        let m = (n - 1) as nat;
        targets_are_the_other_bases(m, segments, from_basis, b, s);
        let whole = crate::basis_graph_authoring::targets_of(n, segments, from_basis);
        let front = crate::basis_graph_authoring::targets_of(m, segments, from_basis);
        if m != from_basis {
            let row = Seq::new(segments, |k: int| (m as usize, k as usize));
            assert(whole == front + row);
            if front.contains((b, s)) {
                let i = choose|i: int| 0 <= i < front.len() && front[i] == (b, s);
                assert(whole[i] == (b, s));
            }
            if b == m && s < segments {
                assert(row[s as int] == (b, s));
                assert(whole[front.len() + s] == (b, s));
            }
            if whole.contains((b, s)) {
                let i = choose|i: int| 0 <= i < whole.len() && whole[i] == (b, s);
                if i < front.len() {
                    assert(front[i] == (b, s));
                } else {
                    assert(row[i - front.len()] == (b, s));
                }
            }
        }
    }
}

/// Candidates come by score, the least first; those of one score by the basis and then by the
/// segment they lead to.
pub proof fn candidates_come_by_score(
    candidates: Seq<BasisMotionGraphBranch>,
    order: Seq<usize>,
    p: int,
    q: int,
)
    requires
        crate::basis_graph_authoring::is_preference_order(candidates, order),
        0 <= p < q < order.len(),
    ensures
        ({
            let a = candidates[order[p] as int];
            let b = candidates[order[q] as int];
            &&& !crate::float_bits::less(b.score, a.score)
            &&& a.score == b.score ==> a.to_basis <= b.to_basis
            &&& a.score == b.score && a.to_basis == b.to_basis ==> a.to_segment <= b.to_segment
        }),
{
    let a = candidates[order[p] as int];
    let b = candidates[order[q] as int];
    assert(crate::basis_graph_authoring::preferred(candidates, order[p], order[q]));
    if crate::float_bits::less(b.score, a.score) {
        crate::float_bits::total_order_refines_value_order(b.score, a.score);
    }
}

/// The best target of a node changed where the best of the graph leads elsewhere than the best of
/// now, in its basis or in its segment. A node without branches in the graph has not changed.
pub proof fn changed_targets_lead_elsewhere(
    graph: BasisMotionGraph,
    basis_id: usize,
    segment: usize,
    best: BasisMotionGraphBranch,
    order: Seq<usize>,
)
    requires
        graph.lods@.len() > 0,
        graph.lods@[0].branches@.len() <= usize::MAX,
        crate::basis_motion_graph::is_branch_order(
            graph.lods@[0].branches@,
            graph.lods@[0].branches@.len() as int,
            basis_id,
            segment,
            order,
        ),
    ensures
        order.len() == 0 ==> !crate::basis_graph_authoring::best_target_changed(
            graph,
            basis_id,
            segment,
            best,
        ),
        order.len() > 0 ==> {
            let listed = graph.lods@[0].branches@[order[0] as int];
            crate::basis_graph_authoring::best_target_changed(graph, basis_id, segment, best)
                <==> listed.to_basis != best.to_basis || listed.to_segment != best.to_segment
        },
{
    let branches = graph.lods@[0].branches@;
    assert forall|other: Seq<usize>|
        #[trigger] crate::basis_motion_graph::is_branch_order(
            branches,
            branches.len() as int,
            basis_id,
            segment,
            other,
        ) implies other == order by {
        crate::basis_motion_graph::branch_order_is_unique(
            branches,
            basis_id,
            segment,
            other,
            order,
        );
    }
}

/// The nodes that a refresh gives branches to are those with candidates: all of them where every node
/// has some, and none where no branches are asked for.
pub proof fn refreshed_nodes_are_counted(nodes: Seq<NodeCandidates>, top_k: usize, n: nat)
    requires
        n <= nodes.len(),
    ensures
        0 <= crate::basis_graph_authoring::refreshed_count(nodes, top_k, n) <= n,
        top_k == 0 ==> crate::basis_graph_authoring::refreshed_count(nodes, top_k, n) == 0,
        top_k > 0 && (forall|i: int| 0 <= i < n ==> (#[trigger] nodes[i]).candidates@.len() > 0)
            ==> crate::basis_graph_authoring::refreshed_count(nodes, top_k, n) == n,
        (forall|i: int| 0 <= i < n ==> (#[trigger] nodes[i]).candidates@.len() == 0)
            ==> crate::basis_graph_authoring::refreshed_count(nodes, top_k, n) == 0,
    decreases n,
{
    if n > 0 {
        refreshed_nodes_are_counted(nodes, top_k, (n - 1) as nat);
    }
}

/// Nodes count as changed one by one: at most all of them, and none of a graph without branches or
/// where no branches are asked for.
pub proof fn changed_nodes_are_counted(
    graph: BasisMotionGraph,
    nodes: Seq<NodeCandidates>,
    n: nat,
)
    requires
        n <= nodes.len(),
    ensures
        0 <= crate::basis_graph_authoring::changed_count(graph, nodes, n) <= n,
        graph.lods@.len() == 0 || graph.branch_top_k == 0
            ==> crate::basis_graph_authoring::changed_count(graph, nodes, n) == 0,
        graph.branch_top_k > 0 && (forall|i: int|
            0 <= i < n ==> crate::basis_graph_authoring::node_changed(graph, #[trigger] nodes[i]))
            ==> crate::basis_graph_authoring::changed_count(graph, nodes, n) == n,
    decreases n,
{
    if n > 0 {
        changed_nodes_are_counted(graph, nodes, (n - 1) as nat);
        if graph.lods@.len() == 0 {
            assert(!crate::basis_graph_authoring::node_changed(graph, nodes[n - 1]));
        }
    }
}

/// A copy of a branch has all that the branch has.
pub proof fn copies_of_branches_are_whole(a: BasisMotionGraphBranch, b: BasisMotionGraphBranch)
    requires
        crate::basis_motion_graph::same_branch(a, b),
    ensures
        a.from_basis == b.from_basis,
        a.from_segment == b.from_segment,
        a.to_basis == b.to_basis,
        a.to_segment == b.to_segment,
        a.rank == b.rank,
        a.score == b.score,
        a.position_cost == b.position_cost,
        a.velocity_cost == b.velocity_cost,
        a.acceleration_cost == b.acceleration_cost,
        a.usage_bonus == b.usage_bonus,
        a.transition is Some <==> b.transition is Some,
        a.transition is Some ==> {
            &&& (a.transition->0).kind@ == (b.transition->0).kind@
            &&& (a.transition->0).duration_segments == (b.transition->0).duration_segments
            &&& (a.transition->0).knots@ == (b.transition->0).knots@
            &&& (a.transition->0).start_tangent == (b.transition->0).start_tangent
            &&& (a.transition->0).end_tangent == (b.transition->0).end_tangent
        },
{
}

/// Two points are equal in all three numbers.
pub open spec fn equal_points(a: [u32; 3], b: [u32; 3]) -> bool {
    &&& crate::playback_laws::equal_numbers(a[0], b[0])
    &&& crate::playback_laws::equal_numbers(a[1], b[1])
    &&& crate::playback_laws::equal_numbers(a[2], b[2])
}

/// Comparing points by value means comparing their three numbers.
pub proof fn points_compare_number_by_number(a: [u32; 3], b: [u32; 3])
    ensures
        crate::float_bits::same_point(a, b) <==> equal_points(a, b),
{
    crate::playback_laws::values_compare_by_pattern(a[0], b[0]);
    crate::playback_laws::values_compare_by_pattern(a[1], b[1]);
    crate::playback_laws::values_compare_by_pattern(a[2], b[2]);
}

/// Curves are equal where their kind, length, knots and both tangents are.
pub proof fn curves_compare_field_by_field(
    a: BasisMotionGraphTransition,
    b: BasisMotionGraphTransition,
)
    ensures
        a.same_curve(b) <==> {
            &&& a.kind@ == b.kind@
            &&& a.duration_segments == b.duration_segments
            &&& a.knots@.len() == b.knots@.len()
            &&& forall|i: int|
                0 <= i < a.knots@.len() ==> equal_points(#[trigger] a.knots@[i], b.knots@[i])
            &&& equal_points(a.start_tangent, b.start_tangent)
            &&& equal_points(a.end_tangent, b.end_tangent)
        },
{
    assert forall|p: [u32; 3], q: [u32; 3]| #[trigger]
        crate::float_bits::same_point(p, q) == equal_points(p, q) by {
        points_compare_number_by_number(p, q);
    }
    if a.same_curve(b) {
        assert forall|i: int| 0 <= i < a.knots@.len() implies equal_points(
            #[trigger] a.knots@[i],
            b.knots@[i],
        ) by {
            assert(crate::float_bits::same_point(a.knots@[i], b.knots@[i]));
        }
    } else if a.knots@.len() == b.knots@.len() && forall|i: int|
        0 <= i < a.knots@.len() ==> equal_points(#[trigger] a.knots@[i], b.knots@[i]) {
        assert forall|i: int| 0 <= i < a.knots@.len() implies crate::float_bits::same_point(
            #[trigger] a.knots@[i],
            b.knots@[i],
        ) by {
            assert(equal_points(a.knots@[i], b.knots@[i]));
        }
        assert(crate::float_bits::same_points(a.knots@, b.knots@));
        assert(crate::float_bits::same_point(a.start_tangent, b.start_tangent) == equal_points(
            a.start_tangent,
            b.start_tangent,
        ));
        assert(crate::float_bits::same_point(a.end_tangent, b.end_tangent) == equal_points(
            a.end_tangent,
            b.end_tangent,
        ));
    }
}

/// Summaries are equal where both counts and the time are.
pub proof fn summaries_compare_field_by_field(
    a: BasisGraphAuthoringRefreshSummary,
    b: BasisGraphAuthoringRefreshSummary,
)
    ensures
        a.same_summary(b) <==> {
            &&& a.refreshed_node_count == b.refreshed_node_count
            &&& a.changed_best_target_count == b.changed_best_target_count
            &&& crate::playback_laws::equal_numbers(a.last_refresh_ms, b.last_refresh_ms)
        },
{
    crate::playback_laws::values_compare_by_pattern(a.last_refresh_ms, b.last_refresh_ms);
}

/// The branches of a node are those that were last listed under its key; a key that is not listed has
/// none.
pub proof fn nodes_are_found_by_their_key(
    nodes: Seq<(BasisGraphNodeKey, Vec<BasisMotionGraphBranch>)>,
    n: nat,
    key: BasisGraphNodeKey,
)
    requires
        n <= nodes.len(),
    ensures
        match crate::basis_graph_authoring::node_branches(nodes, n, key) {
            Some(branches) => exists|i: int|
                {
                    &&& 0 <= i < n
                    &&& (#[trigger] nodes[i]).0 == key
                    &&& nodes[i].1@ == branches
                    &&& forall|j: int| i < j < n ==> (#[trigger] nodes[j]).0 != key
                },
            None => forall|j: int| 0 <= j < n ==> (#[trigger] nodes[j]).0 != key,
        },
    decreases n,
{
    if n > 0 {
        if nodes[n - 1].0 == key {
            assert(nodes[n - 1].1@ == nodes[n - 1].1@);
        } else {
            nodes_are_found_by_their_key(nodes, (n - 1) as nat, key);
            if let Some(branches) = crate::basis_graph_authoring::node_branches(nodes, n, key) {
                let i = choose|i: int|
                    {
                        &&& 0 <= i < n - 1
                        &&& (#[trigger] nodes[i]).0 == key
                        &&& nodes[i].1@ == branches
                        &&& forall|j: int| i < j < n - 1 ==> (#[trigger] nodes[j]).0 != key
                    };
                assert(nodes[i].0 == key);
            }
        }
    }
}

} // verus!
