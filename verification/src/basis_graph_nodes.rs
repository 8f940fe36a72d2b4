//! Which nodes of a motion graph are scored anew, and their branches from the costs of their targets.

use crate::basis_graph_authoring::{candidate_targets, NodeCandidates};
use crate::basis_motion_graph::{BasisMotionGraphBranch, BasisMotionGraphTransition};
use vstd::prelude::*;

verus! {

/// What it costs to branch to a target, as bit patterns, and the curve that leads there.
#[derive(Debug)]
pub struct BranchCost {
    pub score: u32,
    pub position_cost: u32,
    pub velocity_cost: u32,
    pub acceleration_cost: u32,
    pub usage_bonus: u32,
    pub transition: Option<BasisMotionGraphTransition>,
}

/// Every segment of the first `n` bases, basis by basis.
pub open spec fn nodes_of(n: nat, segments: nat) -> Seq<(usize, usize)>
    decreases n,
{
    if n == 0 {
        Seq::empty()
    } else {
        nodes_of((n - 1) as nat, segments) + Seq::new(
            segments,
            |s: int| ((n - 1) as usize, s as usize),
        )
    }
}

/// Lists the nodes that are scored anew: every segment of every basis, or none where the knots do
/// not fill the bank.
pub fn nodes_to_refresh(
    knots: &[u32],
    basis_count: usize,
    knot_count: usize,
    segments: usize,
) -> (r: Vec<(usize, usize)>)
    ensures
        r@ == if crate::basis_bank_sampling::bank_holds(knots@, basis_count, knot_count, 0) {
            nodes_of(basis_count as nat, segments as nat)
        } else {
            Seq::empty()
        },
{
    let mut out: Vec<(usize, usize)> = Vec::new();
    let first: Option<[[u32; 3]; 4]> = crate::basis_bank_sampling::basis_segment_points(
        knots,
        basis_count,
        knot_count,
        0,
        0,
    );
    if first.is_none() {
        return out;
    }
    for b in 0..basis_count
        invariant
            out@ == nodes_of(b as nat, segments as nat),
    {
        let ghost before = out@;
        for s in 0..segments
            invariant
                out@ == before + Seq::new(s as nat, |k: int| (b, k as usize)),
        {
            out.push((b, s));
            assert(out@ =~= before + Seq::new((s + 1) as nat, |k: int| (b, k as usize)));
        }
        assert(out@ =~= nodes_of((b + 1) as nat, segments as nat));
    }
    out
}

/// A branch between two nodes, not ranked yet.
pub open spec fn costed_branch(
    from: (usize, usize),
    to: (usize, usize),
    cost: BranchCost,
) -> BasisMotionGraphBranch {
    BasisMotionGraphBranch {
        from_basis: from.0,
        from_segment: from.1,
        to_basis: to.0,
        to_segment: to.1,
        rank: 0,
        score: cost.score,
        position_cost: cost.position_cost,
        velocity_cost: cost.velocity_cost,
        acceleration_cost: cost.acceleration_cost,
        usage_bonus: cost.usage_bonus,
        transition: cost.transition,
    }
}

/// A branch leads from a node to a target with all that was given for the target: the score, the
/// three costs, the bonus, and the curve where there is one.
pub open spec fn leads_to(
    branch: BasisMotionGraphBranch,
    from: (usize, usize),
    to: (usize, usize),
    cost: BranchCost,
) -> bool {
    &&& branch.from_basis == from.0
    &&& branch.from_segment == from.1
    &&& branch.to_basis == to.0
    &&& branch.to_segment == to.1
    &&& branch.score == cost.score
    &&& branch.position_cost == cost.position_cost
    &&& branch.velocity_cost == cost.velocity_cost
    &&& branch.acceleration_cost == cost.acceleration_cost
    &&& branch.usage_bonus == cost.usage_bonus
    &&& cost.transition is None ==> branch.transition is None
    &&& cost.transition is Some ==> {
        &&& branch.transition is Some
        &&& (branch.transition->0).kind@ == (cost.transition->0).kind@
        &&& (branch.transition->0).duration_segments == (cost.transition->0).duration_segments
        &&& (branch.transition->0).knots@ == (cost.transition->0).knots@
        &&& (branch.transition->0).start_tangent == (cost.transition->0).start_tangent
        &&& (branch.transition->0).end_tangent == (cost.transition->0).end_tangent
    }
}

/// A branch leads from a node to one of its targets with all that was given for the target.
pub open spec fn leads_to_a_target(
    branch: BasisMotionGraphBranch,
    from: (usize, usize),
    targets: Seq<(usize, usize)>,
    costs: Seq<BranchCost>,
) -> bool {
    exists|t: int|
        0 <= t < targets.len() && #[trigger] leads_to(branch, from, targets[t], costs[t])
}

/// A node has one branch to each of its targets, with the cost of that target.
pub open spec fn costs_node(
    node: NodeCandidates,
    from: (usize, usize),
    targets: Seq<(usize, usize)>,
    costs: Seq<BranchCost>,
) -> bool {
    &&& node.from_basis == from.0
    &&& node.from_segment == from.1
    &&& node.candidates@ == Seq::new(
        targets.len(),
        |i: int| costed_branch(from, targets[i], costs[i]),
    )
}

/// The branches of a node from the costs of its targets.
pub fn score_node(
    from: (usize, usize),
    targets: &Vec<(usize, usize)>,
    costs: Vec<BranchCost>,
) -> (r: NodeCandidates)
    requires
        costs@.len() == targets@.len(),
    ensures
        costs_node(r, from, targets@, costs@),
        r.candidates@.len() == targets@.len(),
        forall|i: int|
            0 <= i < targets@.len() ==> leads_to(
                #[trigger] r.candidates@[i],
                from,
                targets@[i],
                costs@[i],
            ),
{
    let ghost given = costs@;
    let count: usize = targets.len();
    let mut candidates: Vec<BasisMotionGraphBranch> = Vec::with_capacity(count);
    let mut at: usize = 0;
    for cost in it: costs.into_iter()
        invariant
            it.seq() == given,
            at == it.index(),
            given.len() == targets@.len(),
            count == targets@.len(),
            candidates@ == Seq::new(
                at as nat,
                |i: int| costed_branch(from, targets@[i], given[i]),
            ),
    {
        candidates.push(
            BasisMotionGraphBranch {
                from_basis: from.0,
                from_segment: from.1,
                to_basis: targets[at].0,
                to_segment: targets[at].1,
                rank: 0,
                score: cost.score,
                position_cost: cost.position_cost,
                velocity_cost: cost.velocity_cost,
                acceleration_cost: cost.acceleration_cost,
                usage_bonus: cost.usage_bonus,
                transition: cost.transition,
            },
        );
        at = at + 1;
        assert(candidates@ =~= Seq::new(
            at as nat,
            |i: int| costed_branch(from, targets@[i], given[i]),
        ));
    }
    assert(candidates@ =~= Seq::new(
        targets@.len(),
        |i: int| costed_branch(from, targets@[i], given[i]),
    ));
    NodeCandidates { from_basis: from.0, from_segment: from.1, candidates }
}

/// Every listed node has one branch to each of its targets, with the costs given for it.
pub open spec fn costs_nodes(
    scored: Seq<NodeCandidates>,
    nodes: Seq<(usize, usize)>,
    basis_count: nat,
    segments: nat,
    costs: Seq<Vec<BranchCost>>,
) -> bool {
    &&& scored.len() == nodes.len()
    &&& forall|i: int|
        0 <= i < scored.len() ==> costs_node(
            #[trigger] scored[i],
            nodes[i],
            crate::basis_graph_authoring::targets_of(basis_count, segments, nodes[i].0 as int),
            costs[i]@,
        )
}

/// The branches of all nodes from the costs of their targets, in the order of `candidate_targets`.
pub fn score_nodes(
    nodes: &Vec<(usize, usize)>,
    basis_count: usize,
    segments: usize,
    costs: Vec<Vec<BranchCost>>,
) -> (r: Vec<NodeCandidates>)
    requires
        costs@.len() == nodes@.len(),
        forall|i: int|
            0 <= i < nodes@.len() ==> (#[trigger] costs@[i])@.len()
                == crate::basis_graph_authoring::targets_of(
                basis_count as nat,
                segments as nat,
                nodes@[i].0 as int,
            ).len(),
    ensures
        costs_nodes(r@, nodes@, basis_count as nat, segments as nat, costs@),
{
    let ghost given = costs@;
    let count: usize = nodes.len();
    let mut scored: Vec<NodeCandidates> = Vec::with_capacity(count);
    let mut at: usize = 0;
    for list in it: costs.into_iter()
        invariant
            it.seq() == given,
            at == it.index(),
            at == scored@.len(),
            given.len() == nodes@.len(),
            count == nodes@.len(),
            forall|i: int|
                0 <= i < nodes@.len() ==> (#[trigger] given[i])@.len()
                    == crate::basis_graph_authoring::targets_of(
                    basis_count as nat,
                    segments as nat,
                    nodes@[i].0 as int,
                ).len(),
            forall|i: int|
                0 <= i < scored@.len() ==> costs_node(
                    #[trigger] scored@[i],
                    nodes@[i],
                    crate::basis_graph_authoring::targets_of(
                        basis_count as nat,
                        segments as nat,
                        nodes@[i].0 as int,
                    ),
                    given[i]@,
                ),
    {
        assert(list@ == given[at as int]@);
        let targets: Vec<(usize, usize)> = candidate_targets(basis_count, segments, nodes[at].0);
        scored.push(score_node(nodes[at], &targets, list));
        at = at + 1;
    }
    scored
}

/// The nodes of a bank are the segments of its bases, none twice.
pub proof fn nodes_are_complete(basis_count: nat, segments: nat)
    requires
        basis_count <= usize::MAX,
        segments <= usize::MAX,
    ensures
        nodes_of(basis_count, segments).len() == basis_count * segments,
        nodes_of(basis_count, segments).no_duplicates(),
        forall|i: int|
            0 <= i < nodes_of(basis_count, segments).len() ==> (#[trigger] nodes_of(
                basis_count,
                segments,
            )[i]).0 < basis_count && nodes_of(basis_count, segments)[i].1 < segments,
        forall|b: usize, s: usize|
            b < basis_count && s < segments ==> #[trigger] nodes_of(
                basis_count,
                segments,
            ).contains((b, s)),
    decreases basis_count,
{
    if basis_count == 0 {
        assert(0 * segments == 0);
    } else {
        let n = (basis_count - 1) as nat;
        nodes_are_complete(n, segments);
        let front = nodes_of(n, segments);
        let row = Seq::new(segments, |s: int| (n as usize, s as usize));
        let whole = nodes_of(basis_count, segments);
        assert(whole == front + row);
        assert(basis_count * segments == n * segments + segments) by (nonlinear_arith)
            requires
                basis_count == n + 1,
        ;
        assert forall|i: int| 0 <= i < whole.len() implies (#[trigger] whole[i]).0 < basis_count
            && whole[i].1 < segments by {
            if i < front.len() {
                assert(whole[i] == front[i]);
            } else {
                assert(whole[i] == row[i - front.len()]);
            }
        }
        assert forall|i: int, j: int|
            0 <= i < whole.len() && 0 <= j < whole.len() && i != j implies whole[i] != whole[j] by {
            if i < front.len() {
                assert(whole[i] == front[i]);
            } else {
                assert(whole[i] == row[i - front.len()]);
            }
            if j < front.len() {
                assert(whole[j] == front[j]);
            } else {
                assert(whole[j] == row[j - front.len()]);
            }
        }
        assert forall|b: usize, s: usize|
            b < basis_count && s < segments implies #[trigger] whole.contains((b, s)) by {
            if b < n {
                assert(front.contains((b, s)));
                let i = choose|i: int| 0 <= i < front.len() && front[i] == (b, s);
                assert(whole[i] == (b, s));
            } else {
                assert(row[s as int] == (b, s));
                assert(whole[front.len() + s] == (b, s));
            }
        }
    }
}

/// Scoring the nodes of a bank gives candidates that can be refreshed: no node twice, and each with
/// one candidate for every target.
pub proof fn scored_nodes_are_complete(
    scored: Seq<NodeCandidates>,
    basis_count: nat,
    segments: nat,
    costs: Seq<Vec<BranchCost>>,
)
    requires
        basis_count <= usize::MAX,
        segments <= usize::MAX,
        costs_nodes(scored, nodes_of(basis_count, segments), basis_count, segments, costs),
    ensures
        crate::basis_graph_authoring::nodes_distinct(scored),
        forall|i: int|
            0 <= i < scored.len() ==> crate::basis_graph_authoring::scores_all(
                #[trigger] scored[i],
                basis_count,
                segments,
            ),
{
    nodes_are_complete(basis_count, segments);
    let nodes = nodes_of(basis_count, segments);
    assert forall|i: int, j: int| 0 <= i < j < scored.len() implies (
    #[trigger] scored[i]).from_basis != (#[trigger] scored[j]).from_basis
        || scored[i].from_segment != scored[j].from_segment by {
        assert(nodes[i] != nodes[j]);
    }
}

/// Refreshing from the costs of all targets gives every node of the bank its branches: as many as
/// asked for, or as there are segments of other bases; ranked from 0 on in strict order, each to a
/// segment of another basis; and with the score, the costs, the bonus and the curve that were given
/// for its target.
pub proof fn every_node_gets_its_branches(
    overrides: crate::basis_graph_authoring::BasisGraphBranchOverrides,
    scored: Seq<NodeCandidates>,
    basis_count: nat,
    segments: nat,
    costs: Seq<Vec<BranchCost>>,
    top_k: usize,
    basis: usize,
    segment: usize,
) -> (at: int)
    requires
        2 <= basis_count <= usize::MAX,
        1 <= segments <= usize::MAX,
        1 <= top_k,
        costs_nodes(scored, nodes_of(basis_count, segments), basis_count, segments, costs),
        crate::basis_graph_authoring::overrides_follow(
            overrides,
            scored,
            top_k,
            scored.len() as int,
        ),
        basis < basis_count,
        segment < segments,
    ensures
        0 <= at < scored.len(),
        nodes_of(basis_count, segments)[at] == (basis, segment),
        overrides.node(basis, segment) is Some,
        ({
            let list = overrides.node(basis, segment)->0;
            let all = (basis_count - 1) * segments;
            &&& list.len() == if all < top_k {
                all
            } else {
                top_k as int
            }
            &&& crate::basis_graph_authoring::are_best_candidates(
                list,
                scored[at].candidates@,
                top_k,
            )
            &&& forall|p: int|
                0 <= p < list.len() ==> {
                    &&& (#[trigger] list[p]).rank == p
                    &&& list[p].to_basis < basis_count
                    &&& list[p].to_basis != basis
                    &&& list[p].to_segment < segments
                }
            &&& forall|p: int, q: int|
                0 <= p < q < list.len() ==> crate::basis_graph_authoring::comes_before(
                    #[trigger] list[p],
                    #[trigger] list[q],
                )
            &&& forall|p: int|
                0 <= p < list.len() ==> leads_to_a_target(
                    #[trigger] list[p],
                    (basis, segment),
                    crate::basis_graph_authoring::targets_of(basis_count, segments, basis as int),
                    costs[at]@,
                )
        }),
{
    nodes_are_complete(basis_count, segments);
    scored_nodes_are_complete(scored, basis_count, segments, costs);
    let nodes = nodes_of(basis_count, segments);
    assert(nodes.contains((basis, segment)));
    let at = choose|at: int| 0 <= at < nodes.len() && nodes[at] == (basis, segment);
    crate::basis_graph_authoring::refreshed_branches_are_the_least(
        overrides,
        scored,
        top_k,
        at,
        basis_count,
        segments,
    );
    assert(scored[at].candidates@.len() > 0) by {
        assert((basis_count - 1) * segments >= 1) by (nonlinear_arith)
            requires
                basis_count >= 2,
                segments >= 1,
        ;
    }
    let list = overrides.node(basis, segment)->0;
    let targets = crate::basis_graph_authoring::targets_of(basis_count, segments, basis as int);
    let candidates = scored[at].candidates@;
    let order = choose|order: Seq<usize>|
        {
            &&& #[trigger] crate::basis_graph_authoring::is_preference_order(candidates, order)
            &&& list.len() == if candidates.len() < top_k {
                candidates.len() as int
            } else {
                top_k as int
            }
            &&& forall|p: int|
                0 <= p < list.len() ==> crate::basis_graph_authoring::ranked_branch(
                    #[trigger] list[p],
                    candidates[order[p] as int],
                    p,
                )
        };
    assert forall|p: int| 0 <= p < list.len() implies leads_to_a_target(
        #[trigger] list[p],
        (basis, segment),
        targets,
        costs[at]@,
    ) by {
        let t = order[p] as int;
        assert(candidates[t] == costed_branch((basis, segment), targets[t], costs[at]@[t]));
        assert(crate::basis_graph_authoring::ranked_branch(list[p], candidates[t], p));
        assert(leads_to(list[p], (basis, segment), targets[t], costs[at]@[t]));
    }
    at
}

} // verus!
