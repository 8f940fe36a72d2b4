//! Branches that replace those of the motion graph after knots were edited.

use crate::basis_bank_motion::BasisBankMotionMeta;
use crate::basis_motion_graph::{BasisMotionGraph, BasisMotionGraphBranch};
use vstd::prelude::*;

verus! {

/// A segment of a basis.
#[derive(Clone, Copy, Debug, PartialEq, Eq, Hash, Structural)]
pub struct BasisGraphNodeKey {
    pub basis_id: usize,
    pub segment: usize,
}

impl BasisGraphNodeKey {
    pub fn new(basis_id: usize, segment: usize) -> (r: BasisGraphNodeKey)
        ensures
            r.basis_id == basis_id,
            r.segment == segment,
    {
        BasisGraphNodeKey { basis_id, segment }
    }
}

/// What a refresh did.
#[derive(Clone, Copy, Debug)]
pub struct BasisGraphAuthoringRefreshSummary {
    pub refreshed_node_count: usize,
    pub changed_best_target_count: usize,
    /// Bit pattern of the time it took, in milliseconds.
    pub last_refresh_ms: u32,
}

impl Default for BasisGraphAuthoringRefreshSummary {
    /// Nothing was refreshed.
    fn default() -> (r: BasisGraphAuthoringRefreshSummary)
        ensures
            r == (BasisGraphAuthoringRefreshSummary {
                refreshed_node_count: 0,
                changed_best_target_count: 0,
                last_refresh_ms: 0,
            }),
    {
        BasisGraphAuthoringRefreshSummary {
            refreshed_node_count: 0,
            changed_best_target_count: 0,
            last_refresh_ms: 0,
        }
    }
}

impl BasisGraphAuthoringRefreshSummary {
    pub open spec fn same_summary(self, other: BasisGraphAuthoringRefreshSummary) -> bool {
        &&& self.refreshed_node_count == other.refreshed_node_count
        &&& self.changed_best_target_count == other.changed_best_target_count
        &&& crate::float_bits::same_value(self.last_refresh_ms, other.last_refresh_ms)
    }
}

impl PartialEq for BasisGraphAuthoringRefreshSummary {
    /// Numbers compare by value, not by bit pattern.
    fn eq(&self, other: &BasisGraphAuthoringRefreshSummary) -> (r: bool) {
        self.refreshed_node_count == other.refreshed_node_count
            && self.changed_best_target_count == other.changed_best_target_count
            && crate::float_bits::is_same_value(self.last_refresh_ms, other.last_refresh_ms)
    }
}

impl vstd::std_specs::cmp::PartialEqSpecImpl for BasisGraphAuthoringRefreshSummary {
    open spec fn obeys_eq_spec() -> bool {
        true
    }

    open spec fn eq_spec(&self, other: &BasisGraphAuthoringRefreshSummary) -> bool {
        self.same_summary(*other)
    }
}

/// Branches by the node they leave.
#[derive(Debug)]
pub struct BasisGraphBranchOverrides {
    nodes: Vec<(BasisGraphNodeKey, Vec<BasisMotionGraphBranch>)>,
}

/// The branches of a node among the first `n` entries; a later entry replaces an earlier one.
pub open spec fn node_branches(
    nodes: Seq<(BasisGraphNodeKey, Vec<BasisMotionGraphBranch>)>,
    n: nat,
    key: BasisGraphNodeKey,
) -> Option<Seq<BasisMotionGraphBranch>>
    decreases n,
{
    if n == 0 {
        None
    } else if nodes[n - 1].0 == key {
        Some(nodes[n - 1].1@)
    } else {
        node_branches(nodes, (n - 1) as nat, key)
    }
}

proof fn node_branches_depend_on_prefix(
    a: Seq<(BasisGraphNodeKey, Vec<BasisMotionGraphBranch>)>,
    b: Seq<(BasisGraphNodeKey, Vec<BasisMotionGraphBranch>)>,
    n: nat,
    key: BasisGraphNodeKey,
)
    requires
        n <= a.len(),
        n <= b.len(),
        forall|i: int| 0 <= i < n ==> a[i] == b[i],
    ensures
        node_branches(a, n, key) == node_branches(b, n, key),
    decreases n,
{
    if n > 0 {
        node_branches_depend_on_prefix(a, b, (n - 1) as nat, key);
    }
}

/// Replacing the newest entry of a node changes that node alone.
proof fn replacing_changes_one_node(
    nodes: Seq<(BasisGraphNodeKey, Vec<BasisMotionGraphBranch>)>,
    n: nat,
    at: int,
    branches: Vec<BasisMotionGraphBranch>,
    key: BasisGraphNodeKey,
)
    requires
        0 <= at < n <= nodes.len(),
        forall|i: int| at < i < n ==> nodes[i].0 != nodes[at].0,
    ensures
        node_branches(nodes.update(at, (nodes[at].0, branches)), n, key) == if key == nodes[at].0 {
            Some(branches@)
        } else {
            node_branches(nodes, n, key)
        },
    decreases n,
{
    let after = nodes.update(at, (nodes[at].0, branches));
    if at < n - 1 {
        replacing_changes_one_node(nodes, (n - 1) as nat, at, branches, key);
    } else {
        node_branches_depend_on_prefix(nodes, after, (n - 1) as nat, key);
    }
}

impl BasisGraphBranchOverrides {
    /// The branches that replace those of a node, if any do.
    pub closed spec fn node(self, basis_id: usize, segment: usize) -> Option<
        Seq<BasisMotionGraphBranch>,
    > {
        node_branches(self.nodes@, self.nodes@.len(), BasisGraphNodeKey { basis_id, segment })
    }

    /// No node has replacements.
    pub open spec fn no_nodes(self) -> bool {
        forall|b: usize, s: usize| #[trigger] self.node(b, s) is None
    }

    /// Every node but one has the same replacements.
    pub open spec fn same_elsewhere(
        self,
        other: BasisGraphBranchOverrides,
        basis_id: usize,
        segment: usize,
    ) -> bool {
        forall|b: usize, s: usize|
            b != basis_id || s != segment ==> #[trigger] self.node(b, s) == other.node(b, s)
    }

    /// No replacements.
    pub fn new() -> (r: BasisGraphBranchOverrides)
        ensures
            r.no_nodes(),
    {
        BasisGraphBranchOverrides { nodes: Vec::new() }
    }

    /// Replaces the branches of a node.
    pub fn set_node_branches(
        &mut self,
        basis_id: usize,
        segment: usize,
        branches: Vec<BasisMotionGraphBranch>,
    )
        ensures
            final(self).node(basis_id, segment) == Some(branches@),
            final(self).same_elsewhere(*old(self), basis_id, segment),
    {
        let key: BasisGraphNodeKey = BasisGraphNodeKey::new(basis_id, segment);
        let mut at: usize = self.nodes.len();
        while at > 0
            invariant
                at <= self.nodes@.len(),
                *self == *old(self),
                key == (BasisGraphNodeKey { basis_id, segment }),
                forall|i: int| at <= i < self.nodes@.len() ==> self.nodes@[i].0 != key,
            decreases at,
        {
            let found: BasisGraphNodeKey = self.nodes[at - 1].0;
            if found.basis_id == basis_id && found.segment == segment {
                let ghost before = self.nodes@;
                self.nodes.set(at - 1, (key, branches));
                proof {
                    assert(self.nodes@ == before.update(at - 1, (before[at - 1].0, branches)));
                    assert forall|b: usize, s: usize| #[trigger] self.node(b, s) == if b == basis_id && s
                        == segment {
                        Some(branches@)
                    } else {
                        old(self).node(b, s)
                    } by {
                        replacing_changes_one_node(
                            before,
                            before.len(),
                            at - 1,
                            branches,
                            BasisGraphNodeKey { basis_id: b, segment: s },
                        );
                    }
                }
                return ;
            }
            at = at - 1;
        }
        let ghost before = self.nodes@;
        self.nodes.push((key, branches));
        proof {
            assert forall|b: usize, s: usize| #[trigger] self.node(b, s) == if b == basis_id && s
                == segment {
                Some(branches@)
            } else {
                old(self).node(b, s)
            } by {
                node_branches_depend_on_prefix(
                    before,
                    self.nodes@,
                    before.len(),
                    BasisGraphNodeKey { basis_id: b, segment: s },
                );
            }
        }
    }

    /// The branches that replace those of a node, if any do.
    pub fn branches_for(&self, basis_id: usize, segment: usize) -> (r: Option<
        &Vec<BasisMotionGraphBranch>,
    >)
        ensures
            match r {
                Some(branches) => self.node(basis_id, segment) == Some(branches@),
                None => self.node(basis_id, segment) is None,
            },
    {
        let ghost key = BasisGraphNodeKey { basis_id, segment };
        let mut n: usize = self.nodes.len();
        while n > 0
            invariant
                n <= self.nodes@.len(),
                key == (BasisGraphNodeKey { basis_id, segment }),
                self.node(basis_id, segment) == node_branches(self.nodes@, n as nat, key),
            decreases n,
        {
            let found: BasisGraphNodeKey = self.nodes[n - 1].0;
            if found.basis_id == basis_id && found.segment == segment {
                return Some(&self.nodes[n - 1].1);
            }
            n = n - 1;
        }
        None
    }

    /// Drops all replacements.
    pub fn clear(&mut self)
        ensures
            final(self).no_nodes(),
    {
        self.nodes.clear();
    }

    /// Whether no node has replacements.
    pub fn is_empty(&self) -> (r: bool)
        ensures
            r == self.no_nodes(),
    {
        let empty: bool = self.nodes.len() == 0;
        proof {
            if !empty {
                let last = self.nodes@.last().0;
                assert(self.node(last.basis_id, last.segment) is Some);
            }
        }
        empty
    }
}

/// Segments that branches are looked for in: those of the source, or all if the graph already uses
/// a closure segment.
pub open spec fn active_segments(graph: BasisMotionGraph, meta: BasisBankMotionMeta) -> int {
    let exported = if meta.exported_knot_count < 1 {
        1
    } else {
        meta.exported_knot_count as int
    };
    let source = source_segments(meta);
    if graph.lods@.len() > 0 && uses_closure(graph.lods@[0].branches@, source) {
        exported
    } else {
        source
    }
}

pub open spec fn source_segments(meta: BasisBankMotionMeta) -> int {
    let exported = if meta.exported_knot_count < 1 {
        1
    } else {
        meta.exported_knot_count as int
    };
    if meta.source_knot_count < 1 {
        1
    } else if meta.source_knot_count > exported {
        exported
    } else {
        meta.source_knot_count as int
    }
}

pub open spec fn uses_closure(branches: Seq<BasisMotionGraphBranch>, source: int) -> bool {
    exists|i: int|
        0 <= i < branches.len() && ((#[trigger] branches[i]).from_segment >= source
            || branches[i].to_segment >= source)
}

/// Segments that branches are looked for in.
pub fn active_segment_count(graph: &BasisMotionGraph, meta: &BasisBankMotionMeta) -> (r: usize)
    ensures
        r == active_segments(*graph, *meta),
        r >= 1,
{
    let exported: usize = if meta.exported_knot_count < 1 {
        1
    } else {
        meta.exported_knot_count
    };
    let source: usize = if meta.source_knot_count < 1 {
        1
    } else if meta.source_knot_count > exported {
        exported
    } else {
        meta.source_knot_count
    };
    if graph.lods.len() > 0 {
        let branches: &Vec<BasisMotionGraphBranch> = &graph.lods[0].branches;
        for i in 0..branches.len()
            invariant
                graph.lods@.len() > 0,
                *branches == graph.lods@[0].branches,
                source == source_segments(*meta),
                exported == if meta.exported_knot_count < 1 {
                    1
                } else {
                    meta.exported_knot_count as int
                },
                forall|k: int|
                    0 <= k < i ==> (#[trigger] branches@[k]).from_segment < source
                        && branches@[k].to_segment < source,
        {
            if branches[i].from_segment >= source || branches[i].to_segment >= source {
                assert(branches@[i as int].from_segment >= source || branches@[i as int].to_segment
                    >= source);
                return exported;
            }
        }
    }
    source
}

/// The first branch of a list that leaves a node.
pub open spec fn first_leaving(
    branches: Seq<BasisMotionGraphBranch>,
    basis_id: usize,
    segment: usize,
    from: nat,
) -> Option<int>
    decreases branches.len() - from,
{
    if from >= branches.len() {
        None
    } else if crate::basis_motion_graph::leaves_node(branches[from as int], basis_id, segment) {
        Some(from as int)
    } else {
        first_leaving(branches, basis_id, segment, from + 1)
    }
}

/// How long a transition out of a node takes: as long as the first transition that the graph has
/// there, at least one segment; nothing in graphs without transitions or for nodes without
/// branches.
pub open spec fn node_transition_duration(
    graph: BasisMotionGraph,
    basis_id: usize,
    segment: usize,
) -> Option<usize> {
    if graph.format_version < 2 || graph.lods@.len() == 0 {
        None
    } else {
        match first_leaving(graph.lods@[0].branches@, basis_id, segment, 0) {
            None => None,
            Some(i) => match graph.lods@[0].branches@[i].transition {
                None => Some(1),
                Some(t) => if t.duration_segments < 1 {
                    Some(1)
                } else {
                    Some(t.duration_segments)
                },
            },
        }
    }
}

pub fn transition_duration_for_node(
    graph: &BasisMotionGraph,
    from_basis: usize,
    from_segment: usize,
) -> (r: Option<usize>)
    ensures
        r == node_transition_duration(*graph, from_basis, from_segment),
{
    if graph.format_version < 2 || graph.lods.len() == 0 {
        return None;
    }
    let branches: &Vec<BasisMotionGraphBranch> = &graph.lods[0].branches;
    for i in 0..branches.len()
        invariant
            graph.format_version >= 2,
            graph.lods@.len() > 0,
            *branches == graph.lods@[0].branches,
            first_leaving(branches@, from_basis, from_segment, 0) == first_leaving(
                branches@,
                from_basis,
                from_segment,
                i as nat,
            ),
    {
        if branches[i].from_basis == from_basis && branches[i].from_segment == from_segment {
            return match &branches[i].transition {
                None => Some(1),
                Some(t) => if t.duration_segments < 1 {
                    Some(1)
                } else {
                    Some(t.duration_segments)
                },
            };
        }
    }
    None
}

/// The targets of the first `n` bases, without `from_basis`: every segment of every other basis.
pub open spec fn targets_of(n: nat, segments: nat, from_basis: int) -> Seq<(usize, usize)>
    decreases n,
{
    if n == 0 {
        Seq::empty()
    } else if n - 1 == from_basis {
        targets_of((n - 1) as nat, segments, from_basis)
    } else {
        targets_of((n - 1) as nat, segments, from_basis) + Seq::new(
            segments,
            |s: int| ((n - 1) as usize, s as usize),
        )
    }
}

/// Where a branch out of a basis may lead, in the order in which targets are scored.
pub fn candidate_targets(basis_count: usize, segments: usize, from_basis: usize) -> (r: Vec<
    (usize, usize),
>)
    ensures
        r@ == targets_of(basis_count as nat, segments as nat, from_basis as int),
{
    let mut out: Vec<(usize, usize)> = Vec::new();
    for b in 0..basis_count
        invariant
            out@ == targets_of(b as nat, segments as nat, from_basis as int),
    {
        if b != from_basis {
            let ghost before = out@;
            for s in 0..segments
                invariant
                    out@ == before + Seq::new(s as nat, |k: int| (b, k as usize)),
            {
                out.push((b, s));
                assert(out@ =~= before + Seq::new((s + 1) as nat, |k: int| (b, k as usize)));
            }
            assert(out@ =~= targets_of((b + 1) as nat, segments as nat, from_basis as int));
        }
    }
    out
}

/// Candidate `a` is preferred to candidate `b`: lower score first (in the total order of numbers),
/// then lower target basis, lower target segment and earlier candidate.
pub open spec fn preferred(candidates: Seq<BasisMotionGraphBranch>, a: usize, b: usize) -> bool {
    let x = candidates[a as int];
    let y = candidates[b as int];
    let rx = crate::float_bits::total_rank(x.score);
    let ry = crate::float_bits::total_rank(y.score);
    rx < ry || (rx == ry && (x.to_basis < y.to_basis || (x.to_basis == y.to_basis && (x.to_segment
        < y.to_segment || (x.to_segment == y.to_segment && a < b)))))
}

/// `order` names every candidate once, preferred ones first.
pub open spec fn is_preference_order(
    candidates: Seq<BasisMotionGraphBranch>,
    order: Seq<usize>,
) -> bool {
    &&& order.len() == candidates.len()
    &&& forall|p: int| 0 <= p < order.len() ==> (#[trigger] order[p]) < candidates.len()
    &&& forall|p: int, q: int|
        0 <= p < q < order.len() ==> preferred(candidates, #[trigger] order[p], #[trigger] order[q])
}

/// Orders candidates by preference.
pub fn order_candidates(candidates: &Vec<BasisMotionGraphBranch>) -> (order: Vec<usize>)
    ensures
        is_preference_order(candidates@, order@),
{
    let mut records: Vec<(i64, usize, usize, usize)> = Vec::new();
    let n: usize = candidates.len();
    let mut i: usize = 0;
    while i < n
        invariant
            i <= n,
            n == candidates@.len(),
            records@.len() == i,
            forall|k: int|
                0 <= k < i ==> #[trigger] records@[k] == (
                    crate::float_bits::total_rank(candidates@[k].score) as i64,
                    candidates@[k].to_basis,
                    candidates@[k].to_segment,
                    k as usize,
                ),
        decreases n - i,
    {
        let key: i64 = crate::float_bits::total_order_key(candidates[i].score);
        records.push((key, candidates[i].to_basis, candidates[i].to_segment, i));
        i = i + 1;
    }
    let ghost unsorted = records@;
    crate::ordering::sort_records(&mut records);
    let ghost sorted = records@;
    proof {
        crate::ordering::sorted_records_keep_places(unsorted, sorted);
    }
    let mut order: Vec<usize> = Vec::new();
    let mut p: usize = 0;
    while p < n
        invariant
            p <= n,
            records@.len() == n,
            records@ == sorted,
            order@.len() == p,
            forall|k: int| 0 <= k < p ==> #[trigger] order@[k] == sorted[k].3,
        decreases n - p,
    {
        order.push(records[p].3);
        p = p + 1;
    }
    proof {
        assert forall|k: int| 0 <= k < n implies (#[trigger] order@[k]) < n by {
            assert(sorted[k].3 < unsorted.len());
        }
        assert forall|a: int, b: int| 0 <= a < b < n implies preferred(
            candidates@,
            #[trigger] order@[a],
            #[trigger] order@[b],
        ) by {
            assert(crate::ordering::record_le(sorted[a], sorted[b]));
            assert(sorted[a].3 != sorted[b].3);
            assert(sorted[a] == unsorted[sorted[a].3 as int]);
            assert(sorted[b] == unsorted[sorted[b].3 as int]);
        }
    }
    order
}

/// Candidates have one order of preference.
pub proof fn preference_order_is_unique(
    candidates: Seq<BasisMotionGraphBranch>,
    a: Seq<usize>,
    b: Seq<usize>,
)
    requires
        is_preference_order(candidates, a),
        is_preference_order(candidates, b),
    ensures
        a == b,
{
    assert forall|k: int| 0 <= k < a.len() implies #[trigger] a[k] == b[k] by {
        preferences_agree(candidates, a, b, k);
    }
    assert(a =~= b);
}

proof fn preference_order_names_all(
    candidates: Seq<BasisMotionGraphBranch>,
    order: Seq<usize>,
    i: usize,
)
    requires
        is_preference_order(candidates, order),
        i < candidates.len(),
    ensures
        order.contains(i),
{
    let n = candidates.len() as int;
    let places = vstd::set_lib::set_int_range(0, n);
    let f = |p: int| order[p] as int;
    let named = places.map(f);
    vstd::set_lib::lemma_int_range(0, n);
    assert forall|p: int, q: int|
        places.contains(p) && places.contains(q) && #[trigger] f(p) == #[trigger] f(q) implies p
        == q by {
        if p < q {
            assert(preferred(candidates, order[p], order[q]));
        } else if q < p {
            assert(preferred(candidates, order[q], order[p]));
        }
    }
    vstd::set_lib::lemma_map_size(places, named, f);
    assert forall|s: int| named.contains(s) implies places.contains(s) by {
        let p = choose|p: int| places.contains(p) && f(p) == s;
        assert(order[p] < candidates.len());
    }
    vstd::set_lib::lemma_subset_equality(named, places);
    assert(named.contains(i as int));
    let p = choose|p: int| places.contains(p) && f(p) == i;
    assert(order[p] == i);
}

proof fn preferences_agree(
    candidates: Seq<BasisMotionGraphBranch>,
    a: Seq<usize>,
    b: Seq<usize>,
    k: int,
)
    requires
        is_preference_order(candidates, a),
        is_preference_order(candidates, b),
        0 <= k < a.len(),
    ensures
        a[k] == b[k],
    decreases k,
{
    assert forall|m: int| 0 <= m < k implies #[trigger] a[m] == b[m] by {
        preferences_agree(candidates, a, b, m);
    }
    if a[k] != b[k] {
        preference_order_names_all(candidates, b, a[k]);
        preference_order_names_all(candidates, a, b[k]);
        let i = choose|i: int| 0 <= i < b.len() && b[i] == a[k];
        let j = choose|j: int| 0 <= j < a.len() && a[j] == b[k];
        if i < k {
            assert(a[i] == b[i]);
            assert(preferred(candidates, a[i], a[k]));
        }
        if j < k {
            assert(a[j] == b[j]);
            assert(preferred(candidates, b[j], b[k]));
        }
        assert(preferred(candidates, a[k], a[j]));
        assert(preferred(candidates, b[k], b[i]));
    }
}

/// A branch with another rank.
pub open spec fn ranked_branch(
    made: BasisMotionGraphBranch,
    candidate: BasisMotionGraphBranch,
    rank: int,
) -> bool {
    &&& made.rank == rank
    &&& made.from_basis == candidate.from_basis
    &&& made.from_segment == candidate.from_segment
    &&& made.to_basis == candidate.to_basis
    &&& made.to_segment == candidate.to_segment
    &&& made.score == candidate.score
    &&& made.position_cost == candidate.position_cost
    &&& made.velocity_cost == candidate.velocity_cost
    &&& made.acceleration_cost == candidate.acceleration_cost
    &&& made.usage_bonus == candidate.usage_bonus
    &&& crate::basis_motion_graph::same_optional_transition(made.transition, candidate.transition)
}

/// `best` holds the preferred candidates, at most `top_k`, ranked from 0 on.
pub open spec fn are_best_candidates(
    best: Seq<BasisMotionGraphBranch>,
    candidates: Seq<BasisMotionGraphBranch>,
    top_k: usize,
) -> bool {
    exists|order: Seq<usize>|
        {
            &&& #[trigger] is_preference_order(candidates, order)
            &&& best.len() == if candidates.len() < top_k {
                candidates.len() as int
            } else {
                top_k as int
            }
            &&& forall|p: int|
                0 <= p < best.len() ==> ranked_branch(
                    #[trigger] best[p],
                    candidates[order[p] as int],
                    p,
                )
        }
}

/// Keeps the preferred candidates, at most `top_k`, and ranks them from 0 on.
pub fn rank_candidates(candidates: &Vec<BasisMotionGraphBranch>, top_k: usize) -> (best: Vec<
    BasisMotionGraphBranch,
>)
    ensures
        are_best_candidates(best@, candidates@, top_k),
{
    let order: Vec<usize> = order_candidates(candidates);
    let kept: usize = if order.len() < top_k {
        order.len()
    } else {
        top_k
    };
    let mut best: Vec<BasisMotionGraphBranch> = Vec::new();
    for p in 0..kept
        invariant
            kept <= order@.len(),
            is_preference_order(candidates@, order@),
            best@.len() == p,
            forall|q: int|
                0 <= q < p ==> ranked_branch(
                    #[trigger] best@[q],
                    candidates@[order@[q] as int],
                    q,
                ),
    {
        let mut branch: BasisMotionGraphBranch = candidates[order[p]].clone();
        branch.rank = p;
        best.push(branch);
    }
    assert(is_preference_order(candidates@, order@));
    best
}

/// The best branch of the graph for a node leads elsewhere than `best`.
pub open spec fn best_target_changed(
    graph: BasisMotionGraph,
    basis_id: usize,
    segment: usize,
    best: BasisMotionGraphBranch,
) -> bool {
    &&& graph.lods@.len() > 0
    &&& exists|order: Seq<usize>|
        {
            &&& #[trigger] crate::basis_motion_graph::is_branch_order(
                graph.lods@[0].branches@,
                graph.lods@[0].branches@.len() as int,
                basis_id,
                segment,
                order,
            )
            &&& order.len() > 0
            &&& (graph.lods@[0].branches@[order[0] as int].to_basis != best.to_basis
                || graph.lods@[0].branches@[order[0] as int].to_segment != best.to_segment)
        }
}

/// Whether a refreshed best branch leads elsewhere than the one of the graph. A node without
/// branches in the graph has not changed.
pub fn baseline_best_changed(
    graph: &BasisMotionGraph,
    from_basis: usize,
    from_segment: usize,
    refreshed_best: &BasisMotionGraphBranch,
) -> (r: bool)
    ensures
        r == best_target_changed(*graph, from_basis, from_segment, *refreshed_best),
{
    if graph.lods.len() == 0 {
        return false;
    }
    let branches: &Vec<BasisMotionGraphBranch> = &graph.lods[0].branches;
    let total: usize = branches.len();
    let order: Vec<usize> = graph.branch_order_for(from_basis, from_segment);
    proof {
        assert forall|other: Seq<usize>|
            #[trigger] crate::basis_motion_graph::is_branch_order(
                branches@,
                branches@.len() as int,
                from_basis,
                from_segment,
                other,
            ) implies other == order@ by {
            crate::basis_motion_graph::branch_order_is_unique(
                branches@,
                from_basis,
                from_segment,
                other,
                order@,
            );
        }
    }
    if order.len() == 0 {
        return false;
    }
    let baseline: &BasisMotionGraphBranch = &branches[order[0]];
    baseline.to_basis != refreshed_best.to_basis || baseline.to_segment
        != refreshed_best.to_segment
}

/// The scored branches out of one node.
#[derive(Debug)]
pub struct NodeCandidates {
    pub from_basis: usize,
    pub from_segment: usize,
    pub candidates: Vec<BasisMotionGraphBranch>,
}

/// Nodes among the first `n` that get branches.
pub open spec fn refreshed_count(nodes: Seq<NodeCandidates>, top_k: usize, n: nat) -> int
    decreases n,
{
    if n == 0 {
        0
    } else {
        refreshed_count(nodes, top_k, (n - 1) as nat) + if nodes[n - 1].candidates@.len() > 0
            && top_k > 0 {
            1int
        } else {
            0int
        }
    }
}

/// The preferred candidate of a node leads elsewhere than the best branch of the graph.
pub open spec fn node_changed(graph: BasisMotionGraph, node: NodeCandidates) -> bool {
    exists|order: Seq<usize>|
        {
            &&& #[trigger] is_preference_order(node.candidates@, order)
            &&& order.len() > 0
            &&& best_target_changed(
                graph,
                node.from_basis,
                node.from_segment,
                node.candidates@[order[0] as int],
            )
        }
}

/// Nodes among the first `n` whose best target changed.
pub open spec fn changed_count(graph: BasisMotionGraph, nodes: Seq<NodeCandidates>, n: nat) -> int
    decreases n,
{
    if n == 0 {
        0
    } else {
        changed_count(graph, nodes, (n - 1) as nat) + if graph.branch_top_k > 0 && node_changed(
            graph,
            nodes[n - 1],
        ) {
            1int
        } else {
            0int
        }
    }
}

/// Every node with candidates has its best ones, and no other node has any.
pub open spec fn overrides_follow(
    overrides: BasisGraphBranchOverrides,
    nodes: Seq<NodeCandidates>,
    top_k: usize,
    n: int,
) -> bool {
    &&& forall|i: int|
        0 <= i < n && nodes[i].candidates@.len() > 0 && top_k > 0 ==> {
            let node = #[trigger] nodes[i];
            overrides.node(node.from_basis, node.from_segment) matches Some(best)
                && are_best_candidates(best, node.candidates@, top_k)
        }
    &&& forall|b: usize, s: usize|
        (#[trigger] overrides.node(b, s)) is Some ==> exists|i: int|
            0 <= i < n && (#[trigger] nodes[i]).from_basis == b && nodes[i].from_segment == s
                && nodes[i].candidates@.len() > 0 && top_k > 0
}

/// No node is listed twice.
pub open spec fn nodes_distinct(nodes: Seq<NodeCandidates>) -> bool {
    forall|i: int, j: int|
        0 <= i < j < nodes.len() ==> (#[trigger] nodes[i]).from_basis != (
        #[trigger] nodes[j]).from_basis || nodes[i].from_segment != nodes[j].from_segment
}

impl BasisGraphBranchOverrides {
    /// Replaces all branches by the best of newly scored candidates.
    pub fn refresh(&mut self, graph: &BasisMotionGraph, nodes: &Vec<NodeCandidates>) -> (r:
        BasisGraphAuthoringRefreshSummary)
        requires
            nodes_distinct(nodes@),
        ensures
            overrides_follow(*final(self), nodes@, graph.branch_top_k, nodes@.len() as int),
            r.refreshed_node_count == refreshed_count(nodes@, graph.branch_top_k, nodes@.len()),
            r.changed_best_target_count == changed_count(*graph, nodes@, nodes@.len()),
            r.last_refresh_ms == crate::float_bits::ZERO,
    {
        self.clear();
        let mut refreshed: usize = 0;
        let mut changed: usize = 0;
        let top_k: usize = graph.branch_top_k;
        let mut i: usize = 0;
        while i < nodes.len()
            invariant
                i <= nodes@.len(),
                top_k == graph.branch_top_k,
                nodes_distinct(nodes@),
                overrides_follow(*self, nodes@, top_k, i as int),
                refreshed == refreshed_count(nodes@, top_k, i as nat),
                changed == changed_count(*graph, nodes@, i as nat),
                refreshed <= i,
                changed <= i,
            decreases nodes@.len() - i,
        {
            let node: &NodeCandidates = &nodes[i];
            let best: Vec<BasisMotionGraphBranch> = rank_candidates(&node.candidates, top_k);
            let ghost candidates = node.candidates@;
            proof {
                let order = choose|order: Seq<usize>|
                    {
                        &&& #[trigger] is_preference_order(candidates, order)
                        &&& best@.len() == if candidates.len() < top_k {
                            candidates.len() as int
                        } else {
                            top_k as int
                        }
                        &&& forall|p: int|
                            0 <= p < best@.len() ==> ranked_branch(
                                #[trigger] best@[p],
                                candidates[order[p] as int],
                                p,
                            )
                    };
                assert forall|other: Seq<usize>|
                    #[trigger] is_preference_order(candidates, other) implies other == order by {
                    preference_order_is_unique(candidates, other, order);
                }
                if best@.len() > 0 {
                    assert(ranked_branch(best@[0], candidates[order[0] as int], 0));
                    assert(best_target_changed(
                        *graph,
                        node.from_basis,
                        node.from_segment,
                        best@[0],
                    ) == best_target_changed(
                        *graph,
                        node.from_basis,
                        node.from_segment,
                        candidates[order[0] as int],
                    ));
                    assert(node_changed(*graph, nodes@[i as int]) == best_target_changed(
                        *graph,
                        node.from_basis,
                        node.from_segment,
                        best@[0],
                    ));
                } else {
                    assert(top_k == 0 || candidates.len() == 0);
                }
            }
            let ghost before = *self;
            if best.len() > 0 {
                if baseline_best_changed(graph, node.from_basis, node.from_segment, &best[0]) {
                    changed = changed + 1;
                }
                self.set_node_branches(node.from_basis, node.from_segment, best);
                refreshed = refreshed + 1;
                proof {
                    assert forall|k: int|
                        0 <= k < i + 1 && nodes@[k].candidates@.len() > 0 && top_k > 0 implies {
                        let other = #[trigger] nodes@[k];
                        self.node(other.from_basis, other.from_segment) matches Some(b)
                            && are_best_candidates(b, other.candidates@, top_k)
                    } by {
                        if k < i {
                            let other = nodes@[k];
                            assert(other.from_basis != nodes@[i as int].from_basis
                                || other.from_segment != nodes@[i as int].from_segment);
                            assert(self.node(other.from_basis, other.from_segment) == before.node(
                                other.from_basis,
                                other.from_segment,
                            ));
                        }
                    }
                    assert forall|b: usize, s: usize|
                        (#[trigger] self.node(b, s)) is Some implies exists|k: int|
                        0 <= k < i + 1 && (#[trigger] nodes@[k]).from_basis == b
                            && nodes@[k].from_segment == s && nodes@[k].candidates@.len() > 0
                            && top_k > 0 by {
                        if b == node.from_basis && s == node.from_segment {
                            assert(nodes@[i as int].from_basis == b);
                        } else {
                            assert(before.node(b, s) is Some);
                            let k = choose|k: int|
                                0 <= k < i && (#[trigger] nodes@[k]).from_basis == b
                                    && nodes@[k].from_segment == s && nodes@[k].candidates@.len()
                                    > 0 && top_k > 0;
                            assert(nodes@[k].from_basis == b);
                        }
                    }
                }
            } else {
                proof {
                    assert(!(nodes@[i as int].candidates@.len() > 0 && top_k > 0));
                    if node_changed(*graph, nodes@[i as int]) && top_k > 0 {
                        let order = choose|order: Seq<usize>|
                            {
                                &&& #[trigger] is_preference_order(candidates, order)
                                &&& order.len() > 0
                                &&& best_target_changed(
                                    *graph,
                                    node.from_basis,
                                    node.from_segment,
                                    candidates[order[0] as int],
                                )
                            };
                        assert(candidates.len() > 0);
                    }
                    assert forall|b: usize, s: usize|
                        (#[trigger] self.node(b, s)) is Some implies exists|k: int|
                        0 <= k < i + 1 && (#[trigger] nodes@[k]).from_basis == b
                            && nodes@[k].from_segment == s && nodes@[k].candidates@.len() > 0
                            && top_k > 0 by {
                        let k = choose|k: int|
                            0 <= k < i && (#[trigger] nodes@[k]).from_basis == b
                                && nodes@[k].from_segment == s && nodes@[k].candidates@.len() > 0
                                && top_k > 0;
                        assert(nodes@[k].from_basis == b);
                    }
                }
            }
            i = i + 1;
        }
        BasisGraphAuthoringRefreshSummary {
            refreshed_node_count: refreshed,
            changed_best_target_count: changed,
            last_refresh_ms: crate::float_bits::ZERO,
        }
    }
}

/// A node has one candidate for every target: every segment of every other basis.
pub open spec fn scores_all(node: NodeCandidates, basis_count: nat, segments: nat) -> bool {
    let targets = targets_of(basis_count, segments, node.from_basis as int);
    &&& node.candidates@.len() == targets.len()
    &&& forall|i: int|
        0 <= i < targets.len() ==> ((#[trigger] node.candidates@[i]).to_basis,
            node.candidates@[i].to_segment) == targets[i]
}

/// Branch `a` comes before branch `b`: by score, then by target.
pub open spec fn comes_before(a: BasisMotionGraphBranch, b: BasisMotionGraphBranch) -> bool {
    let ra = crate::float_bits::total_rank(a.score);
    let rb = crate::float_bits::total_rank(b.score);
    ra < rb || (ra == rb && (a.to_basis < b.to_basis || (a.to_basis == b.to_basis && a.to_segment
        < b.to_segment)))
}

/// Two branches lead to the same place.
pub open spec fn same_target(a: BasisMotionGraphBranch, b: BasisMotionGraphBranch) -> bool {
    a.to_basis == b.to_basis && a.to_segment == b.to_segment
}

/// Where every target of a node was scored, refreshing gives the node as many branches as asked for
/// or as there are targets, each to another place of another basis, ranked from 0 on in strict
/// order; and every target that is left out comes behind all of them.
pub proof fn refreshed_branches_are_the_least(
    overrides: BasisGraphBranchOverrides,
    nodes: Seq<NodeCandidates>,
    top_k: usize,
    i: int,
    basis_count: nat,
    segments: nat,
)
    requires
        overrides_follow(overrides, nodes, top_k, nodes.len() as int),
        0 <= i < nodes.len(),
        nodes[i].from_basis < basis_count <= usize::MAX,
        2 <= basis_count,
        1 <= segments <= usize::MAX,
        1 <= top_k,
        scores_all(nodes[i], basis_count, segments),
    ensures
        overrides.node(nodes[i].from_basis, nodes[i].from_segment) is Some,
        ({
            let list = overrides.node(nodes[i].from_basis, nodes[i].from_segment)->0;
            let candidates = nodes[i].candidates@;
            let targets = (basis_count - 1) * segments;
            &&& list.len() == if targets < top_k {
                targets
            } else {
                top_k as int
            }
            &&& forall|p: int|
                0 <= p < list.len() ==> {
                    &&& (#[trigger] list[p]).rank == p
                    &&& list[p].to_basis < basis_count
                    &&& list[p].to_basis != nodes[i].from_basis
                    &&& list[p].to_segment < segments
                }
            &&& forall|p: int, q: int|
                0 <= p < q < list.len() ==> comes_before(#[trigger] list[p], #[trigger] list[q])
            &&& forall|c: int|
                0 <= c < candidates.len() ==> (exists|p: int|
                    0 <= p < list.len() && same_target(
                        #[trigger] list[p],
                        #[trigger] candidates[c],
                    ) && list[p].score == candidates[c].score) || (forall|p: int|
                    0 <= p < list.len() ==> comes_before(#[trigger] list[p], candidates[c]))
        }),
{
    let node = nodes[i];
    let from = node.from_basis as int;
    let candidates = node.candidates@;
    let targets = targets_of(basis_count, segments, from);
    targets_are_counted(basis_count, segments, from);
    targets_are_distinct(basis_count, segments, from);
    assert((basis_count - 1) * segments >= 1) by (nonlinear_arith)
        requires
            basis_count >= 2,
            segments >= 1,
    ;
    let list = overrides.node(node.from_basis, node.from_segment)->0;
    let order = choose|order: Seq<usize>|
        {
            &&& #[trigger] is_preference_order(candidates, order)
            &&& list.len() == if candidates.len() < top_k {
                candidates.len() as int
            } else {
                top_k as int
            }
            &&& forall|p: int|
                0 <= p < list.len() ==> ranked_branch(
                    #[trigger] list[p],
                    candidates[order[p] as int],
                    p,
                )
        };
    assert forall|p: int| 0 <= p < list.len() implies {
        &&& (#[trigger] list[p]).rank == p
        &&& list[p].to_basis < basis_count
        &&& list[p].to_basis != from
        &&& list[p].to_segment < segments
    } by {
        assert(ranked_branch(list[p], candidates[order[p] as int], p));
        assert((candidates[order[p] as int].to_basis, candidates[order[p] as int].to_segment)
            == targets[order[p] as int]);
    }
    assert forall|p: int, q: int| 0 <= p < q < order.len() implies comes_before(
        candidates[#[trigger] order[p] as int],
        candidates[#[trigger] order[q] as int],
    ) by {
        assert(preferred(candidates, order[p], order[q]));
        assert(order[p] != order[q]);
        assert(targets[order[p] as int] != targets[order[q] as int]);
        assert((candidates[order[p] as int].to_basis, candidates[order[p] as int].to_segment)
            == targets[order[p] as int]);
        assert((candidates[order[q] as int].to_basis, candidates[order[q] as int].to_segment)
            == targets[order[q] as int]);
    }
    assert forall|p: int, q: int| 0 <= p < q < list.len() implies comes_before(
        #[trigger] list[p],
        #[trigger] list[q],
    ) by {
        assert(ranked_branch(list[p], candidates[order[p] as int], p));
        assert(ranked_branch(list[q], candidates[order[q] as int], q));
    }
    assert forall|c: int| 0 <= c < candidates.len() implies (exists|p: int|
        0 <= p < list.len() && same_target(#[trigger] list[p], #[trigger] candidates[c])
            && list[p].score == candidates[c].score) || (forall|p: int|
        0 <= p < list.len() ==> comes_before(#[trigger] list[p], candidates[c])) by {
        assert(candidates.len() == node.candidates.len());
        preference_order_names_all(candidates, order, c as usize);
        let at = choose|at: int| 0 <= at < order.len() && order[at] == c;
        if at < list.len() {
            assert(ranked_branch(list[at], candidates[order[at] as int], at));
            assert(same_target(list[at], candidates[c]));
        } else {
            assert forall|p: int| 0 <= p < list.len() implies comes_before(
                #[trigger] list[p],
                candidates[c],
            ) by {
                assert(ranked_branch(list[p], candidates[order[p] as int], p));
                assert(comes_before(
                    candidates[order[p] as int],
                    candidates[order[at] as int],
                ));
            }
        }
    }
}

/// Targets of the first `n` bases: all segments of each, without those of `from_basis`.
proof fn targets_are_counted(n: nat, segments: nat, from_basis: int)
    requires
        n <= usize::MAX,
        segments <= usize::MAX,
    ensures
        targets_of(n, segments, from_basis).len() == if 0 <= from_basis < n {
            (n - 1) * segments
        } else {
            (n * segments) as int
        },
        forall|i: int|
            0 <= i < targets_of(n, segments, from_basis).len() ==> {
                let t = #[trigger] targets_of(n, segments, from_basis)[i];
                t.0 < n && t.0 != from_basis && t.1 < segments
            },
    decreases n,
{
    if n > 0 {
        targets_are_counted((n - 1) as nat, segments, from_basis);
        assert(n * segments == (n - 1) * segments + segments) by (nonlinear_arith)
            requires
                n > 0,
        ;
        if n >= 2 {
            assert((n - 1) * segments == (n - 2) * segments + segments) by (nonlinear_arith);
        }
    }
    assert(0 * segments == 0);
}

proof fn targets_are_distinct(n: nat, segments: nat, from_basis: int)
    requires
        n <= usize::MAX,
        segments <= usize::MAX,
    ensures
        forall|i: int, j: int|
            0 <= i < j < targets_of(n, segments, from_basis).len() ==> #[trigger] targets_of(
                n,
                segments,
                from_basis,
            )[i] != #[trigger] targets_of(n, segments, from_basis)[j],
    decreases n,
{
    if n > 0 {
        targets_are_distinct((n - 1) as nat, segments, from_basis);
        targets_are_counted((n - 1) as nat, segments, from_basis);
    }
}

} // verus!
