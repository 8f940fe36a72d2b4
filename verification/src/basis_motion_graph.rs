//! The motion graph of a shared basis bank: branches between segments of its bases.

use crate::basis_bank_motion::{BasisBankMotionMeta, BASIS_SCOPE_SHARED_LOD0};
use crate::text::{decimal, option_decimal, same_text};
use vstd::prelude::*;
use vstd::string::*;

verus! {

pub const BASIS_MOTION_GRAPH_FILENAME: &'static str = "motion_graph_basis.json";

pub const BASIS_MOTION_GRAPH_FORMAT: &'static str = "basis_motion_graph";

pub const BASIS_MOTION_GRAPH_MIN_VERSION: u32 = 1;

pub const BASIS_MOTION_GRAPH_MAX_VERSION: u32 = 2;

/// Branches between segments of the bases of a bank.
#[derive(Debug, Clone)]
pub struct BasisMotionGraph {
    pub format: String,
    pub format_version: u32,
    pub basis_scope: String,
    pub basis_source_lod: Option<usize>,
    pub node_unit: String,
    pub include_lods: Vec<usize>,
    pub basis_count: usize,
    pub knot_count: usize,
    pub branch_top_k: usize,
    pub score_weights: BasisMotionGraphScoreWeights,
    pub lods: Vec<BasisMotionGraphLod>,
}

/// Bit patterns of the weights of a branch score.
#[derive(Debug, Clone, Copy)]
pub struct BasisMotionGraphScoreWeights {
    pub position: u32,
    pub velocity: u32,
    pub acceleration: u32,
    pub usage: u32,
}

/// The branches of one LoD.
#[derive(Debug, Clone)]
pub struct BasisMotionGraphLod {
    pub lod_id: usize,
    pub branches: Vec<BasisMotionGraphBranch>,
}

/// A branch from the end of a segment to the start of another. Score and costs are bit patterns.
#[derive(Debug)]
pub struct BasisMotionGraphBranch {
    pub from_basis: usize,
    pub from_segment: usize,
    pub to_basis: usize,
    pub to_segment: usize,
    pub rank: usize,
    pub score: u32,
    pub position_cost: u32,
    pub velocity_cost: u32,
    pub acceleration_cost: u32,
    pub usage_bonus: u32,
    pub transition: Option<BasisMotionGraphTransition>,
}

/// A curve that leads from one segment to the other; its numbers are bit patterns.
#[derive(Debug)]
pub struct BasisMotionGraphTransition {
    pub kind: String,
    pub duration_segments: usize,
    pub knots: Vec<[u32; 3]>,
    pub start_tangent: [u32; 3],
    pub end_tangent: [u32; 3],
}

impl BasisMotionGraphTransition {
    pub open spec fn same_curve(self, other: BasisMotionGraphTransition) -> bool {
        &&& self.kind@ == other.kind@
        &&& self.duration_segments == other.duration_segments
        &&& crate::float_bits::same_points(self.knots@, other.knots@)
        &&& crate::float_bits::same_point(self.start_tangent, other.start_tangent)
        &&& crate::float_bits::same_point(self.end_tangent, other.end_tangent)
    }
}

impl PartialEq for BasisMotionGraphTransition {
    /// Numbers compare by value, not by bit pattern.
    fn eq(&self, other: &BasisMotionGraphTransition) -> (r: bool) {
        same_text(self.kind.as_str(), other.kind.as_str())
            && self.duration_segments == other.duration_segments
            && crate::float_bits::are_same_points(self.knots.as_slice(), other.knots.as_slice())
            && crate::float_bits::is_same_point(self.start_tangent, other.start_tangent)
            && crate::float_bits::is_same_point(self.end_tangent, other.end_tangent)
    }
}

impl vstd::std_specs::cmp::PartialEqSpecImpl for BasisMotionGraphTransition {
    open spec fn obeys_eq_spec() -> bool {
        true
    }

    open spec fn eq_spec(&self, other: &BasisMotionGraphTransition) -> bool {
        self.same_curve(*other)
    }
}

/// Two transitions are the same curve.
pub open spec fn same_transition(
    a: BasisMotionGraphTransition,
    b: BasisMotionGraphTransition,
) -> bool {
    &&& a.kind@ == b.kind@
    &&& a.duration_segments == b.duration_segments
    &&& a.knots@ == b.knots@
    &&& a.start_tangent == b.start_tangent
    &&& a.end_tangent == b.end_tangent
}

pub open spec fn same_optional_transition(
    a: Option<BasisMotionGraphTransition>,
    b: Option<BasisMotionGraphTransition>,
) -> bool {
    match (a, b) {
        (Some(x), Some(y)) => same_transition(x, y),
        (None, None) => true,
        _ => false,
    }
}

/// Two branches hold the same data.
pub open spec fn same_branch(a: BasisMotionGraphBranch, b: BasisMotionGraphBranch) -> bool {
    &&& a.from_basis == b.from_basis
    &&& a.from_segment == b.from_segment
    &&& a.to_basis == b.to_basis
    &&& a.to_segment == b.to_segment
    &&& a.rank == b.rank
    &&& a.score == b.score
    &&& a.position_cost == b.position_cost
    &&& a.velocity_cost == b.velocity_cost
    &&& a.acceleration_cost == b.acceleration_cost
    &&& a.usage_bonus == b.usage_bonus
    &&& same_optional_transition(a.transition, b.transition)
}

impl Clone for BasisMotionGraphTransition {
    fn clone(&self) -> (r: BasisMotionGraphTransition)
        ensures
            same_transition(r, *self),
    {
        let mut knots: Vec<[u32; 3]> = Vec::new();
        for i in 0..self.knots.len()
            invariant
                knots@ == self.knots@.take(i as int),
        {
            knots.push(self.knots[i]);
            assert(knots@ =~= self.knots@.take(i + 1));
        }
        assert(knots@ =~= self.knots@);
        BasisMotionGraphTransition {
            kind: self.kind.clone(),
            duration_segments: self.duration_segments,
            knots,
            start_tangent: self.start_tangent,
            end_tangent: self.end_tangent,
        }
    }
}

impl Clone for BasisMotionGraphBranch {
    fn clone(&self) -> (r: BasisMotionGraphBranch)
        ensures
            same_branch(r, *self),
    {
        BasisMotionGraphBranch {
            from_basis: self.from_basis,
            from_segment: self.from_segment,
            to_basis: self.to_basis,
            to_segment: self.to_segment,
            rank: self.rank,
            score: self.score,
            position_cost: self.position_cost,
            velocity_cost: self.velocity_cost,
            acceleration_cost: self.acceleration_cost,
            usage_bonus: self.usage_bonus,
            transition: match &self.transition {
                Some(t) => Some(t.clone()),
                None => None,
            },
        }
    }
}

/// Why a graph is refused.
#[derive(Debug)]
pub enum GraphError {
    Format { format: String },
    Version { version: u32 },
    Scope { scope: String },
    SourceLod { lod: Option<usize> },
    NodeUnit { unit: String },
    Dimensions { basis_count: usize, knot_count: usize, branch_top_k: usize },
    /// The graph and the bank list different LoDs.
    IncludeLods { graph: Vec<usize>, bank: Vec<usize> },
    BasisCount { graph: usize, bank: usize },
    KnotCount { graph: usize, bank: usize },
    LodCount,
    Lod { lod: usize },
    Branch { index: usize, error: BranchError },
}

/// Why a branch is refused.
#[derive(Debug)]
pub enum BranchError {
    Basis { from: usize, to: usize, basis_count: usize },
    Segment { from: usize, to: usize, knot_count: usize },
    SameBasis { basis: usize },
    Rank { rank: usize, branch_top_k: usize },
    TransitionMissing { from_basis: usize, from_segment: usize, to_basis: usize, to_segment: usize },
    Transition { error: TransitionError },
}

/// Why a transition is refused.
#[derive(Debug)]
pub enum TransitionError {
    Kind { kind: String },
    NoDuration,
    KnotCount { found: usize, expected: usize },
    NonFinite,
}

impl TransitionError {
    pub open spec fn text(self) -> Seq<char> {
        match self {
            TransitionError::Kind { kind } => {
                "unsupported basis motion graph transition kind '"@ + kind@ + "'"@
            },
            TransitionError::NoDuration => {
                "basis motion graph transition duration_segments must be positive"@
            },
            TransitionError::KnotCount { found, expected } => {
                "basis motion graph transition knot count "@
                    + crate::text::decimal_text(found as nat) + " != duration_segments + 1 ("@
                    + crate::text::decimal_text(expected as nat) + ")"@
            },
            TransitionError::NonFinite => {
                "basis motion graph transition contains non-finite value"@
            },
        }
    }

    /// The error in words.
    pub fn message(&self) -> (r: String)
        ensures
            r@ == self.text(),
    {
        match self {
            TransitionError::Kind { kind } => {
                let mut s: String = "unsupported basis motion graph transition kind '".to_owned();
                s.append(kind.as_str());
                s.append("'");
                s
            },
            TransitionError::NoDuration => {
                "basis motion graph transition duration_segments must be positive".to_owned()
            },
            TransitionError::KnotCount { found, expected } => {
                let mut s: String = "basis motion graph transition knot count ".to_owned();
                s.append(decimal(*found as u64).as_str());
                s.append(" != duration_segments + 1 (");
                s.append(decimal(*expected as u64).as_str());
                s.append(")");
                s
            },
            TransitionError::NonFinite => {
                "basis motion graph transition contains non-finite value".to_owned()
            },
        }
    }
}

impl BranchError {
    pub open spec fn text(self) -> Seq<char> {
        match self {
            BranchError::Basis { from, to, basis_count } => {
                "basis motion graph branch basis out of range: "@
                    + crate::text::decimal_text(from as nat) + " -> "@
                    + crate::text::decimal_text(to as nat) + " with basis_count "@
                    + crate::text::decimal_text(basis_count as nat)
            },
            BranchError::Segment { from, to, knot_count } => {
                "basis motion graph branch segment out of range: "@
                    + crate::text::decimal_text(from as nat) + " -> "@
                    + crate::text::decimal_text(to as nat) + " with knot_count "@
                    + crate::text::decimal_text(knot_count as nat)
            },
            BranchError::SameBasis { basis } => {
                "basis motion graph branch targets the same basis "@
                    + crate::text::decimal_text(basis as nat)
            },
            BranchError::Rank { rank, branch_top_k } => {
                "basis motion graph branch rank "@ + crate::text::decimal_text(rank as nat)
                    + " >= branch_top_k "@ + crate::text::decimal_text(branch_top_k as nat)
            },
            BranchError::TransitionMissing { from_basis, from_segment, to_basis, to_segment } => {
                "basis motion graph branch "@ + crate::text::decimal_text(from_basis as nat) + ":"@
                    + crate::text::decimal_text(from_segment as nat) + " -> "@
                    + crate::text::decimal_text(to_basis as nat) + ":"@
                    + crate::text::decimal_text(to_segment as nat) + " missing transition"@
            },
            BranchError::Transition { error } => error.text(),
        }
    }

    /// The error in words.
    pub fn message(&self) -> (r: String)
        ensures
            r@ == self.text(),
    {
        match self {
            BranchError::Basis { from, to, basis_count } => {
                let mut s: String = "basis motion graph branch basis out of range: ".to_owned();
                s.append(decimal(*from as u64).as_str());
                s.append(" -> ");
                s.append(decimal(*to as u64).as_str());
                s.append(" with basis_count ");
                s.append(decimal(*basis_count as u64).as_str());
                s
            },
            BranchError::Segment { from, to, knot_count } => {
                let mut s: String = "basis motion graph branch segment out of range: ".to_owned();
                s.append(decimal(*from as u64).as_str());
                s.append(" -> ");
                s.append(decimal(*to as u64).as_str());
                s.append(" with knot_count ");
                s.append(decimal(*knot_count as u64).as_str());
                s
            },
            BranchError::SameBasis { basis } => {
                let mut s: String = "basis motion graph branch targets the same basis ".to_owned();
                s.append(decimal(*basis as u64).as_str());
                s
            },
            BranchError::Rank { rank, branch_top_k } => {
                let mut s: String = "basis motion graph branch rank ".to_owned();
                s.append(decimal(*rank as u64).as_str());
                s.append(" >= branch_top_k ");
                s.append(decimal(*branch_top_k as u64).as_str());
                s
            },
            BranchError::TransitionMissing { from_basis, from_segment, to_basis, to_segment } => {
                let mut s: String = "basis motion graph branch ".to_owned();
                s.append(decimal(*from_basis as u64).as_str());
                s.append(":");
                s.append(decimal(*from_segment as u64).as_str());
                s.append(" -> ");
                s.append(decimal(*to_basis as u64).as_str());
                s.append(":");
                s.append(decimal(*to_segment as u64).as_str());
                s.append(" missing transition");
                s
            },
            BranchError::Transition { error } => error.message(),
        }
    }
}

impl GraphError {
    pub open spec fn text(self) -> Seq<char> {
        match self {
            GraphError::Format { format } => {
                "unsupported basis motion graph format '"@ + format@ + "'"@
            },
            GraphError::Version { version } => {
                "unsupported basis motion graph version "@
                    + crate::text::decimal_text(version as nat)
            },
            GraphError::Scope { scope } => {
                "unsupported basis motion graph scope '"@ + scope@ + "'; expected shared_lod0"@
            },
            GraphError::SourceLod { lod } => {
                "shared_lod0 basis motion graph requires basis_source_lod=0, got "@
                    + crate::text::option_text(lod)
            },
            GraphError::NodeUnit { unit } => {
                "unsupported basis motion graph node unit '"@ + unit@ + "'"@
            },
            GraphError::Dimensions { basis_count, knot_count, branch_top_k } => {
                "invalid basis motion graph dimensions: basis_count="@
                    + crate::text::decimal_text(basis_count as nat) + ", knot_count="@
                    + crate::text::decimal_text(knot_count as nat) + ", branch_top_k="@
                    + crate::text::decimal_text(branch_top_k as nat)
            },
            GraphError::IncludeLods { graph, bank } => {
                "basis motion graph include_lods "@ + crate::text::list_text(graph@)
                    + " != basis bank include_lods "@ + crate::text::list_text(bank@)
            },
            GraphError::BasisCount { graph, bank } => {
                "basis motion graph basis_count "@ + crate::text::decimal_text(graph as nat)
                    + " != basis bank basis_count "@ + crate::text::decimal_text(bank as nat)
            },
            GraphError::KnotCount { graph, bank } => {
                "basis motion graph knot_count "@ + crate::text::decimal_text(graph as nat)
                    + " != basis bank exported_knot_count "@
                    + crate::text::decimal_text(bank as nat)
            },
            GraphError::LodCount => {
                "shared_lod0 motion graph must contain exactly one LoD0 branch payload"@
            },
            GraphError::Lod { lod } => {
                "shared_lod0 motion graph payload has lod_id="@
                    + crate::text::decimal_text(lod as nat) + "; expected 0"@
            },
            GraphError::Branch { index: _, error } => error.text(),
        }
    }

    /// The error in words.
    pub fn message(&self) -> (r: String)
        ensures
            r@ == self.text(),
    {
        match self {
            GraphError::Format { format } => {
                let mut s: String = "unsupported basis motion graph format '".to_owned();
                s.append(format.as_str());
                s.append("'");
                s
            },
            GraphError::Version { version } => {
                let mut s: String = "unsupported basis motion graph version ".to_owned();
                s.append(decimal(*version as u64).as_str());
                s
            },
            GraphError::Scope { scope } => {
                let mut s: String = "unsupported basis motion graph scope '".to_owned();
                s.append(scope.as_str());
                s.append("'; expected shared_lod0");
                s
            },
            GraphError::SourceLod { lod } => {
                let mut s: String =
                    "shared_lod0 basis motion graph requires basis_source_lod=0, got ".to_owned();
                s.append(option_decimal(*lod).as_str());
                s
            },
            GraphError::NodeUnit { unit } => {
                let mut s: String = "unsupported basis motion graph node unit '".to_owned();
                s.append(unit.as_str());
                s.append("'");
                s
            },
            GraphError::Dimensions { basis_count, knot_count, branch_top_k } => {
                let mut s: String =
                    "invalid basis motion graph dimensions: basis_count=".to_owned();
                s.append(decimal(*basis_count as u64).as_str());
                s.append(", knot_count=");
                s.append(decimal(*knot_count as u64).as_str());
                s.append(", branch_top_k=");
                s.append(decimal(*branch_top_k as u64).as_str());
                s
            },
            GraphError::IncludeLods { graph, bank } => {
                let mut s: String = "basis motion graph include_lods ".to_owned();
                s.append(crate::text::list_decimal(graph.as_slice()).as_str());
                s.append(" != basis bank include_lods ");
                s.append(crate::text::list_decimal(bank.as_slice()).as_str());
                s
            },
            GraphError::BasisCount { graph, bank } => {
                let mut s: String = "basis motion graph basis_count ".to_owned();
                s.append(decimal(*graph as u64).as_str());
                s.append(" != basis bank basis_count ");
                s.append(decimal(*bank as u64).as_str());
                s
            },
            GraphError::KnotCount { graph, bank } => {
                let mut s: String = "basis motion graph knot_count ".to_owned();
                s.append(decimal(*graph as u64).as_str());
                s.append(" != basis bank exported_knot_count ");
                s.append(decimal(*bank as u64).as_str());
                s
            },
            GraphError::LodCount => {
                "shared_lod0 motion graph must contain exactly one LoD0 branch payload".to_owned()
            },
            GraphError::Lod { lod } => {
                let mut s: String = "shared_lod0 motion graph payload has lod_id=".to_owned();
                s.append(decimal(*lod as u64).as_str());
                s.append("; expected 0");
                s
            },
            GraphError::Branch { index: _, error } => error.message(),
        }
    }
}

pub open spec fn finite3(v: [u32; 3]) -> bool {
    crate::float_bits::finite(v[0]) && crate::float_bits::finite(v[1]) && crate::float_bits::finite(
        v[2],
    )
}

fn is_finite3(v: &[u32; 3]) -> (r: bool)
    ensures
        r == finite3(*v),
{
    crate::float_bits::is_finite(v[0]) && crate::float_bits::is_finite(v[1])
        && crate::float_bits::is_finite(v[2])
}

/// All numbers of a transition are finite.
pub open spec fn transition_finite(t: BasisMotionGraphTransition) -> bool {
    &&& forall|i: int| 0 <= i < t.knots@.len() ==> finite3(#[trigger] t.knots@[i])
    &&& finite3(t.start_tangent)
    &&& finite3(t.end_tangent)
}

pub open spec fn transition_error(t: BasisMotionGraphTransition) -> Option<TransitionError> {
    if t.kind@ != "open_catmull_rom"@ {
        Some(TransitionError::Kind { kind: t.kind })
    } else if t.duration_segments == 0 {
        Some(TransitionError::NoDuration)
    } else if t.knots@.len() != t.duration_segments + 1 {
        Some(
            TransitionError::KnotCount {
                found: t.knots@.len() as usize,
                expected: if t.duration_segments == usize::MAX {
                    usize::MAX
                } else {
                    (t.duration_segments + 1) as usize
                },
            },
        )
    } else if !transition_finite(t) {
        Some(TransitionError::NonFinite)
    } else {
        None
    }
}

impl BasisMotionGraphTransition {
    /// Checks kind, duration, knot count and finiteness.
    pub fn validate(&self) -> (r: Result<(), TransitionError>)
        ensures
            match r {
                Ok(_) => transition_error(*self) is None,
                Err(error) => transition_error(*self) == Some(error),
            },
    {
        if !same_text(self.kind.as_str(), "open_catmull_rom") {
            return Err(TransitionError::Kind { kind: self.kind.clone() });
        }
        if self.duration_segments == 0 {
            return Err(TransitionError::NoDuration);
        }
        if self.knots.len() == 0 || self.knots.len() - 1 != self.duration_segments {
            let expected: usize = if self.duration_segments == usize::MAX {
                usize::MAX
            } else {
                self.duration_segments + 1
            };
            return Err(TransitionError::KnotCount { found: self.knots.len(), expected });
        }
        for i in 0..self.knots.len()
            invariant
                self.kind@ == "open_catmull_rom"@,
                self.duration_segments != 0,
                self.knots@.len() == self.duration_segments + 1,
                forall|k: int| 0 <= k < i ==> finite3(#[trigger] self.knots@[k]),
        {
            if !is_finite3(&self.knots[i]) {
                assert(!finite3(self.knots@[i as int]));
                return Err(TransitionError::NonFinite);
            }
        }
        if !is_finite3(&self.start_tangent) || !is_finite3(&self.end_tangent) {
            return Err(TransitionError::NonFinite);
        }
        Ok(())
    }
}

/// The first rule that a branch breaks, in a graph of these dimensions.
pub open spec fn branch_error(
    branch: BasisMotionGraphBranch,
    format_version: u32,
    basis_count: usize,
    knot_count: usize,
    branch_top_k: usize,
) -> Option<BranchError> {
    if branch.from_basis >= basis_count || branch.to_basis >= basis_count {
        Some(
            BranchError::Basis { from: branch.from_basis, to: branch.to_basis, basis_count },
        )
    } else if branch.from_segment >= knot_count || branch.to_segment >= knot_count {
        Some(
            BranchError::Segment { from: branch.from_segment, to: branch.to_segment, knot_count },
        )
    } else if branch.from_basis == branch.to_basis {
        Some(BranchError::SameBasis { basis: branch.from_basis })
    } else if branch.rank >= branch_top_k {
        Some(BranchError::Rank { rank: branch.rank, branch_top_k })
    } else if format_version >= 2 {
        match branch.transition {
            None => Some(
                BranchError::TransitionMissing {
                    from_basis: branch.from_basis,
                    from_segment: branch.from_segment,
                    to_basis: branch.to_basis,
                    to_segment: branch.to_segment,
                },
            ),
            Some(t) => match transition_error(t) {
                Some(error) => Some(BranchError::Transition { error }),
                None => None,
            },
        }
    } else {
        None
    }
}

impl BasisMotionGraphBranch {
    /// Checks a branch against the dimensions of its graph.
    pub fn validate(
        &self,
        format_version: u32,
        basis_count: usize,
        knot_count: usize,
        branch_top_k: usize,
    ) -> (r: Result<(), BranchError>)
        ensures
            match r {
                Ok(_) => branch_error(
                    *self,
                    format_version,
                    basis_count,
                    knot_count,
                    branch_top_k,
                ) is None,
                Err(error) => branch_error(
                    *self,
                    format_version,
                    basis_count,
                    knot_count,
                    branch_top_k,
                ) == Some(error),
            },
    {
        if self.from_basis >= basis_count || self.to_basis >= basis_count {
            return Err(
                BranchError::Basis { from: self.from_basis, to: self.to_basis, basis_count },
            );
        }
        if self.from_segment >= knot_count || self.to_segment >= knot_count {
            return Err(
                BranchError::Segment { from: self.from_segment, to: self.to_segment, knot_count },
            );
        }
        if self.from_basis == self.to_basis {
            return Err(BranchError::SameBasis { basis: self.from_basis });
        }
        if self.rank >= branch_top_k {
            return Err(BranchError::Rank { rank: self.rank, branch_top_k });
        }
        if format_version >= 2 {
            match &self.transition {
                None => {
                    return Err(
                        BranchError::TransitionMissing {
                    from_basis: self.from_basis,
                    from_segment: self.from_segment,
                    to_basis: self.to_basis,
                    to_segment: self.to_segment,
                },
                    );
                },
                Some(transition) => match transition.validate() {
                    Ok(_) => {},
                    Err(error) => {
                        return Err(BranchError::Transition { error });
                    },
                },
            }
        }
        Ok(())
    }
}

/// The first rule on its own that a graph breaks.
pub open spec fn graph_error(graph: BasisMotionGraph) -> Option<GraphError> {
    if graph.format@ != BASIS_MOTION_GRAPH_FORMAT@ {
        Some(GraphError::Format { format: graph.format })
    } else if graph.format_version < BASIS_MOTION_GRAPH_MIN_VERSION || graph.format_version
        > BASIS_MOTION_GRAPH_MAX_VERSION {
        Some(GraphError::Version { version: graph.format_version })
    } else if graph.basis_scope@ != BASIS_SCOPE_SHARED_LOD0@ {
        Some(GraphError::Scope { scope: graph.basis_scope })
    } else if graph.basis_source_lod != Some(0usize) {
        Some(GraphError::SourceLod { lod: graph.basis_source_lod })
    } else if graph.node_unit@ != "basis_segment"@ {
        Some(GraphError::NodeUnit { unit: graph.node_unit })
    } else if graph.basis_count == 0 || graph.knot_count == 0 || graph.branch_top_k == 0 {
        Some(
            GraphError::Dimensions {
                basis_count: graph.basis_count,
                knot_count: graph.knot_count,
                branch_top_k: graph.branch_top_k,
            },
        )
    } else {
        None
    }
}

/// Checks format, version, scope and dimensions of a graph.
pub fn parse_basis_motion_graph(
    graph: BasisMotionGraph,
) -> (r: Result<BasisMotionGraph, GraphError>)
    ensures
        match r {
            Ok(accepted) => graph_error(graph) is None && accepted == graph,
            Err(error) => graph_error(graph) == Some(error),
        },
{
    if !same_text(graph.format.as_str(), BASIS_MOTION_GRAPH_FORMAT) {
        return Err(GraphError::Format { format: graph.format });
    }
    if graph.format_version < BASIS_MOTION_GRAPH_MIN_VERSION || graph.format_version
        > BASIS_MOTION_GRAPH_MAX_VERSION {
        return Err(GraphError::Version { version: graph.format_version });
    }
    if !same_text(graph.basis_scope.as_str(), BASIS_SCOPE_SHARED_LOD0) {
        return Err(GraphError::Scope { scope: graph.basis_scope });
    }
    match graph.basis_source_lod {
        Some(lod) => {
            if lod != 0 {
                return Err(GraphError::SourceLod { lod: graph.basis_source_lod });
            }
        },
        None => {
            return Err(GraphError::SourceLod { lod: graph.basis_source_lod });
        },
    }
    if !same_text(graph.node_unit.as_str(), "basis_segment") {
        return Err(GraphError::NodeUnit { unit: graph.node_unit });
    }
    if graph.basis_count == 0 || graph.knot_count == 0 || graph.branch_top_k == 0 {
        return Err(
            GraphError::Dimensions {
                basis_count: graph.basis_count,
                knot_count: graph.knot_count,
                branch_top_k: graph.branch_top_k,
            },
        );
    }
    Ok(graph)
}

/// The first branch from `from` on that breaks a rule, and the rule.
pub open spec fn first_bad_branch(
    graph: BasisMotionGraph,
    branches: Seq<BasisMotionGraphBranch>,
    from: nat,
) -> Option<(int, BranchError)>
    decreases branches.len() - from,
{
    if from >= branches.len() {
        None
    } else {
        match branch_error(
            branches[from as int],
            graph.format_version,
            graph.basis_count,
            graph.knot_count,
            graph.branch_top_k,
        ) {
            Some(error) => Some((from as int, error)),
            None => first_bad_branch(graph, branches, from + 1),
        }
    }
}

/// The first rule that a graph breaks with respect to a basis bank.
pub open spec fn bank_error(
    graph: BasisMotionGraph,
    meta: BasisBankMotionMeta,
) -> Option<GraphError> {
    if graph.include_lods@ != meta.include_lods@ {
        Some(GraphError::IncludeLods { graph: graph.include_lods, bank: meta.include_lods })
    } else if graph.basis_count != meta.basis_count {
        Some(GraphError::BasisCount { graph: graph.basis_count, bank: meta.basis_count })
    } else if graph.knot_count != meta.exported_knot_count {
        Some(GraphError::KnotCount { graph: graph.knot_count, bank: meta.exported_knot_count })
    } else if graph.lods@.len() != 1 {
        Some(GraphError::LodCount)
    } else if graph.lods@[0].lod_id != 0 {
        Some(GraphError::Lod { lod: graph.lods@[0].lod_id })
    } else {
        match first_bad_branch(graph, graph.lods@[0].branches@, 0) {
            Some((index, error)) => Some(GraphError::Branch { index: index as usize, error }),
            None => None,
        }
    }
}

/// Two errors say the same.
pub open spec fn same_error(a: GraphError, b: GraphError) -> bool {
    match (a, b) {
        (
            GraphError::IncludeLods { graph, bank },
            GraphError::IncludeLods { graph: other_graph, bank: other_bank },
        ) => graph@ == other_graph@ && bank@ == other_bank@,
        _ => a == b,
    }
}

fn copied(numbers: &Vec<usize>) -> (r: Vec<usize>)
    ensures
        r@ == numbers@,
{
    let mut out: Vec<usize> = Vec::new();
    for i in 0..numbers.len()
        invariant
            out@ == numbers@.take(i as int),
    {
        out.push(numbers[i]);
        assert(out@ =~= numbers@.take(i as int + 1));
    }
    assert(numbers@.take(numbers@.len() as int) =~= numbers@);
    out
}

pub(crate) fn same_numbers(a: &Vec<usize>, b: &Vec<usize>) -> (r: bool)
    ensures
        r == (a@ == b@),
{
    if a.len() != b.len() {
        return false;
    }
    for i in 0..a.len()
        invariant
            a@.len() == b@.len(),
            forall|k: int| 0 <= k < i ==> a@[k] == b@[k],
    {
        if a[i] != b[i] {
            assert(a@[i as int] != b@[i as int]);
            return false;
        }
    }
    assert(a@ =~= b@);
    true
}

/// Branch `i` leaves the given node.
pub open spec fn leaves_node(
    branch: BasisMotionGraphBranch,
    basis_id: usize,
    segment: usize,
) -> bool {
    branch.from_basis == basis_id && branch.from_segment == segment
}

/// Branch `i` comes before branch `j`: lower rank first, then file order.
pub open spec fn branch_before(branches: Seq<BasisMotionGraphBranch>, i: usize, j: usize) -> bool {
    branches[i as int].rank < branches[j as int].rank || (branches[i as int].rank
        == branches[j as int].rank && i < j)
}

/// `order` lists exactly the branches among the first `n` that leave the node, by rank.
pub open spec fn is_branch_order(
    branches: Seq<BasisMotionGraphBranch>,
    n: int,
    basis_id: usize,
    segment: usize,
    order: Seq<usize>,
) -> bool {
    &&& forall|p: int|
        0 <= p < order.len() ==> (#[trigger] order[p]) < n && leaves_node(
            branches[order[p] as int],
            basis_id,
            segment,
        )
    &&& forall|p: int, q: int|
        0 <= p < q < order.len() ==> branch_before(branches, #[trigger] order[p], #[trigger] order[q])
    &&& forall|i: int|
        0 <= i < n && leaves_node(#[trigger] branches[i], basis_id, segment) ==> order.contains(
            i as usize,
        )
}

/// The branches that leave a node, by rank.
pub open spec fn listed_branches(graph: BasisMotionGraph, basis_id: usize, segment: usize) -> Seq<
    BasisMotionGraphBranch,
> {
    if graph.lods@.len() == 0 {
        Seq::empty()
    } else {
        let branches = graph.lods@[0].branches@;
        let order = choose|order: Seq<usize>|
            is_branch_order(branches, branches.len() as int, basis_id, segment, order);
        Seq::new(order.len(), |p: int| branches[order[p] as int])
    }
}

/// The branches that leave a node, by rank; branches of the same rank keep their order.
pub fn order_branches(
    branches: &Vec<BasisMotionGraphBranch>,
    basis_id: usize,
    segment: usize,
) -> (r: Vec<usize>)
    ensures
        is_branch_order(branches@, branches@.len() as int, basis_id, segment, r@),
{
    let mut order: Vec<usize> = Vec::new();
    let mut i: usize = 0;
    while i < branches.len()
        invariant
            i <= branches@.len(),
            is_branch_order(branches@, i as int, basis_id, segment, order@),
        decreases branches@.len() - i,
    {
        if branches[i].from_basis == basis_id && branches[i].from_segment == segment {
            let mut at: usize = order.len();
            while at > 0 && branches[order[at - 1]].rank > branches[i].rank
                invariant
                    at <= order@.len(),
                    i < branches@.len(),
                    is_branch_order(branches@, i as int, basis_id, segment, order@),
                    forall|p: int|
                        at <= p < order@.len() ==> branches@[#[trigger] order@[p] as int].rank
                            > branches@[i as int].rank,
                decreases at,
            {
                at = at - 1;
            }
            let ghost before = order@;
            order.insert(at, i);
            proof {
                assert(order@ == before.insert(at as int, i));
                assert forall|p: int, q: int| 0 <= p < q < order@.len() implies branch_before(
                    branches@,
                    #[trigger] order@[p],
                    #[trigger] order@[q],
                ) by {
                    if p < at && q == at {
                        if p < at - 1 {
                            assert(branch_before(branches@, before[p], before[at - 1]));
                        }
                    } else if p == at {
                        assert(before[q - 1] == order@[q]);
                    } else {
                        let a = if p < at {
                            p
                        } else {
                            p - 1
                        };
                        let b = if q < at {
                            q
                        } else {
                            q - 1
                        };
                        assert(branch_before(branches@, before[a], before[b]));
                    }
                }
                assert forall|k: int|
                    0 <= k < i + 1 && leaves_node(
                        #[trigger] branches@[k],
                        basis_id,
                        segment,
                    ) implies order@.contains(k as usize) by {
                    if k == i {
                        assert(order@[at as int] == i);
                    } else {
                        assert(before.contains(k as usize));
                        let p = choose|p: int| 0 <= p < before.len() && before[p] == k as usize;
                        if p < at {
                            assert(order@[p] == k as usize);
                        } else {
                            assert(order@[p + 1] == k as usize);
                        }
                    }
                }
                assert forall|p: int| 0 <= p < order@.len() implies (#[trigger] order@[p]) < i + 1
                    && leaves_node(branches@[order@[p] as int], basis_id, segment) by {
                    if p < at {
                        assert(order@[p] == before[p]);
                    } else if p > at {
                        assert(order@[p] == before[p - 1]);
                    }
                }
            }
        }
        i = i + 1;
    }
    order
}

impl BasisMotionGraph {
    /// Checks that a graph belongs to a basis bank: the same LoDs, bases and knots, one branch list
    /// for LoD 0, and branches within these dimensions.
    pub fn validate_against_basis_bank(&self, meta: &BasisBankMotionMeta) -> (r: Result<
        (),
        GraphError,
    >)
        ensures
            match r {
                Ok(_) => bank_error(*self, *meta) is None,
                Err(error) => bank_error(*self, *meta) matches Some(expected) && same_error(
                    error,
                    expected,
                ),
            },
    {
        if !same_numbers(&self.include_lods, &meta.include_lods) {
            return Err(
                GraphError::IncludeLods {
                    graph: copied(&self.include_lods),
                    bank: copied(&meta.include_lods),
                },
            );
        }
        if self.basis_count != meta.basis_count {
            return Err(GraphError::BasisCount { graph: self.basis_count, bank: meta.basis_count });
        }
        if self.knot_count != meta.exported_knot_count {
            return Err(
                GraphError::KnotCount { graph: self.knot_count, bank: meta.exported_knot_count },
            );
        }
        if self.lods.len() != 1 {
            return Err(GraphError::LodCount);
        }
        let lod0: &BasisMotionGraphLod = &self.lods[0];
        if lod0.lod_id != 0 {
            return Err(GraphError::Lod { lod: lod0.lod_id });
        }
        for i in 0..lod0.branches.len()
            invariant
                *lod0 == self.lods@[0],
                self.lods@.len() == 1,
                lod0.lod_id == 0,
                self.include_lods@ == meta.include_lods@,
                self.basis_count == meta.basis_count,
                self.knot_count == meta.exported_knot_count,
                first_bad_branch(*self, lod0.branches@, 0) == first_bad_branch(
                    *self,
                    lod0.branches@,
                    i as nat,
                ),
        {
            match lod0.branches[i].validate(
                self.format_version,
                self.basis_count,
                self.knot_count,
                self.branch_top_k,
            ) {
                Ok(_) => {},
                Err(error) => {
                    return Err(GraphError::Branch { index: i, error });
                },
            }
        }
        Ok(())
    }

    /// The branches that leave a node, by rank.
    pub fn branches_for(&self, basis_id: usize, segment: usize) -> (r: Vec<
        &BasisMotionGraphBranch,
    >)
        ensures
            self.lods@.len() == 0 ==> r@.len() == 0,
            self.lods@.len() > 0 ==> exists|order: Seq<usize>|
                {
                    &&& #[trigger] is_branch_order(
                        self.lods@[0].branches@,
                        self.lods@[0].branches@.len() as int,
                        basis_id,
                        segment,
                        order,
                    )
                    &&& r@.len() == order.len()
                    &&& forall|p: int|
                        0 <= p < r@.len() ==> *(#[trigger] r@[p])
                            == self.lods@[0].branches@[order[p] as int]
                },
            r@.len() == listed_branches(*self, basis_id, segment).len(),
            forall|p: int|
                0 <= p < r@.len() ==> *(#[trigger] r@[p]) == listed_branches(
                    *self,
                    basis_id,
                    segment,
                )[p],
    {
        let order: Vec<usize> = self.branch_order_for(basis_id, segment);
        let mut out: Vec<&BasisMotionGraphBranch> = Vec::new();
        if self.lods.len() == 0 {
            return out;
        }
        let branches: &Vec<BasisMotionGraphBranch> = &self.lods[0].branches;
        for p in 0..order.len()
            invariant
                *branches == self.lods@[0].branches,
                is_branch_order(
                    branches@,
                    branches@.len() as int,
                    basis_id,
                    segment,
                    order@,
                ),
                out@.len() == p,
                forall|q: int| 0 <= q < p ==> *(#[trigger] out@[q]) == branches@[order@[q] as int],
        {
            out.push(&branches[order[p]]);
        }
        proof {
            let total: usize = branches.len();
            let chosen = choose|order: Seq<usize>|
                is_branch_order(branches@, branches@.len() as int, basis_id, segment, order);
            branch_order_is_unique(branches@, basis_id, segment, chosen, order@);
        }
        out
    }

    /// Places in the branch list of LoD 0 of the branches that leave a node, by rank.
    pub fn branch_order_for(&self, basis_id: usize, segment: usize) -> (r: Vec<usize>)
        ensures
            self.lods@.len() == 0 ==> r@.len() == 0,
            self.lods@.len() > 0 ==> is_branch_order(
                self.lods@[0].branches@,
                self.lods@[0].branches@.len() as int,
                basis_id,
                segment,
                r@,
            ),
    {
        if self.lods.len() == 0 {
            return Vec::new();
        }
        order_branches(&self.lods[0].branches, basis_id, segment)
    }
}

/// A branch list has one order by rank for each node.
pub proof fn branch_order_is_unique(
    branches: Seq<BasisMotionGraphBranch>,
    basis_id: usize,
    segment: usize,
    a: Seq<usize>,
    b: Seq<usize>,
)
    requires
        branches.len() <= usize::MAX,
        is_branch_order(branches, branches.len() as int, basis_id, segment, a),
        is_branch_order(branches, branches.len() as int, basis_id, segment, b),
    ensures
        a == b,
{
    let m = if a.len() <= b.len() {
        a.len() as int
    } else {
        b.len() as int
    };
    assert forall|k: int| 0 <= k < m implies #[trigger] a[k] == b[k] by {
        branch_orders_agree(branches, basis_id, segment, a, b, k);
    }
    if a.len() < b.len() {
        assert(branches[b[m] as int] == branches[b[m] as int]);
        assert(a.contains(b[m]));
        let i = choose|i: int| 0 <= i < a.len() && a[i] == b[m];
        assert(b[i] == a[i]);
        assert(branch_before(branches, b[i], b[m]));
    } else if b.len() < a.len() {
        assert(b.contains(a[m]));
        let i = choose|i: int| 0 <= i < b.len() && b[i] == a[m];
        assert(a[i] == b[i]);
        assert(branch_before(branches, a[i], a[m]));
    }
    assert(a =~= b);
}

proof fn branch_orders_agree(
    branches: Seq<BasisMotionGraphBranch>,
    basis_id: usize,
    segment: usize,
    a: Seq<usize>,
    b: Seq<usize>,
    k: int,
)
    requires
        branches.len() <= usize::MAX,
        is_branch_order(branches, branches.len() as int, basis_id, segment, a),
        is_branch_order(branches, branches.len() as int, basis_id, segment, b),
        0 <= k < a.len(),
        k < b.len(),
    ensures
        a[k] == b[k],
    decreases k,
{
    assert forall|m: int| 0 <= m < k implies #[trigger] a[m] == b[m] by {
        branch_orders_agree(branches, basis_id, segment, a, b, m);
    }
    if a[k] != b[k] {
        assert(b.contains(a[k]));
        assert(a.contains(b[k]));
        let i = choose|i: int| 0 <= i < b.len() && b[i] == a[k];
        let j = choose|j: int| 0 <= j < a.len() && a[j] == b[k];
        if i < k {
            assert(a[i] == b[i]);
            assert(branch_before(branches, a[i], a[k]));
        }
        if j < k {
            assert(a[j] == b[j]);
            assert(branch_before(branches, b[j], b[k]));
        }
        assert(branch_before(branches, a[k], a[j]));
        assert(branch_before(branches, b[k], b[i]));
    }
}

} // verus!
