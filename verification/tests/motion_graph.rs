use gswt::basis_bank_motion::BasisBankMotionMeta;
use gswt::basis_graph_authoring::{
    active_segment_count, baseline_best_changed, candidate_targets, order_candidates,
    rank_candidates, transition_duration_for_node, BasisGraphBranchOverrides, BasisGraphNodeKey,
    NodeCandidates,
};
use gswt::basis_graph_nodes::{nodes_to_refresh, score_nodes, BranchCost};
use gswt::basis_motion_graph::{
    parse_basis_motion_graph, BasisMotionGraph, BasisMotionGraphBranch, BasisMotionGraphLod,
    BasisMotionGraphScoreWeights, BasisMotionGraphTransition, GraphError,
};

fn meta() -> BasisBankMotionMeta {
    BasisBankMotionMeta {
        format_version: 2,
        include_lods: vec![0, 1],
        source_knot_count: 4,
        exported_knot_count: 4,
        loop_closure_knots: 0,
        basis_count: 2,
        top_k: 1,
        duration_seconds: 2.5_f32.to_bits(),
    }
}

fn branch(from: (usize, usize), to: (usize, usize), rank: usize, score: f32) -> BasisMotionGraphBranch {
    BasisMotionGraphBranch {
        from_basis: from.0,
        from_segment: from.1,
        to_basis: to.0,
        to_segment: to.1,
        rank,
        score: score.to_bits(),
        position_cost: 0.1_f32.to_bits(),
        velocity_cost: 0.0_f32.to_bits(),
        acceleration_cost: 0.0_f32.to_bits(),
        usage_bonus: 0.0_f32.to_bits(),
        transition: None,
    }
}

fn transition() -> BasisMotionGraphTransition {
    BasisMotionGraphTransition {
        kind: "open_catmull_rom".to_string(),
        duration_segments: 1,
        knots: vec![[0; 3]; 2],
        start_tangent: [0; 3],
        end_tangent: [0; 3],
    }
}

fn graph() -> BasisMotionGraph {
    BasisMotionGraph {
        format: "basis_motion_graph".to_string(),
        format_version: 1,
        basis_scope: "shared_lod0".to_string(),
        basis_source_lod: Some(0),
        node_unit: "basis_segment".to_string(),
        include_lods: vec![0, 1],
        basis_count: 2,
        knot_count: 4,
        branch_top_k: 1,
        score_weights: BasisMotionGraphScoreWeights {
            position: 1.0_f32.to_bits(),
            velocity: 1.0_f32.to_bits(),
            acceleration: 1.0_f32.to_bits(),
            usage: 0.0_f32.to_bits(),
        },
        lods: vec![BasisMotionGraphLod {
            lod_id: 0,
            branches: vec![branch((0, 1), (1, 2), 0, 0.1)],
        }],
    }
}

#[test]
fn validates_and_indexes_shared_basis_ids_directly() {
    let graph = parse_basis_motion_graph(graph()).unwrap();
    graph.validate_against_basis_bank(&meta()).unwrap();
    let branches = graph.branches_for(0, 1);
    assert_eq!(branches.len(), 1);
    assert_eq!(branches[0].to_basis, 1);
}

#[test]
fn rejects_per_lod_graph_scope() {
    let mut graph = graph();
    graph.basis_scope = "per_lod".into();
    let error = parse_basis_motion_graph(graph).unwrap_err().message();
    assert!(error.contains("expected shared_lod0"));
}

#[test]
fn graphs_are_refused_with_a_reason() {
    let refuse = |change: &dyn Fn(&mut BasisMotionGraph)| {
        let mut g = graph();
        change(&mut g);
        parse_basis_motion_graph(g).unwrap_err().message()
    };
    assert_eq!(
        refuse(&|g| g.format = "x".into()),
        "unsupported basis motion graph format 'x'"
    );
    assert_eq!(refuse(&|g| g.format_version = 9), "unsupported basis motion graph version 9");
    assert_eq!(
        refuse(&|g| g.basis_source_lod = None),
        "shared_lod0 basis motion graph requires basis_source_lod=0, got None"
    );
    assert_eq!(
        refuse(&|g| g.node_unit = "y".into()),
        "unsupported basis motion graph node unit 'y'"
    );
    assert_eq!(
        refuse(&|g| g.branch_top_k = 0),
        "invalid basis motion graph dimensions: basis_count=2, knot_count=4, branch_top_k=0"
    );
}

#[test]
fn graphs_must_fit_their_bank() {
    let refuse = |change: &dyn Fn(&mut BasisMotionGraph)| {
        let mut g = graph();
        change(&mut g);
        g.validate_against_basis_bank(&meta()).unwrap_err().message()
    };
    assert_eq!(
        refuse(&|g| g.include_lods = vec![0]),
        "basis motion graph include_lods [0] != basis bank include_lods [0, 1]"
    );
    assert_eq!(
        refuse(&|g| g.basis_count = 3),
        "basis motion graph basis_count 3 != basis bank basis_count 2"
    );
    assert_eq!(
        refuse(&|g| g.knot_count = 5),
        "basis motion graph knot_count 5 != basis bank exported_knot_count 4"
    );
    assert!(refuse(&|g| g.lods.clear()).contains("exactly one LoD0"));
    assert!(refuse(&|g| g.lods[0].lod_id = 3).contains("lod_id=3; expected 0"));
    assert!(refuse(&|g| g.lods[0].branches[0].to_basis = 2).contains("0 -> 2 with basis_count 2"));
    assert!(refuse(&|g| g.lods[0].branches[0].to_segment = 4).contains("1 -> 4 with knot_count 4"));
    assert!(refuse(&|g| g.lods[0].branches[0].to_basis = 0).contains("the same basis 0"));
    assert!(refuse(&|g| g.lods[0].branches[0].rank = 1).contains("rank 1 >= branch_top_k 1"));
    assert!(refuse(&|g| g.format_version = 2).contains("0:1 -> 1:2 missing transition"));
}

#[test]
fn transitions_are_checked() {
    let refuse = |change: &dyn Fn(&mut BasisMotionGraphTransition)| {
        let mut t = transition();
        change(&mut t);
        let mut g = graph();
        g.format_version = 2;
        g.lods[0].branches[0].transition = Some(t);
        match g.validate_against_basis_bank(&meta()) {
            Ok(()) => String::new(),
            Err(GraphError::Branch { index: 0, error }) => error.message(),
            Err(other) => panic!("{other:?}"),
        }
    };
    assert_eq!(refuse(&|_| {}), "");
    assert!(refuse(&|t| t.kind = "z".into()).contains("kind 'z'"));
    assert!(refuse(&|t| t.duration_segments = 0).contains("must be positive"));
    assert!(refuse(&|t| t.knots.push([0; 3])).contains("knot count 3 != duration_segments + 1 (2)"));
    assert!(refuse(&|t| t.end_tangent[1] = f32::NAN.to_bits()).contains("non-finite"));
    assert!(refuse(&|t| t.knots[1][2] = f32::INFINITY.to_bits()).contains("non-finite"));
}

#[test]
fn branches_of_a_node_come_by_rank() {
    let mut g = graph();
    g.lods[0].branches = vec![
        branch((0, 1), (1, 3), 2, 0.3),
        branch((0, 0), (1, 0), 0, 0.0),
        branch((0, 1), (1, 1), 0, 0.1),
        branch((0, 1), (1, 2), 0, 0.2),
    ];
    let targets: Vec<usize> = g.branches_for(0, 1).iter().map(|b| b.to_segment).collect();
    assert_eq!(targets, vec![1, 2, 3]);
    assert!(g.branches_for(1, 1).is_empty());
    g.lods.clear();
    assert!(g.branches_for(0, 1).is_empty());
}

#[test]
fn candidates_are_ordered_by_score_then_target() {
    let candidates = vec![
        branch((0, 0), (2, 0), 0, 0.5),
        branch((0, 0), (1, 3), 0, 0.5),
        branch((0, 0), (1, 1), 0, 0.5),
        branch((0, 0), (3, 0), 0, -1.0),
        branch((0, 0), (1, 0), 0, f32::NAN),
    ];
    assert_eq!(order_candidates(&candidates), vec![3, 2, 1, 0, 4]);
    let best = rank_candidates(&candidates, 3);
    let kept: Vec<(usize, usize, usize)> =
        best.iter().map(|b| (b.to_basis, b.to_segment, b.rank)).collect();
    assert_eq!(kept, vec![(3, 0, 0), (1, 1, 1), (1, 3, 2)]);
    assert_eq!(rank_candidates(&candidates, 9).len(), 5);
}

#[test]
fn candidate_targets_leave_out_the_own_basis() {
    assert_eq!(candidate_targets(3, 2, 1), vec![(0, 0), (0, 1), (2, 0), (2, 1)]);
    let mut bank = meta();
    bank.source_knot_count = 3;
    assert_eq!(active_segment_count(&graph(), &bank), 3);
    let mut g = graph();
    g.lods[0].branches[0].to_segment = 3;
    assert_eq!(active_segment_count(&g, &bank), 4);
    bank.exported_knot_count = 0;
    assert_eq!(active_segment_count(&graph(), &bank), 1);
}

#[test]
fn new_transitions_last_as_long_as_those_of_the_graph() {
    let mut g = graph();
    assert_eq!(transition_duration_for_node(&g, 0, 1), None);
    g.format_version = 2;
    assert_eq!(transition_duration_for_node(&g, 0, 1), Some(1));
    assert_eq!(transition_duration_for_node(&g, 1, 1), None);
    let mut t = transition();
    t.duration_segments = 5;
    g.lods[0].branches[0].transition = Some(t);
    assert_eq!(transition_duration_for_node(&g, 0, 1), Some(5));
}

#[test]
fn refreshing_counts_new_best_targets() {
    let g = graph();
    assert!(baseline_best_changed(&g, 0, 1, &branch((0, 1), (1, 3), 0, 0.0)));
    assert!(!baseline_best_changed(&g, 0, 1, &branch((0, 1), (1, 2), 0, 0.0)));
    assert!(!baseline_best_changed(&g, 1, 1, &branch((1, 1), (0, 2), 0, 0.0)));
    let mut overrides = BasisGraphBranchOverrides::new();
    assert!(overrides.is_empty());
    overrides.set_node_branches(1, 3, vec![branch((1, 3), (0, 0), 0, 0.0)]);
    let nodes = vec![
        NodeCandidates {
            from_basis: 0,
            from_segment: 1,
            candidates: vec![branch((0, 1), (1, 2), 0, 0.5), branch((0, 1), (1, 3), 0, 0.2)],
        },
        NodeCandidates {
            from_basis: 1,
            from_segment: 0,
            candidates: vec![branch((1, 0), (0, 2), 0, 0.5)],
        },
        NodeCandidates { from_basis: 1, from_segment: 1, candidates: Vec::new() },
    ];
    let summary = overrides.refresh(&g, &nodes);
    assert_eq!(summary.refreshed_node_count, 2);
    assert_eq!(summary.changed_best_target_count, 1);
    assert_eq!(overrides.branches_for(0, 1).unwrap()[0].to_segment, 3);
    assert_eq!(overrides.branches_for(1, 0).unwrap().len(), 1);
    assert!(overrides.branches_for(1, 1).is_none());
    let scored = |(to_basis, to_segment): (usize, usize)| {
        let score = [0.5, 0.25, 0.5][to_segment];
        branch((1, 0), (to_basis, to_segment), 7, score)
    };
    let targets = candidate_targets(3, 3, 1);
    assert_eq!(targets.len(), 6);
    let all = NodeCandidates {
        from_basis: 1,
        from_segment: 0,
        candidates: targets.into_iter().map(scored).collect(),
    };
    let mut wide = graph();
    wide.branch_top_k = 4;
    overrides.refresh(&wide, &vec![all]);
    let list = overrides.branches_for(1, 0).unwrap();
    let places: Vec<_> = list.iter().map(|b| (b.rank, b.to_basis, b.to_segment)).collect();
    assert_eq!(places, vec![(0, 0, 1), (1, 2, 1), (2, 0, 0), (3, 0, 2)]);
    overrides.clear();
    assert!(overrides.is_empty());
    assert_eq!(BasisGraphNodeKey::new(2, 3).segment, 3);
}

#[test]
fn every_node_of_a_bank_is_scored() {
    let knots = vec![0; 3 * 4 * 3];
    let nodes = nodes_to_refresh(&knots, 3, 4, 2);
    assert_eq!(nodes, vec![(0, 0), (0, 1), (1, 0), (1, 1), (2, 0), (2, 1)]);
    assert!(nodes_to_refresh(&knots[1..], 3, 4, 2).is_empty());
    assert!(nodes_to_refresh(&[], 0, 4, 2).is_empty());
    let cost = |score: usize| BranchCost {
        score: (score as f32).to_bits(),
        position_cost: 1,
        velocity_cost: 2,
        acceleration_cost: 3,
        usage_bonus: 4,
        transition: None,
    };
    let costs = |node: usize| (0..4).map(|target| cost((target + node) % 4)).collect();
    let scored = score_nodes(&nodes, 3, 2, (0..6).map(costs).collect());
    assert_eq!(scored.len(), 6);
    let node = &scored[3];
    assert_eq!((node.from_basis, node.from_segment), (1, 1));
    let found: Vec<_> = node
        .candidates
        .iter()
        .map(|b| (b.from_basis, b.from_segment, b.to_basis, b.to_segment, f32::from_bits(b.score)))
        .collect();
    assert_eq!(
        found,
        vec![(1, 1, 0, 0, 3.0), (1, 1, 0, 1, 0.0), (1, 1, 2, 0, 1.0), (1, 1, 2, 1, 2.0)]
    );
    assert_eq!(node.candidates[0].acceleration_cost, 3);
    let mut g = graph();
    g.branch_top_k = 2;
    let mut overrides = BasisGraphBranchOverrides::new();
    assert_eq!(overrides.refresh(&g, &scored).refreshed_node_count, 6);
    for (basis, segment) in nodes {
        let list = overrides.branches_for(basis, segment).unwrap();
        assert_eq!(list.len(), 2);
        assert_eq!((list[0].score, list[1].score), (0, 1.0_f32.to_bits()));
        assert!(list.iter().all(|b| b.to_basis != basis));
    }
}

#[test]
fn curves_are_compared_by_value() {
    let curve = |last: f32| BasisMotionGraphTransition {
        kind: "open_catmull_rom".to_string(),
        duration_segments: 1,
        knots: vec![[0; 3], [0, 0, last.to_bits()]],
        start_tangent: [0; 3],
        end_tangent: [0; 3],
    };
    assert_eq!(curve(0.0), curve(-0.0));
    assert_ne!(curve(0.0), curve(1.0));
    assert_ne!(curve(f32::NAN), curve(f32::NAN));
    let other = BasisMotionGraphTransition { kind: "other".to_string(), ..curve(0.0) };
    assert_ne!(curve(0.0), other);
}
