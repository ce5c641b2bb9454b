use rumorph::graph::{is_subarray, path_to, reachable_from, reachable_within};
use rumorph::ir::{
    BasicBlock, Body, Bypass, Callee, LocalDecl, Operand, Place, Rvalue, Statement, StatementKind, Terminator,
    TerminatorKind,
};
use rumorph::taint::{BehaviorFlag, Mark, TaintAnalyzer, run_marks};

fn place(local: usize) -> Place {
    Place { local, is_indirect: false, ty: 0 }
}

fn assign(lhs: usize, rv: Rvalue) -> Statement {
    Statement { kind: StatementKind::Assign(place(lhs), rv), line: 1 }
}

fn block(statements: Vec<Statement>, kind: TerminatorKind) -> BasicBlock {
    BasicBlock { statements, terminator: Terminator { kind, line: 1 }, is_cleanup: false }
}

fn plain_call(name: &str, args: Vec<Operand>, dest: usize, target: Option<usize>) -> TerminatorKind {
    TerminatorKind::StaticCall {
        callee: Callee {
            name: String::from(name),
            bypass: Bypass::NotListed,
            bypass_flag: 0,
            resolved: true,
            on_copy: false,
            is_vec_set_len: false,
        },
        args,
        dest: place(dest),
        target,
    }
}

fn decls(n: usize) -> Vec<LocalDecl> {
    (0..n).map(|_| LocalDecl { ty: 0 }).collect()
}

/// Slots 0..6: 1 -> 2 (use), 2 -> 3 (ref), 3 and 4 -> 5 (call), 5 -> 0 (binary op).
fn chain_body() -> Body {
    let bb0 = block(
        vec![
            assign(2, Rvalue::Use(Operand::Copy(place(1)))),
            assign(3, Rvalue::Ref(place(2))),
        ],
        plain_call("combine", vec![Operand::Move(place(3)), Operand::Copy(place(4))], 5, Some(1)),
    );
    let bb1 = block(
        vec![assign(
            0,
            Rvalue::BinaryOp(
                rumorph::ir::BinOp::Add,
                Operand::Copy(place(5)),
                Operand::Constant(rumorph::ir::Constant { ty: 0, usize_value: Some(1) }),
            ),
        )],
        TerminatorKind::Return,
    );
    Body::new(decls(6), 1, vec![bb0, bb1])
}

#[test]
fn place_flow_graph_has_one_edge_per_flow() {
    let body = chain_body();
    assert_eq!(body.place_neighbor_list[1], vec![2]);
    assert_eq!(body.place_neighbor_list[2], vec![3]);
    assert_eq!(body.place_neighbor_list[3], vec![5]);
    assert_eq!(body.place_neighbor_list[4], vec![5]);
    assert_eq!(body.place_neighbor_list[5], vec![0]);
    assert!(body.place_neighbor_list[0].is_empty());
    assert_eq!(body.bb_neighbor_list[0], vec![1]);
    assert!(body.bb_neighbor_list[1].is_empty());
}

#[test]
fn aggregate_operands_flow_into_the_aggregate() {
    let bb0 = block(
        vec![assign(
            2,
            Rvalue::Aggregate {
                range_full: false,
                operands: vec![Operand::Copy(place(1)), Operand::Copy(place(0))],
            },
        )],
        TerminatorKind::Return,
    );
    let body = Body::new(decls(3), 1, vec![bb0]);
    assert_eq!(body.place_neighbor_list[1], vec![2]);
    assert_eq!(body.place_neighbor_list[0], vec![2]);
}

#[test]
fn every_slot_reaches_itself() {
    let body = chain_body();
    let ta = TaintAnalyzer::new(&body);
    for s in 0..6 {
        assert!(ta.is_reachable(s, s));
    }
}

#[test]
fn reachability_follows_the_flow_only() {
    let body = chain_body();
    let ta = TaintAnalyzer::new(&body);
    assert!(ta.is_reachable(1, 0));
    assert!(ta.is_reachable(4, 0));
    assert!(!ta.is_reachable(0, 1));
    assert!(!ta.is_reachable(4, 2));
}

#[test]
fn join_keeps_every_bit_and_ignores_order() {
    let a = BehaviorFlag::from_bits(0b0101);
    let b = BehaviorFlag::from_bits(0b0011);
    let c = BehaviorFlag::from_bits(0b1000);
    let mut ab = a;
    ab.join(&b);
    let mut ba = b;
    ba.join(&a);
    assert_eq!(ab.bits, 0b0111);
    assert_eq!(ab, ba);
    assert!(ab.contains(&a) && ab.contains(&b));
    let mut ab_c = ab;
    ab_c.join(&c);
    let mut bc = b;
    bc.join(&c);
    let mut a_bc = a;
    a_bc.join(&bc);
    assert_eq!(ab_c, a_bc);
}

#[test]
fn empty_means_no_bit_set() {
    assert!(BehaviorFlag::empty().is_empty());
    assert!(!BehaviorFlag::from_bits(1).is_empty());
    assert!(!BehaviorFlag::from_bits(0xffff).is_empty());
    assert!(BehaviorFlag::from_bits(0b110).intersects(&BehaviorFlag::from_bits(0b010)));
    assert!(!BehaviorFlag::from_bits(0b100).intersects(&BehaviorFlag::from_bits(0b010)));
}

#[test]
fn propagate_joins_the_tags_of_sources_that_reach_a_sink() {
    let body = chain_body();
    let mut ta = TaintAnalyzer::new(&body);
    ta.mark_source(1, &BehaviorFlag::from_bits(1));
    ta.mark_source(4, &BehaviorFlag::from_bits(2));
    ta.mark_source(0, &BehaviorFlag::from_bits(4));
    ta.mark_sink(3);
    let r = ta.propagate();
    assert_eq!(r.bits, 1);
    assert_eq!(ta.get_reachable_sinks(), vec![3]);
}

#[test]
fn a_result_bit_points_back_to_a_reaching_source() {
    let body = chain_body();
    let mut ta = TaintAnalyzer::new(&body);
    ta.mark_source(2, &BehaviorFlag::from_bits(8));
    ta.mark_sink(0);
    let r = ta.propagate();
    assert!(r.intersects(&BehaviorFlag::from_bits(8)));
    assert!(ta.is_reachable(2, 0));
}

#[test]
fn no_sink_reached_gives_the_empty_tag() {
    let body = chain_body();
    let mut ta = TaintAnalyzer::new(&body);
    ta.mark_source(0, &BehaviorFlag::from_bits(1));
    ta.mark_sink(1);
    assert!(ta.propagate().is_empty());
    assert!(ta.get_reachable_sinks().is_empty());
}

#[test]
fn clearing_a_source_withdraws_its_tag() {
    let body = chain_body();
    let mut ta = TaintAnalyzer::new(&body);
    ta.mark_source(1, &BehaviorFlag::from_bits(1));
    ta.mark_source(4, &BehaviorFlag::from_bits(2));
    ta.mark_sink(0);
    ta.clear_source(1);
    assert_eq!(ta.propagate().bits, 2);
    ta.mark_source(1, &BehaviorFlag::from_bits(4));
    assert_eq!(ta.propagate().bits, 6);
}

#[test]
fn remarking_a_source_joins_the_tags() {
    let body = chain_body();
    let mut ta = TaintAnalyzer::new(&body);
    ta.mark_source(1, &BehaviorFlag::from_bits(1));
    ta.mark_source(1, &BehaviorFlag::from_bits(2));
    ta.mark_sink(5);
    assert_eq!(ta.propagate().bits, 3);
}

#[test]
fn mark_at_once_needs_no_flow() {
    let body = chain_body();
    let mut ta = TaintAnalyzer::new(&body);
    ta.mark_at_once(4, &BehaviorFlag::from_bits(1));
    assert_eq!(ta.propagate().bits, 1);
    assert_eq!(ta.get_reachable_sinks(), vec![4]);
}

#[test]
fn marks_run_in_order() {
    let body = chain_body();
    let ms = vec![
        Mark::Source(1, BehaviorFlag::from_bits(1)),
        Mark::Clear(1),
        Mark::Source(2, BehaviorFlag::from_bits(2)),
        Mark::Sink(0),
    ];
    assert_eq!(run_marks(&body, &ms).bits, 2);
}

fn line_graph() -> Vec<Vec<usize>> {
    vec![vec![1], vec![2, 4], vec![3], vec![], vec![3], vec![0]]
}

#[test]
fn breadth_first_search_finds_the_reachable_nodes() {
    let g = line_graph();
    assert_eq!(reachable_from(&g, 0), vec![true, true, true, true, true, false]);
    assert_eq!(reachable_from(&g, 3), vec![false, false, false, true, false, false]);
}

#[test]
fn bounded_search_stops_at_the_depth() {
    let g = line_graph();
    assert_eq!(reachable_within(&g, 0, 0), vec![true, false, false, false, false, false]);
    assert_eq!(reachable_within(&g, 0, 1), vec![true, true, false, false, false, false]);
    assert_eq!(reachable_within(&g, 0, 2), vec![true, true, true, false, true, false]);
    assert_eq!(reachable_within(&g, 0, 3), vec![true, true, true, true, true, false]);
}

#[test]
fn path_to_reconstructs_a_walk() {
    let g = line_graph();
    assert_eq!(path_to(&g, 0, 3), Some(vec![0, 1, 2, 3]));
    assert_eq!(path_to(&g, 5, 1), Some(vec![5, 0, 1]));
    assert_eq!(path_to(&g, 2, 2), Some(vec![2]));
    assert_eq!(path_to(&g, 3, 0), None);
}

#[test]
fn subarray_needs_more_than_three_entries() {
    assert!(is_subarray(&[2, 3, 4, 5], &[1, 2, 3, 4, 5, 6]));
    assert!(!is_subarray(&[2, 3, 4], &[1, 2, 3, 4, 5, 6]));
    assert!(!is_subarray(&[2, 3, 5, 6], &[1, 2, 3, 4, 5, 6]));
    assert!(!is_subarray(&[], &[1, 2]));
    assert!(!is_subarray(&[1, 2, 3, 4, 5], &[1, 2, 3, 4]));
    assert!(is_subarray(&[1, 2, 3, 4], &[1, 2, 3, 4]));
}

#[test]
fn block_queries_answer_on_the_block_graph() {
    let bb = |kind| block(vec![], kind);
    let body = Body::new(
        decls(1),
        0,
        vec![
            bb(TerminatorKind::SwitchInt { discr: Operand::Copy(place(0)), targets: vec![1, 2] }),
            bb(TerminatorKind::Goto(3)),
            bb(TerminatorKind::Goto(4)),
            bb(TerminatorKind::Return),
            bb(TerminatorKind::Goto(3)),
        ],
    );
    assert!(body.is_direct_successor(0, 2));
    assert!(!body.is_direct_successor(0, 3));
    assert!(body.is_return_reachable(1, 3, 1));
    assert!(!body.is_return_reachable(2, 3, 1));
    assert!(body.is_return_reachable(2, 3, 2));
    assert_eq!(body.arr_return(0, 3), Some(vec![0, 1, 3]));
    assert_eq!(body.arr_return(3, 0), None);
}

#[test]
fn path_to_a_block_itself_is_that_block_even_with_a_loop() {
    let g = vec![vec![0, 1], vec![0]];
    assert_eq!(path_to(&g, 0, 0), Some(vec![0]));
    let bb = |kind| block(vec![], kind);
    let body = Body::new(
        decls(1),
        0,
        vec![
            bb(TerminatorKind::SwitchInt { discr: Operand::Copy(place(0)), targets: vec![0, 1] }),
            bb(TerminatorKind::Return),
        ],
    );
    assert_eq!(body.arr_return(0, 0), Some(vec![0]));
    assert_eq!(body.arr_return(0, 1), Some(vec![0, 1]));
}

#[test]
fn path_to_takes_the_fewest_hops() {
    // 0 -> 1 -> 2 -> 3 -> 5 is longer than 0 -> 4 -> 5.
    let g = vec![vec![1, 4], vec![2], vec![3], vec![5], vec![5], vec![]];
    assert_eq!(path_to(&g, 0, 5), Some(vec![0, 4, 5]));
}
