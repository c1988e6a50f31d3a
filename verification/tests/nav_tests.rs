use mir_explorer::graph::{
    BlockRole, EdgeKind, ExplorerBlock, ExplorerEdge, ExplorerFunction, ExplorerTerminator,
};
use mir_explorer::nav::NavState;

fn block(id: usize, targets: &[usize]) -> ExplorerBlock {
    ExplorerBlock {
        id,
        statements: vec![],
        terminator: ExplorerTerminator {
            kind: String::from("t"),
            mir: String::from("t"),
            annotation: String::new(),
            edges: targets
                .iter()
                .map(|t| ExplorerEdge {
                    target: *t,
                    label: String::new(),
                    kind: EdgeKind::Normal,
                    annotation: String::new(),
                })
                .collect(),
        },
        predecessors: vec![],
        role: BlockRole::Linear,
        summary: String::new(),
    }
}

fn function() -> ExplorerFunction {
    ExplorerFunction {
        name: String::from("f"),
        short_name: String::from("f"),
        blocks: vec![block(0, &[1, 2]), block(1, &[2]), block(2, &[])],
        locals: vec![],
        entry_block: 0,
    }
}

#[test]
fn go_back_restores_prior_block() {
    let f = function();
    let mut nav = NavState::new_for(&f);
    assert_eq!(nav.current, 0);
    nav.go_to(&f, 2, true);
    assert_eq!(nav.current, 2);
    assert_eq!(nav.path, vec![0]);
    let popped = nav.go_back(&f);
    assert_eq!(popped, Some(0));
    assert_eq!(nav.current, 0);
    assert!(nav.path.is_empty());
}

#[test]
fn go_back_past_empty_path_is_noop_thereafter() {
    let f = function();
    let mut nav = NavState::new_for(&f);
    assert_eq!(nav.go_back(&f), None);
    assert_eq!(nav.current, 0);
    assert_eq!(nav.go_back(&f), None);
    assert_eq!(nav.current, 0);
    assert!(nav.path.is_empty());
}

#[test]
fn go_to_out_of_range_is_noop() {
    let f = function();
    let mut nav = NavState::new_for(&f);
    let moved = nav.go_to(&f, 9, true);
    assert!(!moved);
    assert_eq!(nav.current, 0);
    assert!(nav.path.is_empty());
}

#[test]
fn go_to_same_block_records_nothing() {
    let f = function();
    let mut nav = NavState::new_for(&f);
    nav.go_to(&f, 0, true);
    assert_eq!(nav.current, 0);
    assert!(nav.path.is_empty());
}

#[test]
fn select_next_then_prev_restores_index() {
    let f = function();
    let mut nav = NavState::new_for(&f);
    // block 0 has two outgoing edges
    for start in 0..2 {
        nav.selected_edge = start;
        nav.select_next_edge(&f);
        nav.select_prev_edge(&f);
        assert_eq!(nav.selected_edge, start);
    }
}

#[test]
fn edge_selection_cycles() {
    let f = function();
    let mut nav = NavState::new_for(&f);
    nav.select_next_edge(&f);
    assert_eq!(nav.selected_edge, 1);
    nav.select_next_edge(&f);
    assert_eq!(nav.selected_edge, 0);
    nav.select_prev_edge(&f);
    assert_eq!(nav.selected_edge, 1);
}

#[test]
fn edge_selection_without_edges_is_noop() {
    let f = function();
    let mut nav = NavState::new_for(&f);
    nav.go_to(&f, 2, true); // block 2 has no edges
    nav.select_next_edge(&f);
    assert_eq!(nav.selected_edge, 0);
    nav.select_prev_edge(&f);
    assert_eq!(nav.selected_edge, 0);
}

#[test]
fn follow_edge_with_too_few_edges_is_noop() {
    let f = function();
    let mut nav = NavState::new_for(&f);
    // block 0 has 2 outgoing edges: index 2 is one past the end
    let moved = nav.follow_edge(&f, 2);
    assert!(!moved);
    assert_eq!(nav.current, 0);
    assert!(nav.path.is_empty());
    assert_eq!(nav.selected_edge, 0);
}

#[test]
fn follow_edge_goes_to_target_and_records() {
    let f = function();
    let mut nav = NavState::new_for(&f);
    let moved = nav.follow_edge(&f, 1);
    assert!(moved);
    assert_eq!(nav.current, 2);
    assert_eq!(nav.path, vec![0]);
    assert_eq!(nav.selected_edge, 0);
}

#[test]
fn reset_clears_path_and_returns_to_entry() {
    let f = function();
    let mut nav = NavState::new_for(&f);
    nav.follow_edge(&f, 0);
    nav.follow_edge(&f, 0);
    assert_eq!(nav.current, 2);
    assert_eq!(nav.path, vec![0, 1]);
    nav.reset(&f);
    assert_eq!(nav.current, 0);
    assert!(nav.path.is_empty());
    assert_eq!(nav.selected_edge, 0);
}
