use mir_explorer::explorer::MirExplorer;
use mir_explorer::graph::{
    BlockRole, EdgeKind, ExplorerBlock, ExplorerData, ExplorerEdge, ExplorerFunction,
    ExplorerLocal, ExplorerTerminator, LoadError,
};
use mir_explorer::render::{DrawCmd, EdgeStyle, NodeFill};

const W: i64 = 800;
const H: i64 = 600;

fn block(id: usize, targets: &[(usize, &str)], role: BlockRole) -> ExplorerBlock {
    ExplorerBlock {
        id,
        statements: vec![],
        terminator: ExplorerTerminator {
            kind: String::from("switch"),
            mir: String::from("switch(x)"),
            annotation: String::new(),
            edges: targets
                .iter()
                .map(|(t, l)| ExplorerEdge {
                    target: *t,
                    label: String::from(*l),
                    kind: EdgeKind::Normal,
                    annotation: String::new(),
                })
                .collect(),
        },
        predecessors: vec![],
        role,
        summary: String::from("a block"),
    }
}

/// One function, three blocks: block 0 branches to 1 ("true") and 2
/// ("false"); blocks 1 and 2 are exits without edges.
fn scenario_document() -> ExplorerData {
    ExplorerData {
        name: String::from("demo"),
        functions: vec![ExplorerFunction {
            name: String::from("demo::main"),
            short_name: String::from("main"),
            blocks: vec![
                block(0, &[(1, "true"), (2, "false")], BlockRole::BranchPoint),
                block(1, &[], BlockRole::Exit),
                block(2, &[], BlockRole::Exit),
            ],
            locals: vec![ExplorerLocal {
                name: String::from("_0"),
                ty: String::from("i32"),
                source_name: Some(String::from("x")),
                assignments: vec![],
            }],
            entry_block: 0,
        }],
    }
}

#[test]
fn scenario_follow_edge_and_back() {
    let mut ex = MirExplorer::new();
    assert!(ex.load(scenario_document(), W, H).is_ok());

    let info = ex.get_block_info().unwrap();
    assert_eq!(info.id, 0);
    assert_eq!(info.selected_edge, 0);
    assert!(info.path.is_empty());

    ex.follow_edge(1, W, H);
    let info = ex.get_block_info().unwrap();
    assert_eq!(info.id, 2);
    assert_eq!(info.path, vec![0]);

    ex.go_back(W, H);
    let info = ex.get_block_info().unwrap();
    assert_eq!(info.id, 0);
    assert!(info.path.is_empty());
}

#[test]
fn empty_document_fails_load_and_keeps_state() {
    let mut ex = MirExplorer::new();
    assert!(ex.load(scenario_document(), W, H).is_ok());
    let empty = ExplorerData { name: String::from("none"), functions: vec![] };
    assert_eq!(ex.load(empty, W, H), Err(LoadError::EmptyDocument));
    // prior state untouched
    assert_eq!(ex.function_count(), 1);
    assert_eq!(ex.crate_name().as_deref(), Some("demo"));
}

#[test]
fn queries_before_load() {
    let ex = MirExplorer::new();
    assert_eq!(ex.function_count(), 0);
    assert_eq!(ex.function_name(0), None);
    assert_eq!(ex.crate_name(), None);
    assert!(ex.get_block_info().is_none());
    assert!(ex.get_locals().is_none());
    assert!(ex.render().is_none());
    assert!(ex.current_function().is_none());
}

#[test]
fn function_queries_after_load() {
    let mut ex = MirExplorer::new();
    ex.load(scenario_document(), W, H).unwrap();
    assert_eq!(ex.function_count(), 1);
    assert_eq!(ex.function_name(0).as_deref(), Some("main"));
    assert_eq!(ex.function_name(1), None);
    assert_eq!(ex.crate_name().as_deref(), Some("demo"));
    assert_eq!(ex.current_function().unwrap().short_name, "main");
}

#[test]
fn select_function_out_of_range_is_noop() {
    let mut ex = MirExplorer::new();
    ex.load(scenario_document(), W, H).unwrap();
    ex.follow_edge(0, W, H);
    ex.select_function(5, W, H);
    // still on the walked state of function 0
    let info = ex.get_block_info().unwrap();
    assert_eq!(info.id, 1);
}

#[test]
fn go_to_block_out_of_range_is_noop() {
    let mut ex = MirExplorer::new();
    ex.load(scenario_document(), W, H).unwrap();
    ex.go_to_block(9, W, H);
    assert_eq!(ex.get_block_info().unwrap().id, 0);
}

#[test]
fn keyboard_navigation_walks_the_graph() {
    let mut ex = MirExplorer::new();
    ex.load(scenario_document(), W, H).unwrap();
    assert!(ex.handle_key("j", W, H)); // select next edge -> 1
    assert_eq!(ex.get_block_info().unwrap().selected_edge, 1);
    assert!(ex.handle_key("k", W, H)); // select prev edge -> 0
    assert_eq!(ex.get_block_info().unwrap().selected_edge, 0);
    assert!(ex.handle_key("l", W, H)); // follow selected edge -> block 1
    assert_eq!(ex.get_block_info().unwrap().id, 1);
    assert!(ex.handle_key("h", W, H)); // back -> block 0
    assert_eq!(ex.get_block_info().unwrap().id, 0);
    assert!(ex.handle_key("2", W, H)); // follow edge index 1 -> block 2
    assert_eq!(ex.get_block_info().unwrap().id, 2);
    assert!(ex.handle_key("Escape", W, H)); // reset
    let info = ex.get_block_info().unwrap();
    assert_eq!(info.id, 0);
    assert!(info.path.is_empty());
    assert!(!ex.handle_key("/", W, H)); // search is reported unhandled
    assert!(!ex.handle_key("q", W, H)); // unbound
}

#[test]
fn block_info_carries_block_data() {
    let mut ex = MirExplorer::new();
    ex.load(scenario_document(), W, H).unwrap();
    let info = ex.get_block_info().unwrap();
    assert_eq!(info.role, BlockRole::BranchPoint);
    assert_eq!(info.summary, "a block");
    assert_eq!(info.terminator.kind, "switch");
    assert_eq!(info.terminator.edges.len(), 2);
    assert_eq!(info.terminator.edges[0].label, "true");
    assert_eq!(info.terminator.edges[1].label, "false");
    assert_eq!(info.terminator.edges[1].target, 2);
}

#[test]
fn locals_are_reported() {
    let mut ex = MirExplorer::new();
    ex.load(scenario_document(), W, H).unwrap();
    let locals = ex.get_locals().unwrap();
    assert_eq!(locals.len(), 1);
    assert_eq!(locals[0].name, "_0");
    assert_eq!(locals[0].ty, "i32");
    assert_eq!(locals[0].source_name.as_deref(), Some("x"));
}

#[test]
fn frame_shape_and_styles() {
    let mut ex = MirExplorer::new();
    ex.load(scenario_document(), W, H).unwrap();
    let cmds = ex.render().unwrap();
    // clear + 2 edges + 3 nodes
    assert_eq!(cmds.len(), 6);
    assert!(matches!(cmds[0], DrawCmd::Clear));
    // the selected edge (index 0, to block 1) is styled selected
    match &cmds[1] {
        DrawCmd::Edge { style, label, dashed, .. } => {
            assert_eq!(*style, EdgeStyle::Selected);
            assert_eq!(label.as_deref(), Some("true"));
            assert!(!dashed);
        }
        other => panic!("expected an edge command, got {:?}", other),
    }
    match &cmds[2] {
        DrawCmd::Edge { style, label, .. } => {
            assert_eq!(*style, EdgeStyle::Plain);
            assert_eq!(label.as_deref(), Some("false"));
        }
        other => panic!("expected an edge command, got {:?}", other),
    }
    // fresh path: the current node is highlighted, nothing dimmed
    match &cmds[3] {
        DrawCmd::Node { id, fill, dimmed, inverted_text, thick_border, .. } => {
            assert_eq!(*id, 0);
            assert_eq!(*fill, NodeFill::Current);
            assert!(!dimmed);
            assert!(inverted_text);
            assert!(thick_border);
        }
        other => panic!("expected a node command, got {:?}", other),
    }
    match &cmds[4] {
        DrawCmd::Node { id, fill, dimmed, .. } => {
            assert_eq!(*id, 1);
            assert_eq!(*fill, NodeFill::Default);
            assert!(!dimmed); // empty path: no dimming
        }
        other => panic!("expected a node command, got {:?}", other),
    }
}

#[test]
fn taken_edges_and_dimming_after_a_walk() {
    let mut ex = MirExplorer::new();
    ex.load(scenario_document(), W, H).unwrap();
    ex.follow_edge(0, W, H); // walk 0 -> 1
    let cmds = ex.render().unwrap();
    match &cmds[1] {
        DrawCmd::Edge { style, .. } => assert_eq!(*style, EdgeStyle::Taken),
        other => panic!("expected an edge command, got {:?}", other),
    }
    // node 0 is on the path, node 1 current, node 2 dimmed
    match &cmds[3] {
        DrawCmd::Node { fill, dimmed, .. } => {
            assert_eq!(*fill, NodeFill::Visited);
            assert!(!dimmed);
        }
        other => panic!("expected a node command, got {:?}", other),
    }
    match &cmds[4] {
        DrawCmd::Node { fill, .. } => assert_eq!(*fill, NodeFill::Current),
        other => panic!("expected a node command, got {:?}", other),
    }
    match &cmds[5] {
        DrawCmd::Node { fill, dimmed, .. } => {
            assert_eq!(*fill, NodeFill::Default);
            assert!(dimmed);
        }
        other => panic!("expected a node command, got {:?}", other),
    }
}

#[test]
fn wheel_and_drag_update_the_transform() {
    let mut ex = MirExplorer::new();
    let (scale0, ox0, oy0) = ex.view_transform();
    assert_eq!((scale0, ox0, oy0), (1000, 0, 0));
    ex.handle_wheel(-1, 0, 0); // scroll up: zoom in
    let (scale, _, _) = ex.view_transform();
    assert_eq!(scale, 1100);
    ex.handle_drag(10, -5);
    let (_, ox, oy) = ex.view_transform();
    assert_eq!((ox, oy), (10_000, -5_000));
}

#[test]
fn fit_to_view_after_load_uses_layout_bounds() {
    let mut ex = MirExplorer::new();
    ex.load(scenario_document(), W, H).unwrap();
    ex.handle_drag(100, 100);
    ex.fit_to_view(W, H);
    let (scale, _, _) = ex.view_transform();
    // the three-block graph is small: the fit clamps at 2.0
    assert_eq!(scale, 2000);
}
