use mir_explorer::graph::{
    BlockRole, EdgeKind, ExplorerBlock, ExplorerEdge, ExplorerFunction, ExplorerTerminator,
};
use mir_explorer::layout::GraphLayout;

fn block(id: usize, targets: &[usize], role: BlockRole) -> ExplorerBlock {
    ExplorerBlock {
        id,
        statements: vec![],
        terminator: ExplorerTerminator {
            kind: String::from("t"),
            mir: String::from("t"),
            annotation: String::new(),
            edges: targets
                .iter()
                .map(|t| ExplorerEdge {
                    target: *t,
                    label: String::new(),
                    kind: EdgeKind::Normal,
                    annotation: String::new(),
                })
                .collect(),
        },
        predecessors: vec![],
        role,
        summary: String::new(),
    }
}

fn function(blocks: Vec<ExplorerBlock>) -> ExplorerFunction {
    ExplorerFunction {
        name: String::from("f"),
        short_name: String::from("f"),
        blocks,
        locals: vec![],
        entry_block: 0,
    }
}

/// Two-block chain: exact positions, layers, bounds and the forward edge's
/// four-point polyline.
#[test]
fn chain_layout_exact() {
    let f = function(vec![
        block(0, &[1], BlockRole::Entry),
        block(1, &[], BlockRole::Exit),
    ]);
    let l = GraphLayout::from_function(&f);
    assert_eq!(l.nodes.len(), 2);
    assert_eq!(l.nodes[0].id, 0);
    assert_eq!(l.nodes[1].id, 1);
    // one node per layer, each row centered: x = -(140 - 80) / 2 = -30
    assert_eq!((l.nodes[0].x, l.nodes[0].y), (-30, 0));
    assert_eq!((l.nodes[1].x, l.nodes[1].y), (-30, 100));
    assert_eq!(l.nodes[0].width, 60);
    assert_eq!(l.nodes[0].height, 35);
    assert_eq!(l.bounds, (-30, 0, 30, 135));
    assert_eq!(l.edges.len(), 1);
    assert_eq!((l.edges[0].from, l.edges[0].to), (0, 1));
    // forward edge: bottom center, midline at (35 + 100) / 2 = 67, top center
    assert_eq!(l.edges[0].points, vec![(0, 35), (0, 67), (0, 67), (0, 100)]);
}

/// A block with no incoming path ends up on one extra layer below everything
/// discovered, and every node rectangle stays inside the bounding box.
#[test]
fn unreachable_block_gets_last_layer() {
    let f = function(vec![
        block(0, &[1], BlockRole::Entry),
        block(1, &[], BlockRole::Exit),
        block(2, &[], BlockRole::Linear),
    ]);
    let l = GraphLayout::from_function(&f);
    assert_eq!(l.nodes.len(), 3);
    assert_eq!(l.nodes[0].y, 0); // entry layer 0
    assert_eq!(l.nodes[1].y, 100); // discovered at distance 1
    assert_eq!(l.nodes[2].y, 200); // unreachable: max layer + 1
    for node in &l.nodes {
        assert!(l.bounds.0 <= node.x && node.x + node.width <= l.bounds.2);
        assert!(l.bounds.1 <= node.y && node.y + node.height <= l.bounds.3);
    }
}

/// Breadth-first layering: layers follow discovery distance, several blocks
/// share a layer and sit left to right by id.
#[test]
fn diamond_layers_and_order() {
    let f = function(vec![
        block(0, &[1, 2], BlockRole::BranchPoint),
        block(1, &[3], BlockRole::Linear),
        block(2, &[3], BlockRole::Linear),
        block(3, &[], BlockRole::Exit),
    ]);
    let l = GraphLayout::from_function(&f);
    assert_eq!(l.nodes[0].y, 0);
    assert_eq!(l.nodes[1].y, 100);
    assert_eq!(l.nodes[2].y, 100);
    assert_eq!(l.nodes[3].y, 200);
    // two blocks on layer 1: row width 2*140 - 80 = 200, slots at -100 and 40
    assert_eq!(l.nodes[1].x, -100);
    assert_eq!(l.nodes[2].x, 40);
    assert!(l.nodes[1].x < l.nodes[2].x);
    // block-then-edge order of the edge list
    assert_eq!(l.edges.len(), 4);
    assert_eq!((l.edges[0].from, l.edges[0].to), (0, 1));
    assert_eq!((l.edges[1].from, l.edges[1].to), (0, 2));
    assert_eq!((l.edges[2].from, l.edges[2].to), (1, 3));
    assert_eq!((l.edges[3].from, l.edges[3].to), (2, 3));
}

/// A backward edge detours with six points around the right of both nodes.
#[test]
fn back_edge_six_points() {
    let f = function(vec![
        block(0, &[1], BlockRole::Entry),
        block(1, &[0], BlockRole::Linear),
    ]);
    let l = GraphLayout::from_function(&f);
    let back = &l.edges[1];
    assert_eq!((back.from, back.to), (1, 0));
    assert_eq!(back.points.len(), 6);
    // detour: right of both nodes by width + offset, 30 below each bottom
    let right_x = -30 + 60 + 30;
    assert_eq!(
        back.points,
        vec![
            (0, 135),
            (0, 165),
            (right_x, 165),
            (right_x, 65),
            (0, 65),
            (0, 35),
        ]
    );
}

/// Running layout twice on the same function yields identical node positions
/// and edge point lists.
#[test]
fn layout_is_deterministic() {
    let f = function(vec![
        block(0, &[1, 2], BlockRole::BranchPoint),
        block(1, &[3], BlockRole::Linear),
        block(2, &[0], BlockRole::Linear),
        block(3, &[], BlockRole::Exit),
    ]);
    let l1 = GraphLayout::from_function(&f);
    let l2 = GraphLayout::from_function(&f);
    assert_eq!(l1.nodes.len(), l2.nodes.len());
    for (a, b) in l1.nodes.iter().zip(l2.nodes.iter()) {
        assert_eq!((a.id, a.x, a.y, a.width, a.height), (b.id, b.x, b.y, b.width, b.height));
    }
    assert_eq!(l1.edges.len(), l2.edges.len());
    for (a, b) in l1.edges.iter().zip(l2.edges.iter()) {
        assert_eq!((a.from, a.to), (b.from, b.to));
        assert_eq!(a.points, b.points);
        assert_eq!(a.label, b.label);
    }
    assert_eq!(l1.bounds, l2.bounds);
}

/// A function with no blocks yields the empty layout with a zero box.
#[test]
fn empty_function_empty_layout() {
    let f = function(vec![]);
    let l = GraphLayout::from_function(&f);
    assert!(l.nodes.is_empty());
    assert!(l.edges.is_empty());
    assert_eq!(l.bounds, (0, 0, 0, 0));
}
