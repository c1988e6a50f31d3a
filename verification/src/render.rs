//! Frame building: turns one state (layout, navigation) into an ordered list
//! of drawing commands.
//!
//! The renderer owns no state and mutates nothing; the same state always
//! yields the same command list. Commands carry semantic styles (which kind
//! of fill, whether an edge is selected or taken) rather than concrete
//! colors; the embedding shell maps them onto its palette and surface. The
//! command order — clear first, then every edge, then every node — puts the
//! nodes over the edges.

use vstd::prelude::*;

use crate::graph::{edge_count, edge_target, wf_function, BlockRole, EdgeKind, ExplorerFunction};
use crate::layout::GraphLayout;
use crate::nav::{nav_inv, NavState};
use crate::viewport::div_floor;

verus! {

/// How one edge is painted, in falling priority: the selected edge of the
/// current block, an edge the walk has taken, a cleanup edge, anything else.
#[derive(Clone, Copy, Debug, PartialEq, Eq, Structural)]
pub enum EdgeStyle {
    Selected,
    Taken,
    Cleanup,
    Plain,
}

/// How one node is filled: the current block, a block on the path, the rest.
#[derive(Clone, Copy, Debug, PartialEq, Eq, Structural)]
pub enum NodeFill {
    Current,
    Visited,
    Default,
}

/// One drawing command of a frame.
#[derive(Debug)]
pub enum DrawCmd {
    /// Clear the whole surface to the background color.
    Clear,
    /// One edge: its polyline (with an arrowhead at the final segment), its
    /// style, whether it is dashed, and its label badge, if any, at
    /// `label_at`.
    Edge {
        points: Vec<(i64, i64)>,
        style: EdgeStyle,
        dashed: bool,
        label: Option<String>,
        label_at: (i64, i64),
    },
    /// One node box with its label. The border color follows `role`; a thick
    /// border marks the current node and every non-linear role; `dimmed`
    /// fades nodes off the walk; `inverted_text` puts dark text on the
    /// current node's bright fill.
    Node {
        id: usize,
        x: i64,
        y: i64,
        width: i64,
        height: i64,
        role: BlockRole,
        fill: NodeFill,
        thick_border: bool,
        dimmed: bool,
        inverted_text: bool,
    },
}

/// Whether `cmd` is the command owed to layout edge `src` under the given
/// navigation state.
pub open spec fn edge_cmd_matches(
    cmd: DrawCmd,
    src: crate::layout::LayoutEdge,
    f: ExplorerFunction,
    nav: crate::nav::NavView,
) -> bool {
    match cmd {
        DrawCmd::Edge { points, style, dashed, label, label_at } => {
            &&& points@ == src.points@
            &&& style == spec_edge_style(
                f,
                nav.path,
                nav.current,
                nav.selected,
                src.from as int,
                src.to as int,
                src.kind,
            )
            &&& dashed == (src.kind == EdgeKind::Cleanup)
            &&& (label is Some <==> src.label@.len() > 0 && src.points@.len() >= 2)
            &&& (label is Some ==> label->0@ == src.label@)
            &&& (label_at.0 as int, label_at.1 as int) == spec_label_at(
                src.points@.map_values(|p: (i64, i64)| (p.0 as int, p.1 as int)),
            )
        }
        _ => false,
    }
}

/// Whether `cmd` is the command owed to layout node `src` under the given
/// navigation state.
pub open spec fn node_cmd_matches(
    cmd: DrawCmd,
    src: crate::layout::LayoutNode,
    nav: crate::nav::NavView,
) -> bool {
    match cmd {
        DrawCmd::Node { id, x, y, width, height, role, fill, thick_border, dimmed, inverted_text } => {
            &&& id == src.id && x == src.x && y == src.y && width == src.width && height
                == src.height && role == src.role
            &&& fill == spec_node_fill(nav.path, nav.current, src.id as int)
            &&& thick_border == (src.id as int == nav.current || src.role != BlockRole::Linear)
            &&& dimmed == spec_node_dimmed(nav.path, nav.current, src.id as int)
            &&& inverted_text == (src.id as int == nav.current)
        }
        _ => false,
    }
}

/// Whether the pair `(from, to)` occurs consecutively in the walk
/// `path[0] -> path[1] -> ... -> path[last] -> current`.
pub open spec fn spec_edge_taken(path: Seq<int>, current: int, from: int, to: int) -> bool {
    exists|i: int|
        0 <= i < path.len() && #[trigger] path[i] == from && (if i + 1 < path.len() {
            path[i + 1]
        } else {
            current
        }) == to
}

/// Whether the edge `(from, to)` is the selected edge of the current block.
pub open spec fn spec_edge_selected(
    f: ExplorerFunction,
    current: int,
    selected: int,
    from: int,
    to: int,
) -> bool {
    from == current && 0 <= selected < edge_count(f, current) && edge_target(f, current, selected)
        == to
}

/// The style of one edge: selected beats taken beats cleanup beats plain.
pub open spec fn spec_edge_style(
    f: ExplorerFunction,
    path: Seq<int>,
    current: int,
    selected: int,
    from: int,
    to: int,
    kind: EdgeKind,
) -> EdgeStyle {
    if spec_edge_selected(f, current, selected, from, to) {
        EdgeStyle::Selected
    } else if spec_edge_taken(path, current, from, to) {
        EdgeStyle::Taken
    } else if kind == EdgeKind::Cleanup {
        EdgeStyle::Cleanup
    } else {
        EdgeStyle::Plain
    }
}

/// The fill of one node: current beats visited beats default.
pub open spec fn spec_node_fill(path: Seq<int>, current: int, b: int) -> NodeFill {
    if b == current {
        NodeFill::Current
    } else if path.contains(b) {
        NodeFill::Visited
    } else {
        NodeFill::Default
    }
}

/// A node is dimmed when a walk exists and the node is neither the current
/// block nor on the path. On an empty path nothing is dimmed.
pub open spec fn spec_node_dimmed(path: Seq<int>, current: int, b: int) -> bool {
    path.len() > 0 && b != current && !path.contains(b)
}

/// Where an edge's label badge sits: the midpoint of the middle segment.
pub open spec fn spec_label_at(points: Seq<(int, int)>) -> (int, int) {
    let mid = points.len() as int / 2;
    if 0 < mid < points.len() {
        (
            (points[mid - 1].0 + points[mid].0) / 2,
            (points[mid - 1].1 + points[mid].1) / 2,
        )
    } else if points.len() > 0 {
        points[0]
    } else {
        (0, 0)
    }
}

/// Whether the walk `path -> current` took the edge `(from, to)`.
pub fn is_edge_in_path(from: usize, to: usize, path: &Vec<usize>, current: usize) -> (r: bool)
    ensures
        r == spec_edge_taken(
            crate::nav::path_view(path@),
            current as int,
            from as int,
            to as int,
        ),
{
    let ghost pathv = crate::nav::path_view(path@);
    let n = path.len();
    let mut i: usize = 0;
    while i < n
        invariant
            n == path@.len(),
            i <= n,
            pathv == crate::nav::path_view(path@),
            forall|i2: int|
                0 <= i2 < i ==> !(#[trigger] pathv[i2] == from as int && (if i2 + 1 < pathv.len() {
                    pathv[i2 + 1]
                } else {
                    current as int
                }) == to as int),
        decreases n - i,
    {
        let path_from = path[i];
        let path_to = if i + 1 < n {
            path[i + 1]
        } else {
            current
        };
        if path_from == from && path_to == to {
            proof {
                assert(pathv[i as int] == from as int && (if i as int + 1 < pathv.len() {
                    pathv[i as int + 1]
                } else {
                    current as int
                }) == to as int);
            }
            return true;
        }
        i += 1;
    }
    false
}

/// Whether `path` visits block `b`.
fn path_contains(path: &Vec<usize>, b: usize) -> (r: bool)
    ensures
        r == crate::nav::path_view(path@).contains(b as int),
{
    let ghost pathv = crate::nav::path_view(path@);
    let n = path.len();
    let mut i: usize = 0;
    while i < n
        invariant
            n == path@.len(),
            i <= n,
            pathv == crate::nav::path_view(path@),
            forall|i2: int| 0 <= i2 < i ==> #[trigger] pathv[i2] != b as int,
        decreases n - i,
    {
        if path[i] == b {
            proof {
                assert(pathv[i as int] == b as int);
            }
            return true;
        }
        i += 1;
    }
    false
}

/// Builds one frame: a clear, one command per layout edge in layout order,
/// then one command per node in id order, each styled from the navigation
/// state exactly as the spec functions above say.
pub fn build_frame(layout: &GraphLayout, f: &ExplorerFunction, nav: &NavState) -> (cmds: Vec<
    DrawCmd,
>)
    requires
        wf_function(*f),
        nav_inv(nav@, *f),
        crate::layout::points_in_range(*layout),
    ensures
        cmds@.len() == 1 + layout.edges@.len() + layout.nodes@.len(),
        cmds@[0] is Clear,
        forall|e: int| 0 <= e < layout.edges@.len()
            ==> edge_cmd_matches(#[trigger] cmds@[1 + e], layout.edges@[e], *f, nav@),
        forall|b: int| 0 <= b < layout.nodes@.len()
            ==> node_cmd_matches(
                #[trigger] cmds@[1 + layout.edges@.len() + b],
                layout.nodes@[b],
                nav@,
            ),
{
    let mut cmds: Vec<DrawCmd> = Vec::new();
    cmds.push(DrawCmd::Clear);

    let current = nav.current;
    let selected = nav.selected_edge;
    let ec = f.blocks[current].terminator.edges.len();
    let selected_target: Option<usize> = if selected < ec {
        Some(f.blocks[current].terminator.edges[selected].target)
    } else {
        None
    };

    let ne = layout.edges.len();
    let mut e: usize = 0;
    while e < ne
        invariant
            wf_function(*f),
            nav_inv(nav@, *f),
            current == nav.current,
            selected == nav.selected_edge,
            crate::layout::points_in_range(*layout),
            selected_target matches Some(t) ==> nav@.selected < edge_count(*f, nav@.current)
                && edge_target(*f, nav@.current, nav@.selected) == t as int,
            selected_target is None ==> nav@.selected >= edge_count(*f, nav@.current),
            ne == layout.edges@.len(),
            e <= ne,
            cmds@.len() == 1 + e,
            cmds@[0] is Clear,
            forall|e2: int| 0 <= e2 < e
                ==> edge_cmd_matches(cmds@[1 + e2], layout.edges@[e2], *f, nav@),
        decreases ne - e,
    {
        let src = &layout.edges[e];
        let is_taken = is_edge_in_path(src.from, src.to, &nav.path, current);
        let is_selected = src.from == current && (match selected_target {
            Some(t) => t == src.to,
            None => false,
        });
        proof {
            assert(is_selected == spec_edge_selected(
                *f,
                nav@.current,
                nav@.selected,
                src.from as int,
                src.to as int,
            ));
        }
        let style = if is_selected {
            EdgeStyle::Selected
        } else if is_taken {
            EdgeStyle::Taken
        } else if src.kind == EdgeKind::Cleanup {
            EdgeStyle::Cleanup
        } else {
            EdgeStyle::Plain
        };
        let dashed = src.kind == EdgeKind::Cleanup;

        let np = src.points.len();
        let mid = np / 2;
        let label_at: (i64, i64) = if 0 < mid && mid < np {
            let p1 = src.points[mid - 1];
            let p2 = src.points[mid];
            (div_floor(p1.0 + p2.0, 2), div_floor(p1.1 + p2.1, 2))
        } else if np > 0 {
            src.points[0]
        } else {
            (0, 0)
        };
        proof {
            assert((label_at.0 as int, label_at.1 as int) == spec_label_at(
                src.points@.map_values(|p: (i64, i64)| (p.0 as int, p.1 as int)),
            ));
        }

        let label: Option<String> = if src.label.as_str().unicode_len() > 0 && np >= 2 {
            Some(src.label.clone())
        } else {
            None
        };

        let mut points: Vec<(i64, i64)> = Vec::new();
        let mut pi: usize = 0;
        while pi < np
            invariant
                np == src.points@.len(),
                pi <= np,
                points@.len() == pi,
                forall|p2: int| 0 <= p2 < pi ==> points@[p2] == src.points@[p2],
            decreases np - pi,
        {
            points.push(src.points[pi]);
            pi += 1;
        }
        proof {
            assert(points@ =~= src.points@);
        }

        let edge_cmd = DrawCmd::Edge { points, style, dashed, label, label_at };
        let ghost ec_ghost = edge_cmd;
        let ghost prev_cmds = cmds@;
        cmds.push(edge_cmd);
        proof {
            assert(cmds@ == prev_cmds.push(ec_ghost));
            assert(cmds@[1 + e as int] == ec_ghost);
            assert(forall|i2: int| 0 <= i2 < prev_cmds.len() ==> cmds@[i2] == prev_cmds[i2]);
            assert forall|e2: int| 0 <= e2 < e + 1
                implies edge_cmd_matches(cmds@[1 + e2], layout.edges@[e2], *f, nav@) by {
                if e2 == e {
                    assert(cmds@[1 + e2] == ec_ghost);
                } else {
                    assert(cmds@[1 + e2] == prev_cmds[1 + e2]);
                }
            }
        }
        e += 1;
    }

    let nn = layout.nodes.len();
    let mut b: usize = 0;
    while b < nn
        invariant
            wf_function(*f),
            nav_inv(nav@, *f),
            current == nav.current,
            nn == layout.nodes@.len(),
            ne == layout.edges@.len(),
            b <= nn,
            cmds@.len() == 1 + ne + b,
            cmds@[0] is Clear,
            forall|e2: int| 0 <= e2 < ne
                ==> edge_cmd_matches(cmds@[1 + e2], layout.edges@[e2], *f, nav@),
            forall|b2: int| 0 <= b2 < b
                ==> node_cmd_matches(cmds@[1 + ne + b2], layout.nodes@[b2], nav@),
        decreases nn - b,
    {
        let src = &layout.nodes[b];
        let is_current = src.id == current;
        let is_visited = path_contains(&nav.path, src.id);
        let path_empty = nav.path.len() == 0;
        proof {
            assert(path_empty == (nav@.path.len() == 0));
        }
        let fill = if is_current {
            NodeFill::Current
        } else if is_visited {
            NodeFill::Visited
        } else {
            NodeFill::Default
        };
        let thick_border = is_current || src.role != BlockRole::Linear;
        let dimmed = !path_empty && !is_current && !is_visited;
        let node_cmd = DrawCmd::Node {
            id: src.id,
            x: src.x,
            y: src.y,
            width: src.width,
            height: src.height,
            role: src.role,
            fill,
            thick_border,
            dimmed,
            inverted_text: is_current,
        };
        let ghost nc = node_cmd;
        let ghost prev_cmds = cmds@;
        cmds.push(node_cmd);
        proof {
            assert(cmds@ == prev_cmds.push(nc));
            assert(cmds@[1 + ne + b as int] == nc);
            assert(forall|i2: int| 0 <= i2 < prev_cmds.len() ==> cmds@[i2] == prev_cmds[i2]);
            assert forall|b2: int| 0 <= b2 < b + 1
                implies node_cmd_matches(cmds@[1 + ne + b2], layout.nodes@[b2], nav@) by {
                if b2 == b {
                    assert(cmds@[1 + ne + b2] == nc);
                } else {
                    assert(cmds@[1 + ne + b2] == prev_cmds[1 + ne + b2]);
                }
            }
        }
        b += 1;
    }
    cmds
}

} // verus!
