//! Explorer controller: the facade the embedding shell talks to.
//!
//! It owns the loaded document, the selected function, that function's cached
//! layout, the navigation state and the viewport. Every mutating operation is
//! a pure state update; the shell re-renders afterwards from [`MirExplorer::render`]'s
//! command list. Out-of-range arguments are silent no-ops throughout, and a
//! document that fails validation leaves all prior state untouched.

use vstd::prelude::*;

use crate::graph::{
    edge_count, edge_target, validate_data, wf_data, wf_function, BlockRole, ExplorerData,
    ExplorerEdge, ExplorerFunction, ExplorerLocal, ExplorerStmt, ExplorerTerminator, LoadError,
};
use crate::input::{parse_key, parse_key_spec, InputAction};
use crate::layout::{
    layout_in_range, layout_matches, node_x, node_y, GraphLayout, MAX_BLOCKS, NODE_HEIGHT,
    NODE_WIDTH,
};
use crate::nav::{
    nav_inv, spec_go_back, spec_go_to, spec_reset, spec_select_next, spec_select_prev, NavState,
    NavView,
};
use crate::render::{build_frame, DrawCmd};
use crate::viewport::{
    spec_center, spec_fit, spec_pan, spec_zoom, vp_inv, Viewport, CANVAS_LIMIT, OFFSET_LIMIT,
    SCALE_ONE, ZOOM_GUARD,
};

verus! {

/// The viewport after re-centering on block `b` of `f`.
pub open spec fn spec_centered_on(v: Viewport, f: ExplorerFunction, b: int, cw: int, ch: int) -> Viewport {
    spec_center(v, node_x(f, b), node_y(f, b), NODE_WIDTH as int, NODE_HEIGHT as int, cw, ch)
}

/// Everything the context panel shows of the current block: the block's own
/// data, the walk so far and the selected edge.
pub struct BlockInfo {
    pub id: usize,
    pub role: BlockRole,
    pub summary: String,
    pub statements: Vec<ExplorerStmt>,
    pub terminator: ExplorerTerminator,
    pub predecessors: Vec<usize>,
    pub path: Vec<usize>,
    pub selected_edge: usize,
}

/// Copies a statement list, value for value.
fn copy_stmts(stmts: &Vec<ExplorerStmt>) -> (r: Vec<ExplorerStmt>)
    ensures
        r@ == stmts@,
{
    let n = stmts.len();
    let mut out: Vec<ExplorerStmt> = Vec::new();
    let mut i: usize = 0;
    while i < n
        invariant
            n == stmts@.len(),
            i <= n,
            out@.len() == i,
            forall|k: int| 0 <= k < i ==> #[trigger] out@[k] == stmts@[k],
        decreases n - i,
    {
        let s = &stmts[i];
        out.push(ExplorerStmt { mir: s.mir.clone(), annotation: s.annotation.clone() });
        i += 1;
    }
    proof {
        assert(out@ =~= stmts@);
    }
    out
}

/// Copies an edge list, value for value.
fn copy_edges(edges: &Vec<ExplorerEdge>) -> (r: Vec<ExplorerEdge>)
    ensures
        r@ == edges@,
{
    let n = edges.len();
    let mut out: Vec<ExplorerEdge> = Vec::new();
    let mut i: usize = 0;
    while i < n
        invariant
            n == edges@.len(),
            i <= n,
            out@.len() == i,
            forall|k: int| 0 <= k < i ==> #[trigger] out@[k] == edges@[k],
        decreases n - i,
    {
        let e = &edges[i];
        out.push(
            ExplorerEdge {
                target: e.target,
                label: e.label.clone(),
                kind: e.kind,
                annotation: e.annotation.clone(),
            },
        );
        i += 1;
    }
    proof {
        assert(out@ =~= edges@);
    }
    out
}

/// Copies a terminator, value for value.
fn copy_terminator(t: &ExplorerTerminator) -> (r: ExplorerTerminator)
    ensures
        r.kind@ == t.kind@,
        r.mir@ == t.mir@,
        r.annotation@ == t.annotation@,
        r.edges@ == t.edges@,
{
    ExplorerTerminator {
        kind: t.kind.clone(),
        mir: t.mir.clone(),
        annotation: t.annotation.clone(),
        edges: copy_edges(&t.edges),
    }
}

/// Copies a block-id list.
fn copy_ids(ids: &Vec<usize>) -> (r: Vec<usize>)
    ensures
        r@ == ids@,
{
    let n = ids.len();
    let mut out: Vec<usize> = Vec::new();
    let mut i: usize = 0;
    while i < n
        invariant
            n == ids@.len(),
            i <= n,
            out@.len() == i,
            forall|k: int| 0 <= k < i ==> #[trigger] out@[k] == ids@[k],
        decreases n - i,
    {
        out.push(ids[i]);
        i += 1;
    }
    proof {
        assert(out@ =~= ids@);
    }
    out
}

/// Copies an assignment list, value for value.
fn copy_assignments(a: &Vec<crate::graph::ExplorerAssignment>) -> (r: Vec<
    crate::graph::ExplorerAssignment,
>)
    ensures
        r@ == a@,
{
    let n = a.len();
    let mut out: Vec<crate::graph::ExplorerAssignment> = Vec::new();
    let mut i: usize = 0;
    while i < n
        invariant
            n == a@.len(),
            i <= n,
            out@.len() == i,
            forall|k: int| 0 <= k < i ==> #[trigger] out@[k] == a@[k],
        decreases n - i,
    {
        let e = &a[i];
        out.push(
            crate::graph::ExplorerAssignment { block_id: e.block_id, value: e.value.clone() },
        );
        i += 1;
    }
    proof {
        assert(out@ =~= a@);
    }
    out
}

/// The explorer controller.
pub struct MirExplorer {
    data: Option<ExplorerData>,
    current_fn_index: usize,
    nav: NavState,
    layout: Option<GraphLayout>,
    viewport: Viewport,
}

impl MirExplorer {
    /// Whether a document is loaded.
    pub closed spec fn loaded(&self) -> bool {
        self.data is Some
    }

    /// The loaded document.
    pub closed spec fn doc(&self) -> ExplorerData {
        self.data->0
    }

    /// Index of the selected function.
    pub closed spec fn fn_index(&self) -> int {
        self.current_fn_index as int
    }

    /// The selected function.
    pub open spec fn cur_fn(&self) -> ExplorerFunction {
        self.doc().functions[self.fn_index()]
    }

    /// The navigation state.
    pub closed spec fn nav_view(&self) -> NavView {
        self.nav@
    }

    /// The viewport transform.
    pub closed spec fn vp(&self) -> Viewport {
        self.viewport
    }

    /// The cached layout of the selected function.
    pub closed spec fn spec_layout(&self) -> GraphLayout {
        self.layout->0
    }

    /// Controller invariant: with a document loaded, the document is
    /// well-formed and non-empty, the function index is in range, the cached
    /// layout is the selected function's layout, and the navigation state is
    /// valid for it; the viewport is always within its own bounds.
    pub closed spec fn inv(&self) -> bool {
        &&& vp_inv(self.viewport)
        &&& match self.data {
            None => self.layout is None,
            Some(d) => {
                &&& wf_data(d)
                &&& d.functions.len() > 0
                &&& (self.current_fn_index as int) < d.functions.len()
                &&& self.layout matches Some(l) && layout_matches(
                    d.functions[self.current_fn_index as int],
                    l,
                ) && layout_in_range(l)
                &&& nav_inv(self.nav@, d.functions[self.current_fn_index as int])
            },
        }
    }

    /// A fresh controller: nothing loaded, identity viewport.
    pub fn new() -> (r: MirExplorer)
        ensures
            !r.loaded(),
            r.inv(),
            r.vp() == (Viewport { scale: SCALE_ONE, offset_x: 0, offset_y: 0 }),
    {
        MirExplorer {
            data: None,
            current_fn_index: 0,
            nav: NavState { current: 0, selected_edge: 0, path: Vec::new() },
            layout: None,
            viewport: Viewport::new(),
        }
    }

    /// Load a validated document. A document that breaks the model's bounds
    /// or holds no functions is rejected and all prior state stays as it
    /// was; otherwise function 0 is selected, navigation starts at its entry
    /// block, and the view is fitted.
    pub fn load(&mut self, data: ExplorerData, canvas_w: i64, canvas_h: i64) -> (r: Result<
        (),
        LoadError,
    >)
        requires
            old(self).inv(),
            0 <= canvas_w <= CANVAS_LIMIT,
            0 <= canvas_h <= CANVAS_LIMIT,
        ensures
            final(self).inv(),
            r is Ok <==> wf_data(data) && data.functions.len() > 0 && data.functions[0].blocks.len()
                <= MAX_BLOCKS,
            r is Err ==> *final(self) == *old(self),
            r is Ok ==> {
                &&& final(self).loaded()
                &&& final(self).doc() == data
                &&& final(self).fn_index() == 0
                &&& final(self).nav_view() == spec_reset(data.functions[0])
            },
    {
        match validate_data(&data) {
            Ok(()) => {}
            Err(e) => {
                return Err(e);
            }
        }
        let func = &data.functions[0];
        if func.blocks.len() > MAX_BLOCKS {
            return Err(LoadError::DocumentParse);
        }
        proof {
            assert(wf_function(data.functions[0]));
        }
        let layout = GraphLayout::from_function(func);
        let nav = NavState::new_for(func);
        let bounds = layout.bounds;
        self.data = Some(data);
        self.current_fn_index = 0;
        self.nav = nav;
        self.layout = Some(layout);
        self.viewport.fit_to_view(canvas_w, canvas_h, bounds.0, bounds.1, bounds.2, bounds.3);
        Ok(())
    }

    /// Number of functions in the loaded document; 0 before a load.
    pub fn function_count(&self) -> (c: usize)
        requires
            self.inv(),
        ensures
            self.loaded() ==> c as int == self.doc().functions.len(),
            !self.loaded() ==> c == 0,
    {
        match &self.data {
            Some(d) => d.functions.len(),
            None => 0,
        }
    }

    /// Short name of the function at `index`, if any.
    pub fn function_name(&self, index: usize) -> (r: Option<String>)
        requires
            self.inv(),
        ensures
            r is Some <==> self.loaded() && (index as int) < self.doc().functions.len(),
            r is Some ==> r->0@ == self.doc().functions[index as int].short_name@,
    {
        match &self.data {
            Some(d) => {
                if index < d.functions.len() {
                    Some(d.functions[index].short_name.clone())
                } else {
                    None
                }
            }
            None => None,
        }
    }

    /// Name of the loaded crate, if any document is loaded.
    pub fn crate_name(&self) -> (r: Option<String>)
        requires
            self.inv(),
        ensures
            r is Some <==> self.loaded(),
            r is Some ==> r->0@ == self.doc().name@,
    {
        match &self.data {
            Some(d) => Some(d.name.clone()),
            None => None,
        }
    }

    /// Select the function at `index`: recompute its layout, reset the
    /// navigation to its entry block and fit the view. A no-op when nothing
    /// is loaded, `index` is out of range, or the function is over the block
    /// budget.
    pub fn select_function(&mut self, index: usize, canvas_w: i64, canvas_h: i64)
        requires
            old(self).inv(),
            0 <= canvas_w <= CANVAS_LIMIT,
            0 <= canvas_h <= CANVAS_LIMIT,
        ensures
            final(self).inv(),
            !(old(self).loaded() && (index as int) < old(self).doc().functions.len()
                && old(self).doc().functions[index as int].blocks.len() <= MAX_BLOCKS)
                ==> *final(self) == *old(self),
            old(self).loaded() && (index as int) < old(self).doc().functions.len()
                && old(self).doc().functions[index as int].blocks.len() <= MAX_BLOCKS ==> {
                &&& final(self).loaded()
                &&& final(self).doc() == old(self).doc()
                &&& final(self).fn_index() == index as int
                &&& final(self).nav_view() == spec_reset(old(self).doc().functions[index as int])
                &&& layout_matches(
                    old(self).doc().functions[index as int],
                    final(self).spec_layout(),
                )
                &&& final(self).vp() == spec_fit(
                    old(self).vp(),
                    canvas_w as int,
                    canvas_h as int,
                    final(self).spec_layout().bounds.0 as int,
                    final(self).spec_layout().bounds.1 as int,
                    final(self).spec_layout().bounds.2 as int,
                    final(self).spec_layout().bounds.3 as int,
                )
            },
    {
        let d = match &self.data {
            Some(d) => d,
            None => {
                return ;
            }
        };
        if index >= d.functions.len() {
            return ;
        }
        let func = &d.functions[index];
        if func.blocks.len() > MAX_BLOCKS {
            return ;
        }
        let layout = GraphLayout::from_function(func);
        let nav = NavState::new_for(func);
        let bounds = layout.bounds;
        self.current_fn_index = index;
        self.nav = nav;
        self.layout = Some(layout);
        self.viewport.fit_to_view(canvas_w, canvas_h, bounds.0, bounds.1, bounds.2, bounds.3);
    }

    /// Re-center the viewport on a block of the selected function.
    fn center_on_block(&mut self, block_id: usize, canvas_w: i64, canvas_h: i64)
        requires
            old(self).inv(),
            old(self).loaded(),
            (block_id as int) < old(self).cur_fn().blocks.len(),
            0 <= canvas_w <= CANVAS_LIMIT,
            0 <= canvas_h <= CANVAS_LIMIT,
        ensures
            final(self).inv(),
            final(self).loaded(),
            final(self).doc() == old(self).doc(),
            final(self).fn_index() == old(self).fn_index(),
            final(self).nav_view() == old(self).nav_view(),
            final(self).spec_layout() == old(self).spec_layout(),
            final(self).vp() == spec_centered_on(
                old(self).vp(),
                old(self).cur_fn(),
                block_id as int,
                canvas_w as int,
                canvas_h as int,
            ),
    {
        let layout = match &self.layout {
            Some(l) => l,
            None => {
                proof {
                    assert(false);
                }
                return ;
            }
        };
        let node = &layout.nodes[block_id];
        let (x, y, w, h) = (node.x, node.y, node.width, node.height);
        self.viewport.center_on(x, y, w, h, canvas_w, canvas_h);
    }

    /// Navigate to a block, recording the move on the path; centers the view
    /// on it. A no-op when nothing is loaded or the block is out of range.
    pub fn go_to_block(&mut self, block_id: usize, canvas_w: i64, canvas_h: i64)
        requires
            old(self).inv(),
            0 <= canvas_w <= CANVAS_LIMIT,
            0 <= canvas_h <= CANVAS_LIMIT,
        ensures
            final(self).inv(),
            !old(self).loaded() ==> *final(self) == *old(self),
            old(self).loaded() ==> {
                &&& final(self).loaded()
                &&& final(self).doc() == old(self).doc()
                &&& final(self).fn_index() == old(self).fn_index()
                &&& final(self).spec_layout() == old(self).spec_layout()
                &&& final(self).nav_view() == spec_go_to(
                    old(self).nav_view(),
                    old(self).cur_fn(),
                    block_id as int,
                    true,
                )
                &&& ((block_id as int) < old(self).cur_fn().blocks.len() ==> final(self).vp()
                    == spec_centered_on(
                    old(self).vp(),
                    old(self).cur_fn(),
                    block_id as int,
                    canvas_w as int,
                    canvas_h as int,
                ))
                &&& ((block_id as int) >= old(self).cur_fn().blocks.len() ==> final(self).vp()
                    == old(self).vp())
            },
    {
        let d = match &self.data {
            Some(d) => d,
            None => {
                return ;
            }
        };
        let func = &d.functions[self.current_fn_index];
        let moved = self.nav.go_to(func, block_id, true);
        if moved {
            self.center_on_block(block_id, canvas_w, canvas_h);
        }
    }

    /// Go back to the previous block on the path and center the view on it;
    /// a no-op on an empty path or before a load.
    pub fn go_back(&mut self, canvas_w: i64, canvas_h: i64)
        requires
            old(self).inv(),
            0 <= canvas_w <= CANVAS_LIMIT,
            0 <= canvas_h <= CANVAS_LIMIT,
        ensures
            final(self).inv(),
            !old(self).loaded() ==> *final(self) == *old(self),
            old(self).loaded() ==> {
                &&& final(self).loaded()
                &&& final(self).doc() == old(self).doc()
                &&& final(self).fn_index() == old(self).fn_index()
                &&& final(self).spec_layout() == old(self).spec_layout()
                &&& final(self).nav_view() == spec_go_back(old(self).nav_view())
                &&& (old(self).nav_view().path.len() > 0 ==> final(self).vp() == spec_centered_on(
                    old(self).vp(),
                    old(self).cur_fn(),
                    old(self).nav_view().path.last(),
                    canvas_w as int,
                    canvas_h as int,
                ))
                &&& (old(self).nav_view().path.len() == 0 ==> final(self).vp() == old(self).vp())
            },
    {
        let d = match &self.data {
            Some(d) => d,
            None => {
                return ;
            }
        };
        let func = &d.functions[self.current_fn_index];
        match self.nav.go_back(func) {
            Some(prev) => {
                self.center_on_block(prev, canvas_w, canvas_h);
            }
            None => {}
        }
    }

    /// Clear the path and return to the entry block, centering the view on
    /// it; a no-op before a load.
    pub fn reset(&mut self, canvas_w: i64, canvas_h: i64)
        requires
            old(self).inv(),
            0 <= canvas_w <= CANVAS_LIMIT,
            0 <= canvas_h <= CANVAS_LIMIT,
        ensures
            final(self).inv(),
            !old(self).loaded() ==> *final(self) == *old(self),
            old(self).loaded() ==> {
                &&& final(self).loaded()
                &&& final(self).doc() == old(self).doc()
                &&& final(self).fn_index() == old(self).fn_index()
                &&& final(self).spec_layout() == old(self).spec_layout()
                &&& final(self).nav_view() == spec_reset(old(self).cur_fn())
                &&& final(self).vp() == spec_centered_on(
                    old(self).vp(),
                    old(self).cur_fn(),
                    old(self).cur_fn().entry_block as int,
                    canvas_w as int,
                    canvas_h as int,
                )
            },
    {
        let d = match &self.data {
            Some(d) => d,
            None => {
                return ;
            }
        };
        let func = &d.functions[self.current_fn_index];
        let entry = func.entry_block;
        self.nav.reset(func);
        self.center_on_block(entry, canvas_w, canvas_h);
    }

    /// Follow the `edge_index`-th outgoing edge of the current block; a no-op
    /// when the block has fewer outgoing edges or nothing is loaded.
    pub fn follow_edge(&mut self, edge_index: usize, canvas_w: i64, canvas_h: i64)
        requires
            old(self).inv(),
            0 <= canvas_w <= CANVAS_LIMIT,
            0 <= canvas_h <= CANVAS_LIMIT,
        ensures
            final(self).inv(),
            !old(self).loaded() ==> *final(self) == *old(self),
            old(self).loaded() ==> {
                let f = old(self).cur_fn();
                let cur = old(self).nav_view().current;
                &&& final(self).loaded()
                &&& final(self).doc() == old(self).doc()
                &&& final(self).fn_index() == old(self).fn_index()
                &&& final(self).spec_layout() == old(self).spec_layout()
                &&& ((edge_index as int) >= edge_count(f, cur) ==> *final(self) == *old(self))
                &&& ((edge_index as int) < edge_count(f, cur) ==> {
                    let target = edge_target(f, cur, edge_index as int);
                    &&& final(self).nav_view() == spec_go_to(
                        old(self).nav_view(),
                        f,
                        target,
                        true,
                    )
                    &&& final(self).vp() == spec_centered_on(
                        old(self).vp(),
                        f,
                        target,
                        canvas_w as int,
                        canvas_h as int,
                    )
                })
            },
    {
        let d = match &self.data {
            Some(d) => d,
            None => {
                return ;
            }
        };
        let func = &d.functions[self.current_fn_index];
        if edge_index < self.nav.blocks_edge_count(func) {
            let target = func.blocks[self.nav.current].terminator.edges[edge_index].target;
            proof {
                assert(0 <= edge_target(
                    old(self).cur_fn(),
                    old(self).nav_view().current,
                    edge_index as int,
                ) < func.blocks.len());
            }
            let moved = self.nav.go_to(func, target, true);
            if moved {
                self.center_on_block(target, canvas_w, canvas_h);
            }
        }
    }

    /// Cycle the edge selection forward; a no-op without outgoing edges.
    pub fn select_next_edge(&mut self)
        requires
            old(self).inv(),
        ensures
            final(self).inv(),
            !old(self).loaded() ==> *final(self) == *old(self),
            old(self).loaded() ==> {
                &&& final(self).loaded()
                &&& final(self).doc() == old(self).doc()
                &&& final(self).fn_index() == old(self).fn_index()
                &&& final(self).spec_layout() == old(self).spec_layout()
                &&& final(self).vp() == old(self).vp()
                &&& final(self).nav_view() == spec_select_next(
                    old(self).nav_view(),
                    edge_count(old(self).cur_fn(), old(self).nav_view().current) as int,
                )
            },
    {
        let d = match &self.data {
            Some(d) => d,
            None => {
                return ;
            }
        };
        let func = &d.functions[self.current_fn_index];
        self.nav.select_next_edge(func);
    }

    /// Cycle the edge selection backward; a no-op without outgoing edges.
    pub fn select_prev_edge(&mut self)
        requires
            old(self).inv(),
        ensures
            final(self).inv(),
            !old(self).loaded() ==> *final(self) == *old(self),
            old(self).loaded() ==> {
                &&& final(self).loaded()
                &&& final(self).doc() == old(self).doc()
                &&& final(self).fn_index() == old(self).fn_index()
                &&& final(self).spec_layout() == old(self).spec_layout()
                &&& final(self).vp() == old(self).vp()
                &&& final(self).nav_view() == spec_select_prev(
                    old(self).nav_view(),
                    edge_count(old(self).cur_fn(), old(self).nav_view().current) as int,
                )
            },
    {
        let d = match &self.data {
            Some(d) => d,
            None => {
                return ;
            }
        };
        let func = &d.functions[self.current_fn_index];
        self.nav.select_prev_edge(func);
    }

    /// Handle one key press; returns whether the key was handled. The search
    /// focus key and unbound keys are reported as unhandled; everything else
    /// maps onto the navigation operations above.
    pub fn handle_key(&mut self, key: &str, canvas_w: i64, canvas_h: i64) -> (handled: bool)
        requires
            old(self).inv(),
            0 <= canvas_w <= CANVAS_LIMIT,
            0 <= canvas_h <= CANVAS_LIMIT,
        ensures
            final(self).inv(),
            handled == !(parse_key_spec(key@) is NoOp || parse_key_spec(key@) is FocusSearch),
            (parse_key_spec(key@) is NoOp || parse_key_spec(key@) is FocusSearch) ==> *final(self)
                == *old(self),
            !old(self).loaded() ==> *final(self) == *old(self),
            old(self).loaded() ==> {
                let f = old(self).cur_fn();
                let v = old(self).nav_view();
                match parse_key_spec(key@) {
                    InputAction::GoBack => final(self).nav_view() == spec_go_back(v),
                    InputAction::Reset => final(self).nav_view() == spec_reset(f),
                    InputAction::SelectEdge(n) => final(self).nav_view() == (if (n as int)
                        < edge_count(f, v.current) {
                        spec_go_to(v, f, edge_target(f, v.current, n as int), true)
                    } else {
                        v
                    }),
                    InputAction::MoveDown => final(self).nav_view() == spec_select_next(
                        v,
                        edge_count(f, v.current) as int,
                    ),
                    InputAction::MoveUp => final(self).nav_view() == spec_select_prev(
                        v,
                        edge_count(f, v.current) as int,
                    ),
                    InputAction::MoveRight => final(self).nav_view() == (if v.selected
                        < edge_count(f, v.current) {
                        spec_go_to(v, f, edge_target(f, v.current, v.selected), true)
                    } else {
                        v
                    }),
                    _ => *final(self) == *old(self),
                }
            },
    {
        match parse_key(key) {
            InputAction::GoBack => {
                self.go_back(canvas_w, canvas_h);
                true
            }
            InputAction::Reset => {
                self.reset(canvas_w, canvas_h);
                true
            }
            InputAction::SelectEdge(n) => {
                self.follow_edge(n, canvas_w, canvas_h);
                true
            }
            InputAction::MoveDown => {
                self.select_next_edge();
                true
            }
            InputAction::MoveUp => {
                self.select_prev_edge();
                true
            }
            InputAction::MoveRight => {
                let sel = self.nav.selected_edge;
                self.follow_edge(sel, canvas_w, canvas_h);
                true
            }
            InputAction::FocusSearch => false,
            InputAction::NoOp => false,
        }
    }

    /// One zoom step toward the mouse position; scrolling away zooms out.
    /// Skipped (a no-op) once the viewport has drifted beyond the zoom
    /// guard, a machine limit no real interaction reaches.
    pub fn handle_wheel(&mut self, delta_y: i64, mouse_x: i64, mouse_y: i64)
        requires
            old(self).inv(),
            -CANVAS_LIMIT <= mouse_x <= CANVAS_LIMIT,
            -CANVAS_LIMIT <= mouse_y <= CANVAS_LIMIT,
        ensures
            final(self).inv(),
            final(self).loaded() == old(self).loaded(),
            old(self).loaded() ==> final(self).doc() == old(self).doc(),
            final(self).fn_index() == old(self).fn_index(),
            final(self).nav_view() == old(self).nav_view(),
            old(self).loaded() ==> final(self).spec_layout() == old(self).spec_layout(),
            (-ZOOM_GUARD <= old(self).vp().offset_x <= ZOOM_GUARD && -ZOOM_GUARD <= old(
                self,
            ).vp().offset_y <= ZOOM_GUARD) ==> final(self).vp() == spec_zoom(
                old(self).vp(),
                delta_y <= 0,
                mouse_x as int,
                mouse_y as int,
            ),
            !(-ZOOM_GUARD <= old(self).vp().offset_x <= ZOOM_GUARD && -ZOOM_GUARD <= old(
                self,
            ).vp().offset_y <= ZOOM_GUARD) ==> final(self).vp() == old(self).vp(),
    {
        let zoom_in = delta_y <= 0;
        if -ZOOM_GUARD <= self.viewport.offset_x && self.viewport.offset_x <= ZOOM_GUARD
            && -ZOOM_GUARD <= self.viewport.offset_y && self.viewport.offset_y <= ZOOM_GUARD {
            self.viewport.zoom(zoom_in, mouse_x, mouse_y);
        }
    }

    /// Pan the view by a screen-space delta. Skipped once the offset has
    /// drifted near the machine limit.
    pub fn handle_drag(&mut self, delta_x: i64, delta_y: i64)
        requires
            old(self).inv(),
            -CANVAS_LIMIT <= delta_x <= CANVAS_LIMIT,
            -CANVAS_LIMIT <= delta_y <= CANVAS_LIMIT,
        ensures
            final(self).inv(),
            final(self).loaded() == old(self).loaded(),
            old(self).loaded() ==> final(self).doc() == old(self).doc(),
            final(self).fn_index() == old(self).fn_index(),
            final(self).nav_view() == old(self).nav_view(),
            old(self).loaded() ==> final(self).spec_layout() == old(self).spec_layout(),
            (-OFFSET_LIMIT + CANVAS_LIMIT * SCALE_ONE <= old(self).vp().offset_x <= OFFSET_LIMIT
                - CANVAS_LIMIT * SCALE_ONE && -OFFSET_LIMIT + CANVAS_LIMIT * SCALE_ONE <= old(
                self,
            ).vp().offset_y <= OFFSET_LIMIT - CANVAS_LIMIT * SCALE_ONE) ==> final(self).vp()
                == spec_pan(old(self).vp(), delta_x as int, delta_y as int),
            !(-OFFSET_LIMIT + CANVAS_LIMIT * SCALE_ONE <= old(self).vp().offset_x <= OFFSET_LIMIT
                - CANVAS_LIMIT * SCALE_ONE && -OFFSET_LIMIT + CANVAS_LIMIT * SCALE_ONE <= old(
                self,
            ).vp().offset_y <= OFFSET_LIMIT - CANVAS_LIMIT * SCALE_ONE) ==> final(self).vp()
                == old(self).vp(),
    {
        let lo: i64 = -OFFSET_LIMIT + CANVAS_LIMIT * SCALE_ONE;
        let hi: i64 = OFFSET_LIMIT - CANVAS_LIMIT * SCALE_ONE;
        if lo <= self.viewport.offset_x && self.viewport.offset_x <= hi && lo
            <= self.viewport.offset_y && self.viewport.offset_y <= hi {
            self.viewport.pan(delta_x, delta_y);
        }
    }

    /// Fit the selected function's graph into the canvas; a no-op before a
    /// load.
    pub fn fit_to_view(&mut self, canvas_w: i64, canvas_h: i64)
        requires
            old(self).inv(),
            0 <= canvas_w <= CANVAS_LIMIT,
            0 <= canvas_h <= CANVAS_LIMIT,
        ensures
            final(self).inv(),
            !old(self).loaded() ==> *final(self) == *old(self),
            old(self).loaded() ==> {
                &&& final(self).loaded()
                &&& final(self).doc() == old(self).doc()
                &&& final(self).fn_index() == old(self).fn_index()
                &&& final(self).nav_view() == old(self).nav_view()
                &&& final(self).spec_layout() == old(self).spec_layout()
                &&& final(self).vp() == spec_fit(
                    old(self).vp(),
                    canvas_w as int,
                    canvas_h as int,
                    old(self).spec_layout().bounds.0 as int,
                    old(self).spec_layout().bounds.1 as int,
                    old(self).spec_layout().bounds.2 as int,
                    old(self).spec_layout().bounds.3 as int,
                )
            },
    {
        let bounds = match &self.layout {
            Some(l) => l.bounds,
            None => {
                return ;
            }
        };
        proof {
            assert(old(self).loaded());
        }
        self.viewport.fit_to_view(canvas_w, canvas_h, bounds.0, bounds.1, bounds.2, bounds.3);
    }

    /// Build the current frame's drawing commands; `None` before a load.
    pub fn render(&self) -> (r: Option<Vec<DrawCmd>>)
        requires
            self.inv(),
        ensures
            r is Some <==> self.loaded(),
            r is Some ==> {
                let cmds = r->0;
                let l = self.spec_layout();
                &&& cmds@.len() == 1 + l.edges@.len() + l.nodes@.len()
                &&& cmds@[0] is Clear
                &&& forall|e: int| 0 <= e < l.edges@.len()
                    ==> crate::render::edge_cmd_matches(
                        #[trigger] cmds@[1 + e],
                        l.edges@[e],
                        self.cur_fn(),
                        self.nav_view(),
                    )
                &&& forall|b: int| 0 <= b < l.nodes@.len()
                    ==> crate::render::node_cmd_matches(
                        #[trigger] cmds@[1 + l.edges@.len() + b],
                        l.nodes@[b],
                        self.nav_view(),
                    )
            },
    {
        let d = match &self.data {
            Some(d) => d,
            None => {
                return None;
            }
        };
        let layout = match &self.layout {
            Some(l) => l,
            None => {
                proof {
                    assert(false);
                }
                return None;
            }
        };
        let func = &d.functions[self.current_fn_index];
        Some(build_frame(layout, func, &self.nav))
    }

    /// Everything the context panel needs of the current block; `None`
    /// before a load.
    pub fn get_block_info(&self) -> (r: Option<BlockInfo>)
        requires
            self.inv(),
        ensures
            r is Some <==> self.loaded(),
            r is Some ==> {
                let info = r->0;
                let b = self.cur_fn().blocks[self.nav_view().current];
                &&& info.id == b.id
                &&& info.role == b.role
                &&& info.summary@ == b.summary@
                &&& info.statements@ == b.statements@
                &&& info.terminator.kind@ == b.terminator.kind@
                &&& info.terminator.mir@ == b.terminator.mir@
                &&& info.terminator.annotation@ == b.terminator.annotation@
                &&& info.terminator.edges@ == b.terminator.edges@
                &&& info.predecessors@ == b.predecessors@
                &&& crate::nav::path_view(info.path@) == self.nav_view().path
                &&& info.selected_edge as int == self.nav_view().selected
            },
    {
        let d = match &self.data {
            Some(d) => d,
            None => {
                return None;
            }
        };
        let block = &d.functions[self.current_fn_index].blocks[self.nav.current];
        Some(
            BlockInfo {
                id: block.id,
                role: block.role,
                summary: block.summary.clone(),
                statements: copy_stmts(&block.statements),
                terminator: copy_terminator(&block.terminator),
                predecessors: copy_ids(&block.predecessors),
                path: copy_ids(&self.nav.path),
                selected_edge: self.nav.selected_edge,
            },
        )
    }

    /// The current function's locals; `None` before a load.
    pub fn get_locals(&self) -> (r: Option<Vec<ExplorerLocal>>)
        requires
            self.inv(),
        ensures
            r is Some <==> self.loaded(),
            r is Some ==> {
                let ls = r->0@;
                let src = self.cur_fn().locals@;
                &&& ls.len() == src.len()
                &&& forall|i: int| 0 <= i < ls.len()
                    ==> {
                        &&& (#[trigger] ls[i]).name@ == src[i].name@
                        &&& ls[i].ty@ == src[i].ty@
                        &&& (ls[i].source_name is Some <==> src[i].source_name is Some)
                        &&& (ls[i].source_name is Some ==> ls[i].source_name->0@
                            == src[i].source_name->0@)
                        &&& ls[i].assignments@ == src[i].assignments@
                    }
            },
    {
        let d = match &self.data {
            Some(d) => d,
            None => {
                return None;
            }
        };
        let locals = &d.functions[self.current_fn_index].locals;
        let n = locals.len();
        let mut out: Vec<ExplorerLocal> = Vec::new();
        let mut i: usize = 0;
        while i < n
            invariant
                n == locals@.len(),
                i <= n,
                out@.len() == i,
                forall|k: int| 0 <= k < i
                    ==> {
                        &&& (#[trigger] out@[k]).name@ == locals@[k].name@
                        &&& out@[k].ty@ == locals@[k].ty@
                        &&& (out@[k].source_name is Some <==> locals@[k].source_name is Some)
                        &&& (out@[k].source_name is Some ==> out@[k].source_name->0@
                            == locals@[k].source_name->0@)
                        &&& out@[k].assignments@ == locals@[k].assignments@
                    },
            decreases n - i,
        {
            let l = &locals[i];
            let source_name: Option<String> = match &l.source_name {
                Some(s) => Some(s.clone()),
                None => None,
            };
            out.push(
                ExplorerLocal {
                    name: l.name.clone(),
                    ty: l.ty.clone(),
                    source_name,
                    assignments: copy_assignments(&l.assignments),
                },
            );
            i += 1;
        }
        Some(out)
    }

    /// The current transform as `(scale, offset_x, offset_y)`, scale in
    /// thousandths and offsets in thousandths of a pixel.
    pub fn view_transform(&self) -> (r: (i64, i64, i64))
        requires
            self.inv(),
        ensures
            r.0 == self.vp().scale,
            r.1 == self.vp().offset_x,
            r.2 == self.vp().offset_y,
    {
        (self.viewport.scale, self.viewport.offset_x, self.viewport.offset_y)
    }

    /// The selected function; `None` before a load.
    pub fn current_function(&self) -> (r: Option<&ExplorerFunction>)
        requires
            self.inv(),
        ensures
            r is Some <==> self.loaded(),
            r is Some ==> *r->0 == self.cur_fn(),
    {
        match &self.data {
            Some(d) => Some(&d.functions[self.current_fn_index]),
            None => None,
        }
    }
}

} // verus!
