//! Navigation state machine: the current block, the selected outgoing edge,
//! and the path of previously visited blocks.
//!
//! Every transition is a pure state update driven by one command; invalid
//! arguments (an out-of-range block or edge index) are silent no-ops. The
//! invariant [`nav_inv`] — current block in range, selected edge valid for the
//! current block, every path entry in range — is preserved by all transitions.

use vstd::prelude::*;

use crate::graph::{edge_count, edge_target, wf_function, ExplorerFunction};

verus! {

/// Mathematical model of the navigation state.
pub ghost struct NavView {
    pub current: int,
    pub selected: int,
    pub path: Seq<int>,
}

/// Navigation state over one function's control-flow graph.
#[derive(Clone, Debug)]
pub struct NavState {
    pub current: usize,
    pub selected_edge: usize,
    pub path: Vec<usize>,
}

/// A block-id sequence as mathematical integers.
pub open spec fn path_view(path: Seq<usize>) -> Seq<int> {
    path.map_values(|b: usize| b as int)
}

impl View for NavState {
    type V = NavView;

    open spec fn view(&self) -> NavView {
        NavView {
            current: self.current as int,
            selected: self.selected_edge as int,
            path: path_view(self.path@),
        }
    }
}

/// The navigation invariant with respect to the function being explored.
pub open spec fn nav_inv(v: NavView, f: ExplorerFunction) -> bool {
    &&& f.blocks.len() > 0
    &&& 0 <= v.current < f.blocks.len()
    &&& if edge_count(f, v.current) == 0 {
        v.selected == 0
    } else {
        0 <= v.selected < edge_count(f, v.current)
    }
    &&& forall|i: int| 0 <= i < v.path.len() ==> 0 <= #[trigger] v.path[i] < f.blocks.len()
}

/// Navigation state right after a function is selected: at the entry block,
/// first edge selected, empty path.
pub open spec fn spec_reset(f: ExplorerFunction) -> NavView {
    NavView { current: f.entry_block as int, selected: 0, path: Seq::empty() }
}

/// Effect of `go_to`: an out-of-range target is a no-op; otherwise the target
/// becomes current, the edge selection resets, and — when recording and
/// actually moving — the previous current block is pushed onto the path.
pub open spec fn spec_go_to(v: NavView, f: ExplorerFunction, target: int, record: bool) -> NavView {
    if !(0 <= target < f.blocks.len()) {
        v
    } else {
        NavView {
            current: target,
            selected: 0,
            path: if record && target != v.current {
                v.path.push(v.current)
            } else {
                v.path
            },
        }
    }
}

/// Effect of `go_back`: pop the path if non-empty, else a no-op.
pub open spec fn spec_go_back(v: NavView) -> NavView {
    if v.path.len() == 0 {
        v
    } else {
        NavView { current: v.path.last(), selected: 0, path: v.path.drop_last() }
    }
}

/// Effect of `select_next_edge`: cyclic increment modulo the edge count.
pub open spec fn spec_select_next(v: NavView, c: int) -> NavView {
    if c <= 0 {
        v
    } else {
        NavView { selected: (v.selected + 1) % c, ..v }
    }
}

/// Effect of `select_prev_edge`: cyclic decrement modulo the edge count.
pub open spec fn spec_select_prev(v: NavView, c: int) -> NavView {
    if c <= 0 {
        v
    } else {
        NavView { selected: if v.selected == 0 { c - 1 } else { v.selected - 1 }, ..v }
    }
}

impl NavState {
    /// Fresh navigation state for a newly selected function.
    pub fn new_for(f: &ExplorerFunction) -> (r: NavState)
        requires
            wf_function(*f),
            f.blocks.len() > 0,
        ensures
            r@ == spec_reset(*f),
            nav_inv(r@, *f),
    {
        let r = NavState { current: f.entry_block, selected_edge: 0, path: Vec::new() };
        proof {
            assert(r@.path =~= spec_reset(*f).path);
        }
        r
    }

    /// Navigate to `target`. No-op if `target` is out of range; otherwise the
    /// previous block is recorded on the path when `record` is set and the
    /// move is real. Returns whether the state changed block.
    pub fn go_to(&mut self, f: &ExplorerFunction, target: usize, record: bool) -> (moved: bool)
        requires
            wf_function(*f),
            nav_inv(old(self)@, *f),
        ensures
            final(self)@ == spec_go_to(old(self)@, *f, target as int, record),
            nav_inv(final(self)@, *f),
            moved == ((target as int) < f.blocks.len()),
    {
        if target >= f.blocks.len() {
            return false;
        }
        if record && target != self.current {
            self.path.push(self.current);
        }
        self.current = target;
        self.selected_edge = 0;
        proof {
            assert(final(self)@.path =~= spec_go_to(old(self)@, *f, target as int, record).path);
        }
        true
    }

    /// Go back to the most recently recorded block; a no-op on an empty path.
    /// Returns the block gone back to, if any.
    pub fn go_back(&mut self, f: &ExplorerFunction) -> (popped: Option<usize>)
        requires
            wf_function(*f),
            nav_inv(old(self)@, *f),
        ensures
            final(self)@ == spec_go_back(old(self)@),
            nav_inv(final(self)@, *f),
            popped is Some <==> old(self)@.path.len() > 0,
            popped is Some ==> popped->0 as int == old(self)@.path.last(),
    {
        match self.path.pop() {
            Some(prev) => {
                self.current = prev;
                self.selected_edge = 0;
                proof {
                    assert(final(self)@.path =~= spec_go_back(old(self)@).path);
                }
                Some(prev)
            }
            None => {
                proof {
                    assert(final(self)@ == spec_go_back(old(self)@));
                }
                None
            }
        }
    }

    /// Clear the path and return to the entry block.
    pub fn reset(&mut self, f: &ExplorerFunction)
        requires
            wf_function(*f),
            nav_inv(old(self)@, *f),
        ensures
            final(self)@ == spec_reset(*f),
            nav_inv(final(self)@, *f),
    {
        self.path = Vec::new();
        self.current = f.entry_block;
        self.selected_edge = 0;
        proof {
            assert(final(self)@.path =~= spec_reset(*f).path);
        }
    }

    /// Follow the `i`-th outgoing edge of the current block, recording the
    /// move; a no-op when the block has fewer than `i + 1` outgoing edges.
    pub fn follow_edge(&mut self, f: &ExplorerFunction, i: usize) -> (moved: bool)
        requires
            wf_function(*f),
            nav_inv(old(self)@, *f),
        ensures
            (i as int) < edge_count(*f, old(self)@.current) ==> {
                &&& final(self)@ == spec_go_to(
                    old(self)@,
                    *f,
                    edge_target(*f, old(self)@.current, i as int),
                    true,
                )
                &&& moved
            },
            (i as int) >= edge_count(*f, old(self)@.current) ==> {
                &&& *final(self) == *old(self)
                &&& !moved
            },
            nav_inv(final(self)@, *f),
    {
        if i < self.blocks_edge_count(f) {
            let target = f.blocks[self.current].terminator.edges[i].target;
            proof {
                assert(0 <= edge_target(*f, old(self)@.current, i as int) < f.blocks.len());
            }
            let moved = self.go_to(f, target, true);
            moved
        } else {
            false
        }
    }

    /// Number of outgoing edges of the current block.
    pub fn blocks_edge_count(&self, f: &ExplorerFunction) -> (c: usize)
        requires
            wf_function(*f),
            nav_inv(self@, *f),
        ensures
            c as int == edge_count(*f, self@.current),
    {
        f.blocks[self.current].terminator.edges.len()
    }

    /// Select the next outgoing edge, cyclically; a no-op without edges.
    pub fn select_next_edge(&mut self, f: &ExplorerFunction)
        requires
            wf_function(*f),
            nav_inv(old(self)@, *f),
        ensures
            final(self)@ == spec_select_next(old(self)@, edge_count(*f, old(self)@.current) as int),
            nav_inv(final(self)@, *f),
    {
        let c = self.blocks_edge_count(f);
        if c > 0 {
            self.selected_edge = (self.selected_edge + 1) % c;
        }
    }

    /// Select the previous outgoing edge, cyclically; a no-op without edges.
    pub fn select_prev_edge(&mut self, f: &ExplorerFunction)
        requires
            wf_function(*f),
            nav_inv(old(self)@, *f),
        ensures
            final(self)@ == spec_select_prev(old(self)@, edge_count(*f, old(self)@.current) as int),
            nav_inv(final(self)@, *f),
    {
        let c = self.blocks_edge_count(f);
        if c > 0 {
            self.selected_edge = if self.selected_edge == 0 { c - 1 } else { self.selected_edge - 1 };
        }
    }
}

/// Going back right after navigating to a different, in-range block restores
/// the previous current block and the previous path exactly.
pub proof fn lemma_go_back_after_go_to(v: NavView, f: ExplorerFunction, target: int)
    requires
        0 <= target < f.blocks.len(),
        target != v.current,
    ensures
        spec_go_back(spec_go_to(v, f, target, true)).current == v.current,
        spec_go_back(spec_go_to(v, f, target, true)).path == v.path,
{
    let after = spec_go_to(v, f, target, true);
    assert(after.path.last() == v.current);
    assert(after.path.drop_last() =~= v.path);
}

/// On an empty path, `go_back` is a no-op, so repeating it stays a no-op.
pub proof fn lemma_go_back_empty_noop(v: NavView)
    requires
        v.path.len() == 0,
    ensures
        spec_go_back(v) == v,
        spec_go_back(spec_go_back(v)) == v,
{
}

/// Selecting the next edge and then the previous one restores the selected
/// index, for any block with at least one outgoing edge.
pub proof fn lemma_select_next_then_prev(v: NavView, c: int)
    requires
        c >= 1,
        0 <= v.selected < c,
    ensures
        spec_select_prev(spec_select_next(v, c), c) == v,
{
    let mid = spec_select_next(v, c);
    if v.selected == c - 1 {
        assert(v.selected + 1 == c);
        vstd::arithmetic::div_mod::lemma_mod_self_0(c);
    } else {
        vstd::arithmetic::div_mod::lemma_small_mod((v.selected + 1) as nat, c as nat);
    }
    assert(spec_select_prev(mid, c).selected == v.selected);
}

} // verus!
