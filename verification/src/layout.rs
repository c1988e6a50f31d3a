//! Graph layout engine: a pure function from a function's control-flow graph
//! to node positions, routed edge polylines and a bounding box.
//!
//! Blocks are layered by breadth-first distance from the entry block; blocks
//! the search never reaches share one synthetic layer below all discovered
//! ones, so every block gets a position even on a disconnected graph. Within
//! a layer, blocks sit left to right in ascending id order, each row centered
//! on x = 0. Edges that go strictly downward are routed as four-point
//! polylines through a horizontal midline; edges that go upward or sideways
//! detour around the right of both nodes with six points.
//!
//! The whole result is characterized by spec functions of the input alone
//! ([`layout_matches`]), so two runs on the same function give identical
//! positions and edge points.

use vstd::prelude::*;

use crate::graph::{edge_count, edge_target, wf_function, BlockRole, EdgeKind, ExplorerFunction};
use crate::viewport::{div_floor, GRAPH_LIMIT};

verus! {

/// Width of every node box, in graph units.
pub const NODE_WIDTH: i64 = 60;

/// Height of every node box, in graph units.
pub const NODE_HEIGHT: i64 = 35;

/// Horizontal gap between neighboring nodes of one layer.
pub const HORIZONTAL_SPACING: i64 = 80;

/// Vertical distance between consecutive layers.
pub const VERTICAL_SPACING: i64 = 100;

/// How far a backward edge detours below and to the right of its nodes.
pub const BACK_EDGE_OFFSET: i64 = 30;

/// Horizontal pitch of one node slot.
pub const CELL: i64 = NODE_WIDTH + HORIZONTAL_SPACING;

/// Machine limit on the number of blocks one layout call accepts; keeps all
/// coordinate arithmetic far inside `i64`.
pub const MAX_BLOCKS: usize = 100_000;

/// Bound on single node coordinates; half the viewport's graph-space range,
/// so whole node rectangles and routed detours stay inside that range.
pub const COORD_LIMIT: i64 = 50_000_000;

// ---------------------------------------------------------------------------
// Layer assignment, specified as iterated breadth-first rounds
// ---------------------------------------------------------------------------

/// Layer map before the first round: only the entry block is assigned, at
/// layer 0.
pub open spec fn init_layers(f: ExplorerFunction) -> Seq<Option<nat>> {
    Seq::new(
        f.blocks.len() as nat,
        |t: int| if t == f.entry_block as int { Some(0nat) } else { None },
    )
}

/// Whether some edge out of a frontier block targets `t`.
pub open spec fn frontier_reaches(f: ExplorerFunction, frontier: Seq<int>, t: int) -> bool {
    exists|i: int, j: int|
        0 <= i < frontier.len() && 0 <= j < edge_count(f, frontier[i])
            && #[trigger] edge_target(f, frontier[i], j) == t
}

/// Whether round `k + 1` assigns block `t`: it is unassigned and reached
/// from the current frontier.
pub open spec fn newly_assigned(
    f: ExplorerFunction,
    layers: Seq<Option<nat>>,
    frontier: Seq<int>,
    t: int,
) -> bool {
    layers[t] is None && frontier_reaches(f, frontier, t)
}

/// Layer map after one round: every newly assigned block gets layer `k + 1`.
pub open spec fn bfs_step_layers(
    f: ExplorerFunction,
    layers: Seq<Option<nat>>,
    frontier: Seq<int>,
    k: nat,
) -> Seq<Option<nat>> {
    Seq::new(
        layers.len(),
        |t: int| if newly_assigned(f, layers, frontier, t) { Some((k + 1) as nat) } else { layers[t] },
    )
}

/// The next frontier: the newly assigned blocks below `upto`, in ascending
/// id order.
pub open spec fn step_frontier(
    f: ExplorerFunction,
    layers: Seq<Option<nat>>,
    frontier: Seq<int>,
    upto: int,
) -> Seq<int>
    decreases upto,
{
    if upto <= 0 {
        Seq::empty()
    } else if newly_assigned(f, layers, frontier, upto - 1) {
        step_frontier(f, layers, frontier, upto - 1).push(upto - 1)
    } else {
        step_frontier(f, layers, frontier, upto - 1)
    }
}

/// Number of unassigned entries; the measure that makes the rounds terminate.
pub open spec fn none_count(layers: Seq<Option<nat>>) -> nat
    decreases layers.len(),
{
    if layers.len() == 0 {
        0
    } else {
        none_count(layers.drop_last()) + if layers.last() is None { 1nat } else { 0nat }
    }
}

/// An unassigned-entry-preserving refinement cannot raise the measure.
proof fn lemma_none_count_le(a: Seq<Option<nat>>, b: Seq<Option<nat>>)
    requires
        a.len() == b.len(),
        forall|t: int| 0 <= t < b.len() && b[t] is None ==> a[t] is None,
    ensures
        none_count(b) <= none_count(a),
    decreases a.len(),
{
    if a.len() > 0 {
        lemma_none_count_le(a.drop_last(), b.drop_last());
        if b.last() is None {
            assert(a[a.len() - 1] is None);
        }
    }
}

/// Assigning at least one previously unassigned entry lowers the measure.
proof fn lemma_none_count_strict(a: Seq<Option<nat>>, b: Seq<Option<nat>>, w: int)
    requires
        a.len() == b.len(),
        forall|t: int| 0 <= t < b.len() && b[t] is None ==> a[t] is None,
        0 <= w < a.len(),
        a[w] is None,
        b[w] is Some,
    ensures
        none_count(b) < none_count(a),
    decreases a.len(),
{
    if w == a.len() - 1 {
        lemma_none_count_le(a.drop_last(), b.drop_last());
    } else {
        lemma_none_count_strict(a.drop_last(), b.drop_last(), w);
    }
}

/// A step frontier holds exactly the newly assigned ids below `upto`.
proof fn lemma_step_frontier_members(
    f: ExplorerFunction,
    layers: Seq<Option<nat>>,
    frontier: Seq<int>,
    upto: int,
)
    ensures
        forall|i: int| 0 <= i < step_frontier(f, layers, frontier, upto).len()
            ==> {
                let t = #[trigger] step_frontier(f, layers, frontier, upto)[i];
                0 <= t < upto && newly_assigned(f, layers, frontier, t)
            },
        forall|t: int| 0 <= t < upto && newly_assigned(f, layers, frontier, t)
            ==> step_frontier(f, layers, frontier, upto).contains(t),
    decreases upto,
{
    if upto > 0 {
        lemma_step_frontier_members(f, layers, frontier, upto - 1);
        let s = step_frontier(f, layers, frontier, upto);
        let s0 = step_frontier(f, layers, frontier, upto - 1);
        if newly_assigned(f, layers, frontier, upto - 1) {
            assert(s == s0.push(upto - 1));
            assert(forall|i: int| 0 <= i < s0.len() ==> s[i] == s0[i]);
            assert(s[s.len() - 1] == upto - 1);
        }
        assert forall|t: int| 0 <= t < upto && newly_assigned(f, layers, frontier, t)
            implies s.contains(t) by {
            if t < upto - 1 {
                assert(s0.contains(t));
                let i = choose|i: int| 0 <= i < s0.len() && s0[i] == t;
                assert(s[i] == t);
            } else {
                assert(s[s.len() - 1] == t);
            }
        }
    }
}

/// The measure of the initial layer map: every block but the entry block is
/// unassigned.
proof fn lemma_init_none_count_prefix(f: ExplorerFunction, m: int)
    requires
        f.blocks.len() > 0,
        (f.entry_block as int) < f.blocks.len(),
        0 <= m <= f.blocks.len(),
    ensures
        none_count(init_layers(f).take(m)) == if m <= f.entry_block as int {
            m
        } else {
            m - 1
        },
    decreases m,
{
    if m > 0 {
        lemma_init_none_count_prefix(f, m - 1);
        assert(init_layers(f).take(m).drop_last() =~= init_layers(f).take(m - 1));
        assert(init_layers(f).take(m).last() == init_layers(f)[m - 1]);
    }
}

/// The layer map the breadth-first rounds finally produce, starting from the
/// given state. Round `k + 1` assigns layer `k + 1`; the rounds stop when a
/// round assigns nothing.
pub open spec fn bfs_rec(
    f: ExplorerFunction,
    layers: Seq<Option<nat>>,
    frontier: Seq<int>,
    k: nat,
) -> Seq<Option<nat>>
    decreases none_count(layers), frontier.len(),
        via bfs_rec_decreases
{
    if frontier.len() == 0 {
        layers
    } else {
        bfs_rec(
            f,
            bfs_step_layers(f, layers, frontier, k),
            step_frontier(f, layers, frontier, layers.len() as int),
            k + 1,
        )
    }
}

/// One breadth-first round lowers the lexicographic measure
/// `(none_count, frontier length)`.
proof fn lemma_bfs_measure(f: ExplorerFunction, layers: Seq<Option<nat>>, frontier: Seq<int>, k: nat)
    requires
        frontier.len() > 0,
    ensures
        ({
            let layers2 = bfs_step_layers(f, layers, frontier, k);
            let frontier2 = step_frontier(f, layers, frontier, layers.len() as int);
            none_count(layers2) <= none_count(layers)
                && (frontier2.len() > 0 ==> none_count(layers2) < none_count(layers))
        }),
{
    let layers2 = bfs_step_layers(f, layers, frontier, k);
    let frontier2 = step_frontier(f, layers, frontier, layers.len() as int);
    assert(forall|t: int| 0 <= t < layers2.len() && layers2[t] is None ==> layers[t] is None);
    lemma_none_count_le(layers, layers2);
    if frontier2.len() > 0 {
        lemma_step_frontier_members(f, layers, frontier, layers.len() as int);
        let w = frontier2[0];
        assert(newly_assigned(f, layers, frontier, w));
        assert(layers2[w] is Some);
        lemma_none_count_strict(layers, layers2, w);
    }
}

#[via_fn]
proof fn bfs_rec_decreases(f: ExplorerFunction, layers: Seq<Option<nat>>, frontier: Seq<int>, k: nat) {
    if frontier.len() > 0 {
        lemma_bfs_measure(f, layers, frontier, k);
    }
}

/// The final layer map of `f`'s breadth-first layering.
pub open spec fn bfs_final(f: ExplorerFunction) -> Seq<Option<nat>> {
    bfs_rec(f, init_layers(f), seq![f.entry_block as int], 0)
}

/// Largest assigned layer, 0 when nothing is assigned.
pub open spec fn max_some(layers: Seq<Option<nat>>) -> nat
    decreases layers.len(),
{
    if layers.len() == 0 {
        0
    } else {
        let m = max_some(layers.drop_last());
        match layers.last() {
            Some(l) => if l > m { l } else { m },
            None => m,
        }
    }
}

/// The layer of block `b`: its breadth-first distance from the entry block,
/// or one more than the largest discovered layer when the search never
/// reaches `b`.
pub open spec fn layer_num(f: ExplorerFunction, b: int) -> nat {
    match bfs_final(f)[b] {
        Some(l) => l,
        None => max_some(bfs_final(f)) + 1,
    }
}

/// View of an in-progress layer vector as the spec's layer map.
pub open spec fn layers_view(v: Vec<Option<usize>>) -> Seq<Option<nat>> {
    v@.map_values(
        |o: Option<usize>| match o {
            Some(u) => Some(u as nat),
            None => None,
        },
    )
}

/// View of a frontier vector as the spec's frontier.
pub open spec fn frontier_view(v: Vec<usize>) -> Seq<int> {
    v@.map_values(|b: usize| b as int)
}

/// Runs the breadth-first rounds and returns the final layer map; `None`
/// marks a block the search never reached. Every assigned layer is at most
/// the block count.
fn compute_bfs(f: &ExplorerFunction) -> (lay: Vec<Option<usize>>)
    requires
        wf_function(*f),
        0 < f.blocks.len() <= MAX_BLOCKS,
    ensures
        lay@.len() == f.blocks.len(),
        layers_view(lay) == bfs_final(*f),
        forall|b: int| 0 <= b < lay@.len() && lay@[b] is Some ==> lay@[b]->0 <= f.blocks.len(),
{
    let n = f.blocks.len();
    let entry = f.entry_block;

    let mut lay: Vec<Option<usize>> = Vec::new();
    let mut i: usize = 0;
    while i < n
        invariant
            i <= n,
            (entry as int) < n,
            lay@.len() == i,
            forall|t: int| 0 <= t < i ==> lay@[t] == (if t == entry as int {
                Some(0usize)
            } else {
                None
            }),
        decreases n - i,
    {
        if i == entry {
            lay.push(Some(0));
        } else {
            lay.push(None);
        }
        i += 1;
    }
    proof {
        assert(layers_view(lay) =~= init_layers(*f));
    }

    let mut frontier: Vec<usize> = Vec::new();
    frontier.push(entry);
    proof {
        assert(frontier_view(frontier) =~= seq![f.entry_block as int]);
        lemma_init_none_count_prefix(*f, n as int);
        assert(init_layers(*f).take(n as int) =~= init_layers(*f));
    }

    let ghost target_map = bfs_final(*f);
    let mut k: usize = 0;

    while frontier.len() > 0
        invariant
            wf_function(*f),
            0 < n <= MAX_BLOCKS,
            n == f.blocks.len(),
            lay@.len() == n,
            forall|i2: int| 0 <= i2 < frontier@.len() ==> (#[trigger] frontier@[i2]) < n,
            bfs_rec(*f, layers_view(lay), frontier_view(frontier), k as nat) == target_map,
            k <= n,
            frontier@.len() > 0 ==> k + none_count(layers_view(lay)) <= n - 1,
            forall|b: int| 0 <= b < n && lay@[b] is Some ==> (#[trigger] lay@[b])->0 <= k,
        decreases none_count(layers_view(lay)), frontier@.len(),
    {
        let ghost old_lay = layers_view(lay);
        let ghost old_frontier = frontier_view(frontier);

        // Mark every block that this round newly assigns.
        let mut mark: Vec<bool> = Vec::new();
        let mut t: usize = 0;
        while t < n
            invariant
                t <= n,
                mark@.len() == t,
                forall|t2: int| 0 <= t2 < t ==> !(#[trigger] mark@[t2]),
            decreases n - t,
        {
            mark.push(false);
            t += 1;
        }

        let mut idx: usize = 0;
        while idx < frontier.len()
            invariant
                wf_function(*f),
                n == f.blocks.len(),
                lay@.len() == n,
                mark@.len() == n,
                idx <= frontier@.len(),
                forall|i2: int| 0 <= i2 < frontier@.len() ==> (#[trigger] frontier@[i2]) < n,
                layers_view(lay) == old_lay,
                frontier_view(frontier) == old_frontier,
                forall|t2: int| 0 <= t2 < n ==> ((#[trigger] mark@[t2]) <==> (old_lay[t2] is None
                    && exists|i2: int, j: int|
                        0 <= i2 < idx && 0 <= j < edge_count(*f, old_frontier[i2])
                            && #[trigger] edge_target(*f, old_frontier[i2], j) == t2)),
            decreases frontier@.len() - idx,
        {
            let u = frontier[idx];
            let ec = f.blocks[u].terminator.edges.len();
            let mut j: usize = 0;
            while j < ec
                invariant
                    wf_function(*f),
                    n == f.blocks.len(),
                    lay@.len() == n,
                    mark@.len() == n,
                    idx < frontier@.len(),
                    u == frontier@[idx as int],
                    u < n,
                    ec as int == edge_count(*f, u as int),
                    j <= ec,
                    forall|i2: int| 0 <= i2 < frontier@.len() ==> (#[trigger] frontier@[i2]) < n,
                    layers_view(lay) == old_lay,
                    frontier_view(frontier) == old_frontier,
                    forall|t2: int| 0 <= t2 < n ==> ((#[trigger] mark@[t2]) <==> (old_lay[t2] is None
                        && exists|i2: int, j2: int|
                            (0 <= i2 < idx && 0 <= j2 < edge_count(*f, old_frontier[i2])
                                || i2 == idx && 0 <= j2 < j)
                                && 0 <= j2 < edge_count(*f, old_frontier[i2])
                                && #[trigger] edge_target(*f, old_frontier[i2], j2) == t2)),
                decreases ec - j,
            {
                let tgt = f.blocks[u].terminator.edges[j].target;
                proof {
                    assert(edge_target(*f, u as int, j as int) == tgt as int);
                    assert(0 <= edge_target(*f, u as int, j as int) < n);
                }
                if lay[tgt].is_none() && !mark[tgt] {
                    mark[tgt] = true;
                }
                proof {
                    assert(old_frontier[idx as int] == u as int);
                    assert(forall|t2: int| 0 <= t2 < n ==> ((#[trigger] mark@[t2]) <==> (old_lay[t2] is None
                        && exists|i2: int, j2: int|
                            (0 <= i2 < idx && 0 <= j2 < edge_count(*f, old_frontier[i2])
                                || i2 == idx && 0 <= j2 < j + 1)
                                && 0 <= j2 < edge_count(*f, old_frontier[i2])
                                && #[trigger] edge_target(*f, old_frontier[i2], j2) == t2)));
                }
                j += 1;
            }
            idx += 1;
        }
        proof {
            assert(forall|t2: int| 0 <= t2 < n
                ==> ((#[trigger] mark@[t2]) <==> newly_assigned(*f, old_lay, old_frontier, t2)));
        }

        // Assign the marked blocks and collect the next frontier.
        let mut next: Vec<usize> = Vec::new();
        let new_layer = k + 1;
        let mut t: usize = 0;
        while t < n
            invariant
                wf_function(*f),
                n == f.blocks.len(),
                lay@.len() == n,
                mark@.len() == n,
                t <= n,
                k < n,
                new_layer == k + 1,
                old_lay.len() == n,
                forall|t2: int| 0 <= t2 < n
                    ==> ((#[trigger] mark@[t2]) <==> newly_assigned(*f, old_lay, old_frontier, t2)),
                forall|t2: int| t <= t2 < n ==> layers_view(lay)[t2] == old_lay[t2],
                forall|t2: int| 0 <= t2 < t ==> layers_view(lay)[t2]
                    == bfs_step_layers(*f, old_lay, old_frontier, k as nat)[t2],
                frontier_view(next) == step_frontier(*f, old_lay, old_frontier, t as int),
                forall|i2: int| 0 <= i2 < next@.len() ==> (#[trigger] next@[i2]) < n,
                forall|b: int| 0 <= b < n && lay@[b] is Some ==> (#[trigger] lay@[b])->0 <= k + 1,
            decreases n - t,
        {
            let ghost prev_next = frontier_view(next);
            let ghost prev_lay = layers_view(lay);
            let ghost prev_vec = lay@;
            if mark[t] {
                lay[t] = Some(new_layer);
                next.push(t);
                proof {
                    assert(frontier_view(next) =~= prev_next.push(t as int));
                    assert(lay@ == prev_vec.update(t as int, Some(new_layer)));
                    assert(lay@[t as int] == Some(new_layer));
                    assert(forall|t2: int| 0 <= t2 < n && t2 != t ==> lay@[t2] == prev_vec[t2]);
                    assert(forall|t2: int| 0 <= t2 < n && t2 != t
                        ==> layers_view(lay)[t2] == prev_lay[t2]);
                    assert(layers_view(lay)[t as int] == Some((k + 1) as nat));
                    assert(newly_assigned(*f, old_lay, old_frontier, t as int));
                    assert(layers_view(lay)[t as int]
                        == bfs_step_layers(*f, old_lay, old_frontier, k as nat)[t as int]);
                }
            } else {
                proof {
                    assert(!newly_assigned(*f, old_lay, old_frontier, t as int));
                    assert(layers_view(lay)[t as int]
                        == bfs_step_layers(*f, old_lay, old_frontier, k as nat)[t as int]);
                }
            }
            proof {
                assert(frontier_view(next)
                    =~= step_frontier(*f, old_lay, old_frontier, t as int + 1));
                assert forall|t2: int| 0 <= t2 < t + 1 implies layers_view(lay)[t2]
                    == bfs_step_layers(*f, old_lay, old_frontier, k as nat)[t2] by {
                    if t2 < t {
                        assert(layers_view(lay)[t2] == prev_lay[t2]);
                        assert(prev_lay[t2]
                            == bfs_step_layers(*f, old_lay, old_frontier, k as nat)[t2]);
                    }
                }
            }
            t += 1;
        }
        proof {
            assert(layers_view(lay) =~= bfs_step_layers(*f, old_lay, old_frontier, k as nat));
        }

        proof {
            if next@.len() > 0 {
                lemma_step_frontier_members(*f, old_lay, old_frontier, n as int);
                let w = frontier_view(next)[0];
                assert(newly_assigned(*f, old_lay, old_frontier, w));
                assert(layers_view(lay)[w] is Some);
                lemma_none_count_strict(old_lay, layers_view(lay), w);
            } else {
                lemma_step_frontier_members(*f, old_lay, old_frontier, n as int);
                assert(forall|t2: int| 0 <= t2 < n
                    ==> !newly_assigned(*f, old_lay, old_frontier, t2));
                assert(layers_view(lay) =~= old_lay);
            }
        }
        frontier = next;
        k = new_layer;
    }
    lay
}

/// Computes every block's final layer: breadth-first distance from the entry
/// block, with all unreached blocks together on one extra layer below the
/// deepest discovered one.
pub fn compute_layers(f: &ExplorerFunction) -> (layers: Vec<usize>)
    requires
        wf_function(*f),
        0 < f.blocks.len() <= MAX_BLOCKS,
    ensures
        layers@.len() == f.blocks.len(),
        forall|b: int| 0 <= b < layers@.len() ==> (#[trigger] layers@[b]) as nat == layer_num(*f, b),
        forall|b: int| 0 <= b < layers@.len() ==> (#[trigger] layers@[b]) <= f.blocks.len() + 1,
{
    let n = f.blocks.len();
    let lay = compute_bfs(f);

    let mut maxl: usize = 0;
    let mut b: usize = 0;
    while b < n
        invariant
            n == lay@.len(),
            b <= n,
            maxl as nat == max_some(layers_view(lay).take(b as int)),
            forall|b2: int| 0 <= b2 < n && lay@[b2] is Some ==> (#[trigger] lay@[b2])->0 <= n,
            maxl <= n,
        decreases n - b,
    {
        proof {
            assert(layers_view(lay).take(b + 1).drop_last() =~= layers_view(lay).take(b as int));
            assert(layers_view(lay).take(b + 1).last() == layers_view(lay)[b as int]);
        }
        if let Some(l) = lay[b] {
            if l > maxl {
                maxl = l;
            }
        }
        b += 1;
    }
    proof {
        assert(layers_view(lay).take(n as int) =~= layers_view(lay));
    }

    let mut layers: Vec<usize> = Vec::new();
    let mut b: usize = 0;
    while b < n
        invariant
            n == lay@.len(),
            n == f.blocks.len(),
            n <= MAX_BLOCKS,
            b <= n,
            maxl as nat == max_some(bfs_final(*f)),
            maxl <= n,
            layers_view(lay) == bfs_final(*f),
            forall|b2: int| 0 <= b2 < n && lay@[b2] is Some ==> (#[trigger] lay@[b2])->0 <= n,
            layers@.len() == b,
            forall|b2: int| 0 <= b2 < b ==> (#[trigger] layers@[b2]) as nat == layer_num(*f, b2),
            forall|b2: int| 0 <= b2 < b ==> (#[trigger] layers@[b2]) <= n + 1,
        decreases n - b,
    {
        match lay[b] {
            Some(l) => {
                layers.push(l);
            }
            None => {
                layers.push(maxl + 1);
            }
        }
        b += 1;
    }
    layers
}

// ---------------------------------------------------------------------------
// Node positions
// ---------------------------------------------------------------------------

/// How many of the blocks with id below `upto` lie on layer `k`.
pub open spec fn count_layer(f: ExplorerFunction, k: nat, upto: int) -> nat
    decreases upto,
{
    if upto <= 0 {
        0
    } else {
        count_layer(f, k, upto - 1) + if layer_num(f, upto - 1) == k { 1nat } else { 0nat }
    }
}

proof fn lemma_count_layer_le(f: ExplorerFunction, k: nat, upto: int)
    ensures
        count_layer(f, k, upto) <= if upto <= 0 { 0 } else { upto },
    decreases upto,
{
    if upto > 0 {
        lemma_count_layer_le(f, k, upto - 1);
    }
}

proof fn lemma_count_layer_mono(f: ExplorerFunction, k: nat, a: int, b: int)
    requires
        a <= b,
    ensures
        count_layer(f, k, a) <= count_layer(f, k, b),
    decreases b - a,
{
    if a < b {
        lemma_count_layer_mono(f, k, a, b - 1);
    }
}

/// Number of blocks on layer `k`.
pub open spec fn layer_size(f: ExplorerFunction, k: nat) -> nat {
    count_layer(f, k, f.blocks.len() as int)
}

/// Position of block `b` within its layer, counting smaller ids on the same
/// layer.
pub open spec fn layer_rank(f: ExplorerFunction, b: int) -> nat {
    count_layer(f, layer_num(f, b), b)
}

/// Horizontal position of block `b`: its slot within its layer, the whole
/// row centered on x = 0.
pub open spec fn node_x(f: ExplorerFunction, b: int) -> int {
    layer_rank(f, b) * CELL - (layer_size(f, layer_num(f, b)) * CELL - HORIZONTAL_SPACING) / 2
}

/// Vertical position of block `b`: its layer times the layer spacing.
pub open spec fn node_y(f: ExplorerFunction, b: int) -> int {
    layer_num(f, b) * VERTICAL_SPACING
}

/// A positioned node in the layout.
#[derive(Clone, Debug)]
pub struct LayoutNode {
    pub id: usize,
    pub x: i64,
    pub y: i64,
    pub width: i64,
    pub height: i64,
    pub role: BlockRole,
}

/// Whether `node` is the node the layout owes block `b`.
pub open spec fn node_matches(f: ExplorerFunction, b: int, node: LayoutNode) -> bool {
    &&& node.id as int == b
    &&& node.x as int == node_x(f, b)
    &&& node.y as int == node_y(f, b)
    &&& node.width == NODE_WIDTH
    &&& node.height == NODE_HEIGHT
    &&& node.role == f.blocks[b].role
}

/// Places every block by layer and in-layer rank.
fn position_nodes(f: &ExplorerFunction, layers: &Vec<usize>) -> (nodes: Vec<LayoutNode>)
    requires
        wf_function(*f),
        0 < f.blocks.len() <= MAX_BLOCKS,
        layers@.len() == f.blocks.len(),
        forall|b: int| 0 <= b < layers@.len() ==> (#[trigger] layers@[b]) as nat == layer_num(*f, b),
        forall|b: int| 0 <= b < layers@.len() ==> (#[trigger] layers@[b]) <= f.blocks.len() + 1,
    ensures
        nodes@.len() == f.blocks.len(),
        forall|b: int| 0 <= b < nodes@.len() ==> node_matches(*f, b, #[trigger] nodes@[b]),
{
    let n = f.blocks.len();
    let mut nodes: Vec<LayoutNode> = Vec::new();
    let mut b: usize = 0;
    while b < n
        invariant
            wf_function(*f),
            0 < n <= MAX_BLOCKS,
            n == f.blocks.len(),
            layers@.len() == n,
            forall|b2: int| 0 <= b2 < n ==> (#[trigger] layers@[b2]) as nat == layer_num(*f, b2),
            forall|b2: int| 0 <= b2 < n ==> (#[trigger] layers@[b2]) <= n + 1,
            b <= n,
            nodes@.len() == b,
            forall|b2: int| 0 <= b2 < b ==> node_matches(*f, b2, #[trigger] nodes@[b2]),
        decreases n - b,
    {
        let k = layers[b];

        let mut rank: usize = 0;
        let mut i: usize = 0;
        while i < b
            invariant
                n == f.blocks.len(),
                layers@.len() == n,
                forall|b2: int| 0 <= b2 < n ==> (#[trigger] layers@[b2]) as nat == layer_num(*f, b2),
                b < n,
                i <= b,
                k == layers@[b as int],
                rank as nat == count_layer(*f, k as nat, i as int),
                rank <= i,
            decreases b - i,
        {
            if layers[i] == k {
                rank += 1;
            }
            i += 1;
        }

        let mut size: usize = 0;
        let mut i: usize = 0;
        while i < n
            invariant
                n == f.blocks.len(),
                layers@.len() == n,
                forall|b2: int| 0 <= b2 < n ==> (#[trigger] layers@[b2]) as nat == layer_num(*f, b2),
                b < n,
                i <= n,
                k == layers@[b as int],
                size as nat == count_layer(*f, k as nat, i as int),
                size <= i,
            decreases n - i,
        {
            if layers[i] == k {
                size += 1;
            }
            i += 1;
        }
        proof {
            lemma_count_layer_mono(*f, k as nat, b + 1, n as int);
            assert(count_layer(*f, k as nat, b as int + 1) >= 1);
            assert(size >= 1);
        }

        let row_width: i64 = (size as i64) * CELL - HORIZONTAL_SPACING;
        let x: i64 = (rank as i64) * CELL - div_floor(row_width, 2);
        let y: i64 = (k as i64) * VERTICAL_SPACING;
        nodes.push(
            LayoutNode {
                id: b,
                x,
                y,
                width: NODE_WIDTH,
                height: NODE_HEIGHT,
                role: f.blocks[b].role,
            },
        );
        b += 1;
    }
    nodes
}

// ---------------------------------------------------------------------------
// Edge routing
// ---------------------------------------------------------------------------

/// Number of layout edges contributed by the blocks with id below `b`.
pub open spec fn edges_before(f: ExplorerFunction, b: int) -> nat
    decreases b,
{
    if b <= 0 {
        0
    } else {
        edges_before(f, b - 1) + edge_count(f, b - 1)
    }
}

/// Total number of layout edges: one per edge occurrence, in block-then-edge
/// order.
pub open spec fn total_edges(f: ExplorerFunction) -> nat {
    edges_before(f, f.blocks.len() as int)
}

/// Earlier blocks contribute a prefix of the edge list.
pub proof fn lemma_edges_before_mono(f: ExplorerFunction, a: int, b: int)
    requires
        a <= b,
    ensures
        edges_before(f, a) <= edges_before(f, b),
    decreases b - a,
{
    if a < b {
        lemma_edges_before_mono(f, a, b - 1);
    }
}

/// Polyline of an edge whose target lies strictly below its source: down
/// from the source's bottom center, across at the average height, down into
/// the target's top center.
pub open spec fn forward_points(fx: int, fy: int, tx: int, ty: int) -> Seq<(int, int)> {
    let mid = (fy + ty) / 2;
    seq![(fx, fy), (fx, mid), (tx, mid), (tx, ty)]
}

/// Polyline of an edge whose target lies at or above its source: a detour
/// below the source, around the right of both nodes, into the target's
/// bottom center.
pub open spec fn back_points(fcx: int, fby: int, tcx: int, tby: int, fx: int, tx: int) -> Seq<
    (int, int),
> {
    let right_x = (if fx >= tx { fx } else { tx }) + NODE_WIDTH + BACK_EDGE_OFFSET;
    seq![
        (fcx, fby),
        (fcx, fby + BACK_EDGE_OFFSET),
        (right_x, fby + BACK_EDGE_OFFSET),
        (right_x, tby + BACK_EDGE_OFFSET),
        (tcx, tby + BACK_EDGE_OFFSET),
        (tcx, tby),
    ]
}

/// Control points of the `j`-th edge out of block `b`.
pub open spec fn edge_points(f: ExplorerFunction, b: int, j: int) -> Seq<(int, int)> {
    let to = edge_target(f, b, j);
    let fx = node_x(f, b);
    let fy = node_y(f, b);
    let tx = node_x(f, to);
    let ty = node_y(f, to);
    if ty <= fy {
        back_points(fx + NODE_WIDTH / 2, fy + NODE_HEIGHT, tx + NODE_WIDTH / 2, ty + NODE_HEIGHT, fx, tx)
    } else {
        forward_points(fx + NODE_WIDTH / 2, fy + NODE_HEIGHT, tx + NODE_WIDTH / 2, ty)
    }
}

/// A routed edge in the layout.
#[derive(Clone, Debug)]
pub struct LayoutEdge {
    pub from: usize,
    pub to: usize,
    pub label: String,
    pub kind: EdgeKind,
    /// Control points for drawing the edge, start to end.
    pub points: Vec<(i64, i64)>,
}

/// View of a point list as mathematical integer pairs.
pub open spec fn points_view(points: Vec<(i64, i64)>) -> Seq<(int, int)> {
    points@.map_values(|p: (i64, i64)| (p.0 as int, p.1 as int))
}

/// Whether `e` is the layout edge owed to the `j`-th edge out of block `b`.
pub open spec fn edge_matches(f: ExplorerFunction, b: int, j: int, e: LayoutEdge) -> bool {
    &&& e.from as int == b
    &&& e.to as int == edge_target(f, b, j)
    &&& e.kind == f.blocks[b].terminator.edges[j].kind
    &&& e.label@ == f.blocks[b].terminator.edges[j].label@
    &&& points_view(e.points) == edge_points(f, b, j)
}

/// Routes every edge, in block-then-edge order.
fn route_edges(f: &ExplorerFunction, nodes: &Vec<LayoutNode>) -> (edges: Vec<LayoutEdge>)
    requires
        wf_function(*f),
        0 < f.blocks.len() <= MAX_BLOCKS,
        nodes@.len() == f.blocks.len(),
        forall|b: int| 0 <= b < nodes@.len() ==> node_matches(*f, b, #[trigger] nodes@[b]),
        forall|b: int| 0 <= b < nodes@.len()
            ==> -COORD_LIMIT <= (#[trigger] nodes@[b]).x as int <= COORD_LIMIT
                && 0 <= nodes@[b].y as int <= COORD_LIMIT,
    ensures
        edges@.len() == total_edges(*f),
        forall|b: int, j: int| 0 <= b < f.blocks.len() && 0 <= j < edge_count(*f, b)
            ==> edge_matches(*f, b, j, #[trigger] edges@[edges_before(*f, b) + j]),
        forall|e: int, p: int|
            0 <= e < edges@.len() && 0 <= p < edges@[e].points@.len()
                ==> -GRAPH_LIMIT <= (#[trigger] edges@[e].points@[p]).0 as int <= GRAPH_LIMIT
                    && -GRAPH_LIMIT <= edges@[e].points@[p].1 as int <= GRAPH_LIMIT,
{
    let n = f.blocks.len();
    let mut edges: Vec<LayoutEdge> = Vec::new();
    let mut b: usize = 0;
    while b < n
        invariant
            wf_function(*f),
            0 < n <= MAX_BLOCKS,
            n == f.blocks.len(),
            nodes@.len() == n,
            forall|b2: int| 0 <= b2 < n ==> node_matches(*f, b2, #[trigger] nodes@[b2]),
            forall|b2: int| 0 <= b2 < n
                ==> -COORD_LIMIT <= (#[trigger] nodes@[b2]).x as int <= COORD_LIMIT
                    && 0 <= nodes@[b2].y as int <= COORD_LIMIT,
            b <= n,
            edges@.len() == edges_before(*f, b as int),
            forall|b2: int, j2: int| 0 <= b2 < b && 0 <= j2 < edge_count(*f, b2)
                ==> edge_matches(*f, b2, j2, #[trigger] edges@[edges_before(*f, b2) + j2]),
            forall|e2: int, p: int|
                0 <= e2 < edges@.len() && 0 <= p < edges@[e2].points@.len()
                    ==> -GRAPH_LIMIT <= (#[trigger] edges@[e2].points@[p]).0 as int <= GRAPH_LIMIT
                        && -GRAPH_LIMIT <= edges@[e2].points@[p].1 as int <= GRAPH_LIMIT,
        decreases n - b,
    {
        let ec = f.blocks[b].terminator.edges.len();
        let mut j: usize = 0;
        while j < ec
            invariant
                wf_function(*f),
                0 < n <= MAX_BLOCKS,
                n == f.blocks.len(),
                nodes@.len() == n,
                forall|b2: int| 0 <= b2 < n ==> node_matches(*f, b2, #[trigger] nodes@[b2]),
                forall|b2: int| 0 <= b2 < n
                    ==> -COORD_LIMIT <= (#[trigger] nodes@[b2]).x as int <= COORD_LIMIT
                        && 0 <= nodes@[b2].y as int <= COORD_LIMIT,
                b < n,
                ec as int == edge_count(*f, b as int),
                j <= ec,
                edges@.len() == edges_before(*f, b as int) + j,
                forall|b2: int, j2: int| (0 <= b2 < b && 0 <= j2 < edge_count(*f, b2)
                    || b2 == b && 0 <= j2 < j)
                    ==> edge_matches(*f, b2, j2, #[trigger] edges@[edges_before(*f, b2) + j2]),
            forall|e2: int, p: int|
                0 <= e2 < edges@.len() && 0 <= p < edges@[e2].points@.len()
                    ==> -GRAPH_LIMIT <= (#[trigger] edges@[e2].points@[p]).0 as int <= GRAPH_LIMIT
                        && -GRAPH_LIMIT <= edges@[e2].points@[p].1 as int <= GRAPH_LIMIT,
            decreases ec - j,
        {
            let to = f.blocks[b].terminator.edges[j].target;
            proof {
                assert(edge_target(*f, b as int, j as int) == to as int);
                assert(0 <= edge_target(*f, b as int, j as int) < n);
            }
            let from_node = &nodes[b];
            let to_node = &nodes[to];
            let fx = from_node.x;
            let fy = from_node.y;
            let tx = to_node.x;
            let ty = to_node.y;
            let half: i64 = NODE_WIDTH / 2;

            let mut points: Vec<(i64, i64)> = Vec::new();
            if ty <= fy {
                let right_x: i64 = (if fx >= tx { fx } else { tx }) + NODE_WIDTH + BACK_EDGE_OFFSET;
                points.push((fx + half, fy + NODE_HEIGHT));
                points.push((fx + half, fy + NODE_HEIGHT + BACK_EDGE_OFFSET));
                points.push((right_x, fy + NODE_HEIGHT + BACK_EDGE_OFFSET));
                points.push((right_x, ty + NODE_HEIGHT + BACK_EDGE_OFFSET));
                points.push((tx + half, ty + NODE_HEIGHT + BACK_EDGE_OFFSET));
                points.push((tx + half, ty + NODE_HEIGHT));
                proof {
                    assert(points_view(points) =~= edge_points(*f, b as int, j as int));
                }
            } else {
                let mid: i64 = div_floor(fy + NODE_HEIGHT + ty, 2);
                points.push((fx + half, fy + NODE_HEIGHT));
                points.push((fx + half, mid));
                points.push((tx + half, mid));
                points.push((tx + half, ty));
                proof {
                    assert(points_view(points) =~= edge_points(*f, b as int, j as int));
                }
            }

            let edge_src = &f.blocks[b].terminator.edges[j];
            let new_edge = LayoutEdge {
                from: b,
                to,
                label: edge_src.label.clone(),
                kind: edge_src.kind,
                points,
            };
            let ghost ne = new_edge;
            let ghost prev_edges = edges@;
            proof {
                assert(edge_matches(*f, b as int, j as int, ne));
            }
            edges.push(new_edge);
            proof {
                assert(edges@ == prev_edges.push(ne));
                assert(edges@[edges_before(*f, b as int) + j as int] == ne);
                assert(forall|i2: int| 0 <= i2 < prev_edges.len()
                    ==> edges@[i2] == prev_edges[i2]);
                assert(forall|p: int| 0 <= p < ne.points@.len()
                    ==> -GRAPH_LIMIT <= (#[trigger] ne.points@[p]).0 as int <= GRAPH_LIMIT
                        && -GRAPH_LIMIT <= ne.points@[p].1 as int <= GRAPH_LIMIT);
                assert forall|b2: int, j2: int| (0 <= b2 < b && 0 <= j2 < edge_count(*f, b2)
                    || b2 == b && 0 <= j2 < j + 1)
                    implies edge_matches(*f, b2, j2, #[trigger] edges@[edges_before(*f, b2) + j2]) by {
                    if b2 == b && j2 == j {
                        assert(edges@[edges_before(*f, b2) + j2] == ne);
                    } else {
                        if b2 < b {
                            lemma_edges_before_mono(*f, b2 + 1, b as int);
                        }
                        assert(edges_before(*f, b2) + j2 < prev_edges.len());
                        assert(edges@[edges_before(*f, b2) + j2]
                            == prev_edges[edges_before(*f, b2) + j2]);
                    }
                }
            }
            j += 1;
        }
        b += 1;
        proof {
            assert(edges@.len() == edges_before(*f, b as int));
        }
    }
    edges
}

// ---------------------------------------------------------------------------
// Bounding box and the assembled layout
// ---------------------------------------------------------------------------

/// Bounding box of the first `m` node rectangles, `m >= 1`.
pub open spec fn bounds_upto(f: ExplorerFunction, m: int) -> (int, int, int, int)
    decreases m,
{
    if m <= 1 {
        (node_x(f, 0), node_y(f, 0), node_x(f, 0) + NODE_WIDTH, node_y(f, 0) + NODE_HEIGHT)
    } else {
        let p = bounds_upto(f, m - 1);
        let x = node_x(f, m - 1);
        let y = node_y(f, m - 1);
        (
            if x < p.0 { x } else { p.0 },
            if y < p.1 { y } else { p.1 },
            if x + NODE_WIDTH > p.2 { x + NODE_WIDTH } else { p.2 },
            if y + NODE_HEIGHT > p.3 { y + NODE_HEIGHT } else { p.3 },
        )
    }
}

/// Bounding box of all node rectangles; the zero box without nodes.
pub open spec fn bounds_spec(f: ExplorerFunction) -> (int, int, int, int) {
    if f.blocks.len() == 0 {
        (0, 0, 0, 0)
    } else {
        bounds_upto(f, f.blocks.len() as int)
    }
}

/// Complete layout information for a function's control-flow graph.
#[derive(Debug)]
pub struct GraphLayout {
    pub nodes: Vec<LayoutNode>,
    pub edges: Vec<LayoutEdge>,
    /// Bounding box: (min_x, min_y, max_x, max_y).
    pub bounds: (i64, i64, i64, i64),
}

/// Whether `l` is the layout owed to `f`: one node per block at its computed
/// position, one routed edge per edge occurrence in block-then-edge order,
/// and the bounding box of all node rectangles.
pub open spec fn layout_matches(f: ExplorerFunction, l: GraphLayout) -> bool {
    &&& l.nodes@.len() == f.blocks.len()
    &&& forall|b: int| 0 <= b < f.blocks.len() ==> node_matches(f, b, #[trigger] l.nodes@[b])
    &&& l.edges@.len() == total_edges(f)
    &&& forall|b: int, j: int| 0 <= b < f.blocks.len() && 0 <= j < edge_count(f, b)
        ==> edge_matches(f, b, j, #[trigger] l.edges@[edges_before(f, b) + j])
    &&& (l.bounds.0 as int, l.bounds.1 as int, l.bounds.2 as int, l.bounds.3 as int)
        == bounds_spec(f)
}

/// All edge control points of `l` lie inside the viewport's graph-space
/// range.
pub open spec fn points_in_range(l: GraphLayout) -> bool {
    forall|e: int, p: int|
        0 <= e < l.edges@.len() && 0 <= p < l.edges@[e].points@.len()
            ==> -GRAPH_LIMIT <= (#[trigger] l.edges@[e].points@[p]).0 as int <= GRAPH_LIMIT
                && -GRAPH_LIMIT <= l.edges@[e].points@[p].1 as int <= GRAPH_LIMIT
}

/// All coordinates of `l` lie far inside the viewport's graph-space range,
/// and its bounding box is ordered.
pub open spec fn layout_in_range(l: GraphLayout) -> bool {
    &&& -GRAPH_LIMIT <= l.bounds.0 as int <= l.bounds.2 as int <= GRAPH_LIMIT
    &&& -GRAPH_LIMIT <= l.bounds.1 as int <= l.bounds.3 as int <= GRAPH_LIMIT
    &&& forall|b: int| 0 <= b < l.nodes@.len()
        ==> -GRAPH_LIMIT <= (#[trigger] l.nodes@[b]).x as int <= GRAPH_LIMIT
            && 0 <= l.nodes@[b].y as int <= GRAPH_LIMIT && l.nodes@[b].width == NODE_WIDTH
            && l.nodes@[b].height == NODE_HEIGHT
    &&& points_in_range(l)
}

impl GraphLayout {
    /// Lay out one function: layer every block by breadth-first distance
    /// from the entry block, place the layers as centered rows, route every
    /// edge, and take the bounding box over all node rectangles. The result
    /// is a function of the input alone.
    pub fn from_function(func: &ExplorerFunction) -> (l: GraphLayout)
        requires
            func.blocks.len() == 0 || wf_function(*func),
            func.blocks.len() <= MAX_BLOCKS,
        ensures
            layout_matches(*func, l),
            layout_in_range(l),
    {
        let n = func.blocks.len();
        if n == 0 {
            return GraphLayout { nodes: Vec::new(), edges: Vec::new(), bounds: (0, 0, 0, 0) };
        }

        let layers = compute_layers(func);
        let nodes = position_nodes(func, &layers);
        proof {
            assert forall|b: int| 0 <= b < nodes@.len()
                implies -COORD_LIMIT <= (#[trigger] nodes@[b]).x as int <= COORD_LIMIT
                    && 0 <= nodes@[b].y as int <= COORD_LIMIT by {
                lemma_node_in_range(*func, b, layers@[b] as nat, n as nat);
            }
        }
        let edges = route_edges(func, &nodes);
        let bounds = compute_bounds(&nodes, Ghost(*func));
        GraphLayout { nodes, edges, bounds }
    }
}

/// With layer, rank and size all bounded by the block count, node positions
/// stay far inside the graph-space range.
proof fn lemma_node_in_range(f: ExplorerFunction, b: int, k: nat, n: nat)
    requires
        0 <= b < f.blocks.len(),
        f.blocks.len() == n,
        n <= MAX_BLOCKS,
        layer_num(f, b) == k,
        k <= n + 1,
    ensures
        -COORD_LIMIT <= node_x(f, b) <= COORD_LIMIT,
        0 <= node_y(f, b) <= COORD_LIMIT,
{
    lemma_count_layer_le(f, k, b);
    lemma_count_layer_le(f, k, f.blocks.len() as int);
    lemma_count_layer_mono(f, k, b, f.blocks.len() as int);
    let rank = layer_rank(f, b);
    let size = layer_size(f, k);
    assert(rank <= n);
    assert(size <= n);
    let row = size * CELL - HORIZONTAL_SPACING;
    vstd::arithmetic::div_mod::lemma_fundamental_div_mod(row, 2);
    assert(node_x(f, b) == rank * CELL - row / 2);
}

// ---------------------------------------------------------------------------
// Laws of the layout
// ---------------------------------------------------------------------------

proof fn lemma_bounds_upto_contains(f: ExplorerFunction, m: int, b: int)
    requires
        0 <= b < m,
    ensures
        bounds_upto(f, m).0 <= node_x(f, b),
        bounds_upto(f, m).1 <= node_y(f, b),
        node_x(f, b) + NODE_WIDTH <= bounds_upto(f, m).2,
        node_y(f, b) + NODE_HEIGHT <= bounds_upto(f, m).3,
    decreases m,
{
    if m > 1 && b < m - 1 {
        lemma_bounds_upto_contains(f, m - 1, b);
    }
}

/// The layout of a function with N blocks has exactly N nodes, the node of
/// block `b` at index `b` carrying id `b`, and its bounding box contains
/// every node rectangle.
pub proof fn lemma_layout_covers_nodes(f: ExplorerFunction, l: GraphLayout, b: int)
    requires
        layout_matches(f, l),
        0 <= b < f.blocks.len(),
    ensures
        l.nodes@.len() == f.blocks.len(),
        l.nodes@[b].id as int == b,
        l.bounds.0 as int <= l.nodes@[b].x as int,
        l.bounds.1 as int <= l.nodes@[b].y as int,
        l.nodes@[b].x as int + l.nodes@[b].width as int <= l.bounds.2 as int,
        l.nodes@[b].y as int + l.nodes@[b].height as int <= l.bounds.3 as int,
{
    lemma_bounds_upto_contains(f, f.blocks.len() as int, b);
}

proof fn lemma_bfs_rec_len(f: ExplorerFunction, layers: Seq<Option<nat>>, frontier: Seq<int>, k: nat)
    ensures
        bfs_rec(f, layers, frontier, k).len() == layers.len(),
    decreases none_count(layers), frontier.len(),
{
    if frontier.len() > 0 {
        let layers2 = bfs_step_layers(f, layers, frontier, k);
        let frontier2 = step_frontier(f, layers, frontier, layers.len() as int);
        lemma_bfs_measure(f, layers, frontier, k);
        lemma_bfs_rec_len(f, layers2, frontier2, k + 1);
    }
}

proof fn lemma_bfs_rec_preserves(
    f: ExplorerFunction,
    layers: Seq<Option<nat>>,
    frontier: Seq<int>,
    k: nat,
    b: int,
)
    requires
        0 <= b < layers.len(),
        layers[b] is Some,
    ensures
        bfs_rec(f, layers, frontier, k)[b] == layers[b],
    decreases none_count(layers), frontier.len(),
{
    if frontier.len() > 0 {
        let layers2 = bfs_step_layers(f, layers, frontier, k);
        let frontier2 = step_frontier(f, layers, frontier, layers.len() as int);
        lemma_bfs_measure(f, layers, frontier, k);
        lemma_bfs_rec_preserves(f, layers2, frontier2, k + 1, b);
    }
}

/// Whether the breadth-first search discovers block `b` at all.
pub open spec fn reached(f: ExplorerFunction, b: int) -> bool {
    bfs_final(f)[b] is Some
}

/// Every discovered block except the entry has a predecessor edge from a
/// block discovered exactly one layer earlier.
pub open spec fn pred_ok(f: ExplorerFunction, layers: Seq<Option<nat>>) -> bool {
    forall|b: int| 0 <= b < layers.len() && (#[trigger] layers[b]) is Some && layers[b]->0 >= 1
        ==> exists|p: int, j: int|
            0 <= p < layers.len() && 0 <= j < edge_count(f, p)
                && #[trigger] edge_target(f, p, j) == b && layers[p] == Some((layers[b]->0 - 1) as nat)
}

spec fn frontier_ok(f: ExplorerFunction, layers: Seq<Option<nat>>, frontier: Seq<int>, k: nat) -> bool {
    forall|i: int| 0 <= i < frontier.len()
        ==> 0 <= #[trigger] frontier[i] < layers.len() && layers[frontier[i]] == Some(k)
}

proof fn lemma_bfs_rec_pred(f: ExplorerFunction, layers: Seq<Option<nat>>, frontier: Seq<int>, k: nat)
    requires
        pred_ok(f, layers),
        frontier_ok(f, layers, frontier, k),
    ensures
        pred_ok(f, bfs_rec(f, layers, frontier, k)),
    decreases none_count(layers), frontier.len(),
{
    if frontier.len() > 0 {
        let layers2 = bfs_step_layers(f, layers, frontier, k);
        let frontier2 = step_frontier(f, layers, frontier, layers.len() as int);
        lemma_bfs_measure(f, layers, frontier, k);
        assert forall|b: int|
            0 <= b < layers2.len() && (#[trigger] layers2[b]) is Some && layers2[b]->0 >= 1
            implies exists|p: int, j: int|
                0 <= p < layers2.len() && 0 <= j < edge_count(f, p)
                    && #[trigger] edge_target(f, p, j) == b
                    && layers2[p] == Some((layers2[b]->0 - 1) as nat) by {
            if newly_assigned(f, layers, frontier, b) {
                let (i, j) = choose|i: int, j: int|
                    0 <= i < frontier.len() && 0 <= j < edge_count(f, frontier[i])
                        && #[trigger] edge_target(f, frontier[i], j) == b;
                let p = frontier[i];
                assert(layers2[p] == Some(k));
                assert(edge_target(f, p, j) == b);
            } else {
                let (p, j) = choose|p: int, j: int|
                    0 <= p < layers.len() && 0 <= j < edge_count(f, p)
                        && #[trigger] edge_target(f, p, j) == b
                        && layers[p] == Some((layers[b]->0 - 1) as nat);
                assert(layers2[p] == layers[p]);
                assert(edge_target(f, p, j) == b);
            }
        }
        lemma_step_frontier_members(f, layers, frontier, layers.len() as int);
        lemma_bfs_rec_pred(f, layers2, frontier2, k + 1);
    }
}

proof fn lemma_max_some_ge(s: Seq<Option<nat>>, b: int)
    requires
        0 <= b < s.len(),
        s[b] is Some,
    ensures
        s[b]->0 <= max_some(s),
    decreases s.len(),
{
    if b < s.len() - 1 {
        assert(s.drop_last()[b] == s[b]);
        lemma_max_some_ge(s.drop_last(), b);
    }
}

/// The shape of the layering. The entry block sits on layer 0. Every other
/// discovered block's layer is one more than the layer of the predecessor
/// that discovered it. All undiscovered blocks share one layer, strictly
/// below every discovered one.
pub proof fn lemma_layer_structure(f: ExplorerFunction)
    requires
        wf_function(f),
        f.blocks.len() > 0,
    ensures
        layer_num(f, f.entry_block as int) == 0,
        forall|b: int| 0 <= b < f.blocks.len() && reached(f, b) && layer_num(f, b) >= 1
            ==> exists|p: int, j: int|
                0 <= p < f.blocks.len() && 0 <= j < edge_count(f, p)
                    && #[trigger] edge_target(f, p, j) == b && reached(f, p)
                    && layer_num(f, p) == layer_num(f, b) - 1,
        forall|b: int| 0 <= b < f.blocks.len() && !reached(f, b)
            ==> layer_num(f, b) == max_some(bfs_final(f)) + 1,
        forall|b: int, b2: int|
            0 <= b < f.blocks.len() && !reached(f, b) && 0 <= b2 < f.blocks.len() && reached(f, b2)
                ==> layer_num(f, b2) < layer_num(f, b),
{
    let n = f.blocks.len() as int;
    let init = init_layers(f);
    let fr0 = seq![f.entry_block as int];
    lemma_bfs_rec_len(f, init, fr0, 0);

    // entry keeps layer 0
    assert(init[f.entry_block as int] == Some(0nat));
    lemma_bfs_rec_preserves(f, init, fr0, 0, f.entry_block as int);
    assert(bfs_final(f)[f.entry_block as int] == Some(0nat));

    // predecessor structure
    assert(pred_ok(f, init));
    assert(frontier_ok(f, init, fr0, 0));
    lemma_bfs_rec_pred(f, init, fr0, 0);
    let fin = bfs_final(f);
    assert forall|b: int| 0 <= b < n && reached(f, b) && layer_num(f, b) >= 1
        implies exists|p: int, j: int|
            0 <= p < n && 0 <= j < edge_count(f, p) && #[trigger] edge_target(f, p, j) == b
                && reached(f, p) && layer_num(f, p) == layer_num(f, b) - 1 by {
        assert(fin[b] is Some && fin[b]->0 >= 1);
        let (p, j) = choose|p: int, j: int|
            0 <= p < fin.len() && 0 <= j < edge_count(f, p) && #[trigger] edge_target(f, p, j) == b
                && fin[p] == Some((fin[b]->0 - 1) as nat);
        assert(reached(f, p) && layer_num(f, p) == layer_num(f, b) - 1);
        assert(edge_target(f, p, j) == b);
    }

    // undiscovered blocks sit together below everything discovered
    assert forall|b: int, b2: int|
        0 <= b < n && !reached(f, b) && 0 <= b2 < n && reached(f, b2)
        implies layer_num(f, b2) < layer_num(f, b) by {
        lemma_max_some_ge(fin, b2);
    }
}

/// Laying out the same function twice gives identical node positions, edge
/// point lists and bounding boxes.
pub proof fn lemma_layout_deterministic(f: ExplorerFunction, l1: GraphLayout, l2: GraphLayout)
    requires
        layout_matches(f, l1),
        layout_matches(f, l2),
    ensures
        l1.nodes@ == l2.nodes@,
        l1.bounds == l2.bounds,
        l1.edges@.len() == l2.edges@.len(),
        forall|e: int| 0 <= e < l1.edges@.len()
            ==> {
                let e1 = #[trigger] l1.edges@[e];
                let e2 = l2.edges@[e];
                e1.from == e2.from && e1.to == e2.to && e1.kind == e2.kind
                    && e1.label@ == e2.label@ && e1.points@ == e2.points@
            },
{
    let n = f.blocks.len() as int;
    assert forall|b: int| 0 <= b < n implies l1.nodes@[b] == l2.nodes@[b] by {
        assert(node_matches(f, b, l1.nodes@[b]));
        assert(node_matches(f, b, l2.nodes@[b]));
    }
    assert(l1.nodes@ =~= l2.nodes@);

    assert forall|e: int| 0 <= e < l1.edges@.len() implies {
        let e1 = #[trigger] l1.edges@[e];
        let e2 = l2.edges@[e];
        e1.from == e2.from && e1.to == e2.to && e1.kind == e2.kind && e1.label@ == e2.label@
            && e1.points@ == e2.points@
    } by {
        let (b, j) = lemma_edge_index_decompose(f, n, e);
        assert(edge_matches(f, b, j, l1.edges@[e]));
        assert(edge_matches(f, b, j, l2.edges@[e]));
        let e1 = l1.edges@[e];
        let e2 = l2.edges@[e];
        assert(points_view(e1.points) =~= points_view(e2.points));
        assert forall|i: int| 0 <= i < e1.points@.len()
            implies e1.points@[i] == e2.points@[i] by {
            assert(points_view(e1.points)[i] == points_view(e2.points)[i]);
        }
        assert(e1.points@ =~= e2.points@);
    }
}

/// Every position in the edge list belongs to exactly one block/edge pair;
/// returns that pair.
proof fn lemma_edge_index_decompose(f: ExplorerFunction, m: int, e: int) -> (r: (int, int))
    requires
        0 <= e < edges_before(f, m),
    ensures
        0 <= r.0 < m,
        0 <= r.1 < edge_count(f, r.0),
        e == edges_before(f, r.0) + r.1,
    decreases m,
{
    if m > 0 {
        if e < edges_before(f, m - 1) {
            lemma_edge_index_decompose(f, m - 1, e)
        } else {
            (m - 1, e - edges_before(f, m - 1))
        }
    } else {
        (0, 0)
    }
}

/// Folds the bounding box over all node rectangles.
fn compute_bounds(nodes: &Vec<LayoutNode>, Ghost(f): Ghost<ExplorerFunction>) -> (bounds: (
    i64,
    i64,
    i64,
    i64,
))
    requires
        nodes@.len() >= 1,
        nodes@.len() == f.blocks.len(),
        forall|b: int| 0 <= b < nodes@.len() ==> node_matches(f, b, #[trigger] nodes@[b]),
        forall|b: int| 0 <= b < nodes@.len()
            ==> -COORD_LIMIT <= (#[trigger] nodes@[b]).x as int <= COORD_LIMIT
                && 0 <= nodes@[b].y as int <= COORD_LIMIT,
    ensures
        (bounds.0 as int, bounds.1 as int, bounds.2 as int, bounds.3 as int) == bounds_spec(f),
        -GRAPH_LIMIT <= bounds.0 as int <= bounds.2 as int <= GRAPH_LIMIT,
        -GRAPH_LIMIT <= bounds.1 as int <= bounds.3 as int <= GRAPH_LIMIT,
{
    let n = nodes.len();
    let mut min_x: i64 = nodes[0].x;
    let mut min_y: i64 = nodes[0].y;
    let mut max_x: i64 = nodes[0].x + NODE_WIDTH;
    let mut max_y: i64 = nodes[0].y + NODE_HEIGHT;
    let mut b: usize = 1;
    while b < n
        invariant
            n == nodes@.len(),
            n == f.blocks.len(),
            1 <= b <= n,
            forall|b2: int| 0 <= b2 < n ==> node_matches(f, b2, #[trigger] nodes@[b2]),
            forall|b2: int| 0 <= b2 < n
                ==> -COORD_LIMIT <= (#[trigger] nodes@[b2]).x as int <= COORD_LIMIT
                    && 0 <= nodes@[b2].y as int <= COORD_LIMIT,
            -GRAPH_LIMIT <= min_x as int <= max_x as int <= GRAPH_LIMIT,
            -GRAPH_LIMIT <= min_y as int <= max_y as int <= GRAPH_LIMIT,
            (min_x as int, min_y as int, max_x as int, max_y as int) == bounds_upto(f, b as int),
        decreases n - b,
    {
        let node = &nodes[b];
        if node.x < min_x {
            min_x = node.x;
        }
        if node.y < min_y {
            min_y = node.y;
        }
        if node.x + NODE_WIDTH > max_x {
            max_x = node.x + NODE_WIDTH;
        }
        if node.y + NODE_HEIGHT > max_y {
            max_y = node.y + NODE_HEIGHT;
        }
        b += 1;
    }
    (min_x, min_y, max_x, max_y)
}

} // verus!
