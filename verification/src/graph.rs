//! Graph data model: one document holds a list of functions, each function a
//! list of basic blocks with statements, a terminator and outgoing edges.
//!
//! The model is immutable once loaded. Its well-formedness (entry block in
//! range, every edge target in range, block ids equal to their index) is
//! checked once at load time by [`validate_data`]; all later navigation and
//! layout code relies on it through the `wf_*` spec functions.

use vstd::prelude::*;

verus! {

/// Classification of control flow edges.
#[derive(Clone, Copy, Debug, PartialEq, Eq, Structural)]
pub enum EdgeKind {
    Normal,
    Cleanup,
    Otherwise,
    Branch,
}

/// Classification of basic blocks by their role in control flow.
#[derive(Clone, Copy, Debug, PartialEq, Eq, Structural)]
pub enum BlockRole {
    Entry,
    Exit,
    BranchPoint,
    MergePoint,
    Linear,
    Cleanup,
}

impl BlockRole {
    /// The border color used when drawing a block of this role.
    pub fn border_color(&self) -> (r: &'static str)
        ensures
            r@ == spec_border_color(*self),
    {
        match self {
            BlockRole::Entry => "#50fa7b",
            BlockRole::Exit => "#bd93f9",
            BlockRole::BranchPoint => "#ffb86c",
            BlockRole::MergePoint => "#8be9fd",
            BlockRole::Cleanup => "#ff5555",
            BlockRole::Linear => "#555",
        }
    }
}

/// The color that [`BlockRole::border_color`] returns for each role.
pub open spec fn spec_border_color(role: BlockRole) -> Seq<char> {
    match role {
        BlockRole::Entry => "#50fa7b"@,
        BlockRole::Exit => "#bd93f9"@,
        BlockRole::BranchPoint => "#ffb86c"@,
        BlockRole::MergePoint => "#8be9fd"@,
        BlockRole::Cleanup => "#ff5555"@,
        BlockRole::Linear => "#555"@,
    }
}

/// An edge in the control flow graph.
#[derive(Clone, Debug)]
pub struct ExplorerEdge {
    pub target: usize,
    pub label: String,
    pub kind: EdgeKind,
    pub annotation: String,
}

/// The terminator instruction of a basic block.
#[derive(Clone, Debug)]
pub struct ExplorerTerminator {
    pub kind: String,
    pub mir: String,
    pub annotation: String,
    pub edges: Vec<ExplorerEdge>,
}

/// A single statement.
#[derive(Clone, Debug)]
pub struct ExplorerStmt {
    pub mir: String,
    pub annotation: String,
}

/// A basic block in the control flow graph.
#[derive(Clone, Debug)]
pub struct ExplorerBlock {
    pub id: usize,
    pub statements: Vec<ExplorerStmt>,
    pub terminator: ExplorerTerminator,
    pub predecessors: Vec<usize>,
    pub role: BlockRole,
    pub summary: String,
}

/// Assignment tracking for a local variable.
#[derive(Clone, Debug)]
pub struct ExplorerAssignment {
    pub block_id: usize,
    pub value: String,
}

/// A local variable with its type and assignments.
#[derive(Clone, Debug)]
pub struct ExplorerLocal {
    pub name: String,
    pub ty: String,
    pub source_name: Option<String>,
    pub assignments: Vec<ExplorerAssignment>,
}

/// A single function with its control flow graph.
#[derive(Clone, Debug)]
pub struct ExplorerFunction {
    pub name: String,
    pub short_name: String,
    pub blocks: Vec<ExplorerBlock>,
    pub locals: Vec<ExplorerLocal>,
    pub entry_block: usize,
}

/// Complete data for the explorer: a crate name and its functions.
#[derive(Clone, Debug)]
pub struct ExplorerData {
    pub name: String,
    pub functions: Vec<ExplorerFunction>,
}

/// Number of outgoing edges of block `b` of `f`.
pub open spec fn edge_count(f: ExplorerFunction, b: int) -> nat {
    f.blocks[b].terminator.edges@.len()
}

/// Target of the `j`-th outgoing edge of block `b` of `f`.
pub open spec fn edge_target(f: ExplorerFunction, b: int, j: int) -> int {
    f.blocks[b].terminator.edges[j].target as int
}

/// Well-formedness of one function: there is at least one block, the entry
/// block and every edge target lie in range, and each block's `id` equals
/// its index in the block list.
pub open spec fn wf_function(f: ExplorerFunction) -> bool {
    &&& f.blocks.len() > 0
    &&& (f.entry_block as int) < f.blocks.len()
    &&& forall|b: int| 0 <= b < f.blocks.len() ==> (#[trigger] f.blocks[b].id) as int == b
    &&& forall|b: int, j: int|
        0 <= b < f.blocks.len() && 0 <= j < edge_count(f, b)
            ==> 0 <= #[trigger] edge_target(f, b, j) < f.blocks.len()
}

/// Well-formedness of a whole document: every function is well-formed.
pub open spec fn wf_data(d: ExplorerData) -> bool {
    forall|i: int| 0 <= i < d.functions.len() ==> wf_function(#[trigger] d.functions[i])
}

/// Why a document was rejected at load time.
#[derive(Clone, Copy, Debug, PartialEq, Eq, Structural)]
pub enum LoadError {
    /// The document violates the model's invariants (an out-of-range entry
    /// block or edge target, or a block id out of step with its index).
    DocumentParse,
    /// The document is well-formed but holds no functions.
    EmptyDocument,
}

/// Checks the well-formedness invariant of one function.
pub fn validate_function(f: &ExplorerFunction) -> (r: bool)
    ensures
        r == wf_function(*f),
{
    let n = f.blocks.len();
    if n == 0 || f.entry_block >= n {
        return false;
    }
    let mut b: usize = 0;
    while b < n
        invariant
            n == f.blocks.len(),
            b <= n,
            n > 0,
            (f.entry_block as int) < n,
            forall|i: int| 0 <= i < b ==> (#[trigger] f.blocks[i].id) as int == i,
            forall|i: int, j: int|
                0 <= i < b && 0 <= j < edge_count(*f, i)
                    ==> 0 <= #[trigger] edge_target(*f, i, j) < n,
        decreases n - b,
    {
        let block = &f.blocks[b];
        if block.id != b {
            return false;
        }
        let m = block.terminator.edges.len();
        let mut j: usize = 0;
        while j < m
            invariant
                n == f.blocks.len(),
                b < n,
                m == edge_count(*f, b as int),
                j <= m,
                forall|k: int| 0 <= k < j ==> 0 <= #[trigger] edge_target(*f, b as int, k) < n,
        decreases m - j,
        {
            if f.blocks[b].terminator.edges[j].target >= n {
                assert(edge_target(*f, b as int, j as int) >= n);
                return false;
            }
            j += 1;
        }
        b += 1;
    }
    true
}

/// Checks a whole document: rejects one that breaks the model's invariants or
/// holds no functions. A document that passes satisfies [`wf_data`] and has at
/// least one function.
pub fn validate_data(d: &ExplorerData) -> (r: Result<(), LoadError>)
    ensures
        r is Ok <==> wf_data(*d) && d.functions.len() > 0,
        r == Err::<(), LoadError>(LoadError::EmptyDocument) ==> wf_data(*d) && d.functions.len() == 0,
        r == Err::<(), LoadError>(LoadError::DocumentParse) ==> !wf_data(*d),
{
    let n = d.functions.len();
    let mut i: usize = 0;
    while i < n
        invariant
            n == d.functions.len(),
            i <= n,
            forall|k: int| 0 <= k < i ==> wf_function(#[trigger] d.functions[k]),
        decreases n - i,
    {
        if !validate_function(&d.functions[i]) {
            return Err(LoadError::DocumentParse);
        }
        i += 1;
    }
    if n == 0 {
        return Err(LoadError::EmptyDocument);
    }
    Ok(())
}

} // verus!
