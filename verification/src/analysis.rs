//! Control-flow analysis over plain block facts: block role inference, loop
//! detection, terminator successor extraction and per-function property
//! scanning.
//!
//! The facts a compiler front end extracts from a function body — statement
//! flags, terminator shapes, callee names — arrive here as plain values
//! ([`BlockFacts`]); everything computed from them is verified against spec
//! functions of those values alone.

use vstd::prelude::*;
use vstd::string::*;

use crate::input::str_eq;

verus! {

/// Inferred role of a basic block in the extraction pipeline.
#[derive(Clone, Copy, Debug, PartialEq, Eq, Structural)]
pub enum BlockRole {
    Entry,
    Return,
    Panic,
    Cleanup,
    Branch,
    Loop,
    Normal,
}

impl BlockRole {
    /// Human-readable title for the block role.
    pub fn title(&self) -> (r: &'static str)
        ensures
            r@ == spec_title(*self),
    {
        match self {
            BlockRole::Entry => "entry",
            BlockRole::Return => "return / success",
            BlockRole::Panic => "panic path",
            BlockRole::Cleanup => "cleanup / unwind",
            BlockRole::Branch => "branch point",
            BlockRole::Loop => "loop",
            BlockRole::Normal => "",
        }
    }

    /// Suffix used in textual control-flow diagrams.
    pub fn cfg_suffix(&self) -> (r: &'static str)
        ensures
            r@ == spec_cfg_suffix(*self),
    {
        match self {
            BlockRole::Entry => " (entry)",
            BlockRole::Return => " (return)",
            BlockRole::Panic => " (panic)",
            BlockRole::Cleanup => " (cleanup)",
            BlockRole::Branch => " (branch)",
            BlockRole::Loop => " (loop)",
            BlockRole::Normal => "",
        }
    }
}

/// The title each role carries.
pub open spec fn spec_title(r: BlockRole) -> Seq<char> {
    match r {
        BlockRole::Entry => "entry"@,
        BlockRole::Return => "return / success"@,
        BlockRole::Panic => "panic path"@,
        BlockRole::Cleanup => "cleanup / unwind"@,
        BlockRole::Branch => "branch point"@,
        BlockRole::Loop => "loop"@,
        BlockRole::Normal => ""@,
    }
}

/// The diagram suffix each role carries.
pub open spec fn spec_cfg_suffix(r: BlockRole) -> Seq<char> {
    match r {
        BlockRole::Entry => " (entry)"@,
        BlockRole::Return => " (return)"@,
        BlockRole::Panic => " (panic)"@,
        BlockRole::Cleanup => " (cleanup)"@,
        BlockRole::Branch => " (branch)"@,
        BlockRole::Loop => " (loop)"@,
        BlockRole::Normal => ""@,
    }
}

/// What the analysis reads of one statement.
#[derive(Clone, Copy, Debug, PartialEq, Eq, Structural)]
pub struct StmtInfo {
    /// The statement assigns the result of a checked binary operation.
    pub checked_op: bool,
    /// The statement takes a reference or raw address.
    pub borrow: bool,
}

/// What the analysis reads of one terminator.
#[derive(Clone, Debug)]
pub enum TermInfo {
    Goto { target: usize },
    SwitchInt { targets: Vec<usize>, otherwise: usize },
    Return,
    Resume,
    Abort,
    Unreachable,
    Drop { target: usize, cleanup: Option<usize> },
    Call { target: Option<usize>, cleanup: Option<usize>, callee: String },
    Assert { target: usize, cleanup: Option<usize> },
    InlineAsm { destination: Option<usize>, cleanup: Option<usize> },
}

/// What the analysis reads of one basic block.
#[derive(Clone, Debug)]
pub struct BlockFacts {
    pub statements: Vec<StmtInfo>,
    pub terminator: TermInfo,
}

/// Detected properties of a function.
#[derive(Clone, Copy, Debug, PartialEq, Eq, Structural)]
pub struct FunctionProperties {
    pub has_panic_path: bool,
    pub has_checked_ops: bool,
    pub has_borrows: bool,
    pub has_drops: bool,
    pub has_recursion: bool,
    pub has_assertions: bool,
    pub has_switches: bool,
}

impl Default for FunctionProperties {
    /// No properties detected yet.
    fn default() -> (r: Self)
        ensures
            r == (FunctionProperties {
                has_panic_path: false,
                has_checked_ops: false,
                has_borrows: false,
                has_drops: false,
                has_recursion: false,
                has_assertions: false,
                has_switches: false,
            }),
    {
        FunctionProperties {
            has_panic_path: false,
            has_checked_ops: false,
            has_borrows: false,
            has_drops: false,
            has_recursion: false,
            has_assertions: false,
            has_switches: false,
        }
    }
}

/// A rendered row of a block listing: a statement or the terminator.
#[derive(Clone, Debug)]
pub struct AnnotatedRow {
    pub mir: String,
    pub annotation: String,
    pub is_terminator: bool,
    pub is_recursive: bool,
}

// ---------------------------------------------------------------------------
// Substring search
// ---------------------------------------------------------------------------

/// Whether `p` occurs in `s` as a contiguous run.
pub open spec fn contains_spec(s: Seq<char>, p: Seq<char>) -> bool {
    exists|i: int| 0 <= i <= s.len() - p.len() && #[trigger] s.subrange(i, i + p.len()) == p
}

/// Substring search; decides [`contains_spec`] on the views.
pub fn str_contains(s: &str, p: &str) -> (r: bool)
    ensures
        r == contains_spec(s@, p@),
{
    let n = s.unicode_len();
    let m = p.unicode_len();
    if m > n {
        return false;
    }
    if m == 0 {
        proof {
            assert(s@.subrange(0, 0 + p@.len() as int) =~= p@);
            assert(0 <= 0 <= s@.len() - p@.len() && s@.subrange(0, 0 + p@.len() as int) == p@);
        }
        return true;
    }
    let mut i: usize = 0;
    while i <= n - m
        invariant
            n == s@.len(),
            m == p@.len(),
            1 <= m <= n,
            i <= n - m + 1,
            forall|i2: int| 0 <= i2 < i ==> #[trigger] s@.subrange(i2, i2 + m) != p@,
        decreases n - m + 1 - i,
    {
        let mut j: usize = 0;
        let mut all_eq = true;
        while j < m
            invariant
                n == s@.len(),
                m == p@.len(),
                m <= n,
                i <= n - m,
                j <= m,
                all_eq ==> forall|j2: int| 0 <= j2 < j ==> s@[i + j2] == p@[j2],
                !all_eq ==> s@.subrange(i as int, i + m) != p@,
            decreases m - j,
        {
            if s.get_char(i + j) != p.get_char(j) {
                proof {
                    assert(s@.subrange(i as int, i + m)[j as int] != p@[j as int]);
                }
                all_eq = false;
            }
            if !all_eq {
                j = m;
            } else {
                j += 1;
            }
        }
        if all_eq {
            proof {
                assert(s@.subrange(i as int, i + m) =~= p@);
            }
            return true;
        }
        i += 1;
    }
    false
}

/// Whether a callee name marks a panic path.
pub open spec fn spec_panicky_name(s: Seq<char>) -> bool {
    contains_spec(s, "panic"@) || contains_spec(s, "assert_failed"@)
}

fn is_panicky_name(s: &str) -> (r: bool)
    ensures
        r == spec_panicky_name(s@),
{
    str_contains(s, "panic") || str_contains(s, "assert_failed")
}

// ---------------------------------------------------------------------------
// Terminator successors
// ---------------------------------------------------------------------------

/// The successor list a `Some` contributes.
pub open spec fn opt_seq(o: Option<usize>) -> Seq<usize> {
    match o {
        Some(t) => seq![t],
        None => Seq::empty(),
    }
}

/// The successor blocks of a terminator, in declaration order: plain targets
/// first, then the unwind cleanup target.
pub open spec fn spec_targets(t: TermInfo) -> Seq<usize> {
    match t {
        TermInfo::Goto { target } => seq![target],
        TermInfo::SwitchInt { targets, otherwise } => targets@ + seq![otherwise],
        TermInfo::Return => Seq::empty(),
        TermInfo::Resume => Seq::empty(),
        TermInfo::Abort => Seq::empty(),
        TermInfo::Unreachable => Seq::empty(),
        TermInfo::Drop { target, cleanup } => seq![target] + opt_seq(cleanup),
        TermInfo::Call { target, cleanup, .. } => opt_seq(target) + opt_seq(cleanup),
        TermInfo::Assert { target, cleanup } => seq![target] + opt_seq(cleanup),
        TermInfo::InlineAsm { destination, cleanup } => opt_seq(destination) + opt_seq(cleanup),
    }
}

/// Get target block indices from a terminator.
pub fn get_terminator_targets(term: &TermInfo) -> (r: Vec<usize>)
    ensures
        r@ == spec_targets(*term),
{
    let mut r: Vec<usize> = Vec::new();
    match term {
        TermInfo::Goto { target } => {
            r.push(*target);
        }
        TermInfo::SwitchInt { targets, otherwise } => {
            let n = targets.len();
            let mut i: usize = 0;
            while i < n
                invariant
                    n == targets@.len(),
                    i <= n,
                    r@ == targets@.take(i as int),
                decreases n - i,
            {
                r.push(targets[i]);
                proof {
                    assert(r@ =~= targets@.take(i + 1));
                }
                i += 1;
            }
            proof {
                assert(targets@.take(n as int) =~= targets@);
            }
            r.push(*otherwise);
        }
        TermInfo::Return => {}
        TermInfo::Resume => {}
        TermInfo::Abort => {}
        TermInfo::Unreachable => {}
        TermInfo::Drop { target, cleanup } => {
            r.push(*target);
            if let Some(t) = cleanup {
                r.push(*t);
            }
        }
        TermInfo::Call { target, cleanup, .. } => {
            if let Some(t) = target {
                r.push(*t);
            }
            if let Some(t) = cleanup {
                r.push(*t);
            }
        }
        TermInfo::Assert { target, cleanup } => {
            r.push(*target);
            if let Some(t) = cleanup {
                r.push(*t);
            }
        }
        TermInfo::InlineAsm { destination, cleanup } => {
            if let Some(t) = destination {
                r.push(*t);
            }
            if let Some(t) = cleanup {
                r.push(*t);
            }
        }
    }
    proof {
        assert(r@ =~= spec_targets(*term));
    }
    r
}

// ---------------------------------------------------------------------------
// Function properties
// ---------------------------------------------------------------------------

/// Whether a terminator opens a panic path.
pub open spec fn spec_term_panicky(t: TermInfo, current_fn: Seq<char>) -> bool {
    match t {
        TermInfo::Call { target, callee, .. } => spec_panicky_name(callee@) || target is None,
        TermInfo::Assert { .. } => true,
        TermInfo::Resume => true,
        TermInfo::Abort => true,
        TermInfo::Unreachable => true,
        _ => false,
    }
}

/// What [`analyze_function`] owes: each flag holds exactly when some block
/// shows the matching fact.
pub open spec fn spec_properties(blocks: Seq<BlockFacts>, current_fn: Seq<char>) -> FunctionProperties {
    FunctionProperties {
        has_panic_path: exists|b: int|
            0 <= b < blocks.len() && spec_term_panicky(#[trigger] blocks[b].terminator, current_fn),
        has_checked_ops: exists|b: int, s: int|
            0 <= b < blocks.len() && 0 <= s < blocks[b].statements@.len()
                && (#[trigger] blocks[b].statements@[s]).checked_op,
        has_borrows: exists|b: int, s: int|
            0 <= b < blocks.len() && 0 <= s < blocks[b].statements@.len()
                && (#[trigger] blocks[b].statements@[s]).borrow,
        has_drops: exists|b: int| 0 <= b < blocks.len() && (#[trigger] blocks[b].terminator) is Drop,
        has_recursion: exists|b: int|
            0 <= b < blocks.len() && ((#[trigger] blocks[b].terminator) matches TermInfo::Call {
                callee,
                ..
            } && callee@ == current_fn),
        has_assertions: exists|b: int|
            0 <= b < blocks.len() && (#[trigger] blocks[b].terminator) is Assert,
        has_switches: exists|b: int|
            0 <= b < blocks.len() && (#[trigger] blocks[b].terminator) is SwitchInt,
    }
}

/// Analyze a function's blocks to detect notable properties.
pub fn analyze_function(blocks: &Vec<BlockFacts>, current_fn: &str) -> (props: FunctionProperties)
    ensures
        props == spec_properties(blocks@, current_fn@),
{
    let mut props = FunctionProperties::default();
    let n = blocks.len();
    let mut b: usize = 0;
    while b < n
        invariant
            n == blocks@.len(),
            b <= n,
            props.has_panic_path == exists|b2: int|
                0 <= b2 < b && spec_term_panicky(#[trigger] blocks@[b2].terminator, current_fn@),
            props.has_checked_ops == exists|b2: int, s: int|
                0 <= b2 < b && 0 <= s < blocks@[b2].statements@.len()
                    && (#[trigger] blocks@[b2].statements@[s]).checked_op,
            props.has_borrows == exists|b2: int, s: int|
                0 <= b2 < b && 0 <= s < blocks@[b2].statements@.len()
                    && (#[trigger] blocks@[b2].statements@[s]).borrow,
            props.has_drops == exists|b2: int|
                0 <= b2 < b && (#[trigger] blocks@[b2].terminator) is Drop,
            props.has_recursion == exists|b2: int|
                0 <= b2 < b && ((#[trigger] blocks@[b2].terminator) matches TermInfo::Call {
                    callee,
                    ..
                } && callee@ == current_fn@),
            props.has_assertions == exists|b2: int|
                0 <= b2 < b && (#[trigger] blocks@[b2].terminator) is Assert,
            props.has_switches == exists|b2: int|
                0 <= b2 < b && (#[trigger] blocks@[b2].terminator) is SwitchInt,
        decreases n - b,
    {
        let block = &blocks[b];
        let m = block.statements.len();
        let mut blk_checked = false;
        let mut blk_borrow = false;
        let mut s: usize = 0;
        while s < m
            invariant
                n == blocks@.len(),
                b < n,
                *block == blocks@[b as int],
                m == blocks@[b as int].statements@.len(),
                s <= m,
                blk_checked == exists|s2: int|
                    0 <= s2 < s && (#[trigger] blocks@[b as int].statements@[s2]).checked_op,
                blk_borrow == exists|s2: int|
                    0 <= s2 < s && (#[trigger] blocks@[b as int].statements@[s2]).borrow,
            decreases m - s,
        {
            let st = &block.statements[s];
            if st.checked_op {
                blk_checked = true;
            }
            if st.borrow {
                blk_borrow = true;
            }
            s += 1;
        }
        let ghost old_props = props;
        if blk_checked {
            props.has_checked_ops = true;
        }
        if blk_borrow {
            props.has_borrows = true;
        }
        proof {
            assert(props.has_checked_ops == (old_props.has_checked_ops || blk_checked));
            if props.has_checked_ops {
                if old_props.has_checked_ops {
                    let (b2, s2) = choose|b2: int, s2: int|
                        0 <= b2 < b && 0 <= s2 < blocks@[b2].statements@.len()
                            && (#[trigger] blocks@[b2].statements@[s2]).checked_op;
                    assert(0 <= b2 < b + 1 && 0 <= s2 < blocks@[b2].statements@.len()
                        && blocks@[b2].statements@[s2].checked_op);
                } else {
                    let s2 = choose|s2: int|
                        0 <= s2 < m && (#[trigger] blocks@[b as int].statements@[s2]).checked_op;
                    assert(blocks@[b as int].statements@[s2].checked_op);
                }
            }
            if exists|b2: int, s2: int|
                0 <= b2 < b + 1 && 0 <= s2 < blocks@[b2].statements@.len()
                    && (#[trigger] blocks@[b2].statements@[s2]).checked_op {
                let (b2, s2) = choose|b2: int, s2: int|
                    0 <= b2 < b + 1 && 0 <= s2 < blocks@[b2].statements@.len()
                        && (#[trigger] blocks@[b2].statements@[s2]).checked_op;
                if b2 < b {
                    assert(old_props.has_checked_ops);
                } else {
                    assert(blk_checked);
                }
            }
            if props.has_borrows {
                if old_props.has_borrows {
                    let (b2, s2) = choose|b2: int, s2: int|
                        0 <= b2 < b && 0 <= s2 < blocks@[b2].statements@.len()
                            && (#[trigger] blocks@[b2].statements@[s2]).borrow;
                    assert(0 <= b2 < b + 1 && 0 <= s2 < blocks@[b2].statements@.len()
                        && blocks@[b2].statements@[s2].borrow);
                } else {
                    let s2 = choose|s2: int|
                        0 <= s2 < m && (#[trigger] blocks@[b as int].statements@[s2]).borrow;
                    assert(blocks@[b as int].statements@[s2].borrow);
                }
            }
            if exists|b2: int, s2: int|
                0 <= b2 < b + 1 && 0 <= s2 < blocks@[b2].statements@.len()
                    && (#[trigger] blocks@[b2].statements@[s2]).borrow {
                let (b2, s2) = choose|b2: int, s2: int|
                    0 <= b2 < b + 1 && 0 <= s2 < blocks@[b2].statements@.len()
                        && (#[trigger] blocks@[b2].statements@[s2]).borrow;
                if b2 < b {
                    assert(old_props.has_borrows);
                } else {
                    assert(blk_borrow);
                }
            }
        }

        match &block.terminator {
            TermInfo::Call { target, callee, .. } => {
                if str_eq(callee.as_str(), current_fn) {
                    props.has_recursion = true;
                }
                if is_panicky_name(callee.as_str()) || target.is_none() {
                    props.has_panic_path = true;
                }
            }
            TermInfo::Assert { .. } => {
                props.has_assertions = true;
                props.has_panic_path = true;
            }
            TermInfo::SwitchInt { .. } => {
                props.has_switches = true;
            }
            TermInfo::Drop { .. } => {
                props.has_drops = true;
            }
            TermInfo::Resume => {
                props.has_panic_path = true;
            }
            TermInfo::Abort => {
                props.has_panic_path = true;
            }
            TermInfo::Unreachable => {
                props.has_panic_path = true;
            }
            _ => {}
        }
        b += 1;
    }
    props
}

/// The property lines, in a fixed order, one per set flag.
pub open spec fn spec_format_properties(p: FunctionProperties) -> Seq<Seq<char>> {
    let s0: Seq<Seq<char>> = Seq::empty();
    let s1 = if p.has_panic_path { s0.push("Contains panic path"@) } else { s0 };
    let s2 = if p.has_checked_ops { s1.push("Uses checked arithmetic"@) } else { s1 };
    let s3 = if p.has_borrows { s2.push("Introduces borrows"@) } else { s2 };
    let s4 = if p.has_drops { s3.push("Has explicit drops"@) } else { s3 };
    let s5 = if p.has_recursion { s4.push("Recursive"@) } else { s4 };
    let s6 = if p.has_assertions { s5.push("Contains assertions"@) } else { s5 };
    if p.has_switches { s6.push("Has conditional branches"@) } else { s6 }
}

/// Format detected properties as display strings.
pub fn format_properties(props: &FunctionProperties) -> (r: Vec<&'static str>)
    ensures
        r@.map_values(|s: &'static str| s@) == spec_format_properties(*props),
{
    let ghost target = spec_format_properties(*props);
    let mut result: Vec<&'static str> = Vec::new();
    if props.has_panic_path {
        result.push("Contains panic path");
    }
    if props.has_checked_ops {
        result.push("Uses checked arithmetic");
    }
    if props.has_borrows {
        result.push("Introduces borrows");
    }
    if props.has_drops {
        result.push("Has explicit drops");
    }
    if props.has_recursion {
        result.push("Recursive");
    }
    if props.has_assertions {
        result.push("Contains assertions");
    }
    if props.has_switches {
        result.push("Has conditional branches");
    }
    proof {
        assert(result@.map_values(|s: &'static str| s@) =~= target);
    }
    result
}

// ---------------------------------------------------------------------------
// Loop detection and role inference
// ---------------------------------------------------------------------------

/// Whether block `u` has an edge to block `t`.
pub open spec fn has_edge(blocks: Seq<BlockFacts>, u: int, t: int) -> bool {
    exists|j: int|
        0 <= j < spec_targets(blocks[u].terminator).len()
            && (#[trigger] spec_targets(blocks[u].terminator)[j]) as int == t
}

/// One closure round: everything already in the set, plus every direct
/// successor of a set member.
pub open spec fn reach_step(blocks: Seq<BlockFacts>, set: Seq<bool>) -> Seq<bool> {
    Seq::new(
        set.len(),
        |t: int| set[t] || exists|u: int| 0 <= u < set.len() && set[u] && has_edge(blocks, u, t),
    )
}

/// The closure round iterated `fuel` times; with fuel equal to the block
/// count it saturates, so it holds exactly the blocks reachable from the
/// initial set.
pub open spec fn reach_iter(blocks: Seq<BlockFacts>, set: Seq<bool>, fuel: nat) -> Seq<bool>
    decreases fuel,
{
    if fuel == 0 {
        set
    } else {
        reach_iter(blocks, reach_step(blocks, set), (fuel - 1) as nat)
    }
}

/// Iterating one more round applies one more closure step at the end.
proof fn lemma_reach_iter_snoc(blocks: Seq<BlockFacts>, set: Seq<bool>, fuel: nat)
    ensures
        reach_iter(blocks, set, fuel + 1) == reach_step(blocks, reach_iter(blocks, set, fuel)),
    decreases fuel,
{
    if fuel == 0 {
        assert(reach_iter(blocks, set, 1) == reach_iter(blocks, reach_step(blocks, set), 0));
    } else {
        lemma_reach_iter_snoc(blocks, reach_step(blocks, set), (fuel - 1) as nat);
    }
}

/// The blocks directly entered from block `b`.
pub open spec fn init_reach(blocks: Seq<BlockFacts>, b: int) -> Seq<bool> {
    Seq::new(blocks.len(), |t: int| has_edge(blocks, b, t))
}

/// Whether block `b` lies on a cycle: it can reach itself through its own
/// successors.
pub open spec fn spec_in_loop(blocks: Seq<BlockFacts>, b: int) -> bool {
    reach_iter(blocks, init_reach(blocks, b), blocks.len())[b]
}

/// Computes the set of blocks reachable from block `b`'s successors.
fn reach_closure(blocks: &Vec<BlockFacts>, b: usize) -> (set: Vec<bool>)
    requires
        (b as int) < blocks@.len(),
    ensures
        set@ == reach_iter(blocks@, init_reach(blocks@, b as int), blocks@.len()),
        set@.len() == blocks@.len(),
{
    let n = blocks.len();

    let init = get_terminator_targets(&blocks[b].terminator);
    let mut set: Vec<bool> = Vec::new();
    let mut t: usize = 0;
    while t < n
        invariant
            n == blocks@.len(),
            t <= n,
            set@.len() == t,
            forall|t2: int| 0 <= t2 < t ==> !(#[trigger] set@[t2]),
        decreases n - t,
    {
        set.push(false);
        t += 1;
    }
    let m = init.len();
    let mut j: usize = 0;
    while j < m
        invariant
            n == blocks@.len(),
            (b as int) < n,
            m == init@.len(),
            init@ == spec_targets(blocks@[b as int].terminator),
            j <= m,
            set@.len() == n,
            forall|t2: int| 0 <= t2 < n ==> ((#[trigger] set@[t2]) <==> exists|j2: int|
                0 <= j2 < j && (#[trigger] init@[j2]) as int == t2),
        decreases m - j,
    {
        let tgt = init[j];
        if tgt < n {
            if !set[tgt] {
                set[tgt] = true;
            }
        }
        proof {
            if (init@[j as int] as int) < n {
                assert(forall|t2: int| 0 <= t2 < n ==> ((#[trigger] set@[t2]) <==> exists|j2: int|
                    0 <= j2 < j + 1 && (#[trigger] init@[j2]) as int == t2));
            } else {
                assert(forall|t2: int| 0 <= t2 < n ==> ((#[trigger] set@[t2]) <==> exists|j2: int|
                    0 <= j2 < j + 1 && (#[trigger] init@[j2]) as int == t2));
            }
        }
        j += 1;
    }
    proof {
        assert forall|t2: int| 0 <= t2 < n implies set@[t2] == init_reach(blocks@, b as int)[t2] by {
            if has_edge(blocks@, b as int, t2) {
                assert(set@[t2]);
            }
        }
        assert(set@ =~= init_reach(blocks@, b as int));
    }

    let mut round: usize = 0;
    while round < n
        invariant
            n == blocks@.len(),
            round <= n,
            set@.len() == n,
            set@ == reach_iter(blocks@, init_reach(blocks@, b as int), round as nat),
        decreases n - round,
    {
        let ghost old_set = set@;
        let mut mark: Vec<bool> = Vec::new();
        let mut t: usize = 0;
        while t < n
            invariant
                n == blocks@.len(),
                t <= n,
                mark@.len() == t,
                set@.len() == n,
                old_set.len() == n,
                set@ == old_set,
                forall|t2: int| 0 <= t2 < t ==> !(#[trigger] mark@[t2]),
            decreases n - t,
        {
            mark.push(false);
            t += 1;
        }
        let mut u: usize = 0;
        while u < n
            invariant
                n == blocks@.len(),
                u <= n,
                mark@.len() == n,
                set@.len() == n,
                old_set.len() == n,
                set@ == old_set,
                forall|t2: int| 0 <= t2 < n ==> ((#[trigger] mark@[t2]) <==> exists|u2: int|
                    0 <= u2 < u && old_set[u2] && has_edge(blocks@, u2, t2)),
            decreases n - u,
        {
            if set[u] {
                let targets = get_terminator_targets(&blocks[u].terminator);
                let m2 = targets.len();
                let mut j2: usize = 0;
                while j2 < m2
                    invariant
                        n == blocks@.len(),
                        u < n,
                        m2 == targets@.len(),
                        targets@ == spec_targets(blocks@[u as int].terminator),
                        j2 <= m2,
                        mark@.len() == n,
                        set@.len() == n,
                        old_set.len() == n,
                        set@ == old_set,
                        old_set[u as int],
                        forall|t2: int| 0 <= t2 < n ==> ((#[trigger] mark@[t2]) <==> (exists|
                            u2: int,
                        |
                            0 <= u2 < u && old_set[u2] && has_edge(blocks@, u2, t2)) || exists|
                            j3: int,
                        | 0 <= j3 < j2 && (#[trigger] targets@[j3]) as int == t2),
                    decreases m2 - j2,
                {
                    let tgt = targets[j2];
                    if tgt < n {
                        if !mark[tgt] {
                            mark[tgt] = true;
                        }
                    }
                    proof {
                        assert(forall|t2: int| 0 <= t2 < n ==> ((#[trigger] mark@[t2]) <==> (exists|
                            u2: int,
                        |
                            0 <= u2 < u && old_set[u2] && has_edge(blocks@, u2, t2)) || exists|
                            j3: int,
                        | 0 <= j3 < j2 + 1 && (#[trigger] targets@[j3]) as int == t2));
                    }
                    j2 += 1;
                }
                proof {
                    assert forall|t2: int| 0 <= t2 < n implies ((#[trigger] mark@[t2]) <==> exists|
                        u2: int,
                    | 0 <= u2 < u + 1 && old_set[u2] && has_edge(blocks@, u2, t2)) by {
                        if exists|j3: int|
                            0 <= j3 < m2 && (#[trigger] targets@[j3]) as int == t2 {
                            assert(has_edge(blocks@, u as int, t2));
                        }
                        if has_edge(blocks@, u as int, t2) {
                            let j3 = choose|j3: int|
                                0 <= j3 < spec_targets(blocks@[u as int].terminator).len()
                                    && (#[trigger] spec_targets(blocks@[u as int].terminator)[j3])
                                    as int == t2;
                            assert(targets@[j3] as int == t2);
                        }
                    }
                }
            } else {
                proof {
                    assert(forall|t2: int| 0 <= t2 < n ==> ((#[trigger] mark@[t2]) <==> exists|
                        u2: int,
                    | 0 <= u2 < u + 1 && old_set[u2] && has_edge(blocks@, u2, t2)));
                }
            }
            u += 1;
        }
        let mut t: usize = 0;
        while t < n
            invariant
                n == blocks@.len(),
                t <= n,
                mark@.len() == n,
                set@.len() == n,
                old_set.len() == n,
                forall|t2: int| 0 <= t2 < n ==> ((#[trigger] mark@[t2]) <==> exists|u2: int|
                    0 <= u2 < n && old_set[u2] && has_edge(blocks@, u2, t2)),
                forall|t2: int| t <= t2 < n ==> set@[t2] == old_set[t2],
                forall|t2: int| 0 <= t2 < t ==> set@[t2] == reach_step(blocks@, old_set)[t2],
            decreases n - t,
        {
            let ghost prev_set = set@;
            if mark[t] && !set[t] {
                set[t] = true;
            }
            proof {
                assert(forall|t2: int| 0 <= t2 < n && t2 != t ==> set@[t2] == prev_set[t2]);
                assert(set@[t as int] == (old_set[t as int] || mark@[t as int]));
            }
            t += 1;
        }
        proof {
            assert(set@ =~= reach_step(blocks@, old_set));
            lemma_reach_iter_snoc(blocks@, init_reach(blocks@, b as int), round as nat);
        }
        round += 1;
    }
    set
}

/// Detect the blocks that lie on a cycle.
pub fn detect_loops(blocks: &Vec<BlockFacts>) -> (r: Vec<bool>)
    ensures
        r@.len() == blocks@.len(),
        forall|b: int| 0 <= b < blocks@.len() ==> r@[b] == spec_in_loop(blocks@, b),
{
    let n = blocks.len();
    let mut r: Vec<bool> = Vec::new();
    let mut b: usize = 0;
    while b < n
        invariant
            n == blocks@.len(),
            b <= n,
            r@.len() == b,
            forall|b2: int| 0 <= b2 < b ==> r@[b2] == spec_in_loop(blocks@, b2),
        decreases n - b,
    {
        let set = reach_closure(blocks, b);
        r.push(set[b]);
        b += 1;
    }
    r
}

/// Whether some terminator's unwind cleanup lands on block `t`.
pub open spec fn spec_cleanup_target(blocks: Seq<BlockFacts>, t: int) -> bool {
    exists|b: int|
        0 <= b < blocks.len() && match #[trigger] blocks[b].terminator {
            TermInfo::Drop { cleanup, .. } => cleanup == Some(t as usize),
            TermInfo::Call { cleanup, .. } => cleanup == Some(t as usize),
            TermInfo::Assert { cleanup, .. } => cleanup == Some(t as usize),
            _ => false,
        }
}

/// The role each block gets, in falling priority: block 0 is the entry;
/// unwind-cleanup targets are cleanup blocks; blocks on a cycle are loop
/// blocks; the rest go by their terminator.
pub open spec fn spec_role(blocks: Seq<BlockFacts>, idx: int) -> BlockRole {
    if idx == 0 {
        BlockRole::Entry
    } else if spec_cleanup_target(blocks, idx) {
        BlockRole::Cleanup
    } else if spec_in_loop(blocks, idx) {
        BlockRole::Loop
    } else {
        match blocks[idx].terminator {
            TermInfo::Return => BlockRole::Return,
            TermInfo::Resume => BlockRole::Panic,
            TermInfo::Abort => BlockRole::Panic,
            TermInfo::Unreachable => BlockRole::Panic,
            TermInfo::Call { target, callee, .. } => {
                if target is None || spec_panicky_name(callee@) {
                    BlockRole::Panic
                } else {
                    BlockRole::Normal
                }
            },
            TermInfo::SwitchInt { .. } => BlockRole::Branch,
            _ => BlockRole::Normal,
        }
    }
}

/// Whether block `t` is the unwind cleanup target of block `b`.
fn block_cleanups_to(block: &BlockFacts, t: usize) -> (r: bool)
    ensures
        r == match block.terminator {
            TermInfo::Drop { cleanup, .. } => cleanup == Some(t),
            TermInfo::Call { cleanup, .. } => cleanup == Some(t),
            TermInfo::Assert { cleanup, .. } => cleanup == Some(t),
            _ => false,
        },
{
    match &block.terminator {
        TermInfo::Drop { cleanup, .. } => cleanup == &Some(t),
        TermInfo::Call { cleanup, .. } => cleanup == &Some(t),
        TermInfo::Assert { cleanup, .. } => cleanup == &Some(t),
        _ => false,
    }
}

/// Infer the role of each basic block.
pub fn infer_block_roles(blocks: &Vec<BlockFacts>) -> (roles: Vec<BlockRole>)
    ensures
        roles@.len() == blocks@.len(),
        forall|b: int| 0 <= b < blocks@.len() ==> roles@[b] == spec_role(blocks@, b),
{
    let n = blocks.len();
    let loops = detect_loops(blocks);
    let mut roles: Vec<BlockRole> = Vec::new();
    let mut idx: usize = 0;
    while idx < n
        invariant
            n == blocks@.len(),
            idx <= n,
            loops@.len() == n,
            forall|b2: int| 0 <= b2 < n ==> loops@[b2] == spec_in_loop(blocks@, b2),
            roles@.len() == idx,
            forall|b2: int| 0 <= b2 < idx ==> roles@[b2] == spec_role(blocks@, b2),
        decreases n - idx,
    {
        let role: BlockRole = if idx == 0 {
            BlockRole::Entry
        } else {
            let mut is_cleanup = false;
            let mut b2: usize = 0;
            while b2 < n
                invariant
                    n == blocks@.len(),
                    idx < n,
                    b2 <= n,
                    is_cleanup == exists|b3: int|
                        0 <= b3 < b2 && match #[trigger] blocks@[b3].terminator {
                            TermInfo::Drop { cleanup, .. } => cleanup == Some(idx),
                            TermInfo::Call { cleanup, .. } => cleanup == Some(idx),
                            TermInfo::Assert { cleanup, .. } => cleanup == Some(idx),
                            _ => false,
                        },
                decreases n - b2,
            {
                if block_cleanups_to(&blocks[b2], idx) {
                    is_cleanup = true;
                }
                b2 += 1;
            }
            if is_cleanup {
                BlockRole::Cleanup
            } else if loops[idx] {
                BlockRole::Loop
            } else {
                match &blocks[idx].terminator {
                    TermInfo::Return => BlockRole::Return,
                    TermInfo::Resume => BlockRole::Panic,
                    TermInfo::Abort => BlockRole::Panic,
                    TermInfo::Unreachable => BlockRole::Panic,
                    TermInfo::Call { target, callee, .. } => {
                        if target.is_none() || is_panicky_name(callee.as_str()) {
                            BlockRole::Panic
                        } else {
                            BlockRole::Normal
                        }
                    }
                    TermInfo::SwitchInt { .. } => BlockRole::Branch,
                    _ => BlockRole::Normal,
                }
            }
        };
        roles.push(role);
        idx += 1;
    }
    roles
}

/// Assemble the display rows of one block: one row per pre-rendered
/// statement, then the terminator row carrying the recursion flag.
pub fn render_block_rows(
    stmt_rows: &Vec<(String, String)>,
    term_mir: &str,
    term_annotation: &str,
    term_recursive: bool,
) -> (rows: Vec<AnnotatedRow>)
    ensures
        rows@.len() == stmt_rows@.len() + 1,
        forall|i: int| 0 <= i < stmt_rows@.len()
            ==> {
                &&& (#[trigger] rows@[i]).mir@ == stmt_rows@[i].0@
                &&& rows@[i].annotation@ == stmt_rows@[i].1@
                &&& !rows@[i].is_terminator
                &&& !rows@[i].is_recursive
            },
        rows@.last().mir@ == term_mir@,
        rows@.last().annotation@ == term_annotation@,
        rows@.last().is_terminator,
        rows@.last().is_recursive == term_recursive,
{
    let n = stmt_rows.len();
    let mut rows: Vec<AnnotatedRow> = Vec::new();
    let mut i: usize = 0;
    while i < n
        invariant
            n == stmt_rows@.len(),
            i <= n,
            rows@.len() == i,
            forall|k: int| 0 <= k < i
                ==> {
                    &&& (#[trigger] rows@[k]).mir@ == stmt_rows@[k].0@
                    &&& rows@[k].annotation@ == stmt_rows@[k].1@
                    &&& !rows@[k].is_terminator
                    &&& !rows@[k].is_recursive
                },
        decreases n - i,
    {
        let (mir, annotation) = (&stmt_rows[i].0, &stmt_rows[i].1);
        rows.push(
            AnnotatedRow {
                mir: mir.clone(),
                annotation: annotation.clone(),
                is_terminator: false,
                is_recursive: false,
            },
        );
        i += 1;
    }
    rows.push(
        AnnotatedRow {
            mir: String::from_str(term_mir),
            annotation: String::from_str(term_annotation),
            is_terminator: true,
            is_recursive: term_recursive,
        },
    );
    rows
}

// ---------------------------------------------------------------------------
// Source extraction
// ---------------------------------------------------------------------------

/// The line range one rendered row covers: its file and its first and last
/// source line, 1-based.
#[derive(Clone, Debug)]
pub struct SpanLine {
    pub file: String,
    pub start_line: usize,
    pub end_line: usize,
}

/// Whether row `i` of `rows` lies in `file`.
pub open spec fn span_in_file(rows: Seq<SpanLine>, file: Seq<char>, i: int) -> bool {
    rows[i].file@ == file
}

/// Leading blanks (spaces and tabs) of a line, dropped.
pub open spec fn spec_trim_start(s: Seq<char>) -> Seq<char>
    decreases s.len(),
{
    if s.len() > 0 && (s[0] == ' ' || s[0] == '\t') {
        spec_trim_start(s.drop_first())
    } else {
        s
    }
}

/// Whether `s` starts with `p`.
pub open spec fn spec_starts_with(s: Seq<char>, p: Seq<char>) -> bool {
    s.len() >= p.len() && s.subrange(0, p.len() as int) == p
}

/// How the window start expands upward from the first spanned line to take
/// in the function signature: a line opening with `fn ` or `pub fn ` is taken
/// and the scan stops; blank, comment and attribute lines are taken and the
/// scan goes on; anything else stops the scan.
pub open spec fn spec_expand_start(lines: Seq<Seq<char>>, start: nat) -> nat
    decreases start,
{
    if start == 0 {
        0
    } else {
        let line = if start - 1 < lines.len() {
            lines[start - 1]
        } else {
            Seq::empty()
        };
        let t = spec_trim_start(line);
        if spec_starts_with(t, "fn "@) || spec_starts_with(t, "pub fn "@) {
            (start - 1) as nat
        } else if t.len() == 0 || spec_starts_with(t, "//"@) || spec_starts_with(t, "#["@) {
            spec_expand_start(lines, (start - 1) as nat)
        } else {
            start
        }
    }
}

/// Drops leading blanks (spaces and tabs).
fn trim_start(s: &str) -> (r: &str)
    ensures
        r@ == spec_trim_start(s@),
{
    let n = s.unicode_len();
    proof {
        assert(s@.skip(0) =~= s@);
    }
    let mut i: usize = 0;
    while i < n
        invariant
            n == s@.len(),
            i <= n,
            spec_trim_start(s@) == spec_trim_start(s@.skip(i as int)),
            forall|k: int| 0 <= k < i ==> s@[k] == ' ' || s@[k] == '\t',
        decreases n - i,
    {
        let c = s.get_char(i);
        if c == ' ' || c == '\t' {
            proof {
                assert(s@.skip(i as int)[0] == s@[i as int]);
                assert(s@.skip(i as int).drop_first() =~= s@.skip(i + 1));
            }
            i += 1;
        } else {
            proof {
                assert(s@.skip(i as int)[0] == s@[i as int]);
                assert(spec_trim_start(s@.skip(i as int)) == s@.skip(i as int));
            }
            let r = s.substring_char(i, n);
            proof {
                assert(r@ =~= s@.skip(i as int));
            }
            return r;
        }
    }
    proof {
        assert(s@.skip(n as int) =~= Seq::<char>::empty());
        assert(spec_trim_start(s@) =~= Seq::<char>::empty());
    }
    let r = s.substring_char(n, n);
    proof {
        assert(r@ =~= Seq::<char>::empty());
    }
    r
}

/// Whether `s` starts with `p`.
fn starts_with(s: &str, p: &str) -> (r: bool)
    ensures
        r == spec_starts_with(s@, p@),
{
    let n = s.unicode_len();
    let m = p.unicode_len();
    if m > n {
        return false;
    }
    let mut j: usize = 0;
    while j < m
        invariant
            n == s@.len(),
            m == p@.len(),
            m <= n,
            j <= m,
            forall|k: int| 0 <= k < j ==> s@[k] == p@[k],
        decreases m - j,
    {
        if s.get_char(j) != p.get_char(j) {
            proof {
                assert(s@.subrange(0, m as int)[j as int] != p@[j as int]);
            }
            return false;
        }
        j += 1;
    }
    proof {
        assert(s@.subrange(0, m as int) =~= p@);
    }
    true
}

/// The line window of the rows below `upto` that lie in `file`: smallest
/// start line and largest end line, `None` when no such row exists.
pub open spec fn spec_window(rows: Seq<SpanLine>, file: Seq<char>, upto: int) -> Option<
    (usize, usize),
>
    decreases upto,
{
    if upto <= 0 {
        None
    } else {
        let rest = spec_window(rows, file, upto - 1);
        if rows[upto - 1].file@ != file {
            rest
        } else {
            let row = rows[upto - 1];
            match rest {
                None => Some((row.start_line, row.end_line)),
                Some((lo, hi)) => Some(
                    (
                        if row.start_line < lo { row.start_line } else { lo },
                        if row.end_line > hi { row.end_line } else { hi },
                    ),
                ),
            }
        }
    }
}

/// Finds the line window of the rows that lie in `file`: the smallest start
/// line and the largest end line, or `None` when no row lies there.
pub fn span_line_window(rows: &Vec<SpanLine>, file: &str) -> (r: Option<(usize, usize)>)
    ensures
        r == spec_window(rows@, file@, rows@.len() as int),
        r is Some <==> exists|i: int| 0 <= i < rows@.len() && span_in_file(rows@, file@, i),
        r matches Some((lo, hi)) ==> {
            &&& exists|i: int|
                0 <= i < rows@.len() && #[trigger] span_in_file(rows@, file@, i)
                    && rows@[i].start_line == lo
            &&& exists|i: int|
                0 <= i < rows@.len() && #[trigger] span_in_file(rows@, file@, i)
                    && rows@[i].end_line == hi
            &&& forall|i: int|
                0 <= i < rows@.len() && #[trigger] span_in_file(rows@, file@, i)
                    ==> lo <= rows@[i].start_line && rows@[i].end_line <= hi
        },
{
    let n = rows.len();
    let mut found = false;
    let mut lo: usize = 0;
    let mut hi: usize = 0;
    let mut i: usize = 0;
    while i < n
        invariant
            n == rows@.len(),
            i <= n,
            (if found {
                Some((lo, hi))
            } else {
                None
            }) == spec_window(rows@, file@, i as int),
            found <==> exists|k: int| 0 <= k < i && span_in_file(rows@, file@, k),
            found ==> exists|k: int|
                0 <= k < i && #[trigger] span_in_file(rows@, file@, k) && rows@[k].start_line
                    == lo,
            found ==> exists|k: int|
                0 <= k < i && #[trigger] span_in_file(rows@, file@, k) && rows@[k].end_line == hi,
            found ==> forall|k: int|
                0 <= k < i && #[trigger] span_in_file(rows@, file@, k) ==> lo
                    <= rows@[k].start_line && rows@[k].end_line <= hi,
        decreases n - i,
    {
        let row = &rows[i];
        if str_eq(row.file.as_str(), file) {
            proof {
                assert(span_in_file(rows@, file@, i as int));
            }
            if !found {
                found = true;
                lo = row.start_line;
                hi = row.end_line;
            } else {
                if row.start_line < lo {
                    lo = row.start_line;
                }
                if row.end_line > hi {
                    hi = row.end_line;
                }
            }
        }
        i += 1;
    }
    if found {
        Some((lo, hi))
    } else {
        None
    }
}

/// Expands the window start upward to take in the function signature, as
/// [`spec_expand_start`] says.
pub fn expand_to_signature(lines: &Vec<String>, min_line: usize) -> (start: usize)
    ensures
        start as nat == spec_expand_start(
            lines@.map_values(|l: String| l@),
            if min_line > 0 {
                (min_line - 1) as nat
            } else {
                0
            },
        ),
{
    let ghost linesv = lines@.map_values(|l: String| l@);
    let mut start: usize = if min_line > 0 {
        min_line - 1
    } else {
        0
    };
    let ghost target = spec_expand_start(linesv, start as nat);
    while start > 0
        invariant
            linesv == lines@.map_values(|l: String| l@),
            spec_expand_start(linesv, start as nat) == target,
            target == spec_expand_start(
                linesv,
                if min_line > 0 {
                    (min_line - 1) as nat
                } else {
                    0
                },
            ),
        decreases start,
    {
        let line: &str = if start - 1 < lines.len() {
            lines[start - 1].as_str()
        } else {
            ""
        };
        proof {
            let idx = start as int - 1;
            if idx < linesv.len() {
                assert(line@ == linesv[idx]);
            } else {
                reveal_strlit("");
                assert(line@ =~= Seq::<char>::empty());
            }
        }
        let t = trim_start(line);
        if starts_with(t, "fn ") || starts_with(t, "pub fn ") {
            proof {
                assert(spec_expand_start(linesv, start as nat) == (start - 1) as nat);
            }
            start -= 1;
            return start;
        }
        if t.unicode_len() == 0 || starts_with(t, "//") || starts_with(t, "#[") {
            proof {
                assert(spec_expand_start(linesv, start as nat) == spec_expand_start(
                    linesv,
                    (start - 1) as nat,
                ));
            }
            start -= 1;
        } else {
            proof {
                assert(spec_expand_start(linesv, start as nat) == start as nat);
            }
            return start;
        }
    }
    start
}

// ---------------------------------------------------------------------------
// Textual control-flow diagram
// ---------------------------------------------------------------------------

/// The decimal digit character for `d` in 0..10.
pub open spec fn spec_digit(d: nat) -> char {
    if d == 0 {
        '0'
    } else if d == 1 {
        '1'
    } else if d == 2 {
        '2'
    } else if d == 3 {
        '3'
    } else if d == 4 {
        '4'
    } else if d == 5 {
        '5'
    } else if d == 6 {
        '6'
    } else if d == 7 {
        '7'
    } else if d == 8 {
        '8'
    } else {
        '9'
    }
}

/// The decimal representation of `n`, most significant digit first.
pub open spec fn spec_dec(n: nat) -> Seq<char>
    decreases n,
{
    if n < 10 {
        seq![spec_digit(n)]
    } else {
        spec_dec(n / 10).push(spec_digit(n % 10))
    }
}

/// Appends the decimal representation of `n`.
fn push_dec(s: &mut String, n: usize)
    ensures
        final(s)@ == old(s)@ + spec_dec(n as nat),
    decreases n,
{
    if n >= 10 {
        push_dec(s, n / 10);
    }
    let d = n % 10;
    let ds: &str = if d == 0 {
        "0"
    } else if d == 1 {
        "1"
    } else if d == 2 {
        "2"
    } else if d == 3 {
        "3"
    } else if d == 4 {
        "4"
    } else if d == 5 {
        "5"
    } else if d == 6 {
        "6"
    } else if d == 7 {
        "7"
    } else if d == 8 {
        "8"
    } else {
        "9"
    };
    proof {
        reveal_strlit("0");
        reveal_strlit("1");
        reveal_strlit("2");
        reveal_strlit("3");
        reveal_strlit("4");
        reveal_strlit("5");
        reveal_strlit("6");
        reveal_strlit("7");
        reveal_strlit("8");
        reveal_strlit("9");
        assert(ds@ =~= seq![spec_digit((n % 10) as nat)]);
    }
    s.append(ds);
    proof {
        assert(final(s)@ =~= old(s)@ + spec_dec(n as nat));
    }
}

/// The arrow list of one diagram line: `bb<t0>, bb<t1>, ...`.
pub open spec fn spec_target_list(ts: Seq<usize>) -> Seq<char>
    decreases ts.len(),
{
    if ts.len() == 0 {
        Seq::empty()
    } else if ts.len() == 1 {
        "bb"@ + spec_dec(ts[0] as nat)
    } else {
        spec_target_list(ts.drop_last()) + ", "@ + "bb"@ + spec_dec(ts.last() as nat)
    }
}

/// One diagram line: the block, its role suffix, and its successors.
pub open spec fn spec_cfg_line(idx: nat, role: BlockRole, ts: Seq<usize>) -> Seq<char> {
    let head = "bb"@ + spec_dec(idx) + spec_cfg_suffix(role);
    if ts.len() == 0 {
        head
    } else {
        head + " ──▶ "@ + spec_target_list(ts)
    }
}

/// The diagram of the blocks below `upto`: one line each, each ending in a
/// newline.
pub open spec fn spec_cfg_lines(blocks: Seq<BlockFacts>, roles: Seq<BlockRole>, upto: int) -> Seq<
    char,
>
    decreases upto,
{
    if upto <= 0 {
        Seq::empty()
    } else {
        spec_cfg_lines(blocks, roles, upto - 1) + spec_cfg_line(
            (upto - 1) as nat,
            roles[upto - 1],
            spec_targets(blocks[upto - 1].terminator),
        ) + "\n"@
    }
}

/// Generate the textual control-flow diagram: per block one line with its
/// id, role suffix and successor list.
pub fn generate_ascii_cfg(blocks: &Vec<BlockFacts>, roles: &Vec<BlockRole>) -> (r: String)
    requires
        roles@.len() == blocks@.len(),
    ensures
        r@ == spec_cfg_lines(blocks@, roles@, blocks@.len() as int),
{
    let n = blocks.len();
    let mut s = String::new();
    let mut idx: usize = 0;
    while idx < n
        invariant
            n == blocks@.len(),
            roles@.len() == n,
            idx <= n,
            s@ == spec_cfg_lines(blocks@, roles@, idx as int),
        decreases n - idx,
    {
        let targets = get_terminator_targets(&blocks[idx].terminator);
        let ghost head = "bb"@ + spec_dec(idx as nat) + spec_cfg_suffix(roles@[idx as int]);
        s.append("bb");
        push_dec(&mut s, idx);
        s.append(roles[idx].cfg_suffix());
        proof {
            assert(s@ =~= spec_cfg_lines(blocks@, roles@, idx as int) + head);
        }
        let m = targets.len();
        if m > 0 {
            s.append(" ──▶ ");
            let mut j: usize = 0;
            while j < m
                invariant
                    n == blocks@.len(),
                    roles@.len() == n,
                    idx < n,
                    m == targets@.len(),
                    m > 0,
                    targets@ == spec_targets(blocks@[idx as int].terminator),
                    head == "bb"@ + spec_dec(idx as nat) + spec_cfg_suffix(roles@[idx as int]),
                    j <= m,
                    s@ == spec_cfg_lines(blocks@, roles@, idx as int) + head + " ──▶ "@
                        + spec_target_list(targets@.take(j as int)),
                decreases m - j,
            {
                if j > 0 {
                    s.append(", ");
                }
                s.append("bb");
                push_dec(&mut s, targets[j]);
                proof {
                    assert(targets@.take(j + 1).drop_last() =~= targets@.take(j as int));
                    assert(targets@.take(j + 1).last() == targets@[j as int]);
                    if j == 0 {
                        assert(targets@.take(1).len() == 1);
                        assert(targets@.take(1)[0] == targets@[0]);
                        assert(spec_target_list(targets@.take(1)) == "bb"@ + spec_dec(
                            targets@[0] as nat,
                        ));
                        assert(s@ =~= spec_cfg_lines(blocks@, roles@, idx as int) + head + " ──▶ "@
                            + spec_target_list(targets@.take(j + 1)));
                    } else {
                        assert(s@ =~= spec_cfg_lines(blocks@, roles@, idx as int) + head + " ──▶ "@
                            + spec_target_list(targets@.take(j + 1)));
                    }
                }
                j += 1;
            }
            proof {
                assert(targets@.take(m as int) =~= targets@);
            }
        }
        s.append("\n");
        proof {
            assert(s@ =~= spec_cfg_lines(blocks@, roles@, idx as int + 1));
        }
        idx += 1;
    }
    s
}

/// The lines with index in `[start, end)`, joined by newlines.
pub open spec fn spec_join_lines(lines: Seq<Seq<char>>, start: int, end: int) -> Seq<char>
    decreases end - start,
{
    if end <= start {
        Seq::empty()
    } else if end == start + 1 {
        lines[start]
    } else {
        spec_join_lines(lines, start, end - 1) + "\n"@ + lines[end - 1]
    }
}

/// Whether a file path belongs to the toolchain rather than the user's code.
pub open spec fn spec_toolchain_path(file: Seq<char>) -> bool {
    contains_spec(file, ".rustup"@) || contains_spec(file, "no-location"@)
}

/// Extract the source text of a function: the lines its spans cover in
/// `file`, expanded upward to take in the signature, joined by newlines.
/// `None` when no span lies in `file` or the file belongs to the toolchain.
pub fn extract_function_source(
    lines: &Vec<String>,
    rows: &Vec<SpanLine>,
    file: &str,
) -> (r: Option<String>)
    ensures
        r is Some <==> !spec_toolchain_path(file@) && spec_window(
            rows@,
            file@,
            rows@.len() as int,
        ) is Some,
        r matches Some(src) ==> {
            let (lo, hi) = spec_window(rows@, file@, rows@.len() as int)->0;
            let linesv = lines@.map_values(|l: String| l@);
            let start = spec_expand_start(linesv, if lo > 0 { (lo - 1) as nat } else { 0 });
            let end = if hi <= linesv.len() { hi as int } else { linesv.len() as int };
            src@ == spec_join_lines(linesv, start as int, end)
        },
{
    if str_contains(file, ".rustup") || str_contains(file, "no-location") {
        return None;
    }
    let (min_line, max_line) = match span_line_window(rows, file) {
        Some(w) => w,
        None => {
            return None;
        }
    };

    let ghost linesv = lines@.map_values(|l: String| l@);
    let start = expand_to_signature(lines, min_line);
    let end = if max_line <= lines.len() {
        max_line
    } else {
        lines.len()
    };

    let mut s = String::new();
    let mut i: usize = start;
    if i >= end {
        proof {
            assert(s@ =~= spec_join_lines(linesv, start as int, end as int));
        }
        return Some(s);
    }
    while i < end
        invariant
            linesv == lines@.map_values(|l: String| l@),
            end <= lines@.len(),
            start <= i <= end,
            start < end,
            i > start ==> s@ == spec_join_lines(linesv, start as int, i as int),
            i == start ==> s@ == Seq::<char>::empty(),
        decreases end - i,
    {
        if i > start {
            s.append("\n");
        }
        s.append(lines[i].as_str());
        proof {
            assert(lines[i as int]@ == linesv[i as int]);
            assert(s@ =~= spec_join_lines(linesv, start as int, i + 1));
        }
        i += 1;
    }
    Some(s)
}

/// Context for one function's traversal: the analysis results, precomputed
/// once.
pub struct FunctionContext {
    pub short_name: String,
    pub full_name: String,
    pub blocks: Vec<BlockFacts>,
    pub properties: FunctionProperties,
    pub block_roles: Vec<BlockRole>,
    pub source: Option<String>,
}

impl FunctionContext {
    /// Create a new function context with all analysis pre-computed.
    pub fn new(
        short_name: String,
        full_name: String,
        blocks: Vec<BlockFacts>,
        source: Option<String>,
    ) -> (r: FunctionContext)
        ensures
            r.short_name@ == short_name@,
            r.full_name@ == full_name@,
            r.blocks@ == blocks@,
            r.properties == spec_properties(blocks@, short_name@),
            r.block_roles@.len() == blocks@.len(),
            forall|b: int| 0 <= b < blocks@.len() ==> r.block_roles@[b] == spec_role(blocks@, b),
            r.source is Some <==> source is Some,
            r.source matches Some(src) ==> src@ == source->0@,
    {
        let properties = analyze_function(&blocks, short_name.as_str());
        let block_roles = infer_block_roles(&blocks);
        FunctionContext { short_name, full_name, blocks, properties, block_roles, source }
    }

    /// The role of block `idx`; `Normal` out of range.
    pub fn block_role(&self, idx: usize) -> (r: BlockRole)
        ensures
            (idx as int) < self.block_roles@.len() ==> r == self.block_roles@[idx as int],
            (idx as int) >= self.block_roles@.len() ==> r == BlockRole::Normal,
    {
        if idx < self.block_roles.len() {
            self.block_roles[idx]
        } else {
            BlockRole::Normal
        }
    }

    /// Assemble the display rows of block `idx` from its pre-rendered texts,
    /// deciding the recursion flag from the block's terminator: a call back
    /// into this very function.
    pub fn render_block(
        &self,
        idx: usize,
        stmt_rows: &Vec<(String, String)>,
        term_mir: &str,
        term_annotation: &str,
    ) -> (rows: Vec<AnnotatedRow>)
        requires
            (idx as int) < self.blocks@.len(),
        ensures
            rows@.len() == stmt_rows@.len() + 1,
            forall|i: int| 0 <= i < stmt_rows@.len()
                ==> {
                    &&& (#[trigger] rows@[i]).mir@ == stmt_rows@[i].0@
                    &&& rows@[i].annotation@ == stmt_rows@[i].1@
                    &&& !rows@[i].is_terminator
                    &&& !rows@[i].is_recursive
                },
            rows@.last().mir@ == term_mir@,
            rows@.last().annotation@ == term_annotation@,
            rows@.last().is_terminator,
            rows@.last().is_recursive == (self.blocks@[idx as int].terminator matches TermInfo::Call {
                callee,
                ..
            } && callee@ == self.short_name@),
    {
        let is_recursive = match &self.blocks[idx].terminator {
            TermInfo::Call { callee, .. } => str_eq(callee.as_str(), self.short_name.as_str()),
            _ => false,
        };
        render_block_rows(stmt_rows, term_mir, term_annotation, is_recursive)
    }

    /// The textual control-flow diagram of this function.
    pub fn ascii_cfg(&self) -> (r: String)
        requires
            self.block_roles@.len() == self.blocks@.len(),
        ensures
            r@ == spec_cfg_lines(self.blocks@, self.block_roles@, self.blocks@.len() as int),
    {
        generate_ascii_cfg(&self.blocks, &self.block_roles)
    }

    /// The formatted property lines of this function.
    pub fn property_strings(&self) -> (r: Vec<&'static str>)
        ensures
            r@.map_values(|s: &'static str| s@) == spec_format_properties(self.properties),
    {
        format_properties(&self.properties)
    }
}

} // verus!
