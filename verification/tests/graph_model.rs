use mir_explorer::graph::{
    validate_data, validate_function, BlockRole, EdgeKind, ExplorerBlock, ExplorerData,
    ExplorerEdge, ExplorerFunction, ExplorerTerminator, LoadError,
};

fn block(id: usize, targets: &[(usize, &str, EdgeKind)], role: BlockRole) -> ExplorerBlock {
    ExplorerBlock {
        id,
        statements: vec![],
        terminator: ExplorerTerminator {
            kind: String::from("t"),
            mir: String::from("t"),
            annotation: String::new(),
            edges: targets
                .iter()
                .map(|(t, l, k)| ExplorerEdge {
                    target: *t,
                    label: String::from(*l),
                    kind: *k,
                    annotation: String::new(),
                })
                .collect(),
        },
        predecessors: vec![],
        role,
        summary: String::new(),
    }
}

fn chain_function() -> ExplorerFunction {
    ExplorerFunction {
        name: String::from("f"),
        short_name: String::from("f"),
        blocks: vec![
            block(0, &[(1, "", EdgeKind::Normal)], BlockRole::Entry),
            block(1, &[], BlockRole::Exit),
        ],
        locals: vec![],
        entry_block: 0,
    }
}

#[test]
fn valid_document_loads() {
    let d = ExplorerData { name: String::from("c"), functions: vec![chain_function()] };
    assert_eq!(validate_data(&d), Ok(()));
}

#[test]
fn empty_document_is_rejected_as_empty() {
    let d = ExplorerData { name: String::from("c"), functions: vec![] };
    assert_eq!(validate_data(&d), Err(LoadError::EmptyDocument));
}

#[test]
fn out_of_range_entry_is_rejected() {
    let mut f = chain_function();
    f.entry_block = 7;
    let d = ExplorerData { name: String::from("c"), functions: vec![f] };
    assert_eq!(validate_data(&d), Err(LoadError::DocumentParse));
}

#[test]
fn out_of_range_edge_target_is_rejected() {
    let mut f = chain_function();
    f.blocks[0].terminator.edges[0].target = 9;
    let d = ExplorerData { name: String::from("c"), functions: vec![f] };
    assert_eq!(validate_data(&d), Err(LoadError::DocumentParse));
}

#[test]
fn misnumbered_block_id_is_rejected() {
    let mut f = chain_function();
    f.blocks[1].id = 5;
    assert!(!validate_function(&f));
}

#[test]
fn zero_block_function_is_rejected() {
    let f = ExplorerFunction {
        name: String::from("f"),
        short_name: String::from("f"),
        blocks: vec![],
        locals: vec![],
        entry_block: 0,
    };
    assert!(!validate_function(&f));
}

#[test]
fn border_colors_follow_roles() {
    assert_eq!(BlockRole::Entry.border_color(), "#50fa7b");
    assert_eq!(BlockRole::Exit.border_color(), "#bd93f9");
    assert_eq!(BlockRole::BranchPoint.border_color(), "#ffb86c");
    assert_eq!(BlockRole::MergePoint.border_color(), "#8be9fd");
    assert_eq!(BlockRole::Cleanup.border_color(), "#ff5555");
    assert_eq!(BlockRole::Linear.border_color(), "#555");
}
