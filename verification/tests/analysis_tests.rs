use mir_explorer::analysis::{
    analyze_function, detect_loops, expand_to_signature, extract_function_source,
    format_properties, generate_ascii_cfg, get_terminator_targets, infer_block_roles,
    render_block_rows, span_line_window, str_contains, BlockFacts, BlockRole, FunctionContext,
    FunctionProperties, SpanLine, StmtInfo, TermInfo,
};

fn plain(term: TermInfo) -> BlockFacts {
    BlockFacts { statements: vec![], terminator: term }
}

fn call(target: Option<usize>, cleanup: Option<usize>, callee: &str) -> TermInfo {
    TermInfo::Call { target, cleanup, callee: String::from(callee) }
}

#[test]
fn terminator_targets_per_variant() {
    assert_eq!(get_terminator_targets(&TermInfo::Goto { target: 3 }), vec![3]);
    assert_eq!(
        get_terminator_targets(&TermInfo::SwitchInt { targets: vec![1, 2], otherwise: 4 }),
        vec![1, 2, 4]
    );
    assert_eq!(get_terminator_targets(&TermInfo::Return), Vec::<usize>::new());
    assert_eq!(get_terminator_targets(&TermInfo::Resume), Vec::<usize>::new());
    assert_eq!(get_terminator_targets(&TermInfo::Abort), Vec::<usize>::new());
    assert_eq!(get_terminator_targets(&TermInfo::Unreachable), Vec::<usize>::new());
    assert_eq!(
        get_terminator_targets(&TermInfo::Drop { target: 1, cleanup: Some(2) }),
        vec![1, 2]
    );
    assert_eq!(get_terminator_targets(&call(Some(1), Some(2), "f")), vec![1, 2]);
    assert_eq!(get_terminator_targets(&call(None, None, "f")), Vec::<usize>::new());
    assert_eq!(
        get_terminator_targets(&TermInfo::Assert { target: 5, cleanup: None }),
        vec![5]
    );
    assert_eq!(
        get_terminator_targets(&TermInfo::InlineAsm { destination: Some(1), cleanup: Some(6) }),
        vec![1, 6]
    );
}

#[test]
fn substring_search() {
    assert!(str_contains("core::panicking::panic_fmt", "panic"));
    assert!(str_contains("assert_failed", "assert_failed"));
    assert!(!str_contains("compute", "panic"));
    assert!(str_contains("abc", ""));
    assert!(!str_contains("ab", "abc"));
    assert!(str_contains("xxabcx", "abc"));
}

#[test]
fn properties_detected() {
    let blocks = vec![
        BlockFacts {
            statements: vec![
                StmtInfo { checked_op: true, borrow: false },
                StmtInfo { checked_op: false, borrow: true },
            ],
            terminator: TermInfo::SwitchInt { targets: vec![1], otherwise: 2 },
        },
        plain(call(Some(2), None, "my_crate::helper")),
        plain(TermInfo::Return),
    ];
    let p = analyze_function(&blocks, "my_crate::main");
    assert!(p.has_checked_ops);
    assert!(p.has_borrows);
    assert!(p.has_switches);
    assert!(!p.has_panic_path);
    assert!(!p.has_recursion);
    assert!(!p.has_assertions);
    assert!(!p.has_drops);
}

#[test]
fn recursion_and_panic_paths_detected() {
    let blocks = vec![
        plain(call(Some(1), None, "my_crate::main")),
        plain(call(None, None, "core::panicking::panic")),
        plain(TermInfo::Assert { target: 0, cleanup: None }),
        plain(TermInfo::Drop { target: 0, cleanup: None }),
    ];
    let p = analyze_function(&blocks, "my_crate::main");
    assert!(p.has_recursion);
    assert!(p.has_panic_path);
    assert!(p.has_assertions);
    assert!(p.has_drops);
    assert!(!p.has_switches);
}

#[test]
fn properties_formatted_in_order() {
    let p = FunctionProperties {
        has_panic_path: true,
        has_checked_ops: false,
        has_borrows: true,
        has_drops: false,
        has_recursion: true,
        has_assertions: false,
        has_switches: true,
    };
    assert_eq!(
        format_properties(&p),
        vec![
            "Contains panic path",
            "Introduces borrows",
            "Recursive",
            "Has conditional branches",
        ]
    );
    assert_eq!(format_properties(&FunctionProperties::default()), Vec::<&str>::new());
}

#[test]
fn loops_detected() {
    // 0 -> 1 -> 2 -> 1 (blocks 1 and 2 lie on a cycle), 2 -> 3 exit
    let blocks = vec![
        plain(TermInfo::Goto { target: 1 }),
        plain(TermInfo::Goto { target: 2 }),
        plain(TermInfo::SwitchInt { targets: vec![1], otherwise: 3 }),
        plain(TermInfo::Return),
    ];
    let loops = detect_loops(&blocks);
    assert_eq!(loops, vec![false, true, true, false]);
}

#[test]
fn roles_inferred_by_priority() {
    // 0 entry; 1 call with cleanup to 4; 2 switch; 3 return; 4 cleanup
    // target; 5 self-loop; 6 diverging call; 7 panicking call
    let blocks = vec![
        plain(TermInfo::Goto { target: 1 }),
        plain(call(Some(2), Some(4), "helper")),
        plain(TermInfo::SwitchInt { targets: vec![3, 5], otherwise: 6 }),
        plain(TermInfo::Return),
        plain(TermInfo::Resume),
        plain(TermInfo::Goto { target: 5 }),
        plain(call(None, None, "exit")),
        plain(call(Some(3), None, "core::panicking::panic")),
    ];
    let roles = infer_block_roles(&blocks);
    assert_eq!(roles[0], BlockRole::Entry);
    assert_eq!(roles[1], BlockRole::Normal);
    assert_eq!(roles[2], BlockRole::Branch);
    assert_eq!(roles[3], BlockRole::Return);
    assert_eq!(roles[4], BlockRole::Cleanup);
    assert_eq!(roles[5], BlockRole::Loop);
    assert_eq!(roles[6], BlockRole::Panic);
    assert_eq!(roles[7], BlockRole::Panic);
}

#[test]
fn titles_and_suffixes() {
    assert_eq!(BlockRole::Entry.title(), "entry");
    assert_eq!(BlockRole::Return.title(), "return / success");
    assert_eq!(BlockRole::Panic.title(), "panic path");
    assert_eq!(BlockRole::Cleanup.title(), "cleanup / unwind");
    assert_eq!(BlockRole::Branch.title(), "branch point");
    assert_eq!(BlockRole::Loop.title(), "loop");
    assert_eq!(BlockRole::Normal.title(), "");
    assert_eq!(BlockRole::Entry.cfg_suffix(), " (entry)");
    assert_eq!(BlockRole::Return.cfg_suffix(), " (return)");
    assert_eq!(BlockRole::Panic.cfg_suffix(), " (panic)");
    assert_eq!(BlockRole::Cleanup.cfg_suffix(), " (cleanup)");
    assert_eq!(BlockRole::Branch.cfg_suffix(), " (branch)");
    assert_eq!(BlockRole::Loop.cfg_suffix(), " (loop)");
    assert_eq!(BlockRole::Normal.cfg_suffix(), "");
}

#[test]
fn span_window_over_matching_rows() {
    let rows = vec![
        SpanLine { file: String::from("src/a.rs"), start_line: 14, end_line: 15 },
        SpanLine { file: String::from("src/b.rs"), start_line: 2, end_line: 90 },
        SpanLine { file: String::from("src/a.rs"), start_line: 11, end_line: 12 },
        SpanLine { file: String::from("src/a.rs"), start_line: 13, end_line: 19 },
    ];
    assert_eq!(span_line_window(&rows, "src/a.rs"), Some((11, 19)));
    assert_eq!(span_line_window(&rows, "src/b.rs"), Some((2, 90)));
    assert_eq!(span_line_window(&rows, "src/c.rs"), None);
    assert_eq!(span_line_window(&Vec::new(), "src/a.rs"), None);
}

#[test]
fn window_start_expands_to_the_signature() {
    let lines: Vec<String> = [
        "struct S;",          // line 1: stops the scan
        "/// a doc comment",  // line 2: taken
        "#[inline]",          // line 3: taken
        "pub fn demo() {",    // line 4: taken, scan stops
        "",                   // line 5: taken
        "    let x = 1;",     // line 6: first spanned line
    ]
    .iter()
    .map(|s| String::from(*s))
    .collect();
    // spans begin at line 6; the scan walks up through the blank line, finds
    // the signature on line 4 and stops (0-based index 3)
    assert_eq!(expand_to_signature(&lines, 6), 3);
    // starting right below the signature finds it immediately
    assert_eq!(expand_to_signature(&lines, 5), 3);
    // starting below a non-taken line stays put
    assert_eq!(expand_to_signature(&lines, 2), 1);
    // top of file
    assert_eq!(expand_to_signature(&lines, 1), 0);
    assert_eq!(expand_to_signature(&lines, 0), 0);
}

#[test]
fn source_extraction_joins_the_window() {
    let lines: Vec<String> = [
        "/// doc",
        "fn demo() -> u32 {",
        "    let x = 1;",
        "    x + 1",
        "}",
    ]
    .iter()
    .map(|s| String::from(*s))
    .collect();
    let rows = vec![
        SpanLine { file: String::from("src/a.rs"), start_line: 3, end_line: 4 },
        SpanLine { file: String::from("src/a.rs"), start_line: 4, end_line: 5 },
    ];
    let src = extract_function_source(&lines, &rows, "src/a.rs").unwrap();
    assert_eq!(src, "fn demo() -> u32 {\n    let x = 1;\n    x + 1\n}");
    // a file nothing spans gives nothing
    assert!(extract_function_source(&lines, &rows, "src/b.rs").is_none());
    // toolchain paths are skipped
    let tool = vec![SpanLine {
        file: String::from("/home/u/.rustup/lib.rs"),
        start_line: 1,
        end_line: 1,
    }];
    assert!(extract_function_source(&lines, &tool, "/home/u/.rustup/lib.rs").is_none());
}

#[test]
fn function_context_precomputes_analysis() {
    let blocks = vec![
        plain(TermInfo::SwitchInt { targets: vec![1], otherwise: 2 }),
        plain(TermInfo::Goto { target: 2 }),
        plain(TermInfo::Return),
    ];
    let ctx = FunctionContext::new(
        String::from("main"),
        String::from("demo::main"),
        blocks,
        None,
    );
    assert!(ctx.properties.has_switches);
    assert!(!ctx.properties.has_recursion);
    assert_eq!(ctx.block_role(0), BlockRole::Entry);
    assert_eq!(ctx.block_role(2), BlockRole::Return);
    assert_eq!(ctx.block_role(9), BlockRole::Normal);
    assert_eq!(
        ctx.ascii_cfg(),
        "bb0 (entry) ──▶ bb1, bb2\nbb1 ──▶ bb2\nbb2 (return)\n"
    );
    assert_eq!(ctx.property_strings(), vec!["Has conditional branches"]);
}

#[test]
fn function_context_marks_recursive_terminators() {
    let blocks = vec![
        plain(call(Some(1), None, "main")),
        plain(call(Some(0), None, "helper")),
    ];
    let ctx = FunctionContext::new(String::from("main"), String::from("demo::main"), blocks, None);
    let rows = ctx.render_block(0, &Vec::new(), "main() -> bb1", "Recursive call to main");
    assert_eq!(rows.len(), 1);
    assert!(rows[0].is_terminator);
    assert!(rows[0].is_recursive);
    let rows = ctx.render_block(1, &Vec::new(), "helper() -> bb0", "Call helper");
    assert!(!rows[0].is_recursive);
}

#[test]
fn ascii_cfg_lines() {
    let blocks = vec![
        plain(TermInfo::SwitchInt { targets: vec![1], otherwise: 2 }),
        plain(TermInfo::Goto { target: 2 }),
        plain(TermInfo::Return),
    ];
    let roles = infer_block_roles(&blocks);
    let cfg = generate_ascii_cfg(&blocks, &roles);
    assert_eq!(
        cfg,
        "bb0 (entry) ──▶ bb1, bb2\nbb1 ──▶ bb2\nbb2 (return)\n"
    );
}

#[test]
fn ascii_cfg_renders_big_ids() {
    let mut blocks = Vec::new();
    for _ in 0..12 {
        blocks.push(plain(TermInfo::Return));
    }
    blocks.push(plain(TermInfo::Goto { target: 105 }));
    let mut roles = vec![BlockRole::Entry];
    for _ in 1..13 {
        roles.push(BlockRole::Normal);
    }
    let cfg = generate_ascii_cfg(&blocks, &roles);
    assert!(cfg.contains("bb10\n"));
    assert!(cfg.contains("bb11\n"));
    assert!(cfg.ends_with("bb12 ──▶ bb105\n"));
}

#[test]
fn block_rows_statements_then_terminator() {
    let stmts = vec![
        (String::from("_1 = 5"), String::from("assign")),
        (String::from("_2 = &_1"), String::from("borrow")),
    ];
    let rows = render_block_rows(&stmts, "f() -> bb1", "Recursive call to f", true);
    assert_eq!(rows.len(), 3);
    assert_eq!(rows[0].mir, "_1 = 5");
    assert_eq!(rows[0].annotation, "assign");
    assert!(!rows[0].is_terminator);
    assert!(!rows[0].is_recursive);
    assert_eq!(rows[2].mir, "f() -> bb1");
    assert!(rows[2].is_terminator);
    assert!(rows[2].is_recursive);
}
