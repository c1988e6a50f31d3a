use mir_explorer::input::{parse_key, str_eq, InputAction};

#[test]
fn vim_and_arrow_bindings() {
    assert_eq!(parse_key("h"), InputAction::GoBack);
    assert_eq!(parse_key("ArrowLeft"), InputAction::GoBack);
    assert_eq!(parse_key("Backspace"), InputAction::GoBack);
    assert_eq!(parse_key("j"), InputAction::MoveDown);
    assert_eq!(parse_key("ArrowDown"), InputAction::MoveDown);
    assert_eq!(parse_key("k"), InputAction::MoveUp);
    assert_eq!(parse_key("ArrowUp"), InputAction::MoveUp);
    assert_eq!(parse_key("l"), InputAction::MoveRight);
    assert_eq!(parse_key("ArrowRight"), InputAction::MoveRight);
    assert_eq!(parse_key("Enter"), InputAction::MoveRight);
}

#[test]
fn escape_resets_and_slash_focuses_search() {
    assert_eq!(parse_key("Escape"), InputAction::Reset);
    assert_eq!(parse_key("/"), InputAction::FocusSearch);
}

#[test]
fn digits_select_edges_zero_indexed() {
    assert_eq!(parse_key("1"), InputAction::SelectEdge(0));
    assert_eq!(parse_key("2"), InputAction::SelectEdge(1));
    assert_eq!(parse_key("3"), InputAction::SelectEdge(2));
    assert_eq!(parse_key("4"), InputAction::SelectEdge(3));
    assert_eq!(parse_key("5"), InputAction::SelectEdge(4));
    assert_eq!(parse_key("6"), InputAction::SelectEdge(5));
    assert_eq!(parse_key("7"), InputAction::SelectEdge(6));
    assert_eq!(parse_key("8"), InputAction::SelectEdge(7));
    assert_eq!(parse_key("9"), InputAction::SelectEdge(8));
}

#[test]
fn unbound_keys_are_ignored() {
    assert_eq!(parse_key("x"), InputAction::NoOp);
    assert_eq!(parse_key("0"), InputAction::NoOp);
    assert_eq!(parse_key(""), InputAction::NoOp);
    assert_eq!(parse_key("Shift"), InputAction::NoOp);
    assert_eq!(parse_key("hh"), InputAction::NoOp);
}

#[test]
fn string_equality_decides_views() {
    assert!(str_eq("", ""));
    assert!(str_eq("abc", "abc"));
    assert!(!str_eq("abc", "abd"));
    assert!(!str_eq("abc", "ab"));
    assert!(str_eq("über", "über"));
    assert!(!str_eq("über", "uber"));
}
