//! Stateless input mapping: a key string from the host becomes one action.
//!
//! The mapper owns no state and performs no side effect; the controller
//! decides what each action means. `FocusSearch` is deliberately reported but
//! never acted on here: the host UI owns the search box.

use vstd::prelude::*;
use vstd::string::*;

verus! {

/// Actions that can be triggered by user input.
#[derive(Clone, Copy, Debug, PartialEq, Eq, Structural)]
pub enum InputAction {
    /// Go back in path history (h, ArrowLeft, Backspace).
    GoBack,
    /// Move down in edge selection (j, ArrowDown).
    MoveDown,
    /// Move up in edge selection (k, ArrowUp).
    MoveUp,
    /// Follow selected edge (l, ArrowRight, Enter).
    MoveRight,
    /// Jump directly to edge N (digits 1-9, zero-indexed internally).
    SelectEdge(usize),
    /// Reset to entry block (Escape).
    Reset,
    /// Focus the function search/selector (/). Reported upward, never handled.
    FocusSearch,
    /// Any other key.
    NoOp,
}

/// The action bound to each key string; every unbound key maps to `NoOp`.
pub open spec fn parse_key_spec(s: Seq<char>) -> InputAction {
    if s == "h"@ || s == "ArrowLeft"@ || s == "Backspace"@ {
        InputAction::GoBack
    } else if s == "j"@ || s == "ArrowDown"@ {
        InputAction::MoveDown
    } else if s == "k"@ || s == "ArrowUp"@ {
        InputAction::MoveUp
    } else if s == "l"@ || s == "ArrowRight"@ || s == "Enter"@ {
        InputAction::MoveRight
    } else if s == "Escape"@ {
        InputAction::Reset
    } else if s == "/"@ {
        InputAction::FocusSearch
    } else if s == "1"@ {
        InputAction::SelectEdge(0)
    } else if s == "2"@ {
        InputAction::SelectEdge(1)
    } else if s == "3"@ {
        InputAction::SelectEdge(2)
    } else if s == "4"@ {
        InputAction::SelectEdge(3)
    } else if s == "5"@ {
        InputAction::SelectEdge(4)
    } else if s == "6"@ {
        InputAction::SelectEdge(5)
    } else if s == "7"@ {
        InputAction::SelectEdge(6)
    } else if s == "8"@ {
        InputAction::SelectEdge(7)
    } else if s == "9"@ {
        InputAction::SelectEdge(8)
    } else {
        InputAction::NoOp
    }
}

/// Character-by-character string equality; decides equality of the views.
pub fn str_eq(a: &str, b: &str) -> (r: bool)
    ensures
        r <==> a@ == b@,
{
    let alen = a.unicode_len();
    let blen = b.unicode_len();
    if alen != blen {
        return false;
    }
    let mut i: usize = 0;
    while i < alen
        invariant
            alen == a@.len(),
            blen == b@.len(),
            alen == blen,
            i <= alen,
            forall|k: int| 0 <= k < i ==> a@[k] == b@[k],
        decreases alen - i,
    {
        if a.get_char(i) != b.get_char(i) {
            return false;
        }
        i += 1;
    }
    proof {
        assert(a@ =~= b@);
    }
    true
}

/// Parse a key string into an action.
pub fn parse_key(key: &str) -> (r: InputAction)
    ensures
        r == parse_key_spec(key@),
{
    if str_eq(key, "h") || str_eq(key, "ArrowLeft") || str_eq(key, "Backspace") {
        InputAction::GoBack
    } else if str_eq(key, "j") || str_eq(key, "ArrowDown") {
        InputAction::MoveDown
    } else if str_eq(key, "k") || str_eq(key, "ArrowUp") {
        InputAction::MoveUp
    } else if str_eq(key, "l") || str_eq(key, "ArrowRight") || str_eq(key, "Enter") {
        InputAction::MoveRight
    } else if str_eq(key, "Escape") {
        InputAction::Reset
    } else if str_eq(key, "/") {
        InputAction::FocusSearch
    } else if str_eq(key, "1") {
        InputAction::SelectEdge(0)
    } else if str_eq(key, "2") {
        InputAction::SelectEdge(1)
    } else if str_eq(key, "3") {
        InputAction::SelectEdge(2)
    } else if str_eq(key, "4") {
        InputAction::SelectEdge(3)
    } else if str_eq(key, "5") {
        InputAction::SelectEdge(4)
    } else if str_eq(key, "6") {
        InputAction::SelectEdge(5)
    } else if str_eq(key, "7") {
        InputAction::SelectEdge(6)
    } else if str_eq(key, "8") {
        InputAction::SelectEdge(7)
    } else if str_eq(key, "9") {
        InputAction::SelectEdge(8)
    } else {
        InputAction::NoOp
    }
}

} // verus!
