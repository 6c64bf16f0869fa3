use pika::editor::cursor::{CursorState, Position, Selection};

// ── Position tests ──────────────────────────────────────────────

#[test]
fn position_new_and_zero() {
    let p = Position::new(3, 7);
    assert_eq!(p.line, 3);
    assert_eq!(p.col, 7);

    let z = Position::zero();
    assert_eq!(z.line, 0);
    assert_eq!(z.col, 0);
}

#[test]
fn position_ordering() {
    let a = Position::new(0, 5);
    let b = Position::new(1, 0);
    let c = Position::new(1, 3);
    let d = Position::new(1, 3);

    assert!(a < b);
    assert!(b < c);
    assert_eq!(c, d);
    assert!(a < c);
}

#[test]
fn position_ordering_same_line() {
    let a = Position::new(2, 0);
    let b = Position::new(2, 5);
    assert!(a < b);
    assert!(b > a);
}

#[test]
fn position_eq() {
    assert_eq!(Position::new(0, 0), Position::zero());
    assert_ne!(Position::new(0, 1), Position::zero());
}

// ── Selection tests ─────────────────────────────────────────────

#[test]
fn selection_is_empty() {
    let sel = Selection::new(Position::new(1, 2), Position::new(1, 2));
    assert!(sel.is_empty());

    let sel2 = Selection::new(Position::new(1, 2), Position::new(1, 3));
    assert!(!sel2.is_empty());
}

#[test]
fn selection_ordered_forward() {
    let anchor = Position::new(1, 0);
    let head = Position::new(2, 5);
    let sel = Selection::new(anchor, head);
    let (start, end) = sel.ordered();
    assert_eq!(start, anchor);
    assert_eq!(end, head);
}

#[test]
fn selection_ordered_backward() {
    let anchor = Position::new(3, 10);
    let head = Position::new(1, 2);
    let sel = Selection::new(anchor, head);
    let (start, end) = sel.ordered();
    assert_eq!(start, head);
    assert_eq!(end, anchor);
}

#[test]
fn selection_contains_inside() {
    let sel = Selection::new(Position::new(1, 0), Position::new(1, 10));
    assert!(sel.contains(Position::new(1, 0)));
    assert!(sel.contains(Position::new(1, 5)));
    assert!(sel.contains(Position::new(1, 9)));
}

#[test]
fn selection_contains_excludes_end() {
    let sel = Selection::new(Position::new(1, 0), Position::new(1, 10));
    assert!(!sel.contains(Position::new(1, 10)));
}

#[test]
fn selection_contains_outside() {
    let sel = Selection::new(Position::new(1, 5), Position::new(3, 2));
    assert!(!sel.contains(Position::new(0, 0)));
    assert!(!sel.contains(Position::new(1, 4)));
    assert!(!sel.contains(Position::new(3, 2)));
    assert!(!sel.contains(Position::new(4, 0)));
}

#[test]
fn selection_contains_multiline() {
    let sel = Selection::new(Position::new(1, 5), Position::new(3, 2));
    assert!(sel.contains(Position::new(1, 5)));
    assert!(sel.contains(Position::new(2, 0)));
    assert!(sel.contains(Position::new(2, 100)));
    assert!(sel.contains(Position::new(3, 1)));
}

#[test]
fn selection_contains_backward_selection() {
    // anchor after head — should still work via ordered()
    let sel = Selection::new(Position::new(3, 2), Position::new(1, 5));
    assert!(sel.contains(Position::new(1, 5)));
    assert!(sel.contains(Position::new(2, 0)));
    assert!(!sel.contains(Position::new(3, 2)));
}

// ── CursorState tests ───────────────────────────────────────────

#[test]
fn cursor_state_default() {
    let cs = CursorState::new();
    assert_eq!(cs.position, Position::zero());
    assert!(cs.selection.is_none());
    assert_eq!(cs.desired_col, 0);
}

#[test]
fn cursor_state_at() {
    let cs = CursorState::at(5, 10);
    assert_eq!(cs.position, Position::new(5, 10));
    assert_eq!(cs.desired_col, 10);
    assert!(cs.selection.is_none());
}

#[test]
fn cursor_state_move_to() {
    let mut cs = CursorState::at(0, 0);
    cs.select_to(0, 5);
    assert!(cs.has_selection());

    cs.move_to(2, 3);
    assert_eq!(cs.position, Position::new(2, 3));
    assert!(!cs.has_selection());
    assert_eq!(cs.desired_col, 3);
}

#[test]
fn cursor_state_move_vertically_preserves_desired_col() {
    let mut cs = CursorState::at(0, 20);
    // Move to a short line (length 5): column clamped but desired_col preserved
    cs.move_vertically(1, 5);
    assert_eq!(cs.position, Position::new(1, 5));
    assert_eq!(cs.desired_col, 20);

    // Move to a longer line: column restored
    cs.move_vertically(2, 30);
    assert_eq!(cs.position, Position::new(2, 20));
    assert_eq!(cs.desired_col, 20);
}

#[test]
fn cursor_state_move_vertically_clears_selection() {
    let mut cs = CursorState::at(0, 5);
    cs.select_to(0, 10);
    assert!(cs.has_selection());

    cs.move_vertically(1, 20);
    assert!(!cs.has_selection());
}

#[test]
fn cursor_state_select_to_creates_selection() {
    let mut cs = CursorState::at(1, 0);
    cs.select_to(1, 5);
    assert!(cs.has_selection());
    let sel = cs.selection.unwrap();
    assert_eq!(sel.anchor, Position::new(1, 0));
    assert_eq!(sel.head, Position::new(1, 5));
}

#[test]
fn cursor_state_select_to_extends_selection() {
    let mut cs = CursorState::at(1, 0);
    cs.select_to(1, 5);
    cs.select_to(2, 3);
    let sel = cs.selection.unwrap();
    // Anchor stays at original position
    assert_eq!(sel.anchor, Position::new(1, 0));
    assert_eq!(sel.head, Position::new(2, 3));
}

#[test]
fn cursor_state_clear_selection() {
    let mut cs = CursorState::at(0, 0);
    cs.select_to(1, 5);
    assert!(cs.has_selection());
    cs.clear_selection();
    assert!(!cs.has_selection());
    // Position unchanged
    assert_eq!(cs.position, Position::new(1, 5));
}

#[test]
fn cursor_state_has_selection_false_for_empty() {
    let mut cs = CursorState::at(1, 5);
    cs.select_to(1, 5); // same position => empty selection
    assert!(!cs.has_selection());
}

#[test]
fn cursor_state_default_trait() {
    let cs: CursorState = Default::default();
    assert_eq!(cs, CursorState::new());
}
