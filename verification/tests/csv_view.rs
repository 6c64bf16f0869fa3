use pika::input::actions::Action;
use pika::ui::csv_view::CsvView;

/// A table read from CSV text, as the file reader builds it.
fn make_csv(content: &str) -> CsvView {
    CsvView::from_csv_bytes("test.csv".to_string(), content.as_bytes()).unwrap()
}

#[test]
fn test_parse_simple_csv() {
    let view = make_csv("name,age\nAlice,30\nBob,25\n");
    assert_eq!(view.headers, vec!["name", "age"]);
    assert_eq!(view.rows.len(), 2);
    assert_eq!(view.rows[0], vec!["Alice", "30"]);
}

#[test]
fn test_initial_cursor() {
    let view = make_csv("a,b\n1,2\n");
    assert_eq!(view.cursor_row, 0);
    assert_eq!(view.cursor_col, 0);
    assert!(!view.editing);
    assert!(!view.modified);
}

#[test]
fn test_navigate_down_up() {
    let mut view = make_csv("a,b\n1,2\n3,4\n");
    view.handle_action(&Action::CursorDown);
    assert_eq!(view.cursor_row, 1);
    view.handle_action(&Action::CursorUp);
    assert_eq!(view.cursor_row, 0);
    // Can't go above 0
    view.handle_action(&Action::CursorUp);
    assert_eq!(view.cursor_row, 0);
}

#[test]
fn test_navigate_right_left() {
    let mut view = make_csv("a,b,c\n1,2,3\n");
    view.handle_action(&Action::CursorRight);
    assert_eq!(view.cursor_col, 1);
    view.handle_action(&Action::CursorLeft);
    assert_eq!(view.cursor_col, 0);
    // Can't go left of 0
    view.handle_action(&Action::CursorLeft);
    assert_eq!(view.cursor_col, 0);
}

#[test]
fn test_enter_edit_mode() {
    let mut view = make_csv("a,b\nfoo,bar\n");
    view.handle_action(&Action::InsertNewline);
    assert!(view.editing);
    assert_eq!(view.edit_buffer, "foo"); // existing content loaded
}

#[test]
fn test_type_to_start_edit() {
    let mut view = make_csv("a,b\nfoo,bar\n");
    view.handle_action(&Action::InsertChar('x'));
    assert!(view.editing);
    assert_eq!(view.edit_buffer, "foox"); // preserves existing content, appends char
}

#[test]
fn test_edit_and_confirm() {
    let mut view = make_csv("a,b\nfoo,bar\n");
    view.handle_action(&Action::InsertNewline); // enter edit
    view.handle_action(&Action::InsertChar('z'));
    view.handle_action(&Action::InsertNewline); // confirm
    assert!(!view.editing);
    assert_eq!(view.rows[0][0], "fooz");
    assert!(view.modified);
}

#[test]
fn test_edit_cancel_with_undo() {
    let mut view = make_csv("a,b\nfoo,bar\n");
    view.handle_action(&Action::InsertNewline);
    view.handle_action(&Action::InsertChar('x'));
    view.handle_action(&Action::Undo); // cancel
    assert!(!view.editing);
    assert_eq!(view.rows[0][0], "foo"); // unchanged
    assert!(!view.modified);
}

#[test]
fn test_delete_clears_cell() {
    let mut view = make_csv("a,b\nfoo,bar\n");
    view.handle_action(&Action::DeleteBackward);
    assert_eq!(view.rows[0][0], "");
    assert!(view.modified);
}


#[test]
fn test_col_widths() {
    let view = make_csv("name,age\nAlice,30\n");
    let widths = view.col_widths();
    // "name" = 4, "Alice" = 5 → max=5, +2=7
    assert_eq!(widths[0], 7);
    // "age" = 3, "30" = 2 → max=3, +2=5
    assert_eq!(widths[1], 5);
}

#[test]
fn test_tab_moves_to_next_col() {
    let mut view = make_csv("a,b,c\n1,2,3\n");
    view.handle_action(&Action::InsertTab);
    assert_eq!(view.cursor_col, 1);
    view.handle_action(&Action::InsertTab);
    assert_eq!(view.cursor_col, 2);
    // Wrap around to col 0, row 0 (only 1 row)
    view.handle_action(&Action::InsertTab);
    assert_eq!(view.cursor_col, 0);
}

#[test]
fn csv_view_test_page_up_down() {
    let content = "a\n".to_string()
        + &(0..20).map(|i| format!("{}\n", i)).collect::<String>();
    let mut view = make_csv(&content);
    view.update_viewport(10, 40);
    view.handle_action(&Action::PageDown);
    assert!(view.cursor_row > 0);
    view.handle_action(&Action::PageUp);
    assert_eq!(view.cursor_row, 0);
}

#[test]
fn visible_columns_start_within_width() {
    // Widths: name 7, age 5, city 6.
    let mut view = make_csv("name,age,city\nAlice,30,NYC\n");
    assert_eq!(view.col_widths(), vec![7, 5, 6]);
    assert_eq!(view.visible_columns(10), vec![0, 1]);
    assert_eq!(view.visible_columns(12), vec![0, 1, 2]);
    assert_eq!(view.visible_columns(0), vec![0]);
    view.scroll_col = 1;
    assert_eq!(view.visible_columns(4), vec![1]);
    assert_eq!(view.visible_columns(5), vec![1, 2]);
    view.scroll_col = 3;
    assert!(view.visible_columns(80).is_empty());
}

#[test]
fn from_csv_bytes_quoted_fields_and_errors() {
    let view = make_csv("a,b\n\"x, y\",2\n");
    assert_eq!(view.headers, vec!["a", "b"]);
    assert_eq!(view.rows, vec![vec!["x, y".to_string(), "2".to_string()]]);
    // Records of unequal length are an error for the default reader.
    assert!(CsvView::from_csv_bytes("t.csv".to_string(), b"a,b\n1,2,3\n").is_none());
}

#[test]
fn truncate_counts_characters() {
    assert_eq!(CsvView::truncate("héllo", 5), "héllo");
    assert_eq!(CsvView::truncate("héllo", 4), "hél…");
    assert_eq!(CsvView::truncate("héllo", 1), "…");
    assert_eq!(CsvView::truncate("", 0), "");
}
