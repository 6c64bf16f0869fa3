use pika::editor::cursor::Position;
use pika::input::actions::Action;
use pika::ui::buffer::Buffer;
use pika::ui::AppCommand;

fn test_buffer() -> Buffer {
    Buffer::from_text("hello world\nfoo bar\nbaz qux\n")
}

#[test]
fn test_buffer_from_text() {
    let buf = test_buffer();
    assert_eq!(buf.cursor.position, Position::new(0, 0));
    assert_eq!(buf.document.line_count(), 4); // trailing newline creates empty last line
}

#[test]
fn test_cursor_movement() {
    let mut buf = test_buffer();
    buf.move_cursor_right();
    assert_eq!(buf.cursor.position, Position::new(0, 1));
    buf.move_cursor_down();
    assert_eq!(buf.cursor.position, Position::new(1, 1));
    buf.move_cursor_left();
    assert_eq!(buf.cursor.position, Position::new(1, 0));
    buf.move_cursor_up();
    assert_eq!(buf.cursor.position, Position::new(0, 0));
}

#[test]
fn test_cursor_line_boundaries() {
    let mut buf = test_buffer();
    buf.move_cursor_line_end();
    assert_eq!(buf.cursor.position.col, 11); // "hello world"
    buf.move_cursor_line_start();
    assert_eq!(buf.cursor.position.col, 0);
}

#[test]
fn test_cursor_word_movement() {
    let mut buf = test_buffer();
    buf.move_cursor_word_right();
    assert_eq!(buf.cursor.position.col, 6); // after "hello "
    buf.move_cursor_word_left();
    assert_eq!(buf.cursor.position.col, 0);
}

#[test]
fn test_insert_char() {
    let mut buf = test_buffer();
    buf.insert_char('X');
    assert_eq!(buf.cursor.position, Position::new(0, 1));
    assert!(buf.document.line(0).starts_with("Xhello"));
}

#[test]
fn test_insert_newline() {
    let mut buf = test_buffer();
    buf.move_cursor_right();
    buf.move_cursor_right();
    buf.insert_newline();
    assert_eq!(buf.cursor.position, Position::new(1, 0));
    assert_eq!(buf.document.line(0).trim_end(), "he");
    assert!(buf.document.line(1).starts_with("llo"));
}

#[test]
fn test_delete_backward() {
    let mut buf = test_buffer();
    buf.move_cursor_right();
    buf.delete_backward();
    assert_eq!(buf.cursor.position, Position::new(0, 0));
    assert!(buf.document.line(0).starts_with("ello"));
}

#[test]
fn test_delete_backward_at_line_start() {
    let mut buf = test_buffer();
    buf.move_cursor_down();
    buf.delete_backward();
    assert_eq!(buf.cursor.position.line, 0);
    // Lines should be joined
}

#[test]
fn test_undo_redo() {
    let mut buf = test_buffer();
    let original = buf.document.text();
    buf.insert_char('Z');
    assert!(buf.document.line(0).starts_with("Z"));
    buf.undo();
    assert_eq!(buf.document.text(), original);
    buf.redo();
    assert!(buf.document.line(0).starts_with("Z"));
}

#[test]
fn test_select_all() {
    let mut buf = test_buffer();
    buf.select_all();
    let selected = buf.get_selected_text();
    assert!(selected.is_some());
    assert_eq!(selected.unwrap(), buf.document.text());
}

#[test]
fn buffer_test_page_up_down() {
    let mut buf = Buffer::from_text(&"line\n".repeat(100));
    buf.update_viewport(20, 80);
    buf.page_down();
    assert!(buf.cursor.position.line > 0);
    let pos = buf.cursor.position.line;
    buf.page_up();
    assert!(buf.cursor.position.line < pos);
}

#[test]
fn test_file_start_end() {
    let mut buf = test_buffer();
    buf.move_cursor_file_end();
    assert_eq!(buf.cursor.position.line, buf.document.line_count() - 1);
    buf.move_cursor_file_start();
    assert_eq!(buf.cursor.position, Position::new(0, 0));
}

#[test]
fn test_name_untitled() {
    let buf = Buffer::from_text("hello");
    assert_eq!(buf.name(), "untitled");
}

#[test]
fn test_gutter_width() {
    let buf = Buffer::from_text(&"line\n".repeat(99));
    assert!(buf.gutter_width() >= 4); // "99" + padding
}

#[test]
fn test_cursor_screen_position() {
    let mut buf = test_buffer();
    buf.move_cursor_right();
    buf.move_cursor_right();
    let (x, y) = buf.cursor_screen_position();
    let gutter = buf.gutter_width() as u16;
    assert_eq!(x, gutter + 2);
    assert_eq!(y, 0);
}

#[test]
fn test_scroll_on_cursor_movement() {
    let mut buf = Buffer::from_text(&"line\n".repeat(100));
    buf.update_viewport(10, 80);
    for _ in 0..20 {
        buf.move_cursor_down();
    }
    assert!(buf.scroll_offset > 0);
}

#[test]
fn test_handle_action_returns_command() {
    let mut buf = test_buffer();
    let cmd = buf.handle_action(&Action::SaveFile);
    assert!(matches!(cmd, AppCommand::SaveCurrentFile));
}

// -- Selection tests --

#[test]
fn test_select_right() {
    let mut buf = test_buffer();
    buf.select_right();
    buf.select_right();
    buf.select_right();
    assert!(buf.cursor.selection.is_some());
    let sel = buf.cursor.selection.unwrap();
    assert_eq!(sel.anchor, Position::new(0, 0));
    assert_eq!(sel.head, Position::new(0, 3));
}

#[test]
fn test_select_left() {
    let mut buf = test_buffer();
    buf.move_cursor_right();
    buf.move_cursor_right();
    buf.move_cursor_right();
    buf.select_left();
    buf.select_left();
    let sel = buf.cursor.selection.unwrap();
    assert_eq!(sel.anchor, Position::new(0, 3));
    assert_eq!(sel.head, Position::new(0, 1));
}

#[test]
fn test_select_down() {
    let mut buf = test_buffer();
    buf.select_down();
    let sel = buf.cursor.selection.unwrap();
    assert_eq!(sel.anchor, Position::new(0, 0));
    assert_eq!(sel.head, Position::new(1, 0));
}

#[test]
fn test_select_up() {
    let mut buf = test_buffer();
    buf.move_cursor_down();
    buf.move_cursor_down();
    buf.select_up();
    let sel = buf.cursor.selection.unwrap();
    assert_eq!(sel.anchor, Position::new(2, 0));
    assert_eq!(sel.head, Position::new(1, 0));
}

#[test]
fn test_select_word_right() {
    let mut buf = test_buffer();
    buf.select_word_right();
    let sel = buf.cursor.selection.unwrap();
    assert_eq!(sel.anchor, Position::new(0, 0));
    assert!(sel.head.col > 0); // should be past "hello"
}

#[test]
fn test_select_line_end() {
    let mut buf = test_buffer();
    buf.select_line_end();
    let sel = buf.cursor.selection.unwrap();
    assert_eq!(sel.anchor, Position::new(0, 0));
    assert_eq!(sel.head.col, 11); // "hello world"
}

#[test]
fn test_select_then_move_clears() {
    let mut buf = test_buffer();
    buf.select_right();
    buf.select_right();
    assert!(buf.cursor.selection.is_some());
    buf.move_cursor_right(); // normal move clears selection
    assert!(buf.cursor.selection.is_none());
}

#[test]
fn test_select_get_text() {
    let mut buf = test_buffer();
    buf.select_right();
    buf.select_right();
    buf.select_right();
    buf.select_right();
    buf.select_right();
    let text = buf.get_selected_text().unwrap();
    assert_eq!(text, "hello");
}

#[test]
fn test_select_collapses_to_none() {
    let mut buf = test_buffer();
    buf.select_right();
    assert!(buf.cursor.selection.is_some());
    buf.select_left(); // back to anchor
    assert!(buf.cursor.selection.is_none()); // collapsed
}

#[test]
fn test_select_multiline() {
    let mut buf = test_buffer();
    buf.select_down();
    buf.select_down();
    let text = buf.get_selected_text().unwrap();
    assert!(text.contains('\n'));
    assert!(text.contains("foo bar"));
}

// -- Clipboard tests --

#[test]
fn test_copy_paste() {
    let mut buf = test_buffer();
    // Select "hello"
    for _ in 0..5 {
        buf.select_right();
    }
    buf.copy_text();
    // Move to end of line
    buf.move_cursor_line_end();
    buf.paste_text();
    let line = buf.document.line(0);
    assert!(line.contains("hello worldhello"));
}

#[test]
fn test_cut() {
    let mut buf = test_buffer();
    // Select "hello"
    for _ in 0..5 {
        buf.select_right();
    }
    buf.cut_text();
    let line = buf.document.line(0);
    assert!(line.starts_with(" world"));
    // Paste it back
    buf.move_cursor_line_end();
    buf.paste_text();
    let line = buf.document.line(0);
    assert!(line.trim_end() == " worldhello");
}

#[test]
fn test_paste_replaces_selection() {
    let mut buf = test_buffer();
    // Copy "hello"
    for _ in 0..5 {
        buf.select_right();
    }
    buf.copy_text();
    // Clear selection and move to start of " world"
    buf.cursor.selection = None;
    // Now select " world" (6 chars from col 5)
    for _ in 0..6 {
        buf.select_right();
    }
    // Paste "hello" over " world"
    buf.paste_text();
    let line = buf.document.line(0);
    assert_eq!(line.trim_end(), "hellohello");
}

#[test]
fn test_type_replaces_selection() {
    let mut buf = test_buffer();
    for _ in 0..5 {
        buf.select_right();
    }
    buf.insert_char('X');
    let line = buf.document.line(0);
    assert!(line.starts_with("X world"));
}

#[test]
fn test_backspace_deletes_selection() {
    let mut buf = test_buffer();
    for _ in 0..5 {
        buf.select_right();
    }
    buf.delete_backward();
    let line = buf.document.line(0);
    assert!(line.starts_with(" world"));
    assert!(buf.cursor.selection.is_none());
}

#[test]
fn test_paste_multiline() {
    let mut buf = Buffer::from_text("start\nend\n");
    buf.move_cursor_line_end();
    buf.clipboard.set_text("\ninserted line");
    buf.paste_text();
    assert_eq!(buf.cursor.position.line, 1);
    assert!(buf.document.line(1).contains("inserted line"));
}

#[test]
fn test_search_activate_and_dismiss() {
    let buf = test_buffer();
    assert!(!buf.search.active);
    let mut buf = buf;
    buf.search.activate();
    assert!(buf.search.active);
    assert!(buf.search.query.is_empty());
    buf.search.dismiss();
    assert!(!buf.search.active);
}

#[test]
fn test_search_finds_matches() {
    let mut buf = Buffer::from_text("hello world\nfoo bar\nhello again\n");
    buf.search.activate();
    buf.search.query = "hello".to_string();
    buf.recompute_search();
    assert_eq!(buf.search.matches.len(), 2);
    assert_eq!(buf.search.matches[0], (0, 0));
    assert_eq!(buf.search.matches[1], (2, 0));
}

#[test]
fn test_search_case_insensitive() {
    let mut buf = Buffer::from_text("Hello HELLO hello\n");
    buf.search.activate();
    buf.search.query = "hello".to_string();
    buf.recompute_search();
    assert_eq!(buf.search.matches.len(), 3);
}

#[test]
fn test_search_navigate_matches() {
    let mut buf = Buffer::from_text("foo foo foo\n");
    buf.search.activate();
    buf.search.query = "foo".to_string();
    buf.recompute_search();
    assert_eq!(buf.search.matches.len(), 3);
    assert_eq!(buf.search.current, 0);
    // CursorDown advances
    buf.handle_action(&Action::CursorDown);
    assert_eq!(buf.search.current, 1);
    buf.handle_action(&Action::CursorDown);
    assert_eq!(buf.search.current, 2);
    // Wraps around
    buf.handle_action(&Action::CursorDown);
    assert_eq!(buf.search.current, 0);
    // CursorUp wraps backwards
    buf.handle_action(&Action::CursorUp);
    assert_eq!(buf.search.current, 2);
}

#[test]
fn test_search_ctrl_f_toggles() {
    let mut buf = test_buffer();
    buf.handle_action(&Action::FindInFile);
    assert!(buf.search.active);
    buf.handle_action(&Action::FindInFile);
    assert!(!buf.search.active);
}

#[test]
fn test_search_typing_updates_query() {
    let mut buf = Buffer::from_text("hello world\n");
    buf.handle_action(&Action::FindInFile);
    buf.handle_action(&Action::InsertChar('h'));
    buf.handle_action(&Action::InsertChar('e'));
    assert_eq!(buf.search.query, "he");
    assert!(!buf.search.matches.is_empty());
    buf.handle_action(&Action::DeleteBackward);
    assert_eq!(buf.search.query, "h");
}
