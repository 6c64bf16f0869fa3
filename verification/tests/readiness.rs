use pika::app::App;
use pika::config::settings::Settings;
use pika::editor::cursor::{Position, Selection};
use pika::editor::document::Document;
use pika::editor::history::{Edit, UndoHistory};
use pika::files::tree::FileNode;
use pika::input::actions::Action;
use pika::ui::buffer::Buffer;
use pika::ui::completion::{CompletionItem, CompletionKind};
use pika::ui::editor::{retype_fits, TabContent};
use pika::ui::AppCommand;

const ROOT: &str = "/tmp/pika-ready";

fn app_with_text(text: &str) -> App {
    let root = FileNode {
        name: "pika-ready".to_string(),
        path: ROOT.to_string(),
        is_dir: true,
        children: Vec::new(),
        expanded: true,
        depth: 0,
    };
    let mut app = App::new(ROOT.to_string(), Settings::default(), root);
    let path = format!("{}/a.txt", ROOT);
    let effects = app.execute_command(AppCommand::OpenFile(path.clone()));
    assert_eq!(effects.len(), 1);
    let tab = TabContent::Text(Buffer::with_document(Document::with_path(&path, text)));
    app.file_opened(path, tab, None);
    app
}

#[test]
fn fresh_buffer_is_ready_for_edits_and_history() {
    let buf = Buffer::from_text("hello\nworld");
    assert!(buf.is_ready_for(&Action::InsertChar('x')));
    assert!(buf.is_ready_for(&Action::InsertNewline));
    assert!(buf.is_ready_for(&Action::DeleteBackward));
    assert!(buf.is_ready_for(&Action::DeleteForward));
    assert!(buf.is_ready_for(&Action::Undo));
    assert!(buf.is_ready_for(&Action::Redo));
    assert!(buf.is_ready_for(&Action::SelectNextOccurrence));
    assert!(buf.is_ready_for(&Action::PasteText("a\nb".to_string())));
}

#[test]
fn selection_outside_the_text_is_not_ready() {
    let mut buf = Buffer::from_text("abc");
    buf.cursor.selection = Some(Selection::new(Position::new(0, 0), Position::new(5, 0)));
    assert!(!buf.is_ready_for(&Action::Cut));
    assert!(!buf.is_ready_for(&Action::Copy));
    assert!(!buf.is_ready_for(&Action::InsertChar('x')));
    buf.cursor.selection = Some(Selection::new(Position::new(0, 3), Position::new(0, 1)));
    assert!(buf.is_ready_for(&Action::Cut));
}

#[test]
fn cursor_outside_the_text_is_not_ready_to_type() {
    let mut buf = Buffer::from_text("abc");
    buf.cursor.position = Position::new(3, 0);
    assert!(!buf.is_ready_for(&Action::InsertChar('x')));
    assert!(!buf.is_ready_for(&Action::Paste));
    assert!(buf.is_ready_for(&Action::CursorLeft));
}

#[test]
fn undo_of_an_edit_that_no_longer_fits_is_not_ready() {
    let mut buf = Buffer::from_text("abc");
    buf.insert_char('x');
    assert!(buf.is_ready_for(&Action::Undo));
    // The text changes behind the history's back: the recorded insertion
    // can no longer be taken out where it was made.
    buf.document = Document::from_text("");
    buf.cursor.position = Position::new(0, 0);
    assert!(!buf.is_ready_for(&Action::Undo));
}

#[test]
fn group_applies_tries_edits_in_turn() {
    let buf = Buffer::from_text("ab");
    let fits = vec![Edit::insert(0, 1, "xy"), Edit::delete(0, 0, "a")];
    assert!(buf.group_applies(&fits));
    let off = vec![Edit::insert(0, 1, "x"), Edit::insert(4, 0, "y")];
    assert!(!buf.group_applies(&off));
}

#[test]
fn peek_shows_the_next_undo_and_redo_without_taking_them() {
    let mut h = UndoHistory::new();
    assert!(h.peek_undo().is_none());
    h.record(Edit::insert(0, 0, "ab"));
    assert_eq!(h.peek_undo(), Some(vec![Edit::delete(0, 0, "ab")]));
    assert!(h.can_undo());
    assert!(h.peek_redo().is_none());
    let undone = h.undo();
    assert_eq!(undone, Some(vec![Edit::delete(0, 0, "ab")]));
    assert_eq!(h.peek_redo(), Some(vec![Edit::insert(0, 0, "ab")]));
    assert!(h.can_redo());
}

#[test]
fn undo_gives_back_the_text_after_each_kind_of_edit() {
    let start = "one\ntwo\nthree";
    let mut buf = Buffer::from_text(start);
    buf.cursor.position = Position::new(1, 3);
    buf.insert_newline();
    buf.undo();
    assert_eq!(buf.document.text(), start);
    buf.cursor.position = Position::new(1, 0);
    buf.cursor.selection = None;
    buf.delete_backward();
    assert_eq!(buf.document.text(), "onetwo\nthree");
    buf.undo();
    assert_eq!(buf.document.text(), start);
    buf.cursor.position = Position::new(0, 3);
    buf.delete_forward();
    assert_eq!(buf.document.text(), "onetwo\nthree");
    buf.undo();
    assert_eq!(buf.document.text(), start);
    buf.cursor.selection = Some(Selection::new(Position::new(0, 1), Position::new(2, 2)));
    buf.cut_text();
    assert_eq!(buf.document.text(), "oree");
    buf.undo();
    assert_eq!(buf.document.text(), start);
    buf.cursor.selection = None;
    buf.cursor.position = Position::new(2, 5);
    buf.paste_text_content("\nfour\nfive");
    buf.insert_tab(4);
    assert_eq!(buf.document.text(), "one\ntwo\nthree\nfour\nfive    ");
    buf.undo();
    buf.undo();
    assert_eq!(buf.document.text(), start);
    buf.redo();
    buf.redo();
    assert_eq!(buf.document.text(), "one\ntwo\nthree\nfour\nfive    ");
}

#[test]
fn undo_after_a_recorded_group_gives_back_the_text() {
    let mut buf = Buffer::from_text("abc");
    buf.history.begin_group();
    buf.history.record(Edit::insert(0, 3, "d"));
    buf.document.insert_text(Position::new(0, 3), "d");
    buf.history.record(Edit::delete(0, 0, "a"));
    buf.document.delete_range(Position::new(0, 0), Position::new(0, 1));
    buf.history.end_group();
    assert_eq!(buf.document.text(), "bcd");
    assert!(buf.is_ready_for(&Action::Undo));
    buf.undo();
    assert_eq!(buf.document.text(), "abc");
}

#[test]
fn retype_fits_checks_backspaces_then_typing() {
    let mut buf = Buffer::from_text("pr");
    buf.cursor.position = Position::new(0, 2);
    assert!(retype_fits(&buf, 2, "println!()"));
    buf.cursor.position = Position::new(4, 0);
    assert!(!retype_fits(&buf, 0, "x"));
}

#[test]
fn app_checks_readiness_before_dispatch() {
    let mut app = app_with_text("pr");
    assert!(app.is_ready_for(&Action::InsertChar('x')));
    assert!(app.is_ready_for(&Action::Undo));
    if let Some(TabContent::Text(b)) = app.editor.tabs.get_mut(0) {
        b.cursor.position = Position::new(0, 2);
    }
    app.completions_arrived(vec![CompletionItem {
        label: "println!".to_string(),
        detail: None,
        kind: CompletionKind::Function,
        insert_text: "println!($0)".to_string(),
    }]);
    if app.completion.visible {
        assert!(app.is_ready_for(&Action::CompletionAccept));
    }
    if let Some(TabContent::Text(b)) = app.editor.tabs.get_mut(0) {
        b.cursor.position = Position::new(7, 0);
    }
    assert!(!app.is_ready_for(&Action::InsertChar('x')));
}

#[test]
fn dispatching_edits_keeps_undo_ready() {
    let mut app = app_with_text("ab\ncd");
    app.dispatch_action(Action::ToggleSidebar);
    if let Some(TabContent::Text(b)) = app.editor.tabs.get_mut(0) {
        b.cursor.position = Position::new(1, 1);
    }
    for action in [Action::InsertChar('x'), Action::InsertNewline, Action::DeleteBackward, Action::DeleteForward] {
        assert!(app.is_ready_for(&action));
        app.dispatch_action(action);
        assert!(app.is_ready_for(&Action::Undo));
    }
    for _ in 0..4 {
        assert!(app.is_ready_for(&Action::Undo));
        app.dispatch_action(Action::Undo);
    }
    assert_eq!(app.editor.active_buffer().unwrap().document.text(), "ab\ncd");
}

#[test]
fn undo_after_joining_crlf_lines_leaves_a_bare_newline() {
    // The backspace removes the whole "\r\n" but records only "\n", so the
    // undo cannot give the carriage return back.
    let mut buf = Buffer::from_text("a\r\nb");
    buf.cursor.position = Position::new(1, 0);
    buf.delete_backward();
    assert_eq!(buf.document.text(), "ab");
    buf.undo();
    assert_eq!(buf.document.text(), "a\nb");
}

#[test]
fn replacing_a_match_is_not_recorded_for_undo() {
    let mut buf = Buffer::from_text("");
    buf.insert_char('x');
    buf.handle_action(&Action::FindAndReplace);
    buf.handle_action(&Action::InsertChar('x'));
    buf.handle_action(&Action::InsertTab);
    buf.handle_action(&Action::InsertChar('y'));
    buf.handle_action(&Action::InsertChar('y'));
    buf.handle_action(&Action::InsertNewline);
    assert_eq!(buf.document.text(), "yy");
    buf.handle_action(&Action::FindAndReplace);
    buf.undo();
    assert_eq!(buf.document.text(), "y");
}

#[test]
fn undo_gives_back_typing_and_deleting_in_a_crlf_text() {
    let start = "ab\r\ncd";
    let mut buf = Buffer::from_text(start);
    buf.cursor.position = Position::new(1, 1);
    buf.insert_char('x');
    assert_eq!(buf.document.text(), "ab\r\ncxd");
    buf.undo();
    assert_eq!(buf.document.text(), start);
    buf.cursor.position = Position::new(0, 1);
    buf.delete_forward();
    assert_eq!(buf.document.text(), "a\r\ncd");
    buf.undo();
    assert_eq!(buf.document.text(), start);
    buf.cursor.position = Position::new(1, 2);
    buf.delete_backward();
    assert_eq!(buf.document.text(), "ab\r\nc");
    buf.undo();
    assert_eq!(buf.document.text(), start);
    assert!(buf.is_ready_for(&Action::Redo));
    buf.cursor.position = Position::new(0, 0);
    buf.insert_tab(4);
    buf.paste_text_content("yz");
    assert_eq!(buf.document.text(), "    yzab\r\ncd");
    buf.undo();
    buf.undo();
    assert_eq!(buf.document.text(), start);
}
