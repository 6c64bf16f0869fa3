use pika::config::theme::Theme;
use pika::editor::document::Document;
use pika::input::actions::Action;
use pika::ui::buffer::Buffer;
use pika::ui::csv_view::CsvView;
use pika::ui::editor::{is_csv_path, EditorPane, TabContent};
use pika::ui::AppCommand;

/// A file's path and contents, as a test directory would hold them.
struct TestFile {
    path: String,
    content: String,
}

fn setup_test_file() -> ((), TestFile) {
    let file = TestFile {
        path: "/tmp/pika-test/test.rs".to_string(),
        content: "fn main() {\n    println!(\"hello\");\n}\n".to_string(),
    };
    ((), file)
}

fn setup_csv_file() -> ((), TestFile) {
    let file = TestFile {
        path: "/tmp/pika-test/data.csv".to_string(),
        content: "name,age\nAlice,30\nBob,25\n".to_string(),
    };
    ((), file)
}

/// Open a file in the pane the way the application does: switch to its
/// tab when one with its name is open, otherwise read it into a new tab.
fn open(pane: &mut EditorPane, file: &TestFile) {
    if pane.select_open_tab(&file.path) {
        return;
    }
    let content = if is_csv_path(&file.path) {
        let mut rdr = csv::Reader::from_reader(file.content.as_bytes());
        let headers: Vec<String> = rdr.headers().unwrap().iter().map(|s| s.to_string()).collect();
        let rows: Vec<Vec<String>> = rdr
            .records()
            .map(|r| r.unwrap().iter().map(|s| s.to_string()).collect())
            .collect();
        TabContent::Csv(CsvView::from_records(file.path.clone(), headers, rows))
    } else {
        TabContent::Text(Buffer::with_document(Document::with_path(&file.path, &file.content)))
    };
    pane.push_tab(&file.path, content);
}

#[test]
fn test_editor_pane_new() {
    let pane = EditorPane::new(Theme::default());
    assert!(pane.tabs.is_empty());
    assert!(pane.tab_bar.is_empty());
}

#[test]
fn editor_test_open_file() {
    let (tmp, path) = setup_test_file();
    let mut pane = EditorPane::new(Theme::default());
    open(&mut pane, &path);
    assert_eq!(pane.tabs.len(), 1);
    assert_eq!(pane.tab_bar.len(), 1);
}

#[test]
fn test_open_csv_file() {
    let (_tmp, path) = setup_csv_file();
    let mut pane = EditorPane::new(Theme::default());
    open(&mut pane, &path);
    assert_eq!(pane.tabs.len(), 1);
    assert!(matches!(pane.tabs[0], TabContent::Csv(_)));
}

#[test]
fn test_open_same_file_twice() {
    let (tmp, path) = setup_test_file();
    let mut pane = EditorPane::new(Theme::default());
    open(&mut pane, &path);
    open(&mut pane, &path);
    assert_eq!(pane.tabs.len(), 1); // should not duplicate
}

#[test]
fn test_close_active_tab() {
    let (tmp, path) = setup_test_file();
    let mut pane = EditorPane::new(Theme::default());
    open(&mut pane, &path);
    let closed = pane.close_active_tab();
    assert!(closed.is_some());
    assert!(pane.tabs.is_empty());
}

#[test]
fn test_active_buffer_text() {
    let (tmp, path) = setup_test_file();
    let mut pane = EditorPane::new(Theme::default());
    assert!(pane.active_buffer().is_none());
    open(&mut pane, &path);
    assert!(pane.active_buffer().is_some());
}

#[test]
fn test_active_buffer_csv_returns_none() {
    let (_tmp, path) = setup_csv_file();
    let mut pane = EditorPane::new(Theme::default());
    open(&mut pane, &path);
    // CSV tab → active_buffer() returns None (it's not a text buffer)
    assert!(pane.active_buffer().is_none());
}

#[test]
fn editor_test_next_previous_tab() {
    let p1 = TestFile { path: "/tmp/pika-test/a.rs".to_string(), content: "// a".to_string() };
    let p2 = TestFile { path: "/tmp/pika-test/b.rs".to_string(), content: "// b".to_string() };

    let mut pane = EditorPane::new(Theme::default());
    open(&mut pane, &p1);
    open(&mut pane, &p2);
    assert_eq!(pane.tab_bar.active, 1);

    pane.handle_action(&Action::PreviousTab);
    assert_eq!(pane.tab_bar.active, 0);

    pane.handle_action(&Action::NextTab);
    assert_eq!(pane.tab_bar.active, 1);
}

#[test]
fn test_status_info_text() {
    let (tmp, path) = setup_test_file();
    let mut pane = EditorPane::new(Theme::default());
    open(&mut pane, &path);
    let info = pane.status_info();
    assert_eq!(info.file_name, "test.rs");
    assert!(!info.modified);
}

#[test]
fn test_status_info_csv() {
    let (_tmp, path) = setup_csv_file();
    let mut pane = EditorPane::new(Theme::default());
    open(&mut pane, &path);
    let info = pane.status_info();
    assert_eq!(info.file_name, "data.csv");
    assert_eq!(info.language, "csv");
}

#[test]
fn test_save_active_tab_text() {
    let (tmp, path) = setup_test_file();
    let mut pane = EditorPane::new(Theme::default());
    open(&mut pane, &path);

    pane.handle_action(&Action::InsertChar('X'));
    assert!(pane.tabs[0].is_modified());

    pane.mark_active_saved();
    assert!(!pane.tabs[0].is_modified());
}

#[test]
fn test_status_info_empty() {
    let pane = EditorPane::new(Theme::default());
    let info = pane.status_info();
    assert_eq!(info.file_name, "");
}

#[test]
fn test_handle_edit_action() {
    let (tmp, path) = setup_test_file();
    let mut pane = EditorPane::new(Theme::default());
    open(&mut pane, &path);

    let cmd = pane.handle_action(&Action::InsertChar('Z'));
    assert!(matches!(cmd, AppCommand::Nothing));
    if let TabContent::Text(buf) = &pane.tabs[0] {
        assert!(buf.document.line(0).starts_with("Z"));
    }
}

#[test]
fn test_csv_navigation_via_pane() {
    let (_tmp, path) = setup_csv_file();
    let mut pane = EditorPane::new(Theme::default());
    open(&mut pane, &path);
    pane.handle_action(&Action::CursorDown);
    if let TabContent::Csv(csv) = &pane.tabs[0] {
        assert_eq!(csv.cursor_row, 1);
    }
}
