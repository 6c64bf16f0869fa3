use pika::app::{ext_to_lang_id, file_uri, strip_snippets, App, Effect};
use pika::config::settings::Settings;
use pika::editor::document::Document;
use pika::files::tree::FileNode;
use pika::input::actions::{Action, FocusArea};
use pika::ui::buffer::Buffer;
use pika::ui::completion::{CompletionItem, CompletionKind};
use pika::ui::confirm_dialog::{ConfirmAction, ConfirmResult};
use pika::ui::editor::TabContent;
use pika::ui::project_search::SearchResult;
use pika::ui::AppCommand;

const ROOT: &str = "/tmp/pika-app";

fn node(name: &str, path: &str, is_dir: bool, children: Vec<FileNode>, depth: usize) -> FileNode {
    FileNode {
        name: name.to_string(),
        path: path.to_string(),
        is_dir,
        children,
        expanded: is_dir && depth == 0,
        depth,
    }
}

/// The tree of a small project: `src/main.rs` and `Cargo.toml`.
fn test_tree() -> FileNode {
    let main = node("main.rs", "/tmp/pika-app/src/main.rs", false, vec![], 2);
    let src = node("src", "/tmp/pika-app/src", true, vec![main], 1);
    let cargo = node("Cargo.toml", "/tmp/pika-app/Cargo.toml", false, vec![], 1);
    node("pika-app", ROOT, true, vec![src, cargo], 0)
}

fn setup_test_app() -> ((), App) {
    let app = App::new(ROOT.to_string(), Settings::default(), test_tree());
    ((), app)
}

/// Read `path` (holding `text`) into a tab, as the caller does for an
/// `OpenFile` effect.
fn open_text(app: &mut App, path: &str, text: &str) -> Vec<Effect> {
    let effects = app.execute_command(AppCommand::OpenFile(path.to_string()));
    match &effects[..] {
        [Effect::OpenFile { path: p, line }] => {
            let tab = TabContent::Text(Buffer::with_document(Document::with_path(p, text)));
            app.file_opened(p.clone(), tab, *line)
        }
        _ => effects,
    }
}

#[test]
fn test_app_new() {
    let (_tmp, app) = setup_test_app();
    assert!(app.running);
    assert_eq!(app.focus, FocusArea::Sidebar);
    assert!(app.sidebar.visible);
}

#[test]
fn test_toggle_sidebar() {
    let (_tmp, mut app) = setup_test_app();
    assert!(app.sidebar.visible);
    app.execute_command(AppCommand::ToggleSidebar);
    assert!(!app.sidebar.visible);
    assert_eq!(app.focus, FocusArea::Editor);
}

#[test]
fn test_focus_cycling() {
    let (_tmp, mut app) = setup_test_app();
    assert_eq!(app.focus, FocusArea::Sidebar);
    app.execute_command(AppCommand::FocusNext);
    assert_eq!(app.focus, FocusArea::Editor);
    app.execute_command(AppCommand::FocusNext);
    assert_eq!(app.focus, FocusArea::Sidebar);
}

#[test]
fn app_test_open_file() {
    let (_tmp, mut app) = setup_test_app();
    let path = "/tmp/pika-app/src/main.rs";
    open_text(&mut app, path, "fn main() {}");
    assert_eq!(app.editor.tabs.len(), 1);
    assert_eq!(app.focus, FocusArea::Editor);
}

#[test]
fn test_quit() {
    let (_tmp, mut app) = setup_test_app();
    assert!(app.running);
    app.execute_command(AppCommand::Quit);
    assert!(!app.running);
}

#[test]
fn test_dispatch_action() {
    let (_tmp, mut app) = setup_test_app();
    app.dispatch_action(Action::ToggleSidebar);
    assert!(!app.sidebar.visible);
}

#[test]
fn test_command_palette_show() {
    let (_tmp, mut app) = setup_test_app();
    let effects = app.execute_command(AppCommand::ShowCommandPalette);
    assert_eq!(effects, vec![Effect::CollectFiles]);
    app.command_palette.show(vec![]);
    assert!(app.command_palette.visible);
}

#[test]
fn test_close_tab_empty() {
    let (_tmp, mut app) = setup_test_app();
    app.execute_command(AppCommand::CloseCurrentTab);
    assert!(app.editor.tabs.is_empty());
}

#[test]
fn test_save_no_buffer() {
    let (_tmp, mut app) = setup_test_app();
    // Should not panic
    let effects = app.execute_command(AppCommand::SaveCurrentFile);
    assert!(effects.is_empty());
}

#[test]
fn test_sidebar_hidden_focus_stays_editor() {
    let (_tmp, mut app) = setup_test_app();
    app.focus = FocusArea::Editor;
    app.execute_command(AppCommand::ToggleSidebar);
    assert_eq!(app.focus, FocusArea::Editor);
    // Focus next should not switch to sidebar when hidden
    app.execute_command(AppCommand::FocusNext);
    assert_eq!(app.focus, FocusArea::Editor);
}

#[test]
fn test_dispatch_none_action() {
    let (_tmp, mut app) = setup_test_app();
    // Should be a no-op
    let effects = app.dispatch_action(Action::Noop);
    assert!(effects.is_empty());
    assert!(app.running);
}

#[test]
fn test_strip_snippets() {
    assert_eq!(strip_snippets("foo($1, ${2:bar})$0"), "foo(, )");
    assert_eq!(strip_snippets("plain"), "plain");
    assert_eq!(strip_snippets("a$12b"), "ab");
    assert_eq!(strip_snippets("x${unclosed"), "x");
    assert_eq!(strip_snippets("cost $"), "cost ");
}

#[test]
fn test_ext_to_lang_id() {
    assert_eq!(ext_to_lang_id("rs"), "rust");
    assert_eq!(ext_to_lang_id("tsx"), "typescriptreact");
    assert_eq!(ext_to_lang_id("h"), "c");
    assert_eq!(ext_to_lang_id("hpp"), "cpp");
    assert_eq!(ext_to_lang_id("md"), "plaintext");
    assert_eq!(ext_to_lang_id(""), "plaintext");
}

#[test]
fn test_file_uri() {
    assert_eq!(file_uri("/tmp/x.rs"), "file:///tmp/x.rs");
    assert_eq!(file_uri(""), "file://");
}

#[test]
fn test_open_already_open_file_switches_tab() {
    let (_tmp, mut app) = setup_test_app();
    open_text(&mut app, "/tmp/pika-app/src/main.rs", "fn main() {}");
    open_text(&mut app, "/tmp/pika-app/Cargo.toml", "[package]");
    assert_eq!(app.editor.tab_bar.active, 1);
    let effects = app.execute_command(AppCommand::OpenFile("/tmp/pika-app/src/main.rs".to_string()));
    assert_eq!(effects, vec![Effect::LspDidOpen("/tmp/pika-app/src/main.rs".to_string())]);
    assert_eq!(app.editor.tabs.len(), 2);
    assert_eq!(app.editor.tab_bar.active, 0);
}

#[test]
fn test_file_opened_jumps_to_line() {
    let (_tmp, mut app) = setup_test_app();
    let tab = TabContent::Text(Buffer::with_document(Document::with_path("/tmp/pika-app/a.txt", "one\ntwo\nthree")));
    let effects = app.file_opened("/tmp/pika-app/a.txt".to_string(), tab, Some(7));
    assert_eq!(effects, vec![Effect::LspDidOpen("/tmp/pika-app/a.txt".to_string())]);
    let buf = app.editor.active_buffer().unwrap();
    assert_eq!(buf.cursor.position.line, 2);
    assert_eq!(buf.cursor.position.col, 0);
}

#[test]
fn test_quit_with_unsaved_changes_asks() {
    let (_tmp, mut app) = setup_test_app();
    open_text(&mut app, "/tmp/pika-app/src/main.rs", "fn main() {}");
    app.dispatch_action(Action::InsertChar('x'));
    assert!(app.editor.tabs[0].is_modified());
    let effects = app.dispatch_action(Action::Quit);
    assert!(app.running);
    assert!(app.confirm_dialog.visible);
    assert_eq!(app.confirm_dialog.file_name, "main.rs");
    assert_eq!(app.confirm_dialog.action, Some(ConfirmAction::Quit));
    assert!(effects.is_empty());
    // Enter accepts the selected "Save": every modified tab is saved.
    let effects = app.dispatch_action(Action::InsertNewline);
    assert!(!app.running);
    assert!(!app.confirm_dialog.visible);
    assert_eq!(effects, vec![Effect::SaveTab(0)]);
}

#[test]
fn test_close_modified_tab_dont_save() {
    let (_tmp, mut app) = setup_test_app();
    open_text(&mut app, "/tmp/pika-app/src/main.rs", "fn main() {}");
    app.dispatch_action(Action::InsertChar('x'));
    app.dispatch_action(Action::CloseTab);
    assert_eq!(app.confirm_dialog.action, Some(ConfirmAction::CloseTab(0)));
    // Move to "Don't save" and accept.
    app.dispatch_action(Action::CursorRight);
    let effects = app.dispatch_action(Action::InsertNewline);
    assert!(effects.is_empty());
    assert!(app.editor.tabs.is_empty());
}

#[test]
fn test_confirm_results() {
    let (_tmp, mut app) = setup_test_app();
    let effects = app.handle_confirm_result(ConfirmResult::Save, Some(ConfirmAction::CloseTab(0)));
    assert_eq!(effects, vec![Effect::SaveActiveTab, Effect::CloseActiveTab]);
    let effects = app.handle_confirm_result(
        ConfirmResult::Save,
        Some(ConfirmAction::DeleteFile("/tmp/pika-app/Cargo.toml".to_string())),
    );
    assert_eq!(
        effects,
        vec![Effect::Trash("/tmp/pika-app/Cargo.toml".to_string()), Effect::RefreshTree]
    );
    let effects = app.handle_confirm_result(ConfirmResult::Cancel, Some(ConfirmAction::Quit));
    assert!(effects.is_empty());
    assert!(app.running);
    let effects = app.handle_confirm_result(ConfirmResult::DontSave, None);
    assert!(effects.is_empty());
    assert!(app.running);
}

#[test]
fn test_file_commands_effects() {
    let (_tmp, mut app) = setup_test_app();
    let effects = app.execute_command(AppCommand::FileRename {
        from: "/tmp/pika-app/Cargo.toml".to_string(),
        to: "Other.toml".to_string(),
    });
    assert_eq!(
        effects,
        vec![
            Effect::Rename {
                from: "/tmp/pika-app/Cargo.toml".to_string(),
                to: "/tmp/pika-app/Other.toml".to_string()
            },
            Effect::RefreshTree
        ]
    );
    let effects = app.execute_command(AppCommand::DirNew("/tmp/pika-app/new".to_string()));
    assert_eq!(effects, vec![Effect::CreateDir("/tmp/pika-app/new".to_string()), Effect::RefreshTree]);
    // The root is selected, so copies go into it.
    let effects = app.execute_command(AppCommand::FileCopy("/tmp/elsewhere/notes.md".to_string()));
    assert_eq!(
        effects,
        vec![
            Effect::Copy {
                from: "/tmp/elsewhere/notes.md".to_string(),
                to: "/tmp/pika-app/notes.md".to_string()
            },
            Effect::RefreshTree
        ]
    );
    app.execute_command(AppCommand::FileDelete("/tmp/pika-app/Cargo.toml".to_string()));
    assert!(app.confirm_dialog.visible);
    assert_eq!(app.confirm_dialog.file_name, "Cargo.toml");
}

#[test]
fn test_file_drop_copies_into_selected_dir() {
    let (_tmp, mut app) = setup_test_app();
    let effects = app.dispatch_action(Action::FileDrop(vec![
        "/home/u/a.txt".to_string(),
        "/home/u/pics".to_string(),
    ]));
    assert_eq!(
        effects,
        vec![
            Effect::Copy { from: "/home/u/a.txt".to_string(), to: "/tmp/pika-app/a.txt".to_string() },
            Effect::Copy { from: "/home/u/pics".to_string(), to: "/tmp/pika-app/pics".to_string() },
            Effect::RefreshTree,
        ]
    );
}

#[test]
fn test_edits_notify_language_server() {
    let (_tmp, mut app) = setup_test_app();
    open_text(&mut app, "/tmp/pika-app/src/main.rs", "fn main() {}");
    let effects = app.dispatch_action(Action::InsertChar('.'));
    assert_eq!(
        effects,
        vec![
            Effect::LspDidChange {
                path: "/tmp/pika-app/src/main.rs".to_string(),
                text: ".fn main() {}".to_string()
            },
            Effect::LspCompletion { path: "/tmp/pika-app/src/main.rs".to_string(), line: 0, col: 1 },
        ]
    );
    let effects = app.dispatch_action(Action::CursorRight);
    assert!(effects.is_empty());
}

#[test]
fn test_project_search_flow() {
    let (_tmp, mut app) = setup_test_app();
    app.execute_command(AppCommand::ProjectSearch);
    assert!(app.project_search.visible);
    assert!(app.dispatch_action(Action::InsertChar('m')).is_empty());
    let effects = app.dispatch_action(Action::InsertChar('a'));
    assert_eq!(effects, vec![Effect::SearchProject("ma".to_string())]);
    app.search_finished(vec![SearchResult {
        path: "/tmp/pika-app/src/main.rs".to_string(),
        line_number: 3,
        line_content: "fn main() {}".to_string(),
    }]);
    // Quit is swallowed while the search is open.
    assert!(app.dispatch_action(Action::Quit).is_empty());
    assert!(app.running);
    let effects = app.dispatch_action(Action::InsertNewline);
    assert!(!app.project_search.visible);
    assert_eq!(
        effects,
        vec![Effect::OpenFile { path: "/tmp/pika-app/src/main.rs".to_string(), line: Some(2) }]
    );
    assert_eq!(app.focus, FocusArea::Editor);
}

#[test]
fn test_completion_accept_replaces_prefix() {
    let (_tmp, mut app) = setup_test_app();
    open_text(&mut app, "/tmp/pika-app/src/main.rs", "");
    app.dispatch_action(Action::InsertChar('p'));
    app.dispatch_action(Action::InsertChar('r'));
    app.completions_arrived(vec![CompletionItem {
        label: "println!".to_string(),
        detail: None,
        kind: CompletionKind::Function,
        insert_text: "println!($0)".to_string(),
    }]);
    assert!(app.completion.visible);
    assert_eq!(app.completion.trigger_prefix, "pr");
    app.dispatch_action(Action::CompletionAccept);
    assert!(!app.completion.visible);
    assert_eq!(app.editor.active_buffer().unwrap().document.text(), "println!()");
}

#[test]
fn test_help_overlay_absorbs_but_quit_passes() {
    let (_tmp, mut app) = setup_test_app();
    app.dispatch_action(Action::ShowShortcuts);
    assert!(app.shortcuts_help.visible);
    app.dispatch_action(Action::ToggleSidebar);
    assert!(app.sidebar.visible);
    app.dispatch_action(Action::Quit);
    assert!(!app.shortcuts_help.visible);
    assert!(!app.running);
}

#[test]
fn test_file_modified_reloads_clean_tabs() {
    let (_tmp, mut app) = setup_test_app();
    open_text(&mut app, "/tmp/pika-app/src/main.rs", "old");
    open_text(&mut app, "/tmp/pika-app/Cargo.toml", "[package]");
    app.file_modified("/tmp/pika-app/src/main.rs", "new text");
    match &app.editor.tabs[0] {
        TabContent::Text(b) => assert_eq!(b.document.text(), "new text"),
        _ => panic!("expected a text tab"),
    }
    match &app.editor.tabs[1] {
        TabContent::Text(b) => assert_eq!(b.document.text(), "[package]"),
        _ => panic!("expected a text tab"),
    }
}

#[test]
fn quit_saves_exactly_the_modified_tabs() {
    let (_tmp, mut app) = setup_test_app();
    open_text(&mut app, "/tmp/pika-app/a.rs", "a");
    open_text(&mut app, "/tmp/pika-app/b.rs", "b");
    assert_eq!(app.focus, FocusArea::Editor);
    app.dispatch_action(Action::InsertChar('x'));
    open_text(&mut app, "/tmp/pika-app/c.rs", "c");
    assert!(!app.editor.tabs[0].is_modified());
    assert!(app.editor.tabs[1].is_modified());
    assert!(!app.editor.tabs[2].is_modified());
    app.dispatch_action(Action::Quit);
    assert!(app.running);
    assert_eq!(app.confirm_dialog.file_name, "b.rs");
    assert_eq!(app.editor.tabs.len(), 3);
    let effects = app.handle_confirm_result(ConfirmResult::Save, Some(ConfirmAction::Quit));
    assert_eq!(effects, vec![Effect::SaveTab(1)]);
    assert!(!app.running);
}
