use pika::input::actions::Action;
use pika::ui::command_palette::{CommandPalette, PaletteEntry};
use pika::ui::AppCommand;

/// The files of a small project, as the file walk lists them: each with
/// its path relative to the project root for display.
fn setup_test_dir() -> Vec<PaletteEntry> {
    ["src/main.rs", "src/app.rs", "src/lib.rs", "Cargo.toml", "README.md"]
        .iter()
        .map(|rel| PaletteEntry {
            display: rel.to_string(),
            path: format!("/tmp/pika-test/{}", rel),
            score: 0,
        })
        .collect()
}

#[test]
fn test_new_palette() {
    let palette = CommandPalette::new();
    assert!(!palette.visible);
    assert!(palette.input.is_empty());
}

#[test]
fn test_show_collects_files() {
    let files = setup_test_dir();
    let mut palette = CommandPalette::new();
    palette.show(files);
    assert!(palette.visible);
    assert!(!palette.entries.is_empty());
    assert!(palette.entries.len() >= 4); // at least our test files
}

#[test]
fn command_palette_test_hide() {
    let files = setup_test_dir();
    let mut palette = CommandPalette::new();
    palette.show(files);
    palette.close();
    assert!(!palette.visible);
    assert!(palette.input.is_empty());
}

#[test]
fn test_fuzzy_filter() {
    let files = setup_test_dir();
    let mut palette = CommandPalette::new();
    palette.show(files);

    palette.insert_char('m');
    palette.insert_char('a');
    palette.insert_char('i');
    palette.insert_char('n');

    assert!(!palette.filtered.is_empty());
    // main.rs should be in results
    assert!(palette.filtered.iter().any(|e| e.display.contains("main")));
}

#[test]
fn test_backspace() {
    let files = setup_test_dir();
    let mut palette = CommandPalette::new();
    palette.show(files);
    let initial_count = palette.filtered.len();

    palette.insert_char('x');
    palette.insert_char('x');
    palette.insert_char('x');
    let narrow_count = palette.filtered.len();

    palette.backspace();
    palette.backspace();
    palette.backspace();
    assert_eq!(palette.filtered.len(), initial_count);
}

#[test]
fn command_palette_test_navigation() {
    let files = setup_test_dir();
    let mut palette = CommandPalette::new();
    palette.show(files);
    assert_eq!(palette.selected, 0);

    palette.select_next();
    assert_eq!(palette.selected, 1);

    palette.select_previous();
    assert_eq!(palette.selected, 0);

    // Wrap around
    palette.select_previous();
    assert_eq!(palette.selected, palette.filtered.len() - 1);
}

#[test]
fn command_palette_test_accept() {
    let files = setup_test_dir();
    let mut palette = CommandPalette::new();
    palette.show(files);
    let result = palette.accept();
    assert!(result.is_some());
}

#[test]
fn command_palette_test_accept_empty() {
    let palette = CommandPalette::new();
    assert!(palette.accept().is_none());
}

#[test]
fn test_handle_action_accept() {
    let files = setup_test_dir();
    let mut palette = CommandPalette::new();
    palette.show(files);

    let cmd = palette.handle_action(&Action::PaletteAccept);
    assert!(matches!(cmd, AppCommand::OpenFile(_)));
    assert!(!palette.visible);
}

#[test]
fn test_handle_action_dismiss() {
    let mut palette = CommandPalette::new();
    palette.visible = true;
    palette.handle_action(&Action::PaletteDismiss);
    assert!(!palette.visible);
}
