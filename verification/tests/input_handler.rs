use pika::input::actions::{Action, FocusArea};
use pika::input::handler::{drop_action, path_text, url_decode, InputEvent, InputHandler, KeyEvent};
use pika::input::keymap::{KeyCode, CONTROL, NONE, SHIFT};
/// Helper to build a press `KeyEvent`.
fn press(code: KeyCode, modifiers: u8) -> InputEvent {
    InputEvent::Key(KeyEvent { code, modifiers, press: true })
}

/// Helper to build a release `KeyEvent`.
fn release(code: KeyCode, modifiers: u8) -> InputEvent {
    InputEvent::Key(KeyEvent { code, modifiers, press: false })
}

fn handler() -> InputHandler {
    InputHandler::default()
}

// -- Global keys --

#[test]
fn test_ctrl_q_quits_from_any_focus() {
    let h = handler();
    let ev = press(KeyCode::Char('q'), CONTROL);
    assert_eq!(h.handle_event(&ev, FocusArea::Editor), Action::Quit);
    assert_eq!(h.handle_event(&ev, FocusArea::Sidebar), Action::Quit);
}

#[test]
fn test_ctrl_s_saves() {
    let h = handler();
    let ev = press(KeyCode::Char('s'), CONTROL);
    assert_eq!(h.handle_event(&ev, FocusArea::Editor), Action::SaveFile);
}

// -- Editor focus --

#[test]
fn test_plain_char_inserts_in_editor() {
    let h = handler();
    let ev = press(KeyCode::Char('x'), NONE);
    assert_eq!(h.handle_event(&ev, FocusArea::Editor), Action::InsertChar('x'));
}

#[test]
fn test_shift_char_inserts_uppercase() {
    let h = handler();
    let ev = press(KeyCode::Char('X'), SHIFT);
    assert_eq!(h.handle_event(&ev, FocusArea::Editor), Action::InsertChar('X'));
}

#[test]
fn test_arrow_keys_cursor_movement() {
    let h = handler();
    assert_eq!(
        h.handle_event(&press(KeyCode::Up, NONE), FocusArea::Editor),
        Action::CursorUp
    );
    assert_eq!(
        h.handle_event(&press(KeyCode::Down, NONE), FocusArea::Editor),
        Action::CursorDown
    );
}

#[test]
fn test_ctrl_z_undo() {
    let h = handler();
    let ev = press(KeyCode::Char('z'), CONTROL);
    assert_eq!(h.handle_event(&ev, FocusArea::Editor), Action::Undo);
}

#[test]
fn test_enter_inserts_newline() {
    let h = handler();
    let ev = press(KeyCode::Enter, NONE);
    assert_eq!(h.handle_event(&ev, FocusArea::Editor), Action::InsertNewline);
}

#[test]
fn test_backspace_deletes() {
    let h = handler();
    let ev = press(KeyCode::Backspace, NONE);
    assert_eq!(h.handle_event(&ev, FocusArea::Editor), Action::DeleteBackward);
}

#[test]
fn test_f12_goto_definition() {
    let h = handler();
    let ev = press(KeyCode::F(12), NONE);
    assert_eq!(h.handle_event(&ev, FocusArea::Editor), Action::GotoDefinition);
}

// -- Focus-specific takes priority over global --

#[test]
fn test_focus_specific_overrides_global() {
    // Ctrl+C is Copy in editor, but FileCopy in sidebar
    let h = handler();
    let ev = press(KeyCode::Char('c'), CONTROL);
    assert_eq!(h.handle_event(&ev, FocusArea::Editor), Action::Copy);
    assert_eq!(h.handle_event(&ev, FocusArea::Sidebar), Action::FileCopy);
}

// -- Sidebar focus --

#[test]
fn test_sidebar_enter_opens() {
    let h = handler();
    let ev = press(KeyCode::Enter, NONE);
    assert_eq!(h.handle_event(&ev, FocusArea::Sidebar), Action::TreeOpen);
}

#[test]
fn test_sidebar_arrows_navigate() {
    let h = handler();
    assert_eq!(
        h.handle_event(&press(KeyCode::Up, NONE), FocusArea::Sidebar),
        Action::TreeUp
    );
    assert_eq!(
        h.handle_event(&press(KeyCode::Down, NONE), FocusArea::Sidebar),
        Action::TreeDown
    );
}

#[test]
fn test_sidebar_n_new_file() {
    let h = handler();
    let ev = press(KeyCode::Char('n'), NONE);
    assert_eq!(h.handle_event(&ev, FocusArea::Sidebar), Action::FileNew);
}

// -- Completion popup --

#[test]
fn test_completion_up_down() {
    let h = handler();
    assert_eq!(
        h.handle_event(&press(KeyCode::Up, NONE), FocusArea::CompletionPopup),
        Action::CompletionUp
    );
    assert_eq!(
        h.handle_event(&press(KeyCode::Down, NONE), FocusArea::CompletionPopup),
        Action::CompletionDown
    );
}

#[test]
fn test_completion_accept_enter() {
    let h = handler();
    let ev = press(KeyCode::Enter, NONE);
    assert_eq!(h.handle_event(&ev, FocusArea::CompletionPopup), Action::CompletionAccept);
}

#[test]
fn test_completion_dismiss_esc() {
    let h = handler();
    let ev = press(KeyCode::Esc, NONE);
    assert_eq!(h.handle_event(&ev, FocusArea::CompletionPopup), Action::CompletionDismiss);
}

// -- Command palette --

#[test]
fn test_palette_char_input() {
    let h = handler();
    let ev = press(KeyCode::Char('a'), NONE);
    assert_eq!(h.handle_event(&ev, FocusArea::CommandPalette), Action::PaletteInput('a'));
}

#[test]
fn handler_test_palette_backspace() {
    let h = handler();
    let ev = press(KeyCode::Backspace, NONE);
    assert_eq!(h.handle_event(&ev, FocusArea::CommandPalette), Action::PaletteBackspace);
}

#[test]
fn test_palette_esc_dismisses() {
    let h = handler();
    let ev = press(KeyCode::Esc, NONE);
    assert_eq!(h.handle_event(&ev, FocusArea::CommandPalette), Action::PaletteDismiss);
}

// -- Paste --

#[test]
fn test_paste_text() {
    let h = handler();
    let ev = InputEvent::Paste("hello".into());
    let action = h.handle_event(&ev, FocusArea::Editor);
    // Not a file path, so should be treated as text paste
    assert_eq!(action, Action::PasteText("hello".to_string()));
}

#[test]
fn test_paste_existing_paths_is_drop() {
    let h = handler();
    let ev = InputEvent::Paste("  /\n'/tmp'  ".to_string());
    let action = h.handle_event(&ev, FocusArea::Editor);
    assert_eq!(action, Action::FileDrop(vec!["/".to_string(), "/tmp".to_string()]));
}

#[test]
fn test_paste_missing_path_is_text() {
    let h = handler();
    let ev = InputEvent::Paste("/no/such/pika/path\n/tmp".to_string());
    let action = h.handle_event(&ev, FocusArea::Editor);
    assert_eq!(action, Action::PasteText("/no/such/pika/path\n/tmp".to_string()));
}

#[test]
fn test_paste_empty() {
    let h = handler();
    let ev = InputEvent::Paste(String::new());
    assert_eq!(h.handle_event(&ev, FocusArea::Editor), Action::Noop);
}

// -- Resize --

#[test]
fn test_resize_returns_none() {
    let h = handler();
    let ev = InputEvent::Resize(80, 24);
    assert_eq!(h.handle_event(&ev, FocusArea::Editor), Action::Noop);
}

// -- Key release ignored --

#[test]
fn test_key_release_ignored() {
    let h = handler();
    let ev = release(KeyCode::Char('a'), NONE);
    assert_eq!(h.handle_event(&ev, FocusArea::Editor), Action::Noop);
}

// -- Unbound key returns None --

#[test]
fn test_unbound_key_returns_none() {
    let h = handler();
    // F11 is not bound
    let ev = press(KeyCode::F(11), NONE);
    assert_eq!(h.handle_event(&ev, FocusArea::Editor), Action::Noop);
}

// -- Default impl --

#[test]
fn test_default_handler() {
    let h = InputHandler::default();
    // Just verify it doesn't panic and works
    let ev = press(KeyCode::Char('a'), NONE);
    assert_eq!(h.handle_event(&ev, FocusArea::Editor), Action::InsertChar('a'));
}

// -- Clone --

#[test]
fn test_handler_clone() {
    let h = handler();
    let h2 = h.clone();
    let ev = press(KeyCode::Char('q'), CONTROL);
    assert_eq!(h2.handle_event(&ev, FocusArea::Editor), Action::Quit);
}

// -- Palette shift char --

#[test]
fn test_palette_shift_char() {
    let h = handler();
    let ev = press(KeyCode::Char('A'), SHIFT);
    assert_eq!(
        h.handle_event(&ev, FocusArea::CommandPalette),
        Action::PaletteInput('A')
    );
}

// -- Sidebar unbound char returns None --

#[test]
fn test_sidebar_unbound_char_returns_none() {
    let h = handler();
    // 'z' is not bound in the sidebar and there is no char-fallback for sidebar
    let ev = press(KeyCode::Char('z'), NONE);
    assert_eq!(h.handle_event(&ev, FocusArea::Sidebar), Action::Noop);
}

#[test]
fn test_url_decode() {
    assert_eq!(url_decode("a%20b"), "a b");
    assert_eq!(url_decode("%41%4a%4A"), "AJJ");
    assert_eq!(url_decode("100%"), "100%");
    assert_eq!(url_decode("%zz1"), "%zz1");
    assert_eq!(url_decode("%+7"), "\u{7}");
    assert_eq!(url_decode("%e9"), "\u{e9}");
}

#[test]
fn test_path_text() {
    let home = Some("/home/u".to_string());
    assert_eq!(path_text("file:///tmp/a%20b.txt", &home), Some("/tmp/a b.txt".to_string()));
    assert_eq!(path_text("~/notes.md", &home), Some("/home/u/notes.md".to_string()));
    assert_eq!(path_text("~notes.md", &home), Some("/home/u/notes.md".to_string()));
    assert_eq!(path_text("~/notes.md", &None), None);
    assert_eq!(path_text("\"/tmp/My\\ File\"", &home), Some("/tmp/My File".to_string()));
    assert_eq!(path_text("'/tmp/x'", &home), Some("/tmp/x".to_string()));
    assert_eq!(path_text("relative/path", &home), None);
}

#[test]
fn test_drop_action() {
    assert_eq!(drop_action(&vec![]), None);
    assert_eq!(drop_action(&vec![Some("/a".to_string()), None]), None);
    assert_eq!(
        drop_action(&vec![Some("/a".to_string()), Some("/b".to_string())]),
        Some(Action::FileDrop(vec!["/a".to_string(), "/b".to_string()]))
    );
}

#[test]
fn test_shift_modified_keys_without_binding_do_not_type_with_control() {
    let h = handler();
    let ev = press(KeyCode::Char('k'), CONTROL);
    assert_eq!(h.handle_event(&ev, FocusArea::Editor), Action::Noop);
    let ev = press(KeyCode::Char('K'), CONTROL | SHIFT);
    assert_eq!(h.handle_event(&ev, FocusArea::Editor), Action::DeleteLine);
}
