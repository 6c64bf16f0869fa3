use pika::input::actions::{Action, FocusArea};
use pika::input::keymap::{KeyCode, Keymap, KeymapSet, ALT, CONTROL, NONE, SHIFT};
fn default_set() -> KeymapSet {
    KeymapSet::default()
}

// -- Global bindings --

#[test]
fn test_global_ctrl_q_quits() {
    let set = default_set();
    let action = set.global.get(CONTROL, KeyCode::Char('q'));
    assert_eq!(action, Some(&Action::Quit));
}

#[test]
fn test_global_ctrl_s_saves() {
    let set = default_set();
    let action = set.global.get(CONTROL, KeyCode::Char('s'));
    assert_eq!(action, Some(&Action::SaveFile));
}

#[test]
fn test_global_ctrl_b_toggles_sidebar() {
    let set = default_set();
    let action = set.global.get(CONTROL, KeyCode::Char('b'));
    assert_eq!(action, Some(&Action::ToggleSidebar));
}

#[test]
fn test_global_ctrl_p_command_palette() {
    let set = default_set();
    let action = set.global.get(CONTROL, KeyCode::Char('p'));
    assert_eq!(action, Some(&Action::OpenCommandPalette));
}

#[test]
fn test_global_ctrl_w_close_tab() {
    let set = default_set();
    let action = set.global.get(CONTROL, KeyCode::Char('w'));
    assert_eq!(action, Some(&Action::CloseTab));
}

#[test]
fn test_global_alt_right_next_tab() {
    let set = default_set();
    let action = set.global.get(ALT, KeyCode::Right);
    assert_eq!(action, Some(&Action::NextTab));
}

#[test]
fn test_global_ctrl_shift_f_project_search() {
    let set = default_set();
    let action = set.global.get(
        CONTROL | SHIFT,
        KeyCode::Char('F'),
    );
    assert_eq!(action, Some(&Action::ProjectSearch));
}

// -- Editor bindings --

#[test]
fn test_editor_arrow_keys() {
    let set = default_set();
    assert_eq!(set.editor.get(NONE, KeyCode::Up), Some(&Action::CursorUp));
    assert_eq!(set.editor.get(NONE, KeyCode::Down), Some(&Action::CursorDown));
    assert_eq!(set.editor.get(NONE, KeyCode::Left), Some(&Action::CursorLeft));
    assert_eq!(set.editor.get(NONE, KeyCode::Right), Some(&Action::CursorRight));
}

#[test]
fn test_editor_ctrl_arrow_word_movement() {
    let set = default_set();
    assert_eq!(
        set.editor.get(CONTROL, KeyCode::Left),
        Some(&Action::CursorWordLeft)
    );
    assert_eq!(
        set.editor.get(CONTROL, KeyCode::Right),
        Some(&Action::CursorWordRight)
    );
}

#[test]
fn test_editor_home_end() {
    let set = default_set();
    assert_eq!(set.editor.get(NONE, KeyCode::Home), Some(&Action::CursorLineStart));
    assert_eq!(set.editor.get(NONE, KeyCode::End), Some(&Action::CursorLineEnd));
}

#[test]
fn test_editor_page_up_down() {
    let set = default_set();
    assert_eq!(set.editor.get(NONE, KeyCode::PageUp), Some(&Action::PageUp));
    assert_eq!(set.editor.get(NONE, KeyCode::PageDown), Some(&Action::PageDown));
}

#[test]
fn test_editor_undo_redo() {
    let set = default_set();
    assert_eq!(set.editor.get(CONTROL, KeyCode::Char('z')), Some(&Action::Undo));
    assert_eq!(set.editor.get(CONTROL, KeyCode::Char('y')), Some(&Action::Redo));
}

#[test]
fn test_editor_clipboard() {
    let set = default_set();
    assert_eq!(set.editor.get(CONTROL, KeyCode::Char('c')), Some(&Action::Copy));
    assert_eq!(set.editor.get(CONTROL, KeyCode::Char('x')), Some(&Action::Cut));
    assert_eq!(set.editor.get(CONTROL, KeyCode::Char('v')), Some(&Action::Paste));
}

#[test]
fn test_editor_select_all() {
    let set = default_set();
    assert_eq!(
        set.editor.get(CONTROL, KeyCode::Char('a')),
        Some(&Action::SelectAll)
    );
}

#[test]
fn test_editor_select_next_occurrence() {
    let set = default_set();
    assert_eq!(
        set.editor.get(CONTROL, KeyCode::Char('d')),
        Some(&Action::SelectNextOccurrence)
    );
}

#[test]
fn test_editor_shift_selection() {
    let set = default_set();
    assert_eq!(set.editor.get(SHIFT, KeyCode::Up), Some(&Action::SelectUp));
    assert_eq!(set.editor.get(SHIFT, KeyCode::Down), Some(&Action::SelectDown));
    assert_eq!(set.editor.get(SHIFT, KeyCode::Left), Some(&Action::SelectLeft));
    assert_eq!(set.editor.get(SHIFT, KeyCode::Right), Some(&Action::SelectRight));
}

#[test]
fn test_editor_text_editing_keys() {
    let set = default_set();
    assert_eq!(set.editor.get(NONE, KeyCode::Enter), Some(&Action::InsertNewline));
    assert_eq!(set.editor.get(NONE, KeyCode::Tab), Some(&Action::InsertTab));
    assert_eq!(set.editor.get(NONE, KeyCode::Backspace), Some(&Action::DeleteBackward));
    assert_eq!(set.editor.get(NONE, KeyCode::Delete), Some(&Action::DeleteForward));
}

#[test]
fn test_editor_find_replace() {
    let set = default_set();
    assert_eq!(
        set.editor.get(CONTROL, KeyCode::Char('f')),
        Some(&Action::FindInFile)
    );
    assert_eq!(
        set.editor.get(CONTROL, KeyCode::Char('r')),
        Some(&Action::FindAndReplace)
    );
    // Ctrl+H must NOT be in editor map so the global ShowShortcuts binding is reached
    assert_eq!(set.editor.get(CONTROL, KeyCode::Char('h')), None);
}

#[test]
fn test_global_alt_left_previous_tab() {
    let set = default_set();
    assert_eq!(
        set.global.get(ALT, KeyCode::Left),
        Some(&Action::PreviousTab)
    );
}

#[test]
fn test_editor_goto_line() {
    let set = default_set();
    assert_eq!(
        set.editor.get(CONTROL, KeyCode::Char('g')),
        Some(&Action::GoToLine)
    );
}

#[test]
fn test_editor_lsp_bindings() {
    let set = default_set();
    assert_eq!(
        set.editor.get(CONTROL, KeyCode::Char(' ')),
        Some(&Action::TriggerCompletion)
    );
    assert_eq!(set.editor.get(NONE, KeyCode::F(12)), Some(&Action::GotoDefinition));
    assert_eq!(set.editor.get(SHIFT, KeyCode::F(12)), Some(&Action::FindReferences));
    assert_eq!(set.editor.get(NONE, KeyCode::F(2)), Some(&Action::RenameSymbol));
    assert_eq!(
        set.editor.get(CONTROL, KeyCode::Char('.')),
        Some(&Action::CodeAction)
    );
}

// -- Sidebar bindings --

#[test]
fn test_sidebar_navigation() {
    let set = default_set();
    assert_eq!(set.sidebar.get(NONE, KeyCode::Up), Some(&Action::TreeUp));
    assert_eq!(set.sidebar.get(NONE, KeyCode::Down), Some(&Action::TreeDown));
    assert_eq!(set.sidebar.get(NONE, KeyCode::Right), Some(&Action::TreeExpand));
    assert_eq!(set.sidebar.get(NONE, KeyCode::Left), Some(&Action::TreeCollapse));
    assert_eq!(set.sidebar.get(NONE, KeyCode::Enter), Some(&Action::TreeOpen));
}

#[test]
fn test_sidebar_file_operations() {
    let set = default_set();
    assert_eq!(set.sidebar.get(NONE, KeyCode::Delete), Some(&Action::FileDelete));
    assert_eq!(set.sidebar.get(NONE, KeyCode::F(2)), Some(&Action::FileRename));
    assert_eq!(set.sidebar.get(NONE, KeyCode::Char('n')), Some(&Action::FileNew));
    assert_eq!(set.sidebar.get(SHIFT, KeyCode::Char('N')), Some(&Action::DirNew));
}

#[test]
fn test_sidebar_clipboard() {
    let set = default_set();
    assert_eq!(set.sidebar.get(CONTROL, KeyCode::Char('c')), Some(&Action::FileCopy));
    assert_eq!(set.sidebar.get(CONTROL, KeyCode::Char('x')), Some(&Action::FileCut));
    assert_eq!(set.sidebar.get(CONTROL, KeyCode::Char('v')), Some(&Action::FilePaste));
}

// -- Completion popup bindings --

#[test]
fn test_completion_navigation() {
    let set = default_set();
    assert_eq!(set.completion.get(NONE, KeyCode::Up), Some(&Action::CompletionUp));
    assert_eq!(set.completion.get(NONE, KeyCode::Down), Some(&Action::CompletionDown));
}

#[test]
fn test_completion_accept() {
    let set = default_set();
    assert_eq!(set.completion.get(NONE, KeyCode::Enter), Some(&Action::CompletionAccept));
    assert_eq!(set.completion.get(NONE, KeyCode::Tab), Some(&Action::CompletionAccept));
}

#[test]
fn test_completion_dismiss() {
    let set = default_set();
    assert_eq!(set.completion.get(NONE, KeyCode::Esc), Some(&Action::CompletionDismiss));
}

// -- Command palette bindings --

#[test]
fn test_palette_navigation() {
    let set = default_set();
    assert_eq!(set.command_palette.get(NONE, KeyCode::Up), Some(&Action::PaletteUp));
    assert_eq!(set.command_palette.get(NONE, KeyCode::Down), Some(&Action::PaletteDown));
}

#[test]
fn test_palette_accept_dismiss() {
    let set = default_set();
    assert_eq!(set.command_palette.get(NONE, KeyCode::Enter), Some(&Action::PaletteAccept));
    assert_eq!(set.command_palette.get(NONE, KeyCode::Esc), Some(&Action::PaletteDismiss));
}

#[test]
fn keymap_test_palette_backspace() {
    let set = default_set();
    assert_eq!(
        set.command_palette.get(NONE, KeyCode::Backspace),
        Some(&Action::PaletteBackspace)
    );
}

// -- Misc --

#[test]
fn test_keymap_for_returns_correct_map() {
    let set = default_set();
    // Verify that the returned reference points to the expected keymap by
    // checking a binding we know is in that keymap but not in the others.
    let km = set.keymap_for(FocusArea::Editor);
    assert!(km.get(NONE, KeyCode::Up).is_some());

    let km = set.keymap_for(FocusArea::Sidebar);
    assert_eq!(km.get(NONE, KeyCode::Enter), Some(&Action::TreeOpen));

    let km = set.keymap_for(FocusArea::CompletionPopup);
    assert_eq!(km.get(NONE, KeyCode::Esc), Some(&Action::CompletionDismiss));

    let km = set.keymap_for(FocusArea::CommandPalette);
    assert_eq!(km.get(NONE, KeyCode::Esc), Some(&Action::PaletteDismiss));
}

#[test]
fn test_keymap_get_missing_returns_none() {
    let set = default_set();
    // F11 is not bound anywhere by default
    assert_eq!(set.global.get(NONE, KeyCode::F(11)), None);
    assert_eq!(set.editor.get(NONE, KeyCode::F(11)), None);
}

#[test]
fn test_custom_bind_overrides() {
    let mut km = Keymap::new();
    km.bind(NONE, KeyCode::Char('a'), Action::Quit);
    assert_eq!(km.get(NONE, KeyCode::Char('a')), Some(&Action::Quit));
    // Override it
    km.bind(NONE, KeyCode::Char('a'), Action::SaveFile);
    assert_eq!(km.get(NONE, KeyCode::Char('a')), Some(&Action::SaveFile));
}

#[test]
fn test_keymap_set_clone() {
    let set = default_set();
    let cloned = set.clone();
    assert_eq!(
        cloned.global.get(CONTROL, KeyCode::Char('q')),
        Some(&Action::Quit)
    );
}
