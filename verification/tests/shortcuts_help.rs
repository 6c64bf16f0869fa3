use pika::input::actions::Action;
use pika::ui::shortcuts_help::ShortcutsHelp;

#[test]
fn shortcuts_help_test_new() {
    let help = ShortcutsHelp::new();
    assert!(!help.visible);
    assert_eq!(help.scroll, 0);
}

#[test]
fn test_toggle() {
    let mut help = ShortcutsHelp::new();
    help.toggle();
    assert!(help.visible);
    help.toggle();
    assert!(!help.visible);
}

#[test]
fn test_scroll() {
    let mut help = ShortcutsHelp::new();
    help.visible = true;
    help.scroll_down();
    assert_eq!(help.scroll, 1);
    help.scroll_down();
    assert_eq!(help.scroll, 2);
    help.scroll_up();
    assert_eq!(help.scroll, 1);
    help.scroll_up();
    help.scroll_up(); // should not go below 0
    assert_eq!(help.scroll, 0);
}

#[test]
fn test_handle_action_esc_hides() {
    let mut help = ShortcutsHelp::new();
    help.visible = true;
    let consumed = help.handle_action(&Action::FocusNext);
    assert!(consumed);
    assert!(!help.visible);
}

#[test]
fn test_handle_action_scroll_down() {
    let mut help = ShortcutsHelp::new();
    help.visible = true;
    help.handle_action(&Action::CursorDown);
    assert_eq!(help.scroll, 1);
}

#[test]
fn test_handle_action_page_down() {
    let mut help = ShortcutsHelp::new();
    help.visible = true;
    help.handle_action(&Action::PageDown);
    assert_eq!(help.scroll, 10);
}

#[test]
fn test_handle_action_quit_doesnt_consume() {
    let mut help = ShortcutsHelp::new();
    help.visible = true;
    let consumed = help.handle_action(&Action::Quit);
    assert!(!consumed); // quit should not be consumed
    assert!(!help.visible);
}


#[test]
fn test_hide_resets_scroll() {
    let mut help = ShortcutsHelp::new();
    help.visible = true;
    help.scroll = 15;
    help.close();
    assert_eq!(help.scroll, 0);
    assert!(!help.visible);
}

#[test]
fn test_build_lines_not_empty() {
    let lines = ShortcutsHelp::build_lines();
    assert!(lines.len() > 50); // should have many lines
}
