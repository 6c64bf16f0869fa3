use pika::ui::confirm_dialog::{ConfirmAction, ConfirmChoice, ConfirmDialog, ConfirmResult};

#[test]
fn confirm_dialog_test_new() {
    let dialog = ConfirmDialog::new();
    assert!(!dialog.visible);
    assert_eq!(dialog.selected, ConfirmChoice::Save);
}

#[test]
fn test_show_hide() {
    let mut dialog = ConfirmDialog::new();
    dialog.show("main.rs".to_string(), ConfirmAction::CloseTab(0));
    assert!(dialog.visible);
    assert_eq!(dialog.file_name, "main.rs");
    assert!(matches!(dialog.action, Some(ConfirmAction::CloseTab(0))));

    dialog.close();
    assert!(!dialog.visible);
    assert!(dialog.action.is_none());
}

#[test]
fn confirm_dialog_test_navigation() {
    let mut dialog = ConfirmDialog::new();
    dialog.show("test.rs".to_string(), ConfirmAction::Quit);

    assert_eq!(dialog.selected, ConfirmChoice::Save);
    dialog.select_next();
    assert_eq!(dialog.selected, ConfirmChoice::DontSave);
    dialog.select_next();
    assert_eq!(dialog.selected, ConfirmChoice::Cancel);
    dialog.select_next();
    assert_eq!(dialog.selected, ConfirmChoice::Save); // wraps

    dialog.select_previous();
    assert_eq!(dialog.selected, ConfirmChoice::Cancel); // wraps back
}

#[test]
fn confirm_dialog_test_accept() {
    let mut dialog = ConfirmDialog::new();
    dialog.show("test.rs".to_string(), ConfirmAction::Quit);

    assert_eq!(dialog.accept(), ConfirmResult::Save);
    dialog.select_next();
    assert_eq!(dialog.accept(), ConfirmResult::DontSave);
    dialog.select_next();
    assert_eq!(dialog.accept(), ConfirmResult::Cancel);
}

#[test]
fn test_show_defaults_to_save() {
    let mut dialog = ConfirmDialog::new();
    dialog.selected = ConfirmChoice::Cancel;
    dialog.show("test.rs".to_string(), ConfirmAction::CloseTab(0));
    assert_eq!(dialog.selected, ConfirmChoice::Save); // reset on show
}
