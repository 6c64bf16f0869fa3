use pika::input::actions::{Action, FocusArea};

#[test]
fn test_action_clone_eq() {
    let a = Action::InsertChar('x');
    let b = a.clone();
    assert_eq!(a, b);
}

#[test]
fn test_focus_area_copy() {
    let f = FocusArea::Editor;
    let g = f;
    assert_eq!(f, g);
}

#[test]
fn test_file_drop_action() {
    let paths = vec![
        "/tmp/file1.rs".to_string(),
        "/tmp/file2.rs".to_string(),
    ];
    let action = Action::FileDrop(paths.clone());
    if let Action::FileDrop(p) = action {
        assert_eq!(p.len(), 2);
    } else {
        panic!("Expected FileDrop");
    }
}
