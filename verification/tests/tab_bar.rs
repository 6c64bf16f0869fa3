use pika::ui::tab_bar::TabBar;

#[test]
fn test_new_tab_bar() {
    let bar = TabBar::new();
    assert!(bar.is_empty());
    assert_eq!(bar.len(), 0);
}

#[test]
fn test_add_tab() {
    let mut bar = TabBar::new();
    bar.add_tab("main.rs".to_string(), false);
    assert_eq!(bar.len(), 1);
    assert_eq!(bar.active, 0);
    bar.add_tab("app.rs".to_string(), false);
    assert_eq!(bar.len(), 2);
    assert_eq!(bar.active, 1); // new tab becomes active
}

#[test]
fn test_close_tab() {
    let mut bar = TabBar::new();
    bar.add_tab("a.rs".to_string(), false);
    bar.add_tab("b.rs".to_string(), false);
    bar.add_tab("c.rs".to_string(), false);
    bar.set_active(2);

    let closed = bar.close_tab(2);
    assert!(closed.is_some());
    assert_eq!(closed.unwrap().name, "c.rs");
    assert_eq!(bar.active, 1); // clamps to last
}

#[test]
fn test_close_middle_tab() {
    let mut bar = TabBar::new();
    bar.add_tab("a.rs".to_string(), false);
    bar.add_tab("b.rs".to_string(), false);
    bar.add_tab("c.rs".to_string(), false);
    bar.set_active(1);

    bar.close_tab(1);
    assert_eq!(bar.len(), 2);
    assert_eq!(bar.tabs[0].name, "a.rs");
    assert_eq!(bar.tabs[1].name, "c.rs");
}

#[test]
fn tab_bar_test_next_previous_tab() {
    let mut bar = TabBar::new();
    bar.add_tab("a.rs".to_string(), false);
    bar.add_tab("b.rs".to_string(), false);
    bar.add_tab("c.rs".to_string(), false);
    bar.set_active(0);

    bar.next_tab();
    assert_eq!(bar.active, 1);
    bar.next_tab();
    assert_eq!(bar.active, 2);
    bar.next_tab();
    assert_eq!(bar.active, 0); // wraps

    bar.previous_tab();
    assert_eq!(bar.active, 2); // wraps back
}

#[test]
fn test_find_tab() {
    let mut bar = TabBar::new();
    bar.add_tab("main.rs".to_string(), false);
    bar.add_tab("app.rs".to_string(), false);

    assert_eq!(bar.find_tab("app.rs"), Some(1));
    assert_eq!(bar.find_tab("nonexistent.rs"), None);
}

#[test]
fn test_update_tab() {
    let mut bar = TabBar::new();
    bar.add_tab("main.rs".to_string(), false);
    bar.update_tab(0, "main.rs".to_string(), true);
    assert!(bar.tabs[0].modified);
}

#[test]
fn test_close_nonexistent_tab() {
    let mut bar = TabBar::new();
    assert!(bar.close_tab(0).is_none());
}
