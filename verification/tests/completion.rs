use lsp_types::CompletionItemKind as K;
use pika::input::actions::Action;
use pika::ui::completion::{CompletionItem, CompletionKind, CompletionPopup};

fn test_items() -> Vec<CompletionItem> {
    vec![
        CompletionItem {
            label: "println!".to_string(),
            detail: Some("macro".to_string()),
            kind: CompletionKind::Function,
            insert_text: "println!".to_string(),
        },
        CompletionItem {
            label: "pub".to_string(),
            detail: None,
            kind: CompletionKind::Keyword,
            insert_text: "pub".to_string(),
        },
        CompletionItem {
            label: "String".to_string(),
            detail: Some("std::string".to_string()),
            kind: CompletionKind::Struct,
            insert_text: "String".to_string(),
        },
    ]
}

#[test]
fn test_new_popup() {
    let popup = CompletionPopup::new();
    assert!(!popup.visible);
    assert!(popup.items.is_empty());
}

#[test]
fn test_show_popup() {
    let mut popup = CompletionPopup::new();
    popup.show(test_items(), 10, 5);
    assert!(popup.visible);
    assert_eq!(popup.items.len(), 3);
    assert_eq!(popup.selected, 0);
}

#[test]
fn test_show_empty_hides() {
    let mut popup = CompletionPopup::new();
    popup.show(vec![], 10, 5);
    assert!(!popup.visible);
}

#[test]
fn completion_test_hide() {
    let mut popup = CompletionPopup::new();
    popup.show(test_items(), 10, 5);
    popup.close();
    assert!(!popup.visible);
    assert!(popup.items.is_empty());
}

#[test]
fn completion_test_navigation() {
    let mut popup = CompletionPopup::new();
    popup.show(test_items(), 10, 5);

    popup.select_next();
    assert_eq!(popup.selected, 1);

    popup.select_next();
    assert_eq!(popup.selected, 2);

    popup.select_next();
    assert_eq!(popup.selected, 0); // wraps

    popup.select_previous();
    assert_eq!(popup.selected, 2); // wraps back
}

#[test]
fn completion_test_accept() {
    let mut popup = CompletionPopup::new();
    popup.show(test_items(), 10, 5);
    let item = popup.accept().unwrap();
    assert_eq!(item.label, "println!");
}

#[test]
fn completion_test_accept_empty() {
    let popup = CompletionPopup::new();
    assert!(popup.accept().is_none());
}

#[test]
fn test_completion_kind_icon() {
    assert_eq!(CompletionKind::Function.icon(), "fn");
    assert_eq!(CompletionKind::Variable.icon(), "var");
    assert_eq!(CompletionKind::Struct.icon(), "st");
}


#[test]
fn test_handle_dismiss() {
    let mut popup = CompletionPopup::new();
    popup.show(test_items(), 10, 5);
    popup.handle_action(&Action::CompletionDismiss);
    assert!(!popup.visible);
}

/// The protocol number of an LSP completion item kind.
fn lsp_code(kind: lsp_types::CompletionItemKind) -> Option<i32> {
    serde_json::to_value(kind).ok().and_then(|v| v.as_i64()).map(|n| n as i32)
}

#[test]
fn test_from_lsp_kind() {
    let kind = CompletionKind::from_lsp(lsp_code(lsp_types::CompletionItemKind::FUNCTION));
    assert_eq!(kind, CompletionKind::Function);

    let kind = CompletionKind::from_lsp(None);
    assert_eq!(kind, CompletionKind::Other);
}

#[test]
fn from_lsp_kind_groups() {
    assert_eq!(CompletionKind::from_lsp(lsp_code(K::METHOD)), CompletionKind::Function);
    assert_eq!(CompletionKind::from_lsp(lsp_code(K::VARIABLE)), CompletionKind::Variable);
    assert_eq!(CompletionKind::from_lsp(lsp_code(K::KEYWORD)), CompletionKind::Keyword);
    assert_eq!(CompletionKind::from_lsp(lsp_code(K::CLASS)), CompletionKind::Struct);
    assert_eq!(CompletionKind::from_lsp(lsp_code(K::STRUCT)), CompletionKind::Struct);
    assert_eq!(CompletionKind::from_lsp(lsp_code(K::PROPERTY)), CompletionKind::Field);
    assert_eq!(CompletionKind::from_lsp(lsp_code(K::FIELD)), CompletionKind::Field);
    assert_eq!(CompletionKind::from_lsp(lsp_code(K::MODULE)), CompletionKind::Module);
    assert_eq!(CompletionKind::from_lsp(lsp_code(K::SNIPPET)), CompletionKind::Snippet);
    assert_eq!(CompletionKind::from_lsp(lsp_code(K::CONSTRUCTOR)), CompletionKind::Other);
    assert_eq!(CompletionKind::from_lsp(lsp_code(K::TEXT)), CompletionKind::Other);
}

#[test]
fn test_show_from_lsp() {
    let mut popup = CompletionPopup::new();
    let lsp_item = lsp_types::CompletionItem {
        label: "test_fn".to_string(),
        kind: Some(lsp_types::CompletionItemKind::FUNCTION),
        detail: Some("Test function".to_string()),
        insert_text: Some("test_fn()".to_string()),
        ..Default::default()
    };
    let items = vec![CompletionItem {
        label: lsp_item.label.clone(),
        detail: lsp_item.detail.clone(),
        kind: CompletionKind::from_lsp(lsp_item.kind.and_then(lsp_code)),
        insert_text: lsp_item.insert_text.clone().unwrap_or(lsp_item.label.clone()),
    }];
    popup.show_from_lsp(items, 10, 5, String::new());
    assert!(popup.visible);
    assert_eq!(popup.items[0].label, "test_fn");
    assert_eq!(popup.items[0].insert_text, "test_fn()");
}

#[test]
fn filter_by_prefix_matches_start_ignoring_case() {
    let mut popup = CompletionPopup::new();
    let item = |label: &str| CompletionItem {
        label: label.to_string(),
        detail: None,
        kind: CompletionKind::Other,
        insert_text: label.to_string(),
    };
    popup.show(vec![item("Abc"), item("xab"), item("abd")], 0, 0);
    popup.filter_by_prefix("AB");
    let labels: Vec<&str> = popup.items.iter().map(|i| i.label.as_str()).collect();
    assert_eq!(labels, vec!["Abc", "abd"]);
    popup.filter_by_prefix("zz");
    assert!(!popup.visible);
}
