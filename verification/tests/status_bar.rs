use pika::ui::status_bar::StatusInfo;

#[test]
fn test_status_info_default() {
    let info = StatusInfo::default();
    assert_eq!(info.cursor_line, 0);
    assert_eq!(info.cursor_col, 0);
    assert!(!info.modified);
    assert!(info.lsp_status.is_none());
}

#[test]
fn test_status_info_with_values() {
    let info = StatusInfo {
        file_name: "main.rs".to_string(),
        language: "Rust".to_string(),
        encoding: "UTF-8".to_string(),
        line_ending: "LF".to_string(),
        cursor_line: 10,
        cursor_col: 5,
        total_lines: 100,
        modified: true,
        lsp_status: Some("rust-analyzer".to_string()),
    };
    assert_eq!(info.file_name, "main.rs");
    assert!(info.modified);
    assert_eq!(info.lsp_status.as_deref(), Some("rust-analyzer"));
}

#[test]
fn test_status_info_clone() {
    let info = StatusInfo {
        file_name: "test.rs".to_string(),
        language: "Rust".to_string(),
        encoding: "UTF-8".to_string(),
        line_ending: "LF".to_string(),
        cursor_line: 0,
        cursor_col: 0,
        total_lines: 1,
        modified: false,
        lsp_status: None,
    };
    let cloned = info.clone();
    assert_eq!(cloned.file_name, info.file_name);
}
