use pika::config::settings::{LspServerConfig, LspSettings, Settings};

#[test]
fn test_default_settings() {
    let s = Settings::default();
    assert_eq!(s.sidebar_width, 30);
    assert_eq!(s.tab_size, 4);
    assert!(s.show_line_numbers);
    assert!(!s.word_wrap);
    assert!(!s.auto_save);
    assert!(s.lsp.auto_discover);
    assert!(s.lsp.servers.is_empty());
}

#[test]
fn test_default_lsp_settings() {
    let lsp = LspSettings::default();
    assert!(lsp.auto_discover);
    assert!(lsp.servers.is_empty());
}


#[test]
fn test_lsp_server_config_equality() {
    let a = LspServerConfig {
        command: "ra".into(),
        args: vec!["--stdio".into()],
        extensions: vec!["rs".into()],
        root_markers: vec!["Cargo.toml".into()],
    };
    let b = a.clone();
    assert_eq!(a, b);
}
