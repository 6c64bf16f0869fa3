use pika::config::settings::LspServerConfig;
use pika::lsp::registry::{discover, known_servers, LspRegistry, ServerConfig};

#[test]
fn test_known_servers_not_empty() {
    assert!(!known_servers().is_empty());
}

#[test]
fn test_known_servers_rust_analyzer() {
    let ra = known_servers()
        .into_iter()
        .find(|s| s.binary == "rust-analyzer")
        .expect("rust-analyzer should be among the known servers");
    assert!(ra.extensions.contains(&"rs"));
}

#[test]
fn test_known_servers_typescript() {
    let ts = known_servers()
        .into_iter()
        .find(|s| s.binary == "typescript-language-server")
        .expect("typescript-language-server should be among the known servers");
    assert!(ts.extensions.contains(&"ts"));
    assert!(ts.extensions.contains(&"tsx"));
    assert!(ts.extensions.contains(&"js"));
    assert!(ts.extensions.contains(&"jsx"));
    assert!(ts.args.contains(&"--stdio"));
}

#[test]
fn test_known_servers_pyright() {
    let py = known_servers()
        .into_iter()
        .find(|s| s.binary == "pyright-langserver")
        .expect("pyright-langserver should be among the known servers");
    assert!(py.extensions.contains(&"py"));
    assert!(py.extensions.contains(&"pyi"));
    assert!(py.args.contains(&"--stdio"));
}

#[test]
fn test_known_servers_gopls() {
    let go = known_servers()
        .into_iter()
        .find(|s| s.binary == "gopls")
        .expect("gopls should be among the known servers");
    assert!(go.extensions.contains(&"go"));
    assert!(go.args.contains(&"serve"));
}

#[test]
fn test_known_servers_lua() {
    let lua = known_servers()
        .into_iter()
        .find(|s| s.binary == "lua-language-server")
        .expect("lua-language-server should be among the known servers");
    assert!(lua.extensions.contains(&"lua"));
}

#[test]
fn test_known_servers_clangd() {
    let clangd = known_servers()
        .into_iter()
        .find(|s| s.binary == "clangd")
        .expect("clangd should be among the known servers");
    assert!(clangd.extensions.contains(&"c"));
    assert!(clangd.extensions.contains(&"cpp"));
    assert!(clangd.extensions.contains(&"h"));
    assert!(clangd.extensions.contains(&"hpp"));
}

#[test]
fn test_known_servers_zls() {
    let zls = known_servers()
        .into_iter()
        .find(|s| s.binary == "zls")
        .expect("zls should be among the known servers");
    assert!(zls.extensions.contains(&"zig"));
}

#[test]
fn test_known_servers_jdtls() {
    let jdtls = known_servers()
        .into_iter()
        .find(|s| s.binary == "jdtls")
        .expect("jdtls should be among the known servers");
    assert!(jdtls.extensions.contains(&"java"));
}

#[test]
fn test_known_servers_count() {
    // We defined exactly 8 known servers.
    assert_eq!(known_servers().len(), 8);
}


#[test]
fn test_server_config_clone() {
    let config = ServerConfig {
        command: "test-server".to_string(),
        args: vec!["--stdio".to_string()],
        extensions: vec!["test".to_string()],
    };
    let cloned = config.clone();
    assert_eq!(config.command, cloned.command);
    assert_eq!(config.args, cloned.args);
    assert_eq!(config.extensions, cloned.extensions);
}

#[test]
fn test_server_config_debug() {
    let config = ServerConfig {
        command: "test".to_string(),
        args: vec![],
        extensions: vec!["t".to_string()],
    };
    let debug_str = format!("{:?}", config);
    assert!(debug_str.contains("test"));
}

/// Which of the known servers count as found: none.
fn none_found() -> Vec<bool> {
    vec![]
}

#[test]
fn test_registry_new_empty_user_config() {
    let user_config = Vec::new();
    let registry = LspRegistry::new(&user_config, &none_found());
    // Nothing was found and nothing configured.
    assert_eq!(registry.server_count(), 0);
}

#[test]
fn test_registry_new_with_user_config() {
    let user_config = vec![LspServerConfig {
        command: "my-custom-lsp".to_string(),
        args: vec!["--stdio".to_string()],
        extensions: vec!["xyz".to_string()],
        root_markers: vec![],
    }];
    let registry = LspRegistry::new(&user_config, &none_found());
    assert!(registry.has_server_for("xyz"));
}

#[test]
fn test_registry_user_config_overrides_discovered() {
    // If the user provides a config for "rs", it should override rust-analyzer.
    let user_config = vec![LspServerConfig {
        command: "my-rust-server".to_string(),
        args: vec![],
        extensions: vec!["rs".to_string()],
        root_markers: vec![],
    }];
    let all_found = vec![true; known_servers().len()];
    let registry = LspRegistry::new(&user_config, &all_found);
    // The config for "rs" should now point to "my-rust-server".
    if let Some(cfg) = registry.server_for("rs") {
        assert_eq!(cfg.command, "my-rust-server");
    }
    assert!(registry.has_server_for("rs"));
}

#[test]
fn test_registry_no_server_for_unknown_extension() {
    let registry = LspRegistry::new(&Vec::new(), &none_found());
    assert!(!registry.has_server_for("abcxyz_not_real"));
}

#[test]
fn test_discover_returns_hashmap() {
    // Discovery always gives a table, whatever was found.
    let discovered = discover(&vec![true; known_servers().len()]);
    assert!(discovered.len() <= 20); // sanity bound
}

#[test]
fn test_registry_multiple_extensions_same_server() {
    let user_config = vec![LspServerConfig {
        command: "multi-lsp".to_string(),
        args: vec![],
        extensions: vec!["aaa".to_string(), "bbb".to_string(), "ccc".to_string()],
        root_markers: vec![],
    }];
    let registry = LspRegistry::new(&user_config, &none_found());
    assert!(registry.has_server_for("aaa"));
    assert!(registry.has_server_for("bbb"));
    assert!(registry.has_server_for("ccc"));
}

#[test]
fn test_discover_only_found_servers() {
    // Only gopls (the fourth known server) is found.
    let mut found = vec![false; known_servers().len()];
    found[3] = true;
    let table = discover(&found);
    assert_eq!(table.len(), 1);
    let cfg = table.get("go").expect("gopls handles go");
    assert_eq!(cfg.command, "gopls");
    assert_eq!(cfg.args, vec!["serve".to_string()]);
    assert!(table.get("rs").is_none());
}

#[test]
fn test_later_user_server_wins() {
    let first = LspServerConfig {
        command: "first".to_string(),
        args: vec![],
        extensions: vec!["q".to_string(), "r".to_string()],
        root_markers: vec![],
    };
    let second = LspServerConfig {
        command: "second".to_string(),
        args: vec![],
        extensions: vec!["r".to_string()],
        root_markers: vec![],
    };
    let registry = LspRegistry::new(&vec![first, second], &none_found());
    assert_eq!(registry.server_for("q").unwrap().command, "first");
    assert_eq!(registry.server_for("r").unwrap().command, "second");
    assert_eq!(registry.server_count(), 2);
}
