use pika::lsp::documents::LspDocuments;

#[test]
fn documents_open_once_and_count_versions() {
    let mut docs = LspDocuments::new();
    assert_eq!(docs.version_of("file:///a.rs"), None);
    assert!(docs.opened("file:///a.rs".to_string(), "rust-analyzer".to_string()));
    assert_eq!(docs.version_of("file:///a.rs"), Some(1));
    // A second file for the same server needs no second initialize.
    assert!(!docs.opened("file:///b.rs".to_string(), "rust-analyzer".to_string()));
    assert_eq!(docs.changed("file:///a.rs"), Some(2));
    assert_eq!(docs.changed("file:///a.rs"), Some(3));
    assert_eq!(docs.version_of("file:///b.rs"), Some(1));
    assert_eq!(docs.changed("file:///c.rs"), None);
}
