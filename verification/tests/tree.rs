use pika::files::arrange::{arrange_children, reads_children, tree_node, MAX_DEPTH};
use pika::files::tree::{FileNode, FileTree};

#[test]
fn test_selected_entry_none_on_empty() {
    let tree = FileTree {
        root: FileNode {
            name: String::new(),
            path: String::new(),
            is_dir: false,
            children: Vec::new(),
            expanded: false,
            depth: 0,
        },
        selected_index: 0,
        flattened: Vec::new(),
    };
    assert!(tree.selected_entry().is_none());
}

fn entry(name: &str, is_dir: bool) -> FileNode {
    entry_at(name, is_dir, 1)
}

fn entry_at(name: &str, is_dir: bool, depth: usize) -> FileNode {
    FileNode {
        name: name.to_string(),
        path: format!("/p/{}", name),
        is_dir,
        children: Vec::new(),
        expanded: false,
        depth,
    }
}

#[test]
fn arrange_children_dirs_first_by_name_hidden_dropped() {
    let given = vec![
        entry("zeta.rs", false),
        entry(".git", true),
        entry("Beta", true),
        entry("alpha.txt", false),
        entry("src", true),
        entry(".env", false),
        entry("Main.rs", false),
    ];
    let names: Vec<String> = arrange_children(given).into_iter().map(|n| n.name).collect();
    assert_eq!(names, vec!["Beta", "src", "alpha.txt", "Main.rs", "zeta.rs"]);
}

#[test]
fn arrange_children_keeps_order_of_equal_names() {
    let mut a = entry("readme", false);
    a.path = "/first".to_string();
    let mut b = entry("README", false);
    b.path = "/second".to_string();
    let paths: Vec<String> = arrange_children(vec![a, b]).into_iter().map(|n| n.path).collect();
    assert_eq!(paths, vec!["/first", "/second"]);
}

#[test]
fn test_empty_directory() {
    // An empty directory is read as a root without children.
    let root = FileNode {
        name: "empty".to_string(),
        path: "/tmp/empty".to_string(),
        is_dir: true,
        children: Vec::new(),
        expanded: true,
        depth: 0,
    };
    let tree = FileTree::from_path(root);
    // Only the root
    assert_eq!(tree.flattened.len(), 1);
    assert!(tree.flattened[0].is_dir);
}

#[test]
fn toggle_node_twice_restores() {
    let mut inner = entry("src", true);
    inner.children = vec![entry("main.rs", false)];
    let mut root = entry("proj", true);
    root.expanded = true;
    root.children = vec![inner, entry("Cargo.toml", false)];
    FileTree::toggle_node(&mut root, "/p/src");
    assert!(root.children[0].expanded);
    assert!(root.expanded);
    FileTree::toggle_node(&mut root, "/p/src");
    assert!(!root.children[0].expanded);
    assert!(root.expanded);
    assert_eq!(root.children.len(), 2);
}

#[test]
fn toggle_expand_twice_restores_list() {
    let mut inner = entry("src", true);
    inner.children = vec![entry("main.rs", false), entry("lib.rs", false)];
    let mut root = entry("proj", true);
    root.path = "/p".to_string();
    root.expanded = true;
    root.depth = 0;
    root.children = vec![inner, entry("Cargo.toml", false)];
    let mut tree = FileTree::from_path(root);
    let before: Vec<String> = tree.flattened.iter().map(|e| e.path.clone()).collect();
    assert_eq!(before.len(), 3);
    tree.select_next();
    tree.toggle_expand();
    assert_eq!(tree.flattened.len(), 5);
    tree.toggle_expand();
    let after: Vec<String> = tree.flattened.iter().map(|e| e.path.clone()).collect();
    assert_eq!(after, before);
    assert_eq!(tree.selected_index, 1);
}

#[test]
fn tree_node_orders_children_and_expands_only_the_root() {
    let kids = vec![entry("b.txt", false), entry("a", true), entry(".git", true)];
    let root = tree_node("proj".to_string(), "/p".to_string(), true, 0, kids);
    assert!(root.expanded);
    let names: Vec<&str> = root.children.iter().map(|c| c.name.as_str()).collect();
    assert_eq!(names, vec!["a", "b.txt"]);
    assert!(root.children.iter().all(|c| c.depth == 1 && !c.expanded));
    let sub = tree_node("a".to_string(), "/p/a".to_string(), true, 1, vec![entry_at("x", false, 2)]);
    assert!(!sub.expanded);
    assert_eq!(sub.children[0].depth, 2);
    let deep = tree_node("d".to_string(), "/p/d".to_string(), true, MAX_DEPTH, vec![entry_at("x", false, MAX_DEPTH + 1)]);
    assert!(deep.children.is_empty());
    assert!(reads_children(true, MAX_DEPTH - 1));
    assert!(!reads_children(true, MAX_DEPTH));
    assert!(!reads_children(false, 0));
}
