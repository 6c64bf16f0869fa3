use pika::files::drop_handler::{drop_paths, existing_drops, expand_tilde, file_drop_given, looks_like_path, DropHandler};

// ---------------------------------------------------------------
// looks_like_path
// ---------------------------------------------------------------

#[test]
fn test_looks_like_path_absolute_unix() {
    assert!(looks_like_path("/usr/bin/env"));
    assert!(looks_like_path("/tmp/file.txt"));
}

#[test]
fn test_looks_like_path_tilde() {
    assert!(looks_like_path("~/Documents/file.txt"));
    assert!(looks_like_path("~"));
}

#[test]
fn test_looks_like_path_windows() {
    assert!(looks_like_path("C:\\Users\\file.txt"));
    assert!(looks_like_path("D:/folder/file"));
}

#[test]
fn test_looks_like_path_not_a_path() {
    assert!(!looks_like_path("hello world"));
    assert!(!looks_like_path("fn main() {}"));
    assert!(!looks_like_path(""));
    assert!(!looks_like_path("relative/path"));
}

// ---------------------------------------------------------------
// expand_tilde
// ---------------------------------------------------------------

#[test]
fn test_expand_tilde_with_subpath() {
    let expanded = expand_tilde("~/Documents");
    assert!(!expanded.starts_with('~'));
    assert!(expanded.contains("Documents"));
}

#[test]
fn test_expand_tilde_just_tilde() {
    let expanded = expand_tilde("~");
    assert!(!expanded.starts_with('~'));
}

#[test]
fn test_expand_tilde_no_tilde() {
    let input = "/usr/bin/env";
    assert_eq!(expand_tilde(input), input);
}

// ---------------------------------------------------------------
// parse_dropped_content
// ---------------------------------------------------------------


#[test]
fn test_parse_dropped_content_empty() {
    let paths = DropHandler::parse_dropped_content("");
    assert!(paths.is_empty());
}

#[test]
fn test_parse_dropped_content_whitespace_only() {
    let paths = DropHandler::parse_dropped_content("   \n  \n\n");
    assert!(paths.is_empty());
}


// ---------------------------------------------------------------
// is_file_drop
// ---------------------------------------------------------------


#[test]
fn test_is_file_drop_false_for_code() {
    assert!(!DropHandler::is_file_drop("fn main() { println!(\"hi\"); }"));
}

#[test]
fn test_is_file_drop_false_for_empty() {
    assert!(!DropHandler::is_file_drop(""));
    assert!(!DropHandler::is_file_drop("   \n  "));
}


#[test]
fn test_is_file_drop_false_paths_not_existing() {
    let content = "/this/path/does/not/exist/at/all.txt";
    assert!(!DropHandler::is_file_drop(content));
}

#[test]
fn test_is_file_drop_tilde_path() {
    // ~ itself should exist as the home dir on any system where this
    // test runs.
    assert!(DropHandler::is_file_drop("~"));
}

// ---------------------------------------------------------------
// DropHandler struct
// ---------------------------------------------------------------

#[test]
fn test_drop_handler_is_constructible() {
    let _handler = DropHandler;
}

#[test]
fn existing_drops_keeps_existing_in_order() {
    let home = Some("/home/me".to_string());
    let content = "  /a/x.txt \n\n~/notes.md\n/b/y.rs\n";
    assert_eq!(
        drop_paths(content, &home),
        vec!["/a/x.txt".to_string(), "/home/me/notes.md".to_string(), "/b/y.rs".to_string()]
    );
    let kept = existing_drops(content, &home, &vec![true, false, true]);
    assert_eq!(kept, vec!["/a/x.txt".to_string(), "/b/y.rs".to_string()]);
    assert!(existing_drops(content, &home, &vec![false, false, false]).is_empty());
}

#[test]
fn file_drop_given_answers() {
    assert!(file_drop_given("/a\n~/b", &vec![false, true]));
    assert!(!file_drop_given("/a\n~/b", &vec![false, false]));
    assert!(!file_drop_given("/a\nnot a path", &vec![true, true]));
    assert!(!file_drop_given("", &vec![]));
}
