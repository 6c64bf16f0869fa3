use pika::editor::cursor::Position;
use pika::editor::document::Document;
use pika::editor::language::detect_language_id;

// ── from_text / basic queries ───────────────────────────────────

#[test]
fn from_text_basic() {
    let doc = Document::from_text("hello\nworld\n");
    assert_eq!(doc.line_count(), 3); // ropey counts trailing empty line
    assert_eq!(doc.line(0), "hello\n");
    assert_eq!(doc.line(1), "world\n");
    assert!(!doc.modified);
    assert_eq!(doc.language_id, "plaintext");
}

#[test]
fn from_text_empty() {
    let doc = Document::from_text("");
    assert_eq!(doc.line_count(), 1); // ropey always has at least 1 line
    assert_eq!(doc.text(), "");
}

#[test]
fn line_out_of_bounds_returns_empty() {
    let doc = Document::from_text("one\ntwo\n");
    assert_eq!(doc.line(999), "");
}

#[test]
fn line_len_excludes_newline() {
    let doc = Document::from_text("abc\nde\n\n");
    assert_eq!(doc.line_len(0), 3); // "abc"
    assert_eq!(doc.line_len(1), 2); // "de"
    assert_eq!(doc.line_len(2), 0); // empty line (just '\n')
}

#[test]
fn line_len_last_line_no_newline() {
    let doc = Document::from_text("abc\ndef");
    assert_eq!(doc.line_len(0), 3);
    assert_eq!(doc.line_len(1), 3); // no trailing newline
}

#[test]
fn line_len_out_of_bounds() {
    let doc = Document::from_text("hi");
    assert_eq!(doc.line_len(100), 0);
}

#[test]
fn char_at_valid() {
    let doc = Document::from_text("abcdef");
    assert_eq!(doc.char_at(Position::new(0, 0)), Some('a'));
    assert_eq!(doc.char_at(Position::new(0, 5)), Some('f'));
}

#[test]
fn char_at_out_of_bounds() {
    let doc = Document::from_text("ab\ncd");
    assert_eq!(doc.char_at(Position::new(0, 10)), None);
    assert_eq!(doc.char_at(Position::new(5, 0)), None);
}

#[test]
fn rope_returns_reference() {
    let doc = Document::from_text("test");
    assert_eq!(doc.rope().len_chars(), 4);
}

// ── insert_char ─────────────────────────────────────────────────

#[test]
fn insert_char_at_start() {
    let mut doc = Document::from_text("ello");
    doc.insert_char(Position::new(0, 0), 'H');
    assert_eq!(doc.text(), "Hello");
    assert!(doc.modified);
}

#[test]
fn insert_char_at_end() {
    let mut doc = Document::from_text("Hell");
    doc.insert_char(Position::new(0, 4), 'o');
    assert_eq!(doc.text(), "Hello");
}

#[test]
fn insert_char_newline() {
    let mut doc = Document::from_text("ab");
    doc.insert_char(Position::new(0, 1), '\n');
    assert_eq!(doc.text(), "a\nb");
    assert_eq!(doc.line_count(), 2);
}

// ── insert_text ─────────────────────────────────────────────────

#[test]
fn insert_text_middle() {
    let mut doc = Document::from_text("heo");
    doc.insert_text(Position::new(0, 2), "ll");
    assert_eq!(doc.text(), "hello");
}

#[test]
fn insert_text_multiline() {
    let mut doc = Document::from_text("ac");
    doc.insert_text(Position::new(0, 1), "\nb\n");
    assert_eq!(doc.text(), "a\nb\nc");
    assert_eq!(doc.line_count(), 3);
}

// ── delete_range ────────────────────────────────────────────────

#[test]
fn delete_range_single_line() {
    let mut doc = Document::from_text("hello world");
    doc.delete_range(Position::new(0, 5), Position::new(0, 11));
    assert_eq!(doc.text(), "hello");
}

#[test]
fn delete_range_multiline() {
    let mut doc = Document::from_text("aaa\nbbb\nccc");
    doc.delete_range(Position::new(0, 1), Position::new(2, 1));
    assert_eq!(doc.text(), "acc");
}

#[test]
fn delete_range_empty_is_noop() {
    let mut doc = Document::from_text("hello");
    doc.delete_range(Position::new(0, 2), Position::new(0, 2));
    assert_eq!(doc.text(), "hello");
    assert!(!doc.modified);
}

// ── detect_language_id ──────────────────────────────────────────

#[test]
fn detect_language_rust() {
    assert_eq!(detect_language_id("main.rs"), "rust");
}

#[test]
fn detect_language_python() {
    assert_eq!(detect_language_id("script.py"), "python");
}

#[test]
fn detect_language_javascript() {
    assert_eq!(detect_language_id("app.js"), "javascript");
}

#[test]
fn detect_language_typescript() {
    assert_eq!(detect_language_id("app.ts"), "typescript");
}

#[test]
fn detect_language_tsx() {
    assert_eq!(
        detect_language_id("component.tsx"),
        "typescriptreact"
    );
}

#[test]
fn detect_language_unknown() {
    assert_eq!(detect_language_id("data.xyz"), "plaintext");
}

#[test]
fn detect_language_no_extension() {
    assert_eq!(detect_language_id("Makefile"), "plaintext");
}

#[test]
fn detect_language_go() {
    assert_eq!(detect_language_id("main.go"), "go");
}

#[test]
fn detect_language_shell() {
    assert_eq!(detect_language_id("run.sh"), "shellscript");
}

// ── File I/O tests (tempfile) ───────────────────────────────────


#[test]
fn save_as_updates_language_id() {
    let dir = tempfile::tempdir().unwrap();
    let mut doc = Document::from_text("code");
    assert_eq!(doc.language_id, "plaintext");

    let target = dir.path().join("file.ts");
    doc.mark_saved_as(target.to_str().unwrap());
    assert_eq!(doc.language_id, "typescript");
}


// ── Unicode handling ────────────────────────────────────────────

#[test]
fn unicode_insert_and_query() {
    let mut doc = Document::from_text("cafe");
    doc.insert_char(Position::new(0, 4), '\u{0301}'); // combining accent
    // The text should have 5 chars now
    assert_eq!(doc.rope().len_chars(), 5);
}

#[test]
fn multibyte_chars() {
    let doc = Document::from_text("日本語");
    assert_eq!(doc.line_len(0), 3); // 3 characters
    assert_eq!(doc.char_at(Position::new(0, 0)), Some('日'));
    assert_eq!(doc.char_at(Position::new(0, 2)), Some('語'));
}

#[test]
fn delete_range_undoes_insert_text() {
    let mut doc = Document::from_text("hello\nworld");
    doc.insert_text(Position::new(1, 2), "ab\ncd");
    assert_eq!(doc.text(), "hello\nwoab\ncdrld");
    doc.delete_range(Position::new(1, 2), Position::new(2, 2));
    assert_eq!(doc.text(), "hello\nworld");
}
