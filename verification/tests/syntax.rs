use pika::editor::syntax::{highlight_text, HighlightStyle, HighlightedSpan, SyntaxHighlighter};


#[test]
fn highlight_style_new() {
    let hs = HighlightStyle::new(10, 20, 30);
    assert_eq!(hs.fg, (10, 20, 30));
}

#[test]
fn highlighted_span_new() {
    let span = HighlightedSpan::new(HighlightStyle::new(0, 0, 0), "hello".to_string());
    assert_eq!(span.text, "hello");
    assert_eq!(span.style.fg, (0, 0, 0));
}

fn joined_text(spans: &[HighlightedSpan]) -> String {
    spans.iter().map(|s| s.text.as_str()).collect()
}

#[test]
fn syntax_new_does_not_panic() {
    let _hl = SyntaxHighlighter::new();
}

#[test]
fn highlight_rust_line() {
    let hl = SyntaxHighlighter::new();
    let spans = hl.highlight_line("fn main() {}", "rs");
    assert!(!spans.is_empty());
    // The concatenation of all span texts should match the input (+ newline).
    assert_eq!(joined_text(&spans), "fn main() {}\n");
}

#[test]
fn highlight_python_line() {
    let hl = SyntaxHighlighter::new();
    let spans = hl.highlight_line("def hello():", "py");
    assert!(!spans.is_empty());
    assert_eq!(joined_text(&spans), "def hello():\n");
}

#[test]
fn highlight_unknown_syntax_returns_single_span() {
    let hl = SyntaxHighlighter::new();
    let spans = hl.highlight_line("random stuff", "nonexistent_syntax_xyz");
    assert!(!spans.is_empty());
    assert!(joined_text(&spans).contains("random stuff"));
}

#[test]
fn highlight_empty_line() {
    let hl = SyntaxHighlighter::new();
    let spans = hl.highlight_line("", "rs");
    // Even an empty line gets at least the newline appended
    assert_eq!(joined_text(&spans), "\n");
}

#[test]
fn highlight_line_with_existing_newline() {
    let hl = SyntaxHighlighter::new();
    let spans = hl.highlight_line("let x = 1;\n", "rs");
    assert_eq!(joined_text(&spans), "let x = 1;\n");
}

#[test]
fn highlight_typescript_falls_back() {
    let hl = SyntaxHighlighter::new();
    let spans = hl.highlight_line("const x: number = 1;", "ts");
    assert_eq!(joined_text(&spans), "const x: number = 1;\n");
}

#[test]
fn detect_syntax_rust() {
    let hl = SyntaxHighlighter::new();
    assert_eq!(hl.detect_syntax("src/main.rs"), "rs");
}

#[test]
fn detect_syntax_python() {
    let hl = SyntaxHighlighter::new();
    assert_eq!(hl.detect_syntax("script.py"), "py");
}

#[test]
fn detect_syntax_javascript() {
    let hl = SyntaxHighlighter::new();
    assert_eq!(hl.detect_syntax("app.js"), "js");
}

#[test]
fn detect_syntax_no_extension() {
    let hl = SyntaxHighlighter::new();
    assert_eq!(hl.detect_syntax("Makefile"), "txt");
}

#[test]
fn detect_syntax_unknown_extension() {
    let hl = SyntaxHighlighter::new();
    assert_eq!(hl.detect_syntax("data.xyzzy"), "txt");
}

#[test]
fn detect_syntax_path_with_dirs() {
    let hl = SyntaxHighlighter::new();
    assert_eq!(hl.detect_syntax("/home/user/project/lib.rs"), "rs");
}

#[test]
fn rust_keyword_has_nonzero_color() {
    let hl = SyntaxHighlighter::new();
    let spans = hl.highlight_line("fn main() {}", "rs");
    // "fn" is a Rust keyword — it should get a non-default color
    let fn_span = spans.iter().find(|s| s.text.trim() == "fn");
    if let Some(span) = fn_span {
        let (r, g, b) = span.style.fg;
        assert!(r > 0 || g > 0 || b > 0);
    }
}

#[test]
fn highlight_text_multiline() {
    let hl = SyntaxHighlighter::new();
    let lines = highlight_text(&hl, "fn a() {}\nfn b() {}\n", "rs");
    assert_eq!(lines.len(), 2);
    for line_spans in &lines {
        assert!(!line_spans.is_empty());
    }
}

#[test]
fn highlight_text_single_line_no_trailing_newline() {
    let hl = SyntaxHighlighter::new();
    let lines = highlight_text(&hl, "let x = 1;", "rs");
    assert_eq!(lines.len(), 1);
}

#[test]
fn highlight_text_keeps_each_line() {
    let hl = SyntaxHighlighter::new();
    let lines = highlight_text(&hl, "a\n\nb", "txt");
    let texts: Vec<String> = lines.iter().map(|l| joined_text(l)).collect();
    assert_eq!(texts, vec!["a\n", "\n", "b\n"]);
    assert!(highlight_text(&hl, "", "rs").is_empty());
}

#[test]
fn grammar_found_by_extension_is_found_by_its_name() {
    // The default set's grammars found by extension are the same grammars
    // that their names find.
    let set = syntect::parsing::SyntaxSet::load_defaults_newlines();
    for syntax in set.syntaxes() {
        for ext in &syntax.file_extensions {
            let by_ext = set.find_syntax_by_extension(ext).unwrap();
            let by_name = set.find_syntax_by_name(&by_ext.name).unwrap();
            assert!(std::ptr::eq(by_ext, by_name), "{} / {}", ext, by_ext.name);
        }
    }
}
