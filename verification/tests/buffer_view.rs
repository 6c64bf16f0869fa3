use pika::editor::cursor::{Position, Selection};
use pika::editor::syntax::{fallback_extension, syntax_name_for};
use pika::lsp::framing::{header_line, message_kind, HeaderLine, MessageKind};
use pika::ui::buffer::Buffer;
use pika::ui::buffer_view::overlay_range;
use pika::ui::shortcuts_help::{HelpLine, ShortcutsHelp};

fn chars(s: &str) -> Vec<char> {
    s.chars().collect()
}

fn text(v: &[char]) -> String {
    v.iter().collect()
}

#[test]
fn test_overlay_splits_at_range() {
    let spans = vec![(chars("hello"), 1u8), (chars(" world"), 2u8)];
    let out = overlay_range(&spans, 3, 8);
    let shown: Vec<(String, u8, bool)> = out.iter().map(|(t, s, h)| (text(t), *s, *h)).collect();
    assert_eq!(
        shown,
        vec![
            ("hel".to_string(), 1, false),
            ("lo".to_string(), 1, true),
            (" wo".to_string(), 2, true),
            ("rld".to_string(), 2, false),
        ]
    );
}

#[test]
fn test_overlay_keeps_text_and_empty_range() {
    let spans = vec![(chars("abc"), 0u8), (chars("def"), 1u8)];
    let out = overlay_range(&spans, 4, 4);
    assert_eq!(out.len(), 2);
    assert!(out.iter().all(|(_, _, h)| !h));
    let out = overlay_range(&spans, 0, 100);
    let joined: String = out.iter().map(|(t, _, _)| text(t)).collect();
    assert_eq!(joined, "abcdef");
    assert!(out.iter().all(|(_, _, h)| *h));
}

#[test]
fn test_visible_line_and_rows() {
    let mut buf = Buffer::from_text("first line\r\nsecond\n\nlast");
    buf.horizontal_scroll = 2;
    assert_eq!(text(&buf.visible_line(0)), "rst line");
    assert_eq!(text(&buf.visible_line(1)), "cond");
    assert_eq!(text(&buf.visible_line(2)), "");
    assert_eq!(text(&buf.visible_line(9)), "");
    buf.viewport_height = 2;
    buf.scroll_offset = 3;
    assert_eq!(buf.visible_rows(), (3, 4));
}

#[test]
fn test_selection_columns() {
    let mut buf = Buffer::from_text("abcdef\nghijkl\nmnopqr");
    buf.cursor.selection = Some(Selection::new(Position { line: 2, col: 3 }, Position { line: 0, col: 2 }));
    assert_eq!(buf.selection_columns(0, 6), Some((2, 6)));
    assert_eq!(buf.selection_columns(1, 6), Some((0, 6)));
    assert_eq!(buf.selection_columns(2, 6), Some((0, 3)));
    buf.horizontal_scroll = 4;
    assert_eq!(buf.selection_columns(2, 2), None);
    buf.cursor.selection = None;
    assert_eq!(buf.selection_columns(1, 6), None);
}

#[test]
fn test_match_columns() {
    let mut buf = Buffer::from_text("one two one\nthree");
    buf.search.query = "one".to_string();
    buf.search.matches = vec![(0, 0), (0, 8), (1, 0)];
    buf.search.current = 1;
    assert_eq!(buf.match_columns(0, 3), vec![(3, 6, false), (11, 14, true)]);
    assert_eq!(buf.match_columns(1, 3), vec![(3, 6, false)]);
    buf.search.query = String::new();
    assert!(buf.match_columns(0, 3).is_empty());
}

#[test]
fn test_help_lines() {
    let lines = ShortcutsHelp::build_lines();
    assert_eq!(lines[0], HelpLine::Title("  ⚡ Pika Keyboard Shortcuts"));
    assert_eq!(lines[1], HelpLine::Blank);
    assert_eq!(lines[2], HelpLine::Heading("  Global"));
    assert_eq!(lines[3], HelpLine::Separator);
    assert_eq!(lines[4], HelpLine::Shortcut("Ctrl+B", "Toggle sidebar"));
    assert_eq!(*lines.last().unwrap(), HelpLine::Hint("  Scroll: ↑/↓ or Page Up/Page Down"));
    assert_eq!(lines.len(), 84);
}

#[test]
fn test_syntax_fallbacks() {
    assert_eq!(syntax_name_for("tsx"), Some("TypeScript React"));
    assert_eq!(syntax_name_for("yml"), Some("YAML"));
    assert_eq!(syntax_name_for("rs"), None);
    assert_eq!(fallback_extension("mjs"), Some("js"));
    assert_eq!(fallback_extension("toml"), Some("ini"));
    assert_eq!(fallback_extension("py"), None);
}

#[test]
fn test_header_lines_and_message_kinds() {
    assert_eq!(header_line("Content-Length: 42\r\n"), HeaderLine::ContentLength(Some(42)));
    assert_eq!(header_line("Content-Length: x"), HeaderLine::ContentLength(None));
    assert_eq!(header_line("Content-Type: utf-8"), HeaderLine::Other);
    assert_eq!(header_line("\r\n"), HeaderLine::End);
    assert_eq!(message_kind(true, false), MessageKind::Response);
    assert_eq!(message_kind(false, true), MessageKind::Notification);
    assert_eq!(message_kind(true, true), MessageKind::ServerRequest);
    assert_eq!(message_kind(false, false), MessageKind::Unrecognised);
}
