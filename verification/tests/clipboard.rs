use pika::editor::clipboard::Clipboard;

/// Helper: create a clipboard that is guaranteed to use the fallback path.
fn fallback_clipboard() -> Clipboard {
    Clipboard {
        system: None,
        fallback: String::new(),
    }
}

#[test]
fn clipboard_new_does_not_panic() {
    // Should succeed on any platform, even CI without a display.
    let _cb = Clipboard::new();
}

#[test]
fn fallback_set_and_get() {
    let mut cb = fallback_clipboard();
    cb.set_text("hello clipboard");
    assert_eq!(cb.get_text(), "hello clipboard");
}

#[test]
fn fallback_empty_initially() {
    let mut cb = fallback_clipboard();
    assert_eq!(cb.get_text(), "");
}

#[test]
fn fallback_overwrite() {
    let mut cb = fallback_clipboard();
    cb.set_text("first");
    cb.set_text("second");
    assert_eq!(cb.get_text(), "second");
}

#[test]
fn fallback_multiline_text() {
    let mut cb = fallback_clipboard();
    let text = "line one\nline two\nline three";
    cb.set_text(text);
    assert_eq!(cb.get_text(), text);
}

#[test]
fn fallback_unicode() {
    let mut cb = fallback_clipboard();
    let text = "日本語 🚀 café";
    cb.set_text(text);
    assert_eq!(cb.get_text(), text);
}

#[test]
fn fallback_empty_string() {
    let mut cb = fallback_clipboard();
    cb.set_text("something");
    cb.set_text("");
    assert_eq!(cb.get_text(), "");
}

#[test]
fn has_system_clipboard_fallback() {
    let cb = fallback_clipboard();
    assert!(!cb.has_system_clipboard());
}


#[test]
fn clipboard_default_trait() {
    // Default should be the same as new() — just make sure it doesn't panic.
    let _cb: Clipboard = Default::default();
}
