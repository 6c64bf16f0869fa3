//! System clipboard access with a fallback buffer for headless environments.
use vstd::prelude::*;
use arboard::Clipboard as SystemClipboard;

verus! {

#[verifier::external_type_specification]
#[verifier::external_body]
pub struct ExSystemClipboard(SystemClipboard);

/// `arboard::Clipboard::new`: a handle on the system clipboard, if one can
/// be opened. Nothing is stated of the answer, which depends on the
/// environment.
#[verifier::external_body]
fn open_system_clipboard() -> Option<SystemClipboard> {
    SystemClipboard::new().ok()
}

/// `arboard::Clipboard::get_text`: the text on the system clipboard, if it
/// can be read. Nothing is stated of the answer, which another program may
/// have set.
#[verifier::external_body]
fn system_get_text(cb: &mut SystemClipboard) -> Option<String> {
    cb.get_text().ok()
}

/// `arboard::Clipboard::set_text`: put text on the system clipboard;
/// failures are ignored.
#[verifier::external_body]
fn system_set_text(cb: &mut SystemClipboard, text: &str) {
    let _ = cb.set_text(text.to_owned());
}

/// Clipboard wrapper that falls back to an internal buffer when the system
/// clipboard is unavailable (e.g., headless servers, SSH sessions).
pub struct Clipboard {
    pub system: Option<SystemClipboard>,
    pub fallback: String,
}

impl Clipboard {
    /// Create a new clipboard, connected to the system clipboard if one can
    /// be opened.
    pub fn new() -> (c: Self)
        ensures
            c.fallback@.len() == 0,
    {
        Clipboard { system: open_system_clipboard(), fallback: String::new() }
    }

    /// Get text from the clipboard: the system clipboard's text when it can
    /// be read, otherwise the internal buffer.
    pub fn get_text(&mut self) -> (r: String)
        ensures
            old(self).system is None ==> r@ == old(self).fallback@,
            final(self).fallback == old(self).fallback,
            final(self).system is Some == old(self).system is Some,
    {
        match &mut self.system {
            Some(cb) => {
                match system_get_text(cb) {
                    Some(text) => {
                        return text;
                    },
                    None => {},
                }
            },
            None => {},
        }
        self.fallback.clone()
    }

    /// Set text on the clipboard: it is kept in the internal buffer and put
    /// on the system clipboard when there is one.
    pub fn set_text(&mut self, text: &str)
        ensures
            final(self).fallback@ == text@,
            final(self).system is Some == old(self).system is Some,
    {
        self.fallback = text.to_owned();
        match &mut self.system {
            Some(cb) => {
                system_set_text(cb, text);
            },
            None => {},
        }
    }

    /// Returns `true` if the system clipboard is available.
    pub fn has_system_clipboard(&self) -> (r: bool)
        ensures
            r == self.system is Some,
    {
        self.system.is_some()
    }
}

impl Default for Clipboard {
    fn default() -> (c: Self)
        ensures
            c.fallback@.len() == 0,
    {
        Self::new()
    }
}

} // verus!
