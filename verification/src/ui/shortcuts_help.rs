//! State of the keyboard-shortcuts overlay.
use vstd::prelude::*;
use crate::input::actions::Action;

verus! {

/// A line of the shortcuts overlay, by what it shows.
#[derive(Debug, Clone, Copy, PartialEq, Eq)]
pub enum HelpLine {
    Title(&'static str),
    Blank,
    Heading(&'static str),
    Separator,
    /// A key and what it does.
    Shortcut(&'static str, &'static str),
    Note(&'static str),
    Hint(&'static str),
}

/// The lines of the overlay, from the top.
pub open spec fn help_table() -> Seq<HelpLine> {
    seq![
        HelpLine::Title("  ⚡ Pika Keyboard Shortcuts"),
        HelpLine::Blank,
        HelpLine::Heading("  Global"),
        HelpLine::Separator,
        HelpLine::Shortcut("Ctrl+B", "Toggle sidebar"),
        HelpLine::Shortcut("Ctrl+P", "Open file finder / command palette"),
        HelpLine::Shortcut("Ctrl+S", "Save current file"),
        HelpLine::Shortcut("Ctrl+W", "Close current tab"),
        HelpLine::Shortcut("Ctrl+Q", "Quit"),
        HelpLine::Shortcut("Ctrl+Tab", "Next tab"),
        HelpLine::Shortcut("Ctrl+H", "Show/hide this help"),
        HelpLine::Shortcut("Ctrl+Shift+F", "Project-wide search"),
        HelpLine::Shortcut("Esc", "Switch focus (sidebar ↔ editor)"),
        HelpLine::Blank,
        HelpLine::Heading("  Editor — Navigation"),
        HelpLine::Separator,
        HelpLine::Shortcut("↑ / ↓ / ← / →", "Move cursor"),
        HelpLine::Shortcut("Ctrl+← / Ctrl+→", "Move by word"),
        HelpLine::Shortcut("Home", "Go to line start"),
        HelpLine::Shortcut("End", "Go to line end"),
        HelpLine::Shortcut("Ctrl+Home", "Go to file start"),
        HelpLine::Shortcut("Ctrl+End", "Go to file end"),
        HelpLine::Shortcut("Page Up / Page Down", "Scroll by page"),
        HelpLine::Shortcut("Ctrl+G", "Go to line number"),
        HelpLine::Blank,
        HelpLine::Heading("  Editor — Editing"),
        HelpLine::Separator,
        HelpLine::Shortcut("Ctrl+Z", "Undo"),
        HelpLine::Shortcut("Ctrl+Y", "Redo"),
        HelpLine::Shortcut("Ctrl+C", "Copy"),
        HelpLine::Shortcut("Ctrl+X", "Cut"),
        HelpLine::Shortcut("Ctrl+V", "Paste"),
        HelpLine::Shortcut("Ctrl+A", "Select all"),
        HelpLine::Shortcut("Ctrl+D", "Select next occurrence"),
        HelpLine::Shortcut("Tab", "Insert tab (spaces)"),
        HelpLine::Shortcut("Backspace", "Delete backward"),
        HelpLine::Shortcut("Delete", "Delete forward"),
        HelpLine::Blank,
        HelpLine::Heading("  Editor — Search"),
        HelpLine::Separator,
        HelpLine::Shortcut("Ctrl+F", "Find in file"),
        HelpLine::Shortcut("Ctrl+R", "Find and replace"),
        HelpLine::Blank,
        HelpLine::Heading("  Editor — LSP / IntelliSense"),
        HelpLine::Separator,
        HelpLine::Shortcut("Ctrl+Space", "Trigger autocomplete"),
        HelpLine::Shortcut("F12", "Go to definition"),
        HelpLine::Shortcut("Shift+F12", "Find references"),
        HelpLine::Shortcut("F2", "Rename symbol"),
        HelpLine::Shortcut("Ctrl+.", "Code actions / quick fix"),
        HelpLine::Shortcut("Ctrl+K, Ctrl+I", "Hover info"),
        HelpLine::Shortcut("Ctrl+Shift+I", "Format document"),
        HelpLine::Blank,
        HelpLine::Heading("  Sidebar — File Tree"),
        HelpLine::Separator,
        HelpLine::Shortcut("↑ / ↓", "Navigate files"),
        HelpLine::Shortcut("Enter", "Open file / toggle directory"),
        HelpLine::Shortcut("← / →", "Collapse / expand directory"),
        HelpLine::Shortcut("Ctrl+C", "Copy file"),
        HelpLine::Shortcut("Ctrl+X", "Cut file (move)"),
        HelpLine::Shortcut("Ctrl+V", "Paste file"),
        HelpLine::Shortcut("Delete", "Delete file (to trash)"),
        HelpLine::Shortcut("F2", "Rename file"),
        HelpLine::Shortcut("N", "New file"),
        HelpLine::Shortcut("Shift+N", "New directory"),
        HelpLine::Blank,
        HelpLine::Heading("  Drag & Drop"),
        HelpLine::Separator,
        HelpLine::Note("    Drag files from Finder into the terminal to copy them"),
        HelpLine::Note("    into the currently selected directory in the sidebar."),
        HelpLine::Blank,
        HelpLine::Heading("  Autocomplete Popup"),
        HelpLine::Separator,
        HelpLine::Shortcut("↑ / ↓", "Navigate suggestions"),
        HelpLine::Shortcut("Enter / Tab", "Accept suggestion"),
        HelpLine::Shortcut("Esc", "Dismiss"),
        HelpLine::Blank,
        HelpLine::Heading("  Command Palette"),
        HelpLine::Separator,
        HelpLine::Shortcut("↑ / ↓", "Navigate results"),
        HelpLine::Shortcut("Enter", "Open selected file"),
        HelpLine::Shortcut("Esc", "Dismiss"),
        HelpLine::Blank,
        HelpLine::Hint("  Scroll: ↑/↓ or Page Up/Page Down"),
    ]
}

/// A full-screen overlay showing all keyboard shortcuts.
pub struct ShortcutsHelp {
    pub visible: bool,
    pub scroll: usize,
}

impl ShortcutsHelp {
    pub fn new() -> (h: Self)
        ensures
            !h.visible,
            h.scroll == 0,
    {
        ShortcutsHelp { visible: false, scroll: 0 }
    }

    /// Flip visibility and scroll back to the top.
    pub fn toggle(&mut self)
        ensures
            final(self).visible == !old(self).visible,
            final(self).scroll == 0,
    {
        self.visible = !self.visible;
        self.scroll = 0;
    }

    pub fn close(&mut self)
        ensures
            !final(self).visible,
            final(self).scroll == 0,
    {
        self.visible = false;
        self.scroll = 0;
    }

    pub fn scroll_up(&mut self)
        ensures
            final(self).visible == old(self).visible,
            final(self).scroll == if old(self).scroll > 0 { old(self).scroll - 1 } else { 0 },
    {
        self.scroll = self.scroll.saturating_sub(1);
    }

    pub fn scroll_down(&mut self)
        requires
            old(self).scroll < usize::MAX,
        ensures
            final(self).visible == old(self).visible,
            final(self).scroll == old(self).scroll + 1,
    {
        self.scroll += 1;
    }

    /// `self` is `old` after it handled `action`, and `consumed` says whether it kept the action for itself.
    pub open spec fn handled(&self, old: &ShortcutsHelp, action: Action, consumed: bool) -> bool {
        &&& consumed == !(action matches Action::Quit)
        &&& match action {
            Action::CursorUp | Action::TreeUp | Action::CompletionUp | Action::PaletteUp =>
                self.visible == old.visible
                && self.scroll == if old.scroll > 0 { old.scroll - 1 } else { 0 },
            Action::CursorDown | Action::TreeDown | Action::CompletionDown | Action::PaletteDown =>
                self.visible == old.visible
                && self.scroll == old.scroll + 1,
            Action::PageUp =>
                self.visible == old.visible
                && self.scroll == if old.scroll >= 10 { old.scroll - 10 } else { 0 },
            Action::PageDown =>
                self.visible == old.visible
                && self.scroll == old.scroll + 10,
            Action::ShowShortcuts | Action::FocusNext | Action::CompletionDismiss
            | Action::PaletteDismiss | Action::Quit =>
                !self.visible && self.scroll == 0,
            _ => *self == *old,
        }
    }

    /// Handle an action while the overlay is open. Returns `false` only for
    /// `Quit`, which the app must still see; every other action is absorbed.
    /// Scrolling for `action` stays below `usize::MAX`.
    pub open spec fn ready_for(&self, action: Action) -> bool {
        match action {
            Action::PageDown => self.scroll <= usize::MAX - 10,
            Action::CursorDown | Action::TreeDown | Action::CompletionDown | Action::PaletteDown => self.scroll
                < usize::MAX,
            _ => true,
        }
    }

    /// Whether scrolling for `action` stays below `usize::MAX` (see
    /// [`ShortcutsHelp::ready_for`]).
    pub fn is_ready_for(&self, action: &Action) -> (r: bool)
        ensures
            r == self.ready_for(*action),
    {
        match action {
            Action::PageDown => self.scroll <= usize::MAX - 10,
            Action::CursorDown | Action::TreeDown | Action::CompletionDown | Action::PaletteDown => self.scroll
                < usize::MAX,
            _ => true,
        }
    }

    pub fn handle_action(&mut self, action: &Action) -> (consumed: bool)
        requires
            old(self).ready_for(*action),
        ensures
            final(self).handled(old(self), *action, consumed),
    {
        match action {
            Action::CursorUp | Action::TreeUp | Action::CompletionUp | Action::PaletteUp => {
                self.scroll_up();
                true
            },
            Action::CursorDown | Action::TreeDown | Action::CompletionDown | Action::PaletteDown => {
                self.scroll_down();
                true
            },
            Action::PageUp => {
                self.scroll = self.scroll.saturating_sub(10);
                true
            },
            Action::PageDown => {
                self.scroll += 10;
                true
            },
            Action::ShowShortcuts | Action::FocusNext | Action::CompletionDismiss
            | Action::PaletteDismiss => {
                self.close();
                true
            },
            Action::Quit => {
                self.close();
                false
            },
            _ => true,
        }
    }

    /// The lines of the overlay, from the top: a title, then for each area a
    /// heading, a separator and its shortcuts, each area followed by a blank
    /// line, and a closing hint.
    pub fn build_lines() -> (r: Vec<HelpLine>)
        ensures
            r@ == help_table(),
    {
        let v = vec![
            HelpLine::Title("  ⚡ Pika Keyboard Shortcuts"),
            HelpLine::Blank,
            HelpLine::Heading("  Global"),
            HelpLine::Separator,
            HelpLine::Shortcut("Ctrl+B", "Toggle sidebar"),
            HelpLine::Shortcut("Ctrl+P", "Open file finder / command palette"),
            HelpLine::Shortcut("Ctrl+S", "Save current file"),
            HelpLine::Shortcut("Ctrl+W", "Close current tab"),
            HelpLine::Shortcut("Ctrl+Q", "Quit"),
            HelpLine::Shortcut("Ctrl+Tab", "Next tab"),
            HelpLine::Shortcut("Ctrl+H", "Show/hide this help"),
            HelpLine::Shortcut("Ctrl+Shift+F", "Project-wide search"),
            HelpLine::Shortcut("Esc", "Switch focus (sidebar ↔ editor)"),
            HelpLine::Blank,
            HelpLine::Heading("  Editor — Navigation"),
            HelpLine::Separator,
            HelpLine::Shortcut("↑ / ↓ / ← / →", "Move cursor"),
            HelpLine::Shortcut("Ctrl+← / Ctrl+→", "Move by word"),
            HelpLine::Shortcut("Home", "Go to line start"),
            HelpLine::Shortcut("End", "Go to line end"),
            HelpLine::Shortcut("Ctrl+Home", "Go to file start"),
            HelpLine::Shortcut("Ctrl+End", "Go to file end"),
            HelpLine::Shortcut("Page Up / Page Down", "Scroll by page"),
            HelpLine::Shortcut("Ctrl+G", "Go to line number"),
            HelpLine::Blank,
            HelpLine::Heading("  Editor — Editing"),
            HelpLine::Separator,
            HelpLine::Shortcut("Ctrl+Z", "Undo"),
            HelpLine::Shortcut("Ctrl+Y", "Redo"),
            HelpLine::Shortcut("Ctrl+C", "Copy"),
            HelpLine::Shortcut("Ctrl+X", "Cut"),
            HelpLine::Shortcut("Ctrl+V", "Paste"),
            HelpLine::Shortcut("Ctrl+A", "Select all"),
            HelpLine::Shortcut("Ctrl+D", "Select next occurrence"),
            HelpLine::Shortcut("Tab", "Insert tab (spaces)"),
            HelpLine::Shortcut("Backspace", "Delete backward"),
            HelpLine::Shortcut("Delete", "Delete forward"),
            HelpLine::Blank,
            HelpLine::Heading("  Editor — Search"),
            HelpLine::Separator,
            HelpLine::Shortcut("Ctrl+F", "Find in file"),
            HelpLine::Shortcut("Ctrl+R", "Find and replace"),
            HelpLine::Blank,
            HelpLine::Heading("  Editor — LSP / IntelliSense"),
            HelpLine::Separator,
            HelpLine::Shortcut("Ctrl+Space", "Trigger autocomplete"),
            HelpLine::Shortcut("F12", "Go to definition"),
            HelpLine::Shortcut("Shift+F12", "Find references"),
            HelpLine::Shortcut("F2", "Rename symbol"),
            HelpLine::Shortcut("Ctrl+.", "Code actions / quick fix"),
            HelpLine::Shortcut("Ctrl+K, Ctrl+I", "Hover info"),
            HelpLine::Shortcut("Ctrl+Shift+I", "Format document"),
            HelpLine::Blank,
            HelpLine::Heading("  Sidebar — File Tree"),
            HelpLine::Separator,
            HelpLine::Shortcut("↑ / ↓", "Navigate files"),
            HelpLine::Shortcut("Enter", "Open file / toggle directory"),
            HelpLine::Shortcut("← / →", "Collapse / expand directory"),
            HelpLine::Shortcut("Ctrl+C", "Copy file"),
            HelpLine::Shortcut("Ctrl+X", "Cut file (move)"),
            HelpLine::Shortcut("Ctrl+V", "Paste file"),
            HelpLine::Shortcut("Delete", "Delete file (to trash)"),
            HelpLine::Shortcut("F2", "Rename file"),
            HelpLine::Shortcut("N", "New file"),
            HelpLine::Shortcut("Shift+N", "New directory"),
            HelpLine::Blank,
            HelpLine::Heading("  Drag & Drop"),
            HelpLine::Separator,
            HelpLine::Note("    Drag files from Finder into the terminal to copy them"),
            HelpLine::Note("    into the currently selected directory in the sidebar."),
            HelpLine::Blank,
            HelpLine::Heading("  Autocomplete Popup"),
            HelpLine::Separator,
            HelpLine::Shortcut("↑ / ↓", "Navigate suggestions"),
            HelpLine::Shortcut("Enter / Tab", "Accept suggestion"),
            HelpLine::Shortcut("Esc", "Dismiss"),
            HelpLine::Blank,
            HelpLine::Heading("  Command Palette"),
            HelpLine::Separator,
            HelpLine::Shortcut("↑ / ↓", "Navigate results"),
            HelpLine::Shortcut("Enter", "Open selected file"),
            HelpLine::Shortcut("Esc", "Dismiss"),
            HelpLine::Blank,
            HelpLine::Hint("  Scroll: ↑/↓ or Page Up/Page Down"),
        ];
        assert(v@ =~= help_table());
        v
    }
}

} // verus!
