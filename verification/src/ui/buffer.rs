//! A buffer: one open file with its cursor, selection, undo history, search
//! state and viewport.
use vstd::prelude::*;
use std::collections::HashMap;
use crate::editor::clipboard::Clipboard;
use crate::editor::cursor::{CursorState, Position, Selection};
use crate::editor::document::{
    Document, lemma_line_bounds, lemma_line_len_bound, lemma_line_start_exists, char_at_spec, inserted, lemma_delete_undoes_insert, line_len, line_or_empty, pos_index, pos_ok, removed,
};
use crate::editor::history::{
    Edit, EditView, HistoryView, UndoHistory, invert_view, lemma_record_then_undo, lemma_undo_edits_involution,
    lemma_undo_then_redo, spec_record, spec_redo,
    spec_undo, undo_edits,
};
use crate::editor::rope::{
    breaks_before, ends_line, is_break_char, is_line_start, lemma_breaks_monotonic, lemma_line_start_unique,
    line_count, line_start, rope_len_chars, rope_line_to_char, rope_slice_string,
};
use crate::text::{
    chars_of, find_from, is_alphanumeric, is_whitespace, parse_usize, parse_usize_spec, string_pop, word_char, lowercase, occurs_at, string_from_range, string_push, to_lowercase,
    whitespace,
};
use crate::ui::search_bar::{GotoLineBar, SearchBar};
use crate::input::actions::Action;
use crate::ui::command::AppCommand;
use crate::ui::undo_chain::{
    history_fits, typing_spot, lemma_backspaced_consistent, lemma_forward_deleted_consistent, lemma_handled_keeps_history,
    lemma_inserted_consistent, lemma_selection_cleared, lemma_undo_redo_consistent,
};
use crate::path::{extension_of, file_name_of, path_extension, path_file_name};

verus! {

/// The number of decimal digits of `n`.
pub open spec fn num_digits(n: nat) -> nat
    decreases n,
{
    if n < 10 { 1 } else { 1 + num_digits(n / 10) }
}

/// The width of the line-number gutter: the digits of the line count plus padding.
pub open spec fn gutter_for(t: Seq<char>) -> nat {
    num_digits(line_count(t)) + 2
}

/// The scroll offset along one axis that brings `x` into a window of `size`
/// cells starting at `offset`.
pub open spec fn follow(x: usize, offset: usize, size: int) -> usize {
    if x < offset {
        x
    } else if x - offset >= size {
        (x - size + 1) as usize
    } else {
        offset
    }
}

/// The vertical and horizontal scroll offsets that bring `pos` into view.
pub open spec fn scroll_for(
    pos: Position,
    scroll: usize,
    hscroll: usize,
    vh: usize,
    vw: usize,
    gutter: nat,
) -> (usize, usize) {
    let visible = if vw >= gutter { vw - gutter } else { 0 };
    (follow(pos.line, scroll, vh as int), follow(pos.col, hscroll, visible))
}

/// The index just after a run of whitespace that ends at `i`.
pub open spec fn skip_ws_back(l: Seq<char>, i: int) -> int
    decreases i,
{
    if i > 0 && i <= l.len() && whitespace(l[i - 1]) { skip_ws_back(l, i - 1) } else { i }
}

/// The index where a run of non-whitespace that ends at `i` starts.
pub open spec fn skip_word_back(l: Seq<char>, i: int) -> int
    decreases i,
{
    if i > 0 && i <= l.len() && !whitespace(l[i - 1]) { skip_word_back(l, i - 1) } else { i }
}

/// The index after a run of non-whitespace that starts at `i`.
pub open spec fn skip_word_fwd(l: Seq<char>, i: int) -> int
    decreases l.len() - i,
{
    if 0 <= i < l.len() && !whitespace(l[i]) { skip_word_fwd(l, i + 1) } else { i }
}

/// The index after a run of whitespace that starts at `i`.
pub open spec fn skip_ws_fwd(l: Seq<char>, i: int) -> int
    decreases l.len() - i,
{
    if 0 <= i < l.len() && whitespace(l[i]) { skip_ws_fwd(l, i + 1) } else { i }
}

/// The size of a page step for a viewport of height `h`: two lines less,
/// at least zero.
pub open spec fn jump_of(h: usize) -> int {
    if h >= 2 { h - 2 } else { 0 }
}

/// `a - b`, or zero when `b` is larger.
pub open spec fn sat_sub(a: int, b: int) -> int {
    if a >= b { a - b } else { 0 }
}

/// `a + b`, but at most `cap`.
pub open spec fn capped_add(a: int, b: int, cap: int) -> int {
    if a + b <= cap { a + b } else { cap }
}

/// The column the cursor takes on line `n` when it wants column `desired`:
/// that column, or the line's length if the line is shorter.
pub open spec fn clamped_col(t: Seq<char>, n: int, desired: usize) -> int {
    if desired <= line_len(t, n) { desired as int } else { line_len(t, n) }
}

/// The name of a buffer without a file.
pub open spec fn untitled() -> Seq<char> {
    seq!['u', 'n', 't', 'i', 't', 'l', 'e', 'd']
}

/// The extension assumed for a buffer without one.
pub open spec fn plain_extension() -> Seq<char> {
    seq!['t', 'x', 't']
}

/// What backspace does without a selection to text `t` with the cursor at
/// `p`: the text, the cursor position, the edit recorded, and whether
/// anything was removed. Inside a line the character before the cursor
/// goes; at the start of a line the line joins the previous one.
pub open spec fn backspace_of(t: Seq<char>, p: Position) -> (Seq<char>, Position, Option<EditView>, bool) {
    if p.col > 0 {
        let d = Position { line: p.line, col: (p.col - 1) as usize };
        match char_at_spec(t, d) {
            Some(c) => (
                removed(t, pos_index(t, d), pos_index(t, p)),
                d,
                Some(EditView::Delete { pos: (d.line, d.col), text: seq![c] }),
                true,
            ),
            None => (t, p, None, false),
        }
    } else if p.line > 0 {
        let f = Position { line: (p.line - 1) as usize, col: line_len(t, p.line - 1) as usize };
        (
            removed(t, pos_index(t, f), pos_index(t, p)),
            f,
            Some(EditView::Delete { pos: (f.line, f.col), text: seq!['\n'] }),
            pos_index(t, f) < pos_index(t, p),
        )
    } else {
        (t, p, None, false)
    }
}

/// A selection, if any, covers a range of `t`: both ends are valid
/// positions and the start's index is not past the end's.
pub open spec fn selection_ok(t: Seq<char>, sel: Option<Selection>) -> bool {
    match sel {
        Some(s) => {
            &&& pos_ok(t, s.start())
            &&& pos_ok(t, s.end())
            &&& pos_index(t, s.start()) <= pos_index(t, s.end())
        },
        None => true,
    }
}

/// The text and cursor position a backspace leaves: the selection deleted
/// with the cursor at its start, or the backspace without a selection.
pub open spec fn backspace_state(t: Seq<char>, p: Position, sel: Option<Selection>) -> (Seq<char>, Position) {
    match sel {
        Some(s) => (removed(t, pos_index(t, s.start()), pos_index(t, s.end())), s.start()),
        None => (backspace_of(t, p).0, backspace_of(t, p).1),
    }
}

/// A backspace can be made at `p` in `t` with selection `sel`.
pub open spec fn backspace_ok(t: Seq<char>, p: Position, sel: Option<Selection>) -> bool {
    &&& t.len() + 1 < usize::MAX
    &&& p.line < usize::MAX
    &&& p.col < usize::MAX
    &&& selection_ok(t, sel)
    &&& (sel is None && p.col == 0 && p.line > 0 ==> p.line <= line_count(t))
}

/// The text and cursor position once the selection, if any, is deleted.
pub open spec fn cleared_state(t: Seq<char>, p: Position, sel: Option<Selection>) -> (Seq<char>, Position) {
    match sel {
        Some(s) => (removed(t, pos_index(t, s.start()), pos_index(t, s.end())), s.start()),
        None => (t, p),
    }
}

/// A character can be typed at `p` in `t` with selection `sel`.
pub open spec fn typing_ok(t: Seq<char>, p: Position, sel: Option<Selection>) -> bool {
    &&& t.len() + 2 < usize::MAX
    &&& p.line < usize::MAX
    &&& p.col < usize::MAX
    &&& selection_ok(t, sel)
    &&& (sel is None ==> pos_ok(t, p))
}

/// The text and cursor position after typing `c`: the selection is deleted
/// and `c` goes where it started.
pub open spec fn typed_state(t: Seq<char>, p: Position, sel: Option<Selection>, c: char) -> (Seq<char>, Position) {
    let tc = cleared_state(t, p, sel).0;
    let pc = cleared_state(t, p, sel).1;
    (inserted(tc, pos_index(tc, pc), seq![c]), Position { line: pc.line, col: (pc.col + 1) as usize })
}

/// `k` backspaces followed by typing `s` can all be made, starting from text
/// `t`, cursor `p` and selection `sel`.
pub open spec fn retype_ok(t: Seq<char>, p: Position, sel: Option<Selection>, k: nat, s: Seq<char>) -> bool
    decreases k, s.len(),
{
    if k > 0 {
        &&& backspace_ok(t, p, sel)
        &&& retype_ok(backspace_state(t, p, sel).0, backspace_state(t, p, sel).1, None, (k - 1) as nat, s)
    } else if s.len() > 0 {
        &&& typing_ok(t, p, sel)
        &&& retype_ok(typed_state(t, p, sel, s[0]).0, typed_state(t, p, sel, s[0]).1, None, 0, s.drop_first())
    } else {
        true
    }
}

/// The text and cursor position after `k` backspaces followed by typing
/// `s`, starting from text `t`, cursor `p` and selection `sel`.
pub open spec fn retyped(t: Seq<char>, p: Position, sel: Option<Selection>, k: nat, s: Seq<char>) -> (Seq<char>, Position)
    decreases k, s.len(),
{
    if k > 0 {
        retyped(backspace_state(t, p, sel).0, backspace_state(t, p, sel).1, None, (k - 1) as nat, s)
    } else if s.len() > 0 {
        retyped(typed_state(t, p, sel, s[0]).0, typed_state(t, p, sel, s[0]).1, None, 0, s.drop_first())
    } else {
        (t, p)
    }
}

/// A buffer represents a single open file with its editing state.
pub struct Buffer {
    pub document: Document,
    pub cursor: CursorState,
    pub history: UndoHistory,
    pub clipboard: Clipboard,
    pub search: SearchBar,
    pub goto_line: GotoLineBar,
    pub multi_select_query: Option<String>,
    pub scroll_offset: usize,
    pub horizontal_scroll: usize,
    pub viewport_height: usize,
    pub viewport_width: usize,
}

impl Buffer {
    /// The document's text.
    pub open spec fn text(&self) -> Seq<char> {
        self.document.text_view()
    }

    /// The number of lines of the document.
    pub open spec fn lines(&self) -> nat {
        line_count(self.text())
    }

    /// The scroll offsets that bring `pos` into view from this buffer's
    /// offsets and viewport.
    pub open spec fn scrolled_to(&self, pos: Position) -> (usize, usize) {
        scroll_for(
            pos,
            self.scroll_offset,
            self.horizontal_scroll,
            self.viewport_height,
            self.viewport_width,
            gutter_for(self.text()),
        )
    }

    /// Everything but the cursor and the scroll offsets is as in `other`.
    pub open spec fn same_content(&self, other: &Buffer) -> bool {
        &&& self.document == other.document
        &&& self.history == other.history
        &&& self.clipboard == other.clipboard
        &&& self.search == other.search
        &&& self.goto_line == other.goto_line
        &&& self.multi_select_query == other.multi_select_query
        &&& self.viewport_height == other.viewport_height
        &&& self.viewport_width == other.viewport_width
    }

    /// The cursor of `self` is in view from the offsets of `old`.
    pub open spec fn follows(&self, old: &Buffer) -> bool {
        (self.scroll_offset, self.horizontal_scroll) == old.scrolled_to(self.cursor.position)
    }

    /// The position the cursor moves to one line up, keeping the desired column.
    pub open spec fn pos_up(&self) -> Position {
        let p = self.cursor.position;
        if p.line > 0 {
            let n = (p.line - 1) as usize;
            let ll = line_len(self.text(), n as int);
            Position { line: n, col: if self.cursor.desired_col <= ll { self.cursor.desired_col } else { ll as usize } }
        } else {
            p
        }
    }

    /// The position one line down, keeping the desired column.
    pub open spec fn pos_down(&self) -> Position {
        let p = self.cursor.position;
        if p.line + 1 < self.lines() {
            let n = (p.line + 1) as usize;
            let ll = line_len(self.text(), n as int);
            Position { line: n, col: if self.cursor.desired_col <= ll { self.cursor.desired_col } else { ll as usize } }
        } else {
            p
        }
    }

    /// The position one character left, to the end of the previous line at a line start.
    pub open spec fn pos_left(&self) -> Position {
        let p = self.cursor.position;
        if p.col > 0 {
            Position { line: p.line, col: (p.col - 1) as usize }
        } else if p.line > 0 {
            Position { line: (p.line - 1) as usize, col: line_len(self.text(), p.line - 1) as usize }
        } else {
            p
        }
    }

    /// The position one character right, to the start of the next line at a line end.
    pub open spec fn pos_right(&self) -> Position {
        let p = self.cursor.position;
        if p.col < line_len(self.text(), p.line as int) {
            Position { line: p.line, col: (p.col + 1) as usize }
        } else if p.line + 1 < self.lines() {
            Position { line: (p.line + 1) as usize, col: 0 }
        } else {
            p
        }
    }

    /// The position at the start of the word before the cursor (or the end
    /// of the previous line at a line start).
    pub open spec fn pos_word_left(&self) -> Position {
        let p = self.cursor.position;
        let l = line_or_empty(self.text(), p.line as int);
        if p.col == 0 {
            if p.line > 0 {
                Position { line: (p.line - 1) as usize, col: line_len(self.text(), p.line - 1) as usize }
            } else {
                p
            }
        } else {
            let i = if p.col <= l.len() { p.col as int } else { l.len() as int };
            Position { line: p.line, col: skip_word_back(l, skip_ws_back(l, i)) as usize }
        }
    }

    /// The position at the start of the word after the cursor (or the start
    /// of the next line at a line end).
    pub open spec fn pos_word_right(&self) -> Position {
        let p = self.cursor.position;
        let l = line_or_empty(self.text(), p.line as int);
        if p.col >= line_len(self.text(), p.line as int) {
            if p.line + 1 < self.lines() {
                Position { line: (p.line + 1) as usize, col: 0 }
            } else {
                p
            }
        } else {
            Position { line: p.line, col: skip_ws_fwd(l, skip_word_fwd(l, p.col as int)) as usize }
        }
    }

    /// The position at the end of the cursor's line.
    pub open spec fn pos_line_end(&self) -> Position {
        Position { line: self.cursor.position.line, col: line_len(self.text(), self.cursor.position.line as int) as usize }
    }

    /// The position at the end of the last line.
    pub open spec fn pos_file_end(&self) -> Position {
        let last = if self.lines() > 0 { (self.lines() - 1) as usize } else { 0 };
        Position { line: last, col: line_len(self.text(), last as int) as usize }
    }

    /// The selection after moving the head to `pos` while selecting: anchored
    /// where the selection (or the cursor) was, and gone if empty.
    pub open spec fn extended_to(&self, pos: Position) -> Option<Selection> {
        let anchor = match self.cursor.selection {
            Some(s) => s.anchor,
            None => self.cursor.position,
        };
        if anchor == pos { None } else { Some(Selection { anchor, head: pos }) }
    }

    /// The machine limits that cursor arithmetic relies on: the text is
    /// shorter than `usize::MAX - 1` characters and the cursor's line and
    /// column are below `usize::MAX`.
    pub open spec fn within_limits(&self) -> bool {
        &&& self.text().len() + 1 < usize::MAX
        &&& self.cursor.position.line < usize::MAX
        &&& self.cursor.position.col < usize::MAX
    }

    /// The cursor after a plain move to `pos` with the given desired column.
    pub open spec fn moved(&self, pos: Position, desired: usize) -> CursorState {
        CursorState { position: pos, selection: None, desired_col: desired }
    }

    /// The cursor after a selecting move to `pos`.
    pub open spec fn selected(&self, pos: Position, desired: usize) -> CursorState {
        CursorState { position: pos, selection: self.extended_to(pos), desired_col: desired }
    }

    /// The desired column after a horizontal step that may not move:
    /// the new column if the cursor moved, else unchanged.
    pub open spec fn desired_after(&self, pos: Position) -> usize {
        if pos == self.cursor.position { self.cursor.desired_col } else { pos.col }
    }

    /// The other panels and settings of the buffer are as in `other`.
    pub open spec fn same_panels(&self, other: &Buffer) -> bool {
        &&& self.clipboard == other.clipboard
        &&& self.search == other.search
        &&& self.goto_line == other.goto_line
        &&& self.viewport_height == other.viewport_height
        &&& self.viewport_width == other.viewport_width
    }

    /// The document keeps its path and language.
    pub open spec fn same_file(&self, other: &Buffer) -> bool {
        &&& self.document.file_path == other.document.file_path
        &&& self.document.language_id == other.document.language_id
        &&& self.document.version == other.document.version
    }

    /// The offsets are those that bring the cursor into view from `offsets`,
    /// with this buffer's viewport and gutter.
    pub open spec fn in_view_from(&self, offsets: (usize, usize)) -> bool {
        (self.scroll_offset, self.horizontal_scroll) == scroll_for(
            self.cursor.position,
            offsets.0,
            offsets.1,
            self.viewport_height,
            self.viewport_width,
            gutter_for(self.text()),
        )
    }

    /// The selection, if any, covers a range of the text: both ends are
    /// valid positions and the start's index is not past the end's.
    pub open spec fn sel_ok(&self) -> bool {
        selection_ok(self.text(), self.cursor.selection)
    }

    /// An edit at the cursor can be made: the selection covers a range of
    /// the text, or without one the cursor is at a valid position.
    pub open spec fn edit_ready(&self) -> bool {
        &&& self.sel_ok()
        &&& (self.cursor.selection is None ==> pos_ok(self.text(), self.cursor.position))
    }

    /// The undo history fits the text: every group on the undo stack,
    /// inverted, applies to the text and gives back the text from before
    /// it, and every group on the redo stack applies to it again.
    pub open spec fn history_consistent(&self) -> bool {
        history_fits(self.text(), self.history.view())
    }

    /// Where an edit at the cursor starts lies on its line: the start of the
    /// selection (whose end is a valid position not before it), or without
    /// one the cursor.
    pub open spec fn edit_on_line(&self) -> bool {
        match self.cursor.selection {
            Some(sel) => {
                &&& on_line(self.text(), sel.start())
                &&& pos_ok(self.text(), sel.end())
                &&& pos_index(self.text(), sel.start()) <= pos_index(self.text(), sel.end())
            },
            None => on_line(self.text(), self.cursor.position),
        }
    }

    /// Handling `action` keeps the history fitting the text. Every action
    /// does but the search bar's replacements, which change the text without
    /// recording it, and edits made where the recorded edit would not give
    /// the text back. Without a selection, typing, a new line, a tab and a
    /// paste of text without line breaks do at a place on its line that does
    /// not follow a carriage return, and so do a backspace and a forward
    /// delete inside the line's content; all edits do where the text and
    /// what is inserted have `'\n'` as their only line break and the edit
    /// starts on its line. A paste of the clipboard does where its text is
    /// the one kept here.
    pub open spec fn keeps_history(&self, action: Action) -> bool {
        if self.goto_line.active {
            true
        } else if self.intercepts(action) {
            !(self.search.replace_mode && self.search.replace_field_focused && (action is InsertNewline
                || action is SelectAll))
        } else {
            let edit = lf_only(self.text()) && self.edit_on_line();
            let p = self.cursor.position;
            let typing = self.cursor.selection is None && typing_spot(self.text(), p);
            match action {
                Action::InsertChar(c) => (edit && (is_break_char(c) ==> c == '\n')) || typing,
                Action::InsertNewline => edit || typing,
                Action::InsertTab => edit || typing,
                Action::DeleteBackward => edit || (self.cursor.selection is None && 0 < p.col <= line_len(
                    self.text(),
                    p.line as int,
                ) && typing_spot(self.text(), Position { line: p.line, col: (p.col - 1) as usize })),
                Action::Cut => edit,
                Action::DeleteForward => (lf_only(self.text()) && on_line(self.text(), p)) || (p.col < line_len(
                    self.text(),
                    p.line as int,
                ) && typing_spot(self.text(), p)),
                Action::PasteText(s) => (edit && lf_only(s@)) || (typing && no_breaks(s@)),
                Action::Paste => {
                    &&& (edit && lf_only(self.clipboard.fallback@)) || (typing && no_breaks(self.clipboard.fallback@))
                    &&& self.clipboard.system is None
                    &&& self.text().len() + self.clipboard.fallback@.len() + 1 < usize::MAX
                },
                _ => true,
            }
        }
    }

    /// The selected characters.
    pub open spec fn selected_text(&self) -> Option<Seq<char>> {
        match self.cursor.selection {
            Some(sel) => Some(
                self.text().subrange(pos_index(self.text(), sel.start()), pos_index(self.text(), sel.end())),
            ),
            None => None,
        }
    }

    /// The text once the selection is deleted.
    pub open spec fn text_cleared(&self) -> Seq<char> {
        match self.cursor.selection {
            Some(sel) => removed(self.text(), pos_index(self.text(), sel.start()), pos_index(self.text(), sel.end())),
            None => self.text(),
        }
    }

    /// The cursor position once the selection is deleted: its start.
    pub open spec fn pos_cleared(&self) -> Position {
        match self.cursor.selection {
            Some(sel) => sel.start(),
            None => self.cursor.position,
        }
    }

    /// The history once the selection is deleted: the deletion is recorded.
    pub open spec fn history_cleared(&self) -> HistoryView {
        match self.cursor.selection {
            Some(sel) => spec_record(
                self.history.view(),
                EditView::Delete { pos: (sel.start().line, sel.start().col), text: self.selected_text().unwrap() },
            ),
            None => self.history.view(),
        }
    }

    /// Whether the document counts as modified once the selection is deleted.
    pub open spec fn modified_cleared(&self) -> bool {
        match self.cursor.selection {
            Some(sel) => self.document.modified || pos_index(self.text(), sel.start()) < pos_index(
                self.text(),
                sel.end(),
            ),
            None => self.document.modified,
        }
    }

    /// The scroll offsets once the selection is deleted: its start is
    /// brought into view.
    pub open spec fn offsets_cleared(&self) -> (usize, usize) {
        match self.cursor.selection {
            Some(sel) => scroll_for(
                sel.start(),
                self.scroll_offset,
                self.horizontal_scroll,
                self.viewport_height,
                self.viewport_width,
                gutter_for(self.text_cleared()),
            ),
            None => (self.scroll_offset, self.horizontal_scroll),
        }
    }

    /// `self` is `old` with `s` typed or pasted at the cursor: the selection
    /// is deleted first, `s` is inserted where it started and recorded, and
    /// the cursor goes after `s`. Nothing happens for an empty `s`.
    pub open spec fn inserted_from(&self, old: &Buffer, s: Seq<char>, cursor: Position) -> bool {
        let tc = old.text_cleared();
        let pc = old.pos_cleared();
        &&& self.text() == inserted(tc, pos_index(tc, pc), s)
        &&& self.cursor == old.moved(cursor, cursor.col)
        &&& self.history.view() == spec_record(
            old.history_cleared(),
            EditView::Insert { pos: (pc.line, pc.col), text: s },
        )
        &&& self.document.modified
        &&& self.same_file(old)
        &&& self.in_view_from(old.offsets_cleared())
    }

    /// The search and go-to bars and the viewport are as in `other`.
    pub open spec fn same_bars(&self, other: &Buffer) -> bool {
        &&& self.search == other.search
        &&& self.goto_line == other.goto_line
        &&& self.viewport_height == other.viewport_height
        &&& self.viewport_width == other.viewport_width
    }

    /// `self` is `old` after pasting `s`: nothing changes for an empty `s`,
    /// otherwise `s` is inserted as typed text is and the cursor ends after it.
    pub open spec fn pasted(&self, old: &Buffer, s: Seq<char>) -> bool {
        if s.len() == 0 {
            &&& self.document == old.document
            &&& self.cursor == old.cursor
            &&& self.history == old.history
            &&& self.scroll_offset == old.scroll_offset
            &&& self.horizontal_scroll == old.horizontal_scroll
        } else {
            self.inserted_from(old, s, end_of(old.pos_cleared(), s))
        }
    }

    /// What backspace does without a selection: the text, the cursor
    /// position, the edit recorded, and whether anything was removed. Inside
    /// a line the character before the cursor goes; at the start of a line
    /// the line joins the previous one.
    pub open spec fn backspace(&self) -> (Seq<char>, Position, Option<EditView>, bool) {
        backspace_of(self.text(), self.cursor.position)
    }

    /// What forward delete does: the text, the edit recorded, and whether
    /// anything was removed. Inside a line the character under the cursor
    /// goes; at a line's end the next line joins it.
    pub open spec fn forward_delete(&self) -> (Seq<char>, Option<EditView>, bool) {
        let t = self.text();
        let p = self.cursor.position;
        if p.col < line_len(t, p.line as int) {
            match char_at_spec(t, p) {
                Some(c) => (
                    removed(t, pos_index(t, p), pos_index(t, p) + 1),
                    Some(EditView::Delete { pos: (p.line, p.col), text: seq![c] }),
                    true,
                ),
                None => (t, None, false),
            }
        } else if p.line + 1 < line_count(t) {
            let e = Position { line: (p.line + 1) as usize, col: 0 };
            (
                removed(t, pos_index(t, p), pos_index(t, e)),
                Some(EditView::Delete { pos: (p.line, p.col), text: seq!['\n'] }),
                pos_index(t, p) < pos_index(t, e),
            )
        } else {
            (t, None, false)
        }
    }

    /// `self` is `old` after applying the edits `es` of an undo or redo: the
    /// text is changed by each in turn, the cursor goes where the last one
    /// leaves it, and the cursor is brought into view.
    pub open spec fn applied(&self, old: &Buffer, es: Seq<EditView>) -> bool {
        &&& self.text() == apply_all(old.text(), es)
        &&& self.document.modified == (old.document.modified || all_modify(old.text(), es))
        &&& self.cursor.position == if es.len() > 0 { apply_cursor(es.last()) } else { old.cursor.position }
        &&& self.cursor.desired_col == self.cursor.position.col
        &&& self.cursor.selection == old.cursor.selection
        &&& self.in_view_from((old.scroll_offset, old.horizontal_scroll))
    }

    /// The edits of a group can be applied to this buffer's text, and the
    /// result stays within the machine limits.
    pub open spec fn group_ok(&self, es: Option<Seq<EditView>>) -> bool {
        match es {
            Some(es) => all_ok(self.text(), es) && apply_all(self.text(), es).len() + 1 < usize::MAX,
            None => true,
        }
    }

    /// Everything but the search bar is as in `other`.
    pub open spec fn same_but_search(&self, other: &Buffer) -> bool {
        &&& self.document == other.document
        &&& self.cursor == other.cursor
        &&& self.history == other.history
        &&& self.clipboard == other.clipboard
        &&& self.goto_line == other.goto_line
        &&& self.multi_select_query == other.multi_select_query
        &&& self.scroll_offset == other.scroll_offset
        &&& self.horizontal_scroll == other.horizontal_scroll
        &&& self.viewport_height == other.viewport_height
        &&& self.viewport_width == other.viewport_width
    }

    /// The search bar's fields other than its matches are as in `other`.
    pub open spec fn same_query(&self, other: &Buffer) -> bool {
        &&& self.search.active == other.search.active
        &&& self.search.query == other.search.query
        &&& self.search.replace_mode == other.search.replace_mode
        &&& self.search.replace_query == other.search.replace_query
        &&& self.search.replace_field_focused == other.search.replace_field_focused
    }

    /// Every match lies on a line of the text and its column is below
    /// `usize::MAX`.
    pub open spec fn matches_in_text(&self) -> bool {
        forall|k: int|
            #![auto]
            0 <= k < self.search.matches.len() ==> self.search.matches@[k].0 < line_count(self.text())
                && self.search.matches@[k].1 < usize::MAX
    }

    /// The current match, if any, is one of the matches and its line and
    /// column are below `usize::MAX`.
    pub open spec fn current_ok(&self) -> bool {
        self.search.matches.len() > 0 ==> {
            &&& self.search.current < self.search.matches.len()
            &&& self.search.matches@[self.search.current as int].0 < usize::MAX
            &&& self.search.matches@[self.search.current as int].1 < usize::MAX
        }
    }

    /// The search matches are those of the query in the text, the first is
    /// current, and the cursor went to it from `cursor` and `offsets`; with
    /// no match the cursor and offsets stay.
    pub open spec fn found_and_jumped(&self, cursor: CursorState, offsets: (usize, usize)) -> bool {
        &&& self.search.matches@ == search_matches(self.text(), lowercase(self.search.query@))
        &&& self.search.current == 0
        &&& if self.search.matches.len() > 0 {
            let m = self.search.matches@[0];
            &&& self.cursor == (CursorState { position: Position { line: m.0, col: m.1 }, selection: None, desired_col: m.1 })
            &&& self.in_view_from(offsets)
        } else {
            &&& self.cursor == cursor
            &&& (self.scroll_offset, self.horizontal_scroll) == offsets
        }
    }

    /// The current match can be replaced: it and the end of the query after
    /// it are valid positions, and the result fits the machine limits.
    pub open spec fn replace_ok(&self) -> bool {
        self.search.matches.len() > 0 ==> {
            let m = self.search.matches@[self.search.current as int];
            let s = Position { line: m.0, col: m.1 };
            let e = Position { line: m.0, col: (m.1 + self.search.query@.len()) as usize };
            &&& m.1 + self.search.query@.len() <= usize::MAX
            &&& pos_ok(self.text(), s)
            &&& pos_ok(self.text(), e)
            &&& self.text().len() + self.search.replace_query@.len() + 1 < usize::MAX
        }
    }

    /// Every match can be replaced in turn: the columns and lengths fit the
    /// 64-bit arithmetic of the column shifts, each replacement stays within
    /// the text, and the result fits the machine limits.
    pub open spec fn replace_all_ok(&self) -> bool {
        let ms = self.search.matches@;
        let qlen = self.search.query@.len() as int;
        let rep = self.search.replace_query@;
        &&& qlen <= i64::MAX
        &&& rep.len() <= i64::MAX
        &&& ms.len() * (qlen + rep.len()) <= i64::MAX / 2
        &&& forall|k: int| 0 <= k < ms.len() ==> #[trigger] ms[k].1 <= i64::MAX / 2
        &&& replaced_ok(self.text(), ms, qlen, rep, ms.len() as int)
        &&& replaced(self.text(), ms, qlen, rep, ms.len() as int).len() + 1 < usize::MAX
    }

    /// The text whose occurrences are selected one after another: the
    /// selection when it lies within one line, or else the identifier under
    /// the cursor (empty when there is none).
    pub open spec fn occurrence_query(&self) -> Seq<char> {
        let t = self.text();
        match self.cursor.selection {
            Some(sel) => {
                let l = line_or_empty(t, sel.start().line as int);
                if sel.start().line == sel.end().line {
                    l.subrange(sel.start().col as int, if sel.end().col <= l.len() { sel.end().col as int } else { l.len() as int })
                } else {
                    Seq::empty()
                }
            },
            None => {
                let l = line_or_empty(t, self.cursor.position.line as int);
                if l.len() == 0 {
                    Seq::empty()
                } else {
                    let col = if self.cursor.position.col <= l.len() - 1 { self.cursor.position.col as int } else { l.len() - 1 };
                    if word_char(l[col]) { l.subrange(word_start(l, col), word_end(l, col)) } else { Seq::empty() }
                }
            },
        }
    }

    /// Selecting the next occurrence can be done: a selection within one
    /// line starts inside that line, and the columns reached stay below
    /// `usize::MAX`.
    pub open spec fn occurrence_ok(&self) -> bool {
        let q = self.occurrence_query();
        let ms = search_matches(self.text(), lowercase(q));
        &&& match self.cursor.selection {
            Some(sel) => sel.start().line == sel.end().line ==> sel.start().col <= line_or_empty(
                self.text(),
                sel.start().line as int,
            ).len(),
            None => true,
        }
        &&& self.cursor.position.col + q.len() <= usize::MAX
        &&& forall|k: int| 0 <= k < ms.len() ==> #[trigger] ms[k].1 + q.len() <= usize::MAX
    }

    /// Everything but the cursor, the scroll offsets and the remembered
    /// occurrence query is as in `other`.
    pub open spec fn same_content_but_query(&self, other: &Buffer) -> bool {
        &&& self.document == other.document
        &&& self.history == other.history
        &&& self.clipboard == other.clipboard
        &&& self.search == other.search
        &&& self.goto_line == other.goto_line
        &&& self.viewport_height == other.viewport_height
        &&& self.viewport_width == other.viewport_width
    }

    /// `self` is `old` after replacing its current match and searching again.
    pub open spec fn replaced_current(&self, old: &Buffer) -> bool {
        &&& old.search.matches.len() > 0 ==> {
            let m = old.search.matches@[old.search.current as int];
            let t = old.text();
            let s = Position { line: m.0, col: m.1 };
            let e = Position { line: m.0, col: (m.1 + old.search.query@.len()) as usize };
            let u = removed(t, pos_index(t, s), pos_index(t, e));
            &&& self.text() == inserted(u, pos_index(u, s), old.search.replace_query@)
            &&& self.document.modified
            &&& self.found_and_jumped(old.cursor, (old.scroll_offset, old.horizontal_scroll))
        }
        &&& old.search.matches.len() == 0 ==> {
            &&& self.same_content(old)
            &&& self.cursor == old.cursor
            &&& self.scroll_offset == old.scroll_offset
            &&& self.horizontal_scroll == old.horizontal_scroll
        }
        &&& self.same_file(old)
        &&& self.same_query(old)
        &&& self.history == old.history
        &&& self.clipboard == old.clipboard
        &&& self.goto_line == old.goto_line
        &&& self.multi_select_query == old.multi_select_query
        &&& self.viewport_height == old.viewport_height
        &&& self.viewport_width == old.viewport_width
        &&& self.within_limits()
    }

    /// `self` is `old` after replacing all its matches and searching again.
    pub open spec fn replaced_all(&self, old: &Buffer) -> bool {
        &&& self.text() == replaced(
            old.text(),
            old.search.matches@,
            old.search.query@.len() as int,
            old.search.replace_query@,
            old.search.matches.len() as int,
        )
        &&& self.document.modified == (old.document.modified || old.search.matches.len() > 0)
        &&& self.found_and_jumped(old.cursor, (old.scroll_offset, old.horizontal_scroll))
        &&& self.same_file(old)
        &&& self.same_query(old)
        &&& self.history == old.history
        &&& self.clipboard == old.clipboard
        &&& self.goto_line == old.goto_line
        &&& self.multi_select_query == old.multi_select_query
        &&& self.viewport_height == old.viewport_height
        &&& self.viewport_width == old.viewport_width
        &&& self.within_limits()
    }

    /// `self` is `old` after selecting the next occurrence.
    pub open spec fn next_occurrence_selected(&self, old: &Buffer) -> bool {
        &&& ({
            let q = old.occurrence_query();
            let ms = search_matches(old.text(), lowercase(q));
            if q.len() == 0 {
                &&& self.multi_select_query == old.multi_select_query
                &&& self.cursor == old.cursor
                &&& self.scroll_offset == old.scroll_offset
                &&& self.horizontal_scroll == old.horizontal_scroll
            } else if ms.len() == 0 {
                &&& self.multi_select_query matches Some(m) && m@ == q
                &&& self.cursor == old.cursor
                &&& self.scroll_offset == old.scroll_offset
                &&& self.horizontal_scroll == old.horizontal_scroll
            } else {
                let m = ms[find_after(
                    ms,
                    old.cursor.position.line,
                    old.cursor.position.col + q.len(),
                    0,
                )];
                let at = Position { line: m.0, col: m.1 };
                &&& self.multi_select_query matches Some(mq) && mq@ == q
                &&& self.cursor == (CursorState {
                    position: at,
                    selection: Some(Selection { anchor: at, head: Position { line: m.0, col: (m.1 + q.len()) as usize } }),
                    desired_col: m.1,
                })
                &&& self.follows(old)
            }
        })
        &&& self.same_content_but_query(old)
    }

    /// `self` is `old` after moving up a page.
    pub open spec fn paged_up(&self, old: &Buffer) -> bool {
        &&& self.same_content(old)
        &&& self.cursor.position.line == sat_sub(old.cursor.position.line as int, jump_of(old.viewport_height))
        &&& self.cursor.position.col == clamped_col(old.text(), self.cursor.position.line as int, old.cursor.desired_col)
        &&& self.cursor.desired_col == old.cursor.desired_col
        &&& self.cursor.selection is None
        &&& self.scroll_offset == sat_sub(old.scroll_offset as int, jump_of(old.viewport_height))
        &&& self.horizontal_scroll == old.horizontal_scroll
    }

    /// `self` is `old` after moving down a page.
    pub open spec fn paged_down(&self, old: &Buffer) -> bool {
        &&& self.same_content(old)
        &&& self.cursor.position.line == capped_add(old.cursor.position.line as int, jump_of(old.viewport_height), old.lines() - 1)
        &&& self.cursor.position.col == clamped_col(old.text(), self.cursor.position.line as int, old.cursor.desired_col)
        &&& self.cursor.desired_col == old.cursor.desired_col
        &&& self.cursor.selection is None
        &&& self.scroll_offset == capped_add(old.scroll_offset as int, jump_of(old.viewport_height), old.lines() - 1)
        &&& self.horizontal_scroll == old.horizontal_scroll
    }

    /// `self` is `old` after a backspace.
    pub open spec fn backspaced(&self, old: &Buffer) -> bool {
        &&& match old.cursor.selection {
            Some(sel) => {
                &&& self.text() == old.text_cleared()
                &&& self.document.modified == old.modified_cleared()
                &&& self.history.view() == old.history_cleared()
                &&& self.cursor == old.moved(sel.start(), sel.start().col)
                &&& self.in_view_from(old.offsets_cleared())
            },
            None => {
                let b = old.backspace();
                &&& self.text() == b.0
                &&& self.document.modified == (old.document.modified || b.3)
                &&& self.history.view() == match b.2 {
                    Some(e) => spec_record(old.history.view(), e),
                    None => old.history.view(),
                }
                &&& self.cursor == old.moved(
                    b.1,
                    if b.2 is Some { b.1.col } else { old.cursor.desired_col },
                )
                &&& self.in_view_from((old.scroll_offset, old.horizontal_scroll))
            },
        }
        &&& self.same_file(old)
        &&& self.same_panels(old)
        &&& self.multi_select_query is None
        &&& self.within_limits()
    }

    /// `self` is `old` after a forward delete.
    pub open spec fn forward_deleted(&self, old: &Buffer) -> bool {
        &&& self.text() == old.forward_delete().0
        &&& self.document.modified == (old.document.modified || old.forward_delete().2)
        &&& self.history.view() == match old.forward_delete().1 {
            Some(e) => spec_record(old.history.view(), e),
            None => old.history.view(),
        }
        &&& self.cursor == old.cursor
        &&& self.scroll_offset == old.scroll_offset
        &&& self.horizontal_scroll == old.horizontal_scroll
        &&& self.same_file(old)
        &&& self.same_panels(old)
        &&& self.multi_select_query is None
    }

    /// `self` is `old` with the whole document selected.
    pub open spec fn all_selected(&self, old: &Buffer) -> bool {
        &&& self.same_content(old)
        &&& self.cursor.selection == Some(Selection { anchor: Position { line: 0, col: 0 }, head: old.pos_file_end() })
        &&& self.cursor.position == old.pos_file_end()
        &&& self.cursor.desired_col == old.cursor.desired_col
        &&& self.scroll_offset == old.scroll_offset
        &&& self.horizontal_scroll == old.horizontal_scroll
    }

    /// `self` is `old` after an undo.
    pub open spec fn undone(&self, old: &Buffer) -> bool {
        &&& self.history.view() == spec_undo(old.history.view()).0
        &&& match spec_undo(old.history.view()).1 {
            Some(es) => self.applied(old, es),
            None => {
                &&& self.document == old.document
                &&& self.cursor == old.cursor
                &&& self.scroll_offset == old.scroll_offset
                &&& self.horizontal_scroll == old.horizontal_scroll
            },
        }
        &&& self.same_file(old)
        &&& self.same_panels(old)
        &&& self.multi_select_query == old.multi_select_query
        &&& self.within_limits()
    }

    /// `self` is `old` after a redo.
    pub open spec fn redone(&self, old: &Buffer) -> bool {
        &&& self.history.view() == spec_redo(old.history.view()).0
        &&& match spec_redo(old.history.view()).1 {
            Some(es) => self.applied(old, es),
            None => {
                &&& self.document == old.document
                &&& self.cursor == old.cursor
                &&& self.scroll_offset == old.scroll_offset
                &&& self.horizontal_scroll == old.horizontal_scroll
            },
        }
        &&& self.same_file(old)
        &&& self.same_panels(old)
        &&& self.multi_select_query == old.multi_select_query
        &&& self.within_limits()
    }

    /// `self` is `old` after copying the selection.
    pub open spec fn copied(&self, old: &Buffer) -> bool {
        &&& match old.selected_text() {
            Some(s) => self.clipboard.fallback@ == s && (self.clipboard.system is Some
                == old.clipboard.system is Some),
            None => self.clipboard == old.clipboard,
        }
        &&& self.document == old.document
        &&& self.cursor == old.cursor
        &&& self.history == old.history
        &&& self.same_bars(old)
        &&& self.multi_select_query == old.multi_select_query
        &&& self.scroll_offset == old.scroll_offset
        &&& self.horizontal_scroll == old.horizontal_scroll
    }

    /// `self` is `old` after cutting the selection.
    pub open spec fn cut_done(&self, old: &Buffer) -> bool {
        &&& match old.selected_text() {
            Some(s) => {
                &&& self.clipboard.fallback@ == s
                &&& self.clipboard.system is Some == old.clipboard.system is Some
                &&& self.text() == old.text_cleared()
                &&& self.document.modified == old.modified_cleared()
                &&& self.history.view() == old.history_cleared()
                &&& self.cursor == old.moved(old.pos_cleared(), old.pos_cleared().col)
                &&& self.in_view_from(old.offsets_cleared())
            },
            None => {
                &&& self.clipboard == old.clipboard
                &&& self.same_content(old)
                &&& self.cursor == old.cursor
                &&& self.scroll_offset == old.scroll_offset
                &&& self.horizontal_scroll == old.horizontal_scroll
            },
        }
        &&& self.same_file(old)
        &&& self.same_bars(old)
        &&& self.multi_select_query == old.multi_select_query
        &&& self.within_limits()
    }

    /// `self` is `old` after pasting the clipboard's text.
    pub open spec fn clipboard_pasted(&self, old: &Buffer) -> bool {
        &&& exists|s: Seq<char>| self.pasted(old, s)
        &&& old.clipboard.system is None && old.text().len() + old.clipboard.fallback@.len() + 1
            < usize::MAX ==> self.pasted(old, old.clipboard.fallback@)
        &&& self.clipboard.fallback == old.clipboard.fallback
        &&& self.clipboard.system is Some == old.clipboard.system is Some
        &&& self.multi_select_query == old.multi_select_query
        &&& self.same_bars(old)
        &&& self.within_limits()
    }

    /// The text, history, clipboard, go-to bar, remembered query and
    /// viewport are as in `other`.
    pub open spec fn same_state(&self, other: &Buffer) -> bool {
        &&& self.document == other.document
        &&& self.history == other.history
        &&& self.clipboard == other.clipboard
        &&& self.goto_line == other.goto_line
        &&& self.multi_select_query == other.multi_select_query
        &&& self.viewport_height == other.viewport_height
        &&& self.viewport_width == other.viewport_width
    }

    /// Nothing but the go-to bar changed.
    pub open spec fn same_but_goto(&self, other: &Buffer) -> bool {
        &&& self.document == other.document
        &&& self.cursor == other.cursor
        &&& self.history == other.history
        &&& self.clipboard == other.clipboard
        &&& self.search == other.search
        &&& self.multi_select_query == other.multi_select_query
        &&& self.scroll_offset == other.scroll_offset
        &&& self.horizontal_scroll == other.horizontal_scroll
        &&& self.viewport_height == other.viewport_height
        &&& self.viewport_width == other.viewport_width
    }

    /// Nothing at all changed.
    pub open spec fn unchanged(&self, other: &Buffer) -> bool {
        &&& self.same_content(other)
        &&& self.cursor == other.cursor
        &&& self.scroll_offset == other.scroll_offset
        &&& self.horizontal_scroll == other.horizontal_scroll
    }

    /// Only the cursor moved, to `cursor`, and the view followed it.
    pub open spec fn moved_to(&self, old: &Buffer, cursor: CursorState) -> bool {
        &&& self.same_content(old)
        &&& self.cursor == cursor
        &&& self.follows(old)
    }

    /// All matches and the current one have line and column below
    /// `usize::MAX`, and the current one is a match when there are some.
    pub open spec fn matches_bounded(&self) -> bool {
        &&& self.search.matches.len() > 0 ==> self.search.current < self.search.matches.len()
        &&& forall|k: int|
            #![auto]
            0 <= k < self.search.matches.len() ==> self.search.matches@[k].0 < usize::MAX
                && self.search.matches@[k].1 < usize::MAX
    }

    /// The actions the search bar takes for itself while it is open.
    pub open spec fn intercepts(&self, action: Action) -> bool {
        self.search.active && match action {
            Action::FindInFile => true,
            Action::FindAndReplace => true,
            Action::InsertTab => self.search.replace_mode,
            Action::InsertChar(_) => true,
            Action::DeleteBackward => true,
            Action::InsertNewline => true,
            Action::SelectAll => self.search.replace_mode && self.search.replace_field_focused,
            Action::CursorDown => true,
            Action::CursorUp => true,
            _ => false,
        }
    }

    /// What handling `action` asks of the application: a save or a language
    /// server request for the matching actions in the editor, nothing else.
    pub open spec fn command_for(&self, action: Action) -> AppCommand {
        if self.goto_line.active || self.intercepts(action) {
            AppCommand::Nothing
        } else {
            match action {
                Action::SaveFile => AppCommand::SaveCurrentFile,
                Action::TriggerCompletion => AppCommand::RequestCompletion,
                Action::GotoDefinition => AppCommand::RequestGotoDefinition,
                Action::FindReferences => AppCommand::RequestFindReferences,
                Action::CodeAction => AppCommand::RequestCodeAction,
                Action::HoverInfo => AppCommand::RequestHover,
                Action::FormatDocument => AppCommand::RequestFormat,
                Action::SignatureHelp => AppCommand::RequestSignatureHelp,
                _ => AppCommand::Nothing,
            }
        }
    }

    /// What the operation behind `action` needs of this buffer so as not to
    /// leave the text or the machine's integers.
    pub open spec fn ready_for(&self, action: Action) -> bool {
        &&& self.within_limits()
        &&& if self.goto_line.active {
            true
        } else if self.intercepts(action) {
            match action {
                Action::InsertNewline => if self.search.replace_mode && self.search.replace_field_focused {
                    self.current_ok() && self.replace_ok()
                } else {
                    self.matches_bounded()
                },
                Action::SelectAll => self.replace_all_ok(),
                Action::CursorDown => self.matches_bounded(),
                Action::CursorUp => self.matches_bounded(),
                _ => true,
            }
        } else {
            match action {
                Action::SelectNextOccurrence => self.occurrence_ok(),
                Action::InsertChar(_) => self.edit_ready() && self.text().len() + 2 < usize::MAX,
                Action::InsertNewline => self.edit_ready() && self.text().len() + 2 < usize::MAX,
                Action::InsertTab => self.edit_ready() && self.text().len() + 5 < usize::MAX,
                Action::DeleteBackward => self.sel_ok() && (self.cursor.selection is None && self.cursor.position.col == 0
                    && self.cursor.position.line > 0 ==> self.cursor.position.line <= line_count(self.text())),
                Action::DeleteForward => self.cursor.position.col >= line_len(self.text(), self.cursor.position.line as int)
                    && self.cursor.position.line + 1 < line_count(self.text()) ==> line_start(
                    self.text(),
                    self.cursor.position.line as int,
                ) + self.cursor.position.col <= usize::MAX,
                Action::Undo => self.group_ok(spec_undo(self.history.view()).1),
                Action::Redo => self.group_ok(spec_redo(self.history.view()).1),
                Action::Copy => self.sel_ok(),
                Action::Cut => self.sel_ok(),
                Action::Paste => self.edit_ready(),
                Action::PasteText(text) => self.edit_ready() && self.text().len() + text@.len() + 1 < usize::MAX,
                _ => true,
            }
        }
    }

    /// The line a go-to-line entry of `n` goes to: line `n` counted from
    /// one, at most the last line.
    pub open spec fn goto_target(&self, n: usize) -> usize {
        let last = (self.lines() - 1) as usize;
        let want = if n >= 1 { (n - 1) as usize } else { 0 };
        if want <= last { want } else { last }
    }

    /// `self` is `old` after the open go-to bar handled `action`: digits are
    /// typed, backspace erases, enter jumps to the line entered (when it
    /// parses) and closes the bar, anything else closes it.
    pub open spec fn after_goto(&self, old: &Buffer, action: Action) -> bool {
        &&& self.document == old.document
        &&& self.history == old.history
        &&& self.clipboard == old.clipboard
        &&& self.search == old.search
        &&& self.multi_select_query == old.multi_select_query
        &&& self.viewport_height == old.viewport_height
        &&& self.viewport_width == old.viewport_width
        &&& match action {
            Action::InsertChar(ch) => if '0' <= ch && ch <= '9' {
                &&& self.goto_line.active == old.goto_line.active
                &&& self.goto_line.input@ == old.goto_line.input@.push(ch)
                &&& self.cursor == old.cursor
                &&& self.scroll_offset == old.scroll_offset
                &&& self.horizontal_scroll == old.horizontal_scroll
            } else {
                &&& !self.goto_line.active
                &&& self.goto_line.input@.len() == 0
                &&& self.cursor == old.cursor
                &&& self.scroll_offset == old.scroll_offset
                &&& self.horizontal_scroll == old.horizontal_scroll
            },
            Action::DeleteBackward => {
                &&& self.goto_line.active == old.goto_line.active
                &&& self.goto_line.input@ == if old.goto_line.input@.len() > 0 {
                    old.goto_line.input@.drop_last()
                } else {
                    old.goto_line.input@
                }
                &&& self.cursor == old.cursor
                &&& self.scroll_offset == old.scroll_offset
                &&& self.horizontal_scroll == old.horizontal_scroll
            },
            Action::InsertNewline => {
                &&& !self.goto_line.active
                &&& self.goto_line.input@.len() == 0
                &&& match parse_usize_spec(old.goto_line.input@) {
                    Some(n) => {
                        &&& self.cursor == old.moved(Position { line: old.goto_target(n), col: 0 }, 0)
                        &&& self.follows(old)
                    },
                    None => {
                        &&& self.cursor == old.cursor
                        &&& self.scroll_offset == old.scroll_offset
                        &&& self.horizontal_scroll == old.horizontal_scroll
                    },
                }
            },
            _ => {
                &&& !self.goto_line.active
                &&& self.goto_line.input@.len() == 0
                &&& self.cursor == old.cursor
                &&& self.scroll_offset == old.scroll_offset
                &&& self.horizontal_scroll == old.horizontal_scroll
            },
        }
    }

    /// The current match became the `k`-th and the cursor went to it.
    pub open spec fn cycled_to(&self, old: &Buffer, k: int) -> bool {
        let m = old.search.matches@[k];
        &&& self.same_state(old)
        &&& self.search.current == k
        &&& self.search.matches == old.search.matches
        &&& self.same_query(old)
        &&& self.cursor == old.moved(Position { line: m.0, col: m.1 }, m.1)
        &&& self.follows(old)
    }

    /// The search bar is closed, its query and matches kept.
    pub open spec fn search_dismissed(&self, old: &Buffer) -> bool {
        &&& !self.search.active
        &&& !self.search.replace_mode
        &&& !self.search.replace_field_focused
        &&& self.search.query == old.search.query
        &&& self.search.matches == old.search.matches
        &&& self.search.current == old.search.current
        &&& self.search.replace_query == old.search.replace_query
    }

    /// The search bar is open for searching, with an empty query.
    pub open spec fn search_opened(&self, old: &Buffer) -> bool {
        &&& self.search.active
        &&& !self.search.replace_mode
        &&& !self.search.replace_field_focused
        &&& self.search.query@.len() == 0
        &&& self.search.matches.len() == 0
        &&& self.search.current == 0
        &&& self.search.replace_query == old.search.replace_query
    }

    /// The search bar is open for search and replace, with both fields empty.
    pub open spec fn replace_opened(&self) -> bool {
        &&& self.search.active
        &&& self.search.replace_mode
        &&& !self.search.replace_field_focused
        &&& self.search.query@.len() == 0
        &&& self.search.replace_query@.len() == 0
        &&& self.search.matches.len() == 0
        &&& self.search.current == 0
    }

    /// `self` is `old` after the open search bar handled `action`.
    pub open spec fn after_search(&self, old: &Buffer, action: Action) -> bool {
        let in_replace = old.search.replace_mode && old.search.replace_field_focused;
        let n = old.search.matches.len() as int;
        match action {
            Action::FindInFile => self.search_dismissed(old) && self.same_but_search(old),
            Action::FindAndReplace => self.same_but_search(old) && if old.search.replace_mode {
                self.search_dismissed(old)
            } else {
                self.replace_opened()
            },
            Action::InsertTab => {
                &&& self.same_but_search(old)
                &&& self.search.replace_field_focused == !old.search.replace_field_focused
                &&& self.search.active == old.search.active
                &&& self.search.replace_mode == old.search.replace_mode
                &&& self.search.query == old.search.query
                &&& self.search.replace_query == old.search.replace_query
                &&& self.search.matches == old.search.matches
                &&& self.search.current == old.search.current
            },
            Action::InsertChar(ch) => if in_replace {
                &&& self.same_but_search(old)
                &&& self.search.replace_query@ == old.search.replace_query@.push(ch)
                &&& self.search.query == old.search.query
                &&& self.search.matches == old.search.matches
                &&& self.search.current == old.search.current
                &&& self.search.active && self.search.replace_mode && self.search.replace_field_focused
            } else {
                &&& self.same_state(old)
                &&& self.search.query@ == old.search.query@.push(ch)
                &&& self.search.replace_query == old.search.replace_query
                &&& self.search.active == old.search.active
                &&& self.search.replace_mode == old.search.replace_mode
                &&& self.search.replace_field_focused == old.search.replace_field_focused
                &&& self.found_and_jumped(old.cursor, (old.scroll_offset, old.horizontal_scroll))
            },
            Action::DeleteBackward => {
                let shorter = |q: Seq<char>| if q.len() > 0 { q.drop_last() } else { q };
                if in_replace {
                    &&& self.same_but_search(old)
                    &&& self.search.replace_query@ == shorter(old.search.replace_query@)
                    &&& self.search.query == old.search.query
                    &&& self.search.matches == old.search.matches
                    &&& self.search.current == old.search.current
                    &&& self.search.active && self.search.replace_mode && self.search.replace_field_focused
                } else {
                    &&& self.same_state(old)
                    &&& self.search.query@ == shorter(old.search.query@)
                    &&& self.search.replace_query == old.search.replace_query
                    &&& self.search.active == old.search.active
                    &&& self.search.replace_mode == old.search.replace_mode
                    &&& self.search.replace_field_focused == old.search.replace_field_focused
                    &&& self.found_and_jumped(old.cursor, (old.scroll_offset, old.horizontal_scroll))
                }
            },
            Action::InsertNewline => if in_replace {
                self.replaced_current(old)
            } else if n > 0 {
                self.cycled_to(old, (old.search.current + 1) % n)
            } else {
                self.unchanged(old)
            },
            Action::SelectAll => self.replaced_all(old),
            Action::CursorDown => if n > 0 {
                self.cycled_to(old, (old.search.current + 1) % n)
            } else {
                self.unchanged(old)
            },
            Action::CursorUp => if n > 0 {
                self.cycled_to(old, if old.search.current == 0 { n - 1 } else { old.search.current - 1 })
            } else {
                self.unchanged(old)
            },
            _ => true,
        }
    }

    /// `self` is `old` after the editor operation behind `action`.
    pub open spec fn after_dispatch(&self, old: &Buffer, action: Action) -> bool {
        match action {
            Action::FindInFile => self.search_opened(old) && self.same_but_search(old),
            Action::FindAndReplace => self.replace_opened() && self.same_but_search(old),
            Action::GoToLine => self.goto_line.active && self.goto_line.input@.len() == 0 && {
                &&& self.document == old.document
                &&& self.cursor == old.cursor
                &&& self.history == old.history
                &&& self.clipboard == old.clipboard
                &&& self.search == old.search
                &&& self.multi_select_query == old.multi_select_query
                &&& self.scroll_offset == old.scroll_offset
                &&& self.horizontal_scroll == old.horizontal_scroll
                &&& self.viewport_height == old.viewport_height
                &&& self.viewport_width == old.viewport_width
            },
            Action::SelectNextOccurrence => self.next_occurrence_selected(old),
            Action::CursorUp => self.moved_to(old, old.moved(old.pos_up(), old.cursor.desired_col)),
            Action::CursorDown => self.moved_to(old, old.moved(old.pos_down(), old.cursor.desired_col)),
            Action::CursorLeft => self.moved_to(old, old.moved(old.pos_left(), old.desired_after(old.pos_left()))),
            Action::CursorRight => self.moved_to(old, old.moved(old.pos_right(), old.desired_after(old.pos_right()))),
            Action::CursorWordLeft => self.moved_to(old, old.moved(old.pos_word_left(), old.pos_word_left().col)),
            Action::CursorWordRight => self.moved_to(old, old.moved(old.pos_word_right(), old.pos_word_right().col)),
            Action::CursorLineStart => self.moved_to(old, old.moved(Position { line: old.cursor.position.line, col: 0 }, 0)),
            Action::CursorLineEnd => self.moved_to(old, old.moved(old.pos_line_end(), old.pos_line_end().col)),
            Action::CursorFileStart => self.moved_to(old, old.moved(Position { line: 0, col: 0 }, 0)),
            Action::CursorFileEnd => self.moved_to(old, old.moved(old.pos_file_end(), old.pos_file_end().col)),
            Action::PageUp => self.paged_up(old),
            Action::PageDown => self.paged_down(old),
            Action::SelectUp => self.moved_to(old, old.selected(old.pos_up(), old.cursor.desired_col)),
            Action::SelectDown => self.moved_to(old, old.selected(old.pos_down(), old.cursor.desired_col)),
            Action::SelectLeft => self.moved_to(old, old.selected(old.pos_left(), old.desired_after(old.pos_left()))),
            Action::SelectRight => self.moved_to(old, old.selected(old.pos_right(), old.desired_after(old.pos_right()))),
            Action::SelectWordLeft => self.moved_to(old, old.selected(old.pos_word_left(), old.pos_word_left().col)),
            Action::SelectWordRight => self.moved_to(old, old.selected(old.pos_word_right(), old.pos_word_right().col)),
            Action::SelectLineStart => self.moved_to(old, old.selected(Position { line: old.cursor.position.line, col: 0 }, 0)),
            Action::SelectLineEnd => self.moved_to(old, old.selected(old.pos_line_end(), old.pos_line_end().col)),
            Action::InsertChar(ch) => {
                &&& self.inserted_from(
                    old,
                    seq![ch],
                    Position { line: old.pos_cleared().line, col: (old.pos_cleared().col + 1) as usize },
                )
                &&& self.multi_select_query is None
                &&& self.same_panels(old)
            },
            Action::InsertNewline => {
                &&& self.inserted_from(old, seq!['\n'], Position { line: (old.pos_cleared().line + 1) as usize, col: 0 })
                &&& self.multi_select_query == old.multi_select_query
                &&& self.same_panels(old)
            },
            Action::InsertTab => {
                &&& self.inserted_from(
                    old,
                    Seq::new(4, |i: int| ' '),
                    Position { line: old.pos_cleared().line, col: (old.pos_cleared().col + 4) as usize },
                )
                &&& self.multi_select_query == old.multi_select_query
                &&& self.same_panels(old)
            },
            Action::DeleteBackward => self.backspaced(old),
            Action::DeleteForward => self.forward_deleted(old),
            Action::SelectAll => self.all_selected(old),
            Action::Undo => self.undone(old),
            Action::Redo => self.redone(old),
            Action::Copy => self.copied(old),
            Action::Cut => self.cut_done(old),
            Action::Paste => self.clipboard_pasted(old),
            Action::PasteText(text) => {
                &&& self.pasted(old, text@)
                &&& self.multi_select_query == old.multi_select_query
                &&& self.same_panels(old)
            },
            _ => self.unchanged(old),
        }
    }

    /// The buffer's name: its file's name, or "untitled".
    pub open spec fn name_view(&self) -> Seq<char> {
        match self.document.file_path {
            Some(p) => match file_name_of(p@) {
                Some(n) => n,
                None => untitled(),
            },
            None => untitled(),
        }
    }

    /// `self` is `old` after handling `action`: by the go-to bar while it is
    /// open, by the search bar for its own keys while it is open, and by
    /// the editor operation behind the action otherwise.
    pub open spec fn handled(&self, old: &Buffer, action: Action) -> bool {
        &&& old.goto_line.active ==> self.after_goto(old, action)
        &&& !old.goto_line.active && old.intercepts(action) ==> self.after_search(old, action)
        &&& !old.goto_line.active && !old.intercepts(action) ==> self.after_dispatch(old, action)
    }

    /// A buffer over the given text, with the cursor at the start.
    pub fn from_text(text: &str) -> (b: Self)
        ensures
            b.text() == text@,
            b.document.file_path is None,
            !b.document.modified,
            b.cursor.position == (Position { line: 0, col: 0 }),
            b.cursor.selection is None,
            b.cursor.desired_col == 0,
            b.history.view().undo.len() == 0 && b.history.view().redo.len() == 0,
            b.scroll_offset == 0 && b.horizontal_scroll == 0,
            b.viewport_height == 24 && b.viewport_width == 80,
            b.history.view().group is None,
            b.multi_select_query is None,
            !b.search.active && !b.goto_line.active,
            b.search.query@.len() == 0 && b.search.matches.len() == 0 && b.search.current == 0,
            !b.search.replace_mode && !b.search.replace_field_focused && b.search.replace_query@.len() == 0,
            b.goto_line.input@.len() == 0,
            b.history_consistent(),
            b.edit_on_line(),
    {
        Self::with_document(Document::from_text(text))
    }

    /// A buffer over the given document (as read from a file), with the
    /// cursor at the start.
    pub fn with_document(document: Document) -> (b: Self)
        ensures
            b.document == document,
            b.cursor.position == (Position { line: 0, col: 0 }),
            b.cursor.selection is None,
            b.cursor.desired_col == 0,
            b.history.view().undo.len() == 0 && b.history.view().redo.len() == 0,
            b.history.view().group is None,
            b.scroll_offset == 0 && b.horizontal_scroll == 0,
            b.viewport_height == 24 && b.viewport_width == 80,
            b.multi_select_query is None,
            !b.search.active && !b.goto_line.active,
            b.search.query@.len() == 0 && b.search.matches.len() == 0 && b.search.current == 0,
            !b.search.replace_mode && !b.search.replace_field_focused && b.search.replace_query@.len() == 0,
            b.goto_line.input@.len() == 0,
            b.history_consistent(),
            b.edit_on_line(),
    {
        proof {
            lemma_line_start_exists(document.text_view(), 0);
        }
        Buffer {
            document,
            cursor: CursorState::new(),
            history: UndoHistory::new(),
            clipboard: Clipboard::new(),
            search: SearchBar::new(),
            goto_line: GotoLineBar::new(),
            multi_select_query: None,
            scroll_offset: 0,
            horizontal_scroll: 0,
            viewport_height: 24,
            viewport_width: 80,
        }
    }

    pub fn file_path(&self) -> (r: Option<&str>)
        ensures
            match self.document.file_path {
                Some(p) => r matches Some(q) && q@ == p@,
                None => r is None,
            },
    {
        match &self.document.file_path {
            Some(p) => Some(p.as_str()),
            None => None,
        }
    }

    pub fn is_modified(&self) -> (r: bool)
        ensures
            r == self.document.modified,
    {
        self.document.modified
    }

    pub fn language_id(&self) -> (r: &str)
        ensures
            r@ == self.document.language_id@,
    {
        self.document.language_id.as_str()
    }

    pub fn update_viewport(&mut self, height: usize, width: usize)
        ensures
            final(self).viewport_height == height,
            final(self).viewport_width == width,
            final(self).document == old(self).document,
            final(self).cursor == old(self).cursor,
            final(self).scroll_offset == old(self).scroll_offset,
            final(self).horizontal_scroll == old(self).horizontal_scroll,
    {
        self.viewport_height = height;
        self.viewport_width = width;
    }

    /// The width of the line-number gutter.
    pub fn gutter_width(&self) -> (r: usize)
        ensures
            r == gutter_for(self.text()),
    {
        let mut n = self.document.line_count();
        let mut digits: usize = 1;
        let ghost n0 = n as nat;
        proof {
            lemma_digits_of_usize(n);
        }
        while n >= 10
            invariant
                1 <= digits,
                num_digits(n0) <= 20,
                digits + num_digits(n as nat) == num_digits(n0) + 1,
            decreases n,
        {
            n = n / 10;
            digits += 1;
        }
        digits + 2
    }

    /// Scroll so that the cursor is inside the viewport.
    pub fn ensure_cursor_visible(&mut self)
        requires
            old(self).cursor.position.line < usize::MAX,
            old(self).cursor.position.col < usize::MAX,
        ensures
            final(self).same_content(old(self)),
            final(self).cursor == old(self).cursor,
            final(self).follows(old(self)),
    {
        let line = self.cursor.position.line;
        if line < self.scroll_offset {
            self.scroll_offset = line;
        } else if line - self.scroll_offset >= self.viewport_height {
            self.scroll_offset = line + 1 - self.viewport_height;
        }
        let col = self.cursor.position.col;
        let gutter_width = self.gutter_width();
        let visible_width = self.viewport_width.saturating_sub(gutter_width);
        if col < self.horizontal_scroll {
            self.horizontal_scroll = col;
        } else if col - self.horizontal_scroll >= visible_width {
            self.horizontal_scroll = col + 1 - visible_width;
        }
    }

    pub fn move_cursor_up(&mut self)
        requires
            old(self).within_limits(),
        ensures
            final(self).same_content(old(self)),
            final(self).cursor == old(self).moved(old(self).pos_up(), old(self).cursor.desired_col),
            final(self).follows(old(self)),
            final(self).within_limits(),
    {
        self.step_up();
        self.cursor.selection = None;
        self.ensure_cursor_visible();
    }

    pub fn select_up(&mut self)
        requires
            old(self).within_limits(),
        ensures
            final(self).same_content(old(self)),
            final(self).cursor == old(self).selected(old(self).pos_up(), old(self).cursor.desired_col),
            final(self).follows(old(self)),
            final(self).within_limits(),
    {
        self.begin_or_extend_selection();
        self.step_up();
        self.update_selection_head();
        self.ensure_cursor_visible();
    }

    pub fn move_cursor_down(&mut self)
        requires
            old(self).within_limits(),
        ensures
            final(self).same_content(old(self)),
            final(self).cursor == old(self).moved(old(self).pos_down(), old(self).cursor.desired_col),
            final(self).follows(old(self)),
            final(self).within_limits(),
    {
        self.step_down();
        self.cursor.selection = None;
        self.ensure_cursor_visible();
    }

    pub fn select_down(&mut self)
        requires
            old(self).within_limits(),
        ensures
            final(self).same_content(old(self)),
            final(self).cursor == old(self).selected(old(self).pos_down(), old(self).cursor.desired_col),
            final(self).follows(old(self)),
            final(self).within_limits(),
    {
        self.begin_or_extend_selection();
        self.step_down();
        self.update_selection_head();
        self.ensure_cursor_visible();
    }

    pub fn move_cursor_left(&mut self)
        requires
            old(self).within_limits(),
        ensures
            final(self).same_content(old(self)),
            final(self).cursor == old(self).moved(old(self).pos_left(), old(self).desired_after(old(self).pos_left())),
            final(self).follows(old(self)),
            final(self).within_limits(),
    {
        self.step_left();
        self.cursor.selection = None;
        self.ensure_cursor_visible();
    }

    pub fn select_left(&mut self)
        requires
            old(self).within_limits(),
        ensures
            final(self).same_content(old(self)),
            final(self).cursor == old(self).selected(old(self).pos_left(), old(self).desired_after(old(self).pos_left())),
            final(self).follows(old(self)),
            final(self).within_limits(),
    {
        self.begin_or_extend_selection();
        self.step_left();
        self.update_selection_head();
        self.ensure_cursor_visible();
    }

    pub fn move_cursor_right(&mut self)
        requires
            old(self).within_limits(),
        ensures
            final(self).same_content(old(self)),
            final(self).cursor == old(self).moved(old(self).pos_right(), old(self).desired_after(old(self).pos_right())),
            final(self).follows(old(self)),
            final(self).within_limits(),
    {
        self.step_right();
        self.cursor.selection = None;
        self.ensure_cursor_visible();
    }

    pub fn select_right(&mut self)
        requires
            old(self).within_limits(),
        ensures
            final(self).same_content(old(self)),
            final(self).cursor == old(self).selected(old(self).pos_right(), old(self).desired_after(old(self).pos_right())),
            final(self).follows(old(self)),
            final(self).within_limits(),
    {
        self.begin_or_extend_selection();
        self.step_right();
        self.update_selection_head();
        self.ensure_cursor_visible();
    }

    pub fn move_cursor_word_left(&mut self)
        requires
            old(self).within_limits(),
        ensures
            final(self).same_content(old(self)),
            final(self).cursor == old(self).moved(old(self).pos_word_left(), old(self).pos_word_left().col),
            final(self).follows(old(self)),
            final(self).within_limits(),
    {
        self.step_word_left();
        self.cursor.selection = None;
        self.ensure_cursor_visible();
    }

    pub fn select_word_left(&mut self)
        requires
            old(self).within_limits(),
        ensures
            final(self).same_content(old(self)),
            final(self).cursor == old(self).selected(old(self).pos_word_left(), old(self).pos_word_left().col),
            final(self).follows(old(self)),
            final(self).within_limits(),
    {
        self.begin_or_extend_selection();
        self.step_word_left();
        self.update_selection_head();
        self.ensure_cursor_visible();
    }

    pub fn move_cursor_word_right(&mut self)
        requires
            old(self).within_limits(),
        ensures
            final(self).same_content(old(self)),
            final(self).cursor == old(self).moved(old(self).pos_word_right(), old(self).pos_word_right().col),
            final(self).follows(old(self)),
            final(self).within_limits(),
    {
        self.step_word_right();
        self.cursor.selection = None;
        self.ensure_cursor_visible();
    }

    pub fn select_word_right(&mut self)
        requires
            old(self).within_limits(),
        ensures
            final(self).same_content(old(self)),
            final(self).cursor == old(self).selected(old(self).pos_word_right(), old(self).pos_word_right().col),
            final(self).follows(old(self)),
            final(self).within_limits(),
    {
        self.begin_or_extend_selection();
        self.step_word_right();
        self.update_selection_head();
        self.ensure_cursor_visible();
    }

    fn step_line_end(&mut self)
        requires
            old(self).within_limits(),
        ensures
            final(self).same_content(old(self)),
            final(self).cursor.position == old(self).pos_line_end(),
            final(self).cursor.desired_col == old(self).pos_line_end().col,
            final(self).cursor.selection == old(self).cursor.selection,
            final(self).scroll_offset == old(self).scroll_offset,
            final(self).horizontal_scroll == old(self).horizontal_scroll,
            final(self).within_limits(),
    {
        proof {
            lemma_line_len_bound(self.text(), self.cursor.position.line as int);
        }
        self.cursor.position.col = self.document.line_len(self.cursor.position.line);
        self.cursor.desired_col = self.cursor.position.col;
    }

    pub fn move_cursor_line_start(&mut self)
        requires
            old(self).within_limits(),
        ensures
            final(self).same_content(old(self)),
            final(self).cursor == old(self).moved(Position { line: old(self).cursor.position.line, col: 0 }, 0),
            final(self).follows(old(self)),
            final(self).within_limits(),
    {
        self.cursor.position.col = 0;
        self.cursor.desired_col = 0;
        self.cursor.selection = None;
        self.ensure_cursor_visible();
    }

    pub fn select_line_start(&mut self)
        requires
            old(self).within_limits(),
        ensures
            final(self).same_content(old(self)),
            final(self).cursor == old(self).selected(Position { line: old(self).cursor.position.line, col: 0 }, 0),
            final(self).follows(old(self)),
            final(self).within_limits(),
    {
        self.begin_or_extend_selection();
        self.cursor.position.col = 0;
        self.cursor.desired_col = 0;
        self.update_selection_head();
        self.ensure_cursor_visible();
    }

    pub fn move_cursor_line_end(&mut self)
        requires
            old(self).within_limits(),
        ensures
            final(self).same_content(old(self)),
            final(self).cursor == old(self).moved(old(self).pos_line_end(), old(self).pos_line_end().col),
            final(self).follows(old(self)),
            final(self).within_limits(),
    {
        self.step_line_end();
        self.cursor.selection = None;
        self.ensure_cursor_visible();
    }

    pub fn select_line_end(&mut self)
        requires
            old(self).within_limits(),
        ensures
            final(self).same_content(old(self)),
            final(self).cursor == old(self).selected(old(self).pos_line_end(), old(self).pos_line_end().col),
            final(self).follows(old(self)),
            final(self).within_limits(),
    {
        self.begin_or_extend_selection();
        self.step_line_end();
        self.update_selection_head();
        self.ensure_cursor_visible();
    }

    pub fn move_cursor_file_start(&mut self)
        requires
            old(self).within_limits(),
        ensures
            final(self).same_content(old(self)),
            final(self).cursor == old(self).moved(Position { line: 0, col: 0 }, 0),
            final(self).follows(old(self)),
            final(self).within_limits(),
    {
        self.cursor.position = Position::new(0, 0);
        self.cursor.desired_col = 0;
        self.cursor.selection = None;
        self.ensure_cursor_visible();
    }

    pub fn move_cursor_file_end(&mut self)
        requires
            old(self).within_limits(),
        ensures
            final(self).same_content(old(self)),
            final(self).cursor == old(self).moved(old(self).pos_file_end(), old(self).pos_file_end().col),
            final(self).follows(old(self)),
            final(self).within_limits(),
    {
        let last_line = self.document.line_count().saturating_sub(1);
        proof {
            lemma_line_len_bound(self.text(), last_line as int);
        }
        self.cursor.position.line = last_line;
        self.cursor.position.col = self.document.line_len(last_line);
        self.cursor.desired_col = self.cursor.position.col;
        self.cursor.selection = None;
        self.ensure_cursor_visible();
    }

    /// Move up by a page (the viewport height less two lines), scrolling by
    /// the same amount.
    pub fn page_up(&mut self)
        ensures
            final(self).paged_up(old(self)),
    {
        let jump = self.viewport_height.saturating_sub(2);
        self.cursor.position.line = self.cursor.position.line.saturating_sub(jump);
        self.scroll_offset = self.scroll_offset.saturating_sub(jump);
        self.clamp_cursor_col();
        self.cursor.selection = None;
    }

    /// Move down by a page, stopping at the last line, scrolling by the same
    /// amount (also stopping at the last line).
    pub fn page_down(&mut self)
        ensures
            final(self).paged_down(old(self)),
    {
        let jump = self.viewport_height.saturating_sub(2);
        let max_line = self.document.line_count().saturating_sub(1);
        let line = self.cursor.position.line;
        self.cursor.position.line = if line >= max_line || max_line - line <= jump { max_line } else { line + jump };
        let scroll = self.scroll_offset;
        self.scroll_offset = if scroll >= max_line || max_line - scroll <= jump { max_line } else { scroll + jump };
        self.clamp_cursor_col();
        self.cursor.selection = None;
    }

    // -- Editing --

    /// The selected text, if there is a selection.
    pub fn get_selected_text(&self) -> (r: Option<String>)
        requires
            self.sel_ok(),
        ensures
            match r {
                Some(s) => self.selected_text() == Some(s@),
                None => self.selected_text() is None,
            },
    {
        match self.cursor.selection {
            None => None,
            Some(sel) => {
                let (start, end) = sel.ordered();
                proof {
                    lemma_pos_ok_bounds(self.text(), start);
                    lemma_pos_ok_bounds(self.text(), end);
                }
                let _len = rope_len_chars(&self.document.rope);
                let start_idx = self.document.pos_to_char_idx(start);
                let end_idx = self.document.pos_to_char_idx(end);
                Some(rope_slice_string(&self.document.rope, start_idx, end_idx))
            },
        }
    }

    /// Delete the selection, recording the deletion, and put the cursor at
    /// its start. Returns the deleted text; `None` without a selection.
    pub fn delete_selection(&mut self) -> (r: Option<String>)
        requires
            old(self).sel_ok(),
            old(self).within_limits(),
        ensures
            match r {
                Some(s) => old(self).selected_text() == Some(s@),
                None => old(self).cursor.selection is None,
            },
            final(self).text() == old(self).text_cleared(),
            final(self).document.modified == old(self).modified_cleared(),
            final(self).same_file(old(self)),
            final(self).history.view() == old(self).history_cleared(),
            final(self).cursor == (match old(self).cursor.selection {
                Some(sel) => old(self).moved(sel.start(), sel.start().col),
                None => old(self).cursor,
            }),
            (final(self).scroll_offset, final(self).horizontal_scroll) == old(self).offsets_cleared(),
            final(self).same_panels(old(self)),
            final(self).multi_select_query == old(self).multi_select_query,
            final(self).cursor.position == old(self).pos_cleared(),
            old(self).edit_ready() ==> pos_ok(final(self).text(), final(self).cursor.position),
            final(self).text().len() <= old(self).text().len(),
            final(self).within_limits(),
    {
        match self.cursor.selection {
            None => None,
            Some(sel) => {
                self.cursor.selection = None;
                let (start, end) = sel.ordered();
                proof {
                    lemma_pos_ok_bounds(self.text(), start);
                    lemma_pos_ok_bounds(self.text(), end);
                    lemma_removal_keeps_start(self.text(), start, end);
                }
                let _len = rope_len_chars(&self.document.rope);
                let start_idx = self.document.pos_to_char_idx(start);
                let end_idx = self.document.pos_to_char_idx(end);
                let text = rope_slice_string(&self.document.rope, start_idx, end_idx);
                self.document.delete_range(start, end);
                self.history.record(Edit::delete(start.line, start.col, text.as_str()));
                self.cursor.position = start;
                self.cursor.desired_col = start.col;
                self.ensure_cursor_visible();
                Some(text)
            },
        }
    }

    pub fn insert_char(&mut self, ch: char)
        requires
            old(self).within_limits(),
            old(self).edit_ready(),
            old(self).text().len() + 2 < usize::MAX,
        ensures
            final(self).inserted_from(
                old(self),
                seq![ch],
                Position { line: old(self).pos_cleared().line, col: (old(self).pos_cleared().col + 1) as usize },
            ),
            final(self).multi_select_query is None,
            final(self).same_panels(old(self)),
            final(self).within_limits(),
            old(self).history_consistent() && lf_only(old(self).text()) && old(self).edit_on_line() && (is_break_char(ch)
                ==> ch == '\n') ==> final(self).history_consistent() && lf_only(final(self).text()),
            old(self).history_consistent() && lf_only(old(self).text()) && old(self).edit_on_line() && !is_break_char(ch)
                ==> final(self).edit_on_line(),
    {
        let ghost before = *self;
        self.multi_select_query = None;
        self.delete_selection();
        let pos = self.cursor.position;
        proof {
            lemma_pos_ok_bounds(self.text(), pos);
        }
        self.document.insert_char(pos, ch);
        let mut text = String::new();
        string_push(&mut text, ch);
        self.history.record(Edit::insert(pos.line, pos.col, text.as_str()));
        self.cursor.position.col += 1;
        self.cursor.desired_col = self.cursor.position.col;
        self.ensure_cursor_visible();
        proof {
            if before.history_consistent() && lf_only(before.text()) && before.edit_on_line() && (is_break_char(ch)
                ==> ch == '\n') {
                assert(lf_only(seq![ch]));
                let pc = before.pos_cleared();
                assert(seq![ch].drop_last() =~= Seq::<char>::empty());
                assert(seq![ch].last() == ch);
                assert(walk(pc.line as int, pc.col as int, Seq::<char>::empty()) == (pc.line as int, pc.col as int));
                if !is_break_char(ch) {
                    assert(end_of(pc, seq![ch]) == Position { line: pc.line, col: (pc.col + 1) as usize });
                }
                lemma_inserted_consistent(
                    before,
                    *self,
                    seq![ch],
                    Position { line: before.pos_cleared().line, col: (before.pos_cleared().col + 1) as usize },
                );
            }
        }
    }

    pub fn insert_newline(&mut self)
        requires
            old(self).within_limits(),
            old(self).edit_ready(),
            old(self).text().len() + 2 < usize::MAX,
        ensures
            final(self).inserted_from(
                old(self),
                seq!['\n'],
                Position { line: (old(self).pos_cleared().line + 1) as usize, col: 0 },
            ),
            final(self).multi_select_query == old(self).multi_select_query,
            final(self).same_panels(old(self)),
            final(self).within_limits(),
            old(self).history_consistent() && lf_only(old(self).text()) && old(self).edit_on_line()
                ==> final(self).history_consistent(),
    {
        let ghost before = *self;
        self.delete_selection();
        let pos = self.cursor.position;
        proof {
            lemma_pos_ok_bounds(self.text(), pos);
        }
        self.document.insert_char(pos, '\n');
        let mut text = String::new();
        string_push(&mut text, '\n');
        self.history.record(Edit::insert(pos.line, pos.col, text.as_str()));
        self.cursor.position.line += 1;
        self.cursor.position.col = 0;
        self.cursor.desired_col = 0;
        self.ensure_cursor_visible();
        proof {
            if before.history_consistent() && lf_only(before.text()) && before.edit_on_line() {
                assert(lf_only(seq!['\n']));
                lemma_inserted_consistent(
                    before,
                    *self,
                    seq!['\n'],
                    Position { line: (before.pos_cleared().line + 1) as usize, col: 0 },
                );
            }
        }
    }

    /// Insert `tab_size` spaces.
    pub fn insert_tab(&mut self, tab_size: usize)
        requires
            old(self).within_limits(),
            old(self).edit_ready(),
            old(self).text().len() + tab_size + 1 < usize::MAX,
        ensures
            final(self).inserted_from(
                old(self),
                Seq::new(tab_size as nat, |i: int| ' '),
                Position {
                    line: old(self).pos_cleared().line,
                    col: (old(self).pos_cleared().col + tab_size) as usize,
                },
            ),
            final(self).multi_select_query == old(self).multi_select_query,
            final(self).same_panels(old(self)),
            final(self).within_limits(),
            old(self).history_consistent() && lf_only(old(self).text()) && old(self).edit_on_line()
                ==> final(self).history_consistent(),
    {
        let ghost before = *self;
        self.delete_selection();
        let mut spaces = String::new();
        let mut i: usize = 0;
        while i < tab_size
            invariant
                i <= tab_size,
                spaces@ == Seq::new(i as nat, |k: int| ' '),
            decreases tab_size - i,
        {
            string_push(&mut spaces, ' ');
            i += 1;
            assert(spaces@ =~= Seq::new(i as nat, |k: int| ' '));
        }
        let pos = self.cursor.position;
        proof {
            lemma_pos_ok_bounds(self.text(), pos);
        }
        self.document.insert_text(pos, spaces.as_str());
        self.history.record(Edit::insert(pos.line, pos.col, spaces.as_str()));
        self.cursor.position.col += tab_size;
        self.cursor.desired_col = self.cursor.position.col;
        self.ensure_cursor_visible();
        proof {
            if before.history_consistent() && lf_only(before.text()) && before.edit_on_line() {
                let sp = Seq::new(tab_size as nat, |i: int| ' ');
                assert(lf_only(sp));
                lemma_inserted_consistent(
                    before,
                    *self,
                    sp,
                    Position { line: before.pos_cleared().line, col: (before.pos_cleared().col + tab_size) as usize },
                );
            }
        }
    }

    /// Paste text directly (from a terminal paste event, not the clipboard).
    pub fn paste_text_content(&mut self, text: &str)
        requires
            old(self).within_limits(),
            old(self).edit_ready(),
            old(self).text().len() + text@.len() + 1 < usize::MAX,
        ensures
            final(self).pasted(old(self), text@),
            final(self).multi_select_query == old(self).multi_select_query,
            final(self).same_panels(old(self)),
            final(self).within_limits(),
            old(self).history_consistent() && lf_only(old(self).text()) && old(self).edit_on_line() && lf_only(text@)
                ==> final(self).history_consistent(),
    {
        let ghost before = *self;
        if text.is_empty() {
            return;
        }
        self.delete_selection();
        let pos = self.cursor.position;
        proof {
            lemma_pos_ok_bounds(self.text(), pos);
        }
        self.document.insert_text(pos, text);
        self.history.record(Edit::insert(pos.line, pos.col, text));
        let end = end_position(pos, text);
        proof {
            lemma_walk_bound(pos.line as int, pos.col as int, text@);
        }
        self.cursor.position = end;
        self.cursor.desired_col = end.col;
        self.cursor.selection = None;
        self.ensure_cursor_visible();
        proof {
            if before.history_consistent() && lf_only(before.text()) && before.edit_on_line() && lf_only(text@) {
                lemma_inserted_consistent(before, *self, text@, end_of(before.pos_cleared(), text@));
            }
        }
    }

    /// Paste the clipboard's text at the cursor, replacing the selection.
    /// A text too long for the machine's integers is not pasted.
    pub fn paste_text(&mut self)
        requires
            old(self).within_limits(),
            old(self).edit_ready(),
        ensures
            final(self).clipboard_pasted(old(self)),
            old(self).history_consistent() && lf_only(old(self).text()) && old(self).edit_on_line()
                && old(self).clipboard.system is None && lf_only(old(self).clipboard.fallback@)
                ==> final(self).history_consistent(),
    {
        let text = self.clipboard.get_text();
        if text.as_str().is_empty() {
            assert(self.pasted(old(self), text@));
            return;
        }
        let n = chars_of(text.as_str()).len();
        let len = rope_len_chars(&self.document.rope);
        if n >= usize::MAX - 1 - len {
            assert(self.pasted(old(self), Seq::<char>::empty()));
            return;
        }
        self.paste_text_content(text.as_str());
        assert(self.pasted(old(self), text@));
    }

    /// Copy the selection to the clipboard.
    pub fn copy_text(&mut self)
        requires
            old(self).sel_ok(),
        ensures
            final(self).copied(old(self)),
    {
        match self.get_selected_text() {
            Some(text) => {
                self.clipboard.set_text(text.as_str());
            },
            None => {},
        }
    }

    /// Copy the selection to the clipboard and delete it.
    pub fn cut_text(&mut self)
        requires
            old(self).sel_ok(),
            old(self).within_limits(),
        ensures
            final(self).cut_done(old(self)),
            old(self).history_consistent() && lf_only(old(self).text()) && old(self).edit_on_line()
                ==> final(self).history_consistent(),
    {
        let ghost before = *self;
        match self.get_selected_text() {
            Some(text) => {
                self.clipboard.set_text(text.as_str());
                self.delete_selection();
                self.ensure_cursor_visible();
                proof {
                    if before.history_consistent() && lf_only(before.text()) && before.edit_on_line() {
                        lemma_selection_cleared(before);
                    }
                }
            },
            None => {},
        }
    }

    /// Select the whole document, with the cursor at its end.
    pub fn select_all(&mut self)
        ensures
            final(self).all_selected(old(self)),
    {
        let last_line = self.document.line_count().saturating_sub(1);
        let last_col = self.document.line_len(last_line);
        self.cursor.selection = Some(Selection::new(Position::new(0, 0), Position::new(last_line, last_col)));
        self.cursor.position = Position::new(last_line, last_col);
    }

    /// Delete the character before the cursor, join the line with the
    /// previous one at a line start, or delete the selection.
    pub fn delete_backward(&mut self)
        requires
            old(self).within_limits(),
            old(self).sel_ok(),
            old(self).cursor.selection is None && old(self).cursor.position.col == 0 && old(self).cursor.position.line > 0
                ==> old(self).cursor.position.line <= line_count(old(self).text()),
        ensures
            final(self).backspaced(old(self)),
            old(self).history_consistent() && lf_only(old(self).text()) && old(self).edit_on_line()
                ==> final(self).history_consistent() && lf_only(final(self).text()) && final(self).edit_on_line(),
    {
        let ghost before = *self;
        self.multi_select_query = None;
        if self.cursor.selection.is_some() {
            self.delete_selection();
            self.ensure_cursor_visible();
            proof {
                if before.history_consistent() && lf_only(before.text()) && before.edit_on_line() {
                    lemma_backspaced_consistent(before, *self);
                }
            }
            return;
        }
        proof {
            lemma_line_len_bound(self.text(), self.cursor.position.line as int);
            lemma_line_len_bound(self.text(), self.cursor.position.line as int - 1);
        }
        if self.cursor.position.col > 0 {
            let pos = self.cursor.position;
            let del_pos = Position::new(pos.line, pos.col - 1);
            match self.document.char_at(del_pos) {
                Some(ch) => {
                    proof {
                        lemma_line_bounds(self.text(), pos.line as int);
                    }
                    self.document.delete_range(del_pos, pos);
                    let mut text = String::new();
                    string_push(&mut text, ch);
                    self.history.record(Edit::delete(del_pos.line, del_pos.col, text.as_str()));
                    self.cursor.position.col -= 1;
                    self.cursor.desired_col = self.cursor.position.col;
                },
                None => {},
            }
        } else if self.cursor.position.line > 0 {
            let prev_line = self.cursor.position.line - 1;
            let prev_col = self.document.line_len(prev_line);
            let from = Position::new(prev_line, prev_col);
            let to = self.cursor.position;
            proof {
                lemma_line_bounds(self.text(), prev_line as int);
                lemma_line_start_exists(self.text(), prev_line as int);
            }
            self.document.delete_range(from, to);
            let mut text = String::new();
            string_push(&mut text, '\n');
            self.history.record(Edit::delete(from.line, from.col, text.as_str()));
            self.cursor.position.line = prev_line;
            self.cursor.position.col = prev_col;
            self.cursor.desired_col = prev_col;
        }
        self.ensure_cursor_visible();
        proof {
            if before.history_consistent() && lf_only(before.text()) && before.edit_on_line() {
                lemma_backspaced_consistent(before, *self);
            }
        }
    }

    /// Delete the character under the cursor, or join the next line at a
    /// line's end.
    pub fn delete_forward(&mut self)
        requires
            old(self).within_limits(),
            old(self).cursor.position.col >= line_len(old(self).text(), old(self).cursor.position.line as int)
                && old(self).cursor.position.line + 1 < line_count(old(self).text()) ==> line_start(
                old(self).text(),
                old(self).cursor.position.line as int,
            ) + old(self).cursor.position.col <= usize::MAX,
        ensures
            final(self).forward_deleted(old(self)),
            old(self).history_consistent() && lf_only(old(self).text()) && on_line(
                old(self).text(),
                old(self).cursor.position,
            ) ==> final(self).history_consistent(),
    {
        let ghost before = *self;
        self.multi_select_query = None;
        let pos = self.cursor.position;
        let line_len = self.document.line_len(pos.line);
        let _len = rope_len_chars(&self.document.rope);
        proof {
            lemma_line_len_bound(self.text(), pos.line as int);
        }
        if pos.col < line_len {
            let end = Position::new(pos.line, pos.col + 1);
            match self.document.char_at(pos) {
                Some(ch) => {
                    proof {
                        lemma_line_bounds(self.text(), pos.line as int);
                    }
                    self.document.delete_range(pos, end);
                    let mut text = String::new();
                    string_push(&mut text, ch);
                    self.history.record(Edit::delete(pos.line, pos.col, text.as_str()));
                },
                None => {},
            }
        } else if pos.line + 1 < self.document.line_count() {
            let end = Position::new(pos.line + 1, 0);
            proof {
                lemma_line_bounds(self.text(), pos.line as int);
                lemma_line_start_exists(self.text(), pos.line as int + 1);
            }
            self.document.delete_range(pos, end);
            let mut text = String::new();
            string_push(&mut text, '\n');
            self.history.record(Edit::delete(pos.line, pos.col, text.as_str()));
        }
        proof {
            if before.history_consistent() && lf_only(before.text()) && on_line(before.text(), before.cursor.position) {
                lemma_forward_deleted_consistent(before, *self);
            }
        }
    }

    /// Undo the last group of edits: its inverse is applied to the text.
    pub fn undo(&mut self)
        requires
            old(self).within_limits(),
            old(self).group_ok(spec_undo(old(self).history.view()).1),
        ensures
            final(self).undone(old(self)),
            old(self).history_consistent() ==> final(self).history_consistent(),
    {
        let ghost before = *self;
        match self.history.undo() {
            Some(edits) => {
                self.apply_group(edits);
            },
            None => {},
        }
        proof {
            if before.history_consistent() {
                lemma_undo_redo_consistent(before, *self);
            }
        }
    }

    /// Redo the last undone group of edits: it is applied to the text again.
    pub fn redo(&mut self)
        requires
            old(self).within_limits(),
            old(self).group_ok(spec_redo(old(self).history.view()).1),
        ensures
            final(self).redone(old(self)),
            old(self).history_consistent() ==> final(self).history_consistent(),
    {
        let ghost before = *self;
        match self.history.redo() {
            Some(edits) => {
                self.apply_group(edits);
            },
            None => {},
        }
        proof {
            if before.history_consistent() {
                lemma_undo_redo_consistent(before, *self);
            }
        }
    }

    fn apply_group(&mut self, edits: Vec<Edit>)
        requires
            old(self).within_limits(),
            all_ok(old(self).text(), edits.deep_view()),
            apply_all(old(self).text(), edits.deep_view()).len() + 1 < usize::MAX,
        ensures
            final(self).applied(old(self), edits.deep_view()),
            final(self).history == old(self).history,
            final(self).same_file(old(self)),
            final(self).same_panels(old(self)),
            final(self).multi_select_query == old(self).multi_select_query,
            final(self).within_limits(),
    {
        let ghost es = edits.deep_view();
        let ghost t0 = self.text();
        let mut i: usize = 0;
        while i < edits.len()
            invariant
                i <= edits.len(),
                es == edits.deep_view(),
                t0 == old(self).text(),
                all_ok(t0, es),
                self.text() == apply_all(t0, es.take(i as int)),
                self.document.modified == (old(self).document.modified || all_modify(t0, es.take(i as int))),
                i > 0 ==> self.cursor.position == apply_cursor(es[i - 1]),
                i == 0 ==> self.cursor.position == old(self).cursor.position,
                self.cursor.selection == old(self).cursor.selection,
                self.history == old(self).history,
                self.same_file(old(self)),
                self.same_panels(old(self)),
                self.multi_select_query == old(self).multi_select_query,
                self.scroll_offset == old(self).scroll_offset,
                self.horizontal_scroll == old(self).horizontal_scroll,
            decreases edits.len() - i,
        {
            proof {
                lemma_all_ok_prefix(t0, es, i + 1);
                assert(es.take(i + 1).drop_last() =~= es.take(i as int));
                assert(es.take(i + 1).last() == es[i as int]);
            }
            let _len = rope_len_chars(&self.document.rope);
            self.apply_edit(&edits[i]);
            i += 1;
        }
        proof {
            assert(es.take(i as int) =~= es);
            if i > 0 {
                let e = es[i - 1];
                lemma_walk_bound(edit_pos(e).line as int, edit_pos(e).col as int, edit_text(e));
            }
        }
        self.cursor.desired_col = self.cursor.position.col;
        self.ensure_cursor_visible();
    }

    fn apply_edit(&mut self, edit: &Edit)
        requires
            edit_ok(old(self).text(), edit.deep_view()),
            old(self).text().len() <= usize::MAX,
        ensures
            final(self).text() == apply_text(old(self).text(), edit.deep_view()),
            final(self).cursor.position == apply_cursor(edit.deep_view()),
            final(self).cursor.selection == old(self).cursor.selection,
            final(self).cursor.desired_col == old(self).cursor.desired_col,
            final(self).document.modified == (old(self).document.modified || apply_modifies(
                old(self).text(),
                edit.deep_view(),
            )),
            final(self).history == old(self).history,
            final(self).same_file(old(self)),
            final(self).same_panels(old(self)),
            final(self).multi_select_query == old(self).multi_select_query,
            final(self).scroll_offset == old(self).scroll_offset,
            final(self).horizontal_scroll == old(self).horizontal_scroll,
    {
        match edit {
            Edit::Insert { pos, text } => {
                let position = Position::new(pos.0, pos.1);
                self.document.insert_text(position, text.as_str());
                let end = end_position(position, text.as_str());
                self.cursor.position = end;
            },
            Edit::Delete { pos, text } => {
                let start = Position::new(pos.0, pos.1);
                let end = end_position(start, text.as_str());
                self.document.delete_range(start, end);
                self.cursor.position = start;
            },
        }
    }

    /// Whether `p` is a valid position of the text.
    fn position_fits(&self, p: Position) -> (r: bool)
        ensures
            r == pos_ok(self.text(), p),
    {
        doc_position_fits(&self.document, p)
    }

    /// Whether the selection, if any, covers a range of the text.
    fn selection_fits(&self) -> (r: bool)
        ensures
            r == self.sel_ok(),
    {
        let _len = rope_len_chars(&self.document.rope);
        match self.cursor.selection {
            Some(sel) => {
                let (start, end) = sel.ordered();
                if !self.position_fits(start) || !self.position_fits(end) {
                    return false;
                }
                let i = index_of(&self.document, start);
                let j = index_of(&self.document, end);
                match (i, j) {
                    (Some(i), Some(j)) => i <= j,
                    _ => false,
                }
            },
            None => true,
        }
    }

    /// Whether an edit can be made at the cursor (see [`Buffer::edit_ready`]).
    fn edit_fits_here(&self) -> (r: bool)
        ensures
            r == self.edit_ready(),
    {
        self.selection_fits() && (self.cursor.selection.is_some() || self.position_fits(self.cursor.position))
    }

    /// Whether every match and the current one lie below `usize::MAX`.
    fn matches_fit(&self) -> (r: bool)
        ensures
            r == self.matches_bounded(),
    {
        let n = self.search.matches.len();
        if n > 0 && self.search.current >= n {
            return false;
        }
        let mut k: usize = 0;
        while k < n
            invariant
                n == self.search.matches.len(),
                k <= n,
                forall|j: int|
                    #![auto]
                    0 <= j < k ==> self.search.matches@[j].0 < usize::MAX && self.search.matches@[j].1 < usize::MAX,
            decreases n - k,
        {
            let (l, c) = self.search.matches[k];
            if l == usize::MAX || c == usize::MAX {
                return false;
            }
            k += 1;
        }
        true
    }

    /// Whether the current match can be replaced (see
    /// [`Buffer::current_ok`] and [`Buffer::replace_ok`]).
    fn replace_fits(&self) -> (r: bool)
        ensures
            r == (self.current_ok() && self.replace_ok()),
    {
        let n = self.search.matches.len();
        if n == 0 {
            return true;
        }
        if self.search.current >= n {
            return false;
        }
        let (l, c) = self.search.matches[self.search.current];
        if l == usize::MAX || c == usize::MAX {
            return false;
        }
        let qlen = chars_of(self.search.query.as_str()).len();
        let rlen = chars_of(self.search.replace_query.as_str()).len();
        let len = rope_len_chars(&self.document.rope);
        if c > usize::MAX - qlen || rlen >= usize::MAX - 1 || len >= usize::MAX - 1 - rlen {
            return false;
        }
        self.position_fits(Position::new(l, c)) && self.position_fits(Position::new(l, c + qlen))
    }

    /// Whether handling `action` can be done without leaving the text or the
    /// machine's integers: exactly what [`Buffer::ready_for`] asks.
    pub fn is_ready_for(&self, action: &Action) -> (r: bool)
        ensures
            r == self.ready_for(*action),
    {
        let len = rope_len_chars(&self.document.rope);
        let p = self.cursor.position;
        if len >= usize::MAX - 1 || p.line == usize::MAX || p.col == usize::MAX {
            return false;
        }
        if self.goto_line.active {
            return true;
        }
        let intercepted = self.search.active && match action {
            Action::FindInFile => true,
            Action::FindAndReplace => true,
            Action::InsertTab => self.search.replace_mode,
            Action::InsertChar(_) => true,
            Action::DeleteBackward => true,
            Action::InsertNewline => true,
            Action::SelectAll => self.search.replace_mode && self.search.replace_field_focused,
            Action::CursorDown => true,
            Action::CursorUp => true,
            _ => false,
        };
        if intercepted {
            return match action {
                Action::InsertNewline => if self.search.replace_mode && self.search.replace_field_focused {
                    self.replace_fits()
                } else {
                    self.matches_fit()
                },
                Action::SelectAll => self.replace_all_fits(),
                Action::CursorDown => self.matches_fit(),
                Action::CursorUp => self.matches_fit(),
                _ => true,
            };
        }
        match action {
            Action::SelectNextOccurrence => self.occurrence_fits(),
            Action::InsertChar(_) => self.edit_fits_here() && len < usize::MAX - 2,
            Action::InsertNewline => self.edit_fits_here() && len < usize::MAX - 2,
            Action::InsertTab => self.edit_fits_here() && len < usize::MAX - 5,
            Action::DeleteBackward => self.selection_fits() && (self.cursor.selection.is_some() || p.col != 0 || p.line
                == 0 || p.line <= self.document.line_count()),
            Action::DeleteForward => {
                let count = self.document.line_count();
                if p.col >= self.document.line_len(p.line) && p.line + 1 < count {
                    index_of(&self.document, p).is_some()
                } else {
                    true
                }
            },
            Action::Undo => match self.history.peek_undo() {
                Some(es) => self.group_applies(&es),
                None => true,
            },
            Action::Redo => match self.history.peek_redo() {
                Some(es) => self.group_applies(&es),
                None => true,
            },
            Action::Copy => self.selection_fits(),
            Action::Cut => self.selection_fits(),
            Action::Paste => self.edit_fits_here(),
            Action::PasteText(text) => {
                let n = chars_of(text.as_str()).len();
                self.edit_fits_here() && n < usize::MAX - 1 && len < usize::MAX - 1 - n
            },
            _ => true,
        }
    }

    /// Whether every match can be replaced in turn (see
    /// [`Buffer::replace_all_ok`]).
    fn replace_all_fits(&self) -> (r: bool)
        ensures
            r == self.replace_all_ok(),
    {
        broadcast use vstd::std_specs::hash::group_hash_axioms;

        let query_len = chars_of(self.search.query.as_str()).len();
        let replace_len = chars_of(self.search.replace_query.as_str()).len();
        let n = self.search.matches.len();
        let ghost ms = self.search.matches@;
        let ghost t0 = self.text();
        let ghost rep = self.search.replace_query@;
        let ghost qlen = query_len as int;
        if query_len as u64 > i64::MAX as u64 || replace_len as u64 > i64::MAX as u64 {
            return false;
        }
        let b: u64 = query_len as u64 + replace_len as u64;
        proof {
            assert((n as u128) * (b as u128) <= 0xffff_ffff_ffff_ffffu128 * 0xffff_ffff_ffff_ffffu128) by (nonlinear_arith)
                requires
                    n as u128 <= 0xffff_ffff_ffff_ffffu128,
                    b as u128 <= 0xffff_ffff_ffff_ffffu128,
            ;
        }
        if (n as u128) * (b as u128) > (i64::MAX / 2) as u128 {
            return false;
        }
        let mut j: usize = 0;
        while j < n
            invariant
                n == self.search.matches.len(),
                ms == self.search.matches@,
                j <= n,
                forall|i: int| 0 <= i < j ==> #[trigger] ms[i].1 <= i64::MAX / 2,
            decreases n - j,
        {
            if self.search.matches[j].1 as u64 > (i64::MAX / 2) as u64 {
                return false;
            }
            j += 1;
        }
        let offset_delta: i64 = replace_len as i64 - query_len as i64;
        let ghost delta = rep.len() - query_len;
        let copy = self.document.text();
        let mut d = Document::from_text(copy.as_str());
        let mut line_offsets: HashMap<usize, i64> = HashMap::new();
        let mut k: usize = 0;
        while k < n
            invariant
                n == self.search.matches.len(),
                ms == self.search.matches@,
                t0 == self.text(),
                rep == self.search.replace_query@,
                qlen == query_len,
                qlen == self.search.query@.len(),
                replace_len == rep.len(),
                offset_delta == delta,
                delta == rep.len() - query_len,
                b == query_len + rep.len(),
                query_len <= i64::MAX,
                rep.len() <= i64::MAX,
                -b <= delta <= b,
                ms.len() * b <= i64::MAX / 2,
                forall|i: int| 0 <= i < ms.len() ==> #[trigger] ms[i].1 <= i64::MAX / 2,
                k <= ms.len(),
                replaced_ok(t0, ms, qlen, rep, k as int),
                d.text_view() == replaced(t0, ms, qlen, rep, k as int),
                forall|l: usize| #[trigger] line_offsets@.contains_key(l) ==> line_offsets@[l] == offset_before(ms, k as int, l, delta),
                forall|l: usize| !(#[trigger] line_offsets@.contains_key(l)) ==> offset_before(ms, k as int, l, delta) == 0,
            decreases ms.len() - k,
        {
            let (line, col) = self.search.matches[k];
            let adj: i64 = match line_offsets.get(&line) {
                Some(v) => *v,
                None => 0,
            };
            proof {
                lemma_offset_bound(ms, k as int, line, delta, b as int);
                assert(k * b <= ms.len() * b) by (nonlinear_arith)
                    requires
                        k <= ms.len(),
                        0 <= b,
                ;
            }
            let c: i64 = col as i64 + adj;
            if c >= 0 && c as u64 > usize::MAX as u64 {
                proof {
                    if replaced_ok(t0, ms, qlen, rep, n as int) {
                        lemma_replaced_ok_prefix(t0, ms, qlen, rep, n as int, k + 1);
                    }
                }
                return false;
            }
            let real_col: usize = if c < 0 { 0 } else { c as usize };
            proof {
                assert(line == ms[k as int].0 && col == ms[k as int].1);
                assert(adj == offset_before(ms, k as int, line, delta));
                assert(real_col as int == replace_col(ms, k as int, delta));
            }
            if real_col > usize::MAX - query_len {
                proof {
                    if replaced_ok(t0, ms, qlen, rep, n as int) {
                        lemma_replaced_ok_prefix(t0, ms, qlen, rep, n as int, k + 1);
                    }
                }
                return false;
            }
            let start = Position::new(line, real_col);
            let end = Position::new(line, real_col + query_len);
            if !doc_position_fits(&d, start) || !doc_position_fits(&d, end) {
                proof {
                    if replaced_ok(t0, ms, qlen, rep, n as int) {
                        lemma_replaced_ok_prefix(t0, ms, qlen, rep, n as int, k + 1);
                    }
                }
                return false;
            }
            proof {
                lemma_pos_ok_bounds(d.text_view(), start);
                lemma_pos_ok_bounds(d.text_view(), end);
                lemma_removal_keeps_start(d.text_view(), start, end);
            }
            let _len = rope_len_chars(&d.rope);
            d.delete_range(start, end);
            proof {
                lemma_pos_ok_bounds(d.text_view(), start);
            }
            d.insert_text(start, self.search.replace_query.as_str());
            proof {
                lemma_offset_bound(ms, k + 1, line, delta, b as int);
                assert((k + 1) * b <= ms.len() * b) by (nonlinear_arith)
                    requires
                        k + 1 <= ms.len(),
                        0 <= b,
                ;
                assert(offset_before(ms, k + 1, line, delta) == adj + delta);
            }
            line_offsets.insert(line, adj + offset_delta);
            k += 1;
        }
        let len = rope_len_chars(&d.rope);
        len < usize::MAX - 1
    }

    /// Whether the next occurrence can be selected (see
    /// [`Buffer::occurrence_ok`]).
    fn occurrence_fits(&self) -> (r: bool)
        ensures
            r == self.occurrence_ok(),
    {
        match self.cursor.selection {
            Some(sel) => {
                let (start, end) = sel.ordered();
                if start.line == end.line {
                    let n = chars_of(self.document.line(start.line).as_str()).len();
                    if start.col > n {
                        return false;
                    }
                }
            },
            None => {},
        }
        let query = self.occurrence_query_string();
        let qlen = chars_of(query.as_str()).len();
        if self.cursor.position.col > usize::MAX - qlen {
            return false;
        }
        let lower = chars_of(to_lowercase(query.as_str()).as_str());
        if lower.len() == 0 {
            return true;
        }
        let ms = self.collect_matches(&lower);
        let ghost want = search_matches(self.text(), lowercase(query@));
        assert(qlen == self.occurrence_query().len());
        assert(ms@ == want);
        let mut k: usize = 0;
        while k < ms.len()
            invariant
                k <= ms.len(),
                ms@ == want,
                qlen == self.occurrence_query().len(),
                want == search_matches(self.text(), lowercase(self.occurrence_query())),
                forall|j: int| 0 <= j < k ==> #[trigger] want[j].1 + qlen <= usize::MAX,
            decreases ms.len() - k,
        {
            if ms[k].1 > usize::MAX - qlen {
                assert(want[k as int].1 + self.occurrence_query().len() > usize::MAX);
                assert(want == search_matches(self.text(), lowercase(self.occurrence_query())));
                assert(!self.occurrence_ok());
                return false;
            }
            k += 1;
        }
        true
    }

    /// Whether the edits `es` apply in turn to this buffer's text, and leave
    /// a text within the machine limits; tried out on a copy of the text.
    pub fn group_applies(&self, es: &Vec<Edit>) -> (r: bool)
        ensures
            r == self.group_ok(Some(es.deep_view())),
    {
        let ghost t0 = self.text();
        let ghost ev = es.deep_view();
        let copy = self.document.text();
        let mut d = Document::from_text(copy.as_str());
        let mut i: usize = 0;
        while i < es.len()
            invariant
                i <= es.len(),
                ev == es.deep_view(),
                t0 == self.text(),
                all_ok(t0, ev.take(i as int)),
                d.text_view() == apply_all(t0, ev.take(i as int)),
            decreases es.len() - i,
        {
            proof {
                assert(ev.take(i + 1).drop_last() =~= ev.take(i as int));
                assert(ev.take(i + 1).last() == ev[i as int]);
            }
            if !edit_fits(&d, &es[i]) {
                proof {
                    if all_ok(t0, ev) {
                        lemma_all_ok_prefix(t0, ev, i + 1);
                    }
                }
                return false;
            }
            match &es[i] {
                Edit::Insert { pos, text } => {
                    d.insert_text(Position::new(pos.0, pos.1), text.as_str());
                },
                Edit::Delete { pos, text } => {
                    let start = Position::new(pos.0, pos.1);
                    let end = end_position(start, text.as_str());
                    d.delete_range(start, end);
                },
            }
            i += 1;
        }
        proof {
            assert(ev.take(i as int) =~= ev);
        }
        let len = rope_len_chars(&d.rope);
        len < usize::MAX - 1
    }

    // -- Search --

    /// Find every match of the search query in the document,
    /// case-insensitively, line by line, and make the first one current.
    pub fn recompute_search(&mut self)
        ensures
            final(self).search.matches@ == search_matches(old(self).text(), lowercase(old(self).search.query@)),
            final(self).search.current == 0,
            final(self).matches_in_text(),
            final(self).same_query(old(self)),
            final(self).same_but_search(old(self)),
    {
        self.search.matches.clear();
        self.search.current = 0;
        let query = to_lowercase(self.search.query.as_str());
        let q = chars_of(query.as_str());
        if q.len() == 0 {
            return;
        }
        let lines = self.document.line_count();
        let ghost t = self.text();
        let mut line_idx: usize = 0;
        while line_idx < lines
            invariant
                t == old(self).text(),
                lines == line_count(t),
                line_idx <= lines,
                q@ == lowercase(old(self).search.query@),
                q.len() > 0,
                self.search.matches@ == matches_before(t, q@, line_idx as int),
                self.search.current == 0,
                self.matches_in_text(),
                self.same_query(old(self)),
                self.same_but_search(old(self)),
            decreases lines - line_idx,
        {
            let raw = chars_of(self.document.line(line_idx).as_str());
            let e1 = trimmed_len(&raw, raw.len(), '\n');
            let e2 = trimmed_len(&raw, e1, '\r');
            proof {
                assert(raw@.take(raw.len() as int) =~= raw@);
            }
            let line = string_from_range(raw.as_slice(), 0, e2);
            proof {
                assert(line@ =~= raw@.take(e2 as int));
            }
            let lower = chars_of(to_lowercase(line.as_str()).as_str());
            push_line_matches(&mut self.search.matches, line_idx, &lower, &q);
            line_idx += 1;
        }
    }

    /// Move the cursor to the current match, if there is one.
    fn jump_to_current_match(&mut self)
        requires
            old(self).current_ok(),
        ensures
            final(self).same_content(old(self)),
            old(self).search.matches.len() > 0 ==> {
                let m = old(self).search.matches@[old(self).search.current as int];
                &&& final(self).cursor == old(self).moved(Position { line: m.0, col: m.1 }, m.1)
                &&& final(self).follows(old(self))
            },
            old(self).search.matches.len() == 0 ==> {
                &&& final(self).cursor == old(self).cursor
                &&& final(self).scroll_offset == old(self).scroll_offset
                &&& final(self).horizontal_scroll == old(self).horizontal_scroll
            },
    {
        match self.search.current_match() {
            Some((line, col)) => {
                self.cursor.position.line = line;
                self.cursor.position.col = col;
                self.cursor.desired_col = col;
                self.cursor.selection = None;
                self.ensure_cursor_visible();
            },
            None => {},
        }
    }

    /// Search again and move to the first match.
    fn research(&mut self)
        requires
            old(self).within_limits(),
        ensures
            final(self).found_and_jumped(old(self).cursor, (old(self).scroll_offset, old(self).horizontal_scroll)),
            final(self).matches_in_text(),
            final(self).same_query(old(self)),
            final(self).document == old(self).document,
            final(self).history == old(self).history,
            final(self).clipboard == old(self).clipboard,
            final(self).goto_line == old(self).goto_line,
            final(self).multi_select_query == old(self).multi_select_query,
            final(self).viewport_height == old(self).viewport_height,
            final(self).viewport_width == old(self).viewport_width,
            final(self).within_limits(),
    {
        self.recompute_search();
        proof {
            lemma_line_len_bound(self.text(), 0);
        }
        self.jump_to_current_match();
    }

    /// Replace the current match with the replacement text, then search again.
    fn replace_current(&mut self)
        requires
            old(self).within_limits(),
            old(self).current_ok(),
            old(self).replace_ok(),
        ensures
            final(self).replaced_current(old(self)),
    {
        match self.search.current_match() {
            Some((line, col)) => {
                let query_len = chars_of(self.search.query.as_str()).len();
                let replace = self.search.replace_query.clone();
                let start = Position::new(line, col);
                let end = Position::new(line, col + query_len);
                proof {
                    lemma_pos_ok_bounds(self.text(), start);
                    lemma_pos_ok_bounds(self.text(), end);
                    lemma_removal_keeps_start(self.text(), start, end);
                }
                let _len = rope_len_chars(&self.document.rope);
                self.document.delete_range(start, end);
                assert(self.text().len() <= old(self).text().len());
                proof {
                    lemma_pos_ok_bounds(self.text(), start);
                }
                self.document.insert_text(start, replace.as_str());
                assert(replace@ == old(self).search.replace_query@);
                self.research();
            },
            None => {},
        }
    }

    /// Replace every match with the replacement text, in order, shifting
    /// later matches on the same line by the change in length; then search
    /// again.
    fn replace_all(&mut self)
        requires
            old(self).within_limits(),
            old(self).replace_all_ok(),
        ensures
            final(self).replaced_all(old(self)),
    {
        broadcast use vstd::std_specs::hash::group_hash_axioms;

        let query_len = chars_of(self.search.query.as_str()).len();
        let replace = self.search.replace_query.clone();
        let replace_len = chars_of(replace.as_str()).len();
        let ghost ms = self.search.matches@;
        let ghost t0 = self.text();
        let ghost rep = replace@;
        let offset_delta: i64 = replace_len as i64 - query_len as i64;
        let ghost delta = rep.len() - query_len;
        let ghost b = query_len + rep.len();
        let mut line_offsets: HashMap<usize, i64> = HashMap::new();
        let mut k: usize = 0;
        while k < self.search.matches.len()
            invariant
                ms == self.search.matches@,
                rep == old(self).search.replace_query@,
                replace@ == rep,
                query_len == old(self).search.query@.len(),
                replace_len == rep.len(),
                offset_delta == delta,
                delta == rep.len() - query_len,
                b == query_len + rep.len(),
                -b <= delta <= b,
                ms.len() * b <= i64::MAX / 2,
                forall|j: int| 0 <= j < ms.len() ==> #[trigger] ms[j].1 <= i64::MAX / 2,
                t0 == old(self).text(),
                k <= ms.len(),
                replaced_ok(t0, ms, query_len as int, rep, ms.len() as int),
                self.text() == replaced(t0, ms, query_len as int, rep, k as int),
                self.document.modified == (old(self).document.modified || k > 0),
                forall|l: usize| #[trigger] line_offsets@.contains_key(l) ==> line_offsets@[l] == offset_before(ms, k as int, l, delta),
                forall|l: usize| !(#[trigger] line_offsets@.contains_key(l)) ==> offset_before(ms, k as int, l, delta) == 0,
                self.same_file(old(self)),
                self.search == old(self).search,
                self.cursor == old(self).cursor,
                self.history == old(self).history,
                self.clipboard == old(self).clipboard,
                self.goto_line == old(self).goto_line,
                self.multi_select_query == old(self).multi_select_query,
                self.scroll_offset == old(self).scroll_offset,
                self.horizontal_scroll == old(self).horizontal_scroll,
                self.viewport_height == old(self).viewport_height,
                self.viewport_width == old(self).viewport_width,
            decreases ms.len() - k,
        {
            let (line, col) = self.search.matches[k];
            let adj: i64 = match line_offsets.get(&line) {
                Some(v) => *v,
                None => 0,
            };
            proof {
                lemma_offset_bound(ms, k as int, line, delta, b);
                assert(k * b <= ms.len() * b) by (nonlinear_arith)
                    requires
                        k <= ms.len(),
                        0 <= b,
                ;
                lemma_replaced_ok_prefix(t0, ms, query_len as int, rep, ms.len() as int, k + 1);
            }
            let c: i64 = col as i64 + adj;
            let real_col: usize = if c < 0 { 0 } else { c as usize };
            let start = Position::new(line, real_col);
            let end = Position::new(line, real_col + query_len);
            proof {
                lemma_pos_ok_bounds(self.text(), start);
                lemma_pos_ok_bounds(self.text(), end);
                lemma_removal_keeps_start(self.text(), start, end);
            }
            let _len = rope_len_chars(&self.document.rope);
            self.document.delete_range(start, end);
            proof {
                lemma_pos_ok_bounds(self.text(), start);
            }
            self.document.insert_text(start, replace.as_str());
            proof {
                lemma_offset_bound(ms, k + 1, line, delta, b);
                assert((k + 1) * b <= ms.len() * b) by (nonlinear_arith)
                    requires
                        k + 1 <= ms.len(),
                        0 <= b,
                ;
                assert(offset_before(ms, k + 1, line, delta) == adj + delta);
            }
            line_offsets.insert(line, adj + offset_delta);
            k += 1;
        }
        self.research();
    }

    /// All matches of the lowercased query `q`, line by line.
    fn collect_matches(&self, q: &Vec<char>) -> (r: Vec<(usize, usize)>)
        requires
            q.len() > 0,
        ensures
            r@ == matches_before(self.text(), q@, line_count(self.text()) as int),
            forall|k: int|
                #![auto]
                0 <= k < r.len() ==> r@[k].0 < line_count(self.text()) && r@[k].1 < usize::MAX,
    {
        let mut out: Vec<(usize, usize)> = Vec::new();
        let lines = self.document.line_count();
        let mut line_idx: usize = 0;
        while line_idx < lines
            invariant
                lines == line_count(self.text()),
                line_idx <= lines,
                q.len() > 0,
                out@ == matches_before(self.text(), q@, line_idx as int),
                forall|k: int| #![auto] 0 <= k < out.len() ==> out@[k].0 < lines && out@[k].1 < usize::MAX,
            decreases lines - line_idx,
        {
            let raw = chars_of(self.document.line(line_idx).as_str());
            let e1 = trimmed_len(&raw, raw.len(), '\n');
            let e2 = trimmed_len(&raw, e1, '\r');
            proof {
                assert(raw@.take(raw.len() as int) =~= raw@);
            }
            let line = string_from_range(raw.as_slice(), 0, e2);
            proof {
                assert(line@ =~= raw@.take(e2 as int));
            }
            let lower = chars_of(to_lowercase(line.as_str()).as_str());
            push_line_matches(&mut out, line_idx, &lower, q);
            line_idx += 1;
        }
        out
    }

    /// The text whose occurrences are selected (see
    /// [`Buffer::occurrence_query`]).
    fn occurrence_query_string(&self) -> (r: String)
        requires
            match self.cursor.selection {
                Some(sel) => sel.start().line == sel.end().line ==> sel.start().col <= line_or_empty(
                    self.text(),
                    sel.start().line as int,
                ).len(),
                None => true,
            },
        ensures
            r@ == self.occurrence_query(),
    {
        match self.cursor.selection {
            Some(sel) => {
                let (start, end) = sel.ordered();
                if start.line == end.line {
                    let chars = chars_of(self.document.line(start.line).as_str());
                    let e = if end.col <= chars.len() { end.col } else { chars.len() };
                    string_from_range(chars.as_slice(), start.col, e)
                } else {
                    String::new()
                }
            },
            None => {
                let pos = self.cursor.position;
                let chars = chars_of(self.document.line(pos.line).as_str());
                if chars.len() == 0 {
                    return String::new();
                }
                let col = if pos.col <= chars.len() - 1 { pos.col } else { chars.len() - 1 };
                if !(is_alphanumeric(chars[col]) || chars[col] == '_') {
                    return String::new();
                }
                let ghost l = chars@;
                let mut start = col;
                while start > 0 && (is_alphanumeric(chars[start - 1]) || chars[start - 1] == '_')
                    invariant
                        l == chars@,
                        start <= col < l.len(),
                        word_start(l, start as int) == word_start(l, col as int),
                    decreases start,
                {
                    start -= 1;
                }
                let mut end = col;
                while end < chars.len() && (is_alphanumeric(chars[end]) || chars[end] == '_')
                    invariant
                        l == chars@,
                        col <= end <= l.len(),
                        word_end(l, end as int) == word_end(l, col as int),
                    decreases l.len() - end,
                {
                    end += 1;
                }
                string_from_range(chars.as_slice(), start, end)
            },
        }
    }

    /// Select the next occurrence of the selection (within one line) or of
    /// the identifier under the cursor, case-insensitively, wrapping round
    /// to the first one after the last.
    pub fn select_next_occurrence(&mut self)
        requires
            old(self).within_limits(),
            old(self).occurrence_ok(),
        ensures
            final(self).next_occurrence_selected(old(self)),
    {
        let query = self.occurrence_query_string();
        let query_len = chars_of(query.as_str()).len();
        if query_len == 0 {
            return;
        }
        let lower = chars_of(to_lowercase(query.as_str()).as_str());
        let ghost q = query@;
        self.multi_select_query = Some(query);
        if lower.len() == 0 {
            return;
        }
        let all_matches = self.collect_matches(&lower);
        if all_matches.len() == 0 {
            return;
        }
        let cur_line = self.cursor.position.line;
        let cur_col = self.cursor.position.col + query_len;
        let ghost ms = all_matches@;
        let mut next: usize = 0;
        let mut k: usize = 0;
        while k < all_matches.len()
            invariant_except_break
                next == 0,
            invariant
                ms == all_matches@,
                k <= ms.len(),
                find_after(ms, cur_line, cur_col as int, k as int) == find_after(ms, cur_line, cur_col as int, 0),
            ensures
                next == find_after(ms, cur_line, cur_col as int, 0),
            decreases ms.len() - k,
        {
            let (l, c) = all_matches[k];
            if l > cur_line || (l == cur_line && c >= cur_col) {
                next = k;
                break;
            }
            k += 1;
        }
        proof {
            lemma_line_len_bound(self.text(), 0);
            lemma_find_after_bound(ms, cur_line, cur_col as int, 0);
            assert(ms == search_matches(old(self).text(), lowercase(q)));
        }
        let (line, col) = all_matches[next];
        self.cursor.position.line = line;
        self.cursor.position.col = col;
        self.cursor.desired_col = col;
        self.cursor.selection = Some(Selection::new(Position::new(line, col), Position::new(line, col + query_len)));
        self.ensure_cursor_visible();
    }

    /// The identifier characters (alphanumeric or `_`) just before the cursor
    /// on its line: the prefix a completion replaces.
    pub fn word_before_cursor(&self) -> (r: String)
        ensures
            ({
                let l = line_or_empty(self.text(), self.cursor.position.line as int);
                let c = if self.cursor.position.col <= l.len() { self.cursor.position.col as int } else { l.len() as int };
                r@ == l.subrange(word_start(l, c), c)
            }),
    {
        let pos = self.cursor.position;
        let chars = chars_of(self.document.line(pos.line).as_str());
        let col = if pos.col <= chars.len() { pos.col } else { chars.len() };
        let ghost l = chars@;
        let mut start = col;
        while start > 0 && (is_alphanumeric(chars[start - 1]) || chars[start - 1] == '_')
            invariant
                l == chars@,
                start <= col <= l.len(),
                word_start(l, start as int) == word_start(l, col as int),
            decreases start,
        {
            start -= 1;
        }
        string_from_range(chars.as_slice(), start, col)
    }

    /// The file's name, or "untitled" for a buffer without a file.
    pub fn name(&self) -> (r: String)
        ensures
            r@ == self.name_view(),
    {
        let found = match &self.document.file_path {
            Some(p) => path_file_name(p.as_str()),
            None => None,
        };
        match found {
            Some(n) => n,
            None => {
                proof {
                    reveal_strlit("untitled");
                }
                "untitled".to_string()
            },
        }
    }

    /// The file's extension, used to pick a syntax; "txt" when there is none.
    pub fn file_extension(&self) -> (r: String)
        ensures
            r@ == match self.document.file_path {
                Some(p) => match extension_of(p@) {
                    Some(e) => e,
                    None => plain_extension(),
                },
                None => plain_extension(),
            },
    {
        let found = match &self.document.file_path {
            Some(p) => path_extension(p.as_str()),
            None => None,
        };
        match found {
            Some(e) => e,
            None => {
                proof {
                    reveal_strlit("txt");
                }
                "txt".to_string()
            },
        }
    }

    /// The cursor's place on the screen: its column past the horizontal
    /// scroll plus the gutter, and its line below the top line.
    pub fn cursor_screen_position(&self) -> (r: (u16, u16))
        requires
            self.cursor.position.col >= self.horizontal_scroll,
            self.cursor.position.line >= self.scroll_offset,
            self.cursor.position.col - self.horizontal_scroll + gutter_for(self.text()) <= usize::MAX,
        ensures
            r.0 == (self.cursor.position.col - self.horizontal_scroll + gutter_for(self.text())) as u16,
            r.1 == (self.cursor.position.line - self.scroll_offset) as u16,
    {
        let gutter_w = self.gutter_width();
        let x = (self.cursor.position.col - self.horizontal_scroll + gutter_w) as u16;
        let y = (self.cursor.position.line - self.scroll_offset) as u16;
        (x, y)
    }

    /// Handle an action: the go-to bar takes all input while it is open,
    /// the search bar its own keys while it is open, and otherwise the
    /// action runs the matching editor operation. Returns what the
    /// application should do next.
    pub fn handle_action(&mut self, action: &Action) -> (r: AppCommand)
        requires
            old(self).ready_for(*action),
        ensures
            r == old(self).command_for(*action),
            final(self).handled(old(self), *action),
            old(self).history_consistent() && old(self).keeps_history(*action) ==> final(self).history_consistent(),
    {
        let ghost before = *self;
        if self.goto_line.active {
            self.handle_goto_action(action);
            proof {
                if before.history_consistent() && before.keeps_history(*action) {
                    lemma_handled_keeps_history(before, *self, *action);
                }
            }
            return AppCommand::Nothing;
        }
        if self.search.active {
            let handled = match action {
                Action::FindInFile => true,
                Action::FindAndReplace => true,
                Action::InsertTab => self.search.replace_mode,
                Action::InsertChar(_) => true,
                Action::DeleteBackward => true,
                Action::InsertNewline => true,
                Action::SelectAll => self.search.replace_mode && self.search.replace_field_focused,
                Action::CursorDown => true,
                Action::CursorUp => true,
                _ => false,
            };
            if handled {
                self.handle_search_action(action);
                proof {
                    if before.history_consistent() && before.keeps_history(*action) {
                        lemma_handled_keeps_history(before, *self, *action);
                    }
                }
                return AppCommand::Nothing;
            }
        }
        let r = self.dispatch_action(action);
        proof {
            if before.history_consistent() && before.keeps_history(*action) {
                lemma_handled_keeps_history(before, *self, *action);
            }
        }
        r
    }

    /// Put the cursor at the start of line `line`, or of the last line when
    /// there are fewer, with no selection, and scroll it into view.
    pub fn jump_to_line(&mut self, line: usize)
        ensures
            final(self).moved_to(
                old(self),
                old(self).moved(
                    Position { line: if line <= sat_sub(old(self).lines() as int, 1) { line } else {
                        sat_sub(old(self).lines() as int, 1) as usize
                    }, col: 0 },
                    0,
                ),
            ),
    {
        let max = self.document.line_count().saturating_sub(1);
        let target = if line <= max { line } else { max };
        self.cursor.position.line = target;
        self.cursor.position.col = 0;
        self.cursor.desired_col = 0;
        self.cursor.selection = None;
        self.ensure_cursor_visible();
    }

    /// Close the search bar, keeping its query and matches.
    pub fn dismiss_search(&mut self)
        ensures
            final(self).same_but_search(old(self)),
            final(self).search_dismissed(old(self)),
    {
        self.search.dismiss();
    }

    /// Close the go-to-line bar, dropping what was typed.
    pub fn dismiss_goto(&mut self)
        ensures
            final(self).same_but_goto(old(self)),
            !final(self).goto_line.active,
            final(self).goto_line.input@.len() == 0,
    {
        self.goto_line.dismiss();
    }

    fn handle_goto_action(&mut self, action: &Action)
        requires
            old(self).goto_line.active,
            old(self).within_limits(),
        ensures
            final(self).after_goto(old(self), *action),
    {
        match action {
            Action::InsertChar(ch) => {
                if '0' <= *ch && *ch <= '9' {
                    string_push(&mut self.goto_line.input, *ch);
                } else {
                    self.goto_line.dismiss();
                }
            },
            Action::DeleteBackward => {
                string_pop(&mut self.goto_line.input);
            },
            Action::InsertNewline => {
                let digits = chars_of(self.goto_line.input.as_str());
                match parse_usize(digits.as_slice()) {
                    Some(n) => {
                        let max = self.document.line_count().saturating_sub(1);
                        let want = n.saturating_sub(1);
                        let target = if want <= max { want } else { max };
                        proof {
                            lemma_line_len_bound(self.text(), 0);
                        }
                        self.cursor.position.line = target;
                        self.cursor.position.col = 0;
                        self.cursor.desired_col = 0;
                        self.cursor.selection = None;
                        self.ensure_cursor_visible();
                    },
                    None => {},
                }
                self.goto_line.dismiss();
            },
            _ => {
                self.goto_line.dismiss();
            },
        }
    }

    fn handle_search_action(&mut self, action: &Action)
        requires
            old(self).intercepts(*action),
            old(self).ready_for(*action),
            !old(self).goto_line.active,
        ensures
            final(self).after_search(old(self), *action),
    {
        let in_replace = self.search.replace_mode && self.search.replace_field_focused;
        match action {
            Action::FindInFile => {
                self.search.dismiss();
            },
            Action::FindAndReplace => {
                if self.search.replace_mode {
                    self.search.dismiss();
                } else {
                    self.search.activate_replace();
                }
            },
            Action::InsertTab => {
                self.search.replace_field_focused = !self.search.replace_field_focused;
            },
            Action::InsertChar(ch) => {
                if in_replace {
                    string_push(&mut self.search.replace_query, *ch);
                } else {
                    string_push(&mut self.search.query, *ch);
                    self.research();
                }
            },
            Action::DeleteBackward => {
                if in_replace {
                    string_pop(&mut self.search.replace_query);
                } else {
                    string_pop(&mut self.search.query);
                    self.research();
                }
            },
            Action::InsertNewline => {
                if in_replace {
                    self.replace_current();
                } else if self.search.matches.len() > 0 {
                    self.search.current = (self.search.current + 1) % self.search.matches.len();
                    self.jump_to_current_match();
                }
            },
            Action::SelectAll => {
                self.replace_all();
            },
            Action::CursorDown => {
                if self.search.matches.len() > 0 {
                    self.search.current = (self.search.current + 1) % self.search.matches.len();
                    self.jump_to_current_match();
                }
            },
            Action::CursorUp => {
                if self.search.matches.len() > 0 {
                    self.search.current = if self.search.current == 0 {
                        self.search.matches.len() - 1
                    } else {
                        self.search.current - 1
                    };
                    self.jump_to_current_match();
                }
            },
            _ => {},
        }
    }

    fn dispatch_action(&mut self, action: &Action) -> (r: AppCommand)
        requires
            old(self).ready_for(*action),
            !old(self).goto_line.active,
            !old(self).intercepts(*action),
        ensures
            r == old(self).command_for(*action),
            final(self).after_dispatch(old(self), *action),
    {
        match action {
            Action::FindInFile => self.search.activate(),
            Action::FindAndReplace => self.search.activate_replace(),
            Action::GoToLine => self.goto_line.activate(),
            Action::SelectNextOccurrence => self.select_next_occurrence(),
            Action::CursorUp => self.move_cursor_up(),
            Action::CursorDown => self.move_cursor_down(),
            Action::CursorLeft => self.move_cursor_left(),
            Action::CursorRight => self.move_cursor_right(),
            Action::CursorWordLeft => self.move_cursor_word_left(),
            Action::CursorWordRight => self.move_cursor_word_right(),
            Action::CursorLineStart => self.move_cursor_line_start(),
            Action::CursorLineEnd => self.move_cursor_line_end(),
            Action::CursorFileStart => self.move_cursor_file_start(),
            Action::CursorFileEnd => self.move_cursor_file_end(),
            Action::PageUp => self.page_up(),
            Action::PageDown => self.page_down(),
            Action::SelectUp => self.select_up(),
            Action::SelectDown => self.select_down(),
            Action::SelectLeft => self.select_left(),
            Action::SelectRight => self.select_right(),
            Action::SelectWordLeft => self.select_word_left(),
            Action::SelectWordRight => self.select_word_right(),
            Action::SelectLineStart => self.select_line_start(),
            Action::SelectLineEnd => self.select_line_end(),
            Action::InsertChar(ch) => self.insert_char(*ch),
            Action::InsertNewline => self.insert_newline(),
            Action::InsertTab => self.insert_tab(4),
            Action::DeleteBackward => self.delete_backward(),
            Action::DeleteForward => self.delete_forward(),
            Action::SelectAll => self.select_all(),
            Action::Undo => self.undo(),
            Action::Redo => self.redo(),
            Action::Copy => self.copy_text(),
            Action::Cut => self.cut_text(),
            Action::Paste => self.paste_text(),
            Action::PasteText(text) => self.paste_text_content(text.as_str()),
            Action::SaveFile => {
                return AppCommand::SaveCurrentFile;
            },
            Action::TriggerCompletion => {
                return AppCommand::RequestCompletion;
            },
            Action::GotoDefinition => {
                return AppCommand::RequestGotoDefinition;
            },
            Action::FindReferences => {
                return AppCommand::RequestFindReferences;
            },
            Action::CodeAction => {
                return AppCommand::RequestCodeAction;
            },
            Action::HoverInfo => {
                return AppCommand::RequestHover;
            },
            Action::FormatDocument => {
                return AppCommand::RequestFormat;
            },
            Action::SignatureHelp => {
                return AppCommand::RequestSignatureHelp;
            },
            _ => {},
        }
        AppCommand::Nothing
    }

    // -- Cursor steps shared by plain and selecting moves --

    fn step_up(&mut self)
        requires
            old(self).within_limits(),
        ensures
            final(self).same_content(old(self)),
            final(self).cursor.position == old(self).pos_up(),
            final(self).cursor.desired_col == old(self).cursor.desired_col,
            final(self).cursor.selection == old(self).cursor.selection,
            final(self).scroll_offset == old(self).scroll_offset,
            final(self).horizontal_scroll == old(self).horizontal_scroll,
            final(self).within_limits(),
    {
        if self.cursor.position.line > 0 {
            self.cursor.position.line -= 1;
            proof {
                lemma_line_len_bound(self.text(), self.cursor.position.line as int);
            }
            self.clamp_cursor_col();
        }
    }

    fn step_down(&mut self)
        requires
            old(self).within_limits(),
        ensures
            final(self).same_content(old(self)),
            final(self).cursor.position == old(self).pos_down(),
            final(self).cursor.desired_col == old(self).cursor.desired_col,
            final(self).cursor.selection == old(self).cursor.selection,
            final(self).scroll_offset == old(self).scroll_offset,
            final(self).horizontal_scroll == old(self).horizontal_scroll,
            final(self).within_limits(),
    {
        proof {
            lemma_line_len_bound(self.text(), self.cursor.position.line as int + 1);
        }
        if self.cursor.position.line + 1 < self.document.line_count() {
            self.cursor.position.line += 1;
            self.clamp_cursor_col();
        }
    }

    fn step_left(&mut self)
        requires
            old(self).within_limits(),
        ensures
            final(self).same_content(old(self)),
            final(self).cursor.position == old(self).pos_left(),
            final(self).cursor.desired_col == old(self).desired_after(old(self).pos_left()),
            final(self).cursor.selection == old(self).cursor.selection,
            final(self).scroll_offset == old(self).scroll_offset,
            final(self).horizontal_scroll == old(self).horizontal_scroll,
            final(self).within_limits(),
    {
        if self.cursor.position.col > 0 {
            self.cursor.position.col -= 1;
            self.cursor.desired_col = self.cursor.position.col;
        } else if self.cursor.position.line > 0 {
            self.cursor.position.line -= 1;
            proof {
                lemma_line_len_bound(self.text(), self.cursor.position.line as int);
            }
            self.cursor.position.col = self.document.line_len(self.cursor.position.line);
            self.cursor.desired_col = self.cursor.position.col;
        }
    }

    fn step_right(&mut self)
        requires
            old(self).within_limits(),
        ensures
            final(self).same_content(old(self)),
            final(self).cursor.position == old(self).pos_right(),
            final(self).cursor.desired_col == old(self).desired_after(old(self).pos_right()),
            final(self).cursor.selection == old(self).cursor.selection,
            final(self).scroll_offset == old(self).scroll_offset,
            final(self).horizontal_scroll == old(self).horizontal_scroll,
            final(self).within_limits(),
    {
        proof {
            lemma_line_len_bound(self.text(), self.cursor.position.line as int);
            lemma_line_len_bound(self.text(), self.cursor.position.line as int + 1);
        }
        let line_len = self.document.line_len(self.cursor.position.line);
        if self.cursor.position.col < line_len {
            self.cursor.position.col += 1;
            self.cursor.desired_col = self.cursor.position.col;
        } else if self.cursor.position.line + 1 < self.document.line_count() {
            self.cursor.position.line += 1;
            self.cursor.position.col = 0;
            self.cursor.desired_col = 0;
        }
    }

    fn step_word_left(&mut self)
        requires
            old(self).within_limits(),
        ensures
            final(self).same_content(old(self)),
            final(self).cursor.position == old(self).pos_word_left(),
            final(self).cursor.desired_col == final(self).cursor.position.col,
            final(self).cursor.selection == old(self).cursor.selection,
            final(self).scroll_offset == old(self).scroll_offset,
            final(self).horizontal_scroll == old(self).horizontal_scroll,
            final(self).within_limits(),
    {
        let line = self.document.line(self.cursor.position.line);
        let col = self.cursor.position.col;
        proof {
            lemma_line_len_bound(self.text(), self.cursor.position.line as int);
        }
        if col == 0 {
            if self.cursor.position.line > 0 {
                self.cursor.position.line -= 1;
                proof {
                    lemma_line_len_bound(self.text(), self.cursor.position.line as int);
                }
                self.cursor.position.col = self.document.line_len(self.cursor.position.line);
            }
        } else {
            let chars = chars_of(line.as_str());
            let ghost l = chars@;
            let mut i = if col <= chars.len() { col } else { chars.len() };
            while i > 0 && is_whitespace(chars[i - 1])
                invariant
                    l == chars@,
                    0 <= i <= l.len(),
                    skip_ws_back(l, i as int) == skip_ws_back(l, if col <= l.len() { col as int } else { l.len() as int }),
                decreases i,
            {
                i -= 1;
            }
            let ghost mid = i as int;
            while i > 0 && !is_whitespace(chars[i - 1])
                invariant
                    l == chars@,
                    0 <= i <= l.len(),
                    skip_word_back(l, i as int) == skip_word_back(l, mid),
                decreases i,
            {
                i -= 1;
            }
            self.cursor.position.col = i;
        }
        self.cursor.desired_col = self.cursor.position.col;
    }

    fn step_word_right(&mut self)
        requires
            old(self).within_limits(),
        ensures
            final(self).same_content(old(self)),
            final(self).cursor.position == old(self).pos_word_right(),
            final(self).cursor.desired_col == final(self).cursor.position.col,
            final(self).cursor.selection == old(self).cursor.selection,
            final(self).scroll_offset == old(self).scroll_offset,
            final(self).horizontal_scroll == old(self).horizontal_scroll,
            final(self).within_limits(),
    {
        let line = self.document.line(self.cursor.position.line);
        let line_len = self.document.line_len(self.cursor.position.line);
        let col = self.cursor.position.col;
        proof {
            lemma_line_len_bound(self.text(), self.cursor.position.line as int);
            lemma_line_len_bound(self.text(), self.cursor.position.line as int + 1);
        }
        if col >= line_len {
            if self.cursor.position.line + 1 < self.document.line_count() {
                self.cursor.position.line += 1;
                self.cursor.position.col = 0;
            }
        } else {
            let chars = chars_of(line.as_str());
            let ghost l = chars@;
            let mut i = col;
            while i < chars.len() && !is_whitespace(chars[i])
                invariant
                    l == chars@,
                    col <= i <= l.len(),
                    skip_word_fwd(l, i as int) == skip_word_fwd(l, col as int),
                decreases l.len() - i,
            {
                i += 1;
            }
            let ghost mid = i as int;
            while i < chars.len() && is_whitespace(chars[i])
                invariant
                    l == chars@,
                    mid <= i <= l.len(),
                    skip_ws_fwd(l, i as int) == skip_ws_fwd(l, mid),
                decreases l.len() - i,
            {
                i += 1;
            }
            self.cursor.position.col = i;
        }
        self.cursor.desired_col = self.cursor.position.col;
    }

    fn begin_or_extend_selection(&mut self)
        ensures
            final(self).same_content(old(self)),
            final(self).cursor.position == old(self).cursor.position,
            final(self).cursor.desired_col == old(self).cursor.desired_col,
            final(self).cursor.selection == (match old(self).cursor.selection {
                Some(s) => Some(s),
                None => Some(Selection { anchor: old(self).cursor.position, head: old(self).cursor.position }),
            }),
            final(self).scroll_offset == old(self).scroll_offset,
            final(self).horizontal_scroll == old(self).horizontal_scroll,
    {
        if self.cursor.selection.is_none() {
            self.cursor.selection = Some(Selection::new(self.cursor.position, self.cursor.position));
        }
    }

    fn update_selection_head(&mut self)
        ensures
            final(self).same_content(old(self)),
            final(self).cursor.position == old(self).cursor.position,
            final(self).cursor.desired_col == old(self).cursor.desired_col,
            final(self).cursor.selection == (match old(self).cursor.selection {
                Some(s) => if s.anchor == old(self).cursor.position {
                    None
                } else {
                    Some(Selection { anchor: s.anchor, head: old(self).cursor.position })
                },
                None => None,
            }),
            final(self).scroll_offset == old(self).scroll_offset,
            final(self).horizontal_scroll == old(self).horizontal_scroll,
    {
        match self.cursor.selection {
            Some(sel) => {
                let new_sel = Selection::new(sel.anchor, self.cursor.position);
                if new_sel.is_empty() {
                    self.cursor.selection = None;
                } else {
                    self.cursor.selection = Some(new_sel);
                }
            },
            None => {},
        }
    }

    fn clamp_cursor_col(&mut self)
        ensures
            final(self).same_content(old(self)),
            final(self).cursor.position.line == old(self).cursor.position.line,
            final(self).cursor.position.col == if old(self).cursor.desired_col <= line_len(
                old(self).text(),
                old(self).cursor.position.line as int,
            ) {
                old(self).cursor.desired_col as int
            } else {
                line_len(old(self).text(), old(self).cursor.position.line as int)
            },
            final(self).cursor.desired_col == old(self).cursor.desired_col,
            final(self).cursor.selection == old(self).cursor.selection,
            final(self).scroll_offset == old(self).scroll_offset,
            final(self).horizontal_scroll == old(self).horizontal_scroll,
    {
        let line_len = self.document.line_len(self.cursor.position.line);
        self.cursor.position.col = if self.cursor.desired_col <= line_len {
            self.cursor.desired_col
        } else {
            line_len
        };
    }
}

/// The index of position `p` in the document's text, or `None` where the
/// start of its line plus its column passes `usize::MAX`.
fn index_of(d: &Document, p: Position) -> (r: Option<usize>)
    requires
        p.line <= line_count(d.text_view()),
    ensures
        match r {
            Some(i) => i == pos_index(d.text_view(), p),
            None => pos_index(d.text_view(), p) > usize::MAX,
        },
{
    let ls = rope_line_to_char(&d.rope, p.line);
    proof {
        if p.line < line_count(d.text_view()) {
            lemma_line_start_unique(d.text_view(), p.line as int, ls as int);
        }
    }
    ls.checked_add(p.col)
}

/// Whether `p` is a valid position of the document's text.
fn doc_position_fits(d: &Document, p: Position) -> (r: bool)
    ensures
        r == pos_ok(d.text_view(), p),
{
    let len = rope_len_chars(&d.rope);
    if p.line > d.line_count() {
        return false;
    }
    match index_of(d, p) {
        Some(i) => i <= len,
        None => false,
    }
}

/// Whether edit `e` can be applied to the document's text (see [`edit_ok`]).
fn edit_fits(d: &Document, e: &Edit) -> (r: bool)
    ensures
        r == edit_ok(d.text_view(), e.deep_view()),
{
    let ghost t = d.text_view();
    let (pos, text, insert) = match e {
        Edit::Insert { pos, text } => (*pos, text, true),
        Edit::Delete { pos, text } => (*pos, text, false),
    };
    let p = Position::new(pos.0, pos.1);
    let n = chars_of(text.as_str()).len();
    if p.line >= usize::MAX - n || p.col >= usize::MAX - n {
        return false;
    }
    let count = d.line_count();
    let len = rope_len_chars(&d.rope);
    if p.line > count {
        return false;
    }
    let ip = match index_of(d, p) {
        Some(i) => i,
        None => {
            return false;
        },
    };
    if insert {
        return ip <= len;
    }
    let q = end_position(p, text.as_str());
    if q.line > count {
        return false;
    }
    match index_of(d, q) {
        Some(iq) => !(ip < iq) || iq <= len,
        None => false,
    }
}

/// No character of `s` is a line break.
pub open spec fn no_breaks(s: Seq<char>) -> bool {
    forall|k: int| 0 <= k < s.len() ==> !is_break_char(#[trigger] s[k])
}

/// The line and column reached from `(line, col)` by walking over `s`: a
/// `\n` moves to the start of the next line, any other character one
/// column on.
pub open spec fn walk(line: int, col: int, s: Seq<char>) -> (int, int)
    decreases s.len(),
{
    if s.len() == 0 {
        (line, col)
    } else {
        let q = walk(line, col, s.drop_last());
        if s.last() == '\n' { (q.0 + 1, 0) } else { (q.0, q.1 + 1) }
    }
}

/// The position just after `s` when it is placed at `p`.
pub open spec fn end_of(p: Position, s: Seq<char>) -> Position {
    let w = walk(p.line as int, p.col as int, s);
    Position { line: w.0 as usize, col: w.1 as usize }
}

/// Walking over `s` moves at most `s.len()` lines and columns on.
pub proof fn lemma_walk_bound(line: int, col: int, s: Seq<char>)
    ensures
        line <= walk(line, col, s).0 <= line + s.len(),
        0 <= col ==> 0 <= walk(line, col, s).1 <= col + s.len(),
    decreases s.len(),
{
    if s.len() > 0 {
        lemma_walk_bound(line, col, s.drop_last());
    }
}

/// The position of an edit.
pub open spec fn edit_pos(e: EditView) -> Position {
    match e {
        EditView::Insert { pos, .. } => Position { line: pos.0, col: pos.1 },
        EditView::Delete { pos, .. } => Position { line: pos.0, col: pos.1 },
    }
}

/// The text of an edit.
pub open spec fn edit_text(e: EditView) -> Seq<char> {
    match e {
        EditView::Insert { text, .. } => text,
        EditView::Delete { text, .. } => text,
    }
}

/// An edit can be applied to `t` without leaving the text or the machine's
/// integers: an insertion at a valid position, a deletion whose ends lie on
/// existing lines and within the text.
pub open spec fn edit_ok(t: Seq<char>, e: EditView) -> bool {
    let p = edit_pos(e);
    let q = end_of(p, edit_text(e));
    &&& p.line + edit_text(e).len() < usize::MAX
    &&& p.col + edit_text(e).len() < usize::MAX
    &&& match e {
        EditView::Insert { .. } => pos_ok(t, p),
        EditView::Delete { .. } => {
            &&& p.line <= line_count(t)
            &&& q.line <= line_count(t)
            &&& line_start(t, p.line as int) + p.col <= usize::MAX
            &&& line_start(t, q.line as int) + q.col <= usize::MAX
            &&& pos_index(t, p) < pos_index(t, q) ==> pos_index(t, q) <= t.len()
        },
    }
}

/// The text after applying an edit: an insertion puts its text at its
/// position, a deletion removes what lies between its position and the end
/// of its text.
pub open spec fn apply_text(t: Seq<char>, e: EditView) -> Seq<char> {
    let p = edit_pos(e);
    match e {
        EditView::Insert { text, .. } => inserted(t, pos_index(t, p), text),
        EditView::Delete { text, .. } => removed(t, pos_index(t, p), pos_index(t, end_of(p, text))),
    }
}

/// Where the cursor goes after an edit: after the inserted text, or to the
/// start of the deletion.
pub open spec fn apply_cursor(e: EditView) -> Position {
    match e {
        EditView::Insert { pos, text } => end_of(edit_pos(e), text),
        EditView::Delete { .. } => edit_pos(e),
    }
}

/// Whether applying the edit marks the document modified: an insertion
/// always does, a deletion when it removes something.
pub open spec fn apply_modifies(t: Seq<char>, e: EditView) -> bool {
    match e {
        EditView::Insert { .. } => true,
        EditView::Delete { text, .. } => pos_index(t, edit_pos(e)) < pos_index(t, end_of(edit_pos(e), text)),
    }
}

/// The text after applying the edits in order.
pub open spec fn apply_all(t: Seq<char>, es: Seq<EditView>) -> Seq<char>
    decreases es.len(),
{
    if es.len() == 0 { t } else { apply_text(apply_all(t, es.drop_last()), es.last()) }
}

/// Every edit can be applied to the text the ones before it leave.
pub open spec fn all_ok(t: Seq<char>, es: Seq<EditView>) -> bool
    decreases es.len(),
{
    es.len() == 0 || (all_ok(t, es.drop_last()) && edit_ok(apply_all(t, es.drop_last()), es.last()))
}

/// Whether applying the edits in order marks the document modified.
pub open spec fn all_modify(t: Seq<char>, es: Seq<EditView>) -> bool
    decreases es.len(),
{
    es.len() > 0 && (all_modify(t, es.drop_last()) || apply_modifies(apply_all(t, es.drop_last()), es.last()))
}

proof fn lemma_all_ok_prefix(t: Seq<char>, es: Seq<EditView>, n: int)
    requires
        all_ok(t, es),
        0 <= n <= es.len(),
    ensures
        all_ok(t, es.take(n)),
    decreases es.len() - n,
{
    if n < es.len() {
        lemma_all_ok_prefix(t, es, n + 1);
        assert(es.take(n + 1).drop_last() =~= es.take(n));
    } else {
        assert(es.take(n) =~= es);
    }
}

/// Line breaks agree below `k` when the characters agree up to `k`.
proof fn lemma_ends_agree(t: Seq<char>, u: Seq<char>, k: int)
    requires
        0 <= k < t.len(),
        k < u.len(),
        forall|m: int| 0 <= m <= k ==> t[m] == u[m],
    ensures
        forall|m: int| 0 <= m < k ==> ends_line(t, m) == ends_line(u, m),
{
    assert forall|m: int| 0 <= m < k implies ends_line(t, m) == ends_line(u, m) by {
        assert(t[m] == u[m] && t[m + 1] == u[m + 1]);
    }
}

/// Texts whose line breaks agree below `k` count the same breaks and have
/// the same line starts up to `k`.
pub(crate) proof fn lemma_agree_breaks(t: Seq<char>, u: Seq<char>, k: int)
    requires
        0 <= k <= t.len(),
        k <= u.len(),
        forall|m: int| 0 <= m < k ==> ends_line(t, m) == ends_line(u, m),
    ensures
        forall|j: int| 0 <= j <= k ==> #[trigger] breaks_before(t, j) == breaks_before(u, j),
        forall|j: int| 0 <= j <= k ==> #[trigger] is_line_start(t, j) == is_line_start(u, j),
    decreases k,
{
    if k > 0 {
        lemma_agree_breaks(t, u, k - 1);
        assert(breaks_before(t, k - 1) == breaks_before(u, k - 1));
        assert(ends_line(t, k - 1) == ends_line(u, k - 1));
        assert(breaks_before(t, k) == breaks_before(u, k));
    }
}

/// Removing a range that starts at a valid position `s` leaves `s` valid.
pub proof fn lemma_removal_keeps_start(t: Seq<char>, s: Position, e: Position)
    requires
        pos_ok(t, s),
        pos_ok(t, e),
        pos_index(t, s) <= pos_index(t, e),
    ensures
        pos_ok(removed(t, pos_index(t, s), pos_index(t, e)), s),
{
    let i = pos_index(t, s);
    let j = pos_index(t, e);
    let u = removed(t, i, j);
    if i < j {
        let n = s.line as int;
        assert(n < line_count(t));
        lemma_line_start_exists(t, n);
        let ls = line_start(t, n);
        assert(u.len() == t.len() - (j - i));
        assert forall|m: int| 0 <= m < i implies #[trigger] u[m] == t[m] by {}
        if ls < i {
            lemma_ends_agree(t, u, ls);
            lemma_agree_breaks(t, u, ls);
            assert(breaks_before(t, ls) == breaks_before(u, ls));
            assert(is_line_start(t, ls) == is_line_start(u, ls));
            lemma_line_start_unique(u, n, ls);
            assert(pos_index(u, s) == i);
        } else if n > 0 {
            assert(ls > 0);
            assert(breaks_before(t, ls - 1) == n - 1);
            if ls - 1 > 0 {
                lemma_ends_agree(t, u, ls - 1);
            }
            lemma_agree_breaks(t, u, ls - 1);
            assert(breaks_before(t, ls - 1) == breaks_before(u, ls - 1));
            lemma_breaks_monotonic(u, ls - 1, u.len() as int);
            assert(n <= line_count(u));
            if n < line_count(u) {
                lemma_line_start_exists(u, n);
            }
        } else {
            lemma_line_start_exists(u, 0);
        }
    }
}

/// A valid position's line and column are bounded by the text's length.
proof fn lemma_pos_ok_bounds(t: Seq<char>, p: Position)
    requires
        pos_ok(t, p),
    ensures
        0 <= line_start(t, p.line as int),
        p.col <= t.len(),
        p.line <= t.len() + 1,
{
    lemma_line_len_bound(t, 0);
    if p.line < line_count(t) {
        lemma_line_start_exists(t, p.line as int);
    }
}

/// The position just after `s` placed at `p`.
fn end_position(p: Position, s: &str) -> (q: Position)
    requires
        p.line + s@.len() <= usize::MAX,
        p.col + s@.len() <= usize::MAX,
    ensures
        q == end_of(p, s@),
{
    let chars = chars_of(s);
    let mut line = p.line;
    let mut col = p.col;
    let mut i: usize = 0;
    while i < chars.len()
        invariant
            chars@ == s@,
            i <= chars.len(),
            (line as int, col as int) == walk(p.line as int, p.col as int, s@.take(i as int)),
            line <= p.line + i,
            col <= p.col + i,
            p.line + s@.len() <= usize::MAX,
            p.col + s@.len() <= usize::MAX,
        decreases chars.len() - i,
    {
        assert(s@.take(i + 1).drop_last() =~= s@.take(i as int));
        if chars[i] == '\n' {
            line += 1;
            col = 0;
        } else {
            col += 1;
        }
        i += 1;
    }
    assert(s@.take(i as int) =~= s@);
    Position::new(line, col)
}

/// Line breaks agree below `k` when the characters before `k` agree and
/// the last of them is not a carriage return.
pub(crate) proof fn lemma_ends_agree_at(t: Seq<char>, u: Seq<char>, k: int)
    requires
        0 <= k <= t.len(),
        k <= u.len(),
        forall|m: int| 0 <= m < k ==> t[m] == u[m],
        k == 0 || t[k - 1] != '\r',
    ensures
        forall|m: int| 0 <= m < k ==> ends_line(t, m) == ends_line(u, m),
{
    assert forall|m: int| 0 <= m < k implies ends_line(t, m) == ends_line(u, m) by {
        assert(t[m] == u[m]);
        if m + 1 < k {
            assert(t[m + 1] == u[m + 1]);
        }
    }
}

/// The only line break in the text is `'\n'`.
pub open spec fn lf_only(t: Seq<char>) -> bool {
    forall|k: int| 0 <= k < t.len() && is_break_char(#[trigger] t[k]) ==> t[k] == '\n'
}

/// Position `p` lies on its line of `t`: its index is in the text and no
/// line break comes between the line's start and it.
pub open spec fn on_line(t: Seq<char>, p: Position) -> bool {
    &&& pos_ok(t, p)
    &&& p.line < line_count(t)
    &&& breaks_before(t, pos_index(t, p)) == p.line
}

/// A text that agrees with `t` before the index of `p` has `p` at the same
/// index, on its line.
pub(crate) proof fn lemma_prefix_keeps_position(t: Seq<char>, u: Seq<char>, p: Position)
    requires
        on_line(t, p),
        lf_only(t),
        pos_index(t, p) <= u.len(),
        forall|m: int| 0 <= m < pos_index(t, p) ==> t[m] == u[m],
    ensures
        pos_index(u, p) == pos_index(t, p),
        p.line < line_count(u),
        breaks_before(u, pos_index(t, p)) == p.line,
{
    let i = pos_index(t, p);
    let n = p.line as int;
    lemma_line_start_exists(t, n);
    let ls = line_start(t, n);
    if i > 0 {
        if t[i - 1] == '\r' {
            assert(is_break_char(t[i - 1]));
        }
    }
    lemma_ends_agree_at(t, u, i);
    lemma_agree_breaks(t, u, i);
    assert(breaks_before(t, ls) == breaks_before(u, ls));
    assert(is_line_start(t, ls) == is_line_start(u, ls));
    lemma_line_start_unique(u, n, ls);
}

/// Inserting one character at a position on its line: the position after
/// it (the next line's start after a `'\n'`, the next column otherwise)
/// lies on its line, one index on.
proof fn lemma_insert_step(t: Seq<char>, p: Position, c: char)
    requires
        on_line(t, p),
        lf_only(t),
        is_break_char(c) ==> c == '\n',
        p.line + 1 < usize::MAX,
        p.col + 1 < usize::MAX,
    ensures
        ({
            let i = pos_index(t, p);
            let t2 = inserted(t, i, seq![c]);
            let q = if c == '\n' {
                Position { line: (p.line + 1) as usize, col: 0 }
            } else {
                Position { line: p.line, col: (p.col + 1) as usize }
            };
            &&& pos_index(t2, q) == i + 1
            &&& on_line(t2, q)
            &&& lf_only(t2)
        }),
{
    let i = pos_index(t, p);
    let t2 = inserted(t, i, seq![c]);
    lemma_line_start_exists(t, p.line as int);
    assert(t2.len() == t.len() + 1);
    assert forall|m: int| 0 <= m < i implies t[m] == #[trigger] t2[m] by {}
    assert(t2[i] == c);
    lemma_prefix_keeps_position(t, t2, p);
    assert forall|k: int| 0 <= k < t2.len() && is_break_char(#[trigger] t2[k]) implies t2[k] == '\n' by {
        if k < i {
            assert(t2[k] == t[k]);
        } else if k > i {
            assert(t2[k] == t[k - 1]);
        }
    }
    let n = p.line as int;
    if c == '\n' {
        assert(ends_line(t2, i));
        assert(breaks_before(t2, i + 1) == n + 1);
        lemma_line_start_unique(t2, n + 1, i + 1);
    } else {
        assert(!ends_line(t2, i));
        assert(breaks_before(t2, i + 1) == n);
        lemma_breaks_monotonic(t2, i + 1, t2.len() as int);
    }
}

/// Inserting `s` at a position on its line: the position reached by
/// walking over `s` from it lies on its line, at the index just after the
/// inserted text; the position itself keeps its index.
pub proof fn lemma_insert_end_position(t: Seq<char>, p: Position, s: Seq<char>)
    requires
        on_line(t, p),
        lf_only(t),
        lf_only(s),
        p.line + s.len() + 1 < usize::MAX,
        p.col + s.len() + 1 < usize::MAX,
    ensures
        ({
            let i = pos_index(t, p);
            let t2 = inserted(t, i, s);
            &&& pos_index(t2, end_of(p, s)) == i + s.len()
            &&& pos_index(t2, p) == i
            &&& on_line(t2, end_of(p, s))
            &&& lf_only(t2)
        }),
    decreases s.len(),
{
    let i = pos_index(t, p);
    lemma_line_start_exists(t, p.line as int);
    if s.len() == 0 {
        assert(inserted(t, i, s) =~= t);
        assert(end_of(p, s) == p);
    } else {
        let s1 = s.drop_last();
        let c = s.last();
        assert forall|k: int| 0 <= k < s1.len() && is_break_char(#[trigger] s1[k]) implies s1[k] == '\n' by {
            assert(s1[k] == s[k]);
        }
        lemma_insert_end_position(t, p, s1);
        let t1 = inserted(t, i, s1);
        let q1 = end_of(p, s1);
        lemma_walk_bound(p.line as int, p.col as int, s1);
        assert(is_break_char(c) ==> c == '\n');
        lemma_insert_step(t1, q1, c);
        assert(inserted(t1, i + s1.len(), seq![c]) =~= inserted(t, i, s));
        lemma_walk_bound(p.line as int, p.col as int, s);
        let t2 = inserted(t, i, s);
        assert forall|m: int| 0 <= m < i implies t[m] == #[trigger] t2[m] by {}
        lemma_prefix_keeps_position(t, t2, p);
    }
}

/// `delete_range` undoes `insert_text`: in a text whose only line break is
/// `'\n'`, after inserting `s` (with no other break either) at a position
/// on its line, deleting from that position to the one reached by walking
/// over `s` gives the text back.
pub proof fn lemma_delete_after_insert(t: Seq<char>, p: Position, s: Seq<char>)
    requires
        on_line(t, p),
        lf_only(t),
        lf_only(s),
        p.line + s.len() + 1 < usize::MAX,
        p.col + s.len() + 1 < usize::MAX,
    ensures
        ({
            let t2 = inserted(t, pos_index(t, p), s);
            removed(t2, pos_index(t2, p), pos_index(t2, end_of(p, s))) == t
        }),
{
    lemma_insert_end_position(t, p, s);
    lemma_delete_undoes_insert(t, p, s, p, end_of(p, s));
}

/// Typing a character and undoing it gives the text back, and redoing it
/// types it again: the deletion that undoes the insertion can be applied
/// and removes exactly the typed character. This holds where the cursor
/// lies on its own line (no line break between the line's start and the
/// cursor) and does not follow a carriage return.
pub proof fn lemma_type_then_undo(t: Seq<char>, p: Position, ch: char)
    requires
        pos_ok(t, p),
        p.line < line_count(t),
        breaks_before(t, pos_index(t, p)) == p.line,
        pos_index(t, p) == 0 || t[pos_index(t, p) - 1] != '\r',
        p.line + 1 < usize::MAX,
        p.col + 1 < usize::MAX,
        t.len() < usize::MAX,
    ensures
        ({
            let typed = EditView::Insert { pos: (p.line, p.col), text: seq![ch] };
            let t2 = inserted(t, pos_index(t, p), seq![ch]);
            &&& all_ok(t, seq![typed])
            &&& apply_all(t, seq![typed]) == t2
            &&& all_ok(t2, undo_edits(seq![typed]))
            &&& apply_all(t2, undo_edits(seq![typed])) == t
        }),
{
    let typed = EditView::Insert { pos: (p.line, p.col), text: seq![ch] };
    let i = pos_index(t, p);
    let t2 = inserted(t, i, seq![ch]);
    let n = p.line as int;
    lemma_line_start_exists(t, n);
    let ls = line_start(t, n);
    assert(t2.len() == t.len() + 1);
    assert forall|m: int| 0 <= m < i implies t[m] == #[trigger] t2[m] by {}
    assert(t2[i] == ch);
    lemma_ends_agree_at(t, t2, i);
    lemma_agree_breaks(t, t2, i);
    assert(breaks_before(t, ls) == breaks_before(t2, ls));
    assert(is_line_start(t, ls) == is_line_start(t2, ls));
    lemma_line_start_unique(t2, n, ls);
    assert(pos_index(t2, p) == i);
    let d = invert_view(typed);
    assert(undo_edits(seq![typed]) =~= seq![d]);
    assert(seq![d].drop_last() =~= Seq::<EditView>::empty());
    assert(seq![typed].drop_last() =~= Seq::<EditView>::empty());
    let q = end_of(p, seq![ch]);
    assert(seq![ch].drop_last() =~= Seq::<char>::empty());
    assert(walk(p.line as int, p.col as int, Seq::<char>::empty()) == (p.line as int, p.col as int));
    assert(walk(p.line as int, p.col as int, seq![ch].drop_last()) == (p.line as int, p.col as int));
    if ch == '\n' {
        assert(q == Position { line: (p.line + 1) as usize, col: 0 });
        assert(breaks_before(t2, i) == breaks_before(t, i));
        assert(ends_line(t2, i));
        assert(breaks_before(t2, i + 1) == n + 1);
        lemma_line_start_unique(t2, n + 1, i + 1);
        assert(pos_index(t2, q) == i + 1);
    } else {
        assert(q == Position { line: p.line, col: (p.col + 1) as usize });
        assert(pos_index(t2, q) == i + 1);
    }
    assert(edit_ok(t2, d));
    assert(apply_text(t2, d) =~= t);
    assert(apply_all(t2, Seq::<EditView>::empty()) == t2);
    assert(seq![d].last() == d);
    assert(all_ok(t2, seq![d].drop_last()));
    assert(apply_all(t2, seq![d]) == apply_text(apply_all(t2, seq![d].drop_last()), d));
    assert(all_ok(t2, seq![d]));
    assert(apply_all(t, Seq::<EditView>::empty()) == t);
    assert(seq![typed].last() == typed);
    assert(all_ok(t, seq![typed].drop_last()));
    assert(edit_ok(t, typed));
    assert(all_ok(t, seq![typed]));
    assert(apply_all(t, seq![typed]) == apply_text(apply_all(t, seq![typed].drop_last()), typed));
    assert(apply_all(t, seq![typed]) == t2);
}

/// Typing a character into a buffer without a selection, outside an edit
/// group, can be undone: the undo's edits apply and give the text from
/// before the typing back; a redo after it applies and types the character
/// again. This holds where the cursor lies on its own line and does not
/// follow a carriage return.
pub proof fn lemma_insert_char_undo_redo(before: Buffer, after: Buffer, ch: char)
    requires
        before.within_limits(),
        before.text().len() + 2 < usize::MAX,
        before.cursor.selection is None,
        before.history.view().group is None,
        pos_ok(before.text(), before.cursor.position),
        before.cursor.position.line < line_count(before.text()),
        breaks_before(before.text(), pos_index(before.text(), before.cursor.position)) == before.cursor.position.line,
        pos_index(before.text(), before.cursor.position) == 0 || before.text()[pos_index(
            before.text(),
            before.cursor.position,
        ) - 1] != '\r',
        after.inserted_from(
            &before,
            seq![ch],
            Position { line: before.cursor.position.line, col: (before.cursor.position.col + 1) as usize },
        ),
    ensures
        after.group_ok(spec_undo(after.history.view()).1),
        spec_undo(after.history.view()).1 matches Some(es) && apply_all(after.text(), es) == before.text(),
        spec_redo(spec_undo(after.history.view()).0).1 matches Some(es) && all_ok(before.text(), es)
            && apply_all(before.text(), es) == after.text(),
{
    let p = before.cursor.position;
    let typed = EditView::Insert { pos: (p.line, p.col), text: seq![ch] };
    let h = before.history.view();
    lemma_record_then_undo(h, typed);
    lemma_pos_ok_bounds(before.text(), p);
    lemma_line_len_bound(before.text(), 0);
    lemma_type_then_undo(before.text(), p, ch);
    lemma_undo_then_redo(spec_record(h, typed));
    lemma_undo_edits_involution(seq![typed]);
}

/// `s` without the copies of `c` at its end.
pub open spec fn trim_end_char(s: Seq<char>, c: char) -> Seq<char>
    decreases s.len(),
{
    if s.len() > 0 && s.last() == c { trim_end_char(s.drop_last(), c) } else { s }
}

/// The non-overlapping occurrences of `q` in `s` found scanning from
/// `from`: each search resumes after the previous match.
pub open spec fn occurrences(s: Seq<char>, q: Seq<char>, from: int) -> Seq<int>
    decreases s.len() - from,
{
    if q.len() == 0 || from < 0 || from + q.len() > s.len() {
        Seq::empty()
    } else if occurs_at(s, q, from) {
        seq![from].add(occurrences(s, q, from + q.len()))
    } else {
        occurrences(s, q, from + 1)
    }
}

/// The text line `n` is searched in: without its line break, lowercased.
pub open spec fn search_line(t: Seq<char>, n: int) -> Seq<char> {
    lowercase(trim_end_char(trim_end_char(line_or_empty(t, n), '\n'), '\r'))
}

/// A column on line `line` as a (line, column) pair.
pub open spec fn at_line(line: usize) -> spec_fn(int) -> (usize, usize) {
    |c: int| (line, c as usize)
}

/// The matches of `q` on line `n`, as (line, column) pairs.
pub open spec fn line_matches(t: Seq<char>, q: Seq<char>, n: int) -> Seq<(usize, usize)> {
    occurrences(search_line(t, n), q, 0).map_values(at_line(n as usize))
}

/// The matches of `q` on the lines before `n`, in order.
pub open spec fn matches_before(t: Seq<char>, q: Seq<char>, n: int) -> Seq<(usize, usize)>
    decreases n,
{
    if n <= 0 { Seq::empty() } else { matches_before(t, q, n - 1) + line_matches(t, q, n - 1) }
}

/// All matches of the lowercased query `q` in the text, line by line.
pub open spec fn search_matches(t: Seq<char>, q: Seq<char>) -> Seq<(usize, usize)> {
    if q.len() == 0 { Seq::empty() } else { matches_before(t, q, line_count(t) as int) }
}

proof fn lemma_occurrences_skip(s: Seq<char>, q: Seq<char>, from: int, i: int)
    requires
        q.len() > 0,
        0 <= from <= i,
        forall|j: int| from <= j < i ==> !occurs_at(s, q, j),
    ensures
        occurrences(s, q, from) == occurrences(s, q, i),
    decreases i - from,
{
    if from < i {
        assert(!occurs_at(s, q, from));
        lemma_occurrences_skip(s, q, from + 1, i);
    }
}

proof fn lemma_occurrences_none(s: Seq<char>, q: Seq<char>, from: int)
    requires
        q.len() > 0,
        0 <= from,
        forall|j: int| from <= j ==> !occurs_at(s, q, j),
    ensures
        occurrences(s, q, from) == Seq::<int>::empty(),
    decreases s.len() - from,
{
    if from + q.len() <= s.len() {
        assert(!occurs_at(s, q, from));
        lemma_occurrences_none(s, q, from + 1);
    }
}

/// `s` without the copies of `c` at its end, as the length of what stays.
pub(crate) fn trimmed_len(s: &Vec<char>, len: usize, c: char) -> (r: usize)
    requires
        len <= s.len(),
    ensures
        r <= len,
        s@.take(r as int) == trim_end_char(s@.take(len as int), c),
{
    let mut end = len;
    while end > 0 && s[end - 1] == c
        invariant
            end <= len <= s.len(),
            trim_end_char(s@.take(end as int), c) == trim_end_char(s@.take(len as int), c),
        decreases end,
    {
        assert(s@.take(end as int).drop_last() =~= s@.take(end - 1));
        end -= 1;
    }
    end
}

/// Append the matches of `q` in `s` on line `line`.
fn push_line_matches(out: &mut Vec<(usize, usize)>, line: usize, s: &Vec<char>, q: &Vec<char>)
    requires
        q.len() > 0,
    ensures
        final(out)@ == old(out)@ + occurrences(s@, q@, 0).map_values(at_line(line)),
        forall|k: int| #![auto] old(out).len() <= k < final(out).len() ==> final(out)@[k].0 == line
            && final(out)@[k].1 < usize::MAX,
{
    let mut from: usize = 0;
    while from <= s.len()
        invariant
            q.len() > 0,
            from <= s.len() + 1,
            out@ + occurrences(s@, q@, from as int).map_values(at_line(line)) == old(out)@ + occurrences(s@, q@, 0).map_values(at_line(line)),
            forall|k: int| #![auto] old(out).len() <= k < out.len() ==> out@[k].0 == line && out@[k].1 < usize::MAX,
        decreases s.len() + 1 - from,
    {
        match find_from(s.as_slice(), q.as_slice(), from) {
            Some(i) => {
                proof {
                    lemma_occurrences_skip(s@, q@, from as int, i as int);
                    let rest = occurrences(s@, q@, i + q.len());
                    assert(occurrences(s@, q@, i as int) == seq![i as int].add(rest));
                    assert(at_line(line)(i as int) == (line, i));
                    assert(seq![i as int].add(rest).map_values(at_line(line)) =~= seq![(line, i)] + rest.map_values(at_line(line)));
                    assert(out@.push((line, i)) + rest.map_values(at_line(line)) =~= out@ + (seq![(line, i)] + rest.map_values(at_line(line))));
                }
                out.push((line, i));
                from = i + q.len();
            },
            None => {
                proof {
                    lemma_occurrences_none(s@, q@, from as int);
                    assert(Seq::<int>::empty().map_values(at_line(line)) =~= Seq::<(usize, usize)>::empty());
                    assert(out@ + Seq::<(usize, usize)>::empty() =~= out@);
                }
                return;
            },
        }
    }
    proof {
        assert(occurrences(s@, q@, from as int) == Seq::<int>::empty());
        assert(Seq::<int>::empty().map_values(at_line(line)) =~= Seq::<(usize, usize)>::empty());
        assert(out@ + Seq::<(usize, usize)>::empty() =~= out@);
    }
}

/// The shift of columns on line `l` after the first `k` replacements: each
/// earlier match on that line moved the rest of the line by `delta`.
pub open spec fn offset_before(ms: Seq<(usize, usize)>, k: int, l: usize, delta: int) -> int
    decreases k,
{
    if k <= 0 {
        0
    } else {
        offset_before(ms, k - 1, l, delta) + if ms[k - 1].0 == l { delta } else { 0 }
    }
}

/// The column where the `k`-th match is replaced: its column shifted by the
/// earlier replacements on its line, at least zero.
pub open spec fn replace_col(ms: Seq<(usize, usize)>, k: int, delta: int) -> int {
    let c = ms[k].1 + offset_before(ms, k, ms[k].0, delta);
    if c < 0 { 0 } else { c }
}

/// The text after replacing `qlen` characters at (`l`, `c`) with `rep`.
pub open spec fn replace_at(t: Seq<char>, l: usize, c: int, qlen: int, rep: Seq<char>) -> Seq<char> {
    let s = Position { line: l, col: c as usize };
    let e = Position { line: l, col: (c + qlen) as usize };
    let u = removed(t, pos_index(t, s), pos_index(t, e));
    inserted(u, pos_index(u, s), rep)
}

/// The replacement at (`l`, `c`) stays within the text.
pub open spec fn replace_at_ok(t: Seq<char>, l: usize, c: int, qlen: int) -> bool {
    &&& 0 <= c
    &&& c + qlen <= usize::MAX
    &&& pos_ok(t, Position { line: l, col: c as usize })
    &&& pos_ok(t, Position { line: l, col: (c + qlen) as usize })
}

/// The text after the first `n` replacements of a replace-all.
pub open spec fn replaced(t: Seq<char>, ms: Seq<(usize, usize)>, qlen: int, rep: Seq<char>, n: int) -> Seq<char>
    decreases n,
{
    if n <= 0 {
        t
    } else {
        replace_at(
            replaced(t, ms, qlen, rep, n - 1),
            ms[n - 1].0,
            replace_col(ms, n - 1, rep.len() - qlen),
            qlen,
            rep,
        )
    }
}

/// Each of the first `n` replacements stays within the text it applies to.
pub open spec fn replaced_ok(t: Seq<char>, ms: Seq<(usize, usize)>, qlen: int, rep: Seq<char>, n: int) -> bool
    decreases n,
{
    n <= 0 || (replaced_ok(t, ms, qlen, rep, n - 1) && replace_at_ok(
        replaced(t, ms, qlen, rep, n - 1),
        ms[n - 1].0,
        replace_col(ms, n - 1, rep.len() - qlen),
        qlen,
    ))
}

proof fn lemma_replaced_ok_prefix(t: Seq<char>, ms: Seq<(usize, usize)>, qlen: int, rep: Seq<char>, n: int, k: int)
    requires
        replaced_ok(t, ms, qlen, rep, n),
        0 <= k <= n,
    ensures
        replaced_ok(t, ms, qlen, rep, k),
    decreases n - k,
{
    if k < n {
        lemma_replaced_ok_prefix(t, ms, qlen, rep, n - 1, k);
    }
}

proof fn lemma_offset_bound(ms: Seq<(usize, usize)>, k: int, l: usize, delta: int, b: int)
    requires
        0 <= k,
        -b <= delta <= b,
    ensures
        -(k * b) <= offset_before(ms, k, l, delta) <= k * b,
    decreases k,
{
    if k > 0 {
        lemma_offset_bound(ms, k - 1, l, delta, b);
        assert((k - 1) * b + b == k * b) by (nonlinear_arith);
    }
}

/// The start of the run of identifier characters that ends at `i`.
pub open spec fn word_start(l: Seq<char>, i: int) -> int
    decreases i,
{
    if i > 0 && i <= l.len() && word_char(l[i - 1]) { word_start(l, i - 1) } else { i }
}

/// The end of the run of identifier characters that starts at `i`.
pub open spec fn word_end(l: Seq<char>, i: int) -> int
    decreases l.len() - i,
{
    if 0 <= i < l.len() && word_char(l[i]) { word_end(l, i + 1) } else { i }
}

/// The first match after (`l`, `c`) in document order, looking from index
/// `k` on; the first match of all when none comes after.
pub open spec fn find_after(ms: Seq<(usize, usize)>, l: usize, c: int, k: int) -> int
    decreases ms.len() - k,
{
    if k < 0 || k >= ms.len() {
        0
    } else if ms[k].0 > l || (ms[k].0 == l && ms[k].1 >= c) {
        k
    } else {
        find_after(ms, l, c, k + 1)
    }
}

proof fn lemma_skip_ws_back(l: Seq<char>, i: int)
    requires
        0 <= i <= l.len(),
    ensures
        0 <= skip_ws_back(l, i) <= i,
        forall|j: int| skip_ws_back(l, i) <= j < i ==> whitespace(#[trigger] l[j]),
        skip_ws_back(l, i) == 0 || !whitespace(l[skip_ws_back(l, i) - 1]),
    decreases i,
{
    if i > 0 && whitespace(l[i - 1]) {
        lemma_skip_ws_back(l, i - 1);
    }
}

proof fn lemma_skip_word_back(l: Seq<char>, i: int)
    requires
        0 <= i <= l.len(),
    ensures
        0 <= skip_word_back(l, i) <= i,
        forall|j: int| skip_word_back(l, i) <= j < i ==> !whitespace(#[trigger] l[j]),
        skip_word_back(l, i) == 0 || whitespace(l[skip_word_back(l, i) - 1]),
    decreases i,
{
    if i > 0 && !whitespace(l[i - 1]) {
        lemma_skip_word_back(l, i - 1);
    }
}

/// A word step left from column `c > 0` of line `l` lands at the start of
/// one word: at a column `k < c` at the line's start or after whitespace,
/// where a word character begins (unless `k` is the line's start), and
/// from which to `c` come only word characters and then only whitespace.
pub open spec fn one_word_back(l: Seq<char>, c: int, k: int) -> bool {
    &&& 0 <= k < c
    &&& k == 0 || whitespace(l[k - 1])
    &&& k > 0 ==> !whitespace(l[k])
    &&& forall|a: int, b: int| k <= a < b < c ==> (whitespace(#[trigger] l[a]) ==> whitespace(#[trigger] l[b]))
}

/// Moving a word left inside a line (Ctrl+Left) goes back over the
/// whitespace before the cursor and then over one word, to that word's
/// start (see [`one_word_back`]); the cursor stays on its line. A cursor
/// past the line's end counts from the line's end.
pub proof fn lemma_word_left_one_word(old: Buffer, new: Buffer)
    requires
        new.handled(&old, Action::CursorWordLeft),
        !old.goto_line.active,
        old.cursor.position.col > 0,
        line_or_empty(old.text(), old.cursor.position.line as int).len() > 0,
    ensures
        new.cursor.position.line == old.cursor.position.line,
        ({
            let l = line_or_empty(old.text(), old.cursor.position.line as int);
            let c = if old.cursor.position.col <= l.len() { old.cursor.position.col as int } else { l.len() as int };
            one_word_back(l, c, new.cursor.position.col as int)
        }),
{
    let l = line_or_empty(old.text(), old.cursor.position.line as int);
    let c = if old.cursor.position.col <= l.len() { old.cursor.position.col as int } else { l.len() as int };
    let m = skip_ws_back(l, c);
    lemma_skip_ws_back(l, c);
    lemma_skip_word_back(l, m);
    let k = skip_word_back(l, m);
    if m == c {
        assert(!whitespace(l[c - 1]));
        assert(k < m);
    }
    if k > 0 {
        assert(k < m);
    }
    assert(new.cursor.position.col as int == k);
    assert forall|a: int, b: int| k <= a < b < c implies (whitespace(#[trigger] l[a]) ==> whitespace(#[trigger] l[b])) by {
        if whitespace(l[a]) {
            assert(a >= m);
        }
    }
}

proof fn lemma_skip_word_fwd(l: Seq<char>, i: int)
    requires
        0 <= i <= l.len(),
    ensures
        i <= skip_word_fwd(l, i) <= l.len(),
        forall|j: int| i <= j < skip_word_fwd(l, i) ==> !whitespace(#[trigger] l[j]),
        skip_word_fwd(l, i) == l.len() || whitespace(l[skip_word_fwd(l, i)]),
    decreases l.len() - i,
{
    if i < l.len() && !whitespace(l[i]) {
        lemma_skip_word_fwd(l, i + 1);
    }
}

proof fn lemma_skip_ws_fwd(l: Seq<char>, i: int)
    requires
        0 <= i <= l.len(),
    ensures
        i <= skip_ws_fwd(l, i) <= l.len(),
        forall|j: int| i <= j < skip_ws_fwd(l, i) ==> whitespace(#[trigger] l[j]),
        skip_ws_fwd(l, i) == l.len() || !whitespace(l[skip_ws_fwd(l, i)]),
    decreases l.len() - i,
{
    if i < l.len() && whitespace(l[i]) {
        lemma_skip_ws_fwd(l, i + 1);
    }
}

/// A word step right from column `c` of line `l` lands at column `k`: past
/// `c`, with only word characters and then only whitespace from `c` to
/// `k`, and at the start of the next word (after whitespace) or at the
/// line's end.
pub open spec fn one_word_forward(l: Seq<char>, c: int, k: int) -> bool {
    &&& c < k <= l.len()
    &&& k == l.len() || (whitespace(l[k - 1]) && !whitespace(l[k]))
    &&& forall|a: int, b: int| c <= a < b < k ==> (whitespace(#[trigger] l[a]) ==> whitespace(#[trigger] l[b]))
}

/// Moving a word right inside a line's content (Ctrl+Right) goes over the
/// rest of the word under the cursor and the whitespace after it, to the
/// next word's start (see [`one_word_forward`]); the cursor stays on its
/// line.
pub proof fn lemma_word_right_one_word(old: Buffer, new: Buffer)
    requires
        new.handled(&old, Action::CursorWordRight),
        !old.goto_line.active,
        old.within_limits(),
        old.cursor.position.col < line_len(old.text(), old.cursor.position.line as int),
    ensures
        new.cursor.position.line == old.cursor.position.line,
        one_word_forward(
            line_or_empty(old.text(), old.cursor.position.line as int),
            old.cursor.position.col as int,
            new.cursor.position.col as int,
        ),
{
    let l = line_or_empty(old.text(), old.cursor.position.line as int);
    let c = old.cursor.position.col as int;
    lemma_line_len_bound(old.text(), old.cursor.position.line as int);
    lemma_skip_word_fwd(l, c);
    let m = skip_word_fwd(l, c);
    lemma_skip_ws_fwd(l, m);
    let k = skip_ws_fwd(l, m);
    if k < l.len() {
        assert(k > m);
    }
    assert(new.cursor.position.col as int == k);
    assert forall|a: int, b: int| c <= a < b < k implies (whitespace(#[trigger] l[a]) ==> whitespace(#[trigger] l[b])) by {
        if whitespace(l[a]) {
            assert(a >= m);
        }
    }
}

proof fn lemma_word_bounds(l: Seq<char>, i: int)
    requires
        0 <= i < l.len(),
        word_char(l[i]),
    ensures
        0 <= word_start(l, i) <= i < word_end(l, i) <= l.len(),
        forall|j: int| word_start(l, i) <= j < word_end(l, i) ==> word_char(#[trigger] l[j]),
        word_start(l, i) == 0 || !word_char(l[word_start(l, i) - 1]),
        word_end(l, i) == l.len() || !word_char(l[word_end(l, i)]),
{
    lemma_word_start_back(l, i);
    lemma_word_end_fwd(l, i);
}

proof fn lemma_word_start_back(l: Seq<char>, i: int)
    requires
        0 <= i <= l.len(),
    ensures
        0 <= word_start(l, i) <= i,
        forall|j: int| word_start(l, i) <= j < i ==> word_char(#[trigger] l[j]),
        word_start(l, i) == 0 || !word_char(l[word_start(l, i) - 1]),
    decreases i,
{
    if i > 0 && word_char(l[i - 1]) {
        lemma_word_start_back(l, i - 1);
    }
}

proof fn lemma_word_end_fwd(l: Seq<char>, i: int)
    requires
        0 <= i <= l.len(),
    ensures
        i <= word_end(l, i) <= l.len(),
        forall|j: int| i <= j < word_end(l, i) ==> word_char(#[trigger] l[j]),
        word_end(l, i) == l.len() || !word_char(l[word_end(l, i)]),
    decreases l.len() - i,
{
    if i < l.len() && word_char(l[i]) {
        lemma_word_end_fwd(l, i + 1);
    }
}

/// Without a selection, the text whose occurrences are selected is the
/// whole identifier under the cursor (the cursor's column, or the line's
/// last character when the cursor is past it): a run of identifier
/// characters that covers that column and cannot be extended either way.
/// When no identifier is there, the text is empty.
pub proof fn lemma_occurrence_query_is_word(b: Buffer)
    requires
        b.cursor.selection is None,
    ensures
        ({
            let l = line_or_empty(b.text(), b.cursor.position.line as int);
            let q = b.occurrence_query();
            let col = if b.cursor.position.col <= l.len() - 1 { b.cursor.position.col as int } else { l.len() - 1 };
            if l.len() > 0 && word_char(l[col]) {
                exists|s: int, e: int|
                    0 <= s <= col < e <= l.len() && q == l.subrange(s, e) && (forall|j: int|
                        s <= j < e ==> word_char(#[trigger] l[j])) && (s == 0 || !word_char(l[s - 1])) && (e
                        == l.len() || !word_char(l[e]))
            } else {
                q.len() == 0
            }
        }),
{
    let l = line_or_empty(b.text(), b.cursor.position.line as int);
    if l.len() > 0 {
        let col = if b.cursor.position.col <= l.len() - 1 { b.cursor.position.col as int } else { l.len() - 1 };
        if word_char(l[col]) {
            lemma_word_bounds(l, col);
            let s = word_start(l, col);
            let e = word_end(l, col);
            assert(b.occurrence_query() == l.subrange(s, e));
        }
    }
}

/// Match `m` lies at or after line `l`, column `c`, in document order.
pub open spec fn at_or_after(m: (usize, usize), l: usize, c: int) -> bool {
    (m.0, m.1 as int) == (l, c) || m.0 > l || (m.0 == l && m.1 > c)
}

proof fn lemma_find_after_from(ms: Seq<(usize, usize)>, l: usize, c: int, k: int)
    requires
        0 <= k <= ms.len(),
    ensures
        (exists|j: int| k <= j < ms.len() && at_or_after(#[trigger] ms[j], l, c)) ==> {
            let f = find_after(ms, l, c, k);
            &&& k <= f < ms.len()
            &&& at_or_after(ms[f], l, c)
            &&& forall|j: int| k <= j < f ==> !at_or_after(#[trigger] ms[j], l, c)
        },
        !(exists|j: int| k <= j < ms.len() && at_or_after(#[trigger] ms[j], l, c)) ==> find_after(ms, l, c, k) == 0,
    decreases ms.len() - k,
{
    if k < ms.len() {
        lemma_find_after_from(ms, l, c, k + 1);
        if !at_or_after(ms[k], l, c) {
            if exists|j: int| k <= j < ms.len() && at_or_after(#[trigger] ms[j], l, c) {
                let j = choose|j: int| k <= j < ms.len() && at_or_after(#[trigger] ms[j], l, c);
                assert(k + 1 <= j);
            }
        }
    }
}

/// The next occurrence is the first match at or after the place just past
/// the cursor's word, in document order, and the first match of all when
/// none follows: no match before it in the list lies at or after that place.
pub proof fn lemma_find_after_first(ms: Seq<(usize, usize)>, l: usize, c: int)
    requires
        ms.len() > 0,
    ensures
        0 <= find_after(ms, l, c, 0) < ms.len(),
        (exists|j: int| 0 <= j < ms.len() && at_or_after(#[trigger] ms[j], l, c)) ==> {
            &&& at_or_after(ms[find_after(ms, l, c, 0)], l, c)
            &&& forall|j: int| 0 <= j < find_after(ms, l, c, 0) ==> !at_or_after(#[trigger] ms[j], l, c)
        },
        !(exists|j: int| 0 <= j < ms.len() && at_or_after(#[trigger] ms[j], l, c)) ==> find_after(ms, l, c, 0) == 0,
{
    lemma_find_after_from(ms, l, c, 0);
}

/// Selecting the next occurrence selects the first match, in document
/// order, at or after the end of the cursor's word (the cursor's column
/// plus the query's length) on the cursor's line or later, and wraps to the
/// first match when none follows; the selection covers the query there.
pub proof fn lemma_next_occurrence_is_next(old: Buffer, new: Buffer)
    requires
        new.handled(&old, Action::SelectNextOccurrence),
        !old.goto_line.active,
        old.occurrence_query().len() > 0,
        search_matches(old.text(), lowercase(old.occurrence_query())).len() > 0,
    ensures
        ({
            let q = old.occurrence_query();
            let ms = search_matches(old.text(), lowercase(q));
            let l = old.cursor.position.line;
            let c = old.cursor.position.col + q.len();
            exists|k: int|
                0 <= k < ms.len() && new.cursor.position == Position { line: ms[k].0, col: ms[k].1 }
                    && new.cursor.selection == Some(Selection {
                    anchor: Position { line: ms[k].0, col: ms[k].1 },
                    head: Position { line: ms[k].0, col: (ms[k].1 + q.len()) as usize },
                }) && ((exists|j: int| 0 <= j < ms.len() && at_or_after(#[trigger] ms[j], l, c)) ==> (at_or_after(
                    ms[k],
                    l,
                    c,
                ) && forall|j: int| 0 <= j < k ==> !at_or_after(#[trigger] ms[j], l, c))) && (!(exists|j: int|
                    0 <= j < ms.len() && at_or_after(#[trigger] ms[j], l, c)) ==> k == 0)
        }),
{
    let q = old.occurrence_query();
    let ms = search_matches(old.text(), lowercase(q));
    let l = old.cursor.position.line;
    let c = old.cursor.position.col + q.len();
    lemma_find_after_first(ms, l, c);
    let k = find_after(ms, l, c, 0);
    assert(new.cursor.position == Position { line: ms[k].0, col: ms[k].1 });
}

proof fn lemma_find_after_bound(ms: Seq<(usize, usize)>, l: usize, c: int, k: int)
    requires
        ms.len() > 0,
        0 <= k,
    ensures
        0 <= find_after(ms, l, c, k) < ms.len(),
    decreases ms.len() - k,
{
    if k < ms.len() {
        lemma_find_after_bound(ms, l, c, k + 1);
    }
}

/// Ten to the power `k`.
pub open spec fn pow10(k: nat) -> nat
    decreases k,
{
    if k == 0 { 1 } else { 10 * pow10((k - 1) as nat) }
}

proof fn lemma_digits_le(n: nat, k: nat)
    requires
        1 <= k,
        n < pow10(k),
    ensures
        num_digits(n) <= k,
    decreases k,
{
    if n >= 10 {
        assert(k >= 2) by {
            reveal_with_fuel(pow10, 2);
        }
        assert(n / 10 < pow10((k - 1) as nat));
        lemma_digits_le(n / 10, (k - 1) as nat);
    }
}

proof fn lemma_digits_of_usize(n: usize)
    ensures
        1 <= num_digits(n as nat) <= 20,
{
    assert(pow10(20) == 100000000000000000000nat) by {
        reveal_with_fuel(pow10, 21);
    }
    assert(n < 100000000000000000000nat);
    lemma_digits_le(n as nat, 20);
}

} // verus!
