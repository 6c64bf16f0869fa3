//! The text document: a rope with its file path, language and modification state.
use vstd::prelude::*;
use ropey::Rope;
use crate::editor::cursor::Position;
use crate::editor::language::{detect_language_id, language_for_extension, lowered_extension};
use crate::editor::rope::{
    breaks_before, ends_line, is_line_start, lemma_breaks_bound, lemma_breaks_monotonic, lemma_line_start_unique, line_count,
    line_start, line_text, rope_from_str, rope_insert, rope_insert_char, rope_len_chars, rope_len_lines, rope_line_string,
    rope_line_to_char, rope_remove, rope_text, rope_to_string,
};
use crate::text::chars_of;

verus! {

/// The index in the text of a position: the start of its line plus its column.
pub open spec fn pos_index(t: Seq<char>, p: Position) -> int {
    line_start(t, p.line as int) + p.col
}

/// A position whose line exists (or is one past the last) and whose index
/// lies within the text, so that the rope accepts it.
pub open spec fn pos_ok(t: Seq<char>, p: Position) -> bool {
    p.line <= line_count(t) && pos_index(t, p) <= t.len()
}

/// The length of a line without its trailing `\n` or `\r\n`.
pub open spec fn content_len(l: Seq<char>) -> int {
    if l.len() > 0 && l.last() == '\n' {
        if l.len() > 1 && l[l.len() - 2] == '\r' { l.len() - 2 } else { l.len() - 1 }
    } else {
        l.len() as int
    }
}

/// The length of line `n` without its line ending; 0 past the last line.
pub open spec fn line_len(t: Seq<char>, n: int) -> int {
    if 0 <= n < line_count(t) { content_len(line_text(t, n)) } else { 0 }
}

/// The line `n` of the text with its break, or the empty text past the last line.
pub open spec fn line_or_empty(t: Seq<char>, n: int) -> Seq<char> {
    if 0 <= n < line_count(t) { line_text(t, n) } else { Seq::empty() }
}

/// The character at a position: within the line, break included.
pub open spec fn char_at_spec(t: Seq<char>, p: Position) -> Option<char> {
    let l = line_or_empty(t, p.line as int);
    if p.col < l.len() { Some(l[p.col as int]) } else { None }
}

/// `s` with `ins` inserted at index `i`.
pub open spec fn inserted(s: Seq<char>, i: int, ins: Seq<char>) -> Seq<char> {
    s.take(i) + ins + s.skip(i)
}

/// `s` without the characters `[i, j)`; unchanged when the range is empty.
pub open spec fn removed(s: Seq<char>, i: int, j: int) -> Seq<char> {
    if i < j { s.take(i) + s.skip(j) } else { s }
}

/// Deleting the range an insertion filled gives back the text: after
/// `insert_text(p, s)`, a `delete_range(a, b)` whose ends `a` and `b` lie,
/// in the new text, where the inserted text starts and ends restores the
/// text from before the insertion.
pub proof fn lemma_delete_undoes_insert(t: Seq<char>, p: Position, s: Seq<char>, a: Position, b: Position)
    requires
        pos_ok(t, p),
        pos_index(inserted(t, pos_index(t, p), s), a) == pos_index(t, p),
        pos_index(inserted(t, pos_index(t, p), s), b) == pos_index(t, p) + s.len(),
    ensures
        ({
            let t2 = inserted(t, pos_index(t, p), s);
            removed(t2, pos_index(t2, a), pos_index(t2, b)) == t
        }),
{
    let i = pos_index(t, p);
    let t2 = inserted(t, i, s);
    if p.line < line_count(t) {
        lemma_line_start_exists(t, p.line as int);
    }
    assert(0 <= i <= t.len());
    if s.len() > 0 {
        assert(t2.take(i) + t2.skip(i + s.len()) =~= t);
    } else {
        assert(t2 =~= t);
    }
}

/// A text document backed by a Rope data structure for efficient editing.
#[derive(Debug)]
pub struct Document {
    pub rope: Rope,
    pub file_path: Option<String>,
    pub modified: bool,
    pub language_id: String,
    pub version: i32,
}

/// The starts of consecutive lines are ordered and lie within the text.
pub proof fn lemma_line_bounds(t: Seq<char>, n: int)
    requires
        0 <= n < line_count(t),
    ensures
        0 <= line_start(t, n) <= line_start(t, n + 1) <= t.len(),
{
    let k = choose|k: int| 0 <= k <= t.len() && is_line_start(t, k) && breaks_before(t, k) == n;
    lemma_line_start_exists(t, n);
    if n + 1 < line_count(t) {
        lemma_line_start_exists(t, n + 1);
        let k1 = line_start(t, n);
        let k2 = line_start(t, n + 1);
        if k2 < k1 {
            lemma_breaks_monotonic(t, k2, k1);
        }
    }
}

/// A line is no longer than the text, and its length without the break no
/// longer than the line; there are at most one more lines than characters.
pub proof fn lemma_line_len_bound(t: Seq<char>, n: int)
    ensures
        0 <= line_len(t, n) <= line_or_empty(t, n).len() <= t.len(),
        line_count(t) <= t.len() + 1,
{
    lemma_breaks_bound(t, t.len() as int);
    if 0 <= n < line_count(t) {
        lemma_line_bounds(t, n);
    }
}

/// Every line below the count has a start.
pub proof fn lemma_line_start_exists(t: Seq<char>, n: int)
    requires
        0 <= n < line_count(t),
    ensures
        0 <= line_start(t, n) <= t.len(),
        is_line_start(t, line_start(t, n)),
        breaks_before(t, line_start(t, n)) == n,
    decreases n,
{
    if n == 0 {
        assert(is_line_start(t, 0) && breaks_before(t, 0) == 0);
    } else {
        lemma_line_start_exists(t, n - 1);
        let k = line_start(t, n - 1);
        let k2 = first_break_from(t, k);
        lemma_first_break_from(t, k);
        assert(breaks_before(t, k2 + 1) == n);
        assert(is_line_start(t, k2 + 1));
    }
}

/// The index of the first break that ends at or after `k`, if the text has
/// more breaks after `k`.
spec fn first_break_from(t: Seq<char>, k: int) -> int
    decreases t.len() - k,
{
    if k >= t.len() || k < 0 {
        k
    } else if ends_line(t, k) {
        k
    } else {
        first_break_from(t, k + 1)
    }
}

proof fn lemma_first_break_from(t: Seq<char>, k: int)
    requires
        0 <= k <= t.len(),
        breaks_before(t, k) < breaks_before(t, t.len() as int),
    ensures
        k <= first_break_from(t, k) < t.len(),
        ends_line(t, first_break_from(t, k)),
        breaks_before(t, first_break_from(t, k)) == breaks_before(t, k),
    decreases t.len() - k,
{
    if k == t.len() {
    } else if ends_line(t, k) {
    } else {
        assert(breaks_before(t, k + 1) == breaks_before(t, k));
        lemma_first_break_from(t, k + 1);
    }
}

impl Document {
    /// The characters of the document.
    pub open spec fn text_view(&self) -> Seq<char> {
        rope_text(&self.rope)
    }

    /// Create a document from an in-memory string with no associated file path.
    pub fn from_text(text: &str) -> (d: Self)
        ensures
            d.text_view() == text@,
            d.file_path is None,
            !d.modified,
            d.language_id@ == "plaintext"@,
            d.version == 0,
    {
        Document {
            rope: rope_from_str(text),
            file_path: None,
            modified: false,
            language_id: "plaintext".to_owned(),
            version: 0,
        }
    }

    /// A document holding the text read from `path`; the language is
    /// detected from the file extension.
    pub fn with_path(path: &str, text: &str) -> (d: Self)
        ensures
            d.text_view() == text@,
            d.file_path matches Some(p) && p@ == path@,
            !d.modified,
            d.language_id@ == language_for_extension(lowered_extension(path@)),
            d.version == 0,
    {
        Document {
            rope: rope_from_str(text),
            file_path: Some(path.to_owned()),
            modified: false,
            language_id: detect_language_id(path),
            version: 0,
        }
    }

    /// Record that the text was written to the document's file.
    pub fn mark_saved(&mut self)
        requires
            old(self).version < i32::MAX,
        ensures
            !final(self).modified,
            final(self).version == old(self).version + 1,
            final(self).rope == old(self).rope,
            final(self).file_path == old(self).file_path,
            final(self).language_id == old(self).language_id,
    {
        self.modified = false;
        self.version += 1;
    }

    /// Record that the text was written to `path`, which becomes the
    /// document's file; the language is detected anew.
    pub fn mark_saved_as(&mut self, path: &str)
        requires
            old(self).version < i32::MAX,
        ensures
            !final(self).modified,
            final(self).version == old(self).version + 1,
            final(self).rope == old(self).rope,
            final(self).file_path matches Some(p) && p@ == path@,
            final(self).language_id@ == language_for_extension(lowered_extension(path@)),
    {
        self.language_id = detect_language_id(path);
        self.file_path = Some(path.to_owned());
        self.modified = false;
        self.version += 1;
    }

    /// Convert a `Position` to a rope char index.
    pub fn pos_to_char_idx(&self, pos: Position) -> (i: usize)
        requires
            pos.line <= line_count(self.text_view()),
            line_start(self.text_view(), pos.line as int) + pos.col <= usize::MAX,
        ensures
            i == pos_index(self.text_view(), pos),
    {
        let line_start_idx = rope_line_to_char(&self.rope, pos.line);
        proof {
            if pos.line < line_count(self.text_view()) {
                lemma_line_start_unique(self.text_view(), pos.line as int, line_start_idx as int);
            }
        }
        line_start_idx + pos.col
    }

    /// Insert a single character at `pos`.
    pub fn insert_char(&mut self, pos: Position, ch: char)
        requires
            pos_ok(old(self).text_view(), pos),
        ensures
            final(self).text_view() == inserted(old(self).text_view(), pos_index(old(self).text_view(), pos), seq![ch]),
            final(self).modified,
            final(self).file_path == old(self).file_path,
            final(self).language_id == old(self).language_id,
            final(self).version == old(self).version,
    {
        let _len = rope_len_chars(&self.rope);
        let idx = self.pos_to_char_idx(pos);
        rope_insert_char(&mut self.rope, idx, ch);
        assert(self.text_view() =~= inserted(old(self).text_view(), idx as int, seq![ch]));
        self.modified = true;
    }

    /// Insert a string at `pos`.
    pub fn insert_text(&mut self, pos: Position, text: &str)
        requires
            pos_ok(old(self).text_view(), pos),
        ensures
            final(self).text_view() == inserted(old(self).text_view(), pos_index(old(self).text_view(), pos), text@),
            final(self).modified,
            final(self).file_path == old(self).file_path,
            final(self).language_id == old(self).language_id,
            final(self).version == old(self).version,
    {
        let _len = rope_len_chars(&self.rope);
        let idx = self.pos_to_char_idx(pos);
        rope_insert(&mut self.rope, idx, text);
        self.modified = true;
    }

    /// Delete the text between `start` (inclusive) and `end` (exclusive);
    /// nothing happens when `end` is not after `start`.
    pub fn delete_range(&mut self, start: Position, end: Position)
        requires
            start.line <= line_count(old(self).text_view()),
            end.line <= line_count(old(self).text_view()),
            line_start(old(self).text_view(), start.line as int) + start.col <= usize::MAX,
            pos_index(old(self).text_view(), start) < pos_index(old(self).text_view(), end) ==> pos_index(
                old(self).text_view(),
                end,
            ) <= old(self).text_view().len(),
            line_start(old(self).text_view(), end.line as int) + end.col <= usize::MAX,
        ensures
            final(self).text_view() == removed(
                old(self).text_view(),
                pos_index(old(self).text_view(), start),
                pos_index(old(self).text_view(), end),
            ),
            final(self).modified == (old(self).modified || pos_index(old(self).text_view(), start)
                < pos_index(old(self).text_view(), end)),
            final(self).file_path == old(self).file_path,
            final(self).language_id == old(self).language_id,
            final(self).version == old(self).version,
    {
        let start_idx = self.pos_to_char_idx(start);
        let end_idx = self.pos_to_char_idx(end);
        if start_idx < end_idx {
            rope_remove(&mut self.rope, start_idx, end_idx);
            self.modified = true;
        }
    }

    /// Returns the content of line `n` (0-indexed) with its line break, or
    /// an empty string if `n` is out of bounds.
    pub fn line(&self, n: usize) -> (r: String)
        ensures
            r@ == line_or_empty(self.text_view(), n as int),
    {
        if n >= rope_len_lines(&self.rope) {
            return String::new();
        }
        rope_line_string(&self.rope, n)
    }

    /// Total number of lines in the document.
    pub fn line_count(&self) -> (r: usize)
        ensures
            r == line_count(self.text_view()),
    {
        rope_len_lines(&self.rope)
    }

    /// Length of line `n` in characters, excluding the trailing newline;
    /// 0 if `n` is out of bounds.
    pub fn line_len(&self, n: usize) -> (r: usize)
        ensures
            r == line_len(self.text_view(), n as int),
    {
        if n >= rope_len_lines(&self.rope) {
            return 0;
        }
        let line = chars_of(rope_line_string(&self.rope, n).as_str());
        let len = line.len();
        if len > 0 {
            let last = line[len - 1];
            if last == '\n' {
                if len > 1 && line[len - 2] == '\r' {
                    len - 2
                } else {
                    len - 1
                }
            } else {
                len
            }
        } else {
            0
        }
    }

    /// Returns the character at the given position, or `None` if out of bounds.
    pub fn char_at(&self, pos: Position) -> (r: Option<char>)
        ensures
            r == char_at_spec(self.text_view(), pos),
    {
        if pos.line >= rope_len_lines(&self.rope) {
            return None;
        }
        let line = chars_of(rope_line_string(&self.rope, pos.line).as_str());
        if pos.col >= line.len() {
            return None;
        }
        Some(line[pos.col])
    }

    /// Returns the full document text as a `String`.
    pub fn text(&self) -> (r: String)
        ensures
            r@ == self.text_view(),
    {
        rope_to_string(&self.rope)
    }

    /// Returns a reference to the underlying `Rope`.
    pub fn rope(&self) -> (r: &Rope)
        ensures
            r == &self.rope,
    {
        &self.rope
    }
}

} // verus!
