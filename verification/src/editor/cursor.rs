//! Cursor positions, selections and the cursor state of an editor buffer.
use vstd::prelude::*;

verus! {

/// A 0-indexed position in a text document.
#[derive(Debug, Clone, Copy, PartialEq, Eq, Structural, Hash, PartialOrd, Ord)]
pub struct Position {
    pub line: usize,
    pub col: usize,
}

/// Document order on positions: by line, then by column.
pub open spec fn pos_le(a: Position, b: Position) -> bool {
    a.line < b.line || (a.line == b.line && a.col <= b.col)
}

/// Strict document order on positions.
pub open spec fn pos_lt(a: Position, b: Position) -> bool {
    a.line < b.line || (a.line == b.line && a.col < b.col)
}

/// `a <= b` in document order, computed on the fields.
pub fn position_le(a: Position, b: Position) -> (r: bool)
    ensures
        r == pos_le(a, b),
{
    a.line < b.line || (a.line == b.line && a.col <= b.col)
}

/// `a < b` in document order, computed on the fields.
pub fn position_lt(a: Position, b: Position) -> (r: bool)
    ensures
        r == pos_lt(a, b),
{
    a.line < b.line || (a.line == b.line && a.col < b.col)
}

impl Position {
    pub fn new(line: usize, col: usize) -> (p: Self)
        ensures
            p.line == line,
            p.col == col,
    {
        Position { line, col }
    }

    pub fn zero() -> (p: Self)
        ensures
            p.line == 0,
            p.col == 0,
    {
        Position { line: 0, col: 0 }
    }
}

/// A selection in the document.
///
/// `anchor` is where the selection started, `head` is where the cursor currently is.
#[derive(Debug, Clone, Copy, PartialEq, Eq, Structural)]
pub struct Selection {
    pub anchor: Position,
    pub head: Position,
}

impl Selection {
    /// The start of the selection in document order.
    pub open spec fn start(self) -> Position {
        if pos_le(self.anchor, self.head) { self.anchor } else { self.head }
    }

    /// The end of the selection in document order.
    pub open spec fn end(self) -> Position {
        if pos_le(self.anchor, self.head) { self.head } else { self.anchor }
    }

    pub fn new(anchor: Position, head: Position) -> (s: Self)
        ensures
            s.anchor == anchor,
            s.head == head,
    {
        Selection { anchor, head }
    }

    /// Returns `true` if the selection is empty (anchor == head).
    pub fn is_empty(&self) -> (r: bool)
        ensures
            r == (self.anchor == self.head),
    {
        self.anchor == self.head
    }

    /// Returns `(start, end)` in document order regardless of anchor/head direction.
    pub fn ordered(&self) -> (r: (Position, Position))
        ensures
            r.0 == self.start(),
            r.1 == self.end(),
            pos_le(r.0, r.1),
    {
        if position_le(self.anchor, self.head) {
            (self.anchor, self.head)
        } else {
            (self.head, self.anchor)
        }
    }

    /// Returns `true` if the given position is inside the selection (inclusive of start,
    /// exclusive of end).
    pub fn contains(&self, pos: Position) -> (r: bool)
        ensures
            r == (pos_le(self.start(), pos) && pos_lt(pos, self.end())),
    {
        let (start, end) = self.ordered();
        position_le(start, pos) && position_lt(pos, end)
    }
}

/// Full cursor state including position, optional selection, and the desired column
/// for vertical movement.
///
/// `desired_col` preserves the column when moving vertically through lines that are
/// shorter than the column the user started on.
#[derive(Debug, Clone, PartialEq, Eq, Structural)]
pub struct CursorState {
    pub position: Position,
    pub selection: Option<Selection>,
    pub desired_col: usize,
}

impl CursorState {
    /// The selection is present and not empty.
    pub open spec fn selecting(self) -> bool {
        match self.selection {
            Some(s) => s.anchor != s.head,
            None => false,
        }
    }

    pub fn new() -> (c: Self)
        ensures
            c.position == Position::zero_spec(),
            c.selection is None,
            c.desired_col == 0,
    {
        CursorState { position: Position::zero(), selection: None, desired_col: 0 }
    }

    /// Create a cursor state at the given position with no selection.
    pub fn at(line: usize, col: usize) -> (c: Self)
        ensures
            c.position == (Position { line, col }),
            c.selection is None,
            c.desired_col == col,
    {
        CursorState { position: Position::new(line, col), selection: None, desired_col: col }
    }

    /// Move the cursor to a new position, clearing any selection and updating
    /// `desired_col`.
    pub fn move_to(&mut self, line: usize, col: usize)
        ensures
            final(self).position == (Position { line, col }),
            final(self).selection is None,
            final(self).desired_col == col,
    {
        self.position = Position::new(line, col);
        self.selection = None;
        self.desired_col = col;
    }

    /// Move the cursor vertically, clamping the column to the given line length but
    /// preserving `desired_col`.
    pub fn move_vertically(&mut self, line: usize, line_len: usize)
        ensures
            final(self).position == (Position {
                line,
                col: if old(self).desired_col <= line_len { old(self).desired_col } else { line_len },
            }),
            final(self).selection is None,
            final(self).desired_col == old(self).desired_col,
    {
        let col = if self.desired_col <= line_len { self.desired_col } else { line_len };
        self.position = Position::new(line, col);
        self.selection = None;
    }

    /// Start or extend a selection to the given position.
    pub fn select_to(&mut self, line: usize, col: usize)
        ensures
            final(self).position == (Position { line, col }),
            final(self).selection == Some(Selection {
                anchor: match old(self).selection {
                    Some(s) => s.anchor,
                    None => old(self).position,
                },
                head: Position { line, col },
            }),
            final(self).desired_col == col,
    {
        let anchor = match &self.selection {
            Some(sel) => sel.anchor,
            None => self.position,
        };
        self.position = Position::new(line, col);
        self.selection = Some(Selection::new(anchor, self.position));
        self.desired_col = col;
    }

    /// Clear the current selection without moving the cursor.
    pub fn clear_selection(&mut self)
        ensures
            final(self).position == old(self).position,
            final(self).selection is None,
            final(self).desired_col == old(self).desired_col,
    {
        self.selection = None;
    }

    /// Returns `true` if there is a non-empty selection.
    pub fn has_selection(&self) -> (r: bool)
        ensures
            r == self.selecting(),
    {
        match &self.selection {
            Some(s) => !s.is_empty(),
            None => false,
        }
    }
}

impl Position {
    pub open spec fn zero_spec() -> Position {
        Position { line: 0, col: 0 }
    }
}

impl Default for CursorState {
    fn default() -> (c: Self)
        ensures
            c.position == Position::zero_spec(),
            c.selection is None,
            c.desired_col == 0,
    {
        Self::new()
    }
}

} // verus!
