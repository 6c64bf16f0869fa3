//! The table viewer/editor for CSV files: cursor, scrolling, column widths
//! and cell editing.
use vstd::prelude::*;
use crate::input::actions::Action;
use crate::path::{file_name_of, path_file_name};
use crate::text::{chars_of, string_from_range, string_pop, string_push, string_remove_first, utf8_len};
use crate::ui::AppCommand;

verus! {

/// The characters of each cell of a record.
pub open spec fn record_view(r: Seq<String>) -> Seq<Seq<char>> {
    r.map_values(|c: String| c@)
}

/// The characters of each cell of each record.
pub open spec fn rows_view(rows: Seq<Vec<String>>) -> Seq<Seq<Seq<char>>> {
    rows.map_values(|r: Vec<String>| record_view(r@))
}

/// What the csv crate's default reader (a header record first, commas,
/// double quotes, records of equal length) reads from `bytes`: the header
/// and the records, each as its fields' text; `None` when it reports an
/// error (malformed quoting, unequal records, text that is not UTF-8).
pub uninterp spec fn csv_records(bytes: Seq<u8>) -> Option<(Seq<Seq<char>>, Seq<Seq<Seq<char>>>)>;

/// `csv::Reader::from_reader` with the default configuration over `bytes`,
/// then `headers` and `records`: the fields of the header and of every
/// record, or `None` on the first error.
#[verifier::external_body]
fn csv_parse(bytes: &[u8]) -> (r: Option<(Vec<String>, Vec<Vec<String>>)>)
    ensures
        match r {
            Some((h, rows)) => csv_records(bytes@) == Some((record_view(h@), rows_view(rows@))),
            None => csv_records(bytes@) is None,
        },
{
    let mut rdr = csv::Reader::from_reader(bytes);
    let headers: Vec<String> = rdr.headers().ok()?.iter().map(String::from).collect();
    let rows = rdr.records().map(|rec| rec.map(|r| r.iter().map(String::from).collect())).collect::<Result<
        Vec<Vec<String>>,
        csv::Error,
    >>().ok()?;
    Some((headers, rows))
}

/// An interactive table viewer/editor for CSV files.
pub struct CsvView {
    pub path: String,
    pub headers: Vec<String>,
    pub rows: Vec<Vec<String>>,
    pub cursor_row: usize,
    pub cursor_col: usize,
    pub scroll_row: usize,
    pub scroll_col: usize,
    pub viewport_height: usize,
    pub viewport_width: usize,
    pub editing: bool,
    pub edit_buffer: String,
    /// Original cell value kept for Undo while editing.
    pub edit_original: String,
    pub modified: bool,
}

/// The byte length of a cell.
pub open spec fn cell_len(s: String) -> int {
    utf8_len(s@) as usize as int
}

/// The longest byte length of column `i` over the rows that have it.
pub open spec fn column_data_max(rows: Seq<Vec<String>>, i: int) -> int
    decreases rows.len(),
{
    if rows.len() == 0 {
        0
    } else {
        let rest = column_data_max(rows.drop_last(), i);
        let last = rows.last();
        if 0 <= i < last@.len() && cell_len(last@[i]) > rest {
            cell_len(last@[i])
        } else {
            rest
        }
    }
}

/// The display width of column `i`: the widest of header and data plus
/// two, at most 25 and at least 4.
pub open spec fn column_width(headers: Seq<String>, rows: Seq<Vec<String>>, i: int) -> u16 {
    let m = if cell_len(headers[i]) > column_data_max(rows, i) {
        cell_len(headers[i])
    } else {
        column_data_max(rows, i)
    };
    let w = m + 2;
    (if w > 25 { 25 } else if w < 4 { 4 } else { w }) as u16
}

/// How many of the widths, taken in order, fit in `budget`; at least one.
pub open spec fn fitting(ws: Seq<u16>, budget: int) -> nat
    decreases ws.len(),
{
    if ws.len() == 0 || ws[0] > budget {
        0
    } else {
        1 + fitting(ws.drop_first(), budget - ws[0])
    }
}

/// How many of the widths, taken in order, start within `budget`: a
/// column is drawn when the columns before it leave its left edge inside.
pub open spec fn shown_count(ws: Seq<u16>, budget: int) -> nat
    decreases ws.len(),
{
    if ws.len() == 0 || budget < 0 {
        0
    } else {
        1 + shown_count(ws.drop_first(), budget - ws[0])
    }
}

/// The file name shown for a CSV path.
pub open spec fn csv_name(path: Seq<char>) -> Seq<char> {
    match file_name_of(path) {
        Some(n) => n,
        None => "untitled.csv"@,
    }
}

/// `new_rows` is `old_rows` with the cell at row `r`, column `c` set to `v`.
pub open spec fn cell_set(old_rows: Seq<Vec<String>>, new_rows: Seq<Vec<String>>, r: int, c: int, v: Seq<char>) -> bool {
    &&& 0 <= r < old_rows.len()
    &&& 0 <= c < old_rows[r].len()
    &&& new_rows.len() == old_rows.len()
    &&& forall|k: int| 0 <= k < old_rows.len() && k != r ==> new_rows[k] == old_rows[k]
    &&& new_rows[r].len() == old_rows[r].len()
    &&& forall|k: int| 0 <= k < old_rows[r].len() && k != c ==> new_rows[r]@[k] == old_rows[r]@[k]
    &&& new_rows[r]@[c]@ == v
}

/// Committing the edit buffer of `a` gives the cells and flags of `b`.
pub open spec fn committed(a: CsvView, b: CsvView) -> bool {
    let r = a.cursor_row as int;
    let c = a.cursor_col as int;
    &&& !b.editing
    &&& b.edit_buffer@.len() == 0
    &&& if 0 <= r < a.rows.len() && 0 <= c < a.rows@[r].len() && a.rows@[r]@[c]@ != a.edit_buffer@ {
        cell_set(a.rows@, b.rows@, r, c, a.edit_buffer@) && b.modified
    } else {
        b.rows == a.rows && b.modified == a.modified
    }
}

/// The cursor after Tab: the next column, wrapping to the first column of
/// the next row when there is one.
pub open spec fn tab_cursor(v: CsvView) -> (usize, usize) {
    if v.headers.len() > 0 {
        let col = ((v.cursor_col + 1) % (v.headers.len() as int)) as usize;
        let row = if col == 0 && v.cursor_row + 1 < v.rows.len() { (v.cursor_row + 1) as usize } else { v.cursor_row };
        (row, col)
    } else {
        (v.cursor_row, v.cursor_col)
    }
}

/// The scroll offsets of `b` are those that bring its cursor into view,
/// starting from the offsets of `a`.
pub open spec fn rescrolled(a: CsvView, b: CsvView) -> bool {
    (b.scroll_row, b.scroll_col) == (CsvView { scroll_row: a.scroll_row, scroll_col: a.scroll_col, ..b }).scrolled()
}

/// The step an action makes while a cell is being edited.
pub open spec fn edit_step(a: CsvView, b: CsvView, action: Action) -> bool {
    match action {
        Action::InsertChar(ch) => b == CsvView { edit_buffer: b.edit_buffer, ..a }
            && b.edit_buffer@ == a.edit_buffer@.push(ch),
        Action::DeleteBackward => b == CsvView { edit_buffer: b.edit_buffer, ..a }
            && b.edit_buffer@ == if a.edit_buffer@.len() > 0 { a.edit_buffer@.drop_last() } else { a.edit_buffer@ },
        Action::DeleteForward => b == CsvView { edit_buffer: b.edit_buffer, ..a }
            && b.edit_buffer@ == if a.edit_buffer@.len() > 0 { a.edit_buffer@.drop_first() } else { a.edit_buffer@ },
        Action::InsertNewline => committed(a, b) && b.cursor_row == a.cursor_row
            && b.cursor_col == a.cursor_col && b.scroll_row == a.scroll_row && b.scroll_col == a.scroll_col,
        Action::InsertTab => committed(a, b) && (b.cursor_row, b.cursor_col) == tab_cursor(a)
            && rescrolled(a, b),
        Action::Undo => b.rows == a.rows && b.modified == a.modified && !b.editing
            && b.edit_buffer@.len() == 0 && b.cursor_row == a.cursor_row
            && b.cursor_col == a.cursor_col && b.scroll_row == a.scroll_row && b.scroll_col == a.scroll_col,
        _ => b == a,
    }
}

/// The cursor position a navigation action moves to, if it moves.
pub open spec fn nav_cursor(v: CsvView, action: Action) -> Option<(usize, usize)> {
    let step = if v.viewport_height > 3 { (v.viewport_height - 2) as int } else { 1 };
    let last = if v.rows.len() > 0 { v.rows.len() - 1 } else { 0 };
    match action {
        Action::CursorUp => if v.cursor_row > 0 { Some(((v.cursor_row - 1) as usize, v.cursor_col)) } else { None },
        Action::CursorDown => if v.cursor_row + 1 < v.rows.len() {
            Some(((v.cursor_row + 1) as usize, v.cursor_col))
        } else {
            None
        },
        Action::CursorLeft => if v.cursor_col > 0 { Some((v.cursor_row, (v.cursor_col - 1) as usize)) } else { None },
        Action::CursorRight => if v.cursor_col + 1 < v.headers.len() {
            Some((v.cursor_row, (v.cursor_col + 1) as usize))
        } else {
            None
        },
        Action::InsertTab => if v.headers.len() > 0 { Some(tab_cursor(v)) } else { None },
        Action::PageUp => Some((if v.cursor_row >= step { (v.cursor_row - step) as usize } else { 0 }, v.cursor_col)),
        Action::PageDown => Some((if v.cursor_row + step < last { (v.cursor_row + step) as usize } else { last as usize }, v.cursor_col)),
        Action::CursorFileStart => Some((0, 0)),
        Action::CursorFileEnd => Some((last as usize, v.cursor_col)),
        _ => None,
    }
}

/// The step an action makes in navigation mode.
pub open spec fn nav_step(a: CsvView, b: CsvView, action: Action) -> bool {
    match action {
        Action::CursorUp | Action::CursorDown | Action::CursorLeft | Action::CursorRight
        | Action::InsertTab | Action::PageUp | Action::PageDown | Action::CursorFileStart
        | Action::CursorFileEnd => match nav_cursor(a, action) {
            Some((row, col)) => b.cursor_row == row && b.cursor_col == col && rescrolled(a, b)
                && b.rows == a.rows && b.editing == a.editing && b.edit_buffer == a.edit_buffer
                && b.modified == a.modified,
            None => b == a,
        },
        Action::InsertNewline => b.editing && b.edit_buffer@ == a.current_cell() && b.rows == a.rows
            && b.modified == a.modified && b.cursor_row == a.cursor_row && b.cursor_col == a.cursor_col
            && b.scroll_row == a.scroll_row && b.scroll_col == a.scroll_col,
        Action::InsertChar(ch) => b.editing && b.edit_buffer@ == a.current_cell().push(ch)
            && b.rows == a.rows && b.modified == a.modified && b.cursor_row == a.cursor_row
            && b.cursor_col == a.cursor_col && b.scroll_row == a.scroll_row && b.scroll_col == a.scroll_col,
        Action::DeleteBackward | Action::DeleteForward | Action::DeleteLine => {
            let r = a.cursor_row as int;
            let c = a.cursor_col as int;
            &&& b.cursor_row == a.cursor_row && b.cursor_col == a.cursor_col
            &&& b.scroll_row == a.scroll_row && b.scroll_col == a.scroll_col
            &&& b.editing == a.editing && b.edit_buffer == a.edit_buffer
            &&& if 0 <= r < a.rows.len() && 0 <= c < a.rows@[r].len() && a.rows@[r]@[c]@.len() > 0 {
                cell_set(a.rows@, b.rows@, r, c, Seq::empty()) && b.modified
            } else {
                b.rows == a.rows && b.modified == a.modified
            }
        },
        _ => b == a,
    }
}

impl CsvView {
    /// The column widths for the current headers and rows.
    pub open spec fn widths(&self) -> Seq<u16> {
        Seq::new(self.headers.len() as nat, |i: int| column_width(self.headers@, self.rows@, i))
    }

    /// The scroll offsets that bring the cursor into view.
    pub open spec fn scrolled(&self) -> (usize, usize) {
        let sr1 = if self.cursor_row < self.scroll_row { self.cursor_row } else { self.scroll_row };
        let vis_rows = if self.viewport_height >= 2 { self.viewport_height - 2 } else { 0 };
        let sr = if self.cursor_row >= sr1 + vis_rows { (self.cursor_row + 1 - vis_rows) as usize } else { sr1 };
        let sc1 = if self.cursor_col < self.scroll_col { self.cursor_col } else { self.scroll_col };
        let f = if sc1 >= self.widths().len() {
            0
        } else {
            fitting(self.widths().skip(sc1 as int), self.viewport_width as int)
        };
        let vis_cols = if f == 0 { 1 } else { f };
        let sc = if self.cursor_col >= sc1 + vis_cols { (self.cursor_col + 1 - vis_cols) as usize } else { sc1 };
        (sr, sc)
    }

    /// The table's contents and editing state are those of `other`.
    pub open spec fn same_content(&self, other: &CsvView) -> bool {
        &&& self.path == other.path
        &&& self.headers == other.headers
        &&& self.rows == other.rows
        &&& self.editing == other.editing
        &&& self.edit_buffer == other.edit_buffer
        &&& self.modified == other.modified
    }

    /// The cursor arithmetic of `action` stays below `usize::MAX`: the
    /// cursor is below it, and a page down does not pass it.
    pub open spec fn ready_for(&self, action: Action) -> bool {
        &&& self.cursor_row < usize::MAX
        &&& self.cursor_col < usize::MAX
        &&& (action is PageDown ==> self.cursor_row + self.viewport_height < usize::MAX)
    }

    /// `self` is `old` after handling `action`: an editing step while a
    /// cell is edited, a navigation step otherwise.
    pub open spec fn handled(&self, old: &CsvView, action: Action) -> bool {
        &&& self.path == old.path
        &&& self.headers == old.headers
        &&& self.viewport_height == old.viewport_height
        &&& self.viewport_width == old.viewport_width
        &&& old.editing ==> edit_step(*old, *self, action)
        &&& !old.editing ==> nav_step(*old, *self, action)
    }

    /// Record that the table was written to its file.
    pub fn mark_saved(&mut self)
        ensures
            !final(self).modified,
            final(self).path == old(self).path,
            final(self).headers == old(self).headers,
            final(self).rows == old(self).rows,
            final(self).cursor_row == old(self).cursor_row,
            final(self).cursor_col == old(self).cursor_col,
            final(self).editing == old(self).editing,
            final(self).viewport_height == old(self).viewport_height,
            final(self).viewport_width == old(self).viewport_width,
    {
        self.modified = false;
    }

    /// The table of the CSV file at `path` whose contents are `bytes`:
    /// its header and records as the csv crate reads them, the cursor at
    /// the first cell; `None` when the contents are not valid CSV.
    pub fn from_csv_bytes(path: String, bytes: &[u8]) -> (r: Option<Self>)
        ensures
            match r {
                Some(v) => {
                    &&& csv_records(bytes@) == Some((record_view(v.headers@), rows_view(v.rows@)))
                    &&& v.path == path
                    &&& v.cursor_row == 0 && v.cursor_col == 0 && v.scroll_row == 0 && v.scroll_col == 0
                    &&& v.viewport_height == 24 && v.viewport_width == 80
                    &&& !v.editing && v.edit_buffer@.len() == 0 && !v.modified
                },
                None => csv_records(bytes@) is None,
            },
    {
        match csv_parse(bytes) {
            Some((headers, rows)) => Some(Self::from_records(path, headers, rows)),
            None => None,
        }
    }

    /// A table over the given headers and rows, with the cursor on the first cell.
    pub fn from_records(path: String, headers: Vec<String>, rows: Vec<Vec<String>>) -> (v: Self)
        ensures
            v.path == path,
            v.headers == headers,
            v.rows == rows,
            v.cursor_row == 0 && v.cursor_col == 0 && v.scroll_row == 0 && v.scroll_col == 0,
            v.viewport_height == 24 && v.viewport_width == 80,
            !v.editing && v.edit_buffer@.len() == 0 && !v.modified,
    {
        CsvView {
            path,
            headers,
            rows,
            cursor_row: 0,
            cursor_col: 0,
            scroll_row: 0,
            scroll_col: 0,
            viewport_height: 24,
            viewport_width: 80,
            editing: false,
            edit_buffer: String::new(),
            edit_original: String::new(),
            modified: false,
        }
    }

    /// The file name, or `untitled.csv` when the path has none.
    pub fn name(&self) -> (r: String)
        ensures
            r@ == csv_name(self.path@),
    {
        match path_file_name(self.path.as_str()) {
            Some(n) => n,
            None => "untitled.csv".to_owned(),
        }
    }

    pub fn file_path(&self) -> (r: &str)
        ensures
            r@ == self.path@,
    {
        self.path.as_str()
    }

    pub fn is_modified(&self) -> (r: bool)
        ensures
            r == self.modified,
    {
        self.modified
    }

    /// Take the new viewport size and scroll the cursor into view.
    pub fn update_viewport(&mut self, height: usize, width: usize)
        requires
            old(self).cursor_row < usize::MAX,
            old(self).cursor_col < usize::MAX,
        ensures
            final(self).viewport_height == height,
            final(self).viewport_width == width,
            final(self).same_content(old(self)),
            final(self).cursor_row == old(self).cursor_row,
            final(self).cursor_col == old(self).cursor_col,
            (final(self).scroll_row, final(self).scroll_col) == (CsvView {
                viewport_height: height,
                viewport_width: width,
                ..*old(self)
            }).scrolled(),
    {
        self.viewport_height = height;
        self.viewport_width = width;
        self.scroll_cursor_into_view();
    }

    /// The columns a table `width` cells wide draws, from the first column
    /// scrolled to.
    pub open spec fn shown_columns(&self, width: int) -> Seq<usize> {
        let ws = self.widths();
        let n = if self.scroll_col <= ws.len() { shown_count(ws.skip(self.scroll_col as int), width) } else { 0 };
        Seq::new(n, |k: int| (self.scroll_col + k) as usize)
    }

    /// The indices of the columns drawn in a table `width` cells wide.
    pub fn visible_columns(&self, width: u16) -> (r: Vec<usize>)
        ensures
            r@ == self.shown_columns(width as int),
    {
        let widths = self.col_widths();
        let ghost ws = widths@;
        let mut r: Vec<usize> = Vec::new();
        let start = self.scroll_col;
        if start > widths.len() {
            assert(r@ =~= self.shown_columns(width as int));
            return r;
        }
        let mut used: u128 = 0;
        let mut k: usize = start;
        while k < widths.len()
            invariant_except_break
                shown_count(ws.skip(start as int), width as int) == (k - start) + shown_count(
                    ws.skip(k as int),
                    width - used,
                ),
            invariant
                ws == widths@,
                ws == self.widths(),
                start == self.scroll_col,
                start <= k <= widths.len(),
                used <= width + 65536,
                r@ == Seq::new((k - start) as nat, |j: int| (start + j) as usize),
            ensures
                shown_count(ws.skip(start as int), width as int) == k - start,
                r@ == Seq::new((k - start) as nat, |j: int| (start + j) as usize),
            decreases widths.len() - k,
        {
            assert(ws.skip(k as int).drop_first() =~= ws.skip(k + 1));
            assert(ws.skip(k as int)[0] == ws[k as int]);
            if used > width as u128 {
                break;
            }
            r.push(k);
            used = used + widths[k] as u128;
            k += 1;
            assert(r@ =~= Seq::new((k - start) as nat, |j: int| (start + j) as usize));
        }
        assert(r@ =~= self.shown_columns(width as int));
        r
    }

    /// Column display widths: min(max(header, data) + 2, 25), at least 4.
    pub fn col_widths(&self) -> (r: Vec<u16>)
        ensures
            r@ == self.widths(),
    {
        let mut r: Vec<u16> = Vec::new();
        let mut i: usize = 0;
        while i < self.headers.len()
            invariant
                i <= self.headers.len(),
                r.len() == i,
                forall|k: int| 0 <= k < i ==> r@[k] == column_width(self.headers@, self.rows@, k),
            decreases self.headers.len() - i,
        {
            let mut max_data: usize = 0;
            let mut j: usize = 0;
            while j < self.rows.len()
                invariant
                    i < self.headers.len(),
                    j <= self.rows.len(),
                    max_data == column_data_max(self.rows@.take(j as int), i as int),
                decreases self.rows.len() - j,
            {
                assert(self.rows@.take(j + 1).drop_last() =~= self.rows@.take(j as int));
                if i < self.rows[j].len() {
                    let l = self.rows[j][i].as_str().len();
                    if l > max_data {
                        max_data = l;
                    }
                }
                j += 1;
            }
            assert(self.rows@.take(self.rows.len() as int) =~= self.rows@);
            let h = self.headers[i].as_str().len();
            let m = if h > max_data { h } else { max_data };
            let w: u16 = if m >= 23 { 25 } else if m + 2 < 4 { 4 } else { (m + 2) as u16 };
            r.push(w);
            i += 1;
        }
        assert(r@ =~= self.widths());
        r
    }

    fn scroll_cursor_into_view(&mut self)
        requires
            old(self).cursor_row < usize::MAX,
            old(self).cursor_col < usize::MAX,
        ensures
            final(self).same_content(old(self)),
            final(self).cursor_row == old(self).cursor_row,
            final(self).cursor_col == old(self).cursor_col,
            final(self).viewport_height == old(self).viewport_height,
            final(self).viewport_width == old(self).viewport_width,
            (final(self).scroll_row, final(self).scroll_col) == old(self).scrolled(),
    {
        if self.cursor_row < self.scroll_row {
            self.scroll_row = self.cursor_row;
        }
        let visible_rows = self.viewport_height.saturating_sub(2);
        if self.cursor_row - self.scroll_row >= visible_rows {
            self.scroll_row = self.cursor_row + 1 - visible_rows;
        }
        if self.cursor_col < self.scroll_col {
            self.scroll_col = self.cursor_col;
        }
        let widths = self.col_widths();
        let ghost ws = widths@;
        let mut used: u128 = 0;
        let mut visible_cols: usize = 0;
        let start = self.scroll_col;
        if start < widths.len() {
            let mut k: usize = start;
            while k < widths.len()
                invariant_except_break
                    fitting(ws.skip(start as int), self.viewport_width as int) == visible_cols
                        + fitting(ws.skip(k as int), self.viewport_width - used),
                invariant
                    ws == widths@,
                    start <= k <= widths.len(),
                    visible_cols == k - start,
                    used <= self.viewport_width,
                ensures
                    fitting(ws.skip(start as int), self.viewport_width as int) == visible_cols,
                decreases widths.len() - k,
            {
                let w = widths[k];
                assert(ws.skip(k as int).drop_first() =~= ws.skip(k + 1));
                assert(ws.skip(k as int)[0] == w);
                if used + w as u128 > self.viewport_width as u128 {
                    break;
                }
                used = used + w as u128;
                visible_cols += 1;
                k += 1;
            }
        }
        if visible_cols == 0 {
            visible_cols = 1;
        }
        if self.cursor_col - self.scroll_col >= visible_cols {
            self.scroll_col = self.cursor_col + 1 - visible_cols;
        }
    }

    fn commit_edit(&mut self)
        ensures
            !old(self).editing ==> *final(self) == *old(self),
            old(self).editing ==> {
                let r = old(self).cursor_row as int;
                let c = old(self).cursor_col as int;
                &&& !final(self).editing
                &&& final(self).edit_buffer@.len() == 0
                &&& if 0 <= r < old(self).rows.len() && 0 <= c < old(self).rows@[r].len()
                    && old(self).rows@[r]@[c]@ != old(self).edit_buffer@ {
                    &&& final(self).rows.len() == old(self).rows.len()
                    &&& forall|k: int| 0 <= k < old(self).rows.len() && k != r
                        ==> final(self).rows@[k] == old(self).rows@[k]
                    &&& final(self).rows@[r].len() == old(self).rows@[r].len()
                    &&& forall|k: int| 0 <= k < old(self).rows@[r].len() && k != c
                        ==> final(self).rows@[r]@[k] == old(self).rows@[r]@[k]
                    &&& final(self).rows@[r]@[c]@ == old(self).edit_buffer@
                    &&& final(self).modified
                } else {
                    final(self).rows == old(self).rows && final(self).modified == old(self).modified
                }
            },
            final(self).path == old(self).path,
            final(self).headers == old(self).headers,
            final(self).cursor_row == old(self).cursor_row,
            final(self).cursor_col == old(self).cursor_col,
            final(self).scroll_row == old(self).scroll_row,
            final(self).scroll_col == old(self).scroll_col,
            final(self).viewport_height == old(self).viewport_height,
            final(self).viewport_width == old(self).viewport_width,
    {
        if self.editing {
            if self.cursor_row < self.rows.len() && self.cursor_col < self.rows[self.cursor_row].len() {
                let new_val = self.edit_buffer.clone();
                if self.rows[self.cursor_row][self.cursor_col] != new_val {
                    let r = self.cursor_row;
                    let c = self.cursor_col;
                    self.rows[r].set(c, new_val);
                    self.modified = true;
                }
            }
            self.editing = false;
            self.edit_buffer = String::new();
            self.edit_original = String::new();
        }
    }

    fn cancel_edit(&mut self)
        ensures
            !final(self).editing,
            old(self).editing ==> final(self).edit_buffer@.len() == 0,
            !old(self).editing ==> final(self).edit_buffer == old(self).edit_buffer,
            final(self).rows == old(self).rows,
            final(self).headers == old(self).headers,
            final(self).path == old(self).path,
            final(self).modified == old(self).modified,
            final(self).cursor_row == old(self).cursor_row,
            final(self).cursor_col == old(self).cursor_col,
            final(self).scroll_row == old(self).scroll_row,
            final(self).scroll_col == old(self).scroll_col,
            final(self).viewport_height == old(self).viewport_height,
            final(self).viewport_width == old(self).viewport_width,
    {
        if self.editing {
            self.editing = false;
            self.edit_buffer = String::new();
            self.edit_original = String::new();
        }
    }

    /// The text of the cell under the cursor, or the empty text.
    pub open spec fn current_cell(&self) -> Seq<char> {
        let r = self.cursor_row as int;
        let c = self.cursor_col as int;
        if 0 <= r < self.rows.len() && 0 <= c < self.rows@[r].len() {
            self.rows@[r]@[c]@
        } else {
            Seq::empty()
        }
    }

    fn start_edit(&mut self, replace_with: Option<char>)
        ensures
            final(self).editing,
            final(self).edit_buffer@ == match replace_with {
                Some(ch) => seq![ch],
                None => old(self).current_cell(),
            },
            final(self).rows == old(self).rows,
            final(self).headers == old(self).headers,
            final(self).path == old(self).path,
            final(self).modified == old(self).modified,
            final(self).cursor_row == old(self).cursor_row,
            final(self).cursor_col == old(self).cursor_col,
            final(self).scroll_row == old(self).scroll_row,
            final(self).scroll_col == old(self).scroll_col,
            final(self).viewport_height == old(self).viewport_height,
            final(self).viewport_width == old(self).viewport_width,
    {
        let current = if self.cursor_row < self.rows.len() && self.cursor_col < self.rows[self.cursor_row].len() {
            self.rows[self.cursor_row][self.cursor_col].clone()
        } else {
            String::new()
        };
        self.edit_original = current.clone();
        self.editing = true;
        match replace_with {
            Some(ch) => {
                let mut s = String::new();
                string_push(&mut s, ch);
                self.edit_buffer = s;
            },
            None => {
                self.edit_buffer = current;
            },
        }
    }

    fn num_cols(&self) -> (r: usize)
        ensures
            r == self.headers.len(),
    {
        self.headers.len()
    }

    fn num_rows(&self) -> (r: usize)
        ensures
            r == self.rows.len(),
    {
        self.rows.len()
    }

    /// Truncate a string to fit in `width` characters, ending it with `…`
    /// when it is cut.
    pub fn truncate(s: &str, width: usize) -> (r: String)
        ensures
            s@.len() <= width ==> r@ == s@,
            s@.len() > width && width > 1 ==> r@ == s@.take(width - 1).push('…'),
            s@.len() > width && width <= 1 ==> r@ == seq!['…'],
    {
        let c = chars_of(s);
        if c.len() <= width {
            s.to_owned()
        } else if width > 1 {
            let mut r = string_from_range(c.as_slice(), 0, width - 1);
            assert(r@ == s@.take(width - 1));
            string_push(&mut r, '…');
            r
        } else {
            let mut r = String::new();
            string_push(&mut r, '…');
            r
        }
    }

    /// Whether the cursor arithmetic of `action` stays below `usize::MAX`
    /// (see [`CsvView::ready_for`]).
    pub fn is_ready_for(&self, action: &Action) -> (r: bool)
        ensures
            r == self.ready_for(*action),
    {
        self.cursor_row < usize::MAX && self.cursor_col < usize::MAX && match action {
            Action::PageDown => self.viewport_height < usize::MAX - self.cursor_row,
            _ => true,
        }
    }

    /// Handle a user action. While a cell is being edited, keys edit the
    /// buffer, Enter commits, Tab commits and moves on, Undo cancels. In
    /// navigation mode, keys move the cursor, Enter or typing starts
    /// editing, and deleting clears the cell.
    pub fn handle_action(&mut self, action: &Action) -> (r: AppCommand)
        requires
            old(self).ready_for(*action),
        ensures
            r == AppCommand::Nothing,
            final(self).handled(old(self), *action),
    {
        if self.editing {
            self.handle_edit_action(action);
        } else {
            self.handle_nav_action(action);
        }
        AppCommand::Nothing
    }

    fn handle_edit_action(&mut self, action: &Action)
        requires
            old(self).editing,
            old(self).cursor_row < usize::MAX,
            old(self).cursor_col < usize::MAX,
        ensures
            final(self).path == old(self).path,
            final(self).headers == old(self).headers,
            final(self).viewport_height == old(self).viewport_height,
            final(self).viewport_width == old(self).viewport_width,
            edit_step(*old(self), *final(self), *action),
    {
        match action {
            Action::InsertChar(ch) => {
                string_push(&mut self.edit_buffer, *ch);
            },
            Action::DeleteBackward => {
                let _ = string_pop(&mut self.edit_buffer);
            },
            Action::DeleteForward => {
                if !self.edit_buffer.as_str().is_empty() {
                    let _ = string_remove_first(&mut self.edit_buffer);
                }
            },
            Action::InsertNewline => {
                self.commit_edit();
            },
            Action::InsertTab => {
                self.commit_edit();
                if self.num_cols() > 0 {
                    self.cursor_col = (self.cursor_col + 1) % self.num_cols();
                    if self.cursor_col == 0 && self.cursor_row + 1 < self.num_rows() {
                        self.cursor_row += 1;
                    }
                }
                self.scroll_cursor_into_view();
            },
            Action::Undo => {
                self.cancel_edit();
            },
            _ => {},
        }
    }

    #[verifier::spinoff_prover]
    #[verifier::rlimit(40)]
    fn handle_nav_action(&mut self, action: &Action)
        requires
            !old(self).editing,
            old(self).cursor_row < usize::MAX,
            old(self).cursor_col < usize::MAX,
            *action is PageDown ==> old(self).cursor_row + old(self).viewport_height < usize::MAX,
        ensures
            final(self).path == old(self).path,
            final(self).headers == old(self).headers,
            final(self).viewport_height == old(self).viewport_height,
            final(self).viewport_width == old(self).viewport_width,
            nav_step(*old(self), *final(self), *action),
    {
        match action {
            Action::CursorUp => {
                if self.cursor_row > 0 {
                    self.cursor_row -= 1;
                    self.scroll_cursor_into_view();
                }
            },
            Action::CursorDown => {
                if self.cursor_row + 1 < self.num_rows() {
                    self.cursor_row += 1;
                    self.scroll_cursor_into_view();
                }
            },
            Action::CursorLeft => {
                if self.cursor_col > 0 {
                    self.cursor_col -= 1;
                    self.scroll_cursor_into_view();
                }
            },
            Action::CursorRight => {
                if self.num_cols() > 0 && self.cursor_col + 1 < self.num_cols() {
                    self.cursor_col += 1;
                    self.scroll_cursor_into_view();
                }
            },
            Action::InsertTab => {
                if self.num_cols() > 0 {
                    self.cursor_col = (self.cursor_col + 1) % self.num_cols();
                    if self.cursor_col == 0 && self.cursor_row + 1 < self.num_rows() {
                        self.cursor_row += 1;
                    }
                    self.scroll_cursor_into_view();
                }
            },
            Action::PageUp => {
                let step = if self.viewport_height > 3 { self.viewport_height - 2 } else { 1 };
                self.cursor_row = self.cursor_row.saturating_sub(step);
                self.scroll_cursor_into_view();
            },
            Action::PageDown => {
                let step = if self.viewport_height > 3 { self.viewport_height - 2 } else { 1 };
                let last = self.num_rows().saturating_sub(1);
                let target = self.cursor_row + step;
                self.cursor_row = if target < last { target } else { last };
                self.scroll_cursor_into_view();
            },
            Action::CursorFileStart => {
                self.cursor_row = 0;
                self.cursor_col = 0;
                self.scroll_cursor_into_view();
            },
            Action::CursorFileEnd => {
                self.cursor_row = self.num_rows().saturating_sub(1);
                self.scroll_cursor_into_view();
            },
            Action::InsertNewline => {
                self.start_edit(None);
            },
            Action::InsertChar(ch) => {
                self.start_edit(None);
                string_push(&mut self.edit_buffer, *ch);
            },
            Action::DeleteBackward | Action::DeleteForward | Action::DeleteLine => {
                if self.cursor_row < self.rows.len() && self.cursor_col < self.rows[self.cursor_row].len() {
                    if !self.rows[self.cursor_row][self.cursor_col].as_str().is_empty() {
                        let r = self.cursor_row;
                        let c = self.cursor_col;
                        self.rows[r].set(c, String::new());
                        self.modified = true;
                    }
                }
            },
            _ => {},
        }
    }
}

} // verus!
