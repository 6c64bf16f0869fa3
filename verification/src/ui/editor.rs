//! The editor pane: the open tabs (text buffers and CSV tables), the tab
//! bar and what the status bar shows of the active tab.
use vstd::prelude::*;
use crate::config::theme::Theme;
use crate::input::actions::Action;
use crate::path::{extension_of, file_name_of, path_extension, path_file_name};
use crate::editor::cursor::{CursorState, Position};
use crate::editor::rope::is_break_char;
use crate::text::chars_of;
use crate::ui::buffer::{backspace_ok, lf_only, no_breaks, retype_ok, retyped, sat_sub, typing_ok, untitled, Buffer};
use crate::ui::command::AppCommand;
use crate::ui::csv_view::{csv_name, CsvView};
use crate::ui::status_bar::StatusInfo;
use crate::ui::tab_bar::{TabBar, TabInfo};

verus! {

/// Type `text` in place of the `prefix_len` characters before the cursor:
/// that many backspaces, then each character.
fn retype(buf: &mut Buffer, prefix_len: usize, text: &str)
    requires
        retype_ok(old(buf).text(), old(buf).cursor.position, old(buf).cursor.selection, prefix_len as nat, text@),
    ensures
        (final(buf).text(), final(buf).cursor.position) == retyped(
            old(buf).text(),
            old(buf).cursor.position,
            old(buf).cursor.selection,
            prefix_len as nat,
            text@,
        ),
        old(buf).history_consistent() && lf_only(old(buf).text()) && old(buf).edit_on_line() && no_breaks(text@)
            ==> final(buf).history_consistent(),
{
    let ghost goal = retyped(buf.text(), buf.cursor.position, buf.cursor.selection, prefix_len as nat, text@);
    let ghost good = buf.history_consistent() && lf_only(buf.text()) && buf.edit_on_line() && no_breaks(text@);
    let mut k = prefix_len;
    while k > 0
        invariant
            retype_ok(buf.text(), buf.cursor.position, buf.cursor.selection, k as nat, text@),
            retyped(buf.text(), buf.cursor.position, buf.cursor.selection, k as nat, text@) == goal,
            good ==> buf.history_consistent() && lf_only(buf.text()) && buf.edit_on_line() && no_breaks(text@),
        decreases k,
    {
        buf.delete_backward();
        k -= 1;
    }
    let chars = chars_of(text);
    let mut i: usize = 0;
    assert(text@.skip(0) =~= text@);
    while i < chars.len()
        invariant
            chars@ == text@,
            i <= chars.len(),
            retype_ok(buf.text(), buf.cursor.position, buf.cursor.selection, 0, text@.skip(i as int)),
            retyped(buf.text(), buf.cursor.position, buf.cursor.selection, 0, text@.skip(i as int)) == goal,
            good ==> buf.history_consistent() && lf_only(buf.text()) && buf.edit_on_line() && no_breaks(text@),
        decreases chars.len() - i,
    {
        assert(good ==> !is_break_char(chars@[i as int]));
        assert(text@.skip(i as int)[0] == chars@[i as int]);
        assert(text@.skip(i as int).drop_first() =~= text@.skip(i + 1));
        buf.insert_char(chars[i]);
        i += 1;
    }
    assert(text@.skip(i as int).len() == 0);
}

/// Whether `prefix_len` backspaces followed by typing `text` can all be
/// made in the buffer (see [`retype_ok`]); tried out on a copy of its text
/// and cursor.
pub fn retype_fits(buf: &Buffer, prefix_len: usize, text: &str) -> (r: bool)
    ensures
        r == retype_ok(buf.text(), buf.cursor.position, buf.cursor.selection, prefix_len as nat, text@),
{
    let ghost goal = retype_ok(buf.text(), buf.cursor.position, buf.cursor.selection, prefix_len as nat, text@);
    let mut b = Buffer::from_text(buf.document.text().as_str());
    b.cursor = CursorState {
        position: buf.cursor.position,
        selection: buf.cursor.selection,
        desired_col: buf.cursor.desired_col,
    };
    let mut k = prefix_len;
    while k > 0
        invariant
            retype_ok(b.text(), b.cursor.position, b.cursor.selection, k as nat, text@) == goal,
            goal == retype_ok(buf.text(), buf.cursor.position, buf.cursor.selection, prefix_len as nat, text@),
            !b.search.active,
            !b.goto_line.active,
        decreases k,
    {
        if !b.is_ready_for(&Action::DeleteBackward) {
            assert(!backspace_ok(b.text(), b.cursor.position, b.cursor.selection));
            return false;
        }
        b.delete_backward();
        k -= 1;
    }
    let chars = chars_of(text);
    let mut i: usize = 0;
    assert(text@.skip(0) =~= text@);
    while i < chars.len()
        invariant
            chars@ == text@,
            i <= chars.len(),
            retype_ok(b.text(), b.cursor.position, b.cursor.selection, 0, text@.skip(i as int)) == goal,
            goal == retype_ok(buf.text(), buf.cursor.position, buf.cursor.selection, prefix_len as nat, text@),
            !b.search.active,
            !b.goto_line.active,
        decreases chars.len() - i,
    {
        assert(text@.skip(i as int)[0] == chars@[i as int]);
        assert(text@.skip(i as int).drop_first() =~= text@.skip(i + 1));
        if !b.is_ready_for(&Action::InsertChar(chars[i])) {
            assert(!typing_ok(b.text(), b.cursor.position, b.cursor.selection));
            return false;
        }
        b.insert_char(chars[i]);
        i += 1;
    }
    assert(text@.skip(i as int).len() == 0);
    true
}

/// Content of a single editor tab — either a plain text buffer or a CSV table view.
pub enum TabContent {
    Text(Buffer),
    Csv(CsvView),
}

/// The name of the tab for a path: its file name, or "untitled".
pub open spec fn tab_name(path: Seq<char>) -> Seq<char> {
    match file_name_of(path) {
        Some(n) => n,
        None => untitled(),
    }
}

/// A path opens as a CSV table when its extension is exactly `csv`.
pub open spec fn csv_path(path: Seq<char>) -> bool {
    extension_of(path) == Some(seq!['c', 's', 'v'])
}

/// Whether a path opens as a CSV table rather than a text buffer.
pub fn is_csv_path(path: &str) -> (r: bool)
    ensures
        r == csv_path(path@),
{
    match path_extension(path) {
        Some(e) => {
            let v = crate::text::chars_of(e.as_str());
            if v.len() == 3 && v[0] == 'c' && v[1] == 's' && v[2] == 'v' {
                assert(v@ =~= seq!['c', 's', 'v']);
                true
            } else {
                assert(v@ != seq!['c', 's', 'v']);
                false
            }
        },
        None => false,
    }
}

/// The name of the tab for a path.
pub fn tab_name_for(path: &str) -> (r: String)
    ensures
        r@ == tab_name(path@),
{
    match path_file_name(path) {
        Some(n) => n,
        None => {
            proof {
                reveal_strlit("untitled");
            }
            "untitled".to_string()
        },
    }
}

impl TabContent {
    /// The tab's name.
    pub open spec fn name_view(&self) -> Seq<char> {
        match self {
            TabContent::Text(b) => b.name_view(),
            TabContent::Csv(c) => csv_name(c.path@),
        }
    }

    /// The tab's content differs from its file.
    pub open spec fn modified(&self) -> bool {
        match self {
            TabContent::Text(b) => b.document.modified,
            TabContent::Csv(c) => c.modified,
        }
    }

    /// The tab's file, if it has one.
    pub open spec fn path_view(&self) -> Option<Seq<char>> {
        match self {
            TabContent::Text(b) => match b.document.file_path {
                Some(p) => Some(p@),
                None => None,
            },
            TabContent::Csv(c) => Some(c.path@),
        }
    }

    /// A text tab's undo history fits its text; a table has none.
    pub open spec fn history_consistent(&self) -> bool {
        match self {
            TabContent::Text(b) => b.history_consistent(),
            TabContent::Csv(_) => true,
        }
    }

    /// Handling `action` keeps a text tab's history fitting its text (see
    /// [`Buffer::keeps_history`]).
    pub open spec fn keeps_history(&self, action: Action) -> bool {
        match self {
            TabContent::Text(b) => b.keeps_history(action),
            TabContent::Csv(_) => true,
        }
    }

    /// The action can be handled without leaving the text or the
    /// machine's integers.
    pub open spec fn ready_for(&self, action: Action) -> bool {
        match self {
            TabContent::Text(b) => b.ready_for(action),
            TabContent::Csv(c) => c.ready_for(action),
        }
    }

    /// What handling `action` in this tab asks of the application.
    pub open spec fn command_for(&self, action: Action) -> AppCommand {
        match self {
            TabContent::Text(b) => b.command_for(action),
            TabContent::Csv(c) => AppCommand::Nothing,
        }
    }

    /// `self` is `old` after it handled `action`.
    pub open spec fn handled(&self, old: &TabContent, action: Action) -> bool {
        match (old, self) {
            (TabContent::Text(b0), TabContent::Text(b1)) => b1.handled(b0, action),
            (TabContent::Csv(c0), TabContent::Csv(c1)) => c1.handled(c0, action),
            _ => false,
        }
    }

    pub fn name(&self) -> (r: String)
        ensures
            r@ == self.name_view(),
    {
        match self {
            TabContent::Text(b) => b.name(),
            TabContent::Csv(c) => c.name(),
        }
    }

    pub fn is_modified(&self) -> (r: bool)
        ensures
            r == self.modified(),
    {
        match self {
            TabContent::Text(b) => b.is_modified(),
            TabContent::Csv(c) => c.is_modified(),
        }
    }

    pub fn file_path(&self) -> (r: Option<&str>)
        ensures
            match self.path_view() {
                Some(p) => r matches Some(q) && q@ == p,
                None => r is None,
            },
    {
        match self {
            TabContent::Text(b) => b.file_path(),
            TabContent::Csv(c) => Some(c.file_path()),
        }
    }

    /// Record that the tab's content was written to its file.
    pub fn mark_saved(&mut self)
        requires
            match *old(self) {
                TabContent::Text(b) => b.document.version < i32::MAX,
                TabContent::Csv(_) => true,
            },
        ensures
            !final(self).modified(),
            final(self).name_view() == old(self).name_view(),
            final(self).path_view() == old(self).path_view(),
    {
        match self {
            TabContent::Text(b) => b.document.mark_saved(),
            TabContent::Csv(c) => c.mark_saved(),
        }
    }

    pub fn update_viewport(&mut self, height: usize, width: usize)
        requires
            match *old(self) {
                TabContent::Text(_) => true,
                TabContent::Csv(c) => c.cursor_row < usize::MAX && c.cursor_col < usize::MAX,
            },
        ensures
            match (*old(self), *final(self)) {
                (TabContent::Text(b0), TabContent::Text(b1)) => {
                    &&& b1.viewport_height == height && b1.viewport_width == width
                    &&& b1.document == b0.document && b1.cursor == b0.cursor
                    &&& b1.scroll_offset == b0.scroll_offset
                    &&& b1.horizontal_scroll == b0.horizontal_scroll
                },
                (TabContent::Csv(c0), TabContent::Csv(c1)) => {
                    &&& c1.viewport_height == height && c1.viewport_width == width
                    &&& c1.same_content(&c0)
                    &&& c1.cursor_row == c0.cursor_row && c1.cursor_col == c0.cursor_col
                },
                _ => false,
            },
            final(self).name_view() == old(self).name_view(),
            final(self).modified() == old(self).modified(),
    {
        match self {
            TabContent::Text(b) => b.update_viewport(height, width),
            TabContent::Csv(c) => c.update_viewport(height, width),
        }
    }

    /// Whether the action can be handled without leaving the text or the
    /// machine's integers (see [`TabContent::ready_for`]).
    pub fn is_ready_for(&self, action: &Action) -> (r: bool)
        ensures
            r == self.ready_for(*action),
    {
        match self {
            TabContent::Text(b) => b.is_ready_for(action),
            TabContent::Csv(c) => c.is_ready_for(action),
        }
    }

    pub fn handle_action(&mut self, action: &Action) -> (r: AppCommand)
        requires
            old(self).ready_for(*action),
        ensures
            r == old(self).command_for(*action),
            final(self).handled(old(self), *action),
            old(self).history_consistent() && old(self).keeps_history(*action) ==> final(self).history_consistent(),
    {
        match self {
            TabContent::Text(b) => b.handle_action(action),
            TabContent::Csv(c) => c.handle_action(action),
        }
    }
}

/// The main editor pane containing tabs and buffers.
pub struct EditorPane {
    pub tabs: Vec<TabContent>,
    pub tab_bar: TabBar,
    pub theme: Theme,
}

impl EditorPane {
    /// One tab-bar entry per tab, and the active index names a tab when
    /// there are tabs.
    pub open spec fn wf(&self) -> bool {
        &&& self.tabs.len() == self.tab_bar.tabs.len()
        &&& self.tab_bar.well_formed()
    }

    /// Every text tab's undo history fits its text.
    pub open spec fn histories_consistent(&self) -> bool {
        forall|i: int| 0 <= i < self.tabs.len() ==> (#[trigger] self.tabs@[i]).history_consistent()
    }

    /// Handling `action` keeps the active tab's history fitting its text.
    pub open spec fn keeps_histories(&self, action: Action) -> bool {
        match self.active_tab() {
            Some(t) => t.keeps_history(action),
            None => true,
        }
    }

    /// The active tab, if there is one.
    pub open spec fn active_tab(&self) -> Option<TabContent> {
        if self.tab_bar.active < self.tabs.len() { Some(self.tabs@[self.tab_bar.active as int]) } else { None }
    }

    /// The active tab's buffer, if the active tab is a text buffer.
    pub open spec fn active_text(&self) -> Option<Buffer> {
        match self.active_tab() {
            Some(TabContent::Text(b)) => Some(b),
            _ => None,
        }
    }

    pub fn new(theme: Theme) -> (p: Self)
        ensures
            p.tabs.len() == 0,
            p.tab_bar.tabs.len() == 0,
            p.tab_bar.active == 0,
            p.theme == theme,
            p.wf(),
    {
        EditorPane { tabs: Vec::new(), tab_bar: TabBar::new(), theme }
    }

    /// If a tab with the name of `path`'s file is open, make it active and
    /// return `true`; `false` when the file still has to be opened.
    pub fn select_open_tab(&mut self, path: &str) -> (found: bool)
        requires
            old(self).wf(),
        ensures
            found == exists|i: int| 0 <= i < old(self).tab_bar.tabs.len() && #[trigger] old(self).tab_bar.tabs@[i].name@ == tab_name(path@),
            found ==> final(self).tab_bar.tabs@[final(self).tab_bar.active as int].name@ == tab_name(path@),
            found ==> forall|j: int| 0 <= j < final(self).tab_bar.active ==> #[trigger] old(self).tab_bar.tabs@[j].name@ != tab_name(path@),
            !found ==> *final(self) == *old(self),
            final(self).tab_bar.tabs == old(self).tab_bar.tabs,
            final(self).tabs == old(self).tabs,
            final(self).theme == old(self).theme,
            final(self).wf(),
    {
        let name = tab_name_for(path);
        match self.tab_bar.find_tab(name.as_str()) {
            Some(idx) => {
                self.tab_bar.set_active(idx);
                true
            },
            None => false,
        }
    }

    /// Add a tab for the file at `path` holding `content` (as read from the
    /// file), and make it active.
    pub fn push_tab(&mut self, path: &str, content: TabContent)
        requires
            old(self).wf(),
        ensures
            final(self).tabs@ == old(self).tabs@.push(content),
            final(self).tab_bar.tabs.len() == old(self).tab_bar.tabs.len() + 1,
            final(self).tab_bar.tabs@.last().name@ == tab_name(path@),
            !final(self).tab_bar.tabs@.last().modified,
            final(self).tab_bar.active == old(self).tabs.len(),
            final(self).theme == old(self).theme,
            final(self).wf(),
    {
        let name = tab_name_for(path);
        self.tabs.push(content);
        self.tab_bar.add_tab(name, false);
    }

    /// Returns the active text buffer, if the active tab is a text file.
    pub fn active_buffer(&self) -> (r: Option<&Buffer>)
        ensures
            match self.active_text() {
                Some(b) => r matches Some(x) && *x == b,
                None => r is None,
            },
    {
        let idx = self.tab_bar.active;
        if idx < self.tabs.len() {
            match &self.tabs[idx] {
                TabContent::Text(b) => Some(b),
                TabContent::Csv(_) => None,
            }
        } else {
            None
        }
    }

    /// `self` is `old` with its active tab closed: the tab and its tab-bar
    /// entry are gone and the active index is clamped to the last tab; with
    /// no tab open nothing changes.
    pub open spec fn closed_active(&self, old: &EditorPane) -> bool {
        &&& self.wf()
        &&& self.theme == old.theme
        &&& old.tabs.len() == 0 ==> *self == *old
        &&& old.tabs.len() > 0 ==> {
            let idx = old.tab_bar.active as int;
            &&& self.tabs@ == old.tabs@.remove(idx)
            &&& self.tab_bar.tabs@ == old.tab_bar.tabs@.remove(idx)
            &&& self.tab_bar.active == if old.tab_bar.active >= self.tabs.len() && self.tabs.len() > 0 {
                (self.tabs.len() - 1) as usize
            } else {
                old.tab_bar.active
            }
        }
    }

    /// Close the active tab, returning its file's path.
    pub fn close_active_tab(&mut self) -> (r: Option<String>)
        requires
            old(self).wf(),
        ensures
            final(self).closed_active(old(self)),
            old(self).tabs.len() == 0 ==> r is None,
            old(self).tabs.len() > 0 ==> match old(self).tabs@[old(self).tab_bar.active as int].path_view() {
                Some(p) => r matches Some(q) && q@ == p,
                None => r is None,
            },
    {
        if self.tabs.len() == 0 {
            return None;
        }
        let idx = self.tab_bar.active;
        let path = match self.tabs[idx].file_path() {
            Some(p) => Some(p.to_owned()),
            None => None,
        };
        self.tabs.remove(idx);
        self.tab_bar.close_tab(idx);
        path
    }

    /// Record that the active tab was written to its file, and show it as
    /// unmodified under its name.
    pub fn mark_active_saved(&mut self)
        requires
            old(self).wf(),
            match old(self).active_tab() {
                Some(TabContent::Text(b)) => b.document.version < i32::MAX,
                _ => true,
            },
        ensures
            final(self).wf(),
            final(self).tabs.len() == old(self).tabs.len(),
            final(self).tab_bar.active == old(self).tab_bar.active,
            match old(self).active_tab() {
                Some(t) => {
                    let idx = old(self).tab_bar.active as int;
                    &&& !final(self).tabs@[idx].modified()
                    &&& final(self).tabs@[idx].path_view() == t.path_view()
                    &&& final(self).tab_bar.tabs@[idx].name@ == t.name_view()
                    &&& !final(self).tab_bar.tabs@[idx].modified
                    &&& forall|j: int| 0 <= j < old(self).tabs.len() && j != idx ==> final(self).tabs@[j] == old(self).tabs@[j]
                },
                None => final(self).tabs == old(self).tabs && final(self).tab_bar.tabs == old(self).tab_bar.tabs,
            },
            final(self).theme == old(self).theme,
    {
        let idx = self.tab_bar.active;
        if idx < self.tabs.len() {
            let mut tab = self.tabs.remove(idx);
            tab.mark_saved();
            let name = tab.name();
            self.tabs.insert(idx, tab);
            self.tab_bar.update_tab(idx, name, false);
        }
    }

    /// What the status bar shows for the active tab: its name, language,
    /// cursor and size; empty when there is no tab.
    pub fn status_info(&self) -> (r: StatusInfo)
        ensures
            match self.active_tab() {
                Some(TabContent::Text(b)) => {
                    &&& r.file_name@ == b.name_view()
                    &&& r.language@ == b.document.language_id@
                    &&& r.cursor_line == b.cursor.position.line
                    &&& r.cursor_col == b.cursor.position.col
                    &&& r.total_lines == crate::editor::rope::line_count(b.text())
                    &&& r.modified == b.document.modified
                    &&& r.encoding@ == seq!['U', 'T', 'F', '-', '8']
                    &&& r.line_ending@ == seq!['L', 'F']
                    &&& r.lsp_status is None
                },
                Some(TabContent::Csv(c)) => {
                    &&& r.file_name@ == csv_name(c.path@)
                    &&& r.language@ == seq!['c', 's', 'v']
                    &&& r.cursor_line == c.cursor_row
                    &&& r.cursor_col == c.cursor_col
                    &&& r.total_lines == c.rows.len()
                    &&& r.modified == c.modified
                    &&& r.encoding@ == seq!['U', 'T', 'F', '-', '8']
                    &&& r.line_ending@ == seq!['L', 'F']
                    &&& r.lsp_status is None
                },
                None => {
                    &&& r.file_name@.len() == 0
                    &&& r.language@.len() == 0
                    &&& r.cursor_line == 0 && r.cursor_col == 0 && r.total_lines == 0
                    &&& !r.modified
                    &&& r.lsp_status is None
                },
            },
    {
        let idx = self.tab_bar.active;
        proof {
            reveal_strlit("UTF-8");
            reveal_strlit("LF");
            reveal_strlit("csv");
        }
        if idx < self.tabs.len() {
            match &self.tabs[idx] {
                TabContent::Text(buf) => StatusInfo {
                    file_name: buf.name(),
                    language: buf.language_id().to_string(),
                    encoding: "UTF-8".to_string(),
                    line_ending: "LF".to_string(),
                    cursor_line: buf.cursor.position.line,
                    cursor_col: buf.cursor.position.col,
                    total_lines: buf.document.line_count(),
                    modified: buf.is_modified(),
                    lsp_status: None,
                },
                TabContent::Csv(csv) => StatusInfo {
                    file_name: csv.name(),
                    language: "csv".to_string(),
                    encoding: "UTF-8".to_string(),
                    line_ending: "LF".to_string(),
                    cursor_line: csv.cursor_row,
                    cursor_col: csv.cursor_col,
                    total_lines: csv.rows.len(),
                    modified: csv.is_modified(),
                    lsp_status: None,
                },
            }
        } else {
            StatusInfo::default()
        }
    }

    /// Show the active tab's name and modified flag in the tab bar.
    fn update_tab_modified(&mut self)
        requires
            old(self).wf(),
        ensures
            final(self).tabs == old(self).tabs,
            final(self).tab_bar.active == old(self).tab_bar.active,
            final(self).wf(),
            final(self).theme == old(self).theme,
            match old(self).active_tab() {
                Some(t) => final(self).tab_bar.tabs@ == old(self).tab_bar.tabs@.update(
                    old(self).tab_bar.active as int,
                    TabInfo { name: final(self).tab_bar.tabs@[old(self).tab_bar.active as int].name, modified: t.modified() },
                ) && final(self).tab_bar.tabs@[old(self).tab_bar.active as int].name@ == t.name_view(),
                None => final(self).tab_bar.tabs == old(self).tab_bar.tabs,
            },
    {
        let idx = self.tab_bar.active;
        if idx < self.tabs.len() {
            let modified = self.tabs[idx].is_modified();
            let name = self.tabs[idx].name();
            self.tab_bar.update_tab(idx, name, modified);
        }
    }

    /// The active text buffer has its search bar open.
    pub fn search_active(&self) -> (r: bool)
        ensures
            r == (self.active_text() matches Some(b) && b.search.active),
    {
        match self.active_buffer() {
            Some(b) => b.search.active,
            None => false,
        }
    }

    /// The active text buffer has its replace bar open.
    pub fn replace_active(&self) -> (r: bool)
        ensures
            r == (self.active_text() matches Some(b) && b.search.active && b.search.replace_mode),
    {
        match self.active_buffer() {
            Some(b) => b.search.active && b.search.replace_mode,
            None => false,
        }
    }

    /// The active text buffer has its go-to-line bar open.
    pub fn goto_line_active(&self) -> (r: bool)
        ensures
            r == (self.active_text() matches Some(b) && b.goto_line.active),
    {
        match self.active_buffer() {
            Some(b) => b.goto_line.active,
            None => false,
        }
    }

    /// Only the active tab may differ from `old`: the tab bar, the theme,
    /// the number of tabs and every other tab are as they were.
    pub open spec fn others_same(&self, old: &EditorPane) -> bool {
        &&& self.tab_bar == old.tab_bar
        &&& self.theme == old.theme
        &&& self.tabs.len() == old.tabs.len()
        &&& forall|j: int|
            0 <= j < old.tabs.len() && j != old.tab_bar.active ==> #[trigger] self.tabs@[j] == old.tabs@[j]
    }

    /// `self` is `old` after closing the search or go-to-line bar of its active buffer, as `r` says.
    pub open spec fn bar_dismissed(&self, old: &EditorPane, r: bool) -> bool {
        &&& self.wf()
        &&& self.others_same(old)
        &&& match old.active_text() {
            Some(b0) => if b0.search.active {
                r && (self.active_text() matches Some(b1) && b1.same_but_search(&b0)
                    && b1.search_dismissed(&b0))
            } else if b0.goto_line.active {
                r && (self.active_text() matches Some(b1) && b1.same_but_goto(&b0)
                    && !b1.goto_line.active && b1.goto_line.input@.len() == 0)
            } else {
                !r && self.tabs == old.tabs
            },
            None => !r && self.tabs == old.tabs,
        }
    }

    /// Close the active text buffer's search bar if it is open, or else its
    /// go-to-line bar; `false` when neither is open.
    pub fn dismiss_bar(&mut self) -> (r: bool)
        requires
            old(self).wf(),
        ensures
            final(self).bar_dismissed(old(self), r),
    {
        let idx = self.tab_bar.active;
        if idx >= self.tabs.len() {
            return false;
        }
        let open = match &self.tabs[idx] {
            TabContent::Text(b) => b.search.active || b.goto_line.active,
            TabContent::Csv(_) => false,
        };
        if !open {
            return false;
        }
        let tab = self.tabs.remove(idx);
        let tab = match tab {
            TabContent::Text(mut b) => {
                if b.search.active {
                    b.dismiss_search();
                } else {
                    b.dismiss_goto();
                }
                TabContent::Text(b)
            },
            other => other,
        };
        self.tabs.insert(idx, tab);
        true
    }

    /// Move the active text buffer's cursor to the start of line `line` (or
    /// its last line), as [`Buffer::jump_to_line`] does.
    pub fn jump_active_to_line(&mut self, line: usize)
        requires
            old(self).wf(),
        ensures
            final(self).wf(),
            final(self).others_same(old(self)),
            match old(self).active_text() {
                Some(b0) => final(self).active_text() matches Some(b1) && b1.moved_to(
                    &b0,
                    b0.moved(
                        Position { line: if line <= sat_sub(b0.lines() as int, 1) { line } else {
                            sat_sub(b0.lines() as int, 1) as usize
                        }, col: 0 },
                        0,
                    ),
                ),
                None => final(self).tabs == old(self).tabs,
            },
    {
        let idx = self.tab_bar.active;
        if idx >= self.tabs.len() {
            return;
        }
        let is_text = match &self.tabs[idx] {
            TabContent::Text(_) => true,
            TabContent::Csv(_) => false,
        };
        if !is_text {
            return;
        }
        let tab = self.tabs.remove(idx);
        let tab = match tab {
            TabContent::Text(mut b) => {
                b.jump_to_line(line);
                TabContent::Text(b)
            },
            other => other,
        };
        self.tabs.insert(idx, tab);
    }

    /// In the active text buffer, put `text` in place of the `prefix_len`
    /// characters before the cursor: that many backspaces, then each
    /// character.
    pub fn retype_active(&mut self, prefix_len: usize, text: &str)
        requires
            old(self).wf(),
            match old(self).active_text() {
                Some(b) => retype_ok(b.text(), b.cursor.position, b.cursor.selection, prefix_len as nat, text@),
                None => true,
            },
        ensures
            final(self).wf(),
            final(self).others_same(old(self)),
            match old(self).active_text() {
                Some(b0) => final(self).active_text() matches Some(b1) && (b1.text(), b1.cursor.position)
                    == retyped(b0.text(), b0.cursor.position, b0.cursor.selection, prefix_len as nat, text@) && (
                    b0.history_consistent() && lf_only(b0.text()) && b0.edit_on_line() && no_breaks(text@)
                    ==> b1.history_consistent()),
                None => final(self).tabs == old(self).tabs,
            },
    {
        let idx = self.tab_bar.active;
        if idx >= self.tabs.len() {
            return;
        }
        let is_text = match &self.tabs[idx] {
            TabContent::Text(_) => true,
            TabContent::Csv(_) => false,
        };
        if !is_text {
            return;
        }
        let tab = self.tabs.remove(idx);
        let tab = match tab {
            TabContent::Text(mut b) => {
                retype(&mut b, prefix_len, text);
                TabContent::Text(b)
            },
            other => other,
        };
        self.tabs.insert(idx, tab);
    }

    /// The text viewport for an area of `height` by `width` cells: less the
    /// border, tab bar and status bar, and one row for each open bar.
    pub open spec fn viewport_for(&self, height: u16, width: u16) -> (usize, usize) {
        let extra: int = (if self.active_text() matches Some(b) && b.search.active { 1int } else { 0int })
            + (if self.active_text() matches Some(b) && b.search.active && b.search.replace_mode { 1int } else { 0int })
            + (if self.active_text() matches Some(b) && b.goto_line.active { 1int } else { 0int });
        let h = if height >= 4 + extra { height - 4 - extra } else { 0 };
        let w = if width >= 2 { width - 2 } else { 0 };
        (h as usize, w as usize)
    }

    /// Give the active tab the viewport of an area of `height` by `width`
    /// terminal cells.
    pub fn sync_viewport(&mut self, height: u16, width: u16)
        requires
            old(self).wf(),
            match old(self).active_tab() {
                Some(TabContent::Csv(c)) => c.cursor_row < usize::MAX && c.cursor_col < usize::MAX,
                _ => true,
            },
        ensures
            final(self).wf(),
            final(self).tab_bar == old(self).tab_bar,
            final(self).tabs.len() == old(self).tabs.len(),
            match old(self).active_tab() {
                Some(TabContent::Text(b0)) => final(self).active_text() matches Some(b1)
                    && (b1.viewport_height, b1.viewport_width) == old(self).viewport_for(height, width)
                    && b1.document == b0.document && b1.cursor == b0.cursor,
                Some(TabContent::Csv(c0)) => final(self).active_tab() matches Some(TabContent::Csv(c1))
                    && (c1.viewport_height, c1.viewport_width) == old(self).viewport_for(height, width)
                    && c1.same_content(&c0),
                None => final(self).tabs == old(self).tabs,
            },
    {
        if self.tabs.len() == 0 {
            return;
        }
        let extra_rows: u16 = (if self.search_active() { 1u16 } else { 0u16 }) + (if self.replace_active() {
            1u16
        } else {
            0u16
        }) + (if self.goto_line_active() { 1u16 } else { 0u16 });
        let h = height.saturating_sub(4 + extra_rows) as usize;
        let w = width.saturating_sub(2) as usize;
        let idx = self.tab_bar.active;
        if idx < self.tabs.len() {
            let mut tab = self.tabs.remove(idx);
            tab.update_viewport(h, w);
            self.tabs.insert(idx, tab);
        }
    }

    /// `self` is `old` after it handled `action` and answered `r`.
    pub open spec fn handled(&self, old: &EditorPane, action: Action, r: AppCommand) -> bool {
        &&& self.wf()
        &&& self.theme == old.theme
        &&& self.tabs.len() == old.tabs.len()
        &&& match action {
            Action::NextTab => r == AppCommand::Nothing && self.tabs == old.tabs
                && self.tab_bar.tabs@ == old.tab_bar.tabs@ && self.tab_bar.active == (if old.tabs.len() == 0 {
                old.tab_bar.active as int
            } else {
                (old.tab_bar.active + 1) % (old.tabs.len() as int)
            }),
            Action::PreviousTab => r == AppCommand::Nothing && self.tabs == old.tabs
                && self.tab_bar.tabs@ == old.tab_bar.tabs@ && self.tab_bar.active == (if old.tabs.len() == 0 {
                old.tab_bar.active as int
            } else if old.tab_bar.active == 0 {
                old.tabs.len() - 1
            } else {
                old.tab_bar.active - 1
            }),
            Action::CloseTab => r == AppCommand::CloseCurrentTab && self.tabs == old.tabs
                && self.tab_bar == old.tab_bar,
            _ => match old.active_tab() {
                Some(t) => {
                    let idx = old.tab_bar.active as int;
                    &&& r == t.command_for(action)
                    &&& self.tabs@[idx].handled(&t, action)
                    &&& forall|j: int| 0 <= j < old.tabs.len() && j != idx ==> self.tabs@[j] == old.tabs@[j]
                    &&& self.tab_bar.active == old.tab_bar.active
                    &&& self.tab_bar.tabs@[idx].name@ == self.tabs@[idx].name_view()
                    &&& self.tab_bar.tabs@[idx].modified == self.tabs@[idx].modified()
                },
                None => r == AppCommand::Nothing && self.tabs == old.tabs
                    && self.tab_bar == old.tab_bar,
            },
        }
    }

    /// Handle an action: switch tabs, ask to close the active one, or let
    /// the active tab handle it and show its modified flag.
    pub fn handle_action(&mut self, action: &Action) -> (r: AppCommand)
        requires
            old(self).wf(),
            match old(self).active_tab() {
                Some(t) => t.ready_for(*action),
                None => true,
            },
        ensures
            final(self).handled(old(self), *action, r),
            old(self).histories_consistent() && old(self).keeps_histories(*action) ==> final(self).histories_consistent(),
    {
        let ghost before = *self;
        match action {
            Action::NextTab => {
                self.tab_bar.next_tab();
                AppCommand::Nothing
            },
            Action::PreviousTab => {
                self.tab_bar.previous_tab();
                AppCommand::Nothing
            },
            Action::CloseTab => AppCommand::CloseCurrentTab,
            _ => {
                let idx = self.tab_bar.active;
                if idx < self.tabs.len() {
                    let mut tab = self.tabs.remove(idx);
                    let cmd = tab.handle_action(action);
                    self.tabs.insert(idx, tab);
                    self.update_tab_modified();
                    proof {
                        if before.histories_consistent() && before.keeps_histories(*action) {
                            assert forall|i: int| 0 <= i < self.tabs.len() implies (#[trigger] self.tabs@[i]).history_consistent() by {
                                if i != idx {
                                    assert(self.tabs@[i] == before.tabs@[i]);
                                }
                                assert(before.tabs@[i].history_consistent());
                            }
                        }
                    }
                    cmd
                } else {
                    AppCommand::Nothing
                }
            },
        }
    }
}

} // verus!
