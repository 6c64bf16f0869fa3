//! The application's state and its decisions: which component an action
//! goes to, what a command does, and which outside work (files, language
//! servers) it asks for. The effects are carried out by the caller, which
//! hands the results back.
use vstd::prelude::*;
use crate::config::settings::Settings;
use crate::editor::cursor::Position;
use crate::files::tree::{node_view, FileNode};
use crate::input::actions::{Action, FocusArea};
use crate::path::{file_name_of, joined, parent_of, path_file_name, path_join, path_parent};
use crate::text::{chars_of, string_push};
use crate::ui::AppCommand;
use crate::editor::document::Document;
use crate::editor::language::string_is;
use crate::editor::document::line_or_empty;
use crate::ui::buffer::{gutter_for, lf_only, no_breaks, retype_ok, retyped, sat_sub, word_start, Buffer};
use crate::ui::completion::CompletionItem;
use crate::ui::project_search::SearchResult;
use crate::ui::command_palette::CommandPalette;
use crate::ui::completion::CompletionPopup;
use crate::ui::confirm_dialog::{next_choice, previous_choice, result_of, ConfirmAction, ConfirmChoice, ConfirmDialog, ConfirmResult};
use crate::ui::editor::{retype_fits, tab_name, EditorPane, TabContent};
use crate::app_history::lemma_dispatched_keeps_histories;
use crate::ui::project_search::ProjectSearch;
use crate::ui::shortcuts_help::ShortcutsHelp;
use crate::ui::sidebar::{selected_parent_of, Sidebar};

verus! {

/// Outside work a decision asks for, in the order it is to be done.
#[derive(Debug, PartialEq, Eq)]
pub enum Effect {
    /// Read the file and open it in a new tab (then `App::file_opened`, or
    /// `App::file_open_failed`), moving to the line when one is given.
    OpenFile { path: String, line: Option<usize> },
    /// Write the active tab to its file, then mark it saved in the pane.
    SaveActiveTab,
    /// Write the tab at this index to its file, then mark it saved.
    SaveTab(usize),
    /// Close the active tab (after the effects before it are done).
    CloseActiveTab,
    /// Tell the language server that the file was opened.
    LspDidOpen(String),
    /// Send the language server the file's new text.
    LspDidChange { path: String, text: String },
    /// Ask the language server for completions at a position.
    LspCompletion { path: String, line: u32, col: u32 },
    /// List the project's files for the command palette.
    CollectFiles,
    /// Search the project's files for the query.
    SearchProject(String),
    /// Read the project's tree again for the sidebar.
    RefreshTree,
    /// Rename a file.
    Rename { from: String, to: String },
    /// Create an empty file.
    CreateFile(String),
    /// Create a directory and its parents.
    CreateDir(String),
    /// Copy a file, or a directory with what it holds, if `from` exists.
    Copy { from: String, to: String },
    /// Move a file or directory.
    Move { from: String, to: String },
    /// Move a file to the trash.
    Trash(String),
}

/// The value of an [`Effect`].
pub enum EffectView {
    OpenFile { path: Seq<char>, line: Option<usize> },
    SaveActiveTab,
    SaveTab(usize),
    CloseActiveTab,
    LspDidOpen(Seq<char>),
    LspDidChange { path: Seq<char>, text: Seq<char> },
    LspCompletion { path: Seq<char>, line: u32, col: u32 },
    CollectFiles,
    SearchProject(Seq<char>),
    RefreshTree,
    Rename { from: Seq<char>, to: Seq<char> },
    CreateFile(Seq<char>),
    CreateDir(Seq<char>),
    Copy { from: Seq<char>, to: Seq<char> },
    Move { from: Seq<char>, to: Seq<char> },
    Trash(Seq<char>),
}

impl DeepView for Effect {
    type V = EffectView;

    open spec fn deep_view(&self) -> EffectView {
        match self {
            Effect::OpenFile { path, line } => EffectView::OpenFile { path: path@, line: *line },
            Effect::SaveActiveTab => EffectView::SaveActiveTab,
            Effect::SaveTab(i) => EffectView::SaveTab(*i),
            Effect::CloseActiveTab => EffectView::CloseActiveTab,
            Effect::LspDidOpen(p) => EffectView::LspDidOpen(p@),
            Effect::LspDidChange { path, text } => EffectView::LspDidChange { path: path@, text: text@ },
            Effect::LspCompletion { path, line, col } => EffectView::LspCompletion {
                path: path@,
                line: *line,
                col: *col,
            },
            Effect::CollectFiles => EffectView::CollectFiles,
            Effect::SearchProject(q) => EffectView::SearchProject(q@),
            Effect::RefreshTree => EffectView::RefreshTree,
            Effect::Rename { from, to } => EffectView::Rename { from: from@, to: to@ },
            Effect::CreateFile(p) => EffectView::CreateFile(p@),
            Effect::CreateDir(p) => EffectView::CreateDir(p@),
            Effect::Copy { from, to } => EffectView::Copy { from: from@, to: to@ },
            Effect::Move { from, to } => EffectView::Move { from: from@, to: to@ },
            Effect::Trash(p) => EffectView::Trash(p@),
        }
    }
}

/// Add an effect at the end of `v`.
fn push_effect(v: &mut Vec<Effect>, e: Effect)
    ensures
        final(v).deep_view() == old(v).deep_view().push(e.deep_view()),
{
    let ghost e_view = e.deep_view();
    v.push(e);
    proof {
        assert(v.deep_view() =~= old(v).deep_view().push(e_view));
    }
}

/// Add the effects of `w` at the end of `v`, in order.
fn append_effects(v: &mut Vec<Effect>, w: Vec<Effect>)
    ensures
        final(v).deep_view() == old(v).deep_view() + w.deep_view(),
{
    let mut w = w;
    let ghost w0 = w.deep_view();
    v.append(&mut w);
    proof {
        assert(v.deep_view() =~= old(v).deep_view() + w0);
    }
}

/// The command a global key stands for, if it is one.
pub open spec fn global_command(action: Action) -> Option<AppCommand> {
    match action {
        Action::Quit => Some(AppCommand::Quit),
        Action::ToggleSidebar => Some(AppCommand::ToggleSidebar),
        Action::FocusNext => Some(AppCommand::FocusNext),
        Action::OpenCommandPalette => Some(AppCommand::ShowCommandPalette),
        Action::OpenFileFinder => Some(AppCommand::ShowCommandPalette),
        Action::SaveFile => Some(AppCommand::SaveCurrentFile),
        Action::CloseTab => Some(AppCommand::CloseCurrentTab),
        Action::ShowShortcuts => Some(AppCommand::ShowShortcuts),
        _ => None,
    }
}

/// The command a global key stands for, if it is one.
fn global_command_of(action: &Action) -> (r: Option<AppCommand>)
    ensures
        r == global_command(*action),
{
    match action {
        Action::Quit => Some(AppCommand::Quit),
        Action::ToggleSidebar => Some(AppCommand::ToggleSidebar),
        Action::FocusNext => Some(AppCommand::FocusNext),
        Action::OpenCommandPalette => Some(AppCommand::ShowCommandPalette),
        Action::OpenFileFinder => Some(AppCommand::ShowCommandPalette),
        Action::SaveFile => Some(AppCommand::SaveCurrentFile),
        Action::CloseTab => Some(AppCommand::CloseCurrentTab),
        Action::ShowShortcuts => Some(AppCommand::ShowShortcuts),
        _ => None,
    }
}

/// The action changes the text of the buffer it is typed into.
pub open spec fn is_edit(action: Action) -> bool {
    ||| action is InsertChar
    ||| action is DeleteBackward
    ||| action is DeleteForward
    ||| action is InsertNewline
    ||| action is InsertTab
    ||| action is PasteText
}

/// Typing this character asks the language server for completions.
pub open spec fn is_completion_trigger(action: Action) -> bool {
    action == Action::InsertChar('.') || action == Action::InsertChar('(')
}

/// The copies a drop of `paths` onto directory `dir` asks for, one for each
/// path, each to the path's name in `dir`; then the tree is read again.
pub open spec fn drop_effects(paths: Seq<Seq<char>>, dir: Seq<char>) -> Seq<EffectView> {
    Seq::new(
        paths.len(),
        |i: int|
            EffectView::Copy {
                from: paths[i],
                to: joined(
                    dir,
                    match file_name_of(paths[i]) {
                        Some(n) => n,
                        None => Seq::empty(),
                    },
                ),
            },
    ) + seq![EffectView::RefreshTree]
}

/// The project search asked for by a query: none until the query is two
/// bytes long.
pub open spec fn search_request(q: Seq<char>) -> Seq<EffectView> {
    if vstd::utf8::encode_utf8(q).len() as usize >= 2 {
        seq![EffectView::SearchProject(q)]
    } else {
        Seq::empty()
    }
}

/// `b1` is `b0` reloaded from the file at `path`, which now holds `content`:
/// the text is the file's, unmodified, with the cursor at the start and no
/// history.
pub open spec fn reloaded(b1: Buffer, path: Seq<char>, content: Seq<char>) -> bool {
    &&& b1.text() == content
    &&& b1.document.file_path matches Some(p) && p@ == path
    &&& !b1.document.modified
    &&& b1.cursor.position == (Position { line: 0, col: 0 })
    &&& b1.cursor.selection is None
    &&& b1.history.view().undo.len() == 0
    &&& b1.history.view().redo.len() == 0
}

/// Tab `t` is a text buffer of the file at `path` without unsaved changes.
pub open spec fn stale(t: TabContent, path: Seq<char>) -> bool {
    t matches TabContent::Text(b) && (b.document.file_path matches Some(p) && p@ == path)
        && !b.document.modified
}

/// The parts of the application's state, to say which of them an
/// operation may change.
pub enum Part {
    Sidebar,
    Editor,
    Palette,
    Completion,
    Search,
    Help,
    Confirm,
    Focus,
    Running,
}

/// The main application state.
pub struct App {
    pub root_dir: String,
    pub settings: Settings,
    pub sidebar: Sidebar,
    pub editor: EditorPane,
    pub command_palette: CommandPalette,
    pub completion: CompletionPopup,
    pub project_search: ProjectSearch,
    pub shortcuts_help: ShortcutsHelp,
    pub confirm_dialog: ConfirmDialog,
    pub focus: FocusArea,
    pub running: bool,
}

/// Where focus goes on "focus next": between the sidebar and the editor
/// while the sidebar is shown; otherwise it stays.
pub open spec fn next_focus(f: FocusArea, sidebar_visible: bool) -> FocusArea {
    match f {
        FocusArea::Sidebar => if sidebar_visible { FocusArea::Editor } else { f },
        FocusArea::Editor => if sidebar_visible { FocusArea::Sidebar } else { f },
        _ => f,
    }
}

/// No tab has unsaved changes.
pub open spec fn none_modified(tabs: Seq<TabContent>) -> bool {
    forall|j: int| 0 <= j < tabs.len() ==> !(#[trigger] tabs[j]).modified()
}

/// Tab `i` is the first with unsaved changes.
pub open spec fn first_modified_at(tabs: Seq<TabContent>, i: int) -> bool {
    &&& 0 <= i < tabs.len()
    &&& tabs[i].modified()
    &&& forall|j: int| 0 <= j < i ==> !(#[trigger] tabs[j]).modified()
}

/// A save for each of the first `n` tabs that has unsaved changes, in order.
pub open spec fn saves_of(tabs: Seq<TabContent>, n: int) -> Seq<EffectView>
    decreases n,
{
    if n <= 0 {
        Seq::empty()
    } else {
        saves_of(tabs, n - 1) + if tabs[n - 1].modified() {
            seq![EffectView::SaveTab((n - 1) as usize)]
        } else {
            Seq::empty()
        }
    }
}

/// Tab `i` gets a save among the saves for the first `n` tabs exactly when
/// it is among them and has unsaved changes.
proof fn lemma_saves_of_contains(tabs: Seq<TabContent>, n: int, i: int)
    requires
        0 <= n <= tabs.len() <= usize::MAX,
        0 <= i < tabs.len(),
    ensures
        saves_of(tabs, n).contains(EffectView::SaveTab(i as usize)) <==> (i < n && tabs[i].modified()),
    decreases n,
{
    if n > 0 {
        lemma_saves_of_contains(tabs, n - 1, i);
        let last = if tabs[n - 1].modified() {
            seq![EffectView::SaveTab((n - 1) as usize)]
        } else {
            Seq::empty()
        };
        let a = saves_of(tabs, n - 1);
        assert(saves_of(tabs, n) == a + last);
        let x = EffectView::SaveTab(i as usize);
        if (a + last).contains(x) {
            let k = choose|k: int| 0 <= k < (a + last).len() && (a + last)[k] == x;
            if k >= a.len() {
                assert(last[k - a.len()] == x);
            } else {
                assert(a[k] == x);
            }
        }
        if i < n && tabs[i].modified() {
            if i == n - 1 {
                assert((a + last)[a.len() as int] == x);
            } else {
                let k = choose|k: int| 0 <= k < a.len() && a[k] == x;
                assert((a + last)[k] == x);
            }
        }
    }
}

/// Quitting with unsaved changes neither stops the program nor touches the
/// tabs: it opens the dialog about the first modified tab on behalf of quit.
pub proof fn lemma_quit_asks_first(old: App, new: App, r: Seq<EffectView>)
    requires
        new.executed(&old, AppCommand::Quit, r),
        !none_modified(old.editor.tabs@),
    ensures
        new.running == old.running,
        new.editor == old.editor,
        r.len() == 0,
        new.confirm_dialog.visible,
        new.confirm_dialog.action == Some(ConfirmAction::Quit),
        exists|i: int| first_modified_at(old.editor.tabs@, i) && new.confirm_dialog.file_name@ == #[trigger] old.editor.tabs@[i].name_view(),
{
    let i = choose|i: int|
        first_modified_at(old.editor.tabs@, i) && #[trigger] new.asks(old.editor.tabs@[i].name_view(), ConfirmAction::Quit);
    assert(new.confirm_dialog.file_name@ == old.editor.tabs@[i].name_view());
}

/// Saving on quit writes every tab with unsaved changes and no other:
/// tab `i` gets a save exactly when it has unsaved changes.
pub proof fn lemma_quit_saves_modified(tabs: Seq<TabContent>, i: int)
    requires
        tabs.len() <= usize::MAX,
        0 <= i < tabs.len(),
    ensures
        saves_of(tabs, tabs.len() as int).contains(EffectView::SaveTab(i as usize)) <==> tabs[i].modified(),
{
    lemma_saves_of_contains(tabs, tabs.len() as int, i);
}

/// The name a path is shown under: its file name, or the path itself when
/// it has none.
pub open spec fn display_name(p: Seq<char>) -> Seq<char> {
    match file_name_of(p) {
        Some(n) => n,
        None => p,
    }
}

/// Where a moved or copied file goes: its name joined to the target
/// directory, when there is a target and the file has a name.
pub open spec fn destination(target: Option<Seq<char>>, from: Seq<char>) -> Option<Seq<char>> {
    match (target, file_name_of(from)) {
        (Some(t), Some(n)) => Some(joined(t, n)),
        _ => None,
    }
}

/// The line a jump to line `l` of buffer `b` lands on: `l`, or the last line.
pub open spec fn jump_line(b: Buffer, l: usize) -> usize {
    if l <= sat_sub(b.lines() as int, 1) { l } else { sat_sub(b.lines() as int, 1) as usize }
}

/// Tab `new` is tab `old` after a jump to line `l`: a text buffer moves its
/// cursor to the start of that line; a table stays as it is.
pub open spec fn jumped(new: TabContent, old: TabContent, l: usize) -> bool {
    match old {
        TabContent::Text(b0) => new matches TabContent::Text(b1) && b1.moved_to(
            &b0,
            b0.moved(Position { line: jump_line(b0, l), col: 0 }, 0),
        ),
        TabContent::Csv(_) => new == old,
    }
}

impl App {
    /// Only the parts in `changed` may differ from `old`.
    pub open spec fn keeps(&self, old: &App, changed: Set<Part>) -> bool {
        &&& self.root_dir == old.root_dir
        &&& self.settings == old.settings
        &&& (!changed.contains(Part::Sidebar) ==> self.sidebar == old.sidebar)
        &&& (!changed.contains(Part::Editor) ==> self.editor == old.editor)
        &&& (!changed.contains(Part::Palette) ==> self.command_palette == old.command_palette)
        &&& (!changed.contains(Part::Completion) ==> self.completion == old.completion)
        &&& (!changed.contains(Part::Search) ==> self.project_search == old.project_search)
        &&& (!changed.contains(Part::Help) ==> self.shortcuts_help == old.shortcuts_help)
        &&& (!changed.contains(Part::Confirm) ==> self.confirm_dialog == old.confirm_dialog)
        &&& (!changed.contains(Part::Focus) ==> self.focus == old.focus)
        &&& (!changed.contains(Part::Running) ==> self.running == old.running)
    }

    /// The editor's tabs match its tab bar, and every search result has a
    /// line number counted from one.
    pub open spec fn wf(&self) -> bool {
        &&& self.editor.wf()
        &&& forall|i: int|
            0 <= i < self.project_search.results.len() ==> #[trigger] self.project_search.results@[i].line_number
                >= 1
    }

    /// The application over the project at `root_dir`, whose file tree has
    /// the given root: the sidebar is shown and focused, no tab is open and
    /// no overlay is shown.
    pub fn new(root_dir: String, settings: Settings, root: FileNode) -> (app: Self)
        ensures
            app.wf(),
            app.root_dir == root_dir,
            app.settings == settings,
            app.running,
            app.focus == FocusArea::Sidebar,
            app.sidebar.visible,
            app.sidebar.width == settings.sidebar_width,
            node_view(app.sidebar.tree.root) == node_view(root),
            app.sidebar.tree.selected_index == 0,
            app.editor.tabs.len() == 0,
            app.editor.theme == settings.theme,
            !app.command_palette.visible,
            !app.completion.visible,
            !app.project_search.visible,
            !app.shortcuts_help.visible,
            !app.confirm_dialog.visible,
            app.histories_consistent(),
    {
        let sidebar = Sidebar::new(root, settings.sidebar_width);
        let editor = EditorPane::new(settings.theme);
        App {
            root_dir,
            settings,
            sidebar,
            editor,
            command_palette: CommandPalette::new(),
            completion: CompletionPopup::new(),
            project_search: ProjectSearch::new(),
            shortcuts_help: ShortcutsHelp::new(),
            confirm_dialog: ConfirmDialog::new(),
            focus: FocusArea::Sidebar,
            running: true,
        }
    }

    /// What the language server is told after the active buffer changed:
    /// its new text, when it is a text buffer with a file.
    pub open spec fn change_effects(&self) -> Seq<EffectView> {
        match self.editor.active_text() {
            Some(b) => match b.document.file_path {
                Some(p) => seq![EffectView::LspDidChange { path: p@, text: b.text() }],
                None => Seq::empty(),
            },
            None => Seq::empty(),
        }
    }

    /// The completion request for the cursor of the active buffer, when it
    /// is a text buffer with a file.
    pub open spec fn completion_request(&self) -> Seq<EffectView> {
        match self.editor.active_text() {
            Some(b) => match b.document.file_path {
                Some(p) => seq![
                    EffectView::LspCompletion {
                        path: p@,
                        line: b.cursor.position.line as u32,
                        col: b.cursor.position.col as u32,
                    },
                ],
                None => Seq::empty(),
            },
            None => Seq::empty(),
        }
    }

    /// The dialog asks about `name` on behalf of `action`, with `Save` selected.
    pub open spec fn asks(&self, name: Seq<char>, action: ConfirmAction) -> bool {
        &&& self.confirm_dialog.visible
        &&& self.confirm_dialog.file_name@ == name
        &&& self.confirm_dialog.action == Some(action)
        &&& self.confirm_dialog.selected == ConfirmChoice::Save
    }

    /// `self` is `old` after executing `cmd`, which asked for the effects `r`.
    pub open spec fn executed(&self, old: &App, cmd: AppCommand, r: Seq<EffectView>) -> bool {
        match cmd {
            AppCommand::Quit => r.len() == 0 && if none_modified(old.editor.tabs@) {
                self.keeps(old, set![Part::Running]) && !self.running
            } else {
                &&& self.keeps(old, set![Part::Confirm])
                &&& exists|i: int|
                    first_modified_at(old.editor.tabs@, i) && #[trigger] self.asks(
                        old.editor.tabs@[i].name_view(),
                        ConfirmAction::Quit,
                    )
            },
            AppCommand::ToggleSidebar => {
                &&& r.len() == 0
                &&& self.keeps(old, set![Part::Sidebar, Part::Focus])
                &&& self.sidebar == Sidebar { visible: !old.sidebar.visible, ..old.sidebar }
                &&& self.focus == if !self.sidebar.visible && old.focus == FocusArea::Sidebar {
                    FocusArea::Editor
                } else {
                    old.focus
                }
            },
            AppCommand::FocusNext => r.len() == 0 && self.keeps(old, set![Part::Focus]) && self.focus == next_focus(
                old.focus,
                old.sidebar.visible,
            ),
            AppCommand::OpenFile(p) => self.opened(old, p@, None, r),
            AppCommand::SaveCurrentFile => self.keeps(old, Set::empty()) && r == (if old.editor.active_tab() is Some {
                seq![EffectView::SaveActiveTab]
            } else {
                Seq::empty()
            }) + old.change_effects(),
            AppCommand::CloseCurrentTab => r.len() == 0 && match old.editor.active_tab() {
                Some(t) => if t.modified() {
                    self.keeps(old, set![Part::Confirm]) && self.asks(
                        t.name_view(),
                        ConfirmAction::CloseTab(old.editor.tab_bar.active),
                    )
                } else {
                    self.keeps(old, set![Part::Editor]) && self.editor.closed_active(&old.editor)
                },
                None => self.keeps(old, set![Part::Editor]) && self.editor.closed_active(&old.editor),
            },
            AppCommand::ShowCommandPalette => r == seq![EffectView::CollectFiles] && self.keeps(old, Set::empty()),
            AppCommand::FileDelete(p) => r.len() == 0 && self.keeps(old, set![Part::Confirm]) && self.asks(
                display_name(p@),
                ConfirmAction::DeleteFile(p),
            ),
            AppCommand::FileRename { from, to } => self.keeps(old, Set::empty()) && r == seq![
                EffectView::Rename {
                    from: from@,
                    to: joined(
                        match parent_of(from@) {
                            Some(q) => q,
                            None => "."@,
                        },
                        to@,
                    ),
                },
                EffectView::RefreshTree,
            ],
            AppCommand::FileNew(p) => self.keeps(old, Set::empty()) && r == seq![
                EffectView::CreateFile(p@),
                EffectView::RefreshTree,
            ],
            AppCommand::DirNew(p) => self.keeps(old, Set::empty()) && r == seq![
                EffectView::CreateDir(p@),
                EffectView::RefreshTree,
            ],
            AppCommand::FileCopy(from) => self.keeps(old, Set::empty()) && r == match destination(
                selected_parent_of(old.sidebar.tree),
                from@,
            ) {
                Some(d) => seq![EffectView::Copy { from: from@, to: d }, EffectView::RefreshTree],
                None => seq![EffectView::RefreshTree],
            },
            AppCommand::FileCut(from) => self.keeps(old, Set::empty()) && r == match destination(
                selected_parent_of(old.sidebar.tree),
                from@,
            ) {
                Some(d) => seq![EffectView::Move { from: from@, to: d }, EffectView::RefreshTree],
                None => seq![EffectView::RefreshTree],
            },
            AppCommand::RequestCompletion => self.keeps(old, Set::empty()) && r == old.completion_request(),
            AppCommand::ShowShortcuts => {
                &&& r.len() == 0
                &&& self.keeps(old, set![Part::Help])
                &&& self.shortcuts_help.visible == !old.shortcuts_help.visible
                &&& self.shortcuts_help.scroll == 0
            },
            AppCommand::ProjectSearch => {
                &&& r.len() == 0
                &&& self.keeps(old, set![Part::Search])
                &&& self.project_search.visible
                &&& self.project_search.query@.len() == 0
                &&& self.project_search.results.len() == 0
                &&& self.project_search.selected == 0
            },
            _ => r.len() == 0 && self.keeps(old, Set::empty()),
        }
    }

    /// The change notice for the active buffer, if there is one to send.
    fn change_effect(&self) -> (r: Option<Effect>)
        ensures
            match r {
                Some(e) => self.change_effects() == seq![e.deep_view()],
                None => self.change_effects().len() == 0,
            },
    {
        match self.editor.active_buffer() {
            Some(b) => match b.file_path() {
                Some(p) => Some(Effect::LspDidChange { path: p.to_owned(), text: b.document.text() }),
                None => None,
            },
            None => None,
        }
    }

    /// The completion request for the active buffer, if there is one to send.
    fn completion_effect(&self) -> (r: Option<Effect>)
        ensures
            match r {
                Some(e) => self.completion_request() == seq![e.deep_view()],
                None => self.completion_request().len() == 0,
            },
    {
        match self.editor.active_buffer() {
            Some(b) => match b.file_path() {
                Some(p) => Some(
                    Effect::LspCompletion {
                        path: p.to_owned(),
                        line: b.cursor.position.line as u32,
                        col: b.cursor.position.col as u32,
                    },
                ),
                None => None,
            },
            None => None,
        }
    }

    /// Carry out a command from a component or from a global key: change
    /// the state and return the outside work it asks for, in order.
    pub fn execute_command(&mut self, command: AppCommand) -> (r: Vec<Effect>)
        requires
            old(self).wf(),
        ensures
            final(self).wf(),
            final(self).executed(old(self), command, r.deep_view()),
    {
        let ghost before = *self;
        let mut effects: Vec<Effect> = Vec::new();
        match command {
            AppCommand::Quit => {
                let mut i: usize = 0;
                while i < self.editor.tabs.len() && !self.editor.tabs[i].is_modified()
                    invariant
                        i <= self.editor.tabs.len(),
                        forall|j: int| 0 <= j < i ==> !(#[trigger] self.editor.tabs@[j]).modified(),
                    decreases self.editor.tabs.len() - i,
                {
                    i += 1;
                }
                if i < self.editor.tabs.len() {
                    let name = self.editor.tabs[i].name();
                    self.confirm_dialog.show(name, ConfirmAction::Quit);
                    proof {
                        assert(first_modified_at(before.editor.tabs@, i as int));
                        assert(self.asks(before.editor.tabs@[i as int].name_view(), ConfirmAction::Quit));
                    }
                } else {
                    self.running = false;
                }
            },
            AppCommand::ToggleSidebar => {
                self.sidebar.toggle_visibility();
                if !self.sidebar.visible && matches!(self.focus, FocusArea::Sidebar) {
                    self.focus = FocusArea::Editor;
                }
            },
            AppCommand::FocusNext => {
                self.focus = match self.focus {
                    FocusArea::Sidebar => if self.sidebar.visible {
                        FocusArea::Editor
                    } else {
                        FocusArea::Sidebar
                    },
                    FocusArea::Editor => if self.sidebar.visible {
                        FocusArea::Sidebar
                    } else {
                        FocusArea::Editor
                    },
                    FocusArea::CommandPalette => FocusArea::CommandPalette,
                    FocusArea::CompletionPopup => FocusArea::CompletionPopup,
                };
            },
            AppCommand::OpenFile(path) => {
                effects = self.open_path(path, None);
            },
            AppCommand::SaveCurrentFile => {
                if self.editor.tab_bar.active < self.editor.tabs.len() {
                    push_effect(&mut effects, Effect::SaveActiveTab);
                }
                assert(effects.deep_view() =~= if before.editor.active_tab() is Some {
                    seq![EffectView::SaveActiveTab]
                } else {
                    Seq::empty()
                });
                let ghost saves = effects.deep_view();
                if let Some(e) = self.change_effect() {
                    push_effect(&mut effects, e);
                }
                assert(effects.deep_view() =~= saves + before.change_effects());
            },
            AppCommand::CloseCurrentTab => {
                let idx = self.editor.tab_bar.active;
                if idx < self.editor.tabs.len() && self.editor.tabs[idx].is_modified() {
                    let name = self.editor.tabs[idx].name();
                    self.confirm_dialog.show(name, ConfirmAction::CloseTab(idx));
                } else {
                    let _ = self.editor.close_active_tab();
                }
            },
            AppCommand::ShowCommandPalette => {
                push_effect(&mut effects, Effect::CollectFiles);
                assert(effects.deep_view() =~= seq![EffectView::CollectFiles]);
            },
            AppCommand::FileDelete(path) => {
                let name = match path_file_name(path.as_str()) {
                    Some(n) => n,
                    None => path.clone(),
                };
                self.confirm_dialog.show(name, ConfirmAction::DeleteFile(path));
            },
            AppCommand::FileRename { from, to } => {
                let parent = match path_parent(from.as_str()) {
                    Some(q) => q,
                    None => ".".to_owned(),
                };
                assert(parent@ == match parent_of(from@) {
                    Some(q) => q,
                    None => "."@,
                });
                let new_path = path_join(parent.as_str(), to.as_str());
                let ghost rename = EffectView::Rename { from: from@, to: new_path@ };
                push_effect(&mut effects, Effect::Rename { from, to: new_path });
                push_effect(&mut effects, Effect::RefreshTree);
                assert(effects.deep_view() =~= seq![rename, EffectView::RefreshTree]);
                assert(effects.deep_view() == seq![EffectView::Rename {
                    from: from@,
                    to: joined(
                        match parent_of(from@) {
                            Some(q) => q,
                            None => "."@,
                        },
                        to@,
                    ),
                }, EffectView::RefreshTree]);
            },
            AppCommand::FileNew(path) => {
                let ghost first = EffectView::CreateFile(path@);
                push_effect(&mut effects, Effect::CreateFile(path));
                push_effect(&mut effects, Effect::RefreshTree);
                assert(effects.deep_view() =~= seq![first, EffectView::RefreshTree]);
            },
            AppCommand::DirNew(path) => {
                let ghost first = EffectView::CreateDir(path@);
                push_effect(&mut effects, Effect::CreateDir(path));
                push_effect(&mut effects, Effect::RefreshTree);
                assert(effects.deep_view() =~= seq![first, EffectView::RefreshTree]);
            },
            AppCommand::FileCopy(from) => {
                if let Some(target) = self.sidebar.selected_parent_dir() {
                    if let Some(name) = path_file_name(from.as_str()) {
                        let dest = path_join(target.as_str(), name.as_str());
                        let ghost e = EffectView::Copy { from: from@, to: dest@ };
                        push_effect(&mut effects, Effect::Copy { from, to: dest });
                        assert(effects.deep_view() =~= seq![e]);
                    }
                }
                let ghost firsts = effects.deep_view();
                push_effect(&mut effects, Effect::RefreshTree);
                assert(effects.deep_view() =~= firsts + seq![EffectView::RefreshTree]);
                assert(effects.deep_view() == match destination(selected_parent_of(before.sidebar.tree), from@) {
                    Some(d) => seq![EffectView::Copy { from: from@, to: d }, EffectView::RefreshTree],
                    None => seq![EffectView::RefreshTree],
                });
            },
            AppCommand::FileCut(from) => {
                if let Some(target) = self.sidebar.selected_parent_dir() {
                    if let Some(name) = path_file_name(from.as_str()) {
                        let dest = path_join(target.as_str(), name.as_str());
                        let ghost e = EffectView::Move { from: from@, to: dest@ };
                        push_effect(&mut effects, Effect::Move { from, to: dest });
                        assert(effects.deep_view() =~= seq![e]);
                    }
                }
                let ghost firsts = effects.deep_view();
                push_effect(&mut effects, Effect::RefreshTree);
                assert(effects.deep_view() =~= firsts + seq![EffectView::RefreshTree]);
                assert(effects.deep_view() == match destination(selected_parent_of(before.sidebar.tree), from@) {
                    Some(d) => seq![EffectView::Move { from: from@, to: d }, EffectView::RefreshTree],
                    None => seq![EffectView::RefreshTree],
                });
            },
            AppCommand::RequestCompletion => {
                if let Some(e) = self.completion_effect() {
                    push_effect(&mut effects, e);
                }
                assert(effects.deep_view() =~= before.completion_request());
            },
            AppCommand::ShowShortcuts => {
                self.shortcuts_help.toggle();
            },
            AppCommand::ProjectSearch => {
                self.project_search.show();
            },
            _ => {},
        }
        effects
    }

    /// `self` is `old` after the confirmed `result` of the dialog that
    /// `action` opened, with effects `r`; besides what the answer changes,
    /// the parts in `also` may differ.
    pub open spec fn confirmed(
        &self,
        old: &App,
        result: ConfirmResult,
        action: Option<ConfirmAction>,
        r: Seq<EffectView>,
        also: Set<Part>,
    ) -> bool {
        match action {
            None => r.len() == 0 && self.keeps(old, also),
            Some(a) => match result {
                ConfirmResult::Save => match a {
                    ConfirmAction::CloseTab(_) => self.keeps(old, also) && r == seq![
                        EffectView::SaveActiveTab,
                        EffectView::CloseActiveTab,
                    ],
                    ConfirmAction::Quit => self.keeps(old, also.insert(Part::Running)) && !self.running && r
                        == saves_of(old.editor.tabs@, old.editor.tabs.len() as int),
                    ConfirmAction::DeleteFile(p) => self.keeps(old, also) && r == seq![
                        EffectView::Trash(p@),
                        EffectView::RefreshTree,
                    ],
                },
                ConfirmResult::DontSave => r.len() == 0 && match a {
                    ConfirmAction::CloseTab(_) => self.keeps(old, also.insert(Part::Editor))
                        && self.editor.closed_active(&old.editor),
                    ConfirmAction::Quit => self.keeps(old, also.insert(Part::Running)) && !self.running,
                    ConfirmAction::DeleteFile(_) => self.keeps(old, also),
                },
                _ => r.len() == 0 && self.keeps(old, also),
            },
        }
    }

    /// Act on the answer of the confirm dialog that `action` opened.
    pub fn handle_confirm_result(&mut self, result: ConfirmResult, action: Option<ConfirmAction>) -> (r: Vec<
        Effect,
    >)
        requires
            old(self).wf(),
        ensures
            final(self).wf(),
            final(self).confirmed(old(self), result, action, r.deep_view(), Set::empty()),
    {
        let ghost before = *self;
        let mut effects: Vec<Effect> = Vec::new();
        let action = match action {
            Some(a) => a,
            None => {
                return effects;
            },
        };
        match result {
            ConfirmResult::Save => {
                match action {
                    ConfirmAction::CloseTab(_) => {
                        push_effect(&mut effects, Effect::SaveActiveTab);
                        push_effect(&mut effects, Effect::CloseActiveTab);
                        assert(effects.deep_view() =~= seq![EffectView::SaveActiveTab, EffectView::CloseActiveTab]);
                    },
                    ConfirmAction::Quit => {
                        let mut i: usize = 0;
                        while i < self.editor.tabs.len()
                            invariant
                                self.editor.tabs == before.editor.tabs,
                                i <= self.editor.tabs.len(),
                                effects.deep_view() == saves_of(self.editor.tabs@, i as int),
                            decreases self.editor.tabs.len() - i,
                        {
                            if self.editor.tabs[i].is_modified() {
                                push_effect(&mut effects, Effect::SaveTab(i));
                            }
                            i += 1;
                            proof {
                                reveal_with_fuel(saves_of, 2);
                            }
                        }
                        self.running = false;
                    },
                    ConfirmAction::DeleteFile(path) => {
                        let ghost first = EffectView::Trash(path@);
                        push_effect(&mut effects, Effect::Trash(path));
                        push_effect(&mut effects, Effect::RefreshTree);
                        assert(effects.deep_view() =~= seq![first, EffectView::RefreshTree]);
                    },
                }
            },
            ConfirmResult::DontSave => {
                match action {
                    ConfirmAction::CloseTab(_) => {
                        let _ = self.editor.close_active_tab();
                    },
                    ConfirmAction::Quit => {
                        self.running = false;
                    },
                    ConfirmAction::DeleteFile(_) => {},
                }
            },
            ConfirmResult::Cancel | ConfirmResult::Pending => {},
        }
        effects
    }

    /// The file at `path` was read into `content`: open it in a new, active
    /// tab, move to `line` when one is given, and tell the language server.
    pub fn file_opened(&mut self, path: String, content: TabContent, line: Option<usize>) -> (r: Vec<Effect>)
        requires
            old(self).wf(),
        ensures
            final(self).wf(),
            final(self).keeps(old(self), set![Part::Editor]),
            r.deep_view() == seq![EffectView::LspDidOpen(path@)],
            final(self).editor.tabs.len() == old(self).editor.tabs.len() + 1,
            final(self).editor.tab_bar.active == old(self).editor.tabs.len(),
            final(self).editor.tab_bar.tabs@.last().name@ == tab_name(path@),
            final(self).editor.theme == old(self).editor.theme,
            forall|j: int| 0 <= j < old(self).editor.tabs.len() ==> #[trigger] final(self).editor.tabs@[j] == old(self).editor.tabs@[j],
            match line {
                None => final(self).editor.tabs@.last() == content,
                Some(l) => jumped(final(self).editor.tabs@.last(), content, l),
            },
            old(self).histories_consistent() && content.history_consistent() ==> final(self).histories_consistent(),
    {
        let ghost tab = content;
        let ghost before = *self;
        self.editor.push_tab(path.as_str(), content);
        if let Some(l) = line {
            self.editor.jump_active_to_line(l);
        }
        let mut effects: Vec<Effect> = Vec::new();
        push_effect(&mut effects, Effect::LspDidOpen(path));
        assert(effects.deep_view() =~= seq![effects@[0].deep_view()]);
        proof {
            if before.histories_consistent() && tab.history_consistent() {
                let n = before.editor.tabs.len() as int;
                assert(self.editor.tabs@.last() == self.editor.tabs@[n]);
                assert forall|i: int| 0 <= i < self.editor.tabs.len() implies (#[trigger] self.editor.tabs@[i]).history_consistent() by {
                    if i < n {
                        assert(before.editor.tabs@[i].history_consistent());
                    }
                }
            }
        }
        effects
    }

    /// The file could not be read: move the active buffer to `line` when
    /// one is given, as a jump after opening does.
    pub fn file_open_failed(&mut self, line: Option<usize>)
        requires
            old(self).wf(),
        ensures
            final(self).wf(),
            final(self).keeps(old(self), set![Part::Editor]),
            match line {
                None => final(self).editor == old(self).editor,
                Some(l) => final(self).editor.others_same(&old(self).editor) && match old(self).editor.active_tab() {
                    Some(t) => jumped(final(self).editor.tabs@[old(self).editor.tab_bar.active as int], t, l),
                    None => final(self).editor.tabs == old(self).editor.tabs,
                },
            },
    {
        if let Some(l) = line {
            self.editor.jump_active_to_line(l);
        }
    }

    /// Completions arrived from the language server: show them at the
    /// cursor of the active buffer, filtered by the word typed before it.
    pub fn completions_arrived(&mut self, items: Vec<CompletionItem>)
        requires
            match old(self).editor.active_text() {
                Some(b) => {
                    &&& b.cursor.position.col >= b.horizontal_scroll
                    &&& b.cursor.position.line >= b.scroll_offset
                    &&& b.cursor.position.col - b.horizontal_scroll + gutter_for(b.text()) <= usize::MAX
                },
                None => true,
            },
        ensures
            final(self).keeps(old(self), set![Part::Completion]),
            match old(self).editor.active_text() {
                Some(b) => final(self).completion.shown_from_lsp(
                    &old(self).completion,
                    items.deep_view(),
                    (b.cursor.position.col - b.horizontal_scroll + gutter_for(b.text())) as u16,
                    (b.cursor.position.line - b.scroll_offset) as u16,
                    ({
                        let l = line_or_empty(b.text(), b.cursor.position.line as int);
                        let c = if b.cursor.position.col <= l.len() { b.cursor.position.col as int } else { l.len() as int };
                        l.subrange(word_start(l, c), c)
                    }),
                ),
                None => final(self).completion == old(self).completion,
            },
    {
        let ghost view = items.deep_view();
        let (x, y, prefix) = match self.editor.active_buffer() {
            Some(b) => {
                let (x, y) = b.cursor_screen_position();
                (x, y, b.word_before_cursor())
            },
            None => {
                return;
            },
        };
        self.completion.show_from_lsp(items, x, y, prefix);
    }

    /// The project search that was asked for found `results`.
    pub fn search_finished(&mut self, results: Vec<SearchResult>)
        requires
            old(self).wf(),
            forall|i: int| 0 <= i < results.len() ==> #[trigger] results@[i].line_number >= 1,
        ensures
            final(self).wf(),
            final(self).keeps(old(self), set![Part::Search]),
            final(self).project_search.results == results,
            final(self).project_search.selected == 0,
            final(self).project_search.query == old(self).project_search.query,
            final(self).project_search.visible == old(self).project_search.visible,
    {
        self.project_search.set_results(results);
    }

    /// The file at `path` changed on disk and now holds `content`: every
    /// text tab of that file without unsaved changes is reloaded.
    pub fn file_modified(&mut self, path: &str, content: &str)
        requires
            old(self).wf(),
        ensures
            final(self).wf(),
            final(self).keeps(old(self), set![Part::Editor]),
            final(self).editor.tab_bar == old(self).editor.tab_bar,
            final(self).editor.theme == old(self).editor.theme,
            final(self).editor.tabs.len() == old(self).editor.tabs.len(),
            forall|j: int|
                0 <= j < old(self).editor.tabs.len() ==> if stale(old(self).editor.tabs@[j], path@) {
                    #[trigger] final(self).editor.tabs@[j] matches TabContent::Text(b1) && reloaded(b1, path@, content@)
                } else {
                    final(self).editor.tabs@[j] == old(self).editor.tabs@[j]
                },
    {
        let ghost before = self.editor.tabs@;
        let mut i: usize = 0;
        while i < self.editor.tabs.len()
            invariant
                self.editor.tabs.len() == before.len(),
                i <= before.len(),
                self.editor.tab_bar == old(self).editor.tab_bar,
                self.editor.theme == old(self).editor.theme,
                self.editor.wf(),
                self.keeps(old(self), set![Part::Editor]),
                before == old(self).editor.tabs@,
                forall|j: int|
                    0 <= j < i ==> if stale(before[j], path@) {
                        #[trigger] self.editor.tabs@[j] matches TabContent::Text(b1) && reloaded(b1, path@, content@)
                    } else {
                        self.editor.tabs@[j] == before[j]
                    },
                forall|j: int| i <= j < before.len() ==> #[trigger] self.editor.tabs@[j] == before[j],
            decreases before.len() - i,
        {
            let is_stale = match &self.editor.tabs[i] {
                TabContent::Text(b) => match &b.document.file_path {
                    Some(p) => string_is(p, path) && !b.document.modified,
                    None => false,
                },
                TabContent::Csv(_) => false,
            };
            if is_stale {
                let fresh = Buffer::with_document(Document::with_path(path, content));
                self.editor.tabs.set(i, TabContent::Text(fresh));
            }
            i += 1;
        }
    }

    /// Every open text tab's undo history fits its text.
    pub open spec fn histories_consistent(&self) -> bool {
        self.editor.histories_consistent()
    }

    /// Handling `action` keeps the histories fitting their texts: the active
    /// tab keeps its own (see [`Buffer::keeps_history`]), and an accepted
    /// completion is typed, with no line break in it, in a text whose only
    /// break is `'\n'`, from where the edit starts on its line.
    pub open spec fn keeps_histories(&self, action: Action) -> bool {
        &&& self.editor.keeps_histories(action)
        &&& (self.completion.visible && action is CompletionAccept && self.completion.selected
            < self.completion.items.len()) ==> match self.editor.active_text() {
            Some(b) => lf_only(b.text()) && b.edit_on_line() && no_breaks(
                without_snippets(self.completion.items@[self.completion.selected as int].insert_text@),
            ),
            None => true,
        }
    }

    /// What handling `action` needs of the state so as not to leave the
    /// text or the machine's integers: the active tab is ready for it, the
    /// shortcuts overlay can scroll a page, and an accepted completion can
    /// be typed in place of the typed prefix.
    pub open spec fn ready_for(&self, action: Action) -> bool {
        &&& self.wf()
        &&& (self.shortcuts_help.visible ==> self.shortcuts_help.ready_for(action))
        &&& match self.editor.active_tab() {
            Some(t) => t.ready_for(action),
            None => true,
        }
        &&& (self.completion.visible && action is CompletionAccept && self.completion.selected
            < self.completion.items.len()) ==> match self.editor.active_text() {
            Some(b) => retype_ok(
                b.text(),
                b.cursor.position,
                b.cursor.selection,
                self.completion.trigger_prefix@.len(),
                without_snippets(self.completion.items@[self.completion.selected as int].insert_text@),
            ),
            None => true,
        }
    }

    /// What the language server is told after `action` reached the editor:
    /// the new text after an edit, and a completion request after `.` or
    /// `(`; nothing unless the editor has the focus and no completions
    /// are shown.
    pub open spec fn edit_notices(&self, action: Action) -> Seq<EffectView> {
        if self.focus == FocusArea::Editor && !self.completion.visible {
            (if is_edit(action) {
                self.change_effects()
            } else {
                Seq::empty()
            }) + (if is_completion_trigger(action) {
                self.completion_request()
            } else {
                Seq::empty()
            })
        } else {
            Seq::empty()
        }
    }

    /// `self` is `old` after the open completion popup handled `action`: an
    /// accepted item replaces the typed prefix in the active buffer, with
    /// its snippet placeholders removed, and the popup closes.
    pub open spec fn completion_stepped(&self, old: &App, action: Action) -> bool {
        if action is CompletionAccept && old.completion.selected < old.completion.items.len() {
            let item = old.completion.items@[old.completion.selected as int];
            &&& self.keeps(old, set![Part::Completion, Part::Editor])
            &&& !self.completion.visible
            &&& self.completion.items.len() == 0
            &&& self.completion.full_items.len() == 0
            &&& self.completion.selected == 0
            &&& self.completion.trigger_prefix == old.completion.trigger_prefix
            &&& self.editor.wf()
            &&& self.editor.others_same(&old.editor)
            &&& match old.editor.active_text() {
                Some(b0) => self.editor.active_text() matches Some(b1) && (b1.text(), b1.cursor.position)
                    == retyped(
                    b0.text(),
                    b0.cursor.position,
                    b0.cursor.selection,
                    old.completion.trigger_prefix@.len(),
                    without_snippets(item.insert_text@),
                ) && (b0.history_consistent() && lf_only(b0.text()) && b0.edit_on_line() && no_breaks(
                    without_snippets(item.insert_text@),
                ) ==> b1.history_consistent()),
                None => self.editor.tabs == old.editor.tabs,
            }
        } else {
            self.keeps(old, set![Part::Completion]) && self.completion.handled(
                &old.completion,
                action,
                AppCommand::Nothing,
            )
        }
    }

    /// `self` is `old` after `action` went to the global keys, the command
    /// palette, the completion popup or the focused component, which
    /// answered `cmd`.
    pub open spec fn stepped(&self, old: &App, action: Action, cmd: AppCommand) -> bool {
        match global_command(action) {
            Some(c) => cmd == c && *self == *old,
            None => if old.command_palette.visible {
                self.keeps(old, set![Part::Palette]) && self.command_palette.handled(
                    &old.command_palette,
                    action,
                    cmd,
                )
            } else if old.completion.visible {
                cmd == AppCommand::Nothing && self.completion_stepped(old, action)
            } else {
                match old.focus {
                    FocusArea::Sidebar => self.keeps(old, set![Part::Sidebar]) && self.sidebar.handled(
                        &old.sidebar,
                        action,
                        cmd,
                    ),
                    FocusArea::Editor => self.keeps(old, set![Part::Editor]) && self.editor.handled(
                        &old.editor,
                        action,
                        cmd,
                    ),
                    _ => cmd == AppCommand::Nothing && *self == *old,
                }
            },
        }
    }

    /// `self` is `old` after the open project search handled `action`: it
    /// edits the query (asking for a search), moves the selection, opens
    /// the selected result at its line, or closes; it keeps everything else.
    pub open spec fn searched(&self, old: &App, action: Action, r: Seq<EffectView>) -> bool {
        match action {
            Action::InsertChar(ch) => {
                &&& self.keeps(old, set![Part::Search])
                &&& self.project_search.query@ == old.project_search.query@.push(ch)
                &&& self.project_search.results.len() == 0
                &&& self.project_search.selected == 0
                &&& self.project_search.visible == old.project_search.visible
                &&& r == search_request(self.project_search.query@)
            },
            Action::DeleteBackward => {
                &&& self.keeps(old, set![Part::Search])
                &&& self.project_search.query@ == if old.project_search.query@.len() > 0 {
                    old.project_search.query@.drop_last()
                } else {
                    old.project_search.query@
                }
                &&& self.project_search.results.len() == 0
                &&& self.project_search.selected == 0
                &&& self.project_search.visible == old.project_search.visible
                &&& r == search_request(self.project_search.query@)
            },
            Action::CursorDown | Action::TreeDown => {
                &&& r.len() == 0
                &&& self.keeps(old, set![Part::Search])
                &&& self.project_search == ProjectSearch {
                    selected: if old.project_search.results.len() == 0 {
                        old.project_search.selected
                    } else {
                        ((old.project_search.selected + 1) % (old.project_search.results.len() as int)) as usize
                    },
                    ..old.project_search
                }
            },
            Action::CursorUp | Action::TreeUp => {
                &&& r.len() == 0
                &&& self.keeps(old, set![Part::Search])
                &&& self.project_search == ProjectSearch {
                    selected: if old.project_search.results.len() == 0 {
                        old.project_search.selected
                    } else if old.project_search.selected == 0 {
                        (old.project_search.results.len() - 1) as usize
                    } else {
                        (old.project_search.selected - 1) as usize
                    },
                    ..old.project_search
                }
            },
            Action::InsertNewline | Action::TreeOpen => if old.project_search.selected
                < old.project_search.results.len() {
                let found = old.project_search.results@[old.project_search.selected as int];
                self.opened(
                    &App { project_search: ProjectSearch { visible: false, ..old.project_search }, ..*old },
                    found.path@,
                    Some((found.line_number - 1) as usize),
                    r,
                )
            } else {
                r.len() == 0 && *self == *old
            },
            Action::FocusNext | Action::CompletionDismiss | Action::PaletteDismiss => {
                &&& r.len() == 0
                &&& self.keeps(old, set![Part::Search])
                &&& self.project_search == ProjectSearch { visible: false, ..old.project_search }
            },
            _ => r.len() == 0 && *self == *old,
        }
    }

    /// `self` is `old` after the open confirm dialog took `action`: it moves
    /// between its choices, is answered (and the answer acted on), or is
    /// dismissed; every other action is swallowed.
    pub open spec fn answered(&self, old: &App, action: Action, r: Seq<EffectView>) -> bool {
        match action {
            Action::CursorLeft | Action::TreeUp | Action::CompletionUp => {
                &&& r.len() == 0
                &&& self.keeps(old, set![Part::Confirm])
                &&& self.confirm_dialog == ConfirmDialog {
                    selected: previous_choice(old.confirm_dialog.selected),
                    ..old.confirm_dialog
                }
            },
            Action::CursorRight | Action::TreeDown | Action::CompletionDown | Action::FocusNext => {
                &&& r.len() == 0
                &&& self.keeps(old, set![Part::Confirm])
                &&& self.confirm_dialog == ConfirmDialog {
                    selected: next_choice(old.confirm_dialog.selected),
                    ..old.confirm_dialog
                }
            },
            Action::InsertNewline | Action::TreeOpen | Action::CompletionAccept => {
                &&& !self.confirm_dialog.visible
                &&& self.confirm_dialog.action is None
                &&& self.confirm_dialog.file_name@.len() == 0
                &&& self.confirm_dialog.selected == old.confirm_dialog.selected
                &&& self.confirmed(
                    old,
                    result_of(old.confirm_dialog.selected),
                    old.confirm_dialog.action,
                    r,
                    set![Part::Confirm],
                )
            },
            Action::CompletionDismiss | Action::PaletteDismiss => {
                &&& r.len() == 0
                &&& self.keeps(old, set![Part::Confirm])
                &&& !self.confirm_dialog.visible
                &&& self.confirm_dialog.action is None
                &&& self.confirm_dialog.file_name@.len() == 0
                &&& self.confirm_dialog.selected == old.confirm_dialog.selected
            },
            _ => r.len() == 0 && *self == *old,
        }
    }

    /// `self` is `old` after `action` went past the dialog and the
    /// shortcuts overlay: a file drop copies the files into the selected
    /// directory (the project root when none is selected); "focus next"
    /// closes an open sidebar input, and it or "dismiss" closes an open
    /// editor bar; the project search takes everything while it is open;
    /// otherwise the action is handled and its command executed, and the
    /// language server hears of edits.
    pub open spec fn routed(&self, old: &App, action: Action, r: Seq<EffectView>) -> bool {
        if action is FileDrop {
            &&& *self == *old
            &&& r == drop_effects(
                Seq::new(action->FileDrop_0.len() as nat, |i: int| action->FileDrop_0@[i]@),
                match selected_parent_of(old.sidebar.tree) {
                    Some(d) => d,
                    None => old.root_dir@,
                },
            )
        } else if action is FocusNext && old.focus == FocusArea::Sidebar && (old.sidebar.rename_input is Some
            || old.sidebar.new_file_input is Some) {
            &&& r.len() == 0
            &&& self.keeps(old, set![Part::Sidebar])
            &&& self.sidebar.rename_input is None
            &&& self.sidebar.new_file_input is None
            &&& self.sidebar.input_buffer@.len() == 0
            &&& self.sidebar.tree == old.sidebar.tree
            &&& self.sidebar.clipboard == old.sidebar.clipboard
            &&& self.sidebar.visible == old.sidebar.visible
            &&& self.sidebar.width == old.sidebar.width
        } else if (action is FocusNext || action is CompletionDismiss) && old.focus == FocusArea::Editor && (
        old.editor.active_text() matches Some(b) && (b.search.active || b.goto_line.active)) {
            &&& r.len() == 0
            &&& self.keeps(old, set![Part::Editor])
            &&& self.editor.bar_dismissed(&old.editor, true)
        } else if old.project_search.visible {
            self.searched(old, action, r)
        } else {
            exists|mid: App, cmd: AppCommand, r1: Seq<EffectView>|
                mid.stepped(old, action, cmd) && #[trigger] self.executed(&mid, cmd, r1) && r == r1
                    + self.edit_notices(action)
        }
    }

    /// `self` is `old` after handling `action`, which asked for the effects
    /// `r`: the confirm dialog takes every action while it is shown, then
    /// the shortcuts overlay takes all but `Quit` (which closes it and goes
    /// on), and the rest is routed.
    pub open spec fn dispatched(&self, old: &App, action: Action, r: Seq<EffectView>) -> bool {
        if action is Noop {
            *self == *old && r.len() == 0
        } else if old.confirm_dialog.visible {
            self.answered(old, action, r)
        } else if old.shortcuts_help.visible && !(action is Quit) {
            &&& r.len() == 0
            &&& self.keeps(old, set![Part::Help])
            &&& self.shortcuts_help.handled(&old.shortcuts_help, action, true)
        } else if old.shortcuts_help.visible {
            self.routed(&App { shortcuts_help: ShortcutsHelp { visible: false, scroll: 0 }, ..*old }, action, r)
        } else {
            self.routed(old, action, r)
        }
    }

    /// The effects that tell the language server of an edit, as
    /// [`App::edit_notices`] says.
    fn edit_notices_of(&self, action: &Action) -> (r: Vec<Effect>)
        ensures
            r.deep_view() == self.edit_notices(*action),
    {
        let mut effects: Vec<Effect> = Vec::new();
        if matches!(self.focus, FocusArea::Editor) && !self.completion.visible {
            let edit = match action {
                Action::InsertChar(_) | Action::DeleteBackward | Action::DeleteForward | Action::InsertNewline
                | Action::InsertTab | Action::PasteText(_) => true,
                _ => false,
            };
            if edit {
                if let Some(e) = self.change_effect() {
                    push_effect(&mut effects, e);
                }
            }
            let ghost first = effects.deep_view();
            let trigger = match action {
                Action::InsertChar(c) => *c == '.' || *c == '(',
                _ => false,
            };
            if trigger {
                if let Some(e) = self.completion_effect() {
                    push_effect(&mut effects, e);
                }
            }
            assert(effects.deep_view() =~= first + if is_completion_trigger(*action) {
                self.completion_request()
            } else {
                Seq::empty()
            });
            assert(first =~= if is_edit(*action) {
                self.change_effects()
            } else {
                Seq::empty()
            });
        }
        effects
    }

    /// The copies that dropping `paths` onto directory `dir` asks for.
    fn drop_copies(paths: &Vec<String>, dir: &str) -> (r: Vec<Effect>)
        ensures
            r.deep_view() == drop_effects(Seq::new(paths.len() as nat, |i: int| paths@[i]@), dir@),
    {
        let ghost ps = Seq::new(paths.len() as nat, |i: int| paths@[i]@);
        let mut effects: Vec<Effect> = Vec::new();
        let mut i: usize = 0;
        while i < paths.len()
            invariant
                i <= paths.len(),
                ps == Seq::new(paths.len() as nat, |i: int| paths@[i]@),
                effects.deep_view() =~= drop_effects(ps, dir@).take(i as int),
            decreases paths.len() - i,
        {
            let name = match path_file_name(paths[i].as_str()) {
                Some(n) => n,
                None => String::new(),
            };
            let to = path_join(dir, name.as_str());
            push_effect(&mut effects, Effect::Copy { from: paths[i].clone(), to });
            i += 1;
            assert(effects.deep_view() =~= drop_effects(ps, dir@).take(i as int));
        }
        push_effect(&mut effects, Effect::RefreshTree);
        assert(effects.deep_view() =~= drop_effects(ps, dir@));
        effects
    }

    /// Whether `action` can be handed to [`App::dispatch_action`]: exactly
    /// what [`App::ready_for`] asks.
    pub fn is_ready_for(&self, action: &Action) -> (r: bool)
        ensures
            r == self.ready_for(*action),
    {
        let n = self.editor.tab_bar.tabs.len();
        if self.editor.tabs.len() != n || (n > 0 && self.editor.tab_bar.active >= n) {
            return false;
        }
        let mut k: usize = 0;
        while k < self.project_search.results.len()
            invariant
                k <= self.project_search.results.len(),
                forall|i: int| 0 <= i < k ==> #[trigger] self.project_search.results@[i].line_number >= 1,
            decreases self.project_search.results.len() - k,
        {
            if self.project_search.results[k].line_number == 0 {
                return false;
            }
            k += 1;
        }
        if self.shortcuts_help.visible && !self.shortcuts_help.is_ready_for(action) {
            return false;
        }
        let idx = self.editor.tab_bar.active;
        if idx < self.editor.tabs.len() && !self.editor.tabs[idx].is_ready_for(action) {
            return false;
        }
        if self.completion.visible && matches!(action, Action::CompletionAccept) && self.completion.selected
            < self.completion.items.len() {
            match self.editor.active_buffer() {
                Some(b) => {
                    let text = strip_snippets(self.completion.items[self.completion.selected].insert_text.as_str());
                    let k = chars_of(self.completion.trigger_prefix.as_str()).len();
                    return retype_fits(b, k, text.as_str());
                },
                None => {},
            }
        }
        true
    }

    /// Handle a user action: the overlays and dialogs take it first while
    /// they are shown, global keys become commands, and the rest goes to
    /// the focused component; the resulting command is executed. Returns
    /// the outside work to be done, in order.
    pub fn dispatch_action(&mut self, action: Action) -> (r: Vec<Effect>)
        requires
            old(self).ready_for(action),
        ensures
            final(self).wf(),
            final(self).dispatched(old(self), action, r.deep_view()),
            old(self).histories_consistent() && old(self).keeps_histories(action) ==> final(self).histories_consistent(),
    {
        let ghost before = *self;
        let mut effects: Vec<Effect> = Vec::new();
        if matches!(action, Action::Noop) {
            proof {
                if before.histories_consistent() && before.keeps_histories(action) {
                    lemma_dispatched_keeps_histories(before, *self, action, effects.deep_view());
                }
            }
            return effects;
        }
        if self.confirm_dialog.visible {
            match &action {
                Action::CursorLeft | Action::TreeUp | Action::CompletionUp => {
                    self.confirm_dialog.select_previous();
                },
                Action::CursorRight | Action::TreeDown | Action::CompletionDown | Action::FocusNext => {
                    self.confirm_dialog.select_next();
                },
                Action::InsertNewline | Action::TreeOpen | Action::CompletionAccept => {
                    let result = self.confirm_dialog.accept();
                    let pending = self.confirm_dialog.action.take();
                    self.confirm_dialog.close();
                    effects = self.handle_confirm_result(result, pending);
                },
                Action::CompletionDismiss | Action::PaletteDismiss => {
                    self.confirm_dialog.close();
                },
                _ => {},
            }
            proof {
                if before.histories_consistent() && before.keeps_histories(action) {
                    lemma_dispatched_keeps_histories(before, *self, action, effects.deep_view());
                }
            }
            return effects;
        }
        if self.shortcuts_help.visible {
            let consumed = self.shortcuts_help.handle_action(&action);
            if consumed {
                proof {
                    if before.histories_consistent() && before.keeps_histories(action) {
                        lemma_dispatched_keeps_histories(before, *self, action, effects.deep_view());
                    }
                }
                return effects;
            }
        }
        let ghost from = *self;
        if let Action::FileDrop(paths) = &action {
            let dir = match self.sidebar.selected_parent_dir() {
                Some(d) => d,
                None => self.root_dir.clone(),
            };
            let copies = Self::drop_copies(paths, dir.as_str());
            proof {
                if before.histories_consistent() && before.keeps_histories(action) {
                    lemma_dispatched_keeps_histories(before, *self, action, copies.deep_view());
                }
            }
            return copies;
        }
        if matches!(action, Action::FocusNext) && matches!(self.focus, FocusArea::Sidebar)
            && self.sidebar.is_in_input_mode() {
            self.sidebar.cancel_input();
            proof {
                if before.histories_consistent() && before.keeps_histories(action) {
                    lemma_dispatched_keeps_histories(before, *self, action, effects.deep_view());
                }
            }
            return effects;
        }
        if matches!(action, Action::FocusNext | Action::CompletionDismiss) && matches!(self.focus, FocusArea::Editor)
            && (self.editor.search_active() || self.editor.goto_line_active()) {
            let _ = self.editor.dismiss_bar();
            proof {
                if before.histories_consistent() && before.keeps_histories(action) {
                    lemma_dispatched_keeps_histories(before, *self, action, effects.deep_view());
                }
            }
            return effects;
        }
        if self.project_search.visible {
            match &action {
                Action::InsertChar(ch) => {
                    if self.project_search.push_char(*ch) {
                        push_effect(&mut effects, Effect::SearchProject(self.project_search.query.clone()));
                    }
                    assert(effects.deep_view() =~= search_request(self.project_search.query@));
                },
                Action::DeleteBackward => {
                    if self.project_search.pop_char() {
                        push_effect(&mut effects, Effect::SearchProject(self.project_search.query.clone()));
                    }
                    assert(effects.deep_view() =~= search_request(self.project_search.query@));
                },
                Action::CursorDown | Action::TreeDown => {
                    self.project_search.select_next();
                },
                Action::CursorUp | Action::TreeUp => {
                    self.project_search.select_previous();
                },
                Action::InsertNewline | Action::TreeOpen => {
                    if let Some((path, line)) = self.project_search.accept() {
                        self.project_search.close();
                        effects = self.open_path(path, Some(line));
                    }
                },
                Action::FocusNext | Action::CompletionDismiss | Action::PaletteDismiss => {
                    self.project_search.close();
                },
                _ => {},
            }
            proof {
                if before.histories_consistent() && before.keeps_histories(action) {
                    lemma_dispatched_keeps_histories(before, *self, action, effects.deep_view());
                }
            }
            return effects;
        }
        let command = match global_command_of(&action) {
            Some(c) => c,
            None => if self.command_palette.visible {
                self.command_palette.handle_action(&action)
            } else if self.completion.visible {
                let cmd = self.completion.handle_action(&action);
                if matches!(action, Action::CompletionAccept) {
                    let accepted = match self.completion.accept() {
                        Some(item) => Some(strip_snippets(item.insert_text.as_str())),
                        None => None,
                    };
                    if let Some(text) = accepted {
                        let prefix_len = chars_of(self.completion.trigger_prefix.as_str()).len();
                        self.completion.close();
                        self.editor.retype_active(prefix_len, text.as_str());
                    }
                }
                cmd
            } else {
                match self.focus {
                    FocusArea::Sidebar => self.sidebar.handle_action(&action),
                    FocusArea::Editor => self.editor.handle_action(&action),
                    _ => AppCommand::Nothing,
                }
            },
        };
        let ghost mid = *self;
        let ghost cmd = command;
        let executed = self.execute_command(command);
        let ghost r1 = executed.deep_view();
        effects = executed;
        let notices = self.edit_notices_of(&action);
        append_effects(&mut effects, notices);
        proof {
            assert(mid.stepped(&from, action, cmd));
            assert(self.executed(&mid, cmd, r1));
            if before.histories_consistent() && before.keeps_histories(action) {
                lemma_dispatched_keeps_histories(before, *self, action, effects.deep_view());
            }
        }
        effects
    }

    /// `self` is `old` after asking to open `path` and, when `line` is
    /// given, to move to that line: a tab already open under the file's
    /// name becomes active (and moves); otherwise the file is to be read.
    /// Either way the editor gets the focus.
    pub open spec fn opened(&self, old: &App, path: Seq<char>, line: Option<usize>, r: Seq<EffectView>) -> bool {
        &&& self.focus == FocusArea::Editor
        &&& self.keeps(old, set![Part::Editor, Part::Focus])
        &&& self.editor.wf()
        &&& if exists|i: int|
            0 <= i < old.editor.tab_bar.tabs.len() && #[trigger] old.editor.tab_bar.tabs@[i].name@ == tab_name(
                path,
            ) {
            let idx = self.editor.tab_bar.active as int;
            &&& r == seq![EffectView::LspDidOpen(path)]
            &&& self.editor.tab_bar.tabs@ == old.editor.tab_bar.tabs@
            &&& self.editor.tab_bar.tabs@[idx].name@ == tab_name(path)
            &&& self.editor.theme == old.editor.theme
            &&& self.editor.tabs.len() == old.editor.tabs.len()
            &&& forall|j: int|
                0 <= j < old.editor.tabs.len() && j != idx ==> #[trigger] self.editor.tabs@[j] == old.editor.tabs@[j]
            &&& match line {
                None => self.editor.tabs@[idx] == old.editor.tabs@[idx],
                Some(l) => jumped(self.editor.tabs@[idx], old.editor.tabs@[idx], l),
            }
        } else {
            &&& r == seq![EffectView::OpenFile { path, line }]
            &&& self.editor == old.editor
        }
    }

    /// Open `path` as [`App::opened`] says.
    fn open_path(&mut self, path: String, line: Option<usize>) -> (r: Vec<Effect>)
        requires
            old(self).wf(),
        ensures
            final(self).wf(),
            final(self).opened(old(self), path@, line, r.deep_view()),
    {
        let mut effects: Vec<Effect> = Vec::new();
        let ghost before = *self;
        let found = self.editor.select_open_tab(path.as_str());
        if found {
            let ghost mid = self.editor;
            if let Some(l) = line {
                self.editor.jump_active_to_line(l);
            }
            proof {
                let idx = mid.tab_bar.active as int;
                assert(mid.tabs@[idx] == before.editor.tabs@[idx]);
            }
            effects.push(Effect::LspDidOpen(path));
        } else {
            effects.push(Effect::OpenFile { path, line });
        }
        self.focus = FocusArea::Editor;
        proof {
            assert(effects.deep_view() =~= seq![effects@[0].deep_view()]);
        }
        effects
    }
}

/// `text` with its snippet placeholders removed: `$` followed by digits,
/// and `${...}` up to its closing brace (or the end), are dropped.
pub open spec fn without_snippets(s: Seq<char>) -> Seq<char>
    decreases s.len(),
{
    if s.len() == 0 {
        s
    } else if s[0] == '$' {
        let rest = s.drop_first();
        if rest.len() > 0 && rest[0] == '{' {
            proof {
                lemma_after_brace_len(rest.drop_first());
            }
            without_snippets(after_brace(rest.drop_first()))
        } else {
            proof {
                lemma_leading_digits_len(rest);
            }
            without_snippets(rest.skip(leading_digits(rest) as int))
        }
    } else {
        seq![s[0]] + without_snippets(s.drop_first())
    }
}

/// What follows the first `}` of `s`; nothing when there is none.
pub open spec fn after_brace(s: Seq<char>) -> Seq<char>
    decreases s.len(),
{
    if s.len() == 0 {
        s
    } else if s[0] == '}' {
        s.drop_first()
    } else {
        after_brace(s.drop_first())
    }
}

/// The number of ASCII digits at the start of `s`.
pub open spec fn leading_digits(s: Seq<char>) -> nat
    decreases s.len(),
{
    if s.len() > 0 && '0' <= s[0] && s[0] <= '9' { 1 + leading_digits(s.drop_first()) } else { 0 }
}

/// Dropping through the first closing brace never lengthens a text.
pub proof fn lemma_after_brace_len(s: Seq<char>)
    ensures
        after_brace(s).len() <= s.len(),
    decreases s.len(),
{
    if s.len() > 0 && s[0] != '}' {
        lemma_after_brace_len(s.drop_first());
    }
}

/// A text has no more leading digits than characters.
pub proof fn lemma_leading_digits_len(s: Seq<char>)
    ensures
        leading_digits(s) <= s.len(),
    decreases s.len(),
{
    if s.len() > 0 {
        lemma_leading_digits_len(s.drop_first());
    }
}

proof fn lemma_digits_exact(s: Seq<char>, k: int)
    requires
        0 <= k <= s.len(),
        forall|m: int| 0 <= m < k ==> '0' <= #[trigger] s[m] && s[m] <= '9',
        k == s.len() || !('0' <= s[k] && s[k] <= '9'),
    ensures
        leading_digits(s) == k,
    decreases k,
{
    if k > 0 {
        assert forall|m: int| 0 <= m < k - 1 implies '0' <= #[trigger] s.drop_first()[m] && s.drop_first()[m] <= '9' by {
            assert(s.drop_first()[m] == s[m + 1]);
        }
        lemma_digits_exact(s.drop_first(), k - 1);
    }
}

proof fn lemma_after_brace_at(s: Seq<char>, j: int)
    requires
        0 <= j <= s.len(),
        forall|m: int| 0 <= m < j ==> #[trigger] s[m] != '}',
    ensures
        after_brace(s) == if j < s.len() && s[j] == '}' { s.skip(j + 1) } else { after_brace(s.skip(j)) },
    decreases j,
{
    if j == 0 {
        assert(s.skip(0) =~= s);
        if s.len() > 0 && s[0] == '}' {
            assert(s.drop_first() =~= s.skip(1));
        }
    } else {
        assert(s[0] != '}');
        assert forall|m: int| 0 <= m < j - 1 implies #[trigger] s.drop_first()[m] != '}' by {
            assert(s.drop_first()[m] == s[m + 1]);
        }
        lemma_after_brace_at(s.drop_first(), j - 1);
        assert(s.drop_first().skip(j - 1) =~= s.skip(j));
        if j < s.len() {
            assert(s.drop_first().skip(j) =~= s.skip(j + 1));
        }
    }
}

/// Strip LSP/VS Code snippet placeholder markers (`$0`, `$1`, `${1:text}`)
/// from a completion insert text so they are not inserted literally.
pub fn strip_snippets(text: &str) -> (r: String)
    ensures
        r@ == without_snippets(text@),
{
    let chars = chars_of(text);
    let mut out = String::new();
    let mut i: usize = 0;
    assert(text@.skip(0) =~= text@);
    while i < chars.len()
        invariant
            chars@ == text@,
            i <= chars.len(),
            out@ + without_snippets(text@.skip(i as int)) == without_snippets(text@),
        decreases chars.len() - i,
    {
        let ghost rest = text@.skip(i as int);
        let ch = chars[i];
        assert(rest[0] == ch);
        assert(rest.drop_first() =~= text@.skip(i + 1));
        if ch == '$' {
            if i + 1 < chars.len() && chars[i + 1] == '{' {
                let ghost body = text@.skip(i + 2);
                assert(rest.drop_first().drop_first() =~= body);
                let mut j = i + 2;
                while j < chars.len() && chars[j] != '}'
                    invariant
                        chars@ == text@,
                        i + 2 <= j <= chars.len(),
                        body == text@.skip(i + 2),
                        forall|m: int| 0 <= m < j - (i + 2) ==> #[trigger] body[m] != '}',
                    decreases chars.len() - j,
                {
                    assert(body[j - (i + 2)] == chars@[j as int]);
                    j += 1;
                }
                proof {
                    lemma_after_brace_at(body, j - (i + 2));
                    assert(body.skip(j - (i + 2)) =~= text@.skip(j as int));
                    if j < chars.len() {
                        assert(body[j - (i + 2)] == chars@[j as int]);
                        assert(body.skip(j - (i + 2) + 1) =~= text@.skip(j + 1));
                    } else {
                        assert(text@.skip(j as int).len() == 0);
                    }
                }
                if j < chars.len() {
                    j += 1;
                }
                i = j;
            } else {
                let ghost digits = text@.skip(i + 1);
                let mut j = i + 1;
                while j < chars.len() && '0' <= chars[j] && chars[j] <= '9'
                    invariant
                        chars@ == text@,
                        i + 1 <= j <= chars.len(),
                        digits == text@.skip(i + 1),
                        forall|m: int| 0 <= m < j - (i + 1) ==> '0' <= #[trigger] digits[m] && digits[m] <= '9',
                    decreases chars.len() - j,
                {
                    assert(digits[j - (i + 1)] == chars@[j as int]);
                    j += 1;
                }
                proof {
                    if j < chars.len() {
                        assert(digits[j - (i + 1)] == chars@[j as int]);
                    }
                    lemma_digits_exact(digits, j - (i + 1));
                    assert(digits.skip(j - (i + 1)) =~= text@.skip(j as int));
                }
                i = j;
            }
        } else {
            let ghost before = out@;
            string_push(&mut out, ch);
            assert(out@ + without_snippets(text@.skip(i + 1)) =~= before + (seq![ch] + without_snippets(
                text@.skip(i + 1),
            )));
            i += 1;
        }
    }
    assert(text@.skip(i as int) =~= Seq::<char>::empty());
    assert(out@ + Seq::<char>::empty() =~= out@);
    out
}

/// The language id the language server is told for a file extension.
pub open spec fn lang_id_for(ext: Seq<char>) -> Seq<char> {
    if ext == "rs"@ {
        "rust"@
    } else if ext == "ts"@ {
        "typescript"@
    } else if ext == "tsx"@ {
        "typescriptreact"@
    } else if ext == "js"@ {
        "javascript"@
    } else if ext == "jsx"@ {
        "javascriptreact"@
    } else if ext == "py"@ {
        "python"@
    } else if ext == "go"@ {
        "go"@
    } else if ext == "lua"@ {
        "lua"@
    } else if ext == "c"@ || ext == "h"@ {
        "c"@
    } else if ext == "cpp"@ || ext == "hpp"@ {
        "cpp"@
    } else if ext == "zig"@ {
        "zig"@
    } else if ext == "java"@ {
        "java"@
    } else {
        "plaintext"@
    }
}

/// Whether `s` is exactly the characters of `lit`.
fn chars_are(s: &Vec<char>, lit: &str) -> (r: bool)
    ensures
        r == (s@ == lit@),
{
    let l = chars_of(lit);
    if s.len() != l.len() {
        return false;
    }
    let mut i: usize = 0;
    while i < s.len()
        invariant
            s.len() == l.len(),
            l@ == lit@,
            i <= s.len(),
            forall|k: int| 0 <= k < i ==> s@[k] == l@[k],
        decreases s.len() - i,
    {
        if s[i] != l[i] {
            return false;
        }
        i += 1;
    }
    assert(s@ =~= l@);
    true
}

/// The language id the language server is told for a file extension.
pub fn ext_to_lang_id(ext: &str) -> (r: &'static str)
    ensures
        r@ == lang_id_for(ext@),
{
    let e = chars_of(ext);
    if chars_are(&e, "rs") {
        "rust"
    } else if chars_are(&e, "ts") {
        "typescript"
    } else if chars_are(&e, "tsx") {
        "typescriptreact"
    } else if chars_are(&e, "js") {
        "javascript"
    } else if chars_are(&e, "jsx") {
        "javascriptreact"
    } else if chars_are(&e, "py") {
        "python"
    } else if chars_are(&e, "go") {
        "go"
    } else if chars_are(&e, "lua") {
        "lua"
    } else if chars_are(&e, "c") || chars_are(&e, "h") {
        "c"
    } else if chars_are(&e, "cpp") || chars_are(&e, "hpp") {
        "cpp"
    } else if chars_are(&e, "zig") {
        "zig"
    } else if chars_are(&e, "java") {
        "java"
    } else {
        "plaintext"
    }
}

/// The `file://` URI of a path.
pub open spec fn uri_of(path: Seq<char>) -> Seq<char> {
    seq!['f', 'i', 'l', 'e', ':', '/', '/'] + path
}

/// The `file://` URI of a path.
pub fn file_uri(path: &str) -> (r: String)
    ensures
        r@ == uri_of(path@),
{
    let mut s = String::new();
    string_push(&mut s, 'f');
    string_push(&mut s, 'i');
    string_push(&mut s, 'l');
    string_push(&mut s, 'e');
    string_push(&mut s, ':');
    string_push(&mut s, '/');
    string_push(&mut s, '/');
    let chars = chars_of(path);
    let mut i: usize = 0;
    while i < chars.len()
        invariant
            chars@ == path@,
            i <= chars.len(),
            s@ == uri_of(path@.take(i as int)),
        decreases chars.len() - i,
    {
        string_push(&mut s, chars[i]);
        i += 1;
        assert(s@ =~= uri_of(path@.take(i as int)));
    }
    assert(path@.take(i as int) =~= path@);
    s
}

} // verus!
