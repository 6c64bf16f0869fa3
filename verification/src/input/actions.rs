//! The user actions that input events are mapped to, and the focus areas.
use vstd::prelude::*;

verus! {

/// Every possible user action in Pika.
/// Input events are mapped to Actions via the keymap.
#[derive(Debug, Clone, PartialEq, Eq)]
pub enum Action {
    // -- Global --
    Quit,
    FocusNext,
    ToggleSidebar,
    OpenCommandPalette,
    OpenFileFinder,
    SaveFile,
    CloseTab,
    NextTab,
    PreviousTab,
    ProjectSearch,
    ShowShortcuts,
    // -- Editor: cursor movement --
    CursorUp,
    CursorDown,
    CursorLeft,
    CursorRight,
    CursorWordLeft,
    CursorWordRight,
    CursorLineStart,
    CursorLineEnd,
    CursorFileStart,
    CursorFileEnd,
    PageUp,
    PageDown,
    GoToLine,
    // -- Editor: text editing --
    InsertChar(char),
    InsertNewline,
    InsertTab,
    DeleteBackward,
    DeleteForward,
    DeleteWordBackward,
    DeleteWordForward,
    DeleteLine,
    // -- Editor: selection --
    SelectAll,
    SelectUp,
    SelectDown,
    SelectLeft,
    SelectRight,
    SelectWordLeft,
    SelectWordRight,
    SelectLineStart,
    SelectLineEnd,
    SelectNextOccurrence,
    // -- Editor: clipboard --
    Copy,
    Cut,
    Paste,
    PasteText(String),
    // -- Editor: history --
    Undo,
    Redo,
    // -- Editor: search --
    FindInFile,
    FindAndReplace,
    // -- Editor: LSP --
    TriggerCompletion,
    GotoDefinition,
    FindReferences,
    RenameSymbol,
    CodeAction,
    HoverInfo,
    FormatDocument,
    SignatureHelp,
    // -- Sidebar: navigation --
    TreeUp,
    TreeDown,
    TreeExpand,
    TreeCollapse,
    TreeOpen,
    // -- Sidebar: file operations --
    FileNew,
    DirNew,
    FileDelete,
    FileRename,
    FileCopy,
    FileCut,
    FilePaste,
    // -- Sidebar: drag-and-drop (the dropped paths) --
    FileDrop(Vec<String>),
    // -- Completion popup --
    CompletionUp,
    CompletionDown,
    CompletionAccept,
    CompletionDismiss,
    // -- Command palette --
    PaletteUp,
    PaletteDown,
    PaletteAccept,
    PaletteDismiss,
    PaletteInput(char),
    PaletteBackspace,
    // -- No-op --
    Noop,
}

impl Action {
    /// `self` and `other` are the same action: equal, with the paths of a
    /// file drop compared by their text.
    pub open spec fn same_as(&self, other: &Action) -> bool {
        match (*self, *other) {
            (Action::FileDrop(a), Action::FileDrop(b)) => a@ == b@,
            _ => *self == *other,
        }
    }

    /// A copy of the action.
    pub fn duplicate(&self) -> (r: Action)
        ensures
            r.same_as(self),
    {
        match self {
            Action::Quit => Action::Quit,
            Action::FocusNext => Action::FocusNext,
            Action::ToggleSidebar => Action::ToggleSidebar,
            Action::OpenCommandPalette => Action::OpenCommandPalette,
            Action::OpenFileFinder => Action::OpenFileFinder,
            Action::SaveFile => Action::SaveFile,
            Action::CloseTab => Action::CloseTab,
            Action::NextTab => Action::NextTab,
            Action::PreviousTab => Action::PreviousTab,
            Action::ProjectSearch => Action::ProjectSearch,
            Action::ShowShortcuts => Action::ShowShortcuts,
            Action::CursorUp => Action::CursorUp,
            Action::CursorDown => Action::CursorDown,
            Action::CursorLeft => Action::CursorLeft,
            Action::CursorRight => Action::CursorRight,
            Action::CursorWordLeft => Action::CursorWordLeft,
            Action::CursorWordRight => Action::CursorWordRight,
            Action::CursorLineStart => Action::CursorLineStart,
            Action::CursorLineEnd => Action::CursorLineEnd,
            Action::CursorFileStart => Action::CursorFileStart,
            Action::CursorFileEnd => Action::CursorFileEnd,
            Action::PageUp => Action::PageUp,
            Action::PageDown => Action::PageDown,
            Action::GoToLine => Action::GoToLine,
            Action::InsertChar(c) => Action::InsertChar(*c),
            Action::InsertNewline => Action::InsertNewline,
            Action::InsertTab => Action::InsertTab,
            Action::DeleteBackward => Action::DeleteBackward,
            Action::DeleteForward => Action::DeleteForward,
            Action::DeleteWordBackward => Action::DeleteWordBackward,
            Action::DeleteWordForward => Action::DeleteWordForward,
            Action::DeleteLine => Action::DeleteLine,
            Action::SelectAll => Action::SelectAll,
            Action::SelectUp => Action::SelectUp,
            Action::SelectDown => Action::SelectDown,
            Action::SelectLeft => Action::SelectLeft,
            Action::SelectRight => Action::SelectRight,
            Action::SelectWordLeft => Action::SelectWordLeft,
            Action::SelectWordRight => Action::SelectWordRight,
            Action::SelectLineStart => Action::SelectLineStart,
            Action::SelectLineEnd => Action::SelectLineEnd,
            Action::SelectNextOccurrence => Action::SelectNextOccurrence,
            Action::Copy => Action::Copy,
            Action::Cut => Action::Cut,
            Action::Paste => Action::Paste,
            Action::PasteText(t) => Action::PasteText(t.clone()),
            Action::Undo => Action::Undo,
            Action::Redo => Action::Redo,
            Action::FindInFile => Action::FindInFile,
            Action::FindAndReplace => Action::FindAndReplace,
            Action::TriggerCompletion => Action::TriggerCompletion,
            Action::GotoDefinition => Action::GotoDefinition,
            Action::FindReferences => Action::FindReferences,
            Action::RenameSymbol => Action::RenameSymbol,
            Action::CodeAction => Action::CodeAction,
            Action::HoverInfo => Action::HoverInfo,
            Action::FormatDocument => Action::FormatDocument,
            Action::SignatureHelp => Action::SignatureHelp,
            Action::TreeUp => Action::TreeUp,
            Action::TreeDown => Action::TreeDown,
            Action::TreeExpand => Action::TreeExpand,
            Action::TreeCollapse => Action::TreeCollapse,
            Action::TreeOpen => Action::TreeOpen,
            Action::FileNew => Action::FileNew,
            Action::DirNew => Action::DirNew,
            Action::FileDelete => Action::FileDelete,
            Action::FileRename => Action::FileRename,
            Action::FileCopy => Action::FileCopy,
            Action::FileCut => Action::FileCut,
            Action::FilePaste => Action::FilePaste,
            Action::FileDrop(paths) => {
                let copy = paths.clone();
                assert(copy@ =~= paths@);
                Action::FileDrop(copy)
            },
            Action::CompletionUp => Action::CompletionUp,
            Action::CompletionDown => Action::CompletionDown,
            Action::CompletionAccept => Action::CompletionAccept,
            Action::CompletionDismiss => Action::CompletionDismiss,
            Action::PaletteUp => Action::PaletteUp,
            Action::PaletteDown => Action::PaletteDown,
            Action::PaletteAccept => Action::PaletteAccept,
            Action::PaletteDismiss => Action::PaletteDismiss,
            Action::PaletteInput(c) => Action::PaletteInput(*c),
            Action::PaletteBackspace => Action::PaletteBackspace,
            Action::Noop => Action::Noop,
        }
    }
}

/// Where keyboard focus currently is.
#[derive(Debug, Clone, Copy, PartialEq, Eq, Structural)]
pub enum FocusArea {
    Sidebar,
    Editor,
    CommandPalette,
    CompletionPopup,
}

} // verus!
