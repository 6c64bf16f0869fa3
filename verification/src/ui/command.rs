use vstd::prelude::*;

verus! {

/// A command the UI sends back to the App after handling an action.
#[derive(Debug, PartialEq, Eq)]
pub enum AppCommand {
    /// Open a file in the editor
    OpenFile(String),
    /// Save the current file
    SaveCurrentFile,
    /// Close the current tab
    CloseCurrentTab,
    /// Quit the application
    Quit,
    /// Toggle sidebar visibility
    ToggleSidebar,
    /// Switch focus to next pane
    FocusNext,
    /// Trigger LSP completion at cursor
    RequestCompletion,
    /// Trigger LSP hover at cursor
    RequestHover,
    /// Trigger LSP go-to-definition
    RequestGotoDefinition,
    /// Trigger LSP find-references
    RequestFindReferences,
    /// Trigger LSP rename
    RequestRename(String),
    /// Trigger LSP code actions
    RequestCodeAction,
    /// Trigger LSP format
    RequestFormat,
    /// Trigger LSP signature help
    RequestSignatureHelp,
    /// File operation: copy
    FileCopy(String),
    /// File operation: cut (move)
    FileCut(String),
    /// File operation: paste into directory
    FilePaste(String),
    /// File operation: delete
    FileDelete(String),
    /// File operation: rename
    FileRename { from: String, to: String },
    /// File operation: create new file
    FileNew(String),
    /// File operation: create new directory
    DirNew(String),
    /// Show command palette
    ShowCommandPalette,
    /// Show file finder
    ShowFileFinder,
    /// Project-wide search
    ProjectSearch,
    /// Show keyboard shortcuts help
    ShowShortcuts,
    /// No action needed
    Nothing,
}

} // verus!
