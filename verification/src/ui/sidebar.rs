//! The sidebar: the file tree plus the file clipboard and the inline inputs
//! for renaming and creating files.
use vstd::prelude::*;
use crate::files::tree::{FileNode, FileTree, flat_node, node_view, toggled, clamped};
use crate::input::actions::Action;
use crate::path::{joined, parent_of, path_join, path_parent};
use crate::text::{string_pop, string_push};
use crate::ui::AppCommand;

verus! {

/// Clipboard state for file copy/cut operations.
#[derive(Debug, Clone)]
pub struct FileClipboard {
    pub path: String,
    pub is_cut: bool,
}

/// The sidebar component showing the file tree.
pub struct Sidebar {
    pub tree: FileTree,
    pub clipboard: Option<FileClipboard>,
    pub visible: bool,
    pub width: u16,
    pub rename_input: Option<String>,
    /// (parent_dir, is_directory)
    pub new_file_input: Option<(String, bool)>,
    pub input_buffer: String,
}

/// The path of the selected entry, if the selection points at one.
pub open spec fn selected_path_of(t: FileTree) -> Option<Seq<char>> {
    if t.selected_index < t.flattened.len() {
        Some(t.flattened@[t.selected_index as int].path@)
    } else {
        None
    }
}

/// The directory a new file goes into: the selected directory itself, or
/// the parent of the selected file (`.` when it has none).
pub open spec fn selected_parent_of(t: FileTree) -> Option<Seq<char>> {
    if t.selected_index < t.flattened.len() {
        let e = t.flattened@[t.selected_index as int];
        if e.is_dir {
            Some(e.path@)
        } else {
            match parent_of(e.path@) {
                Some(p) => Some(p),
                None => Some("."@),
            }
        }
    } else {
        None
    }
}

/// The selected entry is a directory.
pub open spec fn selected_dir(t: FileTree) -> bool {
    t.selected_index < t.flattened.len() && t.flattened@[t.selected_index as int].is_dir
}

/// What toggling the selected directory does to the tree.
pub open spec fn toggle_effect(old_t: FileTree, new_t: FileTree) -> bool {
    if selected_dir(old_t) {
        &&& node_view(new_t.root) == toggled(
            node_view(old_t.root),
            old_t.flattened@[old_t.selected_index as int].path@,
        )
        &&& new_t.flattened.deep_view() == flat_node(node_view(new_t.root))
        &&& new_t.selected_index == clamped(old_t.selected_index, new_t.flattened.len())
    } else {
        new_t == old_t
    }
}

impl Sidebar {
    /// A visible sidebar of the given width over the tree with this root.
    pub fn new(root: FileNode, width: u16) -> (s: Self)
        ensures
            node_view(s.tree.root) == node_view(root),
            s.tree.selected_index == 0,
            s.tree.in_sync(),
            s.clipboard is None,
            s.visible,
            s.width == width,
            s.rename_input is None,
            s.new_file_input is None,
            s.input_buffer@.len() == 0,
    {
        let tree = FileTree::from_path(root);
        Sidebar {
            tree,
            clipboard: None,
            visible: true,
            width,
            rename_input: None,
            new_file_input: None,
            input_buffer: String::new(),
        }
    }

    pub fn toggle_visibility(&mut self)
        ensures
            final(self).visible == !old(self).visible,
            final(self).tree == old(self).tree,
            final(self).width == old(self).width,
            final(self).clipboard == old(self).clipboard,
            final(self).rename_input == old(self).rename_input,
            final(self).new_file_input == old(self).new_file_input,
            final(self).input_buffer == old(self).input_buffer,
    {
        self.visible = !self.visible;
    }

    /// The path of the selected entry.
    pub fn selected_path(&self) -> (r: Option<String>)
        ensures
            match r {
                Some(p) => selected_path_of(self.tree) == Some(p@),
                None => selected_path_of(self.tree) is None,
            },
    {
        match self.tree.selected_entry() {
            Some(e) => Some(e.path.clone()),
            None => None,
        }
    }

    /// Whether the selected entry is a directory.
    pub fn selected_is_dir(&self) -> (r: bool)
        ensures
            r == selected_dir(self.tree),
    {
        match self.tree.selected_entry() {
            Some(e) => e.is_dir,
            None => false,
        }
    }

    /// The directory that new files go into.
    pub fn selected_parent_dir(&self) -> (r: Option<String>)
        ensures
            match r {
                Some(p) => selected_parent_of(self.tree) == Some(p@),
                None => selected_parent_of(self.tree) is None,
            },
    {
        match self.tree.selected_entry() {
            Some(e) => {
                if e.is_dir {
                    Some(e.path.clone())
                } else {
                    match path_parent(e.path.as_str()) {
                        Some(p) => Some(p),
                        None => Some(".".to_owned()),
                    }
                }
            },
            None => None,
        }
    }

    /// Take a freshly built tree root, keeping expanded directories expanded.
    pub fn refresh(&mut self, new_root: FileNode)
        ensures
            final(self).tree.in_sync(),
            final(self).visible == old(self).visible,
            final(self).clipboard == old(self).clipboard,
    {
        self.tree.refresh(new_root);
    }

    fn handle_input_char(&mut self, ch: char)
        ensures
            final(self).input_buffer@ == old(self).input_buffer@.push(ch),
            final(self).tree == old(self).tree,
            final(self).clipboard == old(self).clipboard,
            final(self).rename_input == old(self).rename_input,
            final(self).new_file_input == old(self).new_file_input,
            final(self).visible == old(self).visible,
            final(self).width == old(self).width,
    {
        string_push(&mut self.input_buffer, ch);
    }

    fn handle_input_backspace(&mut self)
        ensures
            final(self).input_buffer@ == if old(self).input_buffer@.len() > 0 {
                old(self).input_buffer@.drop_last()
            } else {
                old(self).input_buffer@
            },
            final(self).tree == old(self).tree,
            final(self).clipboard == old(self).clipboard,
            final(self).rename_input == old(self).rename_input,
            final(self).new_file_input == old(self).new_file_input,
            final(self).visible == old(self).visible,
            final(self).width == old(self).width,
    {
        let _ = string_pop(&mut self.input_buffer);
    }

    /// Whether the rename or new-file input is open.
    pub fn is_in_input_mode(&self) -> (r: bool)
        ensures
            r == (self.rename_input is Some || self.new_file_input is Some),
    {
        self.rename_input.is_some() || self.new_file_input.is_some()
    }

    /// Close the rename or new-file input, dropping what was typed.
    pub fn cancel_input(&mut self)
        ensures
            final(self).rename_input is None,
            final(self).new_file_input is None,
            final(self).input_buffer@.len() == 0,
            final(self).tree == old(self).tree,
            final(self).clipboard == old(self).clipboard,
            final(self).visible == old(self).visible,
            final(self).width == old(self).width,
    {
        self.rename_input = None;
        self.new_file_input = None;
        self.input_buffer = String::new();
    }

    /// `self` is `old` after the open rename or new-file input took
    /// `action` and answered `r`: typing and deleting edit the input, Enter
    /// turns a non-empty input into a rename, or the creation of a file or
    /// directory in the remembered directory, and closes it, Esc closes it,
    /// and other keys change nothing.
    pub open spec fn input_handled(&self, old: &Sidebar, action: Action, r: AppCommand) -> bool {
        match action {
            Action::InsertChar(ch) => r == AppCommand::Nothing
                && self.input_buffer@ == old.input_buffer@.push(ch)
                && self.rename_input == old.rename_input
                && self.new_file_input == old.new_file_input,
            Action::DeleteBackward => r == AppCommand::Nothing
                && self.input_buffer@ == (if old.input_buffer@.len() > 0 {
                    old.input_buffer@.drop_last()
                } else {
                    old.input_buffer@
                })
                && self.rename_input == old.rename_input
                && self.new_file_input == old.new_file_input,
            Action::InsertNewline | Action::TreeOpen => {
                let input = old.input_buffer@;
                if input.len() > 0 && old.rename_input is Some
                    && selected_path_of(old.tree) is Some {
                    &&& r matches AppCommand::FileRename { from, to }
                    &&& from@ == selected_path_of(old.tree).unwrap()
                    &&& to@ == input
                    &&& self.rename_input is None
                    &&& self.new_file_input == old.new_file_input
                    &&& self.input_buffer@.len() == 0
                } else if input.len() > 0 && old.rename_input is None
                    && old.new_file_input is Some {
                    let (parent, is_dir) = old.new_file_input.unwrap();
                    &&& (if is_dir {
                        r matches AppCommand::DirNew(p) && p@ == joined(parent@, input)
                    } else {
                        r matches AppCommand::FileNew(p) && p@ == joined(parent@, input)
                    })
                    &&& self.rename_input is None
                    &&& self.new_file_input is None
                    &&& self.input_buffer@.len() == 0
                } else {
                    &&& r == AppCommand::Nothing
                    &&& self.rename_input is None
                    &&& self.new_file_input is None
                    &&& self.input_buffer@.len() == 0
                }
            },
            Action::CompletionDismiss | Action::PaletteDismiss => r == AppCommand::Nothing
                && self.rename_input is None && self.new_file_input is None
                && self.input_buffer@.len() == 0,
            _ => r == AppCommand::Nothing && self.input_buffer == old.input_buffer
                && self.rename_input == old.rename_input
                && self.new_file_input == old.new_file_input,
        }
    }

    /// Handle an action while the rename or new-file input is open.
    fn handle_input_action(&mut self, action: &Action) -> (r: AppCommand)
        ensures
            final(self).clipboard == old(self).clipboard,
            final(self).visible == old(self).visible,
            final(self).width == old(self).width,
            final(self).tree == old(self).tree,
            final(self).input_handled(old(self), *action, r),
    {
        match action {
            Action::InsertChar(ch) => {
                self.handle_input_char(*ch);
                AppCommand::Nothing
            },
            Action::DeleteBackward => {
                self.handle_input_backspace();
                AppCommand::Nothing
            },
            Action::InsertNewline | Action::TreeOpen => {
                let input = self.input_buffer.clone();
                if !input.as_str().is_empty() {
                    if let Some(_) = self.rename_input.take() {
                        if let Some(path) = self.selected_path() {
                            self.input_buffer = String::new();
                            return AppCommand::FileRename { from: path, to: input };
                        }
                    } else if let Some((parent, is_dir)) = self.new_file_input.take() {
                        let new_path = path_join(parent.as_str(), input.as_str());
                        self.input_buffer = String::new();
                        if is_dir {
                            return AppCommand::DirNew(new_path);
                        } else {
                            return AppCommand::FileNew(new_path);
                        }
                    }
                }
                self.cancel_input();
                AppCommand::Nothing
            },
            Action::CompletionDismiss | Action::PaletteDismiss => {
                self.cancel_input();
                AppCommand::Nothing
            },
            _ => AppCommand::Nothing,
        }
    }

    /// `self` is `old` after it handled `action` and answered `r`.
    /// The open inputs are those of `old`.
    pub open spec fn keeps_inputs(&self, old: &Sidebar) -> bool {
        &&& self.rename_input == old.rename_input
        &&& self.new_file_input == old.new_file_input
        &&& self.input_buffer == old.input_buffer
    }

    /// The file clipboard and the open inputs are those of `old`.
    pub open spec fn keeps_clipboard_and_inputs(&self, old: &Sidebar) -> bool {
        &&& self.clipboard == old.clipboard
        &&& self.keeps_inputs(old)
    }

    pub open spec fn handled(&self, old: &Sidebar, action: Action, r: AppCommand) -> bool {
        &&& self.visible == old.visible
        &&& self.width == old.width
        &&& (old.rename_input is Some || old.new_file_input is Some) ==> {
            &&& self.tree == old.tree
            &&& self.clipboard == old.clipboard
            &&& self.input_handled(old, action, r)
        }
        &&& (old.rename_input is None && old.new_file_input is None) ==> match action {
            Action::TreeUp => r == AppCommand::Nothing
                && self.keeps_clipboard_and_inputs(old)
                && self.tree.root == old.tree.root
                && self.tree.flattened == old.tree.flattened
                && self.tree.selected_index == if old.tree.selected_index > 0 {
                    old.tree.selected_index - 1
                } else {
                    0
                },
            Action::TreeDown => r == AppCommand::Nothing
                && self.keeps_clipboard_and_inputs(old)
                && self.tree.root == old.tree.root
                && self.tree.flattened == old.tree.flattened
                && self.tree.selected_index == if old.tree.selected_index + 1
                    < old.tree.flattened.len() {
                    old.tree.selected_index + 1
                } else {
                    old.tree.selected_index as int
                },
            Action::TreeExpand | Action::TreeCollapse => r == AppCommand::Nothing
                && self.keeps_clipboard_and_inputs(old)
                && toggle_effect(old.tree, self.tree),
            Action::TreeOpen => self.keeps_clipboard_and_inputs(old) && if selected_dir(old.tree) {
                r == AppCommand::Nothing && toggle_effect(old.tree, self.tree)
            } else if selected_path_of(old.tree) is Some {
                r matches AppCommand::OpenFile(p) && p@ == selected_path_of(old.tree).unwrap()
                    && self.tree == old.tree
            } else {
                r == AppCommand::Nothing && self.tree == old.tree
            },
            Action::FileCopy | Action::FileCut => r == AppCommand::Nothing
                && self.keeps_inputs(old)
                && self.tree == old.tree
                && match selected_path_of(old.tree) {
                    Some(p) => self.clipboard matches Some(c) && c.path@ == p
                        && c.is_cut == (action matches Action::FileCut),
                    None => self.clipboard == old.clipboard,
                },
            Action::FilePaste => self.tree == old.tree
                && self.keeps_inputs(old)
                && self.clipboard is None
                && match old.clipboard {
                    Some(c) => if selected_parent_of(old.tree) is Some {
                        if c.is_cut {
                            r matches AppCommand::FileCut(p) && p@ == c.path@
                        } else {
                            r matches AppCommand::FileCopy(p) && p@ == c.path@
                        }
                    } else {
                        r == AppCommand::Nothing
                    },
                    None => r == AppCommand::Nothing,
                },
            Action::FileDelete => self.tree == old.tree && self.keeps_clipboard_and_inputs(old) && match selected_path_of(
                old.tree,
            ) {
                Some(p) => r matches AppCommand::FileDelete(q) && q@ == p,
                None => r == AppCommand::Nothing,
            },
            Action::FileRename => r == AppCommand::Nothing && self.tree == old.tree
                && self.clipboard == old.clipboard
                && self.new_file_input == old.new_file_input
                && if old.tree.selected_index < old.tree.flattened.len() {
                    let name = old.tree.flattened@[old.tree.selected_index as int].name@;
                    self.rename_input matches Some(n) && n@ == name
                        && self.input_buffer@ == name
                } else {
                    self.rename_input == old.rename_input && self.input_buffer == old.input_buffer
                },
            Action::FileNew | Action::DirNew => r == AppCommand::Nothing
                && self.tree == old.tree
                && self.clipboard == old.clipboard
                && self.rename_input == old.rename_input
                && match selected_parent_of(old.tree) {
                    Some(d) => self.new_file_input matches Some((p, is_dir)) && p@ == d
                        && is_dir == (action matches Action::DirNew)
                        && self.input_buffer@.len() == 0,
                    None => self.new_file_input == old.new_file_input && self.input_buffer == old.input_buffer,
                },
            _ => r == AppCommand::Nothing && *self == *old,
        }
    }

    /// Handle a user action: navigation and expansion of the tree, the file
    /// clipboard, and the inline inputs for renaming and creating files.
    pub fn handle_action(&mut self, action: &Action) -> (r: AppCommand)
        ensures
            final(self).handled(old(self), *action, r),
    {
        if self.rename_input.is_some() || self.new_file_input.is_some() {
            return self.handle_input_action(action);
        }
        match action {
            Action::TreeUp => {
                self.tree.select_previous();
                AppCommand::Nothing
            },
            Action::TreeDown => {
                self.tree.select_next();
                AppCommand::Nothing
            },
            Action::TreeExpand | Action::TreeCollapse => {
                if self.selected_is_dir() {
                    self.tree.toggle_expand();
                }
                AppCommand::Nothing
            },
            Action::TreeOpen => {
                if self.tree.selected_index < self.tree.flattened.len() {
                    if self.tree.flattened[self.tree.selected_index].is_dir {
                        self.tree.toggle_expand();
                        AppCommand::Nothing
                    } else {
                        AppCommand::OpenFile(self.tree.flattened[self.tree.selected_index].path.clone())
                    }
                } else {
                    AppCommand::Nothing
                }
            },
            Action::FileCopy => {
                if let Some(path) = self.selected_path() {
                    self.clipboard = Some(FileClipboard { path, is_cut: false });
                }
                AppCommand::Nothing
            },
            Action::FileCut => {
                if let Some(path) = self.selected_path() {
                    self.clipboard = Some(FileClipboard { path, is_cut: true });
                }
                AppCommand::Nothing
            },
            Action::FilePaste => {
                if let Some(clip) = self.clipboard.take() {
                    if let Some(_target_dir) = self.selected_parent_dir() {
                        if clip.is_cut {
                            return AppCommand::FileCut(clip.path);
                        } else {
                            return AppCommand::FileCopy(clip.path);
                        }
                    }
                }
                AppCommand::Nothing
            },
            Action::FileDelete => {
                if let Some(path) = self.selected_path() {
                    AppCommand::FileDelete(path)
                } else {
                    AppCommand::Nothing
                }
            },
            Action::FileRename => {
                if self.tree.selected_index < self.tree.flattened.len() {
                    let name = self.tree.flattened[self.tree.selected_index].name.clone();
                    self.rename_input = Some(name.clone());
                    self.input_buffer = name;
                }
                AppCommand::Nothing
            },
            Action::FileNew => {
                if let Some(dir) = self.selected_parent_dir() {
                    self.new_file_input = Some((dir, false));
                    self.input_buffer = String::new();
                }
                AppCommand::Nothing
            },
            Action::DirNew => {
                if let Some(dir) = self.selected_parent_dir() {
                    self.new_file_input = Some((dir, true));
                    self.input_buffer = String::new();
                }
                AppCommand::Nothing
            },
            _ => AppCommand::Nothing,
        }
    }
}

} // verus!
