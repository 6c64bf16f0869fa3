//! The "save changes?" confirmation dialog.
use vstd::prelude::*;

verus! {

/// The action that triggered the confirm dialog.
#[derive(Debug, Clone, PartialEq, Eq)]
pub enum ConfirmAction {
    CloseTab(usize),
    Quit,
    DeleteFile(String),
}

#[derive(Debug, Clone, Copy, PartialEq, Eq, Structural)]
pub enum ConfirmChoice {
    Save,
    DontSave,
    Cancel,
}

/// What the user decided.
#[derive(Debug, Clone, Copy, PartialEq, Eq, Structural)]
pub enum ConfirmResult {
    Save,
    DontSave,
    Cancel,
    Pending,
}

/// A confirmation dialog overlay (e.g. "Save before closing?").
pub struct ConfirmDialog {
    pub visible: bool,
    pub action: Option<ConfirmAction>,
    pub file_name: String,
    pub selected: ConfirmChoice,
}

/// The choice after `Save`, `DontSave`, `Cancel`, wrapping around.
pub open spec fn next_choice(c: ConfirmChoice) -> ConfirmChoice {
    match c {
        ConfirmChoice::Save => ConfirmChoice::DontSave,
        ConfirmChoice::DontSave => ConfirmChoice::Cancel,
        ConfirmChoice::Cancel => ConfirmChoice::Save,
    }
}

/// The choice before, wrapping around.
pub open spec fn previous_choice(c: ConfirmChoice) -> ConfirmChoice {
    match c {
        ConfirmChoice::Save => ConfirmChoice::Cancel,
        ConfirmChoice::DontSave => ConfirmChoice::Save,
        ConfirmChoice::Cancel => ConfirmChoice::DontSave,
    }
}

/// The result that accepting a choice gives.
pub open spec fn result_of(c: ConfirmChoice) -> ConfirmResult {
    match c {
        ConfirmChoice::Save => ConfirmResult::Save,
        ConfirmChoice::DontSave => ConfirmResult::DontSave,
        ConfirmChoice::Cancel => ConfirmResult::Cancel,
    }
}

/// Moving to the next choice and back returns to the same choice, in either
/// order, and three steps in one direction go round the whole cycle.
pub proof fn lemma_choice_cycle(c: ConfirmChoice)
    ensures
        previous_choice(next_choice(c)) == c,
        next_choice(previous_choice(c)) == c,
        next_choice(next_choice(next_choice(c))) == c,
{
}

/// Accepting never leaves the dialog pending.
pub proof fn lemma_accept_decides(c: ConfirmChoice)
    ensures
        result_of(c) != ConfirmResult::Pending,
{
}

impl ConfirmDialog {
    pub fn new() -> (d: Self)
        ensures
            !d.visible,
            d.action is None,
            d.file_name@.len() == 0,
            d.selected == ConfirmChoice::Save,
    {
        ConfirmDialog {
            visible: false,
            action: None,
            file_name: String::new(),
            selected: ConfirmChoice::Save,
        }
    }

    /// Show the dialog for `file_name`, remembering what triggered it. The
    /// selection starts on `Save`.
    pub fn show(&mut self, file_name: String, action: ConfirmAction)
        ensures
            final(self).visible,
            final(self).file_name == file_name,
            final(self).action == Some(action),
            final(self).selected == ConfirmChoice::Save,
    {
        self.visible = true;
        self.file_name = file_name;
        self.action = Some(action);
        self.selected = ConfirmChoice::Save;
    }

    /// Hide the dialog and forget what triggered it.
    pub fn close(&mut self)
        ensures
            !final(self).visible,
            final(self).action is None,
            final(self).file_name@.len() == 0,
            final(self).selected == old(self).selected,
    {
        self.visible = false;
        self.action = None;
        self.file_name = String::new();
    }

    pub fn select_next(&mut self)
        ensures
            final(self).selected == next_choice(old(self).selected),
            final(self).visible == old(self).visible,
            final(self).action == old(self).action,
            final(self).file_name == old(self).file_name,
    {
        self.selected = match self.selected {
            ConfirmChoice::Save => ConfirmChoice::DontSave,
            ConfirmChoice::DontSave => ConfirmChoice::Cancel,
            ConfirmChoice::Cancel => ConfirmChoice::Save,
        };
    }

    pub fn select_previous(&mut self)
        ensures
            final(self).selected == previous_choice(old(self).selected),
            final(self).visible == old(self).visible,
            final(self).action == old(self).action,
            final(self).file_name == old(self).file_name,
    {
        self.selected = match self.selected {
            ConfirmChoice::Save => ConfirmChoice::Cancel,
            ConfirmChoice::DontSave => ConfirmChoice::Save,
            ConfirmChoice::Cancel => ConfirmChoice::DontSave,
        };
    }

    pub fn accept(&self) -> (r: ConfirmResult)
        ensures
            r == result_of(self.selected),
    {
        match self.selected {
            ConfirmChoice::Save => ConfirmResult::Save,
            ConfirmChoice::DontSave => ConfirmResult::DontSave,
            ConfirmChoice::Cancel => ConfirmResult::Cancel,
        }
    }
}

} // verus!
