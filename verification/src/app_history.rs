//! The application keeps every text tab's undo history fitting its text:
//! whatever route an action takes (the confirm dialog, the overlays, the
//! project search, the completion popup, the focused component and the
//! command it answers), the tabs it leaves are tabs it was given, tabs whose
//! text and history did not change, or the active tab after an edit that
//! keeps its history fitting.
use vstd::prelude::*;
use crate::app::{App, EffectView, Part};
use crate::input::actions::Action;
use crate::ui::AppCommand;
use crate::ui::confirm_dialog::{ConfirmAction, ConfirmResult};
use crate::ui::editor::{EditorPane, TabContent};
use crate::ui::undo_chain::lemma_handled_keeps_history;

verus! {

/// Handling an action in the editor pane keeps every text tab's history
/// fitting its text, where the active tab keeps its own.
pub proof fn lemma_editor_handled_keeps(old: EditorPane, new: EditorPane, action: Action, r: AppCommand)
    requires
        new.handled(&old, action, r),
        old.histories_consistent(),
        old.keeps_histories(action),
        match old.active_tab() {
            Some(t) => t.ready_for(action),
            None => true,
        },
    ensures
        new.histories_consistent(),
{
    match action {
        Action::NextTab => {},
        Action::PreviousTab => {},
        Action::CloseTab => {},
        _ => match old.active_tab() {
            Some(t) => {
                let idx = old.tab_bar.active as int;
                match (t, new.tabs@[idx]) {
                    (TabContent::Text(b0), TabContent::Text(b1)) => {
                        lemma_handled_keeps_history(b0, b1, action);
                    },
                    _ => {},
                }
                assert forall|i: int| 0 <= i < new.tabs.len() implies (#[trigger] new.tabs@[i]).history_consistent() by {
                    assert(old.tabs@[i].history_consistent());
                }
            },
            None => {},
        },
    }
}

/// Closing the active tab keeps the other tabs' histories fitting.
pub proof fn lemma_closed_keeps(old: EditorPane, new: EditorPane)
    requires
        new.closed_active(&old),
        old.wf(),
        old.histories_consistent(),
    ensures
        new.histories_consistent(),
{
    if old.tabs.len() > 0 {
        let idx = old.tab_bar.active as int;
        assert(0 <= idx < old.tabs.len());
        assert forall|i: int| 0 <= i < new.tabs.len() implies (#[trigger] new.tabs@[i]).history_consistent() by {
            if i < idx {
                assert(new.tabs@[i] == old.tabs@[i]);
            } else {
                assert(new.tabs@[i] == old.tabs@[i + 1]);
            }
        }
    }
}

/// Opening a file (or going to its tab, and to a line there) keeps the
/// histories fitting.
pub proof fn lemma_opened_keeps(old: App, new: App, path: Seq<char>, line: Option<usize>, r: Seq<EffectView>)
    requires
        new.opened(&old, path, line, r),
        old.histories_consistent(),
    ensures
        new.histories_consistent(),
{
    let idx = new.editor.tab_bar.active as int;
    assert forall|i: int| 0 <= i < new.editor.tabs.len() implies (#[trigger] new.editor.tabs@[i]).history_consistent() by {
        assert(old.editor.tabs@[i].history_consistent());
    }
}

/// Acting on the confirm dialog's answer keeps the histories fitting.
pub proof fn lemma_confirmed_keeps(
    old: App,
    new: App,
    result: ConfirmResult,
    action: Option<ConfirmAction>,
    r: Seq<EffectView>,
    also: Set<Part>,
)
    requires
        new.confirmed(&old, result, action, r, also),
        !also.contains(Part::Editor),
        old.editor.wf(),
        old.histories_consistent(),
    ensures
        new.histories_consistent(),
{
    if new.editor != old.editor {
        lemma_closed_keeps(old.editor, new.editor);
    }
}

/// Carrying out a command keeps the histories fitting.
pub proof fn lemma_executed_keeps(old: App, new: App, cmd: AppCommand, r: Seq<EffectView>)
    requires
        new.executed(&old, cmd, r),
        old.editor.wf(),
        old.histories_consistent(),
    ensures
        new.histories_consistent(),
{
    match cmd {
        AppCommand::OpenFile(p) => {
            lemma_opened_keeps(old, new, p@, None, r);
        },
        AppCommand::CloseCurrentTab => {
            if new.editor != old.editor {
                lemma_closed_keeps(old.editor, new.editor);
            }
        },
        _ => {},
    }
}

/// The step an action takes through the popups and the focused component
/// keeps the histories fitting, and the editor well formed.
proof fn lemma_stepped_keeps(old: App, mid: App, action: Action, cmd: AppCommand)
    requires
        mid.stepped(&old, action, cmd),
        old.ready_for(action),
        old.histories_consistent(),
        old.keeps_histories(action),
    ensures
        mid.histories_consistent(),
        mid.editor.wf(),
{
    if crate::app::global_command(action) is None && !old.command_palette.visible {
        if old.completion.visible {
            if action is CompletionAccept && old.completion.selected < old.completion.items.len() {
                let idx = old.editor.tab_bar.active as int;
                assert forall|i: int| 0 <= i < mid.editor.tabs.len() implies (#[trigger] mid.editor.tabs@[i]).history_consistent() by {
                    assert(old.editor.tabs@[i].history_consistent());
                }
            }
        } else if old.focus == crate::input::actions::FocusArea::Editor {
            lemma_editor_handled_keeps(old.editor, mid.editor, action, cmd);
        }
    }
}

/// An action past the confirm dialog and the shortcuts overlay keeps the
/// histories fitting.
proof fn lemma_routed_keeps(old: App, new: App, action: Action, r: Seq<EffectView>)
    requires
        new.routed(&old, action, r),
        old.ready_for(action),
        old.histories_consistent(),
        old.keeps_histories(action),
    ensures
        new.histories_consistent(),
{
    if action is FileDrop {
    } else if action is FocusNext && old.focus == crate::input::actions::FocusArea::Sidebar && (
    old.sidebar.rename_input is Some || old.sidebar.new_file_input is Some) {
    } else if (action is FocusNext || action is CompletionDismiss) && old.focus
        == crate::input::actions::FocusArea::Editor && (old.editor.active_text() matches Some(b) && (
    b.search.active || b.goto_line.active)) {
        assert forall|i: int| 0 <= i < new.editor.tabs.len() implies (#[trigger] new.editor.tabs@[i]).history_consistent() by {
            assert(old.editor.tabs@[i].history_consistent());
        }
    } else if old.project_search.visible {
        match action {
            Action::InsertNewline | Action::TreeOpen => {
                if old.project_search.selected < old.project_search.results.len() {
                    let found = old.project_search.results@[old.project_search.selected as int];
                    let closed = App {
                        project_search: crate::ui::project_search::ProjectSearch {
                            visible: false,
                            ..old.project_search
                        },
                        ..old
                    };
                    lemma_opened_keeps(closed, new, found.path@, Some((found.line_number - 1) as usize), r);
                }
            },
            _ => {},
        }
    } else {
        let (mid, cmd, r1) = choose|mid: App, cmd: AppCommand, r1: Seq<EffectView>|
            mid.stepped(&old, action, cmd) && #[trigger] new.executed(&mid, cmd, r1) && r == r1 + new.edit_notices(
                action,
            );
        lemma_stepped_keeps(old, mid, action, cmd);
        lemma_executed_keeps(mid, new, cmd, r1);
    }
}

/// Handling an action keeps every text tab's undo history fitting its
/// text, where the action keeps the histories (see
/// [`App::keeps_histories`]): a law of [`App::dispatch_action`].
pub proof fn lemma_dispatched_keeps_histories(old: App, new: App, action: Action, r: Seq<EffectView>)
    requires
        new.dispatched(&old, action, r),
        old.ready_for(action),
        old.histories_consistent(),
        old.keeps_histories(action),
    ensures
        new.histories_consistent(),
{
    if action is Noop {
    } else if old.confirm_dialog.visible {
        match action {
            Action::InsertNewline | Action::TreeOpen | Action::CompletionAccept => {
                lemma_confirmed_keeps(
                    old,
                    new,
                    crate::ui::confirm_dialog::result_of(old.confirm_dialog.selected),
                    old.confirm_dialog.action,
                    r,
                    set![Part::Confirm],
                );
            },
            _ => {},
        }
    } else if old.shortcuts_help.visible && !(action is Quit) {
    } else if old.shortcuts_help.visible {
        let closed = App { shortcuts_help: crate::ui::shortcuts_help::ShortcutsHelp { visible: false, scroll: 0 }, ..old };
        lemma_routed_keeps(closed, new, action, r);
    } else {
        lemma_routed_keeps(old, new, action, r);
    }
}

} // verus!
