//! The autocomplete popup: its items, filtering and selection.
use vstd::prelude::*;
use crate::input::actions::Action;
use crate::text::{chars_of, has_prefix, lowercase, starts_with_chars, to_lowercase};
use crate::ui::AppCommand;

verus! {

#[derive(Debug, Clone, Copy, PartialEq, Eq, Structural)]
pub enum CompletionKind {
    Function,
    Variable,
    Keyword,
    Struct,
    Field,
    Module,
    Snippet,
    Other,
}

/// The short label shown next to an item of each kind.
pub open spec fn kind_icon(k: CompletionKind) -> Seq<char> {
    match k {
        CompletionKind::Function => "fn"@,
        CompletionKind::Variable => "var"@,
        CompletionKind::Keyword => "kw"@,
        CompletionKind::Struct => "st"@,
        CompletionKind::Field => "fd"@,
        CompletionKind::Module => "mod"@,
        CompletionKind::Snippet => "snp"@,
        CompletionKind::Other => "  "@,
    }
}

/// The kind shown for a language server's completion item kind, given by
/// its number in the protocol (`None` when the server sent none): methods
/// count as functions, classes as structs, properties as fields; kinds
/// without a label of their own are "other".
pub open spec fn kind_for_lsp(code: Option<i32>) -> CompletionKind {
    match code {
        Some(c) => if c == 2 || c == 3 {
            CompletionKind::Function
        } else if c == 6 {
            CompletionKind::Variable
        } else if c == 14 {
            CompletionKind::Keyword
        } else if c == 22 || c == 7 {
            CompletionKind::Struct
        } else if c == 5 || c == 10 {
            CompletionKind::Field
        } else if c == 9 {
            CompletionKind::Module
        } else if c == 15 {
            CompletionKind::Snippet
        } else {
            CompletionKind::Other
        },
        None => CompletionKind::Other,
    }
}

impl CompletionKind {
    /// The kind for a language server's completion item kind number.
    pub fn from_lsp(code: Option<i32>) -> (k: Self)
        ensures
            k == kind_for_lsp(code),
    {
        match code {
            Some(2) | Some(3) => CompletionKind::Function,
            Some(6) => CompletionKind::Variable,
            Some(14) => CompletionKind::Keyword,
            Some(22) | Some(7) => CompletionKind::Struct,
            Some(5) | Some(10) => CompletionKind::Field,
            Some(9) => CompletionKind::Module,
            Some(15) => CompletionKind::Snippet,
            _ => CompletionKind::Other,
        }
    }

    pub fn icon(&self) -> (r: &'static str)
        ensures
            r@ == kind_icon(*self),
    {
        match self {
            CompletionKind::Function => "fn",
            CompletionKind::Variable => "var",
            CompletionKind::Keyword => "kw",
            CompletionKind::Struct => "st",
            CompletionKind::Field => "fd",
            CompletionKind::Module => "mod",
            CompletionKind::Snippet => "snp",
            CompletionKind::Other => "  ",
        }
    }
}

/// A single completion item.
#[derive(Debug, Clone)]
pub struct CompletionItem {
    pub label: String,
    pub detail: Option<String>,
    pub kind: CompletionKind,
    pub insert_text: String,
}

/// The value of a completion item.
pub struct CompletionItemView {
    pub label: Seq<char>,
    pub detail: Option<Seq<char>>,
    pub kind: CompletionKind,
    pub insert_text: Seq<char>,
}

impl DeepView for CompletionItem {
    type V = CompletionItemView;

    open spec fn deep_view(&self) -> CompletionItemView {
        CompletionItemView {
            label: self.label@,
            detail: match self.detail {
                Some(d) => Some(d@),
                None => None,
            },
            kind: self.kind,
            insert_text: self.insert_text@,
        }
    }
}

impl CompletionItem {
    /// A copy with the same label, detail, kind and insert text.
    pub fn duplicate(&self) -> (r: Self)
        ensures
            r.deep_view() == self.deep_view(),
    {
        CompletionItem {
            label: self.label.clone(),
            detail: match &self.detail {
                Some(d) => Some(d.clone()),
                None => None,
            },
            kind: self.kind,
            insert_text: self.insert_text.clone(),
        }
    }
}

fn duplicate_items(items: &Vec<CompletionItem>) -> (r: Vec<CompletionItem>)
    ensures
        r.deep_view() == items.deep_view(),
{
    let mut r: Vec<CompletionItem> = Vec::new();
    let mut i: usize = 0;
    while i < items.len()
        invariant
            i <= items.len(),
            r.len() == i,
            forall|k: int| 0 <= k < i ==> #[trigger] r@[k].deep_view() == items@[k].deep_view(),
        decreases items.len() - i,
    {
        r.push(items[i].duplicate());
        i += 1;
    }
    assert(r.deep_view() =~= items.deep_view());
    r
}

/// The index of the first item labelled `label`.
fn position_of_label(items: &Vec<CompletionItem>, label: &String) -> (r: Option<usize>)
    ensures
        match r {
            Some(i) => i < items.len() && items@[i as int].label@ == label@,
            None => forall|j: int| 0 <= j < items.len() ==> items@[j].label@ != label@,
        },
{
    let mut i: usize = 0;
    while i < items.len()
        invariant
            i <= items.len(),
            forall|j: int| 0 <= j < i ==> items@[j].label@ != label@,
        decreases items.len() - i,
    {
        if items[i].label == *label {
            return Some(i);
        }
        i += 1;
    }
    None
}

/// The items whose lowercased label starts with `needle`, in their order.
pub open spec fn matching_items(s: Seq<CompletionItemView>, needle: Seq<char>) -> Seq<CompletionItemView>
    decreases s.len(),
{
    if s.len() == 0 {
        Seq::empty()
    } else {
        let rest = matching_items(s.drop_last(), needle);
        if has_prefix(lowercase(s.last().label), needle) {
            rest.push(s.last())
        } else {
            rest
        }
    }
}

/// The autocomplete popup overlay.
pub struct CompletionPopup {
    pub visible: bool,
    /// Filtered items shown in the popup (subset of full_items).
    pub items: Vec<CompletionItem>,
    /// Unfiltered items from the last LSP response.
    pub full_items: Vec<CompletionItem>,
    pub selected: usize,
    pub cursor_x: u16,
    pub cursor_y: u16,
    /// The word prefix that was already typed when the popup was shown.
    pub trigger_prefix: String,
}

impl CompletionPopup {
    pub fn new() -> (p: Self)
        ensures
            !p.visible,
            p.items.len() == 0,
            p.full_items.len() == 0,
            p.selected == 0,
            p.cursor_x == 0,
            p.cursor_y == 0,
            p.trigger_prefix@.len() == 0,
    {
        CompletionPopup {
            visible: false,
            items: Vec::new(),
            full_items: Vec::new(),
            selected: 0,
            cursor_x: 0,
            cursor_y: 0,
            trigger_prefix: String::new(),
        }
    }

    /// Show `items` at the given screen position with the first one selected;
    /// an empty list hides the popup instead.
    pub fn show(&mut self, items: Vec<CompletionItem>, cursor_x: u16, cursor_y: u16)
        ensures
            items.len() == 0 ==> {
                &&& !final(self).visible
                &&& final(self).items.len() == 0
                &&& final(self).full_items.len() == 0
                &&& final(self).selected == 0
                &&& final(self).cursor_x == old(self).cursor_x
                &&& final(self).cursor_y == old(self).cursor_y
            },
            items.len() > 0 ==> {
                &&& final(self).visible
                &&& final(self).items.deep_view() == items.deep_view()
                &&& final(self).full_items.deep_view() == items.deep_view()
                &&& final(self).selected == 0
                &&& final(self).cursor_x == cursor_x
                &&& final(self).cursor_y == cursor_y
            },
            final(self).trigger_prefix == old(self).trigger_prefix,
    {
        if items.len() == 0 {
            self.close();
            return;
        }
        self.full_items = duplicate_items(&items);
        self.items = items;
        self.selected = 0;
        self.cursor_x = cursor_x;
        self.cursor_y = cursor_y;
        self.visible = true;
    }

    /// `self` is `old` after taking `items` from the language server, for a cursor at (`cursor_x`, `cursor_y`) after the typed `prefix`.
    pub open spec fn shown_from_lsp(&self, old: &CompletionPopup, items: Seq<CompletionItemView>, cursor_x: u16, cursor_y: u16, prefix: Seq<char>) -> bool {
        &&& self.trigger_prefix@ == prefix
        &&& !old.visible ==> {
            &&& items.len() == 0 ==> !self.visible && self.items.len() == 0
            &&& items.len() > 0 ==> self.visible && self.items.deep_view()
                == items && self.selected == 0
                && self.cursor_x == cursor_x && self.cursor_y == cursor_y
        }
        &&& old.visible ==> {
            &&& self.full_items.deep_view() == items
            &&& self.items.deep_view() == if prefix.len() == 0 {
                items
            } else {
                matching_items(items, lowercase(prefix))
            }
            &&& self.visible == (self.items.len() > 0)
            &&& self.items.len() > 0 ==> self.selected < self.items.len()
            &&& (old.selected < old.items.len() && exists|i: int|
                0 <= i < self.items.len()
                && self.items@[i].label@ == old.items@[old.selected as int].label@)
                ==> self.items@[self.selected as int].label@
                    == old.items@[old.selected as int].label@
        }
    }

    /// Take a fresh list of items from the language server. While the popup
    /// is open the list replaces the unfiltered items, is filtered by the
    /// prefix, and the item with the previously selected label stays
    /// selected if it is still shown; otherwise the popup is shown anew.
    pub fn show_from_lsp(
        &mut self,
        items: Vec<CompletionItem>,
        cursor_x: u16,
        cursor_y: u16,
        trigger_prefix: String,
    )
        ensures
            final(self).shown_from_lsp(old(self), items.deep_view(), cursor_x, cursor_y, trigger_prefix@),
    {
        if self.visible {
            let old_label: Option<String> = if self.selected < self.items.len() {
                Some(self.items[self.selected].label.clone())
            } else {
                None
            };
            self.full_items = items;
            self.trigger_prefix = trigger_prefix;
            let prefix = self.trigger_prefix.clone();
            self.filter_by_prefix(prefix.as_str());
            if let Some(label) = old_label {
                if let Some(idx) = position_of_label(&self.items, &label) {
                    self.selected = idx;
                }
            }
        } else {
            self.trigger_prefix = trigger_prefix;
            self.show(items, cursor_x, cursor_y);
        }
    }

    /// Re-filter `items` from `full_items` by `prefix` (case-insensitive
    /// prefix match). Hides the popup if no items match.
    pub fn filter_by_prefix(&mut self, prefix: &str)
        ensures
            final(self).full_items == old(self).full_items,
            final(self).items.deep_view() == if prefix@.len() == 0 {
                old(self).full_items.deep_view()
            } else {
                matching_items(old(self).full_items.deep_view(), lowercase(prefix@))
            },
            final(self).visible == (final(self).items.len() > 0),
            final(self).items.len() > 0 ==> final(self).selected == if old(self).selected
                < final(self).items.len() - 1 {
                old(self).selected as int
            } else {
                final(self).items.len() - 1
            },
            final(self).items.len() == 0 ==> final(self).selected == old(self).selected,
            final(self).cursor_x == old(self).cursor_x,
            final(self).cursor_y == old(self).cursor_y,
            final(self).trigger_prefix == old(self).trigger_prefix,
    {
        if prefix.is_empty() {
            self.items = duplicate_items(&self.full_items);
        } else {
            let lower = chars_of(to_lowercase(prefix).as_str());
            let ghost full = self.full_items.deep_view();
            let mut kept: Vec<CompletionItem> = Vec::new();
            let mut i: usize = 0;
            while i < self.full_items.len()
                invariant
                    i <= self.full_items.len(),
                    full == self.full_items.deep_view(),
                    lower@ == lowercase(prefix@),
                    kept.deep_view() == matching_items(full.take(i as int), lower@),
                decreases self.full_items.len() - i,
            {
                let label = chars_of(to_lowercase(self.full_items[i].label.as_str()).as_str());
                assert(full.take(i + 1).drop_last() =~= full.take(i as int));
                let ghost before = kept.deep_view();
                if starts_with_chars(label.as_slice(), lower.as_slice()) {
                    kept.push(self.full_items[i].duplicate());
                    assert(kept.deep_view() =~= before.push(full[i as int]));
                }
                i += 1;
            }
            assert(full.take(self.full_items.len() as int) =~= full);
            self.items = kept;
        }
        if self.items.len() == 0 {
            self.visible = false;
        } else {
            let last = self.items.len() - 1;
            if self.selected > last {
                self.selected = last;
            }
            self.visible = true;
        }
    }

    /// Hide the popup and drop its items.
    pub fn close(&mut self)
        ensures
            !final(self).visible,
            final(self).items.len() == 0,
            final(self).full_items.len() == 0,
            final(self).selected == 0,
            final(self).cursor_x == old(self).cursor_x,
            final(self).cursor_y == old(self).cursor_y,
            final(self).trigger_prefix == old(self).trigger_prefix,
    {
        self.visible = false;
        self.items.clear();
        self.full_items.clear();
        self.selected = 0;
    }

    /// Select the next item, wrapping around.
    pub fn select_next(&mut self)
        ensures
            final(self).items == old(self).items,
            final(self).visible == old(self).visible,
            final(self).selected == if old(self).items.len() == 0 {
                old(self).selected as int
            } else {
                (old(self).selected + 1) % (old(self).items.len() as int)
            },
    {
        if self.items.len() > 0 {
            self.selected = ((self.selected as u128 + 1) % (self.items.len() as u128)) as usize;
        }
    }

    /// Select the previous item, wrapping around.
    pub fn select_previous(&mut self)
        ensures
            final(self).items == old(self).items,
            final(self).visible == old(self).visible,
            final(self).selected == if old(self).items.len() == 0 {
                old(self).selected as int
            } else if old(self).selected == 0 {
                old(self).items.len() - 1
            } else {
                old(self).selected - 1
            },
    {
        if self.items.len() > 0 {
            self.selected = if self.selected == 0 {
                self.items.len() - 1
            } else {
                self.selected - 1
            };
        }
    }

    /// The selected item, if the selection points at one.
    pub fn accept(&self) -> (r: Option<&CompletionItem>)
        ensures
            self.selected < self.items.len() ==> r == Some(&self.items@[self.selected as int]),
            self.selected >= self.items.len() ==> r is None,
    {
        if self.selected < self.items.len() {
            Some(&self.items[self.selected])
        } else {
            None
        }
    }

    /// `self` is `old` after it handled `action` and answered `r`.
    pub open spec fn handled(&self, old: &CompletionPopup, action: Action, r: AppCommand) -> bool {
        &&& r == AppCommand::Nothing
        &&& match action {
            Action::CompletionUp => self.items == old.items
                && self.visible == old.visible
                && self.selected == if old.items.len() == 0 {
                    old.selected as int
                } else if old.selected == 0 {
                    old.items.len() - 1
                } else {
                    old.selected - 1
                },
            Action::CompletionDown => self.items == old.items
                && self.visible == old.visible
                && self.selected == if old.items.len() == 0 {
                    old.selected as int
                } else {
                    (old.selected + 1) % (old.items.len() as int)
                },
            Action::CompletionDismiss => !self.visible && self.items.len() == 0
                && self.full_items.len() == 0 && self.selected == 0,
            _ => *self == *old,
        }
    }

    /// Navigate or dismiss the popup; accepting is left to the app, which
    /// reads the selected item.
    pub fn handle_action(&mut self, action: &Action) -> (r: AppCommand)
        ensures
            final(self).handled(old(self), *action, r),
    {
        match action {
            Action::CompletionUp => {
                self.select_previous();
                AppCommand::Nothing
            },
            Action::CompletionDown => {
                self.select_next();
                AppCommand::Nothing
            },
            Action::CompletionDismiss => {
                self.close();
                AppCommand::Nothing
            },
            _ => AppCommand::Nothing,
        }
    }
}

} // verus!
