//! Key bindings: which action each key (with its modifiers) stands for in
//! each focus area.
use vstd::prelude::*;
use std::collections::HashMap;
use crate::input::actions::{Action, FocusArea};

verus! {

/// A key of the keyboard, as the keymaps know it.
#[derive(Debug, Clone, Copy, PartialEq, Eq, Structural, Hash)]
pub enum KeyCode {
    Backspace,
    Enter,
    Left,
    Right,
    Up,
    Down,
    Home,
    End,
    PageUp,
    PageDown,
    Tab,
    BackTab,
    Delete,
    Insert,
    /// A function key, by its number.
    F(u8),
    Char(char),
    Null,
    Esc,
    /// Any other key (lock keys, media keys, lone modifiers).
    Other,
}

/// No modifier key is held.
pub const NONE: u8 = 0;

/// The bit of the Shift key in a set of modifiers.
pub const SHIFT: u8 = 1;

/// The bit of the Control key in a set of modifiers.
pub const CONTROL: u8 = 2;

/// The bit of the Alt key in a set of modifiers.
pub const ALT: u8 = 4;

/// A number for each key, distinct for distinct keys: a character's code
/// point, and above all of them the function keys and the other keys.
pub open spec fn code_id(c: KeyCode) -> int {
    match c {
        KeyCode::Char(ch) => ch as int,
        KeyCode::F(n) => 0x110000 + n as int,
        KeyCode::Backspace => 0x110100,
        KeyCode::Enter => 0x110101,
        KeyCode::Left => 0x110102,
        KeyCode::Right => 0x110103,
        KeyCode::Up => 0x110104,
        KeyCode::Down => 0x110105,
        KeyCode::Home => 0x110106,
        KeyCode::End => 0x110107,
        KeyCode::PageUp => 0x110108,
        KeyCode::PageDown => 0x110109,
        KeyCode::Tab => 0x11010a,
        KeyCode::BackTab => 0x11010b,
        KeyCode::Delete => 0x11010c,
        KeyCode::Insert => 0x11010d,
        KeyCode::Null => 0x11010e,
        KeyCode::Esc => 0x11010f,
        KeyCode::Other => 0x110110,
    }
}

/// The number under which a key with its modifiers is bound: the
/// modifiers above the key's own number.
pub open spec fn key_id(modifiers: u8, code: KeyCode) -> u64 {
    (modifiers as int * 0x1_0000_0000 + code_id(code)) as u64
}

/// Distinct keys (with their modifiers) have distinct numbers.
pub proof fn lemma_key_id_injective(m1: u8, c1: KeyCode, m2: u8, c2: KeyCode)
    requires
        key_id(m1, c1) == key_id(m2, c2),
    ensures
        m1 == m2,
        c1 == c2,
{
    assert(code_id(c1) < 0x1_0000_0000 && code_id(c2) < 0x1_0000_0000);
    assert(m1 as int * 0x1_0000_0000 + code_id(c1) < 0x1_0000_0000_0000_0000) by (nonlinear_arith)
        requires
            m1 < 256,
            code_id(c1) < 0x1_0000_0000,
    ;
    assert(m2 as int * 0x1_0000_0000 + code_id(c2) < 0x1_0000_0000_0000_0000) by (nonlinear_arith)
        requires
            m2 < 256,
            code_id(c2) < 0x1_0000_0000,
    ;
    assert(m1 == m2) by (nonlinear_arith)
        requires
            m1 as int * 0x1_0000_0000 + code_id(c1) == m2 as int * 0x1_0000_0000 + code_id(c2),
            code_id(c1) < 0x1_0000_0000,
            code_id(c2) < 0x1_0000_0000,
    ;
    assert(code_id(c1) == code_id(c2));
    match c1 {
        KeyCode::Char(a) => {
            assert(c2 is Char);
            let b = c2->Char_0;
            assert(a as int == b as int);
        },
        _ => {},
    }
}

/// The number of a key with its modifiers.
fn key_id_of(modifiers: u8, code: KeyCode) -> (r: u64)
    ensures
        r == key_id(modifiers, code),
{
    let c: u64 = match code {
        KeyCode::Char(ch) => ch as u32 as u64,
        KeyCode::F(n) => 0x110000 + n as u64,
        KeyCode::Backspace => 0x110100,
        KeyCode::Enter => 0x110101,
        KeyCode::Left => 0x110102,
        KeyCode::Right => 0x110103,
        KeyCode::Up => 0x110104,
        KeyCode::Down => 0x110105,
        KeyCode::Home => 0x110106,
        KeyCode::End => 0x110107,
        KeyCode::PageUp => 0x110108,
        KeyCode::PageDown => 0x110109,
        KeyCode::Tab => 0x11010a,
        KeyCode::BackTab => 0x11010b,
        KeyCode::Delete => 0x11010c,
        KeyCode::Insert => 0x11010d,
        KeyCode::Null => 0x11010e,
        KeyCode::Esc => 0x11010f,
        KeyCode::Other => 0x110110,
    };
    assert(modifiers as u64 * 0x1_0000_0000 + c < 0x1_0000_0000_0000_0000) by (nonlinear_arith)
        requires
            modifiers < 256,
            c < 0x1_0000_0000,
    ;
    modifiers as u64 * 0x1_0000_0000 + c
}

/// The bindings `s` made one after another onto `base`: a later binding
/// of the same key replaces an earlier one.
pub open spec fn bound_onto(base: Map<u64, Action>, s: Seq<(u8, KeyCode, Action)>) -> Map<u64, Action>
    decreases s.len(),
{
    if s.len() == 0 {
        base
    } else {
        bound_onto(base.insert(key_id(s[0].0, s[0].1), s[0].2), s.drop_first())
    }
}

/// The bindings `s` made one after another onto an empty map.
pub open spec fn bound(s: Seq<(u8, KeyCode, Action)>) -> Map<u64, Action> {
    bound_onto(Map::empty(), s)
}

/// A mapping from keys with their modifiers to actions.
#[derive(Debug, Clone)]
pub struct Keymap {
    pub mappings: HashMap<u64, Action>,
}

impl Keymap {
    /// The action bound to a key with its modifiers, if any.
    pub open spec fn binding(&self, modifiers: u8, code: KeyCode) -> Option<Action> {
        if self.mappings@.contains_key(key_id(modifiers, code)) {
            Some(self.mappings@[key_id(modifiers, code)])
        } else {
            None
        }
    }

    /// A keymap with no binding.
    pub fn new() -> (k: Self)
        ensures
            k.mappings@ == Map::<u64, Action>::empty(),
    {
        Keymap { mappings: HashMap::new() }
    }

    /// Bind a key with its modifiers to `action`, replacing what it was
    /// bound to; every other key keeps its binding.
    pub fn bind(&mut self, modifiers: u8, code: KeyCode, action: Action)
        ensures
            final(self).mappings@ == old(self).mappings@.insert(key_id(modifiers, code), action),
            final(self).binding(modifiers, code) == Some(action),
            forall|m: u8, c: KeyCode|
                !(m == modifiers && c == code) ==> #[trigger] final(self).binding(m, c) == old(self).binding(m, c),
    {
        broadcast use vstd::std_specs::hash::group_hash_axioms;

        let k = key_id_of(modifiers, code);
        self.mappings.insert(k, action);
        proof {
            assert forall|m: u8, c: KeyCode|
                !(m == modifiers && c == code) implies #[trigger] self.binding(m, c) == old(self).binding(m, c) by {
                if key_id(m, c) == key_id(modifiers, code) {
                    lemma_key_id_injective(m, c, modifiers, code);
                }
            }
        }
    }

    /// Look up a key with its modifiers.
    pub fn get(&self, modifiers: u8, code: KeyCode) -> (r: Option<&Action>)
        ensures
            match r {
                Some(a) => self.binding(modifiers, code) == Some(*a),
                None => self.binding(modifiers, code) is None,
            },
    {
        broadcast use vstd::std_specs::hash::group_hash_axioms;

        let k = key_id_of(modifiers, code);
        self.mappings.get(&k)
    }

    /// A keymap with the bindings of `v` made in order.
    fn from_bindings(v: Vec<(u8, KeyCode, Action)>) -> (k: Self)
        ensures
            k.mappings@ == bound(v@),
    {
        let mut k = Keymap::new();
        let mut rest = v;
        let ghost all = rest@;
        while rest.len() > 0
            invariant
                bound_onto(k.mappings@, rest@) == bound(all),
            decreases rest.len(),
        {
            let ghost prev = rest@;
            let (m, c, a) = rest.remove(0);
            assert(rest@ =~= prev.drop_first());
            k.bind(m, c, a);
        }
        k
    }
}

/// One keymap per focus area, plus a global map that is consulted when the
/// area's own has no binding.
#[derive(Debug, Clone)]
pub struct KeymapSet {
    pub global: Keymap,
    pub editor: Keymap,
    pub sidebar: Keymap,
    pub command_palette: Keymap,
    pub completion: Keymap,
}

impl KeymapSet {
    /// The keymap of a focus area.
    pub open spec fn map_for(&self, focus: FocusArea) -> Keymap {
        match focus {
            FocusArea::Editor => self.editor,
            FocusArea::Sidebar => self.sidebar,
            FocusArea::CommandPalette => self.command_palette,
            FocusArea::CompletionPopup => self.completion,
        }
    }

    /// Return the focus-specific keymap for the given area.
    pub fn keymap_for(&self, focus: FocusArea) -> (r: &Keymap)
        ensures
            *r == self.map_for(focus),
    {
        match focus {
            FocusArea::Editor => &self.editor,
            FocusArea::Sidebar => &self.sidebar,
            FocusArea::CommandPalette => &self.command_palette,
            FocusArea::CompletionPopup => &self.completion,
        }
    }
}

impl Default for KeymapSet {
    /// The standard bindings.
    fn default() -> (s: Self)
        ensures
            s.global.mappings@ == bound(global_bindings()),
            s.editor.mappings@ == bound(editor_bindings()),
            s.sidebar.mappings@ == bound(sidebar_bindings()),
            s.command_palette.mappings@ == bound(palette_bindings()),
            s.completion.mappings@ == bound(completion_bindings()),
    {
        KeymapSet {
            global: Keymap::from_bindings(global_table()),
            editor: Keymap::from_bindings(editor_table()),
            sidebar: Keymap::from_bindings(sidebar_table()),
            command_palette: Keymap::from_bindings(palette_table()),
            completion: Keymap::from_bindings(completion_table()),
        }
    }
}

/// The bindings active in every focus area.
pub open spec fn global_bindings() -> Seq<(u8, KeyCode, Action)> {
    seq![
        (CONTROL, KeyCode::Char('b'), Action::ToggleSidebar),
        (CONTROL, KeyCode::Char('p'), Action::OpenCommandPalette),
        (CONTROL, KeyCode::Char('s'), Action::SaveFile),
        (CONTROL, KeyCode::Char('w'), Action::CloseTab),
        (CONTROL, KeyCode::Char('q'), Action::Quit),
        (ALT, KeyCode::Right, Action::NextTab),
        (ALT, KeyCode::Left, Action::PreviousTab),
        (NONE, KeyCode::Esc, Action::FocusNext),
        (CONTROL, KeyCode::Char('h'), Action::ShowShortcuts),
        (CONTROL | SHIFT, KeyCode::Char('F'), Action::ProjectSearch),
    ]
}

/// The bindings active in every focus area.
fn global_table() -> (v: Vec<(u8, KeyCode, Action)>)
    ensures
        v@ == global_bindings(),
{
    let v = vec![
        (CONTROL, KeyCode::Char('b'), Action::ToggleSidebar),
        (CONTROL, KeyCode::Char('p'), Action::OpenCommandPalette),
        (CONTROL, KeyCode::Char('s'), Action::SaveFile),
        (CONTROL, KeyCode::Char('w'), Action::CloseTab),
        (CONTROL, KeyCode::Char('q'), Action::Quit),
        (ALT, KeyCode::Right, Action::NextTab),
        (ALT, KeyCode::Left, Action::PreviousTab),
        (NONE, KeyCode::Esc, Action::FocusNext),
        (CONTROL, KeyCode::Char('h'), Action::ShowShortcuts),
        (CONTROL | SHIFT, KeyCode::Char('F'), Action::ProjectSearch),
    ];
    assert(v@ =~= global_bindings());
    v
}

/// The bindings of the editor.
pub open spec fn editor_bindings() -> Seq<(u8, KeyCode, Action)> {
    seq![
        (NONE, KeyCode::Up, Action::CursorUp),
        (NONE, KeyCode::Down, Action::CursorDown),
        (NONE, KeyCode::Left, Action::CursorLeft),
        (NONE, KeyCode::Right, Action::CursorRight),
        (CONTROL, KeyCode::Left, Action::CursorWordLeft),
        (CONTROL, KeyCode::Right, Action::CursorWordRight),
        (NONE, KeyCode::Home, Action::CursorLineStart),
        (NONE, KeyCode::End, Action::CursorLineEnd),
        (CONTROL, KeyCode::Home, Action::CursorFileStart),
        (CONTROL, KeyCode::End, Action::CursorFileEnd),
        (NONE, KeyCode::PageUp, Action::PageUp),
        (NONE, KeyCode::PageDown, Action::PageDown),
        (NONE, KeyCode::Enter, Action::InsertNewline),
        (NONE, KeyCode::Tab, Action::InsertTab),
        (NONE, KeyCode::Backspace, Action::DeleteBackward),
        (NONE, KeyCode::Delete, Action::DeleteForward),
        (CONTROL, KeyCode::Backspace, Action::DeleteWordBackward),
        (CONTROL, KeyCode::Delete, Action::DeleteWordForward),
        (CONTROL | SHIFT, KeyCode::Char('K'), Action::DeleteLine),
        (SHIFT, KeyCode::Up, Action::SelectUp),
        (SHIFT, KeyCode::Down, Action::SelectDown),
        (SHIFT, KeyCode::Left, Action::SelectLeft),
        (SHIFT, KeyCode::Right, Action::SelectRight),
        (CONTROL | SHIFT, KeyCode::Left, Action::SelectWordLeft),
        (CONTROL | SHIFT, KeyCode::Right, Action::SelectWordRight),
        (SHIFT, KeyCode::Home, Action::SelectLineStart),
        (SHIFT, KeyCode::End, Action::SelectLineEnd),
        (CONTROL, KeyCode::Char('a'), Action::SelectAll),
        (CONTROL, KeyCode::Char('d'), Action::SelectNextOccurrence),
        (CONTROL, KeyCode::Char('z'), Action::Undo),
        (CONTROL, KeyCode::Char('y'), Action::Redo),
        (CONTROL, KeyCode::Char('c'), Action::Copy),
        (CONTROL, KeyCode::Char('x'), Action::Cut),
        (CONTROL, KeyCode::Char('v'), Action::Paste),
        (CONTROL, KeyCode::Char('f'), Action::FindInFile),
        (CONTROL, KeyCode::Char('r'), Action::FindAndReplace),
        (CONTROL, KeyCode::Char('g'), Action::GoToLine),
        (CONTROL, KeyCode::Char(' '), Action::TriggerCompletion),
        (NONE, KeyCode::F(12), Action::GotoDefinition),
        (SHIFT, KeyCode::F(12), Action::FindReferences),
        (NONE, KeyCode::F(2), Action::RenameSymbol),
        (CONTROL, KeyCode::Char('.'), Action::CodeAction),
    ]
}

/// The bindings of the editor.
fn editor_table() -> (v: Vec<(u8, KeyCode, Action)>)
    ensures
        v@ == editor_bindings(),
{
    let v = vec![
        (NONE, KeyCode::Up, Action::CursorUp),
        (NONE, KeyCode::Down, Action::CursorDown),
        (NONE, KeyCode::Left, Action::CursorLeft),
        (NONE, KeyCode::Right, Action::CursorRight),
        (CONTROL, KeyCode::Left, Action::CursorWordLeft),
        (CONTROL, KeyCode::Right, Action::CursorWordRight),
        (NONE, KeyCode::Home, Action::CursorLineStart),
        (NONE, KeyCode::End, Action::CursorLineEnd),
        (CONTROL, KeyCode::Home, Action::CursorFileStart),
        (CONTROL, KeyCode::End, Action::CursorFileEnd),
        (NONE, KeyCode::PageUp, Action::PageUp),
        (NONE, KeyCode::PageDown, Action::PageDown),
        (NONE, KeyCode::Enter, Action::InsertNewline),
        (NONE, KeyCode::Tab, Action::InsertTab),
        (NONE, KeyCode::Backspace, Action::DeleteBackward),
        (NONE, KeyCode::Delete, Action::DeleteForward),
        (CONTROL, KeyCode::Backspace, Action::DeleteWordBackward),
        (CONTROL, KeyCode::Delete, Action::DeleteWordForward),
        (CONTROL | SHIFT, KeyCode::Char('K'), Action::DeleteLine),
        (SHIFT, KeyCode::Up, Action::SelectUp),
        (SHIFT, KeyCode::Down, Action::SelectDown),
        (SHIFT, KeyCode::Left, Action::SelectLeft),
        (SHIFT, KeyCode::Right, Action::SelectRight),
        (CONTROL | SHIFT, KeyCode::Left, Action::SelectWordLeft),
        (CONTROL | SHIFT, KeyCode::Right, Action::SelectWordRight),
        (SHIFT, KeyCode::Home, Action::SelectLineStart),
        (SHIFT, KeyCode::End, Action::SelectLineEnd),
        (CONTROL, KeyCode::Char('a'), Action::SelectAll),
        (CONTROL, KeyCode::Char('d'), Action::SelectNextOccurrence),
        (CONTROL, KeyCode::Char('z'), Action::Undo),
        (CONTROL, KeyCode::Char('y'), Action::Redo),
        (CONTROL, KeyCode::Char('c'), Action::Copy),
        (CONTROL, KeyCode::Char('x'), Action::Cut),
        (CONTROL, KeyCode::Char('v'), Action::Paste),
        (CONTROL, KeyCode::Char('f'), Action::FindInFile),
        (CONTROL, KeyCode::Char('r'), Action::FindAndReplace),
        (CONTROL, KeyCode::Char('g'), Action::GoToLine),
        (CONTROL, KeyCode::Char(' '), Action::TriggerCompletion),
        (NONE, KeyCode::F(12), Action::GotoDefinition),
        (SHIFT, KeyCode::F(12), Action::FindReferences),
        (NONE, KeyCode::F(2), Action::RenameSymbol),
        (CONTROL, KeyCode::Char('.'), Action::CodeAction),
    ];
    assert(v@ =~= editor_bindings());
    v
}

/// The bindings of the sidebar.
pub open spec fn sidebar_bindings() -> Seq<(u8, KeyCode, Action)> {
    seq![
        (NONE, KeyCode::Up, Action::TreeUp),
        (NONE, KeyCode::Down, Action::TreeDown),
        (NONE, KeyCode::Right, Action::TreeExpand),
        (NONE, KeyCode::Left, Action::TreeCollapse),
        (NONE, KeyCode::Enter, Action::TreeOpen),
        (NONE, KeyCode::Delete, Action::FileDelete),
        (NONE, KeyCode::Backspace, Action::FileDelete),
        (NONE, KeyCode::F(2), Action::FileRename),
        (NONE, KeyCode::Char('n'), Action::FileNew),
        (SHIFT, KeyCode::Char('N'), Action::DirNew),
        (CONTROL, KeyCode::Char('c'), Action::FileCopy),
        (CONTROL, KeyCode::Char('x'), Action::FileCut),
        (CONTROL, KeyCode::Char('v'), Action::FilePaste),
    ]
}

/// The bindings of the sidebar.
fn sidebar_table() -> (v: Vec<(u8, KeyCode, Action)>)
    ensures
        v@ == sidebar_bindings(),
{
    let v = vec![
        (NONE, KeyCode::Up, Action::TreeUp),
        (NONE, KeyCode::Down, Action::TreeDown),
        (NONE, KeyCode::Right, Action::TreeExpand),
        (NONE, KeyCode::Left, Action::TreeCollapse),
        (NONE, KeyCode::Enter, Action::TreeOpen),
        (NONE, KeyCode::Delete, Action::FileDelete),
        (NONE, KeyCode::Backspace, Action::FileDelete),
        (NONE, KeyCode::F(2), Action::FileRename),
        (NONE, KeyCode::Char('n'), Action::FileNew),
        (SHIFT, KeyCode::Char('N'), Action::DirNew),
        (CONTROL, KeyCode::Char('c'), Action::FileCopy),
        (CONTROL, KeyCode::Char('x'), Action::FileCut),
        (CONTROL, KeyCode::Char('v'), Action::FilePaste),
    ];
    assert(v@ =~= sidebar_bindings());
    v
}

/// The bindings of the completion popup.
pub open spec fn completion_bindings() -> Seq<(u8, KeyCode, Action)> {
    seq![
        (NONE, KeyCode::Up, Action::CompletionUp),
        (NONE, KeyCode::Down, Action::CompletionDown),
        (NONE, KeyCode::Enter, Action::CompletionAccept),
        (NONE, KeyCode::Tab, Action::CompletionAccept),
        (NONE, KeyCode::Esc, Action::CompletionDismiss),
    ]
}

/// The bindings of the completion popup.
fn completion_table() -> (v: Vec<(u8, KeyCode, Action)>)
    ensures
        v@ == completion_bindings(),
{
    let v = vec![
        (NONE, KeyCode::Up, Action::CompletionUp),
        (NONE, KeyCode::Down, Action::CompletionDown),
        (NONE, KeyCode::Enter, Action::CompletionAccept),
        (NONE, KeyCode::Tab, Action::CompletionAccept),
        (NONE, KeyCode::Esc, Action::CompletionDismiss),
    ];
    assert(v@ =~= completion_bindings());
    v
}

/// The bindings of the command palette.
pub open spec fn palette_bindings() -> Seq<(u8, KeyCode, Action)> {
    seq![
        (NONE, KeyCode::Up, Action::PaletteUp),
        (NONE, KeyCode::Down, Action::PaletteDown),
        (NONE, KeyCode::Enter, Action::PaletteAccept),
        (NONE, KeyCode::Esc, Action::PaletteDismiss),
        (NONE, KeyCode::Backspace, Action::PaletteBackspace),
    ]
}

/// The bindings of the command palette.
fn palette_table() -> (v: Vec<(u8, KeyCode, Action)>)
    ensures
        v@ == palette_bindings(),
{
    let v = vec![
        (NONE, KeyCode::Up, Action::PaletteUp),
        (NONE, KeyCode::Down, Action::PaletteDown),
        (NONE, KeyCode::Enter, Action::PaletteAccept),
        (NONE, KeyCode::Esc, Action::PaletteDismiss),
        (NONE, KeyCode::Backspace, Action::PaletteBackspace),
    ];
    assert(v@ =~= palette_bindings());
    v
}

} // verus!
