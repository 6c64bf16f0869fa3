//! Turning terminal events into actions: key lookups in the keymaps, the
//! typing fallbacks, and pastes (which may be file drops).
use vstd::prelude::*;
use crate::files::drop_handler::{nonempty_trimmed, opt_view, trimmed_lines};
use crate::input::actions::{Action, FocusArea};
use crate::input::keymap::{
    bound, completion_bindings, editor_bindings, global_bindings, palette_bindings, sidebar_bindings,
    KeyCode, KeymapSet, SHIFT,
};
use crate::path::{home_dir, joined, path_exists, path_join};
use crate::text::{chars_of, copy_range, split_lines, string_from_chars, string_from_range, string_push, trim, trim_seq};

verus! {

/// A key press or release.
#[derive(Debug, Clone, Copy, PartialEq, Eq, Structural)]
pub struct KeyEvent {
    pub code: KeyCode,
    /// The held modifier keys, one bit each.
    pub modifiers: u8,
    /// A press (not a release or a repeat).
    pub press: bool,
}

/// A terminal event, as the input handler reads it.
#[derive(Debug, Clone, PartialEq, Eq)]
pub enum InputEvent {
    Key(KeyEvent),
    Paste(String),
    Resize(u16, u16),
    /// Any other event (focus changes, mouse).
    Other,
}

/// The value of an ASCII hexadecimal digit.
pub open spec fn hex_digit(c: char) -> Option<int> {
    if '0' <= c && c <= '9' {
        Some(c as int - '0' as int)
    } else if 'a' <= c && c <= 'f' {
        Some(c as int - 'a' as int + 10)
    } else if 'A' <= c && c <= 'F' {
        Some(c as int - 'A' as int + 10)
    } else {
        None
    }
}

/// The byte that up to two characters name as a hexadecimal number with an
/// optional leading `+`, as `u8::from_str_radix(_, 16)` reads it.
pub open spec fn hex_byte(h: Seq<char>) -> Option<u8> {
    let d = if h.len() > 0 && h[0] == '+' { h.drop_first() } else { h };
    if d.len() == 1 && hex_digit(d[0]) is Some {
        Some(hex_digit(d[0]).unwrap() as u8)
    } else if d.len() == 2 && hex_digit(d[0]) is Some && hex_digit(d[1]) is Some {
        Some((hex_digit(d[0]).unwrap() * 16 + hex_digit(d[1]).unwrap()) as u8)
    } else {
        None
    }
}

/// `s` with its percent escapes decoded: `%` and the (up to two) characters
/// after it become the character of the byte they name; when they name
/// none they are kept as they are.
pub open spec fn url_decoded(s: Seq<char>) -> Seq<char>
    decreases s.len(),
{
    if s.len() == 0 {
        s
    } else if s[0] == '%' {
        let n: int = if s.len() >= 3 { 2 } else { s.len() - 1 };
        let hex = s.subrange(1, 1 + n);
        match hex_byte(hex) {
            Some(b) => seq![b as char] + url_decoded(s.skip(1 + n)),
            None => seq!['%'] + hex + url_decoded(s.skip(1 + n)),
        }
    } else {
        seq![s[0]] + url_decoded(s.drop_first())
    }
}

/// `s` with each backslash-escaped space made a plain space.
pub open spec fn unescaped(s: Seq<char>) -> Seq<char>
    decreases s.len(),
{
    if s.len() == 0 {
        s
    } else if s.len() >= 2 && s[0] == '\\' && s[1] == ' ' {
        seq![' '] + unescaped(s.skip(2))
    } else {
        seq![s[0]] + unescaped(s.drop_first())
    }
}

/// `s` trimmed, then with a leading and a trailing `"` and then a leading
/// and a trailing `'` removed, each where there is one.
pub open spec fn unquoted(s: Seq<char>) -> Seq<char> {
    let t = trim_seq(s);
    let t1 = if t.len() > 0 && t[0] == '"' { t.drop_first() } else { t };
    let t2 = if t1.len() > 0 && t1.last() == '"' { t1.drop_last() } else { t1 };
    let t3 = if t2.len() > 0 && t2[0] == '\'' { t2.drop_first() } else { t2 };
    if t3.len() > 0 && t3.last() == '\'' { t3.drop_last() } else { t3 }
}

/// The `file://` scheme.
pub open spec fn file_scheme() -> Seq<char> {
    seq!['f', 'i', 'l', 'e', ':', '/', '/']
}

/// The path that a pasted line names, with `home` as the home directory: a
/// `file://` URI decoded, a `~` path under the home directory, or an
/// absolute path with its escaped spaces unescaped; none for anything else.
pub open spec fn path_text_of(s: Seq<char>, home: Option<Seq<char>>) -> Option<Seq<char>> {
    let u = unquoted(s);
    if u.len() >= 7 && u.subrange(0, 7) == file_scheme() {
        Some(url_decoded(u.skip(7)))
    } else if u.len() > 0 && u[0] == '~' {
        match home {
            Some(h) => Some(
                joined(h, if u.len() >= 2 && u[1] == '/' { u.skip(2) } else { u.skip(1) }),
            ),
            None => None,
        }
    } else if u.len() > 0 && u[0] == '/' {
        Some(unescaped(u))
    } else {
        None
    }
}

/// Line `l` names path `p` with some home directory.
pub open spec fn resolves(l: Seq<char>, p: Seq<char>) -> bool {
    exists|h: Option<Seq<char>>| #[trigger] path_text_of(l, h) == Some(p)
}

/// `ps` are the paths that the lines of pasted `text` name, one for each
/// line.
pub open spec fn names_paths(text: Seq<char>, ps: Seq<Seq<char>>) -> bool {
    let lines = nonempty_trimmed(split_lines(text));
    &&& ps.len() == lines.len()
    &&& lines.len() > 0
    &&& forall|i: int| 0 <= i < lines.len() ==> #[trigger] resolves(lines[i], ps[i])
}

/// The action a paste of `text` becomes when its lines name existing files:
/// a file drop of those files.
pub open spec fn dropped(text: Seq<char>, r: Action) -> bool {
    r is FileDrop && names_paths(text, r->FileDrop_0@.map_values(|p: String| p@))
}

/// What a paste of `text` becomes: nothing when it is blank; otherwise a
/// file drop when its lines name existing files, or else its trimmed text.
pub open spec fn pasted(text: Seq<char>, r: Action) -> bool {
    let t = trim_seq(text);
    if t.len() == 0 {
        r == Action::Noop
    } else {
        (r matches Action::PasteText(p) && p@ == t) || dropped(t, r)
    }
}

/// The action an unbound key stands for: typing its character (plain or
/// with Shift) in the editor or the command palette; nothing elsewhere.
pub open spec fn fallback(focus: FocusArea, modifiers: u8, code: KeyCode) -> Action {
    if code is Char && (modifiers == 0 || modifiers == SHIFT) {
        match focus {
            FocusArea::Editor => Action::InsertChar(code->Char_0),
            FocusArea::CommandPalette => Action::PaletteInput(code->Char_0),
            _ => Action::Noop,
        }
    } else {
        Action::Noop
    }
}

/// The value of a hexadecimal digit.
fn hex_digit_of(c: char) -> (r: Option<u8>)
    ensures
        match r {
            Some(v) => hex_digit(c) == Some(v as int),
            None => hex_digit(c) is None,
        },
{
    if '0' <= c && c <= '9' {
        Some((c as u32 - '0' as u32) as u8)
    } else if 'a' <= c && c <= 'f' {
        Some((c as u32 - 'a' as u32 + 10) as u8)
    } else if 'A' <= c && c <= 'F' {
        Some((c as u32 - 'A' as u32 + 10) as u8)
    } else {
        None
    }
}

/// The byte that `c[start..start + n]` names, as [`hex_byte`] says.
fn hex_byte_at(c: &Vec<char>, start: usize, n: usize) -> (r: Option<u8>)
    requires
        start + n <= c.len(),
        n <= 2,
    ensures
        r == hex_byte(c@.subrange(start as int, start + n)),
{
    let ghost h = c@.subrange(start as int, start + n);
    let mut a = start;
    if n > 0 && c[a] == '+' {
        a += 1;
    }
    let ghost d = if h.len() > 0 && h[0] == '+' { h.drop_first() } else { h };
    assert(d =~= c@.subrange(a as int, start + n));
    let len = start + n - a;
    if len == 1 {
        match hex_digit_of(c[a]) {
            Some(v) => Some(v),
            None => None,
        }
    } else if len == 2 {
        match (hex_digit_of(c[a]), hex_digit_of(c[a + 1])) {
            (Some(hi), Some(lo)) => Some(hi * 16 + lo),
            _ => None,
        }
    } else {
        None
    }
}

/// Decode percent-encoded URL characters (e.g. `%20` becomes a space).
pub fn url_decode(s: &str) -> (r: String)
    ensures
        r@ == url_decoded(s@),
{
    let c = chars_of(s);
    let mut out = String::new();
    let mut i: usize = 0;
    assert(s@.skip(0) =~= s@);
    while i < c.len()
        invariant
            c@ == s@,
            i <= c.len(),
            out@ + url_decoded(s@.skip(i as int)) == url_decoded(s@),
        decreases c.len() - i,
    {
        let ghost rest = s@.skip(i as int);
        let ghost before = out@;
        assert(rest[0] == c@[i as int]);
        if c[i] == '%' {
            let n: usize = if c.len() - i >= 3 { 2 } else { c.len() - i - 1 };
            assert(rest.subrange(1, 1 + n) =~= c@.subrange(i + 1, i + 1 + n));
            assert(rest.skip(1 + n) =~= s@.skip(i + 1 + n));
            match hex_byte_at(&c, i + 1, n) {
                Some(b) => {
                    string_push(&mut out, b as char);
                },
                None => {
                    string_push(&mut out, '%');
                    let mut j: usize = 0;
                    while j < n
                        invariant
                            j <= n <= 2,
                            i + 1 + n <= c.len(),
                            c@ == s@,
                            out@ == before + seq!['%'] + c@.subrange(i + 1, i + 1 + j),
                        decreases n - j,
                    {
                        string_push(&mut out, c[i + 1 + j]);
                        j += 1;
                        assert(out@ =~= before + seq!['%'] + c@.subrange(i + 1, i + 1 + j));
                    }
                },
            }
            i = i + 1 + n;
        } else {
            string_push(&mut out, c[i]);
            assert(rest.drop_first() =~= s@.skip(i + 1));
            i += 1;
        }
        assert(out@ + url_decoded(s@.skip(i as int)) =~= before + url_decoded(rest));
    }
    assert(s@.skip(i as int) =~= Seq::<char>::empty());
    assert(out@ + Seq::<char>::empty() =~= out@);
    out
}

/// `u` with each backslash-escaped space made a plain space.
fn unescape(u: &Vec<char>) -> (r: String)
    ensures
        r@ == unescaped(u@),
{
    let mut out = String::new();
    let mut i: usize = 0;
    assert(u@.skip(0) =~= u@);
    while i < u.len()
        invariant
            i <= u.len(),
            out@ + unescaped(u@.skip(i as int)) == unescaped(u@),
        decreases u.len() - i,
    {
        let ghost rest = u@.skip(i as int);
        let ghost before = out@;
        if i + 1 < u.len() && u[i] == '\\' && u[i + 1] == ' ' {
            string_push(&mut out, ' ');
            assert(rest.skip(2) =~= u@.skip(i + 2));
            i += 2;
        } else {
            string_push(&mut out, u[i]);
            assert(rest.drop_first() =~= u@.skip(i + 1));
            i += 1;
        }
        assert(out@ + unescaped(u@.skip(i as int)) =~= before + unescaped(rest));
    }
    assert(u@.skip(i as int) =~= Seq::<char>::empty());
    assert(out@ + Seq::<char>::empty() =~= out@);
    out
}

/// `s` trimmed and unquoted, as [`unquoted`] says.
fn unquote(s: &str) -> (r: Vec<char>)
    ensures
        r@ == unquoted(s@),
{
    let c = chars_of(s);
    let t = trim(c.as_slice());
    let mut a: usize = 0;
    let mut b: usize = t.len();
    if a < b && t[a] == '"' {
        a += 1;
    }
    let ghost t1 = t@.subrange(a as int, b as int);
    if a < b && t[b - 1] == '"' {
        b -= 1;
    }
    let ghost t2 = t@.subrange(a as int, b as int);
    if a < b && t[a] == '\'' {
        a += 1;
    }
    let ghost t3 = t@.subrange(a as int, b as int);
    if a < b && t[b - 1] == '\'' {
        b -= 1;
    }
    proof {
        let u = trim_seq(s@);
        let u1 = if u.len() > 0 && u[0] == '"' { u.drop_first() } else { u };
        assert(t1 =~= u1);
        let u2 = if u1.len() > 0 && u1.last() == '"' { u1.drop_last() } else { u1 };
        assert(t2 =~= u2);
        let u3 = if u2.len() > 0 && u2[0] == '\'' { u2.drop_first() } else { u2 };
        assert(t3 =~= u3);
        assert(t@.subrange(a as int, b as int) =~= if u3.len() > 0 && u3.last() == '\'' {
            u3.drop_last()
        } else {
            u3
        });
    }
    copy_range(t.as_slice(), a, b)
}

/// The path that a pasted line names, as [`path_text_of`] says, with
/// `home` as the home directory.
pub fn path_text(s: &str, home: &Option<String>) -> (r: Option<String>)
    ensures
        opt_view(r) == path_text_of(s@, opt_view(*home)),
{
    let u = unquote(s);
    let scheme = vec!['f', 'i', 'l', 'e', ':', '/', '/'];
    let mut is_uri = u.len() >= 7;
    let mut k: usize = 0;
    while is_uri && k < 7
        invariant
            u.len() >= 7 || !is_uri,
            scheme@ == file_scheme(),
            k <= 7,
            is_uri ==> forall|m: int| 0 <= m < k ==> u@[m] == scheme@[m],
            !is_uri ==> !(u@.len() >= 7 && u@.subrange(0, 7) == file_scheme()),
        decreases 7 - k,
    {
        if u[k] != scheme[k] {
            is_uri = false;
            assert(u@.subrange(0, 7)[k as int] != file_scheme()[k as int]);
        }
        k += 1;
    }
    if is_uri {
        assert(u@.subrange(0, 7) =~= file_scheme());
        let rest = string_from_range(u.as_slice(), 7, u.len());
        assert(u@.subrange(7, u@.len() as int) =~= u@.skip(7));
        Some(url_decode(rest.as_str()))
    } else if u.len() > 0 && u[0] == '~' {
        match home {
            Some(h) => {
                let start: usize = if u.len() >= 2 && u[1] == '/' { 2 } else { 1 };
                let rest = string_from_range(u.as_slice(), start, u.len());
                assert(u@.subrange(start as int, u@.len() as int) =~= u@.skip(start as int));
                Some(path_join(h.as_str(), rest.as_str()))
            },
            None => None,
        }
    } else if u.len() > 0 && u[0] == '/' {
        Some(unescape(&u))
    } else {
        None
    }
}

/// The file drop that pasted lines resolving to `resolved` make: every line
/// must name an existing path.
pub fn drop_action(resolved: &Vec<Option<String>>) -> (r: Option<Action>)
    ensures
        match r {
            Some(a) => {
                &&& resolved.len() > 0
                &&& forall|i: int| 0 <= i < resolved.len() ==> (#[trigger] resolved@[i]) is Some
                &&& a matches Action::FileDrop(ps) && ps.len() == resolved.len() && forall|i: int|
                    0 <= i < resolved.len() ==> #[trigger] ps@[i]@ == resolved@[i]->Some_0@
            },
            None => resolved.len() == 0 || exists|i: int| 0 <= i < resolved.len() && (#[trigger] resolved@[i]) is None,
        },
{
    if resolved.len() == 0 {
        return None;
    }
    let mut paths: Vec<String> = Vec::new();
    let mut i: usize = 0;
    while i < resolved.len()
        invariant
            i <= resolved.len(),
            paths.len() == i,
            forall|k: int| 0 <= k < i ==> (#[trigger] resolved@[k]) is Some,
            forall|k: int| 0 <= k < i ==> #[trigger] paths@[k]@ == resolved@[k]->Some_0@,
        decreases resolved.len() - i,
    {
        match &resolved[i] {
            Some(p) => {
                paths.push(p.clone());
            },
            None => {
                assert(resolved@[i as int] is None);
                return None;
            },
        }
        i += 1;
    }
    Some(Action::FileDrop(paths))
}

/// Pasted lines that each resolved to a path make the file drop of those
/// paths.
proof fn lemma_dropped(text: Seq<char>, ps: Vec<String>, resolved: Seq<Option<String>>)
    requires
        resolved.len() == nonempty_trimmed(split_lines(text)).len(),
        resolved.len() > 0,
        ps.len() == resolved.len(),
        forall|i: int| 0 <= i < resolved.len() ==> (#[trigger] resolved[i]) is Some,
        forall|i: int| 0 <= i < resolved.len() ==> #[trigger] ps@[i]@ == resolved[i]->Some_0@,
        forall|k: int|
            0 <= k < resolved.len() ==> match #[trigger] resolved[k] {
                Some(p) => resolves(nonempty_trimmed(split_lines(text))[k], p@),
                None => true,
            },
    ensures
        dropped(text, Action::FileDrop(ps)),
{
    let lines = nonempty_trimmed(split_lines(text));
    let v = ps@.map_values(|p: String| p@);
    assert forall|i: int| 0 <= i < lines.len() implies #[trigger] resolves(lines[i], v[i]) by {
        assert(resolved[i] is Some);
        assert(v[i] == ps@[i]@);
    }
}

/// Translates raw terminal events into semantic `Action`s using the current keymap.
#[derive(Debug, Clone)]
pub struct InputHandler {
    pub keymap_set: KeymapSet,
}

impl InputHandler {
    /// The action a key event stands for: none for a release; else the
    /// binding in the focused area's keymap, then in the global keymap,
    /// then the typing fallback.
    pub open spec fn key_action(&self, key: KeyEvent, focus: FocusArea) -> Action {
        if !key.press {
            Action::Noop
        } else {
            match self.keymap_set.map_for(focus).binding(key.modifiers, key.code) {
                Some(a) => a,
                None => match self.keymap_set.global.binding(key.modifiers, key.code) {
                    Some(a) => a,
                    None => fallback(focus, key.modifiers, key.code),
                },
            }
        }
    }

    pub fn new(keymap_set: KeymapSet) -> (h: Self)
        ensures
            h.keymap_set == keymap_set,
    {
        InputHandler { keymap_set }
    }

    /// Map an event to an action, given the current focus area: keys are
    /// looked up, pastes become text or file drops, and anything else is
    /// nothing.
    pub fn handle_event(&self, event: &InputEvent, focus: FocusArea) -> (r: Action)
        ensures
            match *event {
                InputEvent::Key(k) => r.same_as(&self.key_action(k, focus)),
                InputEvent::Paste(t) => pasted(t@, r),
                _ => r == Action::Noop,
            },
    {
        match event {
            InputEvent::Key(key_event) => self.handle_key(key_event, focus),
            InputEvent::Paste(text) => self.handle_paste(text.as_str()),
            InputEvent::Resize(_, _) => Action::Noop,
            InputEvent::Other => Action::Noop,
        }
    }

    fn handle_key(&self, key: &KeyEvent, focus: FocusArea) -> (r: Action)
        ensures
            r.same_as(&self.key_action(*key, focus)),
    {
        // Only key presses count: a release (or repeat) would fire an
        // action twice on platforms that send both.
        if !key.press {
            return Action::Noop;
        }
        let modifiers = key.modifiers;
        let code = key.code;
        let focus_map = self.keymap_set.keymap_for(focus);
        if let Some(action) = focus_map.get(modifiers, code) {
            return action.duplicate();
        }
        if let Some(action) = self.keymap_set.global.get(modifiers, code) {
            return action.duplicate();
        }
        match focus {
            FocusArea::Editor => self.editor_fallback(modifiers, code),
            FocusArea::CommandPalette => self.palette_fallback(modifiers, code),
            _ => Action::Noop,
        }
    }

    /// Fallback rules for unbound keys when the editor is focused.
    fn editor_fallback(&self, modifiers: u8, code: KeyCode) -> (r: Action)
        ensures
            r == fallback(FocusArea::Editor, modifiers, code),
    {
        if let KeyCode::Char(c) = code {
            if modifiers == 0 || modifiers == SHIFT {
                return Action::InsertChar(c);
            }
        }
        Action::Noop
    }

    /// Fallback rules for unbound keys when the command palette is focused.
    fn palette_fallback(&self, modifiers: u8, code: KeyCode) -> (r: Action)
        ensures
            r == fallback(FocusArea::CommandPalette, modifiers, code),
    {
        if let KeyCode::Char(c) = code {
            if modifiers == 0 || modifiers == SHIFT {
                return Action::PaletteInput(c);
            }
        }
        Action::Noop
    }

    /// Handle a paste event from the terminal.
    fn handle_paste(&self, text: &str) -> (r: Action)
        ensures
            pasted(text@, r),
    {
        let c = chars_of(text);
        let t = trim(c.as_slice());
        if t.len() == 0 {
            return Action::Noop;
        }
        let trimmed = string_from_chars(t.as_slice());
        match Self::try_parse_file_drop(trimmed.as_str()) {
            Some(action) => action,
            None => Action::PasteText(trimmed),
        }
    }

    /// Try to interpret pasted content as a file drop: every non-empty
    /// line must name an existing path.
    pub fn try_parse_file_drop(text: &str) -> (r: Option<Action>)
        ensures
            nonempty_trimmed(split_lines(text@)).len() == 0 ==> r is None,
            match r {
                Some(a) => dropped(text@, a),
                None => true,
            },
    {
        let lines = trimmed_lines(text);
        let ghost ls = lines.deep_view();
        let mut resolved: Vec<Option<String>> = Vec::new();
        let mut i: usize = 0;
        while i < lines.len()
            invariant
                i <= lines.len(),
                ls == lines.deep_view(),
                resolved.len() == i,
                forall|k: int|
                    0 <= k < i ==> match #[trigger] resolved@[k] {
                        Some(p) => resolves(ls[k], p@),
                        None => true,
                    },
            decreases lines.len() - i,
        {
            let line = string_from_chars(lines[i].as_slice());
            assert(lines[i as int]@ =~= ls[i as int]);
            resolved.push(Self::parse_as_path(line.as_str()));
            i += 1;
        }
        let r = drop_action(&resolved);
        proof {
            if r is Some {
                lemma_dropped(text@, r->Some_0->FileDrop_0, resolved@);
            }
        }
        r
    }

    /// Try to interpret a string as an existing file path.
    pub fn parse_as_path(s: &str) -> (r: Option<String>)
        ensures
            match r {
                Some(p) => resolves(s@, p@),
                None => true,
            },
    {
        let home = home_dir();
        match path_text(s, &home) {
            Some(p) => {
                if path_exists(p.as_str()) {
                    assert(path_text_of(s@, opt_view(home)) == Some(p@));
                    Some(p)
                } else {
                    None
                }
            },
            None => None,
        }
    }
}

impl Default for InputHandler {
    /// A handler with the standard bindings.
    fn default() -> (h: Self)
        ensures
            h.keymap_set.global.mappings@ == bound(global_bindings()),
            h.keymap_set.editor.mappings@ == bound(editor_bindings()),
            h.keymap_set.sidebar.mappings@ == bound(sidebar_bindings()),
            h.keymap_set.command_palette.mappings@ == bound(palette_bindings()),
            h.keymap_set.completion.mappings@ == bound(completion_bindings()),
    {
        Self::new(KeymapSet::default())
    }
}

} // verus!
