//! The styled spans that syntax highlighting produces.
use vstd::prelude::*;
use syntect::easy::HighlightLines;
use syntect::highlighting::ThemeSet;
use syntect::parsing::SyntaxSet;
use crate::editor::language::string_is;
use crate::path::{extension_of, path_extension};
use crate::text::{chars_of, first_newline, lemma_first_newline, lemma_first_newline_bounds, string_from_range, string_push};

verus! {

/// An RGB foreground color.
#[derive(Debug, Clone, Copy, PartialEq, Eq)]
pub struct HighlightStyle {
    pub fg: (u8, u8, u8),
}

impl HighlightStyle {
    pub fn new(r: u8, g: u8, b: u8) -> (s: Self)
        ensures
            s.fg == (r, g, b),
    {
        HighlightStyle { fg: (r, g, b) }
    }
}

/// A span of highlighted text.
#[derive(Debug, PartialEq, Eq)]
pub struct HighlightedSpan {
    pub style: HighlightStyle,
    pub text: String,
}

impl HighlightedSpan {
    pub fn new(style: HighlightStyle, text: String) -> (s: Self)
        ensures
            s.style == style,
            s.text == text,
    {
        HighlightedSpan { style, text }
    }
}

/// The name of the grammar to look for when no grammar is indexed under a
/// file extension.
pub open spec fn syntax_name_of(ext: Seq<char>) -> Option<Seq<char>> {
    if ext == "ts"@ {
        Some("TypeScript"@)
    } else if ext == "tsx"@ {
        Some("TypeScript React"@)
    } else if ext == "jsx"@ {
        Some("JSX"@)
    } else if ext == "mjs"@ || ext == "cjs"@ {
        Some("JavaScript"@)
    } else if ext == "toml"@ {
        Some("TOML"@)
    } else if ext == "yaml"@ || ext == "yml"@ {
        Some("YAML"@)
    } else {
        None
    }
}

/// The extension whose grammar stands in when neither the extension nor
/// the grammar's name finds one (TypeScript and JSX fall back to
/// JavaScript, TOML to INI).
pub open spec fn fallback_extension_of(ext: Seq<char>) -> Option<Seq<char>> {
    if ext == "ts"@ || ext == "tsx"@ || ext == "jsx"@ || ext == "mjs"@ || ext == "cjs"@ {
        Some("js"@)
    } else if ext == "toml"@ {
        Some("ini"@)
    } else {
        None
    }
}

/// The name of the grammar to look for by name, for an extension that the
/// grammar bundle may not index.
pub fn syntax_name_for(ext: &str) -> (r: Option<&'static str>)
    ensures
        match r {
            Some(n) => syntax_name_of(ext@) == Some(n@),
            None => syntax_name_of(ext@) is None,
        },
{
    let e = ext.to_owned();
    if string_is(&e, "ts") {
        Some("TypeScript")
    } else if string_is(&e, "tsx") {
        Some("TypeScript React")
    } else if string_is(&e, "jsx") {
        Some("JSX")
    } else if string_is(&e, "mjs") || string_is(&e, "cjs") {
        Some("JavaScript")
    } else if string_is(&e, "toml") {
        Some("TOML")
    } else if string_is(&e, "yaml") || string_is(&e, "yml") {
        Some("YAML")
    } else {
        None
    }
}

/// The extension whose grammar stands in, as [`fallback_extension_of`] says.
pub fn fallback_extension(ext: &str) -> (r: Option<&'static str>)
    ensures
        match r {
            Some(f) => fallback_extension_of(ext@) == Some(f@),
            None => fallback_extension_of(ext@) is None,
        },
{
    let e = ext.to_owned();
    if string_is(&e, "ts") || string_is(&e, "tsx") || string_is(&e, "jsx") || string_is(&e, "mjs")
        || string_is(&e, "cjs") {
        Some("js")
    } else if string_is(&e, "toml") {
        Some("ini")
    } else {
        None
    }
}

#[verifier::external_type_specification]
#[verifier::external_body]
pub struct ExSyntaxSet(SyntaxSet);

#[verifier::external_type_specification]
#[verifier::external_body]
pub struct ExThemeSet(ThemeSet);

/// The name of the grammar that syntect's default syntax set (with
/// newlines) finds for a file extension (compared ignoring ASCII case), if
/// any.
pub uninterp spec fn extension_grammar(ext: Seq<char>) -> Option<Seq<char>>;

/// Whether syntect's default syntax set has a grammar with this name.
pub uninterp spec fn grammar_named(name: Seq<char>) -> bool;

/// Whether syntect's default theme set has a theme with this name.
pub uninterp spec fn theme_named(name: Seq<char>) -> bool;

/// What syntect's `HighlightLines` makes of `line` with the grammar named
/// `grammar` in the default syntax set and the theme named `theme` in the
/// default theme set: the pieces of the line in order, each with its
/// foreground colour (empty when syntect reports an error).
pub uninterp spec fn highlighted(grammar: Seq<char>, theme: Seq<char>, line: Seq<char>) -> Seq<(u8, u8, u8, Seq<char>)>;

/// `SyntaxSet::load_defaults_newlines` from syntect.
#[verifier::external_body]
fn load_syntax_set() -> SyntaxSet {
    SyntaxSet::load_defaults_newlines()
}

/// `ThemeSet::load_defaults` from syntect.
#[verifier::external_body]
fn load_theme_set() -> ThemeSet {
    ThemeSet::load_defaults()
}

/// `SyntaxSet::find_syntax_by_extension` on the default set, taken by the
/// name of the grammar it finds; that grammar is found by its name too.
/// The library's only syntax set is the default one (`SyntaxHighlighter`'s
/// private field).
#[verifier::external_body]
fn find_grammar_by_extension(set: &SyntaxSet, ext: &str) -> (r: Option<String>)
    ensures
        match r {
            Some(n) => extension_grammar(ext@) == Some(n@) && grammar_named(n@),
            None => extension_grammar(ext@) is None,
        },
{
    set.find_syntax_by_extension(ext).map(|g| g.name.clone())
}

/// `SyntaxSet::find_syntax_by_name` on the default set: whether a grammar
/// has the name.
#[verifier::external_body]
fn has_grammar_named(set: &SyntaxSet, name: &str) -> (r: bool)
    ensures
        r == grammar_named(name@),
{
    set.find_syntax_by_name(name).is_some()
}

/// Whether the default theme set (`ThemeSet::themes`) has a theme with the
/// name.
#[verifier::external_body]
fn has_theme_named(themes: &ThemeSet, name: &str) -> (r: bool)
    ensures
        r == theme_named(name@),
{
    themes.themes.contains_key(name)
}

/// The coloured pieces of a line as the library holds them.
pub open spec fn pieces_view(v: Seq<(u8, u8, u8, String)>) -> Seq<(u8, u8, u8, Seq<char>)> {
    v.map_values(|p: (u8, u8, u8, String)| (p.0, p.1, p.2, p.3@))
}

/// `HighlightLines::highlight_line` of syntect on `line`, with the grammar
/// and the theme given by name, each piece taken with its foreground
/// colour.
#[verifier::external_body]
fn syntect_highlight(set: &SyntaxSet, themes: &ThemeSet, grammar: &str, theme: &str, line: &str) -> (r: Vec<(u8, u8, u8, String)>)
    requires
        grammar_named(grammar@),
        theme_named(theme@),
    ensures
        pieces_view(r@) == highlighted(grammar@, theme@, line@),
{
    let mut h = HighlightLines::new(set.find_syntax_by_name(grammar).unwrap(), &themes.themes[theme]);
    let ranges = h.highlight_line(line, set).unwrap_or_default();
    ranges.into_iter().map(|(st, t)| (st.foreground.r, st.foreground.g, st.foreground.b, t.to_string())).collect()
}

/// The theme the editor highlights with.
pub open spec fn editor_theme() -> Seq<char> {
    "base16-ocean.dark"@
}

/// The grammar used for a file extension, by name: the one found for the
/// extension, else the one named for it, else the one found for the
/// stand-in extension, else plain text; `None` when not even plain text
/// is there.
pub open spec fn grammar_choice(ext: Seq<char>) -> Option<Seq<char>> {
    if extension_grammar(ext) is Some {
        extension_grammar(ext)
    } else if syntax_name_of(ext) is Some && grammar_named(syntax_name_of(ext).unwrap()) {
        syntax_name_of(ext)
    } else if fallback_extension_of(ext) is Some && extension_grammar(fallback_extension_of(ext).unwrap()) is Some {
        extension_grammar(fallback_extension_of(ext).unwrap())
    } else if grammar_named("Plain Text"@) {
        Some("Plain Text"@)
    } else {
        None
    }
}

/// The line as syntect is given it: ending in a newline.
pub open spec fn with_newline(line: Seq<char>) -> Seq<char> {
    if line.len() > 0 && line.last() == '\n' {
        line
    } else {
        line.push('\n')
    }
}

/// The pieces a line is highlighted in for a file extension: the line,
/// ended by a newline, with the grammar [`grammar_choice`] picks and the
/// editor's theme; nothing when there is no grammar or no such theme.
pub open spec fn line_highlight(line: Seq<char>, ext: Seq<char>) -> Seq<(u8, u8, u8, Seq<char>)> {
    match grammar_choice(ext) {
        Some(g) => if theme_named(editor_theme()) {
            highlighted(g, editor_theme(), with_newline(line))
        } else {
            Seq::empty()
        },
        None => Seq::empty(),
    }
}

/// The spans of highlighted pieces.
pub open spec fn spans_view(v: Seq<HighlightedSpan>) -> Seq<(u8, u8, u8, Seq<char>)> {
    v.map_values(|s: HighlightedSpan| (s.style.fg.0, s.style.fg.1, s.style.fg.2, s.text@))
}

/// The name under which a file's text is highlighted: its extension when
/// the default syntax set finds a grammar for it, else `txt`.
pub open spec fn detected_syntax(path: Seq<char>) -> Seq<char> {
    let ext = match extension_of(path) {
        Some(e) => e,
        None => "txt"@,
    };
    if extension_grammar(ext) is Some { ext } else { "txt"@ }
}

/// The lines of a text with their line endings, as syntect's
/// `LinesWithEndings` gives them: split after each `'\n'`, the last one
/// without a newline when the text does not end in one.
pub open spec fn lines_with_endings(s: Seq<char>) -> Seq<Seq<char>>
    decreases s.len(),
{
    if s.len() == 0 {
        Seq::empty()
    } else {
        let j = first_newline(s);
        proof {
            lemma_first_newline_bounds(s);
        }
        if j >= s.len() {
            seq![s]
        } else {
            seq![s.take(j + 1)] + lines_with_endings(s.skip(j + 1))
        }
    }
}

/// Syntax highlighter backed by syntect's default grammars and themes.
pub struct SyntaxHighlighter {
    syntax_set: SyntaxSet,
    theme_set: ThemeSet,
}

impl SyntaxHighlighter {
    /// A highlighter with syntect's default syntax and theme sets.
    pub fn new() -> (h: Self) {
        SyntaxHighlighter { syntax_set: load_syntax_set(), theme_set: load_theme_set() }
    }

    /// The grammar for a file extension, as [`grammar_choice`] says.
    fn choose_grammar(&self, ext: &str) -> (r: Option<String>)
        ensures
            match r {
                Some(g) => grammar_choice(ext@) == Some(g@) && grammar_named(g@),
                None => grammar_choice(ext@) is None,
            },
    {
        if let Some(g) = find_grammar_by_extension(&self.syntax_set, ext) {
            return Some(g);
        }
        if let Some(name) = syntax_name_for(ext) {
            if has_grammar_named(&self.syntax_set, name) {
                return Some(name.to_owned());
            }
        }
        if let Some(fb) = fallback_extension(ext) {
            if let Some(g) = find_grammar_by_extension(&self.syntax_set, fb) {
                return Some(g);
            }
        }
        let plain = "Plain Text";
        if has_grammar_named(&self.syntax_set, plain) {
            proof {
                reveal_strlit("Plain Text");
            }
            return Some(plain.to_owned());
        }
        None
    }

    /// Highlight a single line of text for a file extension (e.g. `"rs"`):
    /// the line, ended by a newline, in coloured pieces, as
    /// [`line_highlight`] says.
    pub fn highlight_line(&self, line: &str, ext: &str) -> (r: Vec<HighlightedSpan>)
        ensures
            spans_view(r@) == line_highlight(line@, ext@),
    {
        let mut input = line.to_owned();
        let c = chars_of(line);
        if !(c.len() > 0 && c[c.len() - 1] == '\n') {
            string_push(&mut input, '\n');
        }
        assert(input@ == with_newline(line@));
        let theme = "base16-ocean.dark";
        let grammar = match self.choose_grammar(ext) {
            Some(g) => g,
            None => {
                return Vec::new();
            },
        };
        if !has_theme_named(&self.theme_set, theme) {
            return Vec::new();
        }
        let pieces = syntect_highlight(&self.syntax_set, &self.theme_set, grammar.as_str(), theme, input.as_str());
        let mut out: Vec<HighlightedSpan> = Vec::new();
        let mut i: usize = 0;
        while i < pieces.len()
            invariant
                i <= pieces.len(),
                out.len() == i,
                spans_view(out@) == pieces_view(pieces@).take(i as int),
            decreases pieces.len() - i,
        {
            let (r, g, b, ref t) = pieces[i];
            let ghost before = out@;
            out.push(HighlightedSpan::new(HighlightStyle::new(r, g, b), t.clone()));
            assert(out@ == before.push(out@[i as int]));
            assert(spans_view(out@)[i as int] == pieces_view(pieces@)[i as int]);
            assert(spans_view(out@) =~= pieces_view(pieces@).take(i + 1));
            i += 1;
        }
        assert(pieces_view(pieces@).take(pieces.len() as int) =~= pieces_view(pieces@));
        out
    }

    /// The name under which the file at `file_path` is highlighted: its
    /// extension when a grammar is found for it, else `"txt"`.
    pub fn detect_syntax(&self, file_path: &str) -> (r: String)
        ensures
            r@ == detected_syntax(file_path@),
    {
        let ext = match path_extension(file_path) {
            Some(e) => e,
            None => {
                proof {
                    reveal_strlit("txt");
                }
                "txt".to_owned()
            },
        };
        if find_grammar_by_extension(&self.syntax_set, ext.as_str()).is_some() {
            ext
        } else {
            proof {
                reveal_strlit("txt");
            }
            "txt".to_owned()
        }
    }
}

/// The spans of each highlighted line.
pub open spec fn lines_highlight(lines: Seq<Seq<char>>, ext: Seq<char>) -> Seq<Seq<(u8, u8, u8, Seq<char>)>> {
    lines.map_values(|l: Seq<char>| line_highlight(l, ext))
}

/// Split text into lines (keeping line endings) and highlight each one.
pub fn highlight_text(highlighter: &SyntaxHighlighter, text: &str, syntax_name: &str) -> (r: Vec<Vec<HighlightedSpan>>)
    ensures
        r.len() == lines_with_endings(text@).len(),
        forall|i: int| 0 <= i < r.len() ==> spans_view(#[trigger] r@[i]@) == line_highlight(lines_with_endings(text@)[i], syntax_name@),
{
    let c = chars_of(text);
    let ghost all = c@;
    let mut out: Vec<Vec<HighlightedSpan>> = Vec::new();
    let ghost mut done: Seq<Seq<char>> = Seq::empty();
    let mut start: usize = 0;
    assert(all.skip(0) =~= all);
    assert(Seq::<Seq<char>>::empty() + lines_with_endings(all) =~= lines_with_endings(all));
    while start < c.len()
        invariant
            start <= c.len(),
            all == c@,
            all == text@,
            lines_with_endings(all) == done + lines_with_endings(all.skip(start as int)),
            out.len() == done.len(),
            forall|i: int| 0 <= i < out.len() ==> spans_view(#[trigger] out@[i]@) == line_highlight(done[i], syntax_name@),
        decreases c.len() - start,
    {
        let mut j: usize = start;
        while j < c.len() && c[j] != '\n'
            invariant
                start <= j <= c.len(),
                forall|k: int| start <= k < j ==> c@[k] != '\n',
            decreases c.len() - j,
        {
            j += 1;
        }
        let ghost rest = all.skip(start as int);
        let ghost jj: int = j - start;
        assert forall|k: int| 0 <= k < jj implies rest[k] != '\n' by {
            assert(rest[k] == c@[start + k]);
        }
        if j < c.len() {
            assert(rest[jj] == c@[j as int]);
        }
        proof {
            lemma_first_newline(rest, jj);
        }
        let end: usize = if j < c.len() { j + 1 } else { j };
        let piece = string_from_range(c.as_slice(), start, end);
        if j < c.len() {
            assert(rest.take(jj + 1) =~= all.subrange(start as int, end as int));
            assert(rest.skip(jj + 1) =~= all.skip(end as int));
            assert(lines_with_endings(rest) == seq![rest.take(jj + 1)] + lines_with_endings(rest.skip(jj + 1)));
        } else {
            assert(rest =~= all.subrange(start as int, end as int));
            assert(all.skip(end as int) =~= Seq::<char>::empty());
            assert(lines_with_endings(rest) == seq![rest]);
            assert(lines_with_endings(all.skip(end as int)) == Seq::<Seq<char>>::empty());
        }
        let spans = highlighter.highlight_line(piece.as_str(), syntax_name);
        let ghost before = out@;
        out.push(spans);
        proof {
            let old_done = done;
            done = done.push(piece@);
            assert(done + lines_with_endings(all.skip(end as int)) =~= old_done + lines_with_endings(rest));
            assert forall|i: int| 0 <= i < out.len() implies spans_view(#[trigger] out@[i]@) == line_highlight(done[i], syntax_name@) by {
                if i < before.len() {
                    assert(out@[i] == before[i]);
                }
            }
        }
        start = end;
    }
    assert(all.skip(start as int) =~= Seq::<char>::empty());
    assert(done + Seq::<Seq<char>>::empty() =~= done);
    out
}

} // verus!
