//! Recognising file drops that arrive as bracketed paste.
use vstd::prelude::*;
use crate::path::{home_dir, joined, path_exists, path_join};
use crate::text::{chars_of, lines_of, split_lines, string_from_chars, string_from_range, trim, trim_seq};

verus! {

/// Handles file drops via bracketed paste in the terminal.
pub struct DropHandler;

/// The characters of an optional string.
pub open spec fn opt_view(o: Option<String>) -> Option<Seq<char>> {
    match o {
        Some(s) => Some(s@),
        None => None,
    }
}

/// An ASCII letter.
pub open spec fn ascii_alpha(c: char) -> bool {
    ('a' <= c <= 'z') || ('A' <= c <= 'Z')
}

/// A text that looks like a file-system path: it starts with `/` or `~`, or
/// with a drive letter, `:` and a slash or backslash.
pub open spec fn path_like(s: Seq<char>) -> bool {
    (s.len() > 0 && (s[0] == '/' || s[0] == '~'))
    || (s.len() >= 3 && ascii_alpha(s[0]) && s[1] == ':' && (s[2] == '\\' || s[2] == '/'))
}

/// Check if a string looks like a file-system path.
pub fn looks_like_path(s: &str) -> (r: bool)
    ensures
        r == path_like(s@),
{
    let c = chars_of(s);
    if c.len() > 0 && (c[0] == '/' || c[0] == '~') {
        return true;
    }
    if c.len() >= 3 {
        let a = c[0];
        if (('a' <= a && a <= 'z') || ('A' <= a && a <= 'Z')) && c[1] == ':' && (c[2] == '\\' || c[2]
            == '/') {
            return true;
        }
    }
    false
}

/// `path` with a leading `~` replaced by `home` (a `/` right after the `~`
/// is dropped); unchanged when it has no `~` or there is no home directory.
pub open spec fn expanded(path: Seq<char>, home: Option<Seq<char>>) -> Seq<char> {
    if path.len() > 0 && path[0] == '~' {
        match home {
            Some(h) => {
                let rest = path.drop_first();
                let rest = if rest.len() > 0 && rest[0] == '/' { rest.drop_first() } else { rest };
                joined(h, rest)
            },
            None => path,
        }
    } else {
        path
    }
}

/// Expand a leading `~` to the given home directory.
pub fn expand_tilde_with(path: &str, home: &Option<String>) -> (r: String)
    ensures
        r@ == expanded(path@, opt_view(*home)),
{
    let c = chars_of(path);
    if c.len() > 0 && c[0] == '~' {
        match home {
            Some(h) => {
                let start: usize = if c.len() > 1 && c[1] == '/' { 2 } else { 1 };
                let rest = string_from_range(c.as_slice(), start, c.len());
                assert(c@.subrange(start as int, c@.len() as int) =~= if c@.drop_first().len() > 0
                    && c@.drop_first()[0] == '/' {
                    c@.drop_first().drop_first()
                } else {
                    c@.drop_first()
                });
                path_join(h.as_str(), rest.as_str())
            },
            None => path.to_owned(),
        }
    } else {
        path.to_owned()
    }
}

/// Expand a leading `~` to the user's home directory.
pub fn expand_tilde(path: &str) -> (r: String)
    ensures
        !(path@.len() > 0 && path@[0] == '~') ==> r@ == path@,
        exists|h: Option<Seq<char>>| r@ == expanded(path@, h),
{
    let home = home_dir();
    let r = expand_tilde_with(path, &home);
    assert(r@ == expanded(path@, opt_view(home)));
    r
}

/// The non-empty trimmed lines of a text, in order.
pub open spec fn nonempty_trimmed(lines: Seq<Seq<char>>) -> Seq<Seq<char>>
    decreases lines.len(),
{
    if lines.len() == 0 {
        Seq::empty()
    } else {
        let rest = nonempty_trimmed(lines.drop_last());
        let t = trim_seq(lines.last());
        if t.len() > 0 { rest.push(t) } else { rest }
    }
}

/// The non-empty trimmed lines of `content`.
pub fn trimmed_lines(content: &str) -> (r: Vec<Vec<char>>)
    ensures
        r.deep_view() == nonempty_trimmed(split_lines(content@)),
{
    let c = chars_of(content);
    let lines = lines_of(c.as_slice());
    let ghost ls = lines.deep_view();
    let mut r: Vec<Vec<char>> = Vec::new();
    let mut i: usize = 0;
    while i < lines.len()
        invariant
            i <= lines.len(),
            ls == lines.deep_view(),
            r.deep_view() == nonempty_trimmed(ls.take(i as int)),
        decreases lines.len() - i,
    {
        let t = trim(lines[i].as_slice());
        assert(ls.take(i + 1).drop_last() =~= ls.take(i as int));
        assert(lines[i as int]@ =~= ls[i as int]);
        assert(ls.take(i + 1).last() == ls[i as int]);
        if t.len() > 0 {
            let ghost before = r.deep_view();
            assert(t.deep_view() =~= t@);
            r.push(t);
            assert(r.deep_view() =~= before.push(t@));
        }
        i += 1;
    }
    assert(ls.take(lines.len() as int) =~= ls);
    r
}

/// The paths a drop of `content` names, with `~` expanded to `home`.
pub open spec fn drop_candidates(content: Seq<char>, home: Option<Seq<char>>) -> Seq<Seq<char>> {
    nonempty_trimmed(split_lines(content)).map_values(|l: Seq<char>| expanded(l, home))
}

/// Every text of `s` looks like a path.
pub open spec fn all_path_like(s: Seq<Seq<char>>) -> bool {
    forall|k: int| 0 <= k < s.len() ==> path_like(#[trigger] s[k])
}

/// The characters of each string, in order.
pub open spec fn texts(v: Seq<String>) -> Seq<Seq<char>> {
    v.map_values(|p: String| p@)
}

/// The texts of `cands` whose answer in `exists` is `true`, in order.
pub open spec fn kept(cands: Seq<Seq<char>>, exists: Seq<bool>) -> Seq<Seq<char>>
    decreases cands.len(),
{
    if cands.len() == 0 || exists.len() == 0 {
        Seq::empty()
    } else {
        let rest = kept(cands.drop_last(), exists.drop_last());
        if exists.last() {
            rest.push(cands.last())
        } else {
            rest
        }
    }
}

/// Whether pasted lines are a file drop, given for each line whether the
/// path it names exists: there is a line, every line looks like a path,
/// and at least one of them exists.
pub open spec fn drop_answer(lines: Seq<Seq<char>>, exists: Seq<bool>) -> bool {
    &&& lines.len() > 0
    &&& all_path_like(lines)
    &&& exists|k: int| 0 <= k < exists.len() && #[trigger] exists[k]
}

/// The paths the non-empty trimmed lines of `content` name, with a leading
/// `~` expanded to `home`, in order.
pub fn drop_paths(content: &str, home: &Option<String>) -> (r: Vec<String>)
    ensures
        texts(r@) == drop_candidates(content@, opt_view(*home)),
{
    let lines = trimmed_lines(content);
    let ghost hv = opt_view(*home);
    let ghost cands = lines.deep_view().map_values(|l: Seq<char>| expanded(l, hv));
    assert(cands.len() == lines.deep_view().len());
    let mut r: Vec<String> = Vec::new();
    let mut i: usize = 0;
    while i < lines.len()
        invariant
            i <= lines.len(),
            cands == lines.deep_view().map_values(|l: Seq<char>| expanded(l, hv)),
            hv == opt_view(*home),
            cands.len() == lines.len(),
            r.len() == i,
            texts(r@) == cands.take(i as int),
        decreases lines.len() - i,
    {
        let line = string_from_chars(lines[i].as_slice());
        assert(lines[i as int]@ =~= lines.deep_view()[i as int]);
        let p = expand_tilde_with(line.as_str(), home);
        assert(p@ == cands[i as int]);
        let ghost before = r@;
        let ghost pv = p;
        r.push(p);
        assert(r@ == before.push(pv));
        assert(before.len() == i);
        assert forall|k: int| 0 <= k < i + 1 implies #[trigger] texts(r@)[k] == cands.take(
            i + 1,
        )[k] by {
            if k < i {
                assert(r@[k] == before[k]);
                assert(texts(before)[k] == cands.take(i as int)[k]);
            }
        }
        assert(texts(r@) =~= cands.take(i + 1));
        i += 1;
    }
    assert(cands.take(lines.len() as int) =~= cands);
    r
}

/// The paths of `cands` whose answer in `exists` is `true`, in order.
pub fn keep_existing(cands: &Vec<String>, exists: &Vec<bool>) -> (r: Vec<String>)
    requires
        exists.len() == cands.len(),
    ensures
        texts(r@) == kept(texts(cands@), exists@),
{
    let ghost cs = texts(cands@);
    let mut r: Vec<String> = Vec::new();
    let mut i: usize = 0;
    while i < cands.len()
        invariant
            i <= cands.len(),
            exists.len() == cands.len(),
            cs == texts(cands@),
            texts(r@) == kept(cs.take(i as int), exists@.take(i as int)),
        decreases cands.len() - i,
    {
        assert(cs.take(i + 1).drop_last() =~= cs.take(i as int));
        assert(exists@.take(i + 1).drop_last() =~= exists@.take(i as int));
        if exists[i] {
            r.push(cands[i].clone());
            assert(texts(r@) =~= kept(cs.take(i as int), exists@.take(i as int)).push(cs[i as int]));
        }
        i += 1;
    }
    assert(cs.take(cands.len() as int) =~= cs);
    assert(exists@.take(cands.len() as int) =~= exists@);
    r
}

/// The paths a drop of `content` names that exist, with `~` expanded to
/// `home`, given for each named path (in order) whether it exists.
pub fn existing_drops(content: &str, home: &Option<String>, exists: &Vec<bool>) -> (r: Vec<String>)
    requires
        exists.len() == drop_candidates(content@, opt_view(*home)).len(),
    ensures
        texts(r@) == kept(drop_candidates(content@, opt_view(*home)), exists@),
{
    let cands = drop_paths(content, home);
    keep_existing(&cands, exists)
}

/// Whether pasted `content` is a file drop, given for each of its non-empty
/// trimmed lines (in order) whether the path it names exists.
pub fn file_drop_given(content: &str, exists: &Vec<bool>) -> (r: bool)
    requires
        exists.len() == nonempty_trimmed(split_lines(content@)).len(),
    ensures
        r == drop_answer(nonempty_trimmed(split_lines(content@)), exists@),
{
    let lines = trimmed_lines(content);
    if lines.len() == 0 {
        return false;
    }
    let mut i: usize = 0;
    while i < lines.len()
        invariant
            i <= lines.len(),
            forall|k: int| 0 <= k < i ==> path_like(#[trigger] lines.deep_view()[k]),
            lines.deep_view() == nonempty_trimmed(split_lines(content@)),
        decreases lines.len() - i,
    {
        let s = string_from_chars(lines[i].as_slice());
        assert(lines[i as int]@ =~= lines.deep_view()[i as int]);
        if !looks_like_path(s.as_str()) {
            return false;
        }
        i += 1;
    }
    assert(all_path_like(lines.deep_view()));
    let mut j: usize = 0;
    while j < exists.len()
        invariant
            j <= exists.len(),
            forall|k: int| 0 <= k < j ==> !exists@[k],
            lines.deep_view() == nonempty_trimmed(split_lines(content@)),
            lines.len() > 0,
            all_path_like(lines.deep_view()),
        decreases exists.len() - j,
    {
        if exists[j] {
            return true;
        }
        j += 1;
    }
    false
}

/// Ask the disk, for each path in order, whether it exists.
fn existence_of(paths: &Vec<String>) -> (r: Vec<bool>)
    ensures
        r.len() == paths.len(),
{
    let mut r: Vec<bool> = Vec::new();
    let mut i: usize = 0;
    while i < paths.len()
        invariant
            i <= paths.len(),
            r.len() == i,
        decreases paths.len() - i,
    {
        r.push(path_exists(paths[i].as_str()));
        i += 1;
    }
    r
}

impl DropHandler {
    /// Parse content that was received via a bracketed paste event: the
    /// non-empty trimmed lines, with a leading `~` expanded to the home
    /// directory, that name an existing file or directory, in order. Which
    /// of them exist is read from the disk: the result keeps exactly the
    /// named paths that the disk answered for, as `existing_drops` states.
    pub fn parse_dropped_content(content: &str) -> (r: Vec<String>)
        ensures
            exists|h: Option<Seq<char>>, ans: Seq<bool>|
                ans.len() == drop_candidates(content@, h).len() && texts(r@)
                    == #[trigger] kept(drop_candidates(content@, h), ans),
    {
        let home = home_dir();
        let cands = drop_paths(content, &home);
        let answers = existence_of(&cands);
        let r = keep_existing(&cands, &answers);
        assert(texts(r@) == kept(drop_candidates(content@, opt_view(home)), answers@));
        r
    }

    /// Heuristic to decide whether pasted content looks like file paths
    /// rather than arbitrary text: there is a non-empty line, every
    /// non-empty line looks like a path, and at least one of them (with a
    /// leading `~` expanded) exists. Which exist is read from the disk; the
    /// answer is `file_drop_given` on what the disk said for each line.
    pub fn is_file_drop(content: &str) -> (r: bool)
        ensures
            exists|ans: Seq<bool>|
                ans.len() == nonempty_trimmed(split_lines(content@)).len() && r == #[trigger] drop_answer(
                    nonempty_trimmed(split_lines(content@)),
                    ans,
                ),
    {
        let home = home_dir();
        let cands = drop_paths(content, &home);
        let answers = existence_of(&cands);
        assert(texts(cands@).len() == cands.len());
        assert(drop_candidates(content@, opt_view(home)).len() == nonempty_trimmed(split_lines(content@)).len());
        let r = file_drop_given(content, &answers);
        assert(r == drop_answer(nonempty_trimmed(split_lines(content@)), answers@));
        r
    }
}

} // verus!
