//! Project-wide text search: the overlay's state and the per-file matching.
use vstd::prelude::*;
use crate::editor::language::string_is;
use crate::path::{extension_of, path_extension};
use crate::text::{
    chars_of, contains_chars, contains_seq, lines_of, lowercase, split_lines, string_from_chars,
    string_pop, string_push, to_lowercase,
};

verus! {

/// The most results a search collects.
pub const MAX_RESULTS: usize = 200;

/// A single line match found during project-wide search.
pub struct SearchResult {
    pub path: String,
    /// 1-indexed
    pub line_number: usize,
    pub line_content: String,
}

/// The path, line number and line text of a result.
pub open spec fn result_view(r: SearchResult) -> (Seq<char>, int, Seq<char>) {
    (r.path@, r.line_number as int, r.line_content@)
}

/// The lines of a file that contain `query` once lowercased, as results
/// numbered from 1; `from` is the index of the first line given.
pub open spec fn matching_lines(path: Seq<char>, lines: Seq<Seq<char>>, query: Seq<char>) -> Seq<(Seq<char>, int, Seq<char>)>
    decreases lines.len(),
{
    if lines.len() == 0 {
        Seq::empty()
    } else {
        let rest = matching_lines(path, lines.drop_last(), query);
        if contains_seq(lowercase(lines.last()), query) {
            rest.push((path, lines.len() as int, lines.last()))
        } else {
            rest
        }
    }
}

/// A file's search results are exactly its lines that contain the query
/// once lowercased: line `k` (numbered `k + 1`) is reported iff its
/// lowercased text contains the query, and every result is such a line.
pub proof fn lemma_matching_lines_iff(path: Seq<char>, lines: Seq<Seq<char>>, query: Seq<char>)
    ensures
        forall|k: int|
            0 <= k < lines.len() ==> (matching_lines(path, lines, query).contains((path, k + 1, #[trigger] lines[k]))
                <==> contains_seq(lowercase(lines[k]), query)),
        forall|m: int|
            0 <= m < matching_lines(path, lines, query).len() ==> ({
                let r = #[trigger] matching_lines(path, lines, query)[m];
                &&& 1 <= r.1 <= lines.len()
                &&& r.0 == path
                &&& r.2 == lines[r.1 - 1]
                &&& contains_seq(lowercase(r.2), query)
            }),
    decreases lines.len(),
{
    if lines.len() > 0 {
        let ls = lines.drop_last();
        lemma_matching_lines_iff(path, ls, query);
        let rest = matching_lines(path, ls, query);
        let n = lines.len() as int;
        let x = (path, n, lines.last());
        assert forall|k: int| 0 <= k < lines.len() implies (matching_lines(path, lines, query).contains(
            (path, k + 1, #[trigger] lines[k]),
        ) <==> contains_seq(lowercase(lines[k]), query)) by {
            let y = (path, k + 1, lines[k]);
            if k < n - 1 {
                assert(ls[k] == lines[k]);
                if contains_seq(lowercase(lines.last()), query) {
                    if rest.push(x).contains(y) {
                        let m = choose|m: int| 0 <= m < rest.push(x).len() && rest.push(x)[m] == y;
                        if m < rest.len() {
                            assert(rest[m] == y);
                        }
                    }
                    if rest.contains(y) {
                        let m = choose|m: int| 0 <= m < rest.len() && rest[m] == y;
                        assert(rest.push(x)[m] == y);
                    }
                }
            } else {
                if rest.contains(y) {
                    let m = choose|m: int| 0 <= m < rest.len() && rest[m] == y;
                    assert(rest[m].1 <= ls.len());
                }
                if contains_seq(lowercase(lines.last()), query) {
                    assert(rest.push(x)[rest.len() as int] == y);
                }
            }
        }
        assert forall|m: int| 0 <= m < matching_lines(path, lines, query).len() implies ({
            let r = #[trigger] matching_lines(path, lines, query)[m];
            &&& 1 <= r.1 <= lines.len()
            &&& r.0 == path
            &&& r.2 == lines[r.1 - 1]
            &&& contains_seq(lowercase(r.2), query)
        }) by {
            if m < rest.len() {
                let r = rest[m];
                assert(ls[r.1 - 1] == lines[r.1 - 1]);
            }
        }
    }
}

/// The results after searching a file: the matches are appended until
/// `MAX_RESULTS` results are collected.
pub open spec fn after_search(before: Seq<(Seq<char>, int, Seq<char>)>, found: Seq<(Seq<char>, int, Seq<char>)>) -> Seq<(Seq<char>, int, Seq<char>)> {
    if before.len() >= MAX_RESULTS {
        before
    } else if found.len() <= MAX_RESULTS - before.len() {
        before + found
    } else {
        before + found.take(MAX_RESULTS - before.len())
    }
}

/// Collect the lines of `content` (the text of the file at `path`) that
/// contain `query_lower` once lowercased, stopping at `MAX_RESULTS` results.
pub fn search_content(path: &str, content: &str, query_lower: &str, results: &mut Vec<SearchResult>)
    ensures
        final(results)@.map_values(|r: SearchResult| result_view(r)) == after_search(
            old(results)@.map_values(|r: SearchResult| result_view(r)),
            matching_lines(path@, split_lines(content@), query_lower@),
        ),
        final(results).len() < MAX_RESULTS ==> forall|k: int|
            0 <= k < split_lines(content@).len() ==> (final(results)@.map_values(|r: SearchResult| result_view(r)).subrange(
                old(results).len() as int,
                final(results).len() as int,
            ).contains((path@, k + 1, #[trigger] split_lines(content@)[k])) <==> contains_seq(
                lowercase(split_lines(content@)[k]),
                query_lower@,
            )),
{
    let text = chars_of(content);
    let query = chars_of(query_lower);
    let lines = lines_of(text.as_slice());
    let ghost ls = lines.deep_view();
    let ghost before = old(results)@.map_values(|r: SearchResult| result_view(r));
    let mut i: usize = 0;
    while i < lines.len()
        invariant
            i <= lines.len(),
            ls == lines.deep_view(),
            ls == split_lines(content@),
            query@ == query_lower@,
            before == old(results)@.map_values(|r: SearchResult| result_view(r)),
            results@.map_values(|r: SearchResult| result_view(r)) == after_search(
                before,
                matching_lines(path@, ls.take(i as int), query_lower@),
            ),
        decreases lines.len() - i,
    {
        if results.len() >= MAX_RESULTS {
            proof {
                lemma_matching_prefix(path@, ls, i as int, query_lower@);
                lemma_after_search_full(before, matching_lines(path@, ls.take(i as int), query_lower@),
                    matching_lines(path@, ls, query_lower@));
                assert(ls.take(ls.len() as int) =~= ls);
            }
            return;
        }
        let lower = chars_of(to_lowercase(string_from_chars(lines[i].as_slice()).as_str()).as_str());
        assert(lines[i as int]@ =~= ls[i as int]);
        assert(ls.take(i + 1).drop_last() =~= ls.take(i as int));
        let ghost prev = matching_lines(path@, ls.take(i as int), query_lower@);
        if contains_chars(lower.as_slice(), query.as_slice()) {
            let ghost old_res = results@.map_values(|r: SearchResult| result_view(r));
            results.push(SearchResult {
                path: path.to_owned(),
                line_number: i + 1,
                line_content: string_from_chars(lines[i].as_slice()),
            });
            assert(results@.map_values(|r: SearchResult| result_view(r)) =~= old_res.push(
                (path@, i + 1, ls[i as int]),
            ));
            assert(matching_lines(path@, ls.take(i + 1), query_lower@) == prev.push(
                (path@, i + 1, ls[i as int]),
            ));
            proof {
                lemma_after_search_push(before, prev, (path@, i + 1, ls[i as int]));
            }
        }
        i += 1;
    }
    assert(ls.take(lines.len() as int) =~= ls);
    proof {
        let found = matching_lines(path@, ls, query_lower@);
        lemma_matching_lines_iff(path@, ls, query_lower@);
        let fin = results@.map_values(|r: SearchResult| result_view(r));
        if results.len() < MAX_RESULTS {
            assert(before.len() < MAX_RESULTS);
            assert(found.len() <= MAX_RESULTS - before.len());
            assert(fin.subrange(old(results).len() as int, results.len() as int) =~= found);
        }
    }
}

proof fn lemma_after_search_push(
    before: Seq<(Seq<char>, int, Seq<char>)>,
    found: Seq<(Seq<char>, int, Seq<char>)>,
    x: (Seq<char>, int, Seq<char>),
)
    requires
        after_search(before, found).len() < MAX_RESULTS,
    ensures
        after_search(before, found.push(x)) == after_search(before, found).push(x),
{
    assert((before + found).push(x) =~= before + found.push(x));
}

proof fn lemma_after_search_full(
    before: Seq<(Seq<char>, int, Seq<char>)>,
    found: Seq<(Seq<char>, int, Seq<char>)>,
    more: Seq<(Seq<char>, int, Seq<char>)>,
)
    requires
        after_search(before, found).len() >= MAX_RESULTS,
        found.len() <= more.len(),
        found =~= more.take(found.len() as int),
    ensures
        after_search(before, more) == after_search(before, found),
{
    if before.len() < MAX_RESULTS {
        assert(more.take(MAX_RESULTS - before.len()) =~= found.take(MAX_RESULTS - before.len()));
    }
}

proof fn lemma_matching_prefix(path: Seq<char>, ls: Seq<Seq<char>>, i: int, q: Seq<char>)
    requires
        0 <= i <= ls.len(),
    ensures
        matching_lines(path, ls.take(i), q).len() <= matching_lines(path, ls, q).len(),
        matching_lines(path, ls.take(i), q) =~= matching_lines(path, ls, q).take(
            matching_lines(path, ls.take(i), q).len() as int,
        ),
    decreases ls.len() - i,
{
    if i < ls.len() {
        lemma_matching_prefix(path, ls, i + 1, q);
        assert(ls.take(i + 1).drop_last() =~= ls.take(i));
        let a = matching_lines(path, ls.take(i), q);
        let b = matching_lines(path, ls.take(i + 1), q);
        assert(a =~= b.take(a.len() as int));
    } else {
        assert(ls.take(i) =~= ls);
    }
}

/// An extension of a file that project search does not read.
pub open spec fn binary_extension(e: Seq<char>) -> bool {
    e == "png"@ || e == "jpg"@ || e == "jpeg"@ || e == "gif"@ || e == "bmp"@ || e == "ico"@
    || e == "webp"@ || e == "pdf"@ || e == "zip"@ || e == "gz"@ || e == "tar"@ || e == "tgz"@
    || e == "bz2"@ || e == "xz"@ || e == "7z"@ || e == "rar"@ || e == "exe"@ || e == "dll"@
    || e == "so"@ || e == "dylib"@ || e == "a"@ || e == "lib"@ || e == "wasm"@ || e == "bin"@
    || e == "dat"@ || e == "db"@ || e == "sqlite"@ || e == "sqlite3"@ || e == "mp3"@ || e == "mp4"@
    || e == "wav"@ || e == "ogg"@ || e == "flac"@ || e == "avi"@ || e == "mkv"@ || e == "mov"@
    || e == "ttf"@ || e == "otf"@ || e == "woff"@ || e == "woff2"@ || e == "lock"@
}

/// Whether the path's extension marks a binary file.
pub fn is_binary_extension(path: &str) -> (r: bool)
    ensures
        r == match extension_of(path@) {
            Some(e) => binary_extension(e),
            None => false,
        },
{
    match path_extension(path) {
        Some(e) => {
            let list: [&str; 41] = [
                "png", "jpg", "jpeg", "gif", "bmp", "ico", "webp", "pdf", "zip", "gz", "tar", "tgz",
                "bz2", "xz", "7z", "rar", "exe", "dll", "so", "dylib", "a", "lib", "wasm", "bin",
                "dat", "db", "sqlite", "sqlite3", "mp3", "mp4", "wav", "ogg", "flac", "avi", "mkv",
                "mov", "ttf", "otf", "woff", "woff2", "lock",
            ];
            let ghost names = seq![
                "png"@, "jpg"@, "jpeg"@, "gif"@, "bmp"@, "ico"@, "webp"@, "pdf"@, "zip"@, "gz"@,
                "tar"@, "tgz"@, "bz2"@, "xz"@, "7z"@, "rar"@, "exe"@, "dll"@, "so"@, "dylib"@,
                "a"@, "lib"@, "wasm"@, "bin"@, "dat"@, "db"@, "sqlite"@, "sqlite3"@, "mp3"@,
                "mp4"@, "wav"@, "ogg"@, "flac"@, "avi"@, "mkv"@, "mov"@, "ttf"@, "otf"@, "woff"@,
                "woff2"@, "lock"@
            ];
            assert(list@.map_values(|s: &str| s@) =~= names);
            assert(binary_extension(e@) == names.contains(e@));
            let mut i: usize = 0;
            while i < 41
                invariant
                    i <= 41,
                    list@.map_values(|s: &str| s@) == names,
                    names.len() == 41,
                    binary_extension(e@) == names.contains(e@),
                    extension_of(path@) == Some(e@),
                    forall|k: int| 0 <= k < i ==> names[k] != e@,
                decreases 41 - i,
            {
                assert(list@.map_values(|s: &str| s@)[i as int] == list@[i as int]@);
                if string_is(&e, list[i]) {
                    assert(names[i as int] == e@);
                    return true;
                }
                i += 1;
            }
            false
        },
        None => false,
    }
}

/// A directory entry that project search skips: hidden, `target` or
/// `node_modules`.
pub open spec fn skipped_entry(name: Seq<char>) -> bool {
    (name.len() > 0 && name[0] == '.') || name == "target"@ || name == "node_modules"@
}

/// Whether project search skips an entry with this name.
pub fn is_skipped_entry(name: &String) -> (r: bool)
    ensures
        r == skipped_entry(name@),
{
    let c = chars_of(name.as_str());
    (c.len() > 0 && c[0] == '.') || string_is(name, "target") || string_is(name, "node_modules")
}

/// Project-wide text search overlay.
pub struct ProjectSearch {
    pub visible: bool,
    pub query: String,
    pub results: Vec<SearchResult>,
    pub selected: usize,
}

impl ProjectSearch {
    pub fn new() -> (p: Self)
        ensures
            !p.visible,
            p.query@.len() == 0,
            p.results.len() == 0,
            p.selected == 0,
    {
        ProjectSearch { visible: false, query: String::new(), results: Vec::new(), selected: 0 }
    }

    /// Open the overlay with an empty query; no search runs until the user types.
    pub fn show(&mut self)
        ensures
            final(self).visible,
            final(self).query@.len() == 0,
            final(self).results.len() == 0,
            final(self).selected == 0,
    {
        self.visible = true;
        self.query = String::new();
        self.results.clear();
        self.selected = 0;
    }

    pub fn close(&mut self)
        ensures
            !final(self).visible,
            final(self).query == old(self).query,
            final(self).results == old(self).results,
            final(self).selected == old(self).selected,
    {
        self.visible = false;
    }

    /// Drop the results and say whether the query is long enough (two bytes)
    /// to search for.
    fn begin_search(&mut self) -> (run: bool)
        ensures
            final(self).results.len() == 0,
            final(self).selected == 0,
            final(self).query == old(self).query,
            final(self).visible == old(self).visible,
            run == (vstd::utf8::encode_utf8(old(self).query@).len() as usize >= 2),
    {
        self.results.clear();
        self.selected = 0;
        self.query.as_str().len() >= 2
    }

    /// Type a character into the query. The results are dropped; the
    /// answer says whether the new query is long enough to search for, in
    /// which case the caller runs the search and hands in the results.
    pub fn push_char(&mut self, ch: char) -> (run: bool)
        ensures
            final(self).query@ == old(self).query@.push(ch),
            final(self).results.len() == 0,
            final(self).selected == 0,
            final(self).visible == old(self).visible,
            run == (vstd::utf8::encode_utf8(final(self).query@).len() as usize >= 2),
    {
        string_push(&mut self.query, ch);
        self.begin_search()
    }

    /// Delete the last character of the query, as `push_char` does for typing.
    pub fn pop_char(&mut self) -> (run: bool)
        ensures
            final(self).query@ == if old(self).query@.len() > 0 {
                old(self).query@.drop_last()
            } else {
                old(self).query@
            },
            final(self).results.len() == 0,
            final(self).selected == 0,
            final(self).visible == old(self).visible,
            run == (vstd::utf8::encode_utf8(final(self).query@).len() as usize >= 2),
    {
        let _ = string_pop(&mut self.query);
        self.begin_search()
    }

    /// Take the results of a search the caller ran.
    pub fn set_results(&mut self, results: Vec<SearchResult>)
        ensures
            final(self).results == results,
            final(self).selected == 0,
            final(self).query == old(self).query,
            final(self).visible == old(self).visible,
    {
        self.results = results;
        self.selected = 0;
    }

    pub fn select_next(&mut self)
        ensures
            final(self).results == old(self).results,
            final(self).visible == old(self).visible,
            final(self).query == old(self).query,
            final(self).selected == if old(self).results.len() == 0 {
                old(self).selected as int
            } else {
                (old(self).selected + 1) % (old(self).results.len() as int)
            },
    {
        if self.results.len() > 0 {
            self.selected = ((self.selected as u128 + 1) % (self.results.len() as u128)) as usize;
        }
    }

    pub fn select_previous(&mut self)
        ensures
            final(self).results == old(self).results,
            final(self).visible == old(self).visible,
            final(self).query == old(self).query,
            final(self).selected == if old(self).results.len() == 0 {
                old(self).selected as int
            } else if old(self).selected == 0 {
                old(self).results.len() - 1
            } else {
                old(self).selected - 1
            },
    {
        if self.results.len() > 0 {
            self.selected = if self.selected == 0 {
                self.results.len() - 1
            } else {
                self.selected - 1
            };
        }
    }

    /// Returns the selected result's (path, 0-indexed line) if any.
    pub fn accept(&self) -> (r: Option<(String, usize)>)
        requires
            self.selected < self.results.len() ==> self.results@[self.selected as int].line_number >= 1,
        ensures
            self.selected >= self.results.len() ==> r is None,
            self.selected < self.results.len() ==> (r matches Some((p, l)) && p@
                == self.results@[self.selected as int].path@ && l
                == self.results@[self.selected as int].line_number - 1),
    {
        if self.selected < self.results.len() {
            let r = &self.results[self.selected];
            Some((r.path.clone(), r.line_number - 1))
        } else {
            None
        }
    }
}

/// What a walk of the project does with one directory entry.
#[derive(Debug, Clone, Copy, PartialEq, Eq, Structural)]
pub enum WalkStep {
    /// Leave it out.
    Skip,
    /// Walk into the directory.
    Descend,
    /// Take the file.
    Take,
}

/// What project search does with an entry: skipped names are left out,
/// directories walked into, and regular files read unless their extension
/// marks them binary.
pub open spec fn search_step_of(name: Seq<char>, path: Seq<char>, is_dir: bool, is_file: bool) -> WalkStep {
    if skipped_entry(name) {
        WalkStep::Skip
    } else if is_dir {
        WalkStep::Descend
    } else if is_file && !(match extension_of(path) {
        Some(e) => binary_extension(e),
        None => false,
    }) {
        WalkStep::Take
    } else {
        WalkStep::Skip
    }
}

/// What project search does with the entry `name` at `path`, given whether
/// it is a directory or a regular file.
pub fn search_step(name: &String, path: &str, is_dir: bool, is_file: bool) -> (r: WalkStep)
    ensures
        r == search_step_of(name@, path@, is_dir, is_file),
{
    if is_skipped_entry(name) {
        WalkStep::Skip
    } else if is_dir {
        WalkStep::Descend
    } else if is_file && !is_binary_extension(path) {
        WalkStep::Take
    } else {
        WalkStep::Skip
    }
}

/// What the file finder's walk does with an entry at `depth` below the
/// root: nothing deeper than ten levels, skipped names are left out,
/// directories walked into, and other entries listed.
pub open spec fn finder_step_of(name: Seq<char>, is_dir: bool, depth: usize) -> WalkStep {
    if depth > 10 || skipped_entry(name) {
        WalkStep::Skip
    } else if is_dir {
        WalkStep::Descend
    } else {
        WalkStep::Take
    }
}

/// What the file finder's walk does with the entry `name` in a directory
/// `depth` levels below the root.
pub fn finder_step(name: &String, is_dir: bool, depth: usize) -> (r: WalkStep)
    ensures
        r == finder_step_of(name@, is_dir, depth),
{
    if depth > 10 || is_skipped_entry(name) {
        WalkStep::Skip
    } else if is_dir {
        WalkStep::Descend
    } else {
        WalkStep::Take
    }
}

} // verus!
