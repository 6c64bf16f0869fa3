//! The file finder: fuzzy filtering of the project's files and selection.
use vstd::prelude::*;
use fuzzy_matcher::skim::SkimMatcherV2;
use fuzzy_matcher::FuzzyMatcher;
use crate::input::actions::Action;
use crate::text::{string_pop, string_push};
use crate::ui::command::AppCommand;

verus! {

/// What `fuzzy_match` of a `SkimMatcherV2` in its default configuration
/// (smart case: case is ignored unless the pattern holds an uppercase
/// letter) scores `choice` against `pattern`: `None` when the pattern's
/// characters do not occur in order in the choice.
pub uninterp spec fn fuzzy_score(choice: Seq<char>, pattern: Seq<char>) -> Option<i64>;

/// `FuzzyMatcher::fuzzy_match` of fuzzy_matcher's `SkimMatcherV2::default()`:
/// the score of `choice` for `pattern`, a function of the two texts; an
/// empty pattern matches with score 0.
#[verifier::external_body]
fn fuzzy_match(choice: &str, pattern: &str) -> (r: Option<i64>)
    ensures
        r == fuzzy_score(choice@, pattern@),
        pattern@.len() == 0 ==> r == Some(0i64),
{
    SkimMatcherV2::default().fuzzy_match(choice, pattern)
}

/// An entry in the command palette results.
#[derive(Debug, Clone)]
pub struct PaletteEntry {
    pub display: String,
    pub path: String,
    pub score: i64,
}

impl DeepView for PaletteEntry {
    type V = (Seq<char>, Seq<char>, i64);

    open spec fn deep_view(&self) -> (Seq<char>, Seq<char>, i64) {
        (self.display@, self.path@, self.score)
    }
}

impl PaletteEntry {
    /// A copy of this entry.
    pub fn duplicate(&self) -> (e: Self)
        ensures
            e.deep_view() == self.deep_view(),
    {
        PaletteEntry { display: self.display.clone(), path: self.path.clone(), score: self.score }
    }
}

/// `a` comes strictly before `b` in the order of `str`'s `cmp`: by code
/// point, character by character, a proper prefix first.
pub open spec fn text_lt(a: Seq<char>, b: Seq<char>) -> bool
    decreases a.len(),
{
    if b.len() == 0 {
        false
    } else if a.len() == 0 {
        true
    } else if a[0] != b[0] {
        a[0] < b[0]
    } else {
        text_lt(a.drop_first(), b.drop_first())
    }
}

/// The index where a stable insertion puts an entry that goes after every
/// entry `before` does not place it in front of, scanning from `j`.
pub open spec fn insert_point(s: Seq<(Seq<char>, Seq<char>, i64)>, x: (Seq<char>, Seq<char>, i64), by_score: bool, j: int) -> int
    decreases s.len() - j,
{
    if j < 0 || j >= s.len() {
        s.len() as int
    } else if goes_before(x, s[j], by_score) {
        j
    } else {
        insert_point(s, x, by_score, j + 1)
    }
}

/// `x` goes in front of `y`: by a higher score, or by an earlier name.
pub open spec fn goes_before(x: (Seq<char>, Seq<char>, i64), y: (Seq<char>, Seq<char>, i64), by_score: bool) -> bool {
    if by_score { x.2 > y.2 } else { text_lt(x.0, y.0) }
}

/// The stable sort of `s`: by score, best first, or by name; entries that
/// tie keep their order.
pub open spec fn stable_sort(s: Seq<(Seq<char>, Seq<char>, i64)>, by_score: bool) -> Seq<(Seq<char>, Seq<char>, i64)>
    decreases s.len(),
{
    if s.len() == 0 {
        s
    } else {
        let r = stable_sort(s.drop_last(), by_score);
        let k = insert_point(r, s.last(), by_score, 0);
        r.take(k).push(s.last()) + r.skip(k)
    }
}

/// The entries that match `pattern`, in order, each with its score.
pub open spec fn scored(s: Seq<(Seq<char>, Seq<char>, i64)>, pattern: Seq<char>) -> Seq<(Seq<char>, Seq<char>, i64)>
    decreases s.len(),
{
    if s.len() == 0 {
        s
    } else {
        let e = s.last();
        scored(s.drop_last(), pattern) + match fuzzy_score(e.0, pattern) {
            Some(sc) => seq![(e.0, e.1, sc)],
            None => Seq::empty(),
        }
    }
}

/// The results for an input: all entries for an empty input, else the
/// matching ones, best score first.
pub open spec fn filter_results(entries: Seq<(Seq<char>, Seq<char>, i64)>, input: Seq<char>) -> Seq<(Seq<char>, Seq<char>, i64)> {
    if input.len() == 0 { entries } else { stable_sort(scored(entries, input), true) }
}

/// Entries in the order a sort puts them: no entry goes in front of an
/// earlier one.
pub open spec fn in_order(s: Seq<(Seq<char>, Seq<char>, i64)>, by_score: bool) -> bool {
    forall|i: int, j: int| 0 <= i < j < s.len() ==> !goes_before(#[trigger] s[j], #[trigger] s[i], by_score)
}

/// Of two texts at most one comes before the other, and one does unless
/// they are equal.
pub proof fn lemma_text_lt_asym(a: Seq<char>, b: Seq<char>)
    ensures
        !(text_lt(a, b) && text_lt(b, a)),
        text_lt(a, b) || text_lt(b, a) || a =~= b,
    decreases a.len(),
{
    if a.len() > 0 && b.len() > 0 && a[0] == b[0] {
        lemma_text_lt_asym(a.drop_first(), b.drop_first());
        if a.drop_first() =~= b.drop_first() {
            assert(a =~= b.drop_first().insert(0, b[0]));
            assert(b =~= b.drop_first().insert(0, b[0]));
        }
    }
}

/// Coming before is transitive.
pub proof fn lemma_text_lt_trans(a: Seq<char>, b: Seq<char>, c: Seq<char>)
    requires
        text_lt(a, b),
        text_lt(b, c),
    ensures
        text_lt(a, c),
    decreases a.len(),
{
    if a.len() > 0 && b.len() > 0 && c.len() > 0 && a[0] == b[0] && b[0] == c[0] {
        lemma_text_lt_trans(a.drop_first(), b.drop_first(), c.drop_first());
    }
}

proof fn lemma_insert_point(s: Seq<(Seq<char>, Seq<char>, i64)>, x: (Seq<char>, Seq<char>, i64), by_score: bool, j: int)
    requires
        0 <= j <= s.len(),
    ensures
        j <= insert_point(s, x, by_score, j) <= s.len(),
        forall|i: int| j <= i < insert_point(s, x, by_score, j) ==> !goes_before(x, #[trigger] s[i], by_score),
        insert_point(s, x, by_score, j) < s.len() ==> goes_before(x, s[insert_point(s, x, by_score, j)], by_score),
    decreases s.len() - j,
{
    if j < s.len() && !goes_before(x, s[j], by_score) {
        lemma_insert_point(s, x, by_score, j + 1);
    }
}

/// A stable sort puts its entries in order and keeps the same entries.
pub proof fn lemma_stable_sort_in_order(s: Seq<(Seq<char>, Seq<char>, i64)>, by_score: bool)
    ensures
        in_order(stable_sort(s, by_score), by_score),
        stable_sort(s, by_score).len() == s.len(),
        stable_sort(s, by_score).to_multiset() =~= s.to_multiset(),
    decreases s.len(),
{
    if s.len() > 0 {
        let r = stable_sort(s.drop_last(), by_score);
        lemma_stable_sort_in_order(s.drop_last(), by_score);
        let x = s.last();
        let k = insert_point(r, x, by_score, 0);
        lemma_insert_point(r, x, by_score, 0);
        let out = r.take(k).push(x) + r.skip(k);
        assert forall|i: int, j: int| 0 <= i < j < out.len() implies !goes_before(#[trigger] out[j], #[trigger] out[i], by_score) by {
            if j < k {
                assert(out[i] == r[i] && out[j] == r[j]);
            } else if j == k {
                assert(out[i] == r[i] && out[j] == x);
            } else if i < k {
                assert(out[i] == r[i] && out[j] == r[j - 1]);
                if i < j - 1 {
                } 
            } else if i == k {
                assert(out[i] == x && out[j] == r[j - 1]);
                assert(goes_before(x, r[k], by_score));
                if j - 1 > k {
                    assert(!goes_before(r[j - 1], r[k], by_score));
                }
                if by_score {
                } else {
                    lemma_text_lt_asym(x.0, r[k].0);
                    lemma_text_lt_asym(r[j - 1].0, x.0);
                    lemma_text_lt_asym(r[j - 1].0, r[k].0);
                    if text_lt(r[j - 1].0, x.0) {
                        lemma_text_lt_trans(r[j - 1].0, x.0, r[k].0);
                    }
                }
            } else {
                assert(out[i] == r[i - 1] && out[j] == r[j - 1]);
            }
        }
        assert(r.take(k) + r.skip(k) =~= r);
        vstd::seq_lib::lemma_multiset_commutative(r.take(k).push(x), r.skip(k));
        vstd::seq_lib::lemma_multiset_commutative(r.take(k), r.skip(k));
        vstd::seq_lib::lemma_multiset_commutative(s.drop_last(), seq![x]);
        assert(s.drop_last() + seq![x] =~= s);
        assert(r.take(k).push(x) =~= r.take(k) + seq![x]);
        vstd::seq_lib::lemma_multiset_commutative(r.take(k), seq![x]);
    }
}

/// Whether `a` sorts before `b`, compared by code point.
fn text_less(a: &str, b: &str) -> (r: bool)
    ensures
        r == text_lt(a@, b@),
{
    let av = crate::text::chars_of(a);
    let bv = crate::text::chars_of(b);
    let mut i: usize = 0;
    assert(a@.skip(0) =~= a@);
    assert(b@.skip(0) =~= b@);
    while i < av.len() && i < bv.len()
        invariant
            av@ == a@,
            bv@ == b@,
            i <= av.len(),
            i <= bv.len(),
            text_lt(a@, b@) == text_lt(a@.skip(i as int), b@.skip(i as int)),
        decreases av.len() - i,
    {
        let x = av[i];
        let y = bv[i];
        assert(a@.skip(i as int)[0] == x && b@.skip(i as int)[0] == y);
        if x != y {
            return x < y;
        }
        assert(a@.skip(i as int).drop_first() =~= a@.skip(i + 1));
        assert(b@.skip(i as int).drop_first() =~= b@.skip(i + 1));
        i += 1;
    }
    i < bv.len()
}

/// Insert an entry where a stable sort puts it in sorted entries.
fn insert_sorted(out: &mut Vec<PaletteEntry>, e: PaletteEntry, by_score: bool)
    ensures
        ({
            let k = insert_point(old(out).deep_view(), e.deep_view(), by_score, 0);
            final(out).deep_view() == old(out).deep_view().take(k).push(e.deep_view()) + old(out).deep_view().skip(k)
        }),
{
    let ghost s = out.deep_view();
    let mut k: usize = 0;
    while k < out.len()
        invariant_except_break
            forall|i: int| 0 <= i < k ==> !goes_before(e.deep_view(), #[trigger] s[i], by_score),
        invariant
            s == out.deep_view(),
            k <= out.len(),
            insert_point(s, e.deep_view(), by_score, k as int) == insert_point(s, e.deep_view(), by_score, 0),
        ensures
            k == insert_point(s, e.deep_view(), by_score, 0),
        decreases out.len() - k,
    {
        let before = if by_score {
            e.score > out[k].score
        } else {
            text_less(e.display.as_str(), out[k].display.as_str())
        };
        if before {
            break;
        }
        k += 1;
    }
    let ghost ev = e.deep_view();
    out.insert(k, e);
    assert(out.deep_view() =~= s.take(k as int).push(ev) + s.skip(k as int));
}

/// The stable sort of entries.
fn sort_entries(v: &Vec<PaletteEntry>, by_score: bool) -> (r: Vec<PaletteEntry>)
    ensures
        r.deep_view() == stable_sort(v.deep_view(), by_score),
{
    let mut out: Vec<PaletteEntry> = Vec::new();
    let mut i: usize = 0;
    while i < v.len()
        invariant
            i <= v.len(),
            out.deep_view() == stable_sort(v.deep_view().take(i as int), by_score),
        decreases v.len() - i,
    {
        let ghost pre = v.deep_view().take(i as int);
        assert(v.deep_view().take(i + 1).drop_last() =~= pre);
        insert_sorted(&mut out, v[i].duplicate(), by_score);
        i += 1;
    }
    assert(v.deep_view().take(i as int) =~= v.deep_view());
    out
}

/// A copy of the entries.
fn copy_entries(v: &Vec<PaletteEntry>) -> (r: Vec<PaletteEntry>)
    ensures
        r.deep_view() == v.deep_view(),
{
    let mut out: Vec<PaletteEntry> = Vec::new();
    let mut i: usize = 0;
    while i < v.len()
        invariant
            i <= v.len(),
            out.deep_view() == v.deep_view().take(i as int),
        decreases v.len() - i,
    {
        let ghost pre = out.deep_view();
        let d = v[i].duplicate();
        out.push(d);
        assert(out.deep_view() =~= pre.push(d.deep_view()));
        i += 1;
        assert(out.deep_view() =~= v.deep_view().take(i as int));
    }
    assert(v.deep_view().take(i as int) =~= v.deep_view());
    out
}

/// The matching entries, in order: each entry whose name matches appears
/// with its score, and each one listed is such an entry.
proof fn lemma_scored_members(s: Seq<(Seq<char>, Seq<char>, i64)>, p: Seq<char>)
    ensures
        forall|k: int|
            0 <= k < s.len() && #[trigger] fuzzy_score(s[k].0, p) is Some ==> scored(s, p).contains(
                (s[k].0, s[k].1, fuzzy_score(s[k].0, p).unwrap()),
            ),
        forall|m: int|
            0 <= m < scored(s, p).len() ==> exists|k: int|
                0 <= k < s.len() && s[k].0 == (#[trigger] scored(s, p)[m]).0 && s[k].1 == scored(s, p)[m].1
                    && fuzzy_score(s[k].0, p) == Some(scored(s, p)[m].2),
    decreases s.len(),
{
    if s.len() > 0 {
        let s1 = s.drop_last();
        lemma_scored_members(s1, p);
        let r1 = scored(s1, p);
        let e = s.last();
        let tail = match fuzzy_score(e.0, p) {
            Some(sc) => seq![(e.0, e.1, sc)],
            None => Seq::<(Seq<char>, Seq<char>, i64)>::empty(),
        };
        let r = scored(s, p);
        assert(r == r1 + tail);
        assert forall|k: int|
            0 <= k < s.len() && #[trigger] fuzzy_score(s[k].0, p) is Some implies r.contains(
            (s[k].0, s[k].1, fuzzy_score(s[k].0, p).unwrap()),
        ) by {
            if k < s1.len() {
                assert(s1[k] == s[k]);
                let x = (s[k].0, s[k].1, fuzzy_score(s[k].0, p).unwrap());
                assert(r1.contains(x));
                let m = choose|m: int| 0 <= m < r1.len() && r1[m] == x;
                assert(r[m] == x);
            } else {
                assert(r[r1.len() as int] == tail[0]);
            }
        }
        assert forall|m: int| 0 <= m < r.len() implies exists|k: int|
            0 <= k < s.len() && s[k].0 == (#[trigger] r[m]).0 && s[k].1 == r[m].1 && fuzzy_score(s[k].0, p) == Some(
                r[m].2,
            ) by {
            if m < r1.len() {
                assert(r[m] == r1[m]);
                let k = choose|k: int|
                    0 <= k < s1.len() && s1[k].0 == (#[trigger] r1[m]).0 && s1[k].1 == r1[m].1 && fuzzy_score(s1[k].0, p)
                        == Some(r1[m].2);
                assert(s[k] == s1[k]);
            } else {
                assert(s[s.len() - 1] == e);
            }
        }
    }
}

/// The results for a typed input are the entries whose displayed name
/// matches it, each with its match score, best match first: their scores
/// never increase along the list; every matching entry is listed, and
/// every listed one is an entry that matches with the score it shows.
pub proof fn lemma_results_best_first(entries: Seq<(Seq<char>, Seq<char>, i64)>, input: Seq<char>)
    requires
        input.len() > 0,
    ensures
        forall|i: int, j: int|
            0 <= i < j < filter_results(entries, input).len() ==> #[trigger] filter_results(entries, input)[i].2
                >= #[trigger] filter_results(entries, input)[j].2,
        forall|k: int|
            0 <= k < entries.len() && #[trigger] fuzzy_score(entries[k].0, input) is Some ==> filter_results(
                entries,
                input,
            ).contains((entries[k].0, entries[k].1, fuzzy_score(entries[k].0, input).unwrap())),
        forall|m: int|
            0 <= m < filter_results(entries, input).len() ==> exists|k: int|
                0 <= k < entries.len() && entries[k].0 == (#[trigger] filter_results(entries, input)[m]).0
                    && entries[k].1 == filter_results(entries, input)[m].1 && fuzzy_score(entries[k].0, input) == Some(
                    filter_results(entries, input)[m].2,
                ),
{
    broadcast use vstd::seq_lib::group_to_multiset_ensures;

    let s = scored(entries, input);
    lemma_stable_sort_in_order(s, true);
    lemma_scored_members(entries, input);
    let r = stable_sort(s, true);
    assert forall|i: int, j: int| 0 <= i < j < r.len() implies #[trigger] r[i].2 >= #[trigger] r[j].2 by {
        assert(!goes_before(r[j], r[i], true));
    }
    assert forall|k: int|
        0 <= k < entries.len() && #[trigger] fuzzy_score(entries[k].0, input) is Some implies r.contains(
        (entries[k].0, entries[k].1, fuzzy_score(entries[k].0, input).unwrap()),
    ) by {
        let x = (entries[k].0, entries[k].1, fuzzy_score(entries[k].0, input).unwrap());
        assert(s.contains(x));
        assert(s.to_multiset().count(x) > 0);
        assert(r.to_multiset().count(x) > 0);
    }
    assert forall|m: int| 0 <= m < r.len() implies exists|k: int|
        0 <= k < entries.len() && entries[k].0 == (#[trigger] r[m]).0 && entries[k].1 == r[m].1 && fuzzy_score(
            entries[k].0,
            input,
        ) == Some(r[m].2) by {
        let x = r[m];
        assert(r.contains(x));
        assert(r.to_multiset().count(x) > 0);
        assert(s.to_multiset().count(x) > 0);
        assert(s.contains(x));
        let n = choose|n: int| 0 <= n < s.len() && s[n] == x;
        assert(s[n] == x);
    }
}

/// The command palette / file finder overlay.
pub struct CommandPalette {
    pub visible: bool,
    pub input: String,
    pub entries: Vec<PaletteEntry>,
    pub filtered: Vec<PaletteEntry>,
    pub selected: usize,
}

impl CommandPalette {
    pub fn new() -> (p: Self)
        ensures
            !p.visible,
            p.input@.len() == 0,
            p.entries.len() == 0,
            p.filtered.len() == 0,
            p.selected == 0,
    {
        CommandPalette {
            visible: false,
            input: String::new(),
            entries: Vec::new(),
            filtered: Vec::new(),
            selected: 0,
        }
    }

    /// Open the palette over the project's files (as found by a walk of
    /// the project), sorted by their displayed path; all are shown.
    pub fn show(&mut self, files: Vec<PaletteEntry>)
        ensures
            final(self).visible,
            final(self).input@.len() == 0,
            final(self).selected == 0,
            final(self).entries.deep_view() == stable_sort(files.deep_view(), false),
            final(self).filtered.deep_view() == final(self).entries.deep_view(),
    {
        self.visible = true;
        self.input = String::new();
        self.selected = 0;
        self.entries = sort_entries(&files, false);
        self.filtered = copy_entries(&self.entries);
    }

    /// Close the palette, clearing the input and the results.
    pub fn close(&mut self)
        ensures
            !final(self).visible,
            final(self).input@.len() == 0,
            final(self).filtered.len() == 0,
            final(self).selected == 0,
            final(self).entries.deep_view() == old(self).entries.deep_view(),
    {
        self.visible = false;
        self.input = String::new();
        self.filtered.clear();
        self.selected = 0;
    }

    pub fn insert_char(&mut self, ch: char)
        ensures
            final(self).input@ == old(self).input@.push(ch),
            final(self).filtered.deep_view() == filter_results(old(self).entries.deep_view(), final(self).input@),
            final(self).selected == 0,
            final(self).visible == old(self).visible,
            final(self).entries.deep_view() == old(self).entries.deep_view(),
            final(self).input@.len() > 0 ==> forall|i: int, j: int|
                0 <= i < j < final(self).filtered.len() ==> #[trigger] final(self).filtered@[i].score
                    >= #[trigger] final(self).filtered@[j].score,
    {
        string_push(&mut self.input, ch);
        self.filter();
        proof {
            if self.input@.len() > 0 {
                lemma_results_best_first(self.entries.deep_view(), self.input@);
                assert forall|i: int, j: int| 0 <= i < j < self.filtered.len() implies #[trigger] self.filtered@[i].score
                    >= #[trigger] self.filtered@[j].score by {
                    assert(self.filtered.deep_view()[i].2 == self.filtered@[i].score);
                    assert(self.filtered.deep_view()[j].2 == self.filtered@[j].score);
                }
            }
        }
    }

    pub fn backspace(&mut self)
        ensures
            final(self).input@ == if old(self).input@.len() > 0 { old(self).input@.drop_last() } else { old(self).input@ },
            final(self).filtered.deep_view() == filter_results(old(self).entries.deep_view(), final(self).input@),
            final(self).selected == 0,
            final(self).visible == old(self).visible,
            final(self).entries.deep_view() == old(self).entries.deep_view(),
            final(self).input@.len() > 0 ==> forall|i: int, j: int|
                0 <= i < j < final(self).filtered.len() ==> #[trigger] final(self).filtered@[i].score
                    >= #[trigger] final(self).filtered@[j].score,
    {
        string_pop(&mut self.input);
        self.filter();
        proof {
            if self.input@.len() > 0 {
                lemma_results_best_first(self.entries.deep_view(), self.input@);
                assert forall|i: int, j: int| 0 <= i < j < self.filtered.len() implies #[trigger] self.filtered@[i].score
                    >= #[trigger] self.filtered@[j].score by {
                    assert(self.filtered.deep_view()[i].2 == self.filtered@[i].score);
                    assert(self.filtered.deep_view()[j].2 == self.filtered@[j].score);
                }
            }
        }
    }

    pub fn select_next(&mut self)
        ensures
            final(self).selected == if old(self).filtered.len() > 0 {
                ((old(self).selected + 1) % old(self).filtered.len() as int) as usize
            } else {
                old(self).selected
            },
            final(self).filtered == old(self).filtered,
            final(self).entries == old(self).entries,
            final(self).input == old(self).input,
            final(self).visible == old(self).visible,
    {
        if self.filtered.len() > 0 {
            self.selected = ((self.selected as u128 + 1) % (self.filtered.len() as u128)) as usize;
        }
    }

    pub fn select_previous(&mut self)
        ensures
            final(self).selected == if old(self).filtered.len() > 0 {
                if old(self).selected == 0 { (old(self).filtered.len() - 1) as usize } else { (old(self).selected - 1) as usize }
            } else {
                old(self).selected
            },
            final(self).filtered == old(self).filtered,
            final(self).entries == old(self).entries,
            final(self).input == old(self).input,
            final(self).visible == old(self).visible,
    {
        if self.filtered.len() > 0 {
            self.selected = if self.selected == 0 { self.filtered.len() - 1 } else { self.selected - 1 };
        }
    }

    /// The path of the selected result, if the selection is one.
    pub fn accept(&self) -> (r: Option<String>)
        ensures
            self.selected < self.filtered.len() ==> (r matches Some(p) && p@ == self.filtered.deep_view()[self.selected as int].1),
            self.selected >= self.filtered.len() ==> r is None,
    {
        if self.selected < self.filtered.len() {
            Some(self.filtered[self.selected].path.clone())
        } else {
            None
        }
    }

    /// Recompute the results for the current input and select the first.
    fn filter(&mut self)
        ensures
            final(self).filtered.deep_view() == filter_results(old(self).entries.deep_view(), old(self).input@),
            final(self).selected == 0,
            final(self).visible == old(self).visible,
            final(self).input == old(self).input,
            final(self).entries == old(self).entries,
    {
        if self.input.as_str().is_empty() {
            self.filtered = copy_entries(&self.entries);
        } else {
            let ghost es = self.entries.deep_view();
            let mut matched: Vec<PaletteEntry> = Vec::new();
            let mut i: usize = 0;
            while i < self.entries.len()
                invariant
                    es == self.entries.deep_view(),
                    i <= self.entries.len(),
                    matched.deep_view() == scored(es.take(i as int), self.input@),
                    self.input == old(self).input,
                decreases self.entries.len() - i,
            {
                let ghost pre = es.take(i as int);
                assert(es.take(i + 1).drop_last() =~= pre);
                let e = &self.entries[i];
                match fuzzy_match(e.display.as_str(), self.input.as_str()) {
                    Some(score) => {
                        let ghost before = matched.deep_view();
                        matched.push(PaletteEntry { display: e.display.clone(), path: e.path.clone(), score });
                        assert(matched.deep_view() =~= before + seq![(e.display@, e.path@, score)]);
                    },
                    None => {
                        assert(scored(es.take(i + 1), self.input@) =~= scored(pre, self.input@));
                    },
                }
                i += 1;
            }
            assert(es.take(i as int) =~= es);
            self.filtered = sort_entries(&matched, true);
        }
        self.selected = 0;
    }

    /// `self` is `old` after it handled `action` and answered `r`.
    pub open spec fn handled(&self, old: &CommandPalette, action: Action, r: AppCommand) -> bool {
        &&& match action {
            Action::PaletteAccept => if old.selected < old.filtered.len() {
                &&& (r matches AppCommand::OpenFile(p) && p@ == old.filtered.deep_view()[old.selected as int].1)
                &&& !self.visible
                &&& self.input@.len() == 0
                &&& self.filtered.len() == 0
            } else {
                r == AppCommand::Nothing && self.filtered == old.filtered
                    && self.visible == old.visible
            },
            Action::PaletteDismiss => r == AppCommand::Nothing && !self.visible
                && self.input@.len() == 0,
            Action::PaletteInput(ch) => r == AppCommand::Nothing && self.input@ == old.input@.push(ch)
                && self.filtered.deep_view() == filter_results(old.entries.deep_view(), self.input@),
            Action::InsertChar(ch) => r == AppCommand::Nothing && self.input@ == old.input@.push(ch)
                && self.filtered.deep_view() == filter_results(old.entries.deep_view(), self.input@),
            Action::PaletteBackspace => r == AppCommand::Nothing && self.filtered.deep_view() == filter_results(
                old.entries.deep_view(),
                self.input@,
            ) && self.input@ == if old.input@.len() > 0 {
                old.input@.drop_last()
            } else {
                old.input@
            },
            Action::DeleteBackward => r == AppCommand::Nothing && self.filtered.deep_view() == filter_results(
                old.entries.deep_view(),
                self.input@,
            ) && self.input@ == if old.input@.len() > 0 {
                old.input@.drop_last()
            } else {
                old.input@
            },
            Action::PaletteUp => r == AppCommand::Nothing && self.filtered == old.filtered
                && self.selected == if old.filtered.len() > 0 {
                if old.selected == 0 { (old.filtered.len() - 1) as usize } else { (old.selected - 1) as usize }
            } else {
                old.selected
            },
            Action::PaletteDown => r == AppCommand::Nothing && self.filtered == old.filtered
                && self.selected == if old.filtered.len() > 0 {
                ((old.selected + 1) % old.filtered.len() as int) as usize
            } else {
                old.selected
            },
            _ => r == AppCommand::Nothing && self.visible == old.visible && self.input
                == old.input && self.filtered == old.filtered && self.selected == old.selected,
        }
    }

    /// Handle an action: typing edits the input, the arrows move the
    /// selection, accept opens the selected file and closes the palette,
    /// dismiss closes it.
    pub fn handle_action(&mut self, action: &Action) -> (r: AppCommand)
        ensures
            final(self).handled(old(self), *action, r),
    {
        match action {
            Action::PaletteInput(ch) => {
                self.insert_char(*ch);
                AppCommand::Nothing
            },
            Action::PaletteBackspace => {
                self.backspace();
                AppCommand::Nothing
            },
            Action::PaletteUp => {
                self.select_previous();
                AppCommand::Nothing
            },
            Action::PaletteDown => {
                self.select_next();
                AppCommand::Nothing
            },
            Action::PaletteAccept => {
                match self.accept() {
                    Some(path) => {
                        self.close();
                        AppCommand::OpenFile(path)
                    },
                    None => AppCommand::Nothing,
                }
            },
            Action::PaletteDismiss => {
                self.close();
                AppCommand::Nothing
            },
            Action::InsertChar(ch) => {
                self.insert_char(*ch);
                AppCommand::Nothing
            },
            Action::DeleteBackward => {
                self.backspace();
                AppCommand::Nothing
            },
            _ => AppCommand::Nothing,
        }
    }
}

} // verus!
