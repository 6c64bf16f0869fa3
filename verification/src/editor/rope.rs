//! The `ropey::Rope` operations the document uses, and the line structure
//! of a text as Ropey defines it.
use vstd::prelude::*;
use ropey::Rope;

verus! {

#[verifier::external_type_specification]
#[verifier::external_body]
pub struct ExRope(Rope);

/// The characters a rope holds, in order.
pub uninterp spec fn rope_text(r: &Rope) -> Seq<char>;

/// A character Ropey treats as a line break (with its default
/// `unicode_lines` feature): LF, VT, FF, CR, NEL, LS and PS.
pub open spec fn is_break_char(c: char) -> bool {
    c == '\n' || c == '\u{0B}' || c == '\u{0C}' || c == '\r' || c == '\u{85}' || c == '\u{2028}'
        || c == '\u{2029}'
}

/// A line break ends at index `i`: the character there is a break and is
/// not the `\r` of a `\r\n` pair.
pub open spec fn ends_line(t: Seq<char>, i: int) -> bool {
    0 <= i < t.len() && is_break_char(t[i]) && !(t[i] == '\r' && i + 1 < t.len() && t[i + 1] == '\n')
}

/// The number of line breaks that end before index `k`.
pub open spec fn breaks_before(t: Seq<char>, k: int) -> nat
    decreases k,
{
    if k <= 0 {
        0
    } else {
        breaks_before(t, k - 1) + if ends_line(t, k - 1) { 1nat } else { 0nat }
    }
}

/// The number of lines: one more than the number of line breaks.
pub open spec fn line_count(t: Seq<char>) -> nat {
    breaks_before(t, t.len() as int) + 1
}

/// A line starts at index `k`: the start of the text or right after a break.
pub open spec fn is_line_start(t: Seq<char>, k: int) -> bool {
    k == 0 || (0 < k <= t.len() && ends_line(t, k - 1))
}

/// The index where line `n` starts; for `n` equal to the number of lines,
/// the end of the text.
pub open spec fn line_start(t: Seq<char>, n: int) -> int {
    if 0 <= n < line_count(t) {
        choose|k: int| 0 <= k <= t.len() && is_line_start(t, k) && breaks_before(t, k) == n
    } else {
        t.len() as int
    }
}

/// The characters of line `n`, with its line break.
pub open spec fn line_text(t: Seq<char>, n: int) -> Seq<char> {
    t.subrange(line_start(t, n), line_start(t, n + 1))
}

pub proof fn lemma_breaks_monotonic(t: Seq<char>, i: int, j: int)
    requires
        i <= j,
    ensures
        breaks_before(t, i) <= breaks_before(t, j),
    decreases j - i,
{
    if i < j {
        lemma_breaks_monotonic(t, i, j - 1);
    }
}

pub proof fn lemma_breaks_bound(t: Seq<char>, k: int)
    requires
        0 <= k,
    ensures
        breaks_before(t, k) <= k,
    decreases k,
{
    if k > 0 {
        lemma_breaks_bound(t, k - 1);
    }
}

/// A line start with `n` breaks before it is the start of line `n`.
pub proof fn lemma_line_start_unique(t: Seq<char>, n: int, k: int)
    requires
        0 <= k <= t.len(),
        is_line_start(t, k),
        breaks_before(t, k) == n,
    ensures
        0 <= n < line_count(t),
        line_start(t, n) == k,
{
    lemma_breaks_monotonic(t, k, t.len() as int);
    let k2 = choose|k2: int| 0 <= k2 <= t.len() && is_line_start(t, k2) && breaks_before(t, k2) == n;
    assert(0 <= k2 <= t.len() && is_line_start(t, k2) && breaks_before(t, k2) == n);
    if k2 < k {
        lemma_breaks_monotonic(t, k2, k - 1);
        assert(breaks_before(t, k) == breaks_before(t, k - 1) + 1);
    } else if k < k2 {
        lemma_breaks_monotonic(t, k, k2 - 1);
        assert(breaks_before(t, k2) == breaks_before(t, k2 - 1) + 1);
    }
}

/// `Rope::from_str`: a rope holding the text.
#[verifier::external_body]
pub(crate) fn rope_from_str(s: &str) -> (r: Rope)
    ensures
        rope_text(&r) == s@,
{
    Rope::from_str(s)
}

/// `Rope::len_chars`: the number of characters.
#[verifier::external_body]
pub(crate) fn rope_len_chars(r: &Rope) -> (n: usize)
    ensures
        n == rope_text(r).len(),
{
    r.len_chars()
}

/// `Rope::len_lines`: one more than the number of line breaks.
#[verifier::external_body]
pub(crate) fn rope_len_lines(r: &Rope) -> (n: usize)
    ensures
        n == line_count(rope_text(r)),
{
    r.len_lines()
}

/// `Rope::line_to_char`: the index where a line starts, or the end of the
/// text for the line one past the last.
#[verifier::external_body]
pub(crate) fn rope_line_to_char(r: &Rope, line: usize) -> (k: usize)
    requires
        line <= line_count(rope_text(r)),
    ensures
        line < line_count(rope_text(r)) ==> k <= rope_text(r).len() && is_line_start(rope_text(r), k as int)
            && breaks_before(rope_text(r), k as int) == line,
        line == line_count(rope_text(r)) ==> k == rope_text(r).len(),
{
    r.line_to_char(line)
}

/// `Rope::insert`: the text inserted at a character index.
#[verifier::external_body]
pub(crate) fn rope_insert(r: &mut Rope, idx: usize, s: &str)
    requires
        idx <= rope_text(old(r)).len(),
    ensures
        rope_text(final(r)) == rope_text(old(r)).take(idx as int) + s@ + rope_text(old(r)).skip(idx as int),
{
    r.insert(idx, s)
}

/// `Rope::insert_char`: a character inserted at a character index.
#[verifier::external_body]
pub(crate) fn rope_insert_char(r: &mut Rope, idx: usize, c: char)
    requires
        idx <= rope_text(old(r)).len(),
    ensures
        rope_text(final(r)) == rope_text(old(r)).take(idx as int).push(c) + rope_text(old(r)).skip(
            idx as int,
        ),
{
    r.insert_char(idx, c)
}

/// `Rope::remove`: the characters of a range removed.
#[verifier::external_body]
pub(crate) fn rope_remove(r: &mut Rope, start: usize, end: usize)
    requires
        start <= end <= rope_text(old(r)).len(),
    ensures
        rope_text(final(r)) == rope_text(old(r)).take(start as int) + rope_text(old(r)).skip(end as int),
{
    r.remove(start..end)
}

/// `Rope::slice` turned into a `String`: the characters of a range.
#[verifier::external_body]
pub(crate) fn rope_slice_string(r: &Rope, start: usize, end: usize) -> (s: String)
    requires
        start <= end <= rope_text(r).len(),
    ensures
        s@ == rope_text(r).subrange(start as int, end as int),
{
    r.slice(start..end).to_string()
}

/// `Rope::line` turned into a `String`: line `n` with its line break.
#[verifier::external_body]
pub(crate) fn rope_line_string(r: &Rope, n: usize) -> (s: String)
    requires
        n < line_count(rope_text(r)),
    ensures
        s@ == line_text(rope_text(r), n as int),
{
    r.line(n).to_string()
}

/// The whole text of a rope as a `String`.
#[verifier::external_body]
pub(crate) fn rope_to_string(r: &Rope) -> (s: String)
    ensures
        s@ == rope_text(r),
{
    r.to_string()
}

} // verus!
