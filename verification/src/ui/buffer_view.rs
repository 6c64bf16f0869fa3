//! What the editor shows of a buffer: the rows in view, the visible text of
//! each row, the columns its selection and its search matches cover, and
//! the splitting of styled text where a highlight starts or ends.
use vstd::prelude::*;
use crate::editor::document::line_or_empty;
use crate::text::{chars_of, copy_range};
use crate::ui::buffer::{trim_end_char, trimmed_len, Buffer};

verus! {

/// `a - b`, or zero when `b` is larger.
pub open spec fn minus(a: int, b: int) -> int {
    if a >= b { a - b } else { 0 }
}

/// The smaller of `a` and `b`.
pub open spec fn smaller(a: int, b: int) -> int {
    if a <= b { a } else { b }
}

/// The pieces of one styled text starting at column `col` once columns
/// `start..end` are highlighted: the text whole when it lies outside the
/// range, else its part before the range, the part inside it (marked) and
/// the part after it, each where it is not empty.
pub open spec fn span_pieces<S>(text: Seq<char>, style: S, col: int, start: int, end: int) -> Seq<(Seq<char>, S, bool)> {
    let len = text.len() as int;
    if start >= end || col + len <= start || col >= end {
        seq![(text, style, false)]
    } else {
        let rs = smaller(minus(start, col), len);
        let re = smaller(minus(end, col), len);
        (if rs > 0 { seq![(text.subrange(0, rs), style, false)] } else { Seq::empty() })
            + (if rs < re { seq![(text.subrange(rs, re), style, true)] } else { Seq::empty() })
            + (if re < len { seq![(text.subrange(re, len), style, false)] } else { Seq::empty() })
    }
}

/// The pieces of the styled texts `spans`, the first starting at column
/// `col`, once columns `start..end` are highlighted.
pub open spec fn overlaid<S>(spans: Seq<(Seq<char>, S)>, col: int, start: int, end: int) -> Seq<(Seq<char>, S, bool)>
    decreases spans.len(),
{
    if spans.len() == 0 {
        Seq::empty()
    } else {
        span_pieces(spans[0].0, spans[0].1, col, start, end) + overlaid(
            spans.drop_first(),
            col + spans[0].0.len(),
            start,
            end,
        )
    }
}

/// The texts of styled spans, each as its characters.
pub open spec fn span_texts<S>(spans: Seq<(Vec<char>, S)>) -> Seq<(Seq<char>, S)> {
    spans.map_values(|p: (Vec<char>, S)| (p.0@, p.1))
}

/// The texts of highlighted pieces, each as its characters.
pub open spec fn piece_texts<S>(pieces: Seq<(Vec<char>, S, bool)>) -> Seq<(Seq<char>, S, bool)> {
    pieces.map_values(|p: (Vec<char>, S, bool)| (p.0@, p.1, p.2))
}

/// All the text of some pieces, in order.
pub open spec fn joined_text<S>(pieces: Seq<(Seq<char>, S, bool)>) -> Seq<char>
    decreases pieces.len(),
{
    if pieces.len() == 0 {
        Seq::empty()
    } else {
        pieces[0].0 + joined_text(pieces.drop_first())
    }
}

/// All the text of some styled spans, in order.
pub open spec fn spans_text<S>(spans: Seq<(Seq<char>, S)>) -> Seq<char>
    decreases spans.len(),
{
    if spans.len() == 0 {
        Seq::empty()
    } else {
        spans[0].0 + spans_text(spans.drop_first())
    }
}

proof fn lemma_joined_append<S>(a: Seq<(Seq<char>, S, bool)>, b: Seq<(Seq<char>, S, bool)>)
    ensures
        joined_text(a + b) == joined_text(a) + joined_text(b),
    decreases a.len(),
{
    if a.len() == 0 {
        assert(a + b =~= b);
        assert(joined_text(a) + joined_text(b) =~= joined_text(b));
    } else {
        assert((a + b).drop_first() =~= a.drop_first() + b);
        lemma_joined_append(a.drop_first(), b);
        assert(joined_text(a + b) =~= joined_text(a) + joined_text(b));
    }
}

proof fn lemma_span_pieces_text<S>(text: Seq<char>, style: S, col: int, start: int, end: int)
    ensures
        joined_text(span_pieces(text, style, col, start, end)) == text,
{
    let len = text.len() as int;
    let p = span_pieces(text, style, col, start, end);
    reveal_with_fuel(joined_text, 4);
    if start >= end || col + len <= start || col >= end {
        assert(p.drop_first() =~= Seq::<(Seq<char>, S, bool)>::empty());
        assert(joined_text(p) =~= text);
    } else {
        let rs = smaller(minus(start, col), len);
        let re = smaller(minus(end, col), len);
        let a: Seq<(Seq<char>, S, bool)> = if rs > 0 { seq![(text.subrange(0, rs), style, false)] } else { Seq::empty() };
        let b: Seq<(Seq<char>, S, bool)> = if rs < re { seq![(text.subrange(rs, re), style, true)] } else { Seq::empty() };
        let c: Seq<(Seq<char>, S, bool)> = if re < len { seq![(text.subrange(re, len), style, false)] } else { Seq::empty() };
        lemma_joined_append(a + b, c);
        lemma_joined_append(a, b);
        if rs > 0 {
            assert(a.drop_first() =~= Seq::<(Seq<char>, S, bool)>::empty());
        }
        if rs < re {
            assert(b.drop_first() =~= Seq::<(Seq<char>, S, bool)>::empty());
        }
        if re < len {
            assert(c.drop_first() =~= Seq::<(Seq<char>, S, bool)>::empty());
        }
        assert(joined_text(a) == text.subrange(0, rs));
        assert(joined_text(b) == text.subrange(rs, if rs < re { re } else { rs }));
        assert(joined_text(c) == text.subrange(if re < len { re } else { len }, len));
        assert(joined_text(p) =~= text);
    }
}

/// Highlighting a range never changes the text: the pieces hold the same
/// characters, in the same order, as the spans they were cut from.
pub proof fn lemma_overlay_keeps_text<S>(spans: Seq<(Seq<char>, S)>, col: int, start: int, end: int)
    ensures
        joined_text(overlaid(spans, col, start, end)) == spans_text(spans),
    decreases spans.len(),
{
    if spans.len() > 0 {
        lemma_overlay_keeps_text(spans.drop_first(), col + spans[0].0.len(), start, end);
        lemma_span_pieces_text(spans[0].0, spans[0].1, col, start, end);
        lemma_joined_append(
            span_pieces(spans[0].0, spans[0].1, col, start, end),
            overlaid(spans.drop_first(), col + spans[0].0.len(), start, end),
        );
    }
}

/// Cut styled texts (the first starting at column 0) where the highlight
/// of columns `start..end` starts or ends, marking the pieces inside it.
/// With an empty range every text stays whole and unmarked.
pub fn overlay_range<S: Copy>(spans: &Vec<(Vec<char>, S)>, start: usize, end: usize) -> (r: Vec<(Vec<char>, S, bool)>)
    requires
        spans_text(span_texts(spans@)).len() <= usize::MAX,
    ensures
        piece_texts(r@) == overlaid(span_texts(spans@), 0, start as int, end as int),
{
    let ghost all = span_texts(spans@);
    let mut out: Vec<(Vec<char>, S, bool)> = Vec::new();
    let mut col: usize = 0;
    let mut i: usize = 0;
    assert(all.skip(0) =~= all);
    assert(piece_texts(out@) =~= Seq::<(Seq<char>, S, bool)>::empty());
    while i < spans.len()
        invariant
            i <= spans.len(),
            all == span_texts(spans@),
            col + spans_text(all.skip(i as int)).len() == spans_text(all).len(),
            spans_text(all).len() <= usize::MAX,
            piece_texts(out@) + overlaid(all.skip(i as int), col as int, start as int, end as int) == overlaid(
                all,
                0,
                start as int,
                end as int,
            ),
        decreases spans.len() - i,
    {
        let ghost rest = all.skip(i as int);
        let ghost before = piece_texts(out@);
        assert(rest[0] == all[i as int]);
        assert(rest.drop_first() =~= all.skip(i + 1));
        assert(all[i as int].0 == spans@[i as int].0@);
        let text = &spans[i].0;
        let style = spans[i].1;
        let len = text.len();
        let span_end: usize = col + len;
        if start >= end || span_end <= start || col >= end {
            let whole = copy_range(text.as_slice(), 0, len);
            assert(whole@ =~= text@);
            out.push((whole, style, false));
        } else {
            let rs: usize = if start > col { if start - col < len { start - col } else { len } } else { 0 };
            let re: usize = if end > col { if end - col < len { end - col } else { len } } else { 0 };
            if rs > 0 {
                out.push((copy_range(text.as_slice(), 0, rs), style, false));
            }
            if rs < re {
                out.push((copy_range(text.as_slice(), rs, re), style, true));
            }
            if re < len {
                out.push((copy_range(text.as_slice(), re, len), style, false));
            }
        }
        assert(piece_texts(out@) =~= before + span_pieces(all[i as int].0, style, col as int, start as int, end as int));
        col = span_end;
        i += 1;
    }
    assert(all.skip(i as int) =~= Seq::<(Seq<char>, S)>::empty());
    assert(piece_texts(out@) + Seq::empty() =~= piece_texts(out@));
    out
}

/// The text of line `i` of `t` as the editor shows it: without its line
/// break (trailing newlines, then carriage returns), from column `h` on.
pub open spec fn shown_line(t: Seq<char>, i: int, h: int) -> Seq<char> {
    let l = trim_end_char(trim_end_char(line_or_empty(t, i), '\n'), '\r');
    if h <= l.len() { l.skip(h) } else { Seq::empty() }
}

/// The screen columns of the search matches on row `i`, among the first
/// `k` matches: each after the gutter of width `g`, `q` long, and marked
/// when it is the current match `cur`.
pub open spec fn match_cols(ms: Seq<(usize, usize)>, k: int, i: usize, h: usize, g: usize, q: int, cur: usize) -> Seq<(usize, usize, bool)>
    decreases k,
{
    if k <= 0 {
        Seq::empty()
    } else {
        let rest = match_cols(ms, k - 1, i, h, g, q, cur);
        let m = ms[k - 1];
        if m.0 == i {
            let s = minus(m.1 as int, h as int) + g;
            rest.push((s as usize, (s + q) as usize, k - 1 == cur))
        } else {
            rest
        }
    }
}

impl Buffer {
    /// The rows in view: from the scroll offset, a screenful, but not past
    /// the last line.
    pub fn visible_rows(&self) -> (r: (usize, usize))
        requires
            self.scroll_offset + self.viewport_height <= usize::MAX,
        ensures
            r.0 == self.scroll_offset,
            r.1 == smaller(self.scroll_offset + self.viewport_height, self.lines() as int),
    {
        let start = self.scroll_offset;
        let count = self.document.line_count();
        let end = if start + self.viewport_height <= count { start + self.viewport_height } else { count };
        (start, end)
    }

    /// The text of row `i` as shown, as [`shown_line`] says.
    pub fn visible_line(&self, i: usize) -> (r: Vec<char>)
        ensures
            r@ == shown_line(self.text(), i as int, self.horizontal_scroll as int),
    {
        let l = chars_of(self.document.line(i).as_str());
        let n = trimmed_len(&l, l.len(), '\n');
        let m = trimmed_len(&l, n, '\r');
        assert(l@.take(l.len() as int) =~= l@);
        proof {
            let t = trim_end_char(trim_end_char(l@, '\n'), '\r');
            assert(l@.take(m as int) == t);
            if self.horizontal_scroll <= m {
                assert(l@.subrange(self.horizontal_scroll as int, m as int) =~= t.skip(self.horizontal_scroll as int));
            }
        }
        if self.horizontal_scroll <= m {
            copy_range(l.as_slice(), self.horizontal_scroll, m)
        } else {
            Vec::new()
        }
    }

    /// The columns of row `i` that the selection covers, if it covers any,
    /// in the coordinates of the row's visible text, which is `visible_len`
    /// long.
    pub fn selection_columns(&self, i: usize, visible_len: usize) -> (r: Option<(usize, usize)>)
        ensures
            match self.cursor.selection {
                None => r is None,
                Some(sel) => {
                    let s = sel.start();
                    let e = sel.end();
                    let h = self.horizontal_scroll as int;
                    let from: int = if i == s.line {
                        minus(s.col as int, h)
                    } else if i > s.line && i <= e.line {
                        0
                    } else {
                        usize::MAX as int
                    };
                    let to: int = if i == e.line {
                        minus(e.col as int, h)
                    } else if i >= s.line && i < e.line {
                        visible_len as int
                    } else {
                        0
                    };
                    if i >= s.line && i <= e.line && from < to {
                        r == Some((from as usize, to as usize))
                    } else {
                        r is None
                    }
                },
            },
    {
        let sel = match &self.cursor.selection {
            Some(sel) => sel,
            None => {
                return None;
            },
        };
        let (s, e) = sel.ordered();
        let h = self.horizontal_scroll;
        let from: usize = if i == s.line {
            s.col.saturating_sub(h)
        } else if i > s.line && i <= e.line {
            0
        } else {
            usize::MAX
        };
        let to: usize = if i == e.line {
            e.col.saturating_sub(h)
        } else if i >= s.line && i < e.line {
            visible_len
        } else {
            0
        };
        if i >= s.line && i <= e.line && from < to {
            Some((from, to))
        } else {
            None
        }
    }

    /// The search matches on row `i`, as screen columns after a gutter of
    /// width `gutter`, each marked when it is the current match; none while
    /// the query is empty.
    pub fn match_columns(&self, i: usize, gutter: usize) -> (r: Vec<(usize, usize, bool)>)
        requires
            forall|k: int|
                0 <= k < self.search.matches.len() && #[trigger] self.search.matches@[k].0 == i ==> self.search.matches@[k].1
                    + gutter + self.search.query@.len() <= usize::MAX,
        ensures
            r@ == if self.search.query@.len() == 0 {
                Seq::empty()
            } else {
                match_cols(
                    self.search.matches@,
                    self.search.matches.len() as int,
                    i,
                    self.horizontal_scroll,
                    gutter,
                    self.search.query@.len() as int,
                    self.search.current,
                )
            },
    {
        let mut out: Vec<(usize, usize, bool)> = Vec::new();
        let q = chars_of(self.search.query.as_str()).len();
        if q == 0 {
            return out;
        }
        let mut k: usize = 0;
        while k < self.search.matches.len()
            invariant
                k <= self.search.matches.len(),
                q == self.search.query@.len(),
                forall|j: int|
                    0 <= j < self.search.matches.len() && #[trigger] self.search.matches@[j].0 == i ==> self.search.matches@[j].1
                        + gutter + self.search.query@.len() <= usize::MAX,
                out@ == match_cols(self.search.matches@, k as int, i, self.horizontal_scroll, gutter, q as int, self.search.current),
            decreases self.search.matches.len() - k,
        {
            let (ml, mc) = self.search.matches[k];
            if ml == i {
                assert(self.search.matches@[k as int].0 == i);
                let s = mc.saturating_sub(self.horizontal_scroll) + gutter;
                out.push((s, s + q, k == self.search.current));
            }
            k += 1;
        }
        out
    }
}

} // verus!
