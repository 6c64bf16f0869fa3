//! How the undo history stays tied to the text it belongs to.
//!
//! A history fits a text when every group on the undo stack, inverted and
//! in reverse order, applies to the text and gives back the text from
//! before the group, and every group on the redo stack applies to the text
//! and gives back the text from before its undo. Recording an edit that
//! can be reverted, undoing and redoing all keep a history fitting.
use vstd::prelude::*;
use crate::editor::cursor::Position;
use crate::editor::document::{
    char_at_spec, inserted, lemma_line_bounds, lemma_line_start_exists, line_len, line_or_empty, pos_index, pos_ok, removed,
};
use crate::editor::history::{
    EditView, HistoryView, invert_view, lemma_undo_edits_involution, spec_begin_group, spec_end_group, spec_record,
    spec_redo, spec_undo, undo_edits,
};
use crate::editor::rope::{
    breaks_before, ends_line, is_break_char, lemma_breaks_bound, lemma_breaks_monotonic, line_count, line_start,
    line_text,
};
use crate::input::actions::Action;
use crate::ui::buffer::{
    Buffer, all_ok, apply_all, apply_text, edit_ok, end_of, no_breaks, walk, lemma_agree_breaks, lemma_delete_after_insert,
    lemma_ends_agree_at, lemma_insert_end_position, lemma_prefix_keeps_position, lemma_type_then_undo, lemma_walk_bound,
    lf_only, on_line,
};
use crate::editor::rope::lemma_line_start_unique;

verus! {

/// Applying `e` to `t` and then its inverse can both be done, and the
/// inverse gives `t` back.
pub open spec fn reverts(t: Seq<char>, e: EditView) -> bool {
    &&& edit_ok(t, e)
    &&& edit_ok(apply_text(t, e), invert_view(e))
    &&& apply_text(apply_text(t, e), invert_view(e)) == t
}

/// Every edit of `g`, applied in turn from `t`, can be reverted.
pub open spec fn each_reverts(t: Seq<char>, g: Seq<EditView>) -> bool
    decreases g.len(),
{
    g.len() == 0 || (each_reverts(t, g.drop_last()) && reverts(apply_all(t, g.drop_last()), g.last()))
}

/// Each group of `undo`, from the top down, applies inverted to the text
/// reached so far and gives back a text (within the machine limits) on
/// which the group itself applies again and leads back.
pub open spec fn undo_chain(t: Seq<char>, undo: Seq<Seq<EditView>>) -> bool
    decreases undo.len(),
{
    undo.len() == 0 || {
        let g = undo.last();
        let t0 = apply_all(t, undo_edits(g));
        &&& all_ok(t, undo_edits(g))
        &&& all_ok(t0, g)
        &&& apply_all(t0, g) == t
        &&& t0.len() + 1 < usize::MAX
        &&& undo_chain(t0, undo.drop_last())
    }
}

/// Each group of `redo`, from the top down, applies to the text reached so
/// far and gives a text (within the machine limits) on which its inverse
/// applies and leads back.
pub open spec fn redo_chain(t: Seq<char>, redo: Seq<Seq<EditView>>) -> bool
    decreases redo.len(),
{
    redo.len() == 0 || {
        let g = redo.last();
        let t1 = apply_all(t, g);
        &&& all_ok(t, g)
        &&& all_ok(t1, undo_edits(g))
        &&& apply_all(t1, undo_edits(g)) == t
        &&& t1.len() + 1 < usize::MAX
        &&& redo_chain(t1, redo.drop_last())
    }
}

/// The history fits the text: no group is open, and both stacks chain
/// back and forth through the texts they were recorded on.
pub open spec fn history_fits(t: Seq<char>, h: HistoryView) -> bool {
    &&& h.group is None
    &&& undo_chain(t, h.undo)
    &&& redo_chain(t, h.redo)
}

/// The history after recording the edits of `g` one by one.
pub open spec fn records(h: HistoryView, g: Seq<EditView>) -> HistoryView
    decreases g.len(),
{
    if g.len() == 0 { h } else { spec_record(records(h, g.drop_last()), g.last()) }
}

proof fn lemma_single(t: Seq<char>, e: EditView)
    ensures
        apply_all(t, seq![e]) == apply_text(t, e),
        all_ok(t, seq![e]) == edit_ok(t, e),
        undo_edits(seq![e]) == seq![invert_view(e)],
{
    assert(seq![e].drop_last() =~= Seq::<EditView>::empty());
    assert(seq![e].last() == e);
    assert(apply_all(t, Seq::<EditView>::empty()) == t);
    assert(all_ok(t, Seq::<EditView>::empty()));
    assert(apply_all(t, seq![e]) == apply_text(apply_all(t, seq![e].drop_last()), e));
    assert(all_ok(t, seq![e]) == (all_ok(t, seq![e].drop_last()) && edit_ok(apply_all(t, seq![e].drop_last()), e)));
    assert(undo_edits(seq![e]) =~= seq![invert_view(e)]);
}

/// Applying `x` followed by `rest` is applying `x`, then `rest` to what it
/// leaves.
proof fn lemma_apply_cons(t: Seq<char>, x: EditView, rest: Seq<EditView>)
    ensures
        apply_all(t, seq![x] + rest) == apply_all(apply_text(t, x), rest),
        all_ok(t, seq![x] + rest) == (edit_ok(t, x) && all_ok(apply_text(t, x), rest)),
    decreases rest.len(),
{
    if rest.len() == 0 {
        assert(seq![x] + rest =~= seq![x]);
        lemma_single(t, x);
    } else {
        lemma_apply_cons(t, x, rest.drop_last());
        assert((seq![x] + rest).drop_last() =~= seq![x] + rest.drop_last());
        assert((seq![x] + rest).last() == rest.last());
    }
}

/// Undoing a group whose edits can each be reverted gives back the text
/// from before the group: the group applies to `t`, its undo applies to
/// the result, and the undo leads back to `t`.
pub proof fn lemma_group_reverts(t: Seq<char>, g: Seq<EditView>)
    requires
        each_reverts(t, g),
    ensures
        all_ok(t, g),
        all_ok(apply_all(t, g), undo_edits(g)),
        apply_all(apply_all(t, g), undo_edits(g)) == t,
    decreases g.len(),
{
    if g.len() == 0 {
        assert(undo_edits(g) =~= Seq::<EditView>::empty());
    } else {
        let g1 = g.drop_last();
        let e = g.last();
        lemma_group_reverts(t, g1);
        let t1 = apply_all(t, g1);
        assert(undo_edits(g) =~= seq![invert_view(e)] + undo_edits(g1));
        lemma_apply_cons(apply_all(t, g), invert_view(e), undo_edits(g1));
    }
}

/// Inserting `s` (with no line break but `'\n'`) at a position on its line
/// of a text whose only line break is `'\n'` can be reverted; the position
/// after the inserted text lies on its line of the new text, which still
/// has `'\n'` as its only line break.
pub proof fn lemma_insert_reverts(t: Seq<char>, p: Position, s: Seq<char>)
    requires
        on_line(t, p),
        lf_only(t),
        lf_only(s),
        t.len() + s.len() + 1 < usize::MAX,
    ensures
        reverts(t, EditView::Insert { pos: (p.line, p.col), text: s }),
        apply_text(t, EditView::Insert { pos: (p.line, p.col), text: s }) == inserted(t, pos_index(t, p), s),
        on_line(inserted(t, pos_index(t, p), s), end_of(p, s)),
        lf_only(inserted(t, pos_index(t, p), s)),
{
    let i = pos_index(t, p);
    lemma_line_start_exists(t, p.line as int);
    lemma_breaks_bound(t, i);
    lemma_insert_end_position(t, p, s);
    lemma_delete_after_insert(t, p, s);
    lemma_walk_bound(p.line as int, p.col as int, s);
}

/// Deleting the text between two positions, the first on its line, of a
/// text whose only line break is `'\n'` can be reverted: the deletion
/// recorded with the removed text removes exactly that range, and leaves
/// the first position on its line of a text with `'\n'` as only break.
pub proof fn lemma_delete_reverts(t: Seq<char>, a: Position, b: Position)
    requires
        on_line(t, a),
        pos_ok(t, b),
        lf_only(t),
        pos_index(t, a) <= pos_index(t, b),
        t.len() + 1 < usize::MAX,
    ensures
        ({
            let s = t.subrange(pos_index(t, a), pos_index(t, b));
            let e = EditView::Delete { pos: (a.line, a.col), text: s };
            let tc = removed(t, pos_index(t, a), pos_index(t, b));
            &&& reverts(t, e)
            &&& apply_text(t, e) == tc
            &&& on_line(tc, a)
            &&& lf_only(tc)
        }),
{
    let ia = pos_index(t, a);
    let ib = pos_index(t, b);
    let s = t.subrange(ia, ib);
    let tc = removed(t, ia, ib);
    lemma_line_start_exists(t, a.line as int);
    lemma_breaks_bound(t, ia);
    assert(tc =~= t.take(ia) + t.skip(ib));
    assert forall|m: int| 0 <= m < ia implies t[m] == #[trigger] tc[m] by {}
    lemma_prefix_keeps_position(t, tc, a);
    assert forall|k: int| 0 <= k < tc.len() && is_break_char(#[trigger] tc[k]) implies tc[k] == '\n' by {
        if k < ia {
            assert(tc[k] == t[k]);
        } else {
            assert(tc[k] == t[k + (ib - ia)]);
        }
    }
    assert forall|k: int| 0 <= k < s.len() && is_break_char(#[trigger] s[k]) implies s[k] == '\n' by {
        assert(s[k] == t[ia + k]);
    }
    assert(on_line(tc, a));
    assert(inserted(tc, ia, s) =~= t);
    lemma_insert_end_position(tc, a, s);
    lemma_walk_bound(a.line as int, a.col as int, s);
}

/// A place where one character can be typed and taken out again, whatever
/// the text's line breaks: a position on its line that does not follow a
/// carriage return.
pub open spec fn typing_spot(t: Seq<char>, p: Position) -> bool {
    &&& on_line(t, p)
    &&& (pos_index(t, p) == 0 || t[pos_index(t, p) - 1] != '\r')
}

/// Typing one character at a typing spot can be reverted.
pub proof fn lemma_typed_reverts(t: Seq<char>, p: Position, c: char)
    requires
        typing_spot(t, p),
        t.len() + 2 < usize::MAX,
    ensures
        reverts(t, EditView::Insert { pos: (p.line, p.col), text: seq![c] }),
        apply_text(t, EditView::Insert { pos: (p.line, p.col), text: seq![c] }) == inserted(
            t,
            pos_index(t, p),
            seq![c],
        ),
{
    lemma_line_start_exists(t, p.line as int);
    lemma_breaks_bound(t, pos_index(t, p));
    lemma_type_then_undo(t, p, c);
    let e = EditView::Insert { pos: (p.line, p.col), text: seq![c] };
    lemma_single(t, e);
    lemma_single(apply_text(t, e), invert_view(e));
}

/// Walking over text without a `'\n'` moves along the line only.
proof fn lemma_walk_plain(line: int, col: int, s: Seq<char>)
    requires
        no_breaks(s),
    ensures
        walk(line, col, s) == (line, col + s.len()),
    decreases s.len(),
{
    if s.len() > 0 {
        assert(no_breaks(s.drop_last())) by {
            assert forall|k: int| 0 <= k < s.drop_last().len() implies !is_break_char(#[trigger] s.drop_last()[k]) by {
                assert(s.drop_last()[k] == s[k]);
            }
        }
        lemma_walk_plain(line, col, s.drop_last());
        assert(!is_break_char(s[s.len() - 1]));
    }
}

/// Inserting text without line breaks at a typing spot can be reverted,
/// whatever the text's line breaks.
pub proof fn lemma_plain_insert_reverts(t: Seq<char>, p: Position, s: Seq<char>)
    requires
        typing_spot(t, p),
        no_breaks(s),
        t.len() + s.len() + 1 < usize::MAX,
    ensures
        reverts(t, EditView::Insert { pos: (p.line, p.col), text: s }),
        apply_text(t, EditView::Insert { pos: (p.line, p.col), text: s }) == inserted(t, pos_index(t, p), s),
{
    let n = p.line as int;
    let i = pos_index(t, p);
    lemma_line_start_exists(t, n);
    lemma_breaks_bound(t, i);
    let ls = line_start(t, n);
    let t2 = inserted(t, i, s);
    assert(t2.len() == t.len() + s.len());
    assert forall|m: int| 0 <= m < i implies t[m] == #[trigger] t2[m] by {}
    lemma_ends_agree_at(t, t2, i);
    lemma_agree_breaks(t, t2, i);
    assert(breaks_before(t, ls) == breaks_before(t2, ls));
    assert(crate::editor::rope::is_line_start(t, ls) == crate::editor::rope::is_line_start(t2, ls));
    lemma_line_start_unique(t2, n, ls);
    lemma_walk_plain(p.line as int, p.col as int, s);
    let q = end_of(p, s);
    assert(q == Position { line: p.line, col: (p.col + s.len()) as usize });
    assert(pos_index(t2, p) == i);
    assert(pos_index(t2, q) == i + s.len());
    if s.len() > 0 {
        assert(t2.take(i) + t2.skip(i + s.len()) =~= t);
    } else {
        assert(t2 =~= t);
    }
}

/// Deleting the character of a line's content at a typing spot can be
/// reverted, whatever the text's line breaks.
pub proof fn lemma_char_deleted_reverts(t: Seq<char>, d: Position, c: char)
    requires
        typing_spot(t, d),
        d.col < line_len(t, d.line as int),
        t[pos_index(t, d)] == c,
        t.len() + 1 < usize::MAX,
    ensures
        ({
            let i = pos_index(t, d);
            let e = EditView::Delete { pos: (d.line, d.col), text: seq![c] };
            &&& reverts(t, e)
            &&& apply_text(t, e) == removed(t, i, i + 1)
            &&& t.subrange(i, i + 1) == seq![c]
        }),
{
    let n = d.line as int;
    let i = pos_index(t, d);
    lemma_line_start_exists(t, n);
    lemma_line_bounds(t, n);
    lemma_breaks_bound(t, i);
    let ls = line_start(t, n);
    assert(line_len(t, n) <= line_text(t, n).len()) by {
        crate::editor::document::lemma_line_len_bound(t, n);
    }
    assert(i < t.len());
    let tc = removed(t, i, i + 1);
    assert(tc =~= t.take(i) + t.skip(i + 1));
    assert forall|m: int| 0 <= m < i implies t[m] == #[trigger] tc[m] by {}
    lemma_ends_agree_at(t, tc, i);
    lemma_agree_breaks(t, tc, i);
    assert(breaks_before(t, ls) == breaks_before(tc, ls));
    assert(crate::editor::rope::is_line_start(t, ls) == crate::editor::rope::is_line_start(tc, ls));
    lemma_line_start_unique(tc, n, ls);
    assert(pos_index(tc, d) == i);
    assert(typing_spot(tc, d));
    lemma_type_then_undo(tc, d, c);
    assert(inserted(tc, i, seq![c]) =~= t);
    let typed = EditView::Insert { pos: (d.line, d.col), text: seq![c] };
    let e = EditView::Delete { pos: (d.line, d.col), text: seq![c] };
    lemma_single(tc, typed);
    lemma_single(t, e);
    assert(invert_view(typed) == e);
    assert(invert_view(e) == typed);
    assert(t.subrange(i, i + 1) =~= seq![c]);
}

/// Recording an edit that can be reverted on a text the history fits
/// gives a history that fits the edited text.
pub proof fn lemma_record_fits(t: Seq<char>, h: HistoryView, e: EditView)
    requires
        history_fits(t, h),
        reverts(t, e),
        t.len() + 1 < usize::MAX,
    ensures
        history_fits(apply_text(t, e), spec_record(h, e)),
{
    let t2 = apply_text(t, e);
    let h2 = spec_record(h, e);
    lemma_single(t2, invert_view(e));
    lemma_single(t, e);
    assert(h2.undo.last() == seq![e]);
    assert(h2.undo.drop_last() =~= h.undo);
    assert(undo_chain(t2, h2.undo));
}

/// On a text the history fits, an undo's edits apply, give a text within
/// the machine limits, and leave a history that fits that text; a redo
/// right after it gives the text back. Without anything to undo the
/// history stays.
pub proof fn lemma_undo_fits(t: Seq<char>, h: HistoryView)
    requires
        history_fits(t, h),
        t.len() + 1 < usize::MAX,
    ensures
        match spec_undo(h).1 {
            Some(es) => {
                &&& all_ok(t, es)
                &&& apply_all(t, es).len() + 1 < usize::MAX
                &&& history_fits(apply_all(t, es), spec_undo(h).0)
                &&& spec_redo(spec_undo(h).0).1 matches Some(rs) && all_ok(apply_all(t, es), rs) && apply_all(
                    apply_all(t, es),
                    rs,
                ) == t
            },
            None => spec_undo(h).0 == h,
        },
{
    if h.undo.len() > 0 {
        let g = h.undo.last();
        let h1 = spec_undo(h).0;
        assert(h1.redo.last() == g);
        assert(h1.redo.drop_last() =~= h.redo);
        assert(redo_chain(apply_all(t, undo_edits(g)), h1.redo));
    }
}

/// On a text the history fits, a redo's edits apply, give a text within
/// the machine limits, and leave a history that fits that text; an undo
/// right after it gives the text back. Without anything to redo the
/// history stays.
pub proof fn lemma_redo_fits(t: Seq<char>, h: HistoryView)
    requires
        history_fits(t, h),
        t.len() + 1 < usize::MAX,
    ensures
        match spec_redo(h).1 {
            Some(es) => {
                &&& all_ok(t, es)
                &&& apply_all(t, es).len() + 1 < usize::MAX
                &&& history_fits(apply_all(t, es), spec_redo(h).0)
                &&& spec_undo(spec_redo(h).0).1 matches Some(us) && all_ok(apply_all(t, es), us) && apply_all(
                    apply_all(t, es),
                    us,
                ) == t
            },
            None => spec_redo(h).0 == h,
        },
{
    if h.redo.len() > 0 {
        let g = h.redo.last();
        let h1 = spec_redo(h).0;
        assert(h1.undo.last() == g);
        assert(h1.undo.drop_last() =~= h.undo);
        assert(undo_chain(apply_all(t, g), h1.undo));
    }
}

/// Undo after an edit gives back the text from before it: where the
/// history fits the text and the edit can be reverted, the undo right
/// after recording it applies to the edited text, leads back to the text
/// from before, and leaves the undo stack as it was.
pub proof fn lemma_undo_restores(t: Seq<char>, h: HistoryView, e: EditView)
    requires
        history_fits(t, h),
        reverts(t, e),
        t.len() + 1 < usize::MAX,
    ensures
        spec_undo(spec_record(h, e)).1 matches Some(es) && all_ok(apply_text(t, e), es) && apply_all(
            apply_text(t, e),
            es,
        ) == t,
        spec_undo(spec_record(h, e)).0.undo == h.undo,
{
    let h2 = spec_record(h, e);
    lemma_single(apply_text(t, e), invert_view(e));
    lemma_single(t, e);
    assert(h2.undo.drop_last() =~= h.undo);
    assert(h2.undo.last() == seq![e]);
    assert(spec_undo(h2).1 == Some(undo_edits(seq![e])));
}

/// Recording a group's edits one by one into an open group, on a history
/// with no group open, leaves the stacks and collects the edits, in order,
/// as the open group; the redo stack is emptied once anything is recorded.
pub proof fn lemma_records_collect(h: HistoryView, g: Seq<EditView>)
    requires
        h.group is None,
    ensures
        records(spec_begin_group(h), g).group == Some(g),
        records(spec_begin_group(h), g).undo == h.undo,
        g.len() > 0 ==> records(spec_begin_group(h), g).redo.len() == 0,
        g.len() == 0 ==> records(spec_begin_group(h), g).redo == h.redo,
    decreases g.len(),
{
    if g.len() == 0 {
        assert(g =~= Seq::<EditView>::empty());
    } else {
        lemma_records_collect(h, g.drop_last());
        assert(g.drop_last().push(g.last()) =~= g);
    }
}

/// Undo after any recorded group gives back the text from before it: once
/// a group is opened, its edits recorded one by one and the group closed,
/// an undo hands back the group's inverse, which applies to the text the
/// group left and leads back to the text from before it, where each edit
/// of the group could be reverted in turn.
pub proof fn lemma_group_undo_restores(t: Seq<char>, h: HistoryView, g: Seq<EditView>)
    requires
        h.group is None,
        g.len() > 0,
        each_reverts(t, g),
    ensures
        ({
            let closed = spec_end_group(records(spec_begin_group(h), g));
            &&& spec_undo(closed).1 == Some(undo_edits(g))
            &&& spec_undo(closed).0.undo == h.undo
            &&& all_ok(t, g)
            &&& all_ok(apply_all(t, g), undo_edits(g))
            &&& apply_all(apply_all(t, g), undo_edits(g)) == t
        }),
{
    lemma_records_collect(h, g);
    let closed = spec_end_group(records(spec_begin_group(h), g));
    assert(closed.undo == h.undo.push(g));
    assert(closed.undo.drop_last() =~= h.undo);
    lemma_group_reverts(t, g);
}

/// Redo after an undo gives back the text from before the undo, and the
/// history from before it.
pub proof fn lemma_redo_after_undo(t: Seq<char>, h: HistoryView)
    requires
        history_fits(t, h),
        t.len() + 1 < usize::MAX,
        h.undo.len() > 0,
    ensures
        spec_undo(h).1 matches Some(es) && spec_redo(spec_undo(h).0).1 matches Some(rs) && all_ok(
            apply_all(t, es),
            rs,
        ) && apply_all(apply_all(t, es), rs) == t,
        spec_redo(spec_undo(h).0).0 == h,
{
    lemma_undo_fits(t, h);
    let h1 = spec_undo(h).0;
    assert(h1.undo.push(h.undo.last()) =~= h.undo);
    assert(h1.redo.drop_last() =~= h.redo);
    lemma_undo_edits_involution(h.undo.last());
}

/// The character before a position on its line, on a line of a text whose
/// only break is `'\n'`: the position one column back lies on the line,
/// and the text between the two is that character.
proof fn lemma_char_before(t: Seq<char>, p: Position, c: char)
    requires
        on_line(t, p),
        lf_only(t),
        p.col > 0,
        char_at_spec(t, Position { line: p.line, col: (p.col - 1) as usize }) == Some(c),
    ensures
        ({
            let d = Position { line: p.line, col: (p.col - 1) as usize };
            &&& on_line(t, d)
            &&& pos_index(t, d) + 1 == pos_index(t, p)
            &&& t.subrange(pos_index(t, d), pos_index(t, p)) == seq![c]
        }),
{
    let d = Position { line: p.line, col: (p.col - 1) as usize };
    let n = p.line as int;
    lemma_line_start_exists(t, n);
    lemma_line_bounds(t, n);
    let ls = line_start(t, n);
    lemma_breaks_monotonic(t, ls, pos_index(t, d));
    lemma_breaks_monotonic(t, pos_index(t, d), pos_index(t, p));
    assert(line_or_empty(t, n) == line_text(t, n));
    assert(line_text(t, n)[d.col as int] == t[pos_index(t, d)]);
    assert(t.subrange(pos_index(t, d), pos_index(t, p)) =~= seq![c]);
}

/// The line break before the start of a line other than the first, in a
/// text whose only break is `'\n'`: the end of the previous line's content
/// lies on that line, one index before, and the text between is `'\n'`.
proof fn lemma_break_before(t: Seq<char>, p: Position)
    requires
        on_line(t, p),
        lf_only(t),
        p.col == 0,
        p.line > 0,
        t.len() < usize::MAX,
    ensures
        ({
            let f = Position { line: (p.line - 1) as usize, col: line_len(t, p.line - 1) as usize };
            &&& on_line(t, f)
            &&& pos_index(t, f) + 1 == pos_index(t, p)
            &&& t.subrange(pos_index(t, f), pos_index(t, p)) == seq!['\n']
        }),
{
    let n = p.line as int;
    lemma_line_start_exists(t, n);
    lemma_line_start_exists(t, n - 1);
    lemma_line_bounds(t, n - 1);
    let ls = line_start(t, n);
    let lm = line_start(t, n - 1);
    assert(ls != 0);
    assert(ends_line(t, ls - 1));
    assert(is_break_char(t[ls - 1]));
    assert(t[ls - 1] == '\n');
    assert(lm != ls);
    let l = line_text(t, n - 1);
    assert(l.len() == ls - lm);
    assert(l.last() == t[ls - 1]);
    if l.len() > 1 {
        assert(l[l.len() - 2] == t[ls - 2]);
        if t[ls - 2] == '\r' {
            assert(is_break_char(t[ls - 2]));
        }
    }
    let f = Position { line: (p.line - 1) as usize, col: line_len(t, p.line - 1) as usize };
    assert(line_len(t, n - 1) == l.len() - 1);
    assert(f.line as int == n - 1);
    assert(f.col as int == l.len() - 1);
    assert(pos_index(t, f) == ls - 1);
    assert(breaks_before(t, ls) == breaks_before(t, ls - 1) + 1);
    assert(t.subrange(pos_index(t, f), pos_index(t, p)) =~= seq!['\n']);
}

/// Deleting the selection, if any, of a buffer whose history fits its text
/// keeps a history fitting the text, where the text's only line break is
/// `'\n'` and the selection's start lies on its line; the cursor's place
/// once the selection is gone lies on its line.
pub proof fn lemma_selection_cleared(b: Buffer)
    requires
        b.history_consistent(),
        lf_only(b.text()),
        b.edit_on_line(),
        b.within_limits(),
    ensures
        history_fits(b.text_cleared(), b.history_cleared()),
        lf_only(b.text_cleared()),
        on_line(b.text_cleared(), b.pos_cleared()),
        b.text_cleared().len() <= b.text().len(),
        b.cursor.selection is Some ==> (spec_undo(b.history_cleared()).1 matches Some(es) && all_ok(
            b.text_cleared(),
            es,
        ) && apply_all(b.text_cleared(), es) == b.text()),
{
    match b.cursor.selection {
        Some(sel) => {
            let t = b.text();
            lemma_delete_reverts(t, sel.start(), sel.end());
            lemma_line_start_exists(t, sel.start().line as int);
            if pos_index(t, sel.start()) < pos_index(t, sel.end()) {
                assert(removed(t, pos_index(t, sel.start()), pos_index(t, sel.end())).len() < t.len());
            }
            let e = EditView::Delete { pos: (sel.start().line, sel.start().col), text: b.selected_text().unwrap() };
            lemma_record_fits(t, b.history.view(), e);
            lemma_undo_restores(t, b.history.view(), e);
        },
        None => {},
    }
}

/// Typing or pasting `s` keeps the history fitting the text, and an undo
/// right after it gives back the text from before the insertion (with the
/// selection, if any, deleted): where the history fits the text, the text
/// and `s` have `'\n'` as their only line break, and the edit starts on its
/// line.
pub proof fn lemma_inserted_consistent(old: Buffer, new: Buffer, s: Seq<char>, cursor: Position)
    requires
        new.inserted_from(&old, s, cursor),
        old.history_consistent(),
        lf_only(old.text()),
        lf_only(s),
        old.edit_on_line(),
        old.within_limits(),
        old.text().len() + s.len() + 1 < usize::MAX,
    ensures
        new.history_consistent(),
        spec_undo(new.history.view()).1 matches Some(es) && all_ok(new.text(), es) && apply_all(new.text(), es)
            == old.text_cleared(),
        cursor == end_of(old.pos_cleared(), s) ==> new.edit_on_line(),
        lf_only(new.text()),
{
    lemma_selection_cleared(old);
    let tc = old.text_cleared();
    let pc = old.pos_cleared();
    let e = EditView::Insert { pos: (pc.line, pc.col), text: s };
    lemma_insert_reverts(tc, pc, s);
    lemma_record_fits(tc, old.history_cleared(), e);
    lemma_undo_restores(tc, old.history_cleared(), e);
}

/// A backspace keeps the history fitting the text, where the text's only
/// line break is `'\n'` and the edit starts on its line.
pub proof fn lemma_backspaced_consistent(old: Buffer, new: Buffer)
    requires
        new.backspaced(&old),
        old.history_consistent(),
        lf_only(old.text()),
        old.edit_on_line(),
        old.within_limits(),
    ensures
        new.history_consistent(),
        new.edit_on_line(),
        lf_only(new.text()),
        new.text() != old.text() ==> (spec_undo(new.history.view()).1 matches Some(es) && all_ok(new.text(), es)
            && apply_all(new.text(), es) == old.text()),
{
    let t = old.text();
    let h = old.history.view();
    let p = old.cursor.position;
    match old.cursor.selection {
        Some(sel) => {
            lemma_selection_cleared(old);
        },
        None => {
            if p.col > 0 {
                let d = Position { line: p.line, col: (p.col - 1) as usize };
                match char_at_spec(t, d) {
                    Some(c) => {
                        lemma_char_before(t, p, c);
                        lemma_delete_reverts(t, d, p);
                        lemma_record_fits(t, h, EditView::Delete { pos: (d.line, d.col), text: seq![c] });
                        lemma_undo_restores(t, h, EditView::Delete { pos: (d.line, d.col), text: seq![c] });
                    },
                    None => {},
                }
            } else if p.line > 0 {
                let f = Position { line: (p.line - 1) as usize, col: line_len(t, p.line - 1) as usize };
                lemma_break_before(t, p);
                lemma_delete_reverts(t, f, p);
                lemma_record_fits(t, h, EditView::Delete { pos: (f.line, f.col), text: seq!['\n'] });
                lemma_undo_restores(t, h, EditView::Delete { pos: (f.line, f.col), text: seq!['\n'] });
            }
        },
    }
}

/// A forward delete keeps the history fitting the text, where the text's
/// only line break is `'\n'` and the cursor lies on its line.
pub proof fn lemma_forward_deleted_consistent(old: Buffer, new: Buffer)
    requires
        new.forward_deleted(&old),
        old.history_consistent(),
        lf_only(old.text()),
        on_line(old.text(), old.cursor.position),
        old.within_limits(),
    ensures
        new.history_consistent(),
        on_line(new.text(), new.cursor.position),
        lf_only(new.text()),
        new.text() != old.text() ==> (spec_undo(new.history.view()).1 matches Some(es) && all_ok(new.text(), es)
            && apply_all(new.text(), es) == old.text()),
{
    let t = old.text();
    let h = old.history.view();
    let p = old.cursor.position;
    let n = p.line as int;
    lemma_line_start_exists(t, n);
    lemma_line_bounds(t, n);
    if p.col < line_len(t, n) {
        match char_at_spec(t, p) {
            Some(c) => {
                let q = Position { line: p.line, col: (p.col + 1) as usize };
                assert(line_len(t, n) <= line_text(t, n).len());
                assert(pos_index(t, q) == pos_index(t, p) + 1);
                assert(pos_ok(t, q));
                assert(line_or_empty(t, n) == line_text(t, n));
                assert(line_text(t, n)[p.col as int] == t[pos_index(t, p)]);
                assert(t.subrange(pos_index(t, p), pos_index(t, q)) =~= seq![c]);
                lemma_delete_reverts(t, p, q);
                lemma_record_fits(t, h, EditView::Delete { pos: (p.line, p.col), text: seq![c] });
                lemma_undo_restores(t, h, EditView::Delete { pos: (p.line, p.col), text: seq![c] });
            },
            None => {},
        }
    } else if p.line + 1 < line_count(t) {
        let e = Position { line: (p.line + 1) as usize, col: 0 };
        lemma_line_start_exists(t, n + 1);
        assert(on_line(t, e));
        lemma_break_before(t, e);
        if pos_index(t, p) >= line_start(t, n + 1) {
            lemma_breaks_monotonic(t, line_start(t, n + 1), pos_index(t, p));
        }
        assert(pos_index(t, p) == pos_index(t, e) - 1);
        lemma_delete_reverts(t, p, e);
        lemma_record_fits(t, h, EditView::Delete { pos: (p.line, p.col), text: seq!['\n'] });
        lemma_undo_restores(t, h, EditView::Delete { pos: (p.line, p.col), text: seq!['\n'] });
    }
}

/// An undo or a redo keeps the history fitting the text.
pub proof fn lemma_undo_redo_consistent(old: Buffer, new: Buffer)
    requires
        new.undone(&old) || new.redone(&old),
        old.history_consistent(),
        old.within_limits(),
    ensures
        new.history_consistent(),
{
    lemma_undo_fits(old.text(), old.history.view());
    lemma_redo_fits(old.text(), old.history.view());
}

/// On a buffer whose history fits its text, the pending undo and redo
/// groups apply to the text: an undo and a redo are always ready.
pub proof fn lemma_consistent_ready(b: Buffer)
    requires
        b.history_consistent(),
        b.within_limits(),
    ensures
        b.group_ok(spec_undo(b.history.view()).1),
        b.group_ok(spec_redo(b.history.view()).1),
        b.ready_for(Action::Undo),
        b.ready_for(Action::Redo),
{
    lemma_undo_fits(b.text(), b.history.view());
    lemma_redo_fits(b.text(), b.history.view());
}

/// Handling an action keeps the history fitting the text, for every
/// action that keeps it (see `Buffer::keeps_history`): the moves, the
/// bars, copying and selecting leave the text and history alone; typing,
/// pasting, deleting and cutting record edits that can be reverted; undo
/// and redo walk the history.
#[verifier::spinoff_prover]
#[verifier::rlimit(50)]
pub proof fn lemma_handled_keeps_history(old: Buffer, new: Buffer, action: Action)
    requires
        new.handled(&old, action),
        old.ready_for(action),
        old.history_consistent(),
        old.keeps_history(action),
    ensures
        new.history_consistent(),
{
    if old.goto_line.active || old.intercepts(action) {
    } else {
        match action {
            Action::InsertChar(c) => {
                let pc = old.pos_cleared();
                if lf_only(old.text()) && old.edit_on_line() && (is_break_char(c) ==> c == '\n') {
                    assert(lf_only(seq![c]));
                    assert(new.history_consistent()) by {
                        lemma_inserted_consistent(old, new, seq![c], Position { line: pc.line, col: (pc.col + 1) as usize });
                    }
                } else {
                    assert(new.history_consistent()) by {
                        lemma_typed_consistent(old, new, c, Position { line: pc.line, col: (pc.col + 1) as usize });
                    }
                }
            },
            Action::InsertNewline => {
                let pc = old.pos_cleared();
                if lf_only(old.text()) && old.edit_on_line() {
                    assert(lf_only(seq!['\n']));
                    assert(new.history_consistent()) by {
                        lemma_inserted_consistent(old, new, seq!['\n'], Position { line: (pc.line + 1) as usize, col: 0 });
                    }
                } else {
                    assert(new.history_consistent()) by {
                        lemma_typed_consistent(old, new, '\n', Position { line: (pc.line + 1) as usize, col: 0 });
                    }
                }
            },
            Action::InsertTab => {
                let pc = old.pos_cleared();
                let sp = Seq::new(4, |i: int| ' ');
                assert(lf_only(sp));
                assert(no_breaks(sp));
                if lf_only(old.text()) && old.edit_on_line() {
                    assert(new.history_consistent()) by {
                        lemma_inserted_consistent(old, new, sp, Position { line: pc.line, col: (pc.col + 4) as usize });
                    }
                } else {
                    assert(new.history_consistent()) by {
                        lemma_plain_inserted_consistent(old, new, sp, Position { line: pc.line, col: (pc.col + 4) as usize });
                    }
                }
            },
            Action::PasteText(text) => {
                if text@.len() > 0 {
                    if lf_only(old.text()) && old.edit_on_line() && lf_only(text@) {
                        assert(new.history_consistent()) by {
                            lemma_inserted_consistent(old, new, text@, end_of(old.pos_cleared(), text@));
                        }
                    } else {
                        assert(new.history_consistent()) by {
                            lemma_plain_inserted_consistent(old, new, text@, end_of(old.pos_cleared(), text@));
                        }
                    }
                }
            },
            Action::Paste => {
                let f = old.clipboard.fallback@;
                if f.len() > 0 {
                    if lf_only(old.text()) && old.edit_on_line() && lf_only(f) {
                        assert(new.history_consistent()) by {
                            lemma_inserted_consistent(old, new, f, end_of(old.pos_cleared(), f));
                        }
                    } else {
                        assert(new.history_consistent()) by {
                            lemma_plain_inserted_consistent(old, new, f, end_of(old.pos_cleared(), f));
                        }
                    }
                }
            },
            Action::DeleteBackward => {
                if lf_only(old.text()) && old.edit_on_line() {
                    assert(new.history_consistent()) by {
                        lemma_backspaced_consistent(old, new);
                    }
                } else {
                    assert(new.history_consistent()) by {
                        lemma_backspaced_char_consistent(old, new);
                    }
                }
            },
            Action::DeleteForward => {
                if lf_only(old.text()) && on_line(old.text(), old.cursor.position) {
                    assert(new.history_consistent()) by {
                        lemma_forward_deleted_consistent(old, new);
                    }
                } else {
                    assert(new.history_consistent()) by {
                        lemma_forward_char_consistent(old, new);
                    }
                }
            },
            Action::Cut => {
                if old.selected_text() is Some {
                    assert(new.history_consistent()) by {
                    lemma_selection_cleared(old);
                }
                }
            },
            Action::Undo => {
                assert(new.history_consistent()) by {
                    lemma_undo_redo_consistent(old, new);
                }
            },
            Action::Redo => {
                assert(new.history_consistent()) by {
                    lemma_undo_redo_consistent(old, new);
                }
            },
            _ => {},
        }
    }
}

/// The edits that put text in at the cursor: typing, a new line, a tab and
/// the two pastes.
pub open spec fn inserts_text(action: Action) -> bool {
    action is InsertChar || action is InsertNewline || action is InsertTab || action is PasteText || action is Paste
}

/// Undo right after an edit gives back the text from before it. After a
/// backspace, a forward delete or a cut, the undo gives back the text as it
/// was; after typing or pasting over a selection it gives back the text with
/// the selection deleted (the next undo puts the selection back). This holds
/// wherever the edit keeps the history fitting (see
/// [`Buffer::keeps_history`]) and changed the text.
#[verifier::spinoff_prover]
#[verifier::rlimit(60)]
pub proof fn lemma_undo_after_edit(old: Buffer, mid: Buffer, new: Buffer, action: Action)
    requires
        mid.handled(&old, action),
        old.ready_for(action),
        old.history_consistent(),
        old.keeps_history(action),
        !old.goto_line.active,
        !old.intercepts(action),
        inserts_text(action) || action is DeleteBackward || action is DeleteForward || action is Cut,
        mid.text() != old.text(),
        new.undone(&mid),
    ensures
        new.text() == if inserts_text(action) { old.text_cleared() } else { old.text() },
{
    match action {
        Action::InsertChar(c) => {
            let pc = old.pos_cleared();
            if lf_only(old.text()) && old.edit_on_line() && (is_break_char(c) ==> c == '\n') {
                assert(lf_only(seq![c]));
                assert(new.text() == if inserts_text(action) { old.text_cleared() } else { old.text() }) by {
                    lemma_inserted_consistent(old, mid, seq![c], Position { line: pc.line, col: (pc.col + 1) as usize });
                }
            } else {
                assert(new.text() == if inserts_text(action) { old.text_cleared() } else { old.text() }) by {
                    lemma_typed_consistent(old, mid, c, Position { line: pc.line, col: (pc.col + 1) as usize });
                }
            }
        },
        Action::InsertNewline => {
            let pc = old.pos_cleared();
            if lf_only(old.text()) && old.edit_on_line() {
                assert(lf_only(seq!['\n']));
                assert(new.text() == if inserts_text(action) { old.text_cleared() } else { old.text() }) by {
                    lemma_inserted_consistent(old, mid, seq!['\n'], Position { line: (pc.line + 1) as usize, col: 0 });
                }
            } else {
                assert(new.text() == if inserts_text(action) { old.text_cleared() } else { old.text() }) by {
                    lemma_typed_consistent(old, mid, '\n', Position { line: (pc.line + 1) as usize, col: 0 });
                }
            }
        },
        Action::InsertTab => {
            let pc = old.pos_cleared();
            let sp = Seq::new(4, |i: int| ' ');
            assert(lf_only(sp));
            assert(no_breaks(sp));
            if lf_only(old.text()) && old.edit_on_line() {
                assert(new.text() == if inserts_text(action) { old.text_cleared() } else { old.text() }) by {
                    lemma_inserted_consistent(old, mid, sp, Position { line: pc.line, col: (pc.col + 4) as usize });
                }
            } else {
                assert(new.text() == if inserts_text(action) { old.text_cleared() } else { old.text() }) by {
                    lemma_plain_inserted_consistent(old, mid, sp, Position { line: pc.line, col: (pc.col + 4) as usize });
                }
            }
        },
        Action::PasteText(text) => {
            if lf_only(old.text()) && old.edit_on_line() && lf_only(text@) {
                assert(new.text() == if inserts_text(action) { old.text_cleared() } else { old.text() }) by {
                    lemma_inserted_consistent(old, mid, text@, end_of(old.pos_cleared(), text@));
                }
            } else {
                assert(new.text() == if inserts_text(action) { old.text_cleared() } else { old.text() }) by {
                    lemma_plain_inserted_consistent(old, mid, text@, end_of(old.pos_cleared(), text@));
                }
            }
        },
        Action::Paste => {
            let f = old.clipboard.fallback@;
            if lf_only(old.text()) && old.edit_on_line() && lf_only(f) {
                assert(new.text() == if inserts_text(action) { old.text_cleared() } else { old.text() }) by {
                    lemma_inserted_consistent(old, mid, f, end_of(old.pos_cleared(), f));
                }
            } else {
                assert(new.text() == if inserts_text(action) { old.text_cleared() } else { old.text() }) by {
                    lemma_plain_inserted_consistent(old, mid, f, end_of(old.pos_cleared(), f));
                }
            }
        },
        Action::DeleteBackward => {
            if lf_only(old.text()) && old.edit_on_line() {
                assert(new.text() == if inserts_text(action) { old.text_cleared() } else { old.text() }) by {
                    lemma_backspaced_consistent(old, mid);
                }
            } else {
                assert(new.text() == if inserts_text(action) { old.text_cleared() } else { old.text() }) by {
                    lemma_backspaced_char_consistent(old, mid);
                }
            }
        },
        Action::DeleteForward => {
            if lf_only(old.text()) && on_line(old.text(), old.cursor.position) {
                assert(new.text() == if inserts_text(action) { old.text_cleared() } else { old.text() }) by {
                    lemma_forward_deleted_consistent(old, mid);
                }
            } else {
                assert(new.text() == if inserts_text(action) { old.text_cleared() } else { old.text() }) by {
                    lemma_forward_char_consistent(old, mid);
                }
            }
        },
        Action::Cut => {
            assert(new.text() == if inserts_text(action) { old.text_cleared() } else { old.text() }) by {
                lemma_selection_cleared(old);
            }
        },
        _ => {},
    }
}

/// Redo right after an undo gives back the text from before the undo, and
/// the history too, on a buffer whose history fits its text and that has
/// something to undo.
pub proof fn lemma_redo_after_undo_text(b0: Buffer, b1: Buffer, b2: Buffer)
    requires
        b0.history_consistent(),
        b0.within_limits(),
        b0.history.view().undo.len() > 0,
        b1.undone(&b0),
        b2.redone(&b1),
    ensures
        b2.text() == b0.text(),
        b2.history.view() == b0.history.view(),
{
    lemma_redo_after_undo(b0.text(), b0.history.view());
}

/// Typing one character without a selection at a typing spot keeps the
/// history fitting the text, whatever its line breaks, and an undo right
/// after it gives back the text from before.
pub proof fn lemma_typed_consistent(old: Buffer, new: Buffer, c: char, cursor: Position)
    requires
        new.inserted_from(&old, seq![c], cursor),
        old.cursor.selection is None,
        typing_spot(old.text(), old.cursor.position),
        old.history_consistent(),
        old.text().len() + 2 < usize::MAX,
    ensures
        new.history_consistent(),
        spec_undo(new.history.view()).1 matches Some(es) && all_ok(new.text(), es) && apply_all(new.text(), es)
            == old.text(),
{
    let t = old.text();
    let h = old.history.view();
    let p = old.cursor.position;
    let e = EditView::Insert { pos: (p.line, p.col), text: seq![c] };
    lemma_typed_reverts(t, p, c);
    lemma_record_fits(t, h, e);
    lemma_undo_restores(t, h, e);
}

/// A backspace inside a line's content, without a selection, keeps the
/// history fitting the text, whatever its line breaks, where the character
/// it removes does not follow a carriage return; an undo right after it
/// gives the text back.
pub proof fn lemma_backspaced_char_consistent(old: Buffer, new: Buffer)
    requires
        new.backspaced(&old),
        old.cursor.selection is None,
        old.cursor.position.col > 0,
        old.cursor.position.col <= line_len(old.text(), old.cursor.position.line as int),
        typing_spot(old.text(), Position { line: old.cursor.position.line, col: (old.cursor.position.col - 1) as usize }),
        old.history_consistent(),
        old.within_limits(),
    ensures
        new.history_consistent(),
        new.text() != old.text() ==> (spec_undo(new.history.view()).1 matches Some(es) && all_ok(new.text(), es)
            && apply_all(new.text(), es) == old.text()),
{
    let t = old.text();
    let h = old.history.view();
    let p = old.cursor.position;
    let d = Position { line: p.line, col: (p.col - 1) as usize };
    match char_at_spec(t, d) {
        Some(c) => {
            let n = p.line as int;
            lemma_line_start_exists(t, n);
            lemma_line_bounds(t, n);
            crate::editor::document::lemma_line_len_bound(t, n);
            assert(line_or_empty(t, n) == line_text(t, n));
            assert(d.col < line_text(t, n).len());
            assert(line_text(t, n)[d.col as int] == t[pos_index(t, d)]);
            lemma_char_deleted_reverts(t, d, c);
            assert(pos_index(t, p) == pos_index(t, d) + 1);
            let e = EditView::Delete { pos: (d.line, d.col), text: seq![c] };
            lemma_record_fits(t, h, e);
            lemma_undo_restores(t, h, e);
        },
        None => {},
    }
}

/// A forward delete inside a line's content keeps the history fitting the
/// text, whatever its line breaks, where the cursor does not follow a
/// carriage return; an undo right after it gives the text back.
pub proof fn lemma_forward_char_consistent(old: Buffer, new: Buffer)
    requires
        new.forward_deleted(&old),
        old.cursor.position.col < line_len(old.text(), old.cursor.position.line as int),
        typing_spot(old.text(), old.cursor.position),
        old.history_consistent(),
        old.within_limits(),
    ensures
        new.history_consistent(),
        new.text() != old.text() ==> (spec_undo(new.history.view()).1 matches Some(es) && all_ok(new.text(), es)
            && apply_all(new.text(), es) == old.text()),
{
    let t = old.text();
    let h = old.history.view();
    let p = old.cursor.position;
    let n = p.line as int;
    lemma_line_start_exists(t, n);
    lemma_line_bounds(t, n);
    crate::editor::document::lemma_line_len_bound(t, n);
    assert(line_or_empty(t, n) == line_text(t, n));
    match char_at_spec(t, p) {
        Some(c) => {
            assert(p.col < line_text(t, n).len());
            assert(line_text(t, n)[p.col as int] == t[pos_index(t, p)]);
            lemma_char_deleted_reverts(t, p, c);
            let e = EditView::Delete { pos: (p.line, p.col), text: seq![c] };
            lemma_record_fits(t, h, e);
            lemma_undo_restores(t, h, e);
        },
        None => {},
    }
}

/// Typing or pasting text without line breaks, without a selection, at a
/// typing spot keeps the history fitting the text, whatever its line breaks,
/// and an undo right after it gives back the text from before.
pub proof fn lemma_plain_inserted_consistent(old: Buffer, new: Buffer, s: Seq<char>, cursor: Position)
    requires
        new.inserted_from(&old, s, cursor),
        old.cursor.selection is None,
        typing_spot(old.text(), old.cursor.position),
        no_breaks(s),
        old.history_consistent(),
        old.text().len() + s.len() + 1 < usize::MAX,
    ensures
        new.history_consistent(),
        spec_undo(new.history.view()).1 matches Some(es) && all_ok(new.text(), es) && apply_all(new.text(), es)
            == old.text(),
{
    let t = old.text();
    let h = old.history.view();
    let p = old.cursor.position;
    let e = EditView::Insert { pos: (p.line, p.col), text: s };
    lemma_plain_insert_reverts(t, p, s);
    lemma_record_fits(t, h, e);
    lemma_undo_restores(t, h, e);
}

} // verus!
