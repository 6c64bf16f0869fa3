//! Undo/redo history with grouped edits.
use vstd::prelude::*;

verus! {

/// A single atomic edit operation.
#[derive(Debug, PartialEq, Eq)]
pub enum Edit {
    /// Text was inserted at the given (line, col) position.
    Insert { pos: (usize, usize), text: String },
    /// Text was deleted starting at the given (line, col) position.
    Delete { pos: (usize, usize), text: String },
}

/// The mathematical value of an [`Edit`]: its kind, position and text.
pub enum EditView {
    Insert { pos: (usize, usize), text: Seq<char> },
    Delete { pos: (usize, usize), text: Seq<char> },
}

impl DeepView for Edit {
    type V = EditView;

    open spec fn deep_view(&self) -> EditView {
        match self {
            Edit::Insert { pos, text } => EditView::Insert { pos: *pos, text: text@ },
            Edit::Delete { pos, text } => EditView::Delete { pos: *pos, text: text@ },
        }
    }
}

/// The inverse of an edit: an insertion becomes a deletion of the same text
/// at the same place, and the other way round.
pub open spec fn invert_view(e: EditView) -> EditView {
    match e {
        EditView::Insert { pos, text } => EditView::Delete { pos, text },
        EditView::Delete { pos, text } => EditView::Insert { pos, text },
    }
}

/// The edits of a group, inverted and in reverse order: what undoes the group.
pub open spec fn undo_edits(g: Seq<EditView>) -> Seq<EditView> {
    Seq::new(g.len(), |i: int| invert_view(g[g.len() - 1 - i]))
}

/// Inverting an edit twice gives the edit back.
pub proof fn lemma_invert_involution(e: EditView)
    ensures
        invert_view(invert_view(e)) == e,
{
}

/// Undoing the undo of a group gives back the group itself.
pub proof fn lemma_undo_edits_involution(g: Seq<EditView>)
    ensures
        undo_edits(undo_edits(g)) =~= g,
{
    assert forall|i: int| 0 <= i < g.len() implies #[trigger] undo_edits(undo_edits(g))[i] == g[i] by {
        lemma_invert_involution(g[i]);
    }
}

impl Edit {
    /// Create an Insert edit.
    pub fn insert(line: usize, col: usize, text: &str) -> (e: Self)
        ensures
            e.deep_view() == (EditView::Insert { pos: (line, col), text: text@ }),
    {
        Edit::Insert { pos: (line, col), text: text.to_owned() }
    }

    /// Create a Delete edit.
    pub fn delete(line: usize, col: usize, text: &str) -> (e: Self)
        ensures
            e.deep_view() == (EditView::Delete { pos: (line, col), text: text@ }),
    {
        Edit::Delete { pos: (line, col), text: text.to_owned() }
    }

    /// Return the inverse of this edit (for undo).
    pub fn invert(&self) -> (e: Self)
        ensures
            e.deep_view() == invert_view(self.deep_view()),
    {
        match self {
            Edit::Insert { pos, text } => Edit::Delete { pos: *pos, text: text.clone() },
            Edit::Delete { pos, text } => Edit::Insert { pos: *pos, text: text.clone() },
        }
    }

    /// A copy of this edit with the same kind, position and text.
    pub fn duplicate(&self) -> (e: Self)
        ensures
            e.deep_view() == self.deep_view(),
    {
        match self {
            Edit::Insert { pos, text } => Edit::Insert { pos: *pos, text: text.clone() },
            Edit::Delete { pos, text } => Edit::Delete { pos: *pos, text: text.clone() },
        }
    }
}

impl Clone for Edit {
    fn clone(&self) -> (e: Self)
        ensures
            e.deep_view() == self.deep_view(),
    {
        self.duplicate()
    }
}

/// The mathematical value of an [`UndoHistory`].
pub struct HistoryView {
    pub undo: Seq<Seq<EditView>>,
    pub redo: Seq<Seq<EditView>>,
    pub group: Option<Seq<EditView>>,
}

/// Undo/redo history that groups related edits together.
///
/// Each entry in the undo/redo stacks is a `Vec<Edit>` representing a group
/// of related edits that should be undone/redone as a unit.
#[derive(Debug)]
pub struct UndoHistory {
    undo_stack: Vec<Vec<Edit>>,
    redo_stack: Vec<Vec<Edit>>,
    /// When `Some`, edits are being accumulated into a group.
    current_group: Option<Vec<Edit>>,
}

/// History after recording an edit.
pub open spec fn spec_record(h: HistoryView, e: EditView) -> HistoryView {
    match h.group {
        Some(g) => HistoryView { undo: h.undo, redo: Seq::empty(), group: Some(g.push(e)) },
        None => HistoryView { undo: h.undo.push(seq![e]), redo: Seq::empty(), group: None },
    }
}

/// History after opening a group.
pub open spec fn spec_begin_group(h: HistoryView) -> HistoryView {
    match h.group {
        Some(g) => h,
        None => HistoryView { group: Some(Seq::empty()), ..h },
    }
}

/// History after closing a group.
pub open spec fn spec_end_group(h: HistoryView) -> HistoryView {
    match h.group {
        Some(g) => if g.len() > 0 {
            HistoryView { undo: h.undo.push(g), redo: Seq::empty(), group: None }
        } else {
            HistoryView { group: None, ..h }
        },
        None => h,
    }
}

/// History after an undo, and the edits that the undo hands back.
pub open spec fn spec_undo(h: HistoryView) -> (HistoryView, Option<Seq<EditView>>) {
    if h.undo.len() == 0 {
        (h, None)
    } else {
        let g = h.undo.last();
        (
            HistoryView { undo: h.undo.drop_last(), redo: h.redo.push(g), group: h.group },
            Some(undo_edits(g)),
        )
    }
}

/// History after a redo, and the edits that the redo hands back.
pub open spec fn spec_redo(h: HistoryView) -> (HistoryView, Option<Seq<EditView>>) {
    if h.redo.len() == 0 {
        (h, None)
    } else {
        let g = h.redo.last();
        (
            HistoryView { undo: h.undo.push(g), redo: h.redo.drop_last(), group: h.group },
            Some(g),
        )
    }
}

/// An undo followed by a redo restores the history, and the redo hands back
/// exactly the edits whose inverse the undo handed out.
pub proof fn lemma_undo_then_redo(h: HistoryView)
    requires
        h.undo.len() > 0,
    ensures
        spec_redo(spec_undo(h).0).0 == h,
        spec_undo(h).1 == Some(undo_edits(spec_redo(spec_undo(h).0).1.unwrap())),
{
    let h1 = spec_undo(h).0;
    assert(h1.redo.last() == h.undo.last());
    assert(h1.undo.push(h.undo.last()) =~= h.undo);
    assert(h1.redo.drop_last() =~= h.redo);
}

/// A redo followed by an undo restores the history, and the undo hands back
/// the inverse of what the redo handed out.
pub proof fn lemma_redo_then_undo(h: HistoryView)
    requires
        h.redo.len() > 0,
    ensures
        spec_undo(spec_redo(h).0).0 == h,
        spec_undo(spec_redo(h).0).1 == Some(undo_edits(spec_redo(h).1.unwrap())),
{
    let h1 = spec_redo(h).0;
    assert(h1.undo.drop_last() =~= h.undo);
    assert(h1.redo.push(h.redo.last()) =~= h.redo);
}

/// Recording an edit leaves nothing to redo.
pub proof fn lemma_record_clears_redo(h: HistoryView, e: EditView)
    ensures
        spec_record(h, e).redo.len() == 0,
        spec_redo(spec_record(h, e)).1 is None,
{
}

/// Outside a group, undoing right after recording an edit hands back the
/// inverse of that edit alone and leaves the undo stack as it was.
pub proof fn lemma_record_then_undo(h: HistoryView, e: EditView)
    requires
        h.group is None,
    ensures
        spec_undo(spec_record(h, e)).1 == Some(undo_edits(seq![e])),
        spec_undo(spec_record(h, e)).0.undo == h.undo,
        undo_edits(seq![e]) == seq![invert_view(e)],
{
    assert(spec_record(h, e).undo.drop_last() =~= h.undo);
    assert(undo_edits(seq![e]) =~= seq![invert_view(e)]);
}

fn duplicate_group(g: &Vec<Edit>) -> (r: Vec<Edit>)
    ensures
        r.deep_view() == g.deep_view(),
{
    let mut r: Vec<Edit> = Vec::new();
    let mut i: usize = 0;
    while i < g.len()
        invariant
            i <= g.len(),
            r.len() == i,
            forall|k: int| 0 <= k < i ==> #[trigger] r@[k].deep_view() == g@[k].deep_view(),
        decreases g.len() - i,
    {
        r.push(g[i].duplicate());
        i += 1;
    }
    assert(r.deep_view() =~= g.deep_view());
    r
}

impl UndoHistory {
    pub closed spec fn view(&self) -> HistoryView {
        HistoryView {
            undo: self.undo_stack.deep_view(),
            redo: self.redo_stack.deep_view(),
            group: match self.current_group {
                Some(g) => Some(g.deep_view()),
                None => None,
            },
        }
    }

    pub fn new() -> (h: Self)
        ensures
            h.view().undo.len() == 0,
            h.view().redo.len() == 0,
            h.view().group is None,
    {
        UndoHistory { undo_stack: Vec::new(), redo_stack: Vec::new(), current_group: None }
    }

    /// Record a single edit. If a group is in progress, the edit is added to
    /// that group. Otherwise the edit becomes its own single-item group on the
    /// undo stack. Recording any new edit clears the redo stack.
    pub fn record(&mut self, edit: Edit)
        ensures
            final(self).view() == spec_record(old(self).view(), edit.deep_view()),
    {
        self.redo_stack.clear();
        match self.current_group.take() {
            Some(mut group) => {
                let ghost before = group.deep_view();
                group.push(edit);
                assert(group.deep_view() =~= before.push(edit.deep_view()));
                self.current_group = Some(group);
            },
            None => {
                let mut g: Vec<Edit> = Vec::new();
                g.push(edit);
                assert(g.deep_view() =~= seq![edit.deep_view()]);
                self.undo_stack.push(g);
            },
        }
        assert(self.view().undo =~= spec_record(old(self).view(), edit.deep_view()).undo);
        assert(self.view().redo =~= spec_record(old(self).view(), edit.deep_view()).redo);
    }

    /// Begin accumulating edits into a group. Calling `begin_group` while a
    /// group is already open is a no-op.
    pub fn begin_group(&mut self)
        ensures
            final(self).view() == spec_begin_group(old(self).view()),
    {
        if self.current_group.is_none() {
            self.current_group = Some(Vec::new());
            assert(self.view().group.unwrap() =~= Seq::<EditView>::empty());
        }
    }

    /// End the current group and push it onto the undo stack. If the group is
    /// empty, nothing is pushed. If no group is open, this is a no-op.
    pub fn end_group(&mut self)
        ensures
            final(self).view() == spec_end_group(old(self).view()),
    {
        if let Some(group) = self.current_group.take() {
            if group.len() > 0 {
                self.redo_stack.clear();
                self.undo_stack.push(group);
                assert(self.view().undo =~= spec_end_group(old(self).view()).undo);
                assert(self.view().redo =~= spec_end_group(old(self).view()).redo);
            }
        }
    }

    /// Pop the most recent edit group from the undo stack, push it onto the
    /// redo stack, and return the inverted edits (in reverse order) so the
    /// caller can apply them.
    pub fn undo(&mut self) -> (r: Option<Vec<Edit>>)
        ensures
            final(self).view() == spec_undo(old(self).view()).0,
            match r {
                Some(v) => spec_undo(old(self).view()).1 == Some(v.deep_view()),
                None => spec_undo(old(self).view()).1 is None,
            },
    {
        match self.undo_stack.pop() {
            None => None,
            Some(group) => {
                let ghost g = group.deep_view();
                let mut inverted: Vec<Edit> = Vec::new();
                let mut i: usize = group.len();
                while i > 0
                    invariant
                        i <= group.len(),
                        g == group.deep_view(),
                        inverted.len() == group.len() - i,
                        forall|k: int| 0 <= k < inverted.len() ==>
                            #[trigger] inverted@[k].deep_view() == invert_view(g[g.len() - 1 - k]),
                    decreases i,
                {
                    i -= 1;
                    inverted.push(group[i].invert());
                }
                assert(inverted.deep_view() =~= undo_edits(g));
                self.redo_stack.push(group);
                assert(self.view().undo =~= spec_undo(old(self).view()).0.undo);
                assert(self.view().redo =~= spec_undo(old(self).view()).0.redo);
                Some(inverted)
            },
        }
    }

    /// Pop the most recent edit group from the redo stack, push it back onto
    /// the undo stack, and return the original edits so the caller can
    /// re-apply them.
    pub fn redo(&mut self) -> (r: Option<Vec<Edit>>)
        ensures
            final(self).view() == spec_redo(old(self).view()).0,
            match r {
                Some(v) => spec_redo(old(self).view()).1 == Some(v.deep_view()),
                None => spec_redo(old(self).view()).1 is None,
            },
    {
        match self.redo_stack.pop() {
            None => None,
            Some(group) => {
                let edits = duplicate_group(&group);
                self.undo_stack.push(group);
                assert(self.view().undo =~= spec_redo(old(self).view()).0.undo);
                assert(self.view().redo =~= spec_redo(old(self).view()).0.redo);
                Some(edits)
            },
        }
    }

    /// The edits an undo would hand back now, without undoing anything: the
    /// most recent group inverted and in reverse order, or `None` when there
    /// is nothing to undo.
    pub fn peek_undo(&self) -> (r: Option<Vec<Edit>>)
        ensures
            match r {
                Some(v) => spec_undo(self.view()).1 == Some(v.deep_view()),
                None => spec_undo(self.view()).1 is None,
            },
    {
        let n = self.undo_stack.len();
        if n == 0 {
            return None;
        }
        let group = &self.undo_stack[n - 1];
        let ghost g = group.deep_view();
        let mut inverted: Vec<Edit> = Vec::new();
        let mut i: usize = group.len();
        while i > 0
            invariant
                i <= group.len(),
                g == group.deep_view(),
                inverted.len() == group.len() - i,
                forall|k: int| 0 <= k < inverted.len() ==>
                    #[trigger] inverted@[k].deep_view() == invert_view(g[g.len() - 1 - k]),
            decreases i,
        {
            i -= 1;
            inverted.push(group[i].invert());
        }
        assert(inverted.deep_view() =~= undo_edits(g));
        assert(self.view().undo.last() == g);
        Some(inverted)
    }

    /// The edits a redo would hand back now, without redoing anything: the
    /// most recently undone group, or `None` when there is nothing to redo.
    pub fn peek_redo(&self) -> (r: Option<Vec<Edit>>)
        ensures
            match r {
                Some(v) => spec_redo(self.view()).1 == Some(v.deep_view()),
                None => spec_redo(self.view()).1 is None,
            },
    {
        let n = self.redo_stack.len();
        if n == 0 {
            return None;
        }
        let edits = duplicate_group(&self.redo_stack[n - 1]);
        assert(self.view().redo.last() == self.redo_stack@[n - 1].deep_view());
        Some(edits)
    }

    /// Returns `true` if there are entries on the undo stack.
    pub fn can_undo(&self) -> (r: bool)
        ensures
            r == (self.view().undo.len() > 0),
    {
        self.undo_stack.len() > 0
    }

    /// Returns `true` if there are entries on the redo stack.
    pub fn can_redo(&self) -> (r: bool)
        ensures
            r == (self.view().redo.len() > 0),
    {
        self.redo_stack.len() > 0
    }

    /// Clear all history.
    pub fn clear(&mut self)
        ensures
            final(self).view().undo.len() == 0,
            final(self).view().redo.len() == 0,
            final(self).view().group is None,
    {
        self.undo_stack.clear();
        self.redo_stack.clear();
        self.current_group = None;
    }
}

impl Default for UndoHistory {
    fn default() -> (h: Self)
        ensures
            h.view().undo.len() == 0,
            h.view().redo.len() == 0,
            h.view().group is None,
    {
        Self::new()
    }
}

} // verus!
