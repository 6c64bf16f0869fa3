//! The order the file tree shows a directory's entries in: hidden entries
//! left out, directories before files, each group by name regardless of
//! case.
use vstd::prelude::*;
use crate::files::tree::{node_view, FileNode, NodeView};
use crate::text::{chars_of, lowercase, to_lowercase};
use crate::ui::command_palette::{lemma_text_lt_asym, lemma_text_lt_trans, text_lt};

verus! {

/// A hidden entry: its name starts with `.`.
pub open spec fn hidden(n: NodeView) -> bool {
    n.name.len() > 0 && n.name[0] == '.'
}

/// Entry `x` goes in front of entry `y`: a directory before a file, and
/// within a group the name that comes first once lowercased.
pub open spec fn goes_first(x: NodeView, y: NodeView) -> bool {
    (x.is_dir && !y.is_dir) || (x.is_dir == y.is_dir && text_lt(lowercase(x.name), lowercase(y.name)))
}

/// Where a stable insertion puts `x` in `s`, scanning from `j`: before the
/// first entry it goes in front of.
pub open spec fn slot(s: Seq<NodeView>, x: NodeView, j: int) -> int
    decreases s.len() - j,
{
    if j < 0 || j >= s.len() {
        s.len() as int
    } else if goes_first(x, s[j]) {
        j
    } else {
        slot(s, x, j + 1)
    }
}

/// The entries of `s` as the tree shows them: the visible ones, in a
/// stable sort by [`goes_first`].
pub open spec fn arranged(s: Seq<NodeView>) -> Seq<NodeView>
    decreases s.len(),
{
    if s.len() == 0 {
        s
    } else {
        let r = arranged(s.drop_last());
        let x = s.last();
        if hidden(x) {
            r
        } else {
            let k = slot(r, x, 0);
            r.take(k).push(x) + r.skip(k)
        }
    }
}

/// The visible entries of `s`, in their order.
pub open spec fn visible(s: Seq<NodeView>) -> Seq<NodeView>
    decreases s.len(),
{
    if s.len() == 0 {
        s
    } else if hidden(s.last()) {
        visible(s.drop_last())
    } else {
        visible(s.drop_last()).push(s.last())
    }
}

/// No entry goes in front of an earlier one.
pub open spec fn in_tree_order(s: Seq<NodeView>) -> bool {
    forall|i: int, j: int| 0 <= i < j < s.len() ==> !goes_first(#[trigger] s[j], #[trigger] s[i])
}

proof fn lemma_slot(s: Seq<NodeView>, x: NodeView, j: int)
    requires
        0 <= j <= s.len(),
    ensures
        j <= slot(s, x, j) <= s.len(),
        forall|i: int| j <= i < slot(s, x, j) ==> !goes_first(x, #[trigger] s[i]),
        slot(s, x, j) < s.len() ==> goes_first(x, s[slot(s, x, j)]),
    decreases s.len() - j,
{
    if j < s.len() && !goes_first(x, s[j]) {
        lemma_slot(s, x, j + 1);
    }
}

/// The entries the tree shows are in its order, and they are the visible
/// entries, each as often as it was given.
pub proof fn lemma_arranged(s: Seq<NodeView>)
    ensures
        in_tree_order(arranged(s)),
        arranged(s).to_multiset() =~= visible(s).to_multiset(),
    decreases s.len(),
{
    if s.len() > 0 {
        let r = arranged(s.drop_last());
        lemma_arranged(s.drop_last());
        let x = s.last();
        if !hidden(x) {
            let k = slot(r, x, 0);
            lemma_slot(r, x, 0);
            let out = r.take(k).push(x) + r.skip(k);
            assert forall|i: int, j: int| 0 <= i < j < out.len() implies !goes_first(#[trigger] out[j], #[trigger] out[i]) by {
                if j < k {
                    assert(out[i] == r[i] && out[j] == r[j]);
                } else if j == k {
                    assert(out[i] == r[i] && out[j] == x);
                } else if i < k {
                    assert(out[i] == r[i] && out[j] == r[j - 1]);
                } else if i == k {
                    assert(out[i] == x && out[j] == r[j - 1]);
                    assert(goes_first(x, r[k]));
                    if j - 1 > k {
                        assert(!goes_first(r[j - 1], r[k]));
                    }
                    if goes_first(r[j - 1], x) {
                        let (lx, lk, lj) = (lowercase(x.name), lowercase(r[k].name), lowercase(r[j - 1].name));
                        lemma_text_lt_asym(lx, lk);
                        lemma_text_lt_asym(lj, lx);
                        lemma_text_lt_asym(lj, lk);
                        if text_lt(lj, lx) && text_lt(lx, lk) {
                            lemma_text_lt_trans(lj, lx, lk);
                        }
                        if lj =~= lx && text_lt(lx, lk) {
                            assert(text_lt(lj, lk));
                        }
                        if text_lt(lj, lx) && lx =~= lk {
                            assert(text_lt(lj, lk));
                        }
                    }
                } else {
                    assert(out[i] == r[i - 1] && out[j] == r[j - 1]);
                }
            }
            assert(r.take(k) + r.skip(k) =~= r);
            vstd::seq_lib::lemma_multiset_commutative(r.take(k).push(x), r.skip(k));
            vstd::seq_lib::lemma_multiset_commutative(r.take(k), r.skip(k));
            assert(r.take(k).push(x) =~= r.take(k) + seq![x]);
            vstd::seq_lib::lemma_multiset_commutative(r.take(k), seq![x]);
            let v = visible(s.drop_last());
            assert(v.push(x) =~= v + seq![x]);
            vstd::seq_lib::lemma_multiset_commutative(v, seq![x]);
        }
    }
}

/// The characters of an entry's name, lowercased.
fn lowered(n: &FileNode) -> (r: Vec<char>)
    ensures
        r@ == lowercase(n.name@),
{
    chars_of(to_lowercase(n.name.as_str()).as_str())
}

/// Whether `a` comes before `b`, compared by code point.
fn chars_less(a: &Vec<char>, b: &Vec<char>) -> (r: bool)
    ensures
        r == text_lt(a@, b@),
{
    let mut i: usize = 0;
    assert(a@.skip(0) =~= a@);
    assert(b@.skip(0) =~= b@);
    while i < a.len() && i < b.len()
        invariant
            i <= a.len(),
            i <= b.len(),
            text_lt(a@, b@) == text_lt(a@.skip(i as int), b@.skip(i as int)),
        decreases a.len() - i,
    {
        assert(a@.skip(i as int)[0] == a@[i as int] && b@.skip(i as int)[0] == b@[i as int]);
        if a[i] != b[i] {
            return a[i] < b[i];
        }
        assert(a@.skip(i as int).drop_first() =~= a@.skip(i + 1));
        assert(b@.skip(i as int).drop_first() =~= b@.skip(i + 1));
        i += 1;
    }
    i < b.len()
}

/// Whether entry `x` goes in front of entry `y`.
fn goes_first_of(x: &FileNode, y: &FileNode) -> (r: bool)
    ensures
        r == goes_first(node_view(*x), node_view(*y)),
{
    if x.is_dir != y.is_dir {
        return x.is_dir;
    }
    chars_less(&lowered(x), &lowered(y))
}

/// The views of a list of nodes.
pub open spec fn views(v: Seq<FileNode>) -> Seq<NodeView> {
    v.map_values(|n: FileNode| node_view(n))
}

/// Put the entries of a directory in the order the tree shows them: hidden
/// entries left out, directories first, each group by name regardless of
/// case, entries with equal keys in the order given.
pub fn arrange_children(children: Vec<FileNode>) -> (r: Vec<FileNode>)
    ensures
        views(r@) == arranged(views(children@)),
{
    let ghost all = views(children@);
    let mut rest = children;
    let mut out: Vec<FileNode> = Vec::new();
    let ghost mut done: int = 0;
    assert(all.take(0) =~= Seq::<NodeView>::empty());
    while rest.len() > 0
        invariant
            0 <= done <= all.len(),
            views(rest@) == all.skip(done),
            views(out@) == arranged(all.take(done)),
        decreases rest.len(),
    {
        let ghost prev = rest@;
        assert(views(prev).len() == prev.len());
        assert(done < all.len());
        assert(views(prev)[0] == node_view(prev[0]));
        assert(all.skip(done)[0] == all[done]);
        let n = rest.remove(0);
        assert(rest@ =~= prev.drop_first());
        assert(node_view(n) == all[done]);
        assert forall|i: int| 0 <= i < rest@.len() implies views(rest@)[i] == all.skip(done + 1)[i] by {
            assert(views(prev)[i + 1] == all.skip(done)[i + 1]);
            assert(rest@[i] == prev[i + 1]);
        }
        assert(views(rest@) =~= all.skip(done + 1));
        assert(all.take(done + 1).drop_last() =~= all.take(done));
        assert(all.take(done + 1).last() == all[done]);
        let c = chars_of(n.name.as_str());
        let is_hidden = c.len() > 0 && c[0] == '.';
        if !is_hidden {
            let ghost s = views(out@);
            let ghost x = node_view(n);
            let mut k: usize = 0;
            while k < out.len()
                invariant_except_break
                    forall|i: int| 0 <= i < k ==> !goes_first(x, #[trigger] s[i]),
                invariant
                    s == views(out@),
                    x == node_view(n),
                    k <= out.len(),
                    slot(s, x, k as int) == slot(s, x, 0),
                ensures
                    k == slot(s, x, 0),
                decreases out.len() - k,
            {
                if goes_first_of(&n, &out[k]) {
                    break;
                }
                k += 1;
            }
            out.insert(k, n);
            assert(views(out@) =~= s.take(k as int).push(x) + s.skip(k as int));
        }
        proof {
            done = done + 1;
        }
    }
    assert(all.skip(done) =~= Seq::<NodeView>::empty());
    assert(all.take(done) =~= all);
    out
}

/// How deep the file tree is read.
pub const MAX_DEPTH: usize = 20;

/// Whether a name is that of a hidden entry: it starts with `.`.
pub fn is_hidden_name(name: &String) -> (r: bool)
    ensures
        r == (name@.len() > 0 && name@[0] == '.'),
{
    let c = chars_of(name.as_str());
    c.len() > 0 && c[0] == '.'
}

/// Whether the tree is read below an entry: a directory above the depth
/// limit.
pub fn reads_children(is_dir: bool, depth: usize) -> (r: bool)
    ensures
        r == (is_dir && depth < MAX_DEPTH),
{
    is_dir && depth < MAX_DEPTH
}

/// Every visible entry is one of the entries.
proof fn lemma_visible_within(s: Seq<NodeView>)
    ensures
        forall|x: NodeView| visible(s).contains(x) ==> s.contains(x),
    decreases s.len(),
{
    if s.len() > 0 {
        lemma_visible_within(s.drop_last());
        assert forall|x: NodeView| visible(s).contains(x) implies s.contains(x) by {
            let v = visible(s);
            let k = choose|k: int| 0 <= k < v.len() && v[k] == x;
            let v1 = visible(s.drop_last());
            if k < v1.len() {
                assert(v[k] == v1[k]);
                assert(v1.contains(x));
                assert(s.drop_last().contains(x));
                let j = choose|j: int| 0 <= j < s.drop_last().len() && s.drop_last()[j] == x;
                assert(s[j] == x);
            } else {
                assert(x == s.last());
                assert(s[s.len() - 1] == x);
            }
        }
    }
}

/// The tree node of an entry read at `depth`, given the nodes of the
/// entries listed in it, each one level deeper: only the root directory
/// starts expanded, and the children are kept, in the tree's order, only
/// where the tree is read below the entry; every child is one level deeper
/// than the node.
pub fn tree_node(name: String, path: String, is_dir: bool, depth: usize, children: Vec<FileNode>) -> (n: FileNode)
    requires
        forall|i: int| 0 <= i < children.len() ==> #[trigger] children@[i].depth == depth + 1,
    ensures
        n.name == name,
        n.path == path,
        n.is_dir == is_dir,
        n.depth == depth,
        n.expanded == (depth == 0 && is_dir),
        views(n.children@) == if is_dir && depth < MAX_DEPTH {
            arranged(views(children@))
        } else {
            Seq::empty()
        },
        forall|i: int| 0 <= i < n.children.len() ==> #[trigger] n.children@[i].depth == depth + 1,
{
    let kids = if reads_children(is_dir, depth) {
        arrange_children(children)
    } else {
        let e: Vec<FileNode> = Vec::new();
        assert(views(e@) =~= Seq::<NodeView>::empty());
        e
    };
    proof {
        if is_dir && depth < MAX_DEPTH {
            broadcast use vstd::seq_lib::group_to_multiset_ensures;

            let s = views(children@);
            lemma_arranged(s);
            lemma_visible_within(s);
            assert forall|i: int| 0 <= i < kids.len() implies #[trigger] kids@[i].depth == depth + 1 by {
                let x = views(kids@)[i];
                assert(arranged(s)[i] == x);
                assert(arranged(s).contains(x));
                assert(arranged(s).to_multiset().count(x) > 0);
                assert(visible(s).to_multiset().count(x) > 0);
                assert(visible(s).contains(x));
                assert(s.contains(x));
                let j = choose|j: int| 0 <= j < s.len() && s[j] == x;
                assert(s[j].depth == children@[j].depth);
            }
        }
    }
    FileNode { name, path, is_dir, children: kids, expanded: depth == 0 && is_dir, depth }
}

} // verus!
