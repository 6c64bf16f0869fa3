//! The file-tree model: nodes, the flattened list the sidebar shows, and
//! selection and expansion.
use vstd::prelude::*;

verus! {

/// The depth at which building the tree stops descending.
pub const MAX_DEPTH: usize = 20;

/// A single node in the file tree hierarchy.
#[derive(Debug)]
pub struct FileNode {
    pub name: String,
    pub path: String,
    pub is_dir: bool,
    pub children: Vec<FileNode>,
    pub expanded: bool,
    pub depth: usize,
}

/// A flattened entry used for rendering the tree in a list view.
#[derive(Debug)]
pub struct FlatEntry {
    pub path: String,
    pub name: String,
    pub is_dir: bool,
    pub depth: usize,
    pub expanded: bool,
}

/// The value of a flat entry.
pub struct FlatView {
    pub path: Seq<char>,
    pub name: Seq<char>,
    pub is_dir: bool,
    pub depth: usize,
    pub expanded: bool,
}

impl DeepView for FlatEntry {
    type V = FlatView;

    open spec fn deep_view(&self) -> FlatView {
        FlatView {
            path: self.path@,
            name: self.name@,
            is_dir: self.is_dir,
            depth: self.depth,
            expanded: self.expanded,
        }
    }
}

/// The value of a tree node, with the values of its children.
pub struct NodeView {
    pub name: Seq<char>,
    pub path: Seq<char>,
    pub is_dir: bool,
    pub children: Seq<NodeView>,
    pub expanded: bool,
    pub depth: usize,
}

/// The value of a node and of everything below it.
pub open spec fn node_view(n: FileNode) -> NodeView
    decreases n,
{
    NodeView {
        name: n.name@,
        path: n.path@,
        is_dir: n.is_dir,
        children: Seq::new(
            n.children@.len(),
            |i: int| {
                if 0 <= i < n.children@.len() {
                    node_view(n.children@[i])
                } else {
                    arbitrary()
                }
            },
        ),
        expanded: n.expanded,
        depth: n.depth,
    }
}

/// The flat entry of a node.
pub open spec fn entry_of(n: NodeView) -> FlatView {
    FlatView { path: n.path, name: n.name, is_dir: n.is_dir, depth: n.depth, expanded: n.expanded }
}

/// The visible entries below and including a node, in pre-order: a node,
/// then, if it is expanded, the entries of its children in order.
pub open spec fn flat_node(n: NodeView) -> Seq<FlatView>
    decreases n, 1nat,
{
    seq![entry_of(n)] + if n.expanded { flat_list(n.children, n.children.len() as int) } else { Seq::empty() }
}

/// The visible entries of the first `k` nodes of a list.
pub open spec fn flat_list(s: Seq<NodeView>, k: int) -> Seq<FlatView>
    decreases s, 0nat, k,
{
    if k <= 0 || k > s.len() {
        Seq::empty()
    } else {
        flat_list(s, k - 1) + flat_node(s[k - 1])
    }
}

/// The paths of the expanded nodes below and including a node, in pre-order.
pub open spec fn expanded_paths(n: NodeView) -> Seq<Seq<char>>
    decreases n, 1nat,
{
    (if n.expanded { seq![n.path] } else { Seq::empty() }) + expanded_paths_list(
        n.children,
        n.children.len() as int,
    )
}

/// The expanded paths of the first `k` nodes of a list.
pub open spec fn expanded_paths_list(s: Seq<NodeView>, k: int) -> Seq<Seq<char>>
    decreases s, 0nat, k,
{
    if k <= 0 || k > s.len() {
        Seq::empty()
    } else {
        expanded_paths_list(s, k - 1) + expanded_paths(s[k - 1])
    }
}

/// A node with the node at `target` toggled: the first node on the way down
/// whose path is `target` flips its expansion and its subtree stays as it is.
pub open spec fn toggled(n: NodeView, target: Seq<char>) -> NodeView
    decreases n,
{
    if n.path == target {
        NodeView { expanded: !n.expanded, ..n }
    } else {
        NodeView {
            children: Seq::new(
                n.children.len(),
                |i: int| if 0 <= i < n.children.len() { toggled(n.children[i], target) } else { arbitrary() },
            ),
            ..n
        }
    }
}

/// Toggling the same entry twice gives back the tree it started from.
pub proof fn lemma_toggle_twice(n: NodeView, target: Seq<char>)
    ensures
        toggled(toggled(n, target), target) == n,
    decreases n,
{
    if n.path != target {
        let once = toggled(n, target);
        assert forall|i: int| 0 <= i < n.children.len() implies toggled(once.children[i], target)
            == n.children[i] by {
            lemma_toggle_twice(n.children[i], target);
        }
        assert(toggled(once, target).children =~= n.children);
    }
}

/// No entry among the first `upto` of a flat list has path `p`.
pub open spec fn path_absent(fl: Seq<FlatView>, p: Seq<char>, upto: int) -> bool {
    forall|k: int| 0 <= k < upto && k < fl.len() ==> (#[trigger] fl[k]).path != p
}

/// `s2` is `s` with every node toggled at `p`.
pub open spec fn toggled_all(s: Seq<NodeView>, s2: Seq<NodeView>, p: Seq<char>) -> bool {
    s2.len() == s.len() && forall|i: int| 0 <= i < s.len() ==> #[trigger] s2[i] == toggled(s[i], p)
}

proof fn lemma_toggle_hidden_node(n: NodeView, p: Seq<char>)
    requires
        path_absent(flat_node(n), p, flat_node(n).len() as int),
    ensures
        flat_node(toggled(n, p)) == flat_node(n),
    decreases n, 1nat,
{
    assert(flat_node(n)[0] == entry_of(n));
    let t = toggled(n, p);
    if n.expanded {
        assert forall|k: int| 0 <= k < flat_list(n.children, n.children.len() as int).len() implies (
        #[trigger] flat_list(n.children, n.children.len() as int)[k]).path != p by {
            assert(flat_node(n)[k + 1] == flat_list(n.children, n.children.len() as int)[k]);
        }
        assert(toggled_all(n.children, t.children, p));
        lemma_toggle_hidden_list(n.children, t.children, p, n.children.len() as int);
    }
    assert(flat_node(t) =~= flat_node(n));
}

proof fn lemma_toggle_hidden_list(s: Seq<NodeView>, s2: Seq<NodeView>, p: Seq<char>, k: int)
    requires
        0 <= k <= s.len(),
        toggled_all(s, s2, p),
        path_absent(flat_list(s, k), p, flat_list(s, k).len() as int),
    ensures
        flat_list(s2, k) == flat_list(s, k),
    decreases s, 0nat, k,
{
    if k > 0 {
        let a = flat_list(s, k - 1);
        let b = flat_node(s[k - 1]);
        assert(flat_list(s, k) == a + b);
        assert forall|j: int| 0 <= j < a.len() implies (#[trigger] a[j]).path != p by {
            assert((a + b)[j] == a[j]);
        }
        lemma_toggle_hidden_list(s, s2, p, k - 1);
        assert forall|j: int| 0 <= j < b.len() implies (#[trigger] b[j]).path != p by {
            assert((a + b)[a.len() + j] == b[j]);
        }
        lemma_toggle_hidden_node(s[k - 1], p);
        assert(s2[k - 1] == toggled(s[k - 1], p));
    }
}

proof fn lemma_toggle_prefix_node(n: NodeView, p: Seq<char>, i: int)
    requires
        0 <= i < flat_node(n).len(),
        flat_node(n)[i].path == p,
        path_absent(flat_node(n), p, i),
    ensures
        flat_node(toggled(n, p)).len() > i,
        forall|k: int| 0 <= k < i ==> #[trigger] flat_node(toggled(n, p))[k] == flat_node(n)[k],
        flat_node(toggled(n, p))[i].path == p,
        flat_node(toggled(n, p))[i].is_dir == flat_node(n)[i].is_dir,
    decreases n, 1nat,
{
    let t = toggled(n, p);
    assert(flat_node(n)[0] == entry_of(n));
    assert(flat_node(t)[0] == entry_of(t));
    if n.path == p {
        assert(i == 0);
    } else {
        assert(i > 0);
        assert(n.expanded);
        let c = flat_list(n.children, n.children.len() as int);
        assert(flat_node(n) == seq![entry_of(n)] + c);
        assert(flat_node(n)[i] == c[i - 1]);
        assert forall|k: int| 0 <= k < i - 1 && k < c.len() implies (#[trigger] c[k]).path != p by {
            assert(flat_node(n)[k + 1] == c[k]);
        }
        assert(toggled_all(n.children, t.children, p));
        lemma_toggle_prefix_list(n.children, t.children, p, n.children.len() as int, i - 1);
        let c2 = flat_list(t.children, t.children.len() as int);
        assert(flat_node(t) == seq![entry_of(t)] + c2);
        assert forall|k: int| 0 <= k < i implies #[trigger] flat_node(t)[k] == flat_node(n)[k] by {
            if k > 0 {
                assert(flat_node(t)[k] == c2[k - 1]);
                assert(flat_node(n)[k] == c[k - 1]);
            }
        }
        assert(flat_node(t)[i] == c2[i - 1]);
    }
}

proof fn lemma_toggle_prefix_list(s: Seq<NodeView>, s2: Seq<NodeView>, p: Seq<char>, k: int, j: int)
    requires
        0 <= k <= s.len(),
        toggled_all(s, s2, p),
        0 <= j < flat_list(s, k).len(),
        flat_list(s, k)[j].path == p,
        path_absent(flat_list(s, k), p, j),
    ensures
        flat_list(s2, k).len() > j,
        forall|m: int| 0 <= m < j ==> #[trigger] flat_list(s2, k)[m] == flat_list(s, k)[m],
        flat_list(s2, k)[j].path == p,
        flat_list(s2, k)[j].is_dir == flat_list(s, k)[j].is_dir,
    decreases s, 0nat, k,
{
    let a = flat_list(s, k - 1);
    let b = flat_node(s[k - 1]);
    assert(k > 0);
    assert(flat_list(s, k) == a + b);
    assert(s2[k - 1] == toggled(s[k - 1], p));
    let a2 = flat_list(s2, k - 1);
    let b2 = flat_node(s2[k - 1]);
    assert(flat_list(s2, k) == a2 + b2);
    if j < a.len() {
        assert((a + b)[j] == a[j]);
        assert forall|m: int| 0 <= m < j && m < a.len() implies (#[trigger] a[m]).path != p by {
            assert((a + b)[m] == a[m]);
        }
        lemma_toggle_prefix_list(s, s2, p, k - 1, j);
        assert forall|m: int| 0 <= m < j implies #[trigger] flat_list(s2, k)[m] == flat_list(s, k)[m] by {
            assert((a2 + b2)[m] == a2[m]);
            assert((a + b)[m] == a[m]);
        }
        assert((a2 + b2)[j] == a2[j]);
    } else {
        assert forall|m: int| 0 <= m < a.len() implies (#[trigger] a[m]).path != p by {
            assert((a + b)[m] == a[m]);
        }
        lemma_toggle_hidden_list(s, s2, p, k - 1);
        assert(a2 == a);
        let jj = j - a.len();
        assert((a + b)[j] == b[jj]);
        assert forall|m: int| 0 <= m < jj && m < b.len() implies (#[trigger] b[m]).path != p by {
            assert((a + b)[a.len() + m] == b[m]);
        }
        lemma_toggle_prefix_node(s[k - 1], p, jj);
        assert forall|m: int| 0 <= m < j implies #[trigger] flat_list(s2, k)[m] == flat_list(s, k)[m] by {
            if m < a.len() {
                assert((a2 + b2)[m] == a2[m]);
                assert((a + b)[m] == a[m]);
            } else {
                assert((a2 + b2)[m] == b2[m - a.len()]);
                assert((a + b)[m] == b[m - a.len()]);
            }
        }
        assert((a2 + b2)[j] == b2[jj]);
    }
}

/// A node with every directory whose path is `target` expanded.
pub open spec fn restored(n: NodeView, target: Seq<char>) -> NodeView
    decreases n,
{
    NodeView {
        expanded: if n.path == target && n.is_dir { true } else { n.expanded },
        children: Seq::new(
            n.children.len(),
            |i: int| if 0 <= i < n.children.len() { restored(n.children[i], target) } else { arbitrary() },
        ),
        ..n
    }
}

/// The children of a node's value are the values of its children.
pub proof fn lemma_child_view(n: FileNode, i: int)
    requires
        0 <= i < n.children@.len(),
    ensures
        node_view(n).children.len() == n.children@.len(),
        node_view(n).children[i] == node_view(n.children@[i]),
{
}

/// `restored` applied for each path of a list, in order.
pub open spec fn restored_all(n: NodeView, paths: Seq<Seq<char>>) -> NodeView
    decreases paths.len(),
{
    if paths.len() == 0 {
        n
    } else {
        restored(restored_all(n, paths.drop_last()), paths.last())
    }
}

/// Whether two strings hold the same characters.
fn same_path(a: &String, b: &str) -> (r: bool)
    ensures
        r == (a@ == b@),
{
    *a == b.to_owned()
}

fn entry_for(node: &FileNode) -> (e: FlatEntry)
    ensures
        e.deep_view() == entry_of(node_view(*node)),
{
    FlatEntry {
        path: node.path.clone(),
        name: node.name.clone(),
        is_dir: node.is_dir,
        depth: node.depth,
        expanded: node.expanded,
    }
}

/// Append the visible entries below and including `node` to `out`.
fn flatten_node(node: &FileNode, out: &mut Vec<FlatEntry>)
    ensures
        final(out).deep_view() == old(out).deep_view() + flat_node(node_view(*node)),
    decreases node,
{
    let ghost nv = node_view(*node);
    let ghost start = out.deep_view();
    let e = entry_for(node);
    out.push(e);
    assert(out.deep_view() =~= start + seq![entry_of(nv)]);
    if node.expanded {
        let mut i: usize = 0;
        while i < node.children.len()
            invariant
                i <= node.children.len(),
                nv == node_view(*node),
                nv.children.len() == node.children@.len(),
                out.deep_view() == start + seq![entry_of(nv)] + flat_list(nv.children, i as int),
            decreases node.children.len() - i,
        {
            proof {
                lemma_child_view(*node, i as int);
            }
            let ghost before = out.deep_view();
            flatten_node(&node.children[i], out);
            assert(flat_list(nv.children, i + 1) == flat_list(nv.children, i as int) + flat_node(
                nv.children[i as int],
            ));
            assert(out.deep_view() =~= start + seq![entry_of(nv)] + flat_list(nv.children, i + 1));
            i += 1;
        }
        assert(flat_node(nv) == seq![entry_of(nv)] + flat_list(nv.children, nv.children.len() as int));
        assert(out.deep_view() =~= start + flat_node(nv));
    } else {
        assert(flat_node(nv) =~= seq![entry_of(nv)]);
    }
}

/// Flip the expansion of the first node on the way down whose path is `target`.
pub fn toggle_node_recursive(node: &mut FileNode, target: &str)
    ensures
        node_view(*final(node)) == toggled(node_view(*old(node)), target@),
    decreases *old(node),
{
    let ghost ov = node_view(*node);
    if same_path(&node.path, target) {
        node.expanded = !node.expanded;
        assert(node_view(*node) =~= toggled(ov, target@));
        return;
    }
    let mut i: usize = 0;
    while i < node.children.len()
        invariant
            i <= node.children.len(),
            ov == node_view(*old(node)),
            ov.path != target@,
            node.children.len() == old(node).children.len(),
            node.name == old(node).name,
            node.path == old(node).path,
            node.is_dir == old(node).is_dir,
            node.expanded == old(node).expanded,
            node.depth == old(node).depth,
            forall|k: int| 0 <= k < i ==> node_view(#[trigger] node.children@[k]) == toggled(ov.children[k], target@),
            forall|k: int| i <= k < node.children@.len() ==> #[trigger] node.children@[k] == old(node).children@[k],
        decreases node.children.len() - i,
    {
        proof {
            lemma_child_view(*old(node), i as int);
            assert(decreases_to!(*old(node) => old(node).children@[i as int]));
        }
        toggle_node_recursive(&mut node.children[i], target);
        i += 1;
    }
    assert(node_view(*node).children =~= toggled(ov, target@).children) by {
        assert forall|k: int| 0 <= k < node.children@.len() implies node_view(*node).children[k]
            == toggled(ov, target@).children[k] by {
            lemma_child_view(*node, k);
        }
    }
    assert(node_view(*node) =~= toggled(ov, target@));
}

/// Expand every directory whose path is `target`.
pub fn restore_expanded_node(node: &mut FileNode, target: &str)
    ensures
        node_view(*final(node)) == restored(node_view(*old(node)), target@),
    decreases *old(node),
{
    let ghost ov = node_view(*node);
    if same_path(&node.path, target) && node.is_dir {
        node.expanded = true;
    }
    let mut i: usize = 0;
    while i < node.children.len()
        invariant
            i <= node.children.len(),
            ov == node_view(*old(node)),
            node.children.len() == old(node).children.len(),
            node.name == old(node).name,
            node.path == old(node).path,
            node.is_dir == old(node).is_dir,
            node.expanded == restored(ov, target@).expanded,
            node.depth == old(node).depth,
            forall|k: int| 0 <= k < i ==> node_view(#[trigger] node.children@[k]) == restored(ov.children[k], target@),
            forall|k: int| i <= k < node.children@.len() ==> #[trigger] node.children@[k] == old(node).children@[k],
        decreases node.children.len() - i,
    {
        proof {
            lemma_child_view(*old(node), i as int);
            assert(decreases_to!(*old(node) => old(node).children@[i as int]));
        }
        restore_expanded_node(&mut node.children[i], target);
        i += 1;
    }
    assert(node_view(*node).children =~= restored(ov, target@).children) by {
        assert forall|k: int| 0 <= k < node.children@.len() implies node_view(*node).children[k]
            == restored(ov, target@).children[k] by {
            lemma_child_view(*node, k);
        }
    }
    assert(node_view(*node) =~= restored(ov, target@));
}

/// Append the paths of the expanded nodes below and including `node`.
fn collect_expanded_node(node: &FileNode, out: &mut Vec<String>)
    ensures
        final(out)@.map_values(|p: String| p@) == old(out)@.map_values(|p: String| p@)
            + expanded_paths(node_view(*node)),
    decreases node,
{
    let ghost nv = node_view(*node);
    let ghost start = out@.map_values(|p: String| p@);
    if node.expanded {
        out.push(node.path.clone());
    }
    let ghost head: Seq<Seq<char>> = if nv.expanded { seq![nv.path] } else { Seq::empty() };
    assert(out@.map_values(|p: String| p@) =~= start + head);
    let mut i: usize = 0;
    while i < node.children.len()
        invariant
            i <= node.children.len(),
            nv == node_view(*node),
            nv.children.len() == node.children@.len(),
            head == (if nv.expanded { seq![nv.path] } else { Seq::<Seq<char>>::empty() }),
            out@.map_values(|p: String| p@) == start + head + expanded_paths_list(nv.children, i as int),
        decreases node.children.len() - i,
    {
        proof {
            lemma_child_view(*node, i as int);
        }
        collect_expanded_node(&node.children[i], out);
        assert(out@.map_values(|p: String| p@) =~= start + head + expanded_paths_list(nv.children, i + 1));
        i += 1;
    }
    assert(out@.map_values(|p: String| p@) =~= start + expanded_paths(nv));
}

/// The full file tree with navigation state and a flattened view for rendering.
#[derive(Debug)]
pub struct FileTree {
    pub root: FileNode,
    pub selected_index: usize,
    pub flattened: Vec<FlatEntry>,
}

/// The selection index after the list shrank to `len` entries: clamped to
/// the last entry.
pub open spec fn clamped(index: usize, len: usize) -> usize {
    if len > 0 && index >= len { (len - 1) as usize } else { index }
}

impl FileTree {
    /// `self` is `old` after toggling the selected entry: a selected
    /// directory flips between expanded and collapsed, the list is
    /// flattened again and the selection kept within it; otherwise nothing
    /// changes.
    pub open spec fn expand_toggled(&self, old: &FileTree) -> bool {
        let i = old.selected_index as int;
        if 0 <= i < old.flattened.len() && old.flattened@[i].is_dir {
            &&& node_view(self.root) == toggled(node_view(old.root), old.flattened@[i].path@)
            &&& self.in_sync()
            &&& self.selected_index == clamped(old.selected_index, self.flattened.len())
        } else {
            *self == *old
        }
    }

    /// The flattened list shows exactly the visible nodes of the tree.
    pub open spec fn in_sync(&self) -> bool {
        self.flattened.deep_view() == flat_node(node_view(self.root))
    }

    /// The tree with the given root (as built from a directory), its visible
    /// entries flattened and the first one selected.
    pub fn from_path(root: FileNode) -> (t: Self)
        ensures
            node_view(t.root) == node_view(root),
            t.selected_index == 0,
            t.in_sync(),
    {
        let mut tree = FileTree { root, selected_index: 0, flattened: Vec::new() };
        tree.flatten();
        tree
    }

    /// Take a freshly built root, keeping expanded every directory that was
    /// expanded before, and clamp the selection.
    pub fn refresh(&mut self, new_root: FileNode)
        ensures
            node_view(final(self).root) == restored_all(
                node_view(new_root),
                expanded_paths(node_view(old(self).root)),
            ),
            final(self).in_sync(),
            final(self).selected_index == clamped(old(self).selected_index, final(self).flattened.len()),
    {
        let old_expanded = self.collect_expanded();
        self.root = new_root;
        self.restore_expanded(&old_expanded);
        self.flatten();
        if self.flattened.len() > 0 && self.selected_index >= self.flattened.len() {
            self.selected_index = self.flattened.len() - 1;
        }
    }

    /// Rebuild the `flattened` vec by walking the tree.
    pub fn flatten(&mut self)
        ensures
            final(self).in_sync(),
            final(self).root == old(self).root,
            final(self).selected_index == old(self).selected_index,
    {
        let mut out: Vec<FlatEntry> = Vec::new();
        flatten_node(&self.root, &mut out);
        assert(out.deep_view() =~= flat_node(node_view(self.root)));
        self.flattened = out;
    }

    /// Move selection down by one.
    pub fn select_next(&mut self)
        ensures
            final(self).root == old(self).root,
            final(self).flattened == old(self).flattened,
            final(self).selected_index == if old(self).selected_index + 1 < old(self).flattened.len() {
                old(self).selected_index + 1
            } else {
                old(self).selected_index as int
            },
    {
        if self.flattened.len() > 0 && self.selected_index < self.flattened.len() - 1 {
            self.selected_index += 1;
        }
    }

    /// Move selection up by one.
    pub fn select_previous(&mut self)
        ensures
            final(self).root == old(self).root,
            final(self).flattened == old(self).flattened,
            final(self).selected_index == if old(self).selected_index > 0 {
                old(self).selected_index - 1
            } else {
                0
            },
    {
        if self.selected_index > 0 {
            self.selected_index -= 1;
        }
    }

    /// Toggle the expanded state of the currently selected entry (if it is a
    /// directory).
    pub fn toggle_expand(&mut self)
        ensures
            final(self).expand_toggled(old(self)),
            old(self).in_sync() ==> final(self).in_sync(),
    {
        if self.selected_index < self.flattened.len() {
            if self.flattened[self.selected_index].is_dir {
                let path = self.flattened[self.selected_index].path.clone();
                Self::toggle_node(&mut self.root, path.as_str());
                self.flatten();
                if self.flattened.len() > 0 && self.selected_index >= self.flattened.len() {
                    self.selected_index = self.flattened.len() - 1;
                }
            }
        }
    }

    /// Get the currently selected flat entry.
    pub fn selected_entry(&self) -> (r: Option<&FlatEntry>)
        ensures
            self.selected_index < self.flattened.len() ==> r == Some(
                &self.flattened@[self.selected_index as int],
            ),
            self.selected_index >= self.flattened.len() ==> r is None,
    {
        if self.selected_index < self.flattened.len() {
            Some(&self.flattened[self.selected_index])
        } else {
            None
        }
    }

    /// Flip the expansion of the node at `target`.
    pub fn toggle_node(node: &mut FileNode, target: &str)
        ensures
            node_view(*final(node)) == toggled(node_view(*old(node)), target@),
    {
        toggle_node_recursive(node, target);
    }

    /// The paths of the expanded nodes, in pre-order.
    pub fn collect_expanded(&self) -> (r: Vec<String>)
        ensures
            r@.map_values(|p: String| p@) == expanded_paths(node_view(self.root)),
    {
        let mut paths: Vec<String> = Vec::new();
        collect_expanded_node(&self.root, &mut paths);
        assert(paths@.map_values(|p: String| p@) =~= expanded_paths(node_view(self.root)));
        paths
    }

    /// Expand again every directory at one of `paths`.
    pub fn restore_expanded(&mut self, paths: &Vec<String>)
        ensures
            node_view(final(self).root) == restored_all(
                node_view(old(self).root),
                paths@.map_values(|p: String| p@),
            ),
            final(self).flattened == old(self).flattened,
            final(self).selected_index == old(self).selected_index,
    {
        let ghost ps = paths@.map_values(|p: String| p@);
        let mut i: usize = 0;
        while i < paths.len()
            invariant
                i <= paths.len(),
                ps == paths@.map_values(|p: String| p@),
                self.flattened == old(self).flattened,
                self.selected_index == old(self).selected_index,
                node_view(self.root) == restored_all(node_view(old(self).root), ps.take(i as int)),
            decreases paths.len() - i,
        {
            restore_expanded_node(&mut self.root, paths[i].as_str());
            assert(ps.take(i + 1).drop_last() =~= ps.take(i as int));
            i += 1;
        }
        assert(ps.take(paths.len() as int) =~= ps);
    }
}

/// Toggling the selected entry twice gives back the tree, its list and
/// its selection, when no entry above the selected one has its path.
pub proof fn lemma_toggle_expand_twice(t0: FileTree, t1: FileTree, t2: FileTree)
    requires
        t0.in_sync(),
        t0.selected_index < t0.flattened.len(),
        forall|k: int| 0 <= k < t0.selected_index ==> (#[trigger] t0.flattened@[k]).path@ != t0.flattened@[t0.selected_index as int].path@,
        t1.expand_toggled(&t0),
        t2.expand_toggled(&t1),
    ensures
        node_view(t2.root) == node_view(t0.root),
        t2.flattened.deep_view() == t0.flattened.deep_view(),
        t2.selected_index == t0.selected_index,
{
    let i = t0.selected_index as int;
    if t0.flattened@[i].is_dir {
        let n = node_view(t0.root);
        let p = t0.flattened@[i].path@;
        let f = flat_node(n);
        assert(t0.flattened.deep_view()[i] == f[i]);
        assert forall|k: int| 0 <= k < i && k < f.len() implies (#[trigger] f[k]).path != p by {
            assert(t0.flattened.deep_view()[k] == f[k]);
        }
        lemma_toggle_prefix_node(n, p, i);
        let f1 = flat_node(toggled(n, p));
        assert(t1.flattened.deep_view() == f1);
        assert(t1.flattened.len() == f1.len());
        assert(t1.selected_index == t0.selected_index);
        assert(t1.flattened.deep_view()[i] == f1[i]);
        assert(t1.flattened@[i].is_dir);
        assert(t1.flattened@[i].path@ == p);
        lemma_toggle_twice(n, p);
        assert(node_view(t2.root) == n);
        assert(t2.flattened.deep_view() == f);
        assert(t2.flattened.len() == f.len());
    }
}

} // verus!
