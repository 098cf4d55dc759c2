//! Pane layout of one tab: a tree of row and column splits over pane ids.

use vstd::prelude::*;

verus! {

broadcast use vstd::std_specs::vec::axiom_vec_index_decreases;

/// Direction in which a split lays out its children.
#[derive(Clone, Copy, PartialEq, Eq, Debug, Structural)]
pub enum SplitDirection {
    /// Children side by side, left to right.
    Row,
    /// Children stacked, top to bottom.
    Column,
}

/// A node of the layout tree: a pane, or a split holding children in order.
pub enum SplitNode {
    Pane(u64),
    Split { direction: SplitDirection, children: Vec<SplitNode> },
}

/// The panes of a node, in layout order (left to right, top to bottom).
pub open spec fn leaves(n: SplitNode) -> Seq<u64>
    decreases n,
{
    match n {
        SplitNode::Pane(id) => seq![id],
        SplitNode::Split { children, .. } => leaves_seq(children@),
    }
}

/// The panes of a sequence of nodes, in order.
pub open spec fn leaves_seq(s: Seq<SplitNode>) -> Seq<u64>
    decreases s,
{
    if s.len() == 0 {
        Seq::empty()
    } else {
        leaves_seq(s.subrange(0, s.len() - 1)) + leaves(s[s.len() - 1])
    }
}

/// Every split in the node holds at least `k` children.
pub open spec fn min_children(n: SplitNode, k: nat) -> bool
    decreases n,
{
    match n {
        SplitNode::Pane(_) => true,
        SplitNode::Split { children, .. } => children@.len() >= k && min_children_seq(
            children@,
            k,
        ),
    }
}

/// Every split in the nodes holds at least `k` children.
pub open spec fn min_children_seq(s: Seq<SplitNode>, k: nat) -> bool
    decreases s,
{
    if s.len() == 0 {
        true
    } else {
        min_children_seq(s.subrange(0, s.len() - 1), k) && min_children(s[s.len() - 1], k)
    }
}

/// A layout tree as values: a pane, or a split with its direction and its
/// children in order.
pub ghost enum Layout {
    Pane(u64),
    Split(SplitDirection, Seq<Layout>),
}

/// The layout tree a node stands for.
pub open spec fn layout_of(n: SplitNode) -> Layout
    decreases n,
{
    match n {
        SplitNode::Pane(id) => Layout::Pane(id),
        SplitNode::Split { direction, children } => Layout::Split(direction, layouts_of(children@)),
    }
}

/// The layout trees of a sequence of nodes, in order.
pub open spec fn layouts_of(s: Seq<SplitNode>) -> Seq<Layout>
    decreases s,
{
    if s.len() == 0 {
        Seq::empty()
    } else {
        layouts_of(s.subrange(0, s.len() - 1)).push(layout_of(s[s.len() - 1]))
    }
}

/// Whether the pane `id` is in the layout.
pub open spec fn has_pane(l: Layout, id: u64) -> bool
    decreases l,
{
    match l {
        Layout::Pane(p) => p == id,
        Layout::Split(_, children) => has_pane_seq(children, id),
    }
}

/// Whether the pane `id` is in one of the layouts.
pub open spec fn has_pane_seq(s: Seq<Layout>, id: u64) -> bool
    decreases s,
{
    s.len() > 0 && (has_pane(s[0], id) || has_pane_seq(s.subrange(1, s.len() as int), id))
}

/// The layout after `pane` is added beside `target` in direction `dir`: the
/// pane `target` becomes a split in `dir` of `target` then `pane`, except
/// where its enclosing split already runs in `dir`, which then holds `pane`
/// right after `target`. A layout without `target` stays as it is.
pub open spec fn split_layout(l: Layout, target: u64, dir: SplitDirection, pane: u64) -> Layout
    decreases l,
{
    match l {
        Layout::Pane(id) => if id == target {
            Layout::Split(dir, seq![Layout::Pane(id), Layout::Pane(pane)])
        } else {
            l
        },
        Layout::Split(d, children) => Layout::Split(
            d,
            split_children(d, children, target, dir, pane),
        ),
    }
}

/// The children of a split running in `d` after `pane` is added beside
/// `target`: the first child holding `target` takes it, or, when that child
/// is the pane `target` itself and `d` is `dir`, `pane` follows it here.
pub open spec fn split_children(
    d: SplitDirection,
    s: Seq<Layout>,
    target: u64,
    dir: SplitDirection,
    pane: u64,
) -> Seq<Layout>
    decreases s,
{
    if s.len() == 0 {
        s
    } else if has_pane(s[0], target) {
        if s[0] == Layout::Pane(target) && d == dir {
            s.insert(1, Layout::Pane(pane))
        } else {
            s.update(0, split_layout(s[0], target, dir, pane))
        }
    } else {
        seq![s[0]] + split_children(d, s.subrange(1, s.len() as int), target, dir, pane)
    }
}

proof fn lemma_layouts_of(s: Seq<SplitNode>)
    ensures
        layouts_of(s).len() == s.len(),
        forall|j: int| 0 <= j < s.len() ==> #[trigger] layouts_of(s)[j] == layout_of(s[j]),
    decreases s.len(),
{
    if s.len() > 0 {
        lemma_layouts_of(s.subrange(0, s.len() - 1));
    }
}

proof fn lemma_has_pane_seq(s: Seq<Layout>, id: u64)
    ensures
        has_pane_seq(s, id) <==> exists|j: int| 0 <= j < s.len() && has_pane(#[trigger] s[j], id),
    decreases s.len(),
{
    if s.len() > 0 {
        let rest = s.subrange(1, s.len() as int);
        lemma_has_pane_seq(rest, id);
        if has_pane_seq(s, id) && !has_pane(s[0], id) {
            let j = choose|j: int| 0 <= j < rest.len() && has_pane(#[trigger] rest[j], id);
            assert(s[j + 1] == rest[j]);
        }
        if exists|j: int| 0 <= j < s.len() && has_pane(#[trigger] s[j], id) {
            let j = choose|j: int| 0 <= j < s.len() && has_pane(#[trigger] s[j], id);
            if j > 0 {
                assert(rest[j - 1] == s[j]);
            }
        }
    }
}

proof fn lemma_split_absent(l: Layout, target: u64, dir: SplitDirection, pane: u64)
    requires
        !has_pane(l, target),
    ensures
        split_layout(l, target, dir, pane) == l,
    decreases l,
{
    match l {
        Layout::Pane(_) => {},
        Layout::Split(d, children) => {
            lemma_split_children_absent(d, children, target, dir, pane);
        },
    }
}

proof fn lemma_split_children_absent(
    d: SplitDirection,
    s: Seq<Layout>,
    target: u64,
    dir: SplitDirection,
    pane: u64,
)
    requires
        !has_pane_seq(s, target),
    ensures
        split_children(d, s, target, dir, pane) == s,
    decreases s,
{
    if s.len() > 0 {
        let rest = s.subrange(1, s.len() as int);
        lemma_split_children_absent(d, rest, target, dir, pane);
        assert(seq![s[0]] + rest =~= s);
    }
}

proof fn lemma_split_children_prefix(
    d: SplitDirection,
    s: Seq<Layout>,
    target: u64,
    dir: SplitDirection,
    pane: u64,
    i: int,
)
    requires
        0 <= i <= s.len(),
        forall|j: int| 0 <= j < i ==> !has_pane(#[trigger] s[j], target),
    ensures
        split_children(d, s, target, dir, pane) == s.take(i) + split_children(
            d,
            s.skip(i),
            target,
            dir,
            pane,
        ),
    decreases i,
{
    if i == 0 {
        assert(s.skip(0) =~= s);
        assert(s.take(0) + split_children(d, s, target, dir, pane) =~= split_children(
            d,
            s,
            target,
            dir,
            pane,
        ));
    } else {
        let rest = s.subrange(1, s.len() as int);
        assert forall|j: int| 0 <= j < i - 1 implies !has_pane(#[trigger] rest[j], target) by {
            assert(rest[j] == s[j + 1]);
        }
        lemma_split_children_prefix(d, rest, target, dir, pane, i - 1);
        assert(rest.skip(i - 1) =~= s.skip(i));
        assert(!has_pane(s[0], target));
        assert(seq![s[0]] + (rest.take(i - 1) + split_children(d, s.skip(i), target, dir, pane))
            =~= s.take(i) + split_children(d, s.skip(i), target, dir, pane));
    }
}

/// Index of the first of `s` from `i` on that is the pane `id`, or -1.
pub open spec fn pane_index_from(s: Seq<Layout>, id: u64, i: int) -> int
    decreases s.len() - i,
{
    if i < 0 || i >= s.len() {
        -1
    } else if s[i] == Layout::Pane(id) {
        i
    } else {
        pane_index_from(s, id, i + 1)
    }
}

/// The layout after the pane `id` is taken out of it: a split drops it when
/// it is one of its children, else the first child holding it loses it; a
/// lone pane stays.
pub open spec fn remove_layout(l: Layout, id: u64) -> Layout
    decreases l,
{
    match l {
        Layout::Pane(_) => l,
        Layout::Split(d, children) => Layout::Split(
            d,
            if pane_index_from(children, id, 0) >= 0 {
                children.remove(pane_index_from(children, id, 0))
            } else {
                remove_nested(children, id)
            },
        ),
    }
}

/// Children after the first of them that holds the pane `id` loses it.
pub open spec fn remove_nested(s: Seq<Layout>, id: u64) -> Seq<Layout>
    decreases s,
{
    if s.len() == 0 {
        s
    } else if has_pane(s[0], id) {
        s.update(0, remove_layout(s[0], id))
    } else {
        seq![s[0]] + remove_nested(s.subrange(1, s.len() as int), id)
    }
}

/// The layout with every split of a single child replaced by that child,
/// children first.
pub open spec fn collapse_layout(l: Layout) -> Layout
    decreases l,
{
    match l {
        Layout::Pane(_) => l,
        Layout::Split(d, children) => {
            let c = collapse_seq(children);
            if c.len() == 1 {
                c[0]
            } else {
                Layout::Split(d, c)
            }
        },
    }
}

/// Each layout collapsed, in order.
pub open spec fn collapse_seq(s: Seq<Layout>) -> Seq<Layout>
    decreases s,
{
    if s.len() == 0 {
        s
    } else {
        seq![collapse_layout(s[0])] + collapse_seq(s.subrange(1, s.len() as int))
    }
}

/// The layout after each pane of `exited` is closed in turn, as
/// `removal_run` closes them among the panes `ids`.
pub open spec fn close_run(
    l: Layout,
    ids: Seq<u64>,
    active: u64,
    exited: Seq<u64>,
    focused: Option<u64>,
) -> Layout
    decreases exited.len(),
{
    if exited.len() == 0 {
        l
    } else {
        let step = removal(ids, focus_target(active, focus_within(ids, focused)), exited[0]);
        close_run(close_layout(l, ids.len() as int, exited[0]), step.0, step.1, exited.drop_first(), focused)
    }
}

/// The layout after the pane `id` is closed among `count` panes: unchanged
/// when it is the only pane or is not there; else without it, and with the
/// splits it leaves holding one child replaced by that child.
pub open spec fn close_layout(l: Layout, count: int, id: u64) -> Layout {
    if count <= 1 || !has_pane(l, id) {
        l
    } else {
        collapse_layout(remove_layout(l, id))
    }
}

proof fn lemma_pane_index_from(s: Seq<Layout>, id: u64, i: int)
    requires
        0 <= i <= s.len(),
    ensures
        pane_index_from(s, id, i) >= 0 ==> i <= pane_index_from(s, id, i) < s.len() && s[pane_index_from(
            s,
            id,
            i,
        )] == Layout::Pane(id) && forall|j: int|
            i <= j < pane_index_from(s, id, i) ==> s[j] != Layout::Pane(id),
        pane_index_from(s, id, i) < 0 ==> pane_index_from(s, id, i) == -1 && forall|j: int|
            i <= j < s.len() ==> s[j] != Layout::Pane(id),
    decreases s.len() - i,
{
    if i < s.len() && s[i] != Layout::Pane(id) {
        lemma_pane_index_from(s, id, i + 1);
    }
}

proof fn lemma_collapse_seq(s: Seq<Layout>)
    ensures
        collapse_seq(s).len() == s.len(),
        forall|j: int| 0 <= j < s.len() ==> #[trigger] collapse_seq(s)[j] == collapse_layout(s[j]),
    decreases s.len(),
{
    if s.len() > 0 {
        let rest = s.subrange(1, s.len() as int);
        lemma_collapse_seq(rest);
        assert forall|j: int| 0 <= j < s.len() implies #[trigger] collapse_seq(s)[j]
            == collapse_layout(s[j]) by {
            if j > 0 {
                assert(rest[j - 1] == s[j]);
            }
        }
    }
}

proof fn lemma_remove_absent(l: Layout, id: u64)
    requires
        !has_pane(l, id),
    ensures
        remove_layout(l, id) == l,
    decreases l,
{
    match l {
        Layout::Pane(_) => {},
        Layout::Split(d, children) => {
            lemma_has_pane_seq(children, id);
            lemma_pane_index_from(children, id, 0);
            if pane_index_from(children, id, 0) >= 0 {
                assert(has_pane(children[pane_index_from(children, id, 0)], id));
            }
            lemma_remove_nested_absent(children, id);
        },
    }
}

proof fn lemma_remove_nested_absent(s: Seq<Layout>, id: u64)
    requires
        !has_pane_seq(s, id),
    ensures
        remove_nested(s, id) == s,
    decreases s,
{
    if s.len() > 0 {
        let rest = s.subrange(1, s.len() as int);
        lemma_remove_nested_absent(rest, id);
        assert(seq![s[0]] + rest =~= s);
    }
}

proof fn lemma_remove_nested_prefix(s: Seq<Layout>, id: u64, i: int)
    requires
        0 <= i <= s.len(),
        forall|j: int| 0 <= j < i ==> !has_pane(#[trigger] s[j], id),
    ensures
        remove_nested(s, id) == s.take(i) + remove_nested(s.skip(i), id),
    decreases i,
{
    if i == 0 {
        assert(s.skip(0) =~= s);
        assert(s.take(0) + remove_nested(s, id) =~= remove_nested(s, id));
    } else {
        let rest = s.subrange(1, s.len() as int);
        assert forall|j: int| 0 <= j < i - 1 implies !has_pane(#[trigger] rest[j], id) by {
            assert(rest[j] == s[j + 1]);
        }
        lemma_remove_nested_prefix(rest, id, i - 1);
        assert(rest.skip(i - 1) =~= s.skip(i));
        assert(!has_pane(s[0], id));
        assert(seq![s[0]] + (rest.take(i - 1) + remove_nested(s.skip(i), id)) =~= s.take(i)
            + remove_nested(s.skip(i), id));
    }
}

/// The panes of a sequence of nodes hold `id` exactly when one of the
/// nodes does.
proof fn lemma_leaves_seq_contains(s: Seq<SplitNode>, id: u64)
    ensures
        leaves_seq(s).contains(id) <==> exists|j: int|
            0 <= j < s.len() && leaves(#[trigger] s[j]).contains(id),
    decreases s.len(),
{
    if s.len() > 0 {
        let pre = s.subrange(0, s.len() - 1);
        let last = s[s.len() - 1];
        lemma_leaves_seq_contains(pre, id);
        let a = leaves_seq(pre);
        let b = leaves(last);
        assert(leaves_seq(s) == a + b);
        if (a + b).contains(id) {
            let k = choose|k: int| 0 <= k < (a + b).len() && (a + b)[k] == id;
            if k < a.len() {
                assert(a[k] == id);
                let j = choose|j: int| 0 <= j < pre.len() && leaves(#[trigger] pre[j]).contains(id);
                assert(s[j] == pre[j]);
            } else {
                assert(b[k - a.len()] == id);
                assert(leaves(s[s.len() - 1]).contains(id));
            }
        }
        if exists|j: int| 0 <= j < s.len() && leaves(#[trigger] s[j]).contains(id) {
            let j = choose|j: int| 0 <= j < s.len() && leaves(#[trigger] s[j]).contains(id);
            let k = choose|k: int| 0 <= k < leaves(s[j]).len() && leaves(s[j])[k] == id;
            if j < s.len() - 1 {
                assert(pre[j] == s[j]);
                let m = choose|m: int| 0 <= m < a.len() && a[m] == id;
                assert((a + b)[m] == id);
            } else {
                assert((a + b)[a.len() + k] == id);
            }
        }
    }
}

/// A node's layout holds a pane exactly when the node's panes do.
pub proof fn lemma_has_pane_leaves(n: SplitNode, id: u64)
    ensures
        has_pane(layout_of(n), id) == leaves(n).contains(id),
    decreases n,
{
    match n {
        SplitNode::Pane(p) => {
            assert(seq![p][0] == p);
            if seq![p].contains(id) {
                let k = choose|k: int| 0 <= k < seq![p].len() && seq![p][k] == id;
            }
        },
        SplitNode::Split { direction, children } => {
            let ch = children@;
            lemma_layouts_of(ch);
            lemma_has_pane_seq(layouts_of(ch), id);
            lemma_leaves_seq_contains(ch, id);
            assert forall|j: int| 0 <= j < ch.len() implies has_pane(layout_of(#[trigger] ch[j]), id)
                == leaves(ch[j]).contains(id) by {
                assert(decreases_to!(children => children[j]));
                lemma_has_pane_leaves(ch[j], id);
            }
            if has_pane(layout_of(n), id) {
                let j = choose|j: int|
                    0 <= j < ch.len() && has_pane(#[trigger] layouts_of(ch)[j], id);
                assert(leaves(ch[j]).contains(id));
            }
            if leaves(n).contains(id) {
                let j = choose|j: int| 0 <= j < ch.len() && leaves(#[trigger] ch[j]).contains(id);
                assert(has_pane(layouts_of(ch)[j], id));
            }
        },
    }
}

/// Whether some split running in `dir` holds the pane `a` with the pane `b`
/// right after it.
pub open spec fn adjacent_in(l: Layout, dir: SplitDirection, a: u64, b: u64) -> bool
    decreases l,
{
    match l {
        Layout::Pane(_) => false,
        Layout::Split(d, children) => adjacent_seq(d, children, dir, a, b),
    }
}

/// Whether, among the children of a split running in `d`, the pane `a` is
/// followed by the pane `b` when `d` is `dir`, or a child holds such a split.
pub open spec fn adjacent_seq(
    d: SplitDirection,
    s: Seq<Layout>,
    dir: SplitDirection,
    a: u64,
    b: u64,
) -> bool
    decreases s,
{
    s.len() > 0 && ((d == dir && s.len() >= 2 && s[0] == Layout::Pane(a) && s[1] == Layout::Pane(
        b,
    )) || adjacent_in(s[0], dir, a, b) || adjacent_seq(d, s.subrange(1, s.len() as int), dir, a, b))
}

/// A split puts the new pane right after its target inside a split running
/// in the requested direction: Alt+Enter and Alt+Shift+Enter lay panes out
/// side by side and one above the other.
pub proof fn law_split_pane_beside_target(
    l: Layout,
    target: u64,
    dir: SplitDirection,
    pane: u64,
)
    requires
        has_pane(l, target),
    ensures
        adjacent_in(split_layout(l, target, dir, pane), dir, target, pane),
    decreases l,
{
    match l {
        Layout::Pane(id) => {
            let c = seq![Layout::Pane(id), Layout::Pane(pane)];
            assert(c[0] == Layout::Pane(target));
            assert(c[1] == Layout::Pane(pane));
        },
        Layout::Split(d, children) => {
            lemma_split_children_beside(d, children, target, dir, pane);
        },
    }
}

proof fn lemma_split_children_beside(
    d: SplitDirection,
    s: Seq<Layout>,
    target: u64,
    dir: SplitDirection,
    pane: u64,
)
    requires
        has_pane_seq(s, target),
    ensures
        adjacent_seq(d, split_children(d, s, target, dir, pane), dir, target, pane),
    decreases s,
{
    let r = split_children(d, s, target, dir, pane);
    let rest = s.subrange(1, s.len() as int);
    if has_pane(s[0], target) {
        if s[0] == Layout::Pane(target) && d == dir {
            assert(r[0] == Layout::Pane(target));
            assert(r[1] == Layout::Pane(pane));
        } else {
            law_split_pane_beside_target(s[0], target, dir, pane);
            assert(r[0] == split_layout(s[0], target, dir, pane));
        }
    } else {
        lemma_split_children_beside(d, rest, target, dir, pane);
        assert(r.subrange(1, r.len() as int) =~= split_children(d, rest, target, dir, pane));
    }
}

// ---------------------------------------------------------------------------
// Lemmas on the recursive definitions.
// ---------------------------------------------------------------------------

proof fn lemma_leaves_seq_concat(a: Seq<SplitNode>, b: Seq<SplitNode>)
    ensures
        leaves_seq(a + b) == leaves_seq(a) + leaves_seq(b),
    decreases b.len(),
{
    if b.len() == 0 {
        assert(a + b =~= a);
        assert(leaves_seq(b) =~= Seq::<u64>::empty());
        assert(leaves_seq(a) + leaves_seq(b) =~= leaves_seq(a));
    } else {
        let ab = a + b;
        let b1 = b.subrange(0, b.len() - 1);
        assert(ab.subrange(0, ab.len() - 1) =~= a + b1);
        assert(ab[ab.len() - 1] == b[b.len() - 1]);
        lemma_leaves_seq_concat(a, b1);
        assert(leaves_seq(ab) =~= leaves_seq(a) + leaves_seq(b));
    }
}

proof fn lemma_leaves_seq_single(x: SplitNode)
    ensures
        leaves_seq(seq![x]) == leaves(x),
{
    let s = seq![x];
    assert(s.subrange(0, 0) =~= Seq::<SplitNode>::empty());
    assert(leaves_seq(s.subrange(0, 0)) =~= Seq::<u64>::empty());
    assert(s[0] == x);
    assert(leaves_seq(s) =~= leaves(x));
}

/// The panes of `s` split around position `i`.
proof fn lemma_leaves_seq_split(s: Seq<SplitNode>, i: int)
    requires
        0 <= i < s.len(),
    ensures
        leaves_seq(s) == leaves_seq(s.take(i)) + leaves(s[i]) + leaves_seq(s.skip(i + 1)),
        leaves_seq(s.take(i + 1)) == leaves_seq(s.take(i)) + leaves(s[i]),
{
    assert(s =~= s.take(i) + seq![s[i]] + s.skip(i + 1));
    lemma_leaves_seq_concat(s.take(i) + seq![s[i]], s.skip(i + 1));
    lemma_leaves_seq_concat(s.take(i), seq![s[i]]);
    lemma_leaves_seq_single(s[i]);
    assert(s.take(i + 1) =~= s.take(i) + seq![s[i]]);
}

proof fn lemma_min_children_seq_concat(a: Seq<SplitNode>, b: Seq<SplitNode>, k: nat)
    ensures
        min_children_seq(a + b, k) == (min_children_seq(a, k) && min_children_seq(b, k)),
    decreases b.len(),
{
    if b.len() == 0 {
        assert(a + b =~= a);
    } else {
        let ab = a + b;
        let b1 = b.subrange(0, b.len() - 1);
        assert(ab.subrange(0, ab.len() - 1) =~= a + b1);
        assert(ab[ab.len() - 1] == b[b.len() - 1]);
        lemma_min_children_seq_concat(a, b1, k);
    }
}

/// `min_children_seq` holds exactly when it holds of every element.
proof fn lemma_min_children_seq_all(s: Seq<SplitNode>, k: nat)
    ensures
        min_children_seq(s, k) == (forall|i: int| 0 <= i < s.len() ==> min_children(s[i], k)),
    decreases s.len(),
{
    if s.len() > 0 {
        let s1 = s.subrange(0, s.len() - 1);
        lemma_min_children_seq_all(s1, k);
        if min_children_seq(s, k) {
            assert forall|i: int| 0 <= i < s.len() implies min_children(s[i], k) by {
                if i < s.len() - 1 {
                    assert(s1[i] == s[i]);
                }
            }
        }
        if forall|i: int| 0 <= i < s.len() ==> min_children(s[i], k) {
            assert forall|i: int| 0 <= i < s1.len() implies min_children(s1[i], k) by {
                assert(s1[i] == s[i]);
            }
        }
    }
}

/// Two sequences whose elements agree pointwise on panes have the same panes.
proof fn lemma_leaves_seq_pointwise(a: Seq<SplitNode>, b: Seq<SplitNode>)
    requires
        a.len() == b.len(),
        forall|i: int| 0 <= i < a.len() ==> leaves(#[trigger] a[i]) == leaves(b[i]),
    ensures
        leaves_seq(a) == leaves_seq(b),
    decreases a.len(),
{
    if a.len() > 0 {
        let a1 = a.subrange(0, a.len() - 1);
        let b1 = b.subrange(0, b.len() - 1);
        assert forall|i: int| 0 <= i < a1.len() implies leaves(#[trigger] a1[i]) == leaves(
            b1[i],
        ) by {
            assert(a1[i] == a[i]);
            assert(b1[i] == b[i]);
        }
        lemma_leaves_seq_pointwise(a1, b1);
    }
}

proof fn lemma_min_children_mono(n: SplitNode, k: nat, j: nat)
    requires
        min_children(n, k),
        j <= k,
    ensures
        min_children(n, j),
    decreases n,
{
    match n {
        SplitNode::Pane(_) => {},
        SplitNode::Split { children, .. } => {
            lemma_min_children_seq_all(children@, k);
            lemma_min_children_seq_all(children@, j);
            assert forall|i: int| 0 <= i < children@.len() implies min_children(
                children@[i],
                j,
            ) by {
                lemma_min_children_mono(children@[i], k, j);
            }
        },
    }
}

/// The sub-sequence `b` of a duplicate-free `a + b + c` is duplicate-free and
/// shares no element with `a` or `c`.
proof fn lemma_no_dup_middle(a: Seq<u64>, b: Seq<u64>, c: Seq<u64>)
    requires
        (a + b + c).no_duplicates(),
    ensures
        b.no_duplicates(),
        forall|x: u64| b.contains(x) ==> !a.contains(x) && !c.contains(x),
{
    let s = a + b + c;
    assert forall|i: int, j: int| 0 <= i < b.len() && 0 <= j < b.len() && i != j implies b[i]
        != b[j] by {
        assert(s[a.len() + i] == b[i]);
        assert(s[a.len() + j] == b[j]);
    }
    assert forall|x: u64| b.contains(x) implies !a.contains(x) && !c.contains(x) by {
        let i = choose|i: int| 0 <= i < b.len() && b[i] == x;
        assert(s[a.len() + i] == x);
        if a.contains(x) {
            let j = choose|j: int| 0 <= j < a.len() && a[j] == x;
            assert(s[j] == x);
        }
        if c.contains(x) {
            let j = choose|j: int| 0 <= j < c.len() && c[j] == x;
            assert(s[a.len() + b.len() + j] == x);
        }
    }
}

/// In a duplicate-free sequence, `index_of` names the one position holding `x`.
proof fn lemma_index_of_unique(s: Seq<u64>, x: u64, i: int)
    requires
        s.no_duplicates(),
        0 <= i < s.len(),
        s[i] == x,
    ensures
        s.index_of(x) == i,
{
    assert(s.contains(x));
    let j = s.index_of(x);
    assert(0 <= j < s.len() && s[j] == x);
}

/// Inserting after `target` inside the middle part of a duplicate-free
/// sequence is inserting after `target` in the whole.
proof fn lemma_insert_after(a: Seq<u64>, m: Seq<u64>, c: Seq<u64>, target: u64, pane: u64)
    requires
        (a + m + c).no_duplicates(),
        m.contains(target),
    ensures
        a + m.insert(m.index_of(target) + 1, pane) + c == (a + m + c).insert(
            (a + m + c).index_of(target) + 1,
            pane,
        ),
{
    let j = m.index_of(target);
    let s = a + m + c;
    assert(s[a.len() + j] == target);
    lemma_index_of_unique(s, target, a.len() + j);
    assert(a + m.insert(j + 1, pane) + c =~= s.insert(a.len() + j + 1, pane));
}

/// Removing `target` inside the middle part of a duplicate-free sequence is
/// removing it from the whole.
proof fn lemma_remove_inside(a: Seq<u64>, m: Seq<u64>, c: Seq<u64>, target: u64)
    requires
        (a + m + c).no_duplicates(),
        m.contains(target),
    ensures
        a + m.remove(m.index_of(target)) + c == (a + m + c).remove(
            (a + m + c).index_of(target),
        ),
{
    let j = m.index_of(target);
    let s = a + m + c;
    assert(s[a.len() + j] == target);
    lemma_index_of_unique(s, target, a.len() + j);
    assert(a + m.remove(j) + c =~= s.remove(a.len() + j));
}

// ---------------------------------------------------------------------------
// Operations on nodes.
// ---------------------------------------------------------------------------

impl SplitNode {
    #[verifier::loop_isolation(false)]
    fn pane_count(&self) -> (r: usize)
        requires
            leaves(*self).len() <= usize::MAX,
        ensures
            r == leaves(*self).len(),
        decreases self,
    {
        match self {
            SplitNode::Pane(_) => 1,
            SplitNode::Split { children, .. } => {
                let mut total: usize = 0;
                let mut i: usize = 0;
                while i < children.len()
                    invariant
                        i <= children@.len(),
                        leaves_seq(children@).len() <= usize::MAX,
                        total == leaves_seq(children@.take(i as int)).len(),
                    decreases children@.len() - i,
                {
                    proof {
                        lemma_leaves_seq_split(children@, i as int);
                        lemma_leaves_seq_concat(
                            children@.take(i as int + 1),
                            children@.skip(i as int + 1),
                        );
                        assert(children@ =~= children@.take(i as int + 1) + children@.skip(
                            i as int + 1,
                        ));
                    }
                    assert(decreases_to!(*children => children[i as int]));
                    let c = children[i].pane_count();
                    total = total + c;
                    i = i + 1;
                }
                assert(children@.take(i as int) =~= children@);
                total
            },
        }
    }

    #[verifier::loop_isolation(false)]
    fn collect_panes(&self, panes: &mut Vec<u64>)
        ensures
            final(panes)@ == old(panes)@ + leaves(*self),
        decreases self,
    {
        match self {
            SplitNode::Pane(pane) => {
                panes.push(*pane);
            },
            SplitNode::Split { children, .. } => {
                let mut i: usize = 0;
                while i < children.len()
                    invariant
                        i <= children@.len(),
                        panes@ == old(panes)@ + leaves_seq(children@.take(i as int)),
                    decreases children@.len() - i,
                {
                    proof {
                        lemma_leaves_seq_split(children@, i as int);
                    }
                    assert(decreases_to!(*children => children[i as int]));
                    children[i].collect_panes(panes);
                    i = i + 1;
                }
                assert(children@.take(i as int) =~= children@);
            },
        }
    }
}

proof fn lemma_not_contains_concat(a: Seq<u64>, b: Seq<u64>, x: u64)
    requires
        !a.contains(x),
        !b.contains(x),
    ensures
        !(a + b).contains(x),
{
    if (a + b).contains(x) {
        let k = choose|k: int| 0 <= k < (a + b).len() && (a + b)[k] == x;
        if k < a.len() {
            assert(a[k] == x);
        } else {
            assert(b[k - a.len()] == x);
        }
    }
}

/// Children that agree pointwise on panes: the panes around position `i`.
proof fn lemma_pointwise_parts(cur: Seq<SplitNode>, old: Seq<SplitNode>, i: int)
    requires
        0 <= i < cur.len(),
        cur.len() == old.len(),
        forall|j: int| 0 <= j < old.len() ==> leaves(#[trigger] cur[j]) == leaves(old[j]),
    ensures
        leaves_seq(old) == leaves_seq(cur.take(i)) + leaves(cur[i]) + leaves_seq(cur.skip(i + 1)),
        leaves_seq(old.take(i + 1)) == leaves_seq(cur.take(i)) + leaves(cur[i]),
        leaves_seq(cur) == leaves_seq(old),
        leaves_seq(cur.take(i)) == leaves_seq(old.take(i)),
{
    lemma_leaves_seq_split(old, i);
    lemma_leaves_seq_pointwise(cur.take(i), old.take(i));
    lemma_leaves_seq_pointwise(cur.skip(i + 1), old.skip(i + 1));
    lemma_leaves_seq_pointwise(cur, old);
    assert(leaves(cur[i]) == leaves(old[i]));
}

/// Adding `pane` as a sibling right after the pane child `target` at `i`.
proof fn lemma_insert_sibling(
    cur: Seq<SplitNode>,
    old: Seq<SplitNode>,
    i: int,
    target: u64,
    pane: u64,
)
    requires
        0 <= i < cur.len(),
        cur.len() == old.len(),
        forall|j: int| 0 <= j < old.len() ==> leaves(#[trigger] cur[j]) == leaves(old[j]),
        leaves_seq(old).no_duplicates(),
        cur[i] == SplitNode::Pane(target),
    ensures
        leaves_seq(old).contains(target),
        leaves_seq(cur.insert(i + 1, SplitNode::Pane(pane))) == leaves_seq(old).insert(
            leaves_seq(old).index_of(target) + 1,
            pane,
        ),
{
    lemma_pointwise_parts(cur, old, i);
    let new = cur.insert(i + 1, SplitNode::Pane(pane));
    let a = leaves_seq(cur.take(i));
    let c = leaves_seq(cur.skip(i + 1));
    assert(new =~= cur.take(i + 1) + seq![SplitNode::Pane(pane)] + cur.skip(i + 1));
    lemma_leaves_seq_concat(cur.take(i + 1) + seq![SplitNode::Pane(pane)], cur.skip(i + 1));
    lemma_leaves_seq_concat(cur.take(i + 1), seq![SplitNode::Pane(pane)]);
    lemma_leaves_seq_single(SplitNode::Pane(pane));
    lemma_leaves_seq_split(cur, i);
    assert(seq![target][0] == target);
    assert(leaves(cur[i]) == seq![target]);
    assert((a + seq![target] + c)[a.len() as int] == target);
    lemma_insert_after(a, seq![target], c, target, pane);
    lemma_index_of_unique(seq![target], target, 0);
    assert(seq![target].insert(1, pane) =~= seq![target, pane]);
    assert(a + seq![target, pane] + c =~= a + seq![target] + seq![pane] + c);
}

/// Replacing the child at `i` by one that has `pane` after `target`.
proof fn lemma_replace_child(
    cur: Seq<SplitNode>,
    old: Seq<SplitNode>,
    i: int,
    x: SplitNode,
    target: u64,
    pane: u64,
)
    requires
        0 <= i < cur.len(),
        cur.len() == old.len(),
        forall|j: int| 0 <= j < old.len() ==> leaves(#[trigger] cur[j]) == leaves(old[j]),
        leaves_seq(old).no_duplicates(),
        leaves(cur[i]).contains(target),
        leaves(x) == leaves(cur[i]).insert(leaves(cur[i]).index_of(target) + 1, pane),
    ensures
        leaves_seq(old).contains(target),
        leaves_seq(cur.update(i, x)) == leaves_seq(old).insert(
            leaves_seq(old).index_of(target) + 1,
            pane,
        ),
{
    lemma_pointwise_parts(cur, old, i);
    let new = cur.update(i, x);
    assert(new.take(i) =~= cur.take(i));
    assert(new.skip(i + 1) =~= cur.skip(i + 1));
    lemma_leaves_seq_split(new, i);
    let a = leaves_seq(cur.take(i));
    let m = leaves(cur[i]);
    let c = leaves_seq(cur.skip(i + 1));
    lemma_insert_after(a, m, c, target, pane);
    assert((a + m + c)[a.len() + m.index_of(target)] == target);
}

/// Children stay split-rich when one is replaced or a pane is added.
proof fn lemma_children_rich_update(cur: Seq<SplitNode>, i: int, x: SplitNode)
    requires
        0 <= i <= cur.len(),
        forall|j: int| 0 <= j < cur.len() ==> min_children(#[trigger] cur[j], 2),
        min_children(x, 2),
    ensures
        i < cur.len() ==> min_children_seq(cur.update(i, x), 2),
        min_children_seq(cur.insert(i, x), 2),
{
    let u = cur.update(i, x);
    let n = cur.insert(i, x);
    lemma_min_children_seq_all(u, 2);
    lemma_min_children_seq_all(n, 2);
    assert forall|j: int| i < cur.len() && 0 <= j < u.len() implies min_children(u[j], 2) by {
        if j != i {
            assert(u[j] == cur[j]);
        }
    }
    assert forall|j: int| 0 <= j < n.len() implies min_children(n[j], 2) by {
        if j > i {
            assert(n[j] == cur[j - 1]);
        } else if j < i {
            assert(n[j] == cur[j]);
        }
    }
}

impl SplitNode {
    /// Puts `pane` right after `target`: beside it in the enclosing split when
    /// that split runs in `direction`, else in a new split replacing `target`.
    #[verifier::loop_isolation(false)]
    #[verifier::spinoff_prover]
    #[verifier::rlimit(60)]
    fn split_pane(&mut self, target: u64, direction: SplitDirection, pane: u64) -> (r: bool)
        requires
            leaves(*old(self)).no_duplicates(),
        ensures
            r == leaves(*old(self)).contains(target),
            r ==> leaves(*final(self)) == leaves(*old(self)).insert(
                leaves(*old(self)).index_of(target) + 1,
                pane,
            ),
            !r ==> leaves(*final(self)) == leaves(*old(self)),
            min_children(*old(self), 2) ==> min_children(*final(self), 2),
            r == has_pane(layout_of(*old(self)), target),
            layout_of(*final(self)) == split_layout(layout_of(*old(self)), target, direction, pane),
        decreases *old(self),
    {
        match self {
            SplitNode::Pane(existing) => {
                if *existing == target {
                    let existing_id = *existing;
                    *self = SplitNode::Split {
                        direction,
                        children: vec![SplitNode::Pane(existing_id), SplitNode::Pane(pane)],
                    };
                    proof {
                        let ch = seq![SplitNode::Pane(existing_id), SplitNode::Pane(pane)];
                        lemma_leaves_seq_split(ch, 1);
                        lemma_leaves_seq_split(ch, 0);
                        assert(ch.take(1).take(0) =~= Seq::<SplitNode>::empty());
                        assert(ch.take(0) =~= Seq::<SplitNode>::empty());
                        assert(ch.skip(2) =~= Seq::<SplitNode>::empty());
                        assert(leaves_seq(Seq::<SplitNode>::empty()) =~= Seq::<u64>::empty());
                        assert(seq![existing_id][0] == target);
                        assert(seq![existing_id].contains(target));
                        lemma_index_of_unique(seq![existing_id], target, 0);
                        assert(leaves_seq(ch) =~= seq![existing_id].insert(1, pane));
                        lemma_min_children_seq_all(ch, 2);
                        lemma_layouts_of(ch);
                        assert(layouts_of(ch) =~= seq![
                            Layout::Pane(existing_id),
                            Layout::Pane(pane),
                        ]);
                    }
                    true
                } else {
                    proof {
                        let l = seq![*existing];
                        if l.contains(target) {
                            let k = choose|k: int| 0 <= k < l.len() && l[k] == target;
                            assert(l[k] == *existing);
                        }
                    }
                    false
                }
            },
            SplitNode::Split { direction: split_direction, children } => {
                let ghost old_children = children@;
                let ghost old_vec = *children;
                let ghost old_wf = min_children(*old(self), 2);
                let ghost d = *split_direction;
                let ghost old_layouts = layouts_of(old_children);
                proof {
                    lemma_min_children_seq_all(old_children, 2);
                    lemma_layouts_of(old_children);
                }
                let mut index: usize = 0;
                while index < children.len()
                    invariant
                        children@.len() == old_children.len(),
                        index <= children@.len(),
                        forall|j: int|
                            0 <= j < old_children.len() ==> leaves(#[trigger] children@[j])
                                == leaves(old_children[j]),
                        old_wf ==> forall|j: int|
                            0 <= j < old_children.len() ==> min_children(
                                #[trigger] children@[j],
                                2,
                            ),
                        forall|j: int|
                            0 <= j < index ==> !has_pane(#[trigger] old_layouts[j], target),
                        forall|j: int|
                            0 <= j < index ==> layout_of(#[trigger] children@[j])
                                == old_layouts[j],
                        d == *split_direction,
                        old_layouts == layouts_of(old_children),
                        old_layouts.len() == old_children.len(),
                        forall|j: int|
                            0 <= j < old_children.len() ==> #[trigger] old_layouts[j] == layout_of(
                                old_children[j],
                            ),
                        !leaves_seq(old_children.take(index as int)).contains(target),
                        leaves_seq(old_children).no_duplicates(),
                        forall|j: int|
                            index <= j < old_children.len() ==> #[trigger] children@[j]
                                == old_children[j],
                        old_vec@ == old_children,
                    decreases old_children.len() - index,
                {
                    let ghost cur = children@;
                    proof {
                        lemma_pointwise_parts(cur, old_children, index as int);
                        lemma_no_dup_middle(
                            leaves_seq(cur.take(index as int)),
                            leaves(cur[index as int]),
                            leaves_seq(cur.skip(index as int + 1)),
                        );
                    }
                    let is_target = match &children[index] {
                        SplitNode::Pane(id) => *id == target,
                        _ => false,
                    };
                    if is_target && *split_direction == direction {
                        children.insert(index + 1, SplitNode::Pane(pane));
                        proof {
                            let i = index as int;
                            let new = children@;
                            lemma_layouts_of(cur);
                            lemma_layouts_of(new);
                            assert(layouts_of(cur) =~= old_layouts);
                            assert(layouts_of(new) =~= old_layouts.insert(i + 1, Layout::Pane(pane)));
                            lemma_split_children_prefix(d, old_layouts, target, direction, pane, i);
                            let rest = old_layouts.skip(i);
                            assert(rest[0] == Layout::Pane(target));
                            assert(has_pane(rest[0], target));
                            assert(old_layouts.take(i) + rest.insert(1, Layout::Pane(pane))
                                =~= old_layouts.insert(i + 1, Layout::Pane(pane)));
                            lemma_has_pane_seq(old_layouts, target);
                            assert(has_pane(old_layouts[i], target));
                            lemma_insert_sibling(cur, old_children, index as int, target, pane);
                            if old_wf {
                                lemma_children_rich_update(
                                    cur,
                                    index as int + 1,
                                    SplitNode::Pane(pane),
                                );
                            }
                        }
                        return true;
                    }
                    assert(decreases_to!(old_vec => old_vec[index as int]));
                    assert(old_vec[index as int] == children@[index as int]);
                    if children[index].split_pane(target, direction, pane) {
                        proof {
                            let i = index as int;
                            let new = children@;
                            let x = layout_of(new[i]);
                            lemma_layouts_of(cur);
                            lemma_layouts_of(new);
                            assert(layouts_of(cur) =~= old_layouts);
                            assert(layouts_of(new) =~= old_layouts.update(i, x));
                            lemma_split_children_prefix(d, old_layouts, target, direction, pane, i);
                            let rest = old_layouts.skip(i);
                            assert(rest[0] == old_layouts[i]);
                            assert(!(rest[0] == Layout::Pane(target) && d == direction));
                            assert(old_layouts.take(i) + rest.update(0, x) =~= old_layouts.update(
                                i,
                                x,
                            ));
                            lemma_has_pane_seq(old_layouts, target);
                            lemma_replace_child(
                                cur,
                                old_children,
                                index as int,
                                children@[index as int],
                                target,
                                pane,
                            );
                            assert(children@ =~= cur.update(index as int, children@[index as int]));
                            if old_wf {
                                lemma_children_rich_update(
                                    cur,
                                    index as int,
                                    children@[index as int],
                                );
                            }
                        }
                        return true;
                    }
                    proof {
                        let new = children@;
                        lemma_split_absent(old_layouts[index as int], target, direction, pane);
                        lemma_not_contains_concat(
                            leaves_seq(cur.take(index as int)),
                            leaves(cur[index as int]),
                            target,
                        );
                        assert forall|j: int| 0 <= j < old_children.len() implies leaves(
                            #[trigger] new[j],
                        ) == leaves(old_children[j]) by {
                            if j != index as int {
                                assert(new[j] == cur[j]);
                            }
                        }
                        if old_wf {
                            assert forall|j: int| 0 <= j < old_children.len() implies min_children(
                                #[trigger] new[j],
                                2,
                            ) by {
                                if j != index as int {
                                    assert(new[j] == cur[j]);
                                }
                            }
                        }
                    }
                    index = index + 1;
                }
                proof {
                    assert(old_children.take(index as int) =~= old_children);
                    lemma_leaves_seq_pointwise(children@, old_children);
                    if old_wf {
                        lemma_min_children_seq_all(children@, 2);
                    }
                    lemma_layouts_of(children@);
                    assert(layouts_of(children@) =~= old_layouts);
                    lemma_has_pane_seq(old_layouts, target);
                    lemma_split_children_absent(d, old_layouts, target, direction, pane);
                }
                false
            },
        }
    }
}

/// Dropping the pane child `target` at position `i`.
proof fn lemma_remove_child(cur: Seq<SplitNode>, old: Seq<SplitNode>, i: int, target: u64)
    requires
        0 <= i < cur.len(),
        cur.len() == old.len(),
        forall|j: int| 0 <= j < old.len() ==> leaves(#[trigger] cur[j]) == leaves(old[j]),
        leaves_seq(old).no_duplicates(),
        cur[i] == SplitNode::Pane(target),
    ensures
        leaves_seq(old).contains(target),
        leaves_seq(cur.remove(i)) == leaves_seq(old).remove(leaves_seq(old).index_of(target)),
{
    lemma_pointwise_parts(cur, old, i);
    let a = leaves_seq(cur.take(i));
    let c = leaves_seq(cur.skip(i + 1));
    assert(cur.remove(i) =~= cur.take(i) + cur.skip(i + 1));
    lemma_leaves_seq_concat(cur.take(i), cur.skip(i + 1));
    assert(seq![target][0] == target);
    assert(leaves(cur[i]) == seq![target]);
    assert((a + seq![target] + c)[a.len() as int] == target);
    lemma_remove_inside(a, seq![target], c, target);
    lemma_index_of_unique(seq![target], target, 0);
    assert(seq![target].remove(0) =~= Seq::<u64>::empty());
    assert(a + Seq::<u64>::empty() + c =~= a + c);
}

/// Replacing the child at `i` by one without `target`.
proof fn lemma_replace_child_removed(
    cur: Seq<SplitNode>,
    old: Seq<SplitNode>,
    i: int,
    x: SplitNode,
    target: u64,
)
    requires
        0 <= i < cur.len(),
        cur.len() == old.len(),
        forall|j: int| 0 <= j < old.len() ==> leaves(#[trigger] cur[j]) == leaves(old[j]),
        leaves_seq(old).no_duplicates(),
        leaves(cur[i]).contains(target),
        leaves(x) == leaves(cur[i]).remove(leaves(cur[i]).index_of(target)),
    ensures
        leaves_seq(old).contains(target),
        leaves_seq(cur.update(i, x)) == leaves_seq(old).remove(leaves_seq(old).index_of(target)),
{
    lemma_pointwise_parts(cur, old, i);
    let new = cur.update(i, x);
    assert(new.take(i) =~= cur.take(i));
    assert(new.skip(i + 1) =~= cur.skip(i + 1));
    lemma_leaves_seq_split(new, i);
    let a = leaves_seq(cur.take(i));
    let m = leaves(cur[i]);
    let c = leaves_seq(cur.skip(i + 1));
    lemma_remove_inside(a, m, c, target);
    assert((a + m + c)[a.len() + m.index_of(target)] == target);
}

/// Children keep at least one child each after a removal.
proof fn lemma_children_after_removal(cur: Seq<SplitNode>, i: int)
    requires
        0 <= i < cur.len(),
        forall|j: int| 0 <= j < cur.len() && j != i ==> min_children(#[trigger] cur[j], 2),
    ensures
        forall|j: int| 0 <= j < cur.len() && j != i ==> min_children(#[trigger] cur[j], 1),
        min_children_seq(cur.remove(i), 1),
{
    let n = cur.remove(i);
    assert forall|j: int| 0 <= j < cur.len() && j != i implies min_children(
        #[trigger] cur[j],
        1,
    ) by {
        lemma_min_children_mono(cur[j], 2, 1);
    }
    lemma_min_children_seq_all(n, 1);
    assert forall|j: int| 0 <= j < n.len() implies min_children(n[j], 1) by {
        if j >= i {
            assert(n[j] == cur[j + 1]);
        } else {
            assert(n[j] == cur[j]);
        }
    }
}

impl SplitNode {
    /// Removes the pane `target` from the splits below this node; a lone pane
    /// is never removed.
    #[verifier::loop_isolation(false)]
    fn remove_pane(&mut self, target: u64) -> (r: bool)
        requires
            leaves(*old(self)).no_duplicates(),
        ensures
            r == (*old(self) is Split && leaves(*old(self)).contains(target)),
            r ==> leaves(*final(self)) == leaves(*old(self)).remove(
                leaves(*old(self)).index_of(target),
            ),
            !r ==> leaves(*final(self)) == leaves(*old(self)),
            min_children(*old(self), 2) ==> min_children(*final(self), 1),
            !r && min_children(*old(self), 2) ==> min_children(*final(self), 2),
            layout_of(*final(self)) == remove_layout(layout_of(*old(self)), target),
        decreases *old(self),
    {
        match self {
            SplitNode::Pane(_) => false,
            SplitNode::Split { children, .. } => {
                let ghost old_children = children@;
                let ghost old_vec = *children;
                let ghost old_wf = min_children(*old(self), 2);
                let ghost old_layouts = layouts_of(old_children);
                proof {
                    lemma_min_children_seq_all(old_children, 2);
                    lemma_layouts_of(old_children);
                }
                // A pane directly under this split is removed here.
                let mut pos: usize = 0;
                let mut found = false;
                while pos < children.len()
                    invariant
                        children@ == old_children,
                        pos <= children@.len(),
                        found ==> pos < children@.len() && children@[pos as int]
                            == SplitNode::Pane(target),
                        forall|j: int|
                            0 <= j < pos ==> old_children[j] != SplitNode::Pane(target),
                    decreases children@.len() - pos + (if found {
                        0int
                    } else {
                        1int
                    }),
                {
                    let hit = match &children[pos] {
                        SplitNode::Pane(id) => *id == target,
                        _ => false,
                    };
                    if hit {
                        found = true;
                        break;
                    }
                    pos = pos + 1;
                }
                if found {
                    children.remove(pos);
                    proof {
                        let p = pos as int;
                        lemma_pane_index_from(old_layouts, target, 0);
                        assert(old_layouts[p] == Layout::Pane(target));
                        assert forall|j: int| 0 <= j < p implies old_layouts[j] != Layout::Pane(
                            target,
                        ) by {
                            assert(old_children[j] != SplitNode::Pane(target));
                        }
                        assert(pane_index_from(old_layouts, target, 0) == p);
                        lemma_layouts_of(children@);
                        assert(layouts_of(children@) =~= old_layouts.remove(p));
                        assert forall|j: int| 0 <= j < old_children.len() implies leaves(
                            #[trigger] old_children[j],
                        ) == leaves(old_children[j]) by {}
                        lemma_remove_child(old_children, old_children, pos as int, target);
                        if old_wf {
                            lemma_children_after_removal(old_children, pos as int);
                        }
                    }
                    return true;
                }
                let mut index: usize = 0;
                while index < children.len()
                    invariant
                        children@.len() == old_children.len(),
                        index <= children@.len(),
                        forall|j: int|
                            0 <= j < old_children.len() ==> leaves(#[trigger] children@[j])
                                == leaves(old_children[j]),
                        old_wf ==> forall|j: int|
                            0 <= j < old_children.len() ==> min_children(
                                #[trigger] children@[j],
                                2,
                            ),
                        forall|j: int|
                            0 <= j < old_children.len() ==> old_children[j] != SplitNode::Pane(
                                target,
                            ),
                        old_layouts == layouts_of(old_children),
                        old_layouts.len() == old_children.len(),
                        forall|j: int|
                            0 <= j < old_children.len() ==> #[trigger] old_layouts[j] == layout_of(
                                old_children[j],
                            ),
                        forall|j: int|
                            0 <= j < index ==> !has_pane(#[trigger] old_layouts[j], target),
                        forall|j: int|
                            0 <= j < index ==> layout_of(#[trigger] children@[j])
                                == old_layouts[j],
                        !leaves_seq(old_children.take(index as int)).contains(target),
                        leaves_seq(old_children).no_duplicates(),
                        forall|j: int|
                            index <= j < old_children.len() ==> #[trigger] children@[j]
                                == old_children[j],
                        old_vec@ == old_children,
                    decreases old_children.len() - index,
                {
                    let ghost cur = children@;
                    proof {
                        lemma_pointwise_parts(cur, old_children, index as int);
                        lemma_no_dup_middle(
                            leaves_seq(cur.take(index as int)),
                            leaves(cur[index as int]),
                            leaves_seq(cur.skip(index as int + 1)),
                        );
                    }
                    assert(decreases_to!(old_vec => old_vec[index as int]));
                    assert(old_vec[index as int] == children@[index as int]);
                    if children[index].remove_pane(target) {
                        proof {
                            let i = index as int;
                            let new = children@;
                            let x = layout_of(new[i]);
                            lemma_has_pane_leaves(cur[i], target);
                            lemma_layouts_of(cur);
                            lemma_layouts_of(new);
                            assert(layouts_of(new) =~= old_layouts.update(i, x));
                            lemma_pane_index_from(old_layouts, target, 0);
                            assert(pane_index_from(old_layouts, target, 0) < 0) by {
                                if pane_index_from(old_layouts, target, 0) >= 0 {
                                    let k = pane_index_from(old_layouts, target, 0);
                                    assert(old_children[k] != SplitNode::Pane(target));
                                }
                            }
                            lemma_remove_nested_prefix(old_layouts, target, i);
                            let rest = old_layouts.skip(i);
                            assert(rest[0] == old_layouts[i]);
                            assert(old_layouts.take(i) + rest.update(0, x) =~= old_layouts.update(
                                i,
                                x,
                            ));
                            lemma_replace_child_removed(
                                cur,
                                old_children,
                                index as int,
                                children@[index as int],
                                target,
                            );
                            assert(children@ =~= cur.update(index as int, children@[index as int]));
                            if old_wf {
                                let n = children@;
                                lemma_min_children_seq_all(n, 1);
                                assert forall|j: int| 0 <= j < n.len() implies min_children(
                                    n[j],
                                    1,
                                ) by {
                                    if j != index as int {
                                        assert(n[j] == cur[j]);
                                        lemma_min_children_mono(n[j], 2, 1);
                                    }
                                }
                            }
                        }
                        return true;
                    }
                    proof {
                        let new = children@;
                        lemma_has_pane_leaves(cur[index as int], target);
                        if cur[index as int] is Split {
                            lemma_remove_absent(old_layouts[index as int], target);
                        }
                        if leaves(cur[index as int]).contains(target) {
                            assert(cur[index as int] == old_children[index as int]);
                            assert(cur[index as int] is Pane);
                            let id = cur[index as int]->Pane_0;
                            assert(leaves(cur[index as int]) == seq![id]);
                            assert(seq![id][0] == id);
                            let k = choose|k: int|
                                0 <= k < seq![id].len() && seq![id][k] == target;
                            assert(id == target);
                        }
                        lemma_not_contains_concat(
                            leaves_seq(cur.take(index as int)),
                            leaves(cur[index as int]),
                            target,
                        );
                        assert forall|j: int| 0 <= j < old_children.len() implies leaves(
                            #[trigger] new[j],
                        ) == leaves(old_children[j]) by {
                            if j != index as int {
                                assert(new[j] == cur[j]);
                            }
                        }
                        if old_wf {
                            assert forall|j: int| 0 <= j < old_children.len() implies min_children(
                                #[trigger] new[j],
                                2,
                            ) by {
                                if j != index as int {
                                    assert(new[j] == cur[j]);
                                }
                            }
                        }
                    }
                    index = index + 1;
                }
                proof {
                    assert(old_children.take(index as int) =~= old_children);
                    lemma_leaves_seq_pointwise(children@, old_children);
                    lemma_layouts_of(children@);
                    assert(layouts_of(children@) =~= old_layouts);
                    lemma_has_pane_seq(old_layouts, target);
                    lemma_remove_nested_absent(old_layouts, target);
                    lemma_pane_index_from(old_layouts, target, 0);
                    assert(pane_index_from(old_layouts, target, 0) < 0) by {
                        if pane_index_from(old_layouts, target, 0) >= 0 {
                            let k = pane_index_from(old_layouts, target, 0);
                            assert(old_children[k] != SplitNode::Pane(target));
                        }
                    }
                    if old_wf {
                        let n = children@;
                        lemma_min_children_seq_all(n, 2);
                        lemma_min_children_seq_all(n, 1);
                        assert forall|j: int| 0 <= j < n.len() implies min_children(n[j], 1) by {
                            lemma_min_children_mono(n[j], 2, 1);
                        }
                    }
                }
                false
            },
        }
    }

    /// Replaces every split holding a single child by that child.
    #[verifier::loop_isolation(false)]
    fn collapse_single_child_splits(&mut self)
        requires
            min_children(*old(self), 1),
        ensures
            leaves(*final(self)) == leaves(*old(self)),
            min_children(*final(self), 2),
            layout_of(*final(self)) == collapse_layout(layout_of(*old(self))),
        decreases *old(self),
    {
        match self {
            SplitNode::Pane(_) => {},
            SplitNode::Split { children, .. } => {
                let ghost old_children = children@;
                let ghost old_vec = *children;
                let ghost old_layouts = layouts_of(old_children);
                proof {
                    lemma_min_children_seq_all(old_children, 1);
                    lemma_layouts_of(old_children);
                }
                let mut index: usize = 0;
                while index < children.len()
                    invariant
                        children@.len() == old_children.len(),
                        index <= children@.len(),
                        forall|j: int|
                            0 <= j < old_children.len() ==> leaves(#[trigger] children@[j])
                                == leaves(old_children[j]),
                        forall|j: int| 0 <= j < index ==> min_children(#[trigger] children@[j], 2),
                        forall|j: int|
                            index <= j < old_children.len() ==> #[trigger] children@[j]
                                == old_children[j],
                        forall|j: int| 0 <= j < old_children.len() ==> min_children(#[trigger] old_children[j], 1),
                        old_vec@ == old_children,
                        old_layouts == layouts_of(old_children),
                        old_layouts.len() == old_children.len(),
                        forall|j: int|
                            0 <= j < old_children.len() ==> #[trigger] old_layouts[j] == layout_of(
                                old_children[j],
                            ),
                        forall|j: int|
                            0 <= j < index ==> layout_of(#[trigger] children@[j]) == collapse_layout(
                                old_layouts[j],
                            ),
                    decreases old_children.len() - index,
                {
                    let ghost cur = children@;
                    assert(decreases_to!(old_vec => old_vec[index as int]));
                    assert(old_vec[index as int] == children@[index as int]);
                    children[index].collapse_single_child_splits();
                    proof {
                        let new = children@;
                        assert forall|j: int| 0 <= j <= index implies layout_of(#[trigger] new[j])
                            == collapse_layout(old_layouts[j]) by {
                            if j != index as int {
                                assert(new[j] == cur[j]);
                            }
                        }
                        assert forall|j: int| 0 <= j < old_children.len() implies leaves(
                            #[trigger] new[j],
                        ) == leaves(old_children[j]) by {
                            if j != index as int {
                                assert(new[j] == cur[j]);
                            }
                        }
                        assert forall|j: int| 0 <= j <= index implies min_children(
                            #[trigger] new[j],
                            2,
                        ) by {
                            if j != index as int {
                                assert(new[j] == cur[j]);
                            }
                        }
                    }
                    index = index + 1;
                }
                proof {
                    lemma_leaves_seq_pointwise(children@, old_children);
                    lemma_min_children_seq_all(children@, 2);
                    lemma_layouts_of(children@);
                    lemma_collapse_seq(old_layouts);
                    assert(layouts_of(children@) =~= collapse_seq(old_layouts));
                }
                if children.len() == 1 {
                    let ghost only = children@[0];
                    proof {
                        lemma_leaves_seq_split(children@, 0);
                        assert(children@.take(0) =~= Seq::<SplitNode>::empty());
                        assert(children@.skip(1) =~= Seq::<SplitNode>::empty());
                        assert(leaves_seq(Seq::<SplitNode>::empty()) =~= Seq::<u64>::empty());
                        assert(leaves_seq(children@) =~= leaves(only));
                    }
                    *self = children.remove(0);
                }
            },
        }
    }
}

proof fn lemma_no_dup_insert(s: Seq<u64>, k: int, x: u64)
    requires
        s.no_duplicates(),
        !s.contains(x),
        0 <= k <= s.len(),
    ensures
        s.insert(k, x).no_duplicates(),
        s.insert(k, x).contains(x),
        forall|y: u64| s.contains(y) ==> s.insert(k, x).contains(y),
{
    let n = s.insert(k, x);
    assert(n[k] == x);
    assert forall|i: int, j: int| 0 <= i < n.len() && 0 <= j < n.len() && i != j implies n[i]
        != n[j] by {
        if i == k {
            if j < k {
                assert(n[j] == s[j]);
            } else {
                assert(n[j] == s[j - 1]);
            }
        } else if j == k {
            if i < k {
                assert(n[i] == s[i]);
            } else {
                assert(n[i] == s[i - 1]);
            }
        } else {
            let si = if i < k {
                i
            } else {
                i - 1
            };
            let sj = if j < k {
                j
            } else {
                j - 1
            };
            assert(n[i] == s[si]);
            assert(n[j] == s[sj]);
        }
    }
    assert forall|y: u64| s.contains(y) implies n.contains(y) by {
        let i = choose|i: int| 0 <= i < s.len() && s[i] == y;
        if i < k {
            assert(n[i] == y);
        } else {
            assert(n[i + 1] == y);
        }
    }
}

proof fn lemma_no_dup_remove(s: Seq<u64>, k: int)
    requires
        s.no_duplicates(),
        0 <= k < s.len(),
    ensures
        s.remove(k).no_duplicates(),
        !s.remove(k).contains(s[k]),
{
    let n = s.remove(k);
    assert forall|i: int, j: int| 0 <= i < n.len() && 0 <= j < n.len() && i != j implies n[i]
        != n[j] by {
        let si = if i < k {
            i
        } else {
            i + 1
        };
        let sj = if j < k {
            j
        } else {
            j + 1
        };
        assert(n[i] == s[si]);
        assert(n[j] == s[sj]);
    }
    if n.contains(s[k]) {
        let i = choose|i: int| 0 <= i < n.len() && n[i] == s[k];
        if i < k {
            assert(n[i] == s[i]);
        } else {
            assert(n[i] == s[i + 1]);
        }
    }
}

/// The pane an operation acts on: the focused pane when one is known, else
/// the remembered active pane.
pub open spec fn focus_target(active: u64, focused: Option<u64>) -> u64 {
    match focused {
        Some(f) => f,
        None => active,
    }
}

/// The first pane, in layout order, whose focus flag is set.
pub open spec fn first_focused(ids: Seq<u64>, flags: Seq<bool>) -> Option<u64>
    decreases ids.len(),
{
    if ids.len() == 0 || flags.len() == 0 {
        None
    } else if flags[0] {
        Some(ids[0])
    } else {
        first_focused(ids.drop_first(), flags.drop_first())
    }
}

/// Where focus goes after the pane at `index` is removed, among `remaining`
/// panes: the pane that took its place, or the new last pane.
pub open spec fn focus_after_removal(index: int, remaining: int) -> int {
    if index < remaining - 1 {
        index
    } else {
        remaining - 1
    }
}

/// Closing `pane_id` among `ids` with `active` as the active pane: the panes
/// left, the active pane after, and the pane to focus. Nothing is closed when
/// `pane_id` is unknown or is the only pane.
pub open spec fn removal(ids: Seq<u64>, active: u64, pane_id: u64) -> (Seq<u64>, u64, Option<u64>) {
    if ids.len() <= 1 || !ids.contains(pane_id) {
        (ids, active, None)
    } else {
        let i = ids.index_of(pane_id);
        let rest = ids.remove(i);
        let f = rest[focus_after_removal(i, rest.len() as int)];
        (rest, f, Some(f))
    }
}

/// The focused pane, when it is one of `ids`.
pub open spec fn focus_within(ids: Seq<u64>, focused: Option<u64>) -> Option<u64> {
    match focused {
        Some(f) => if ids.contains(f) {
            Some(f)
        } else {
            None
        },
        None => None,
    }
}

/// Closing each pane of `exited` in turn, the focused pane taken as active
/// before each close while it remains; the last close's pane to focus.
pub open spec fn removal_run(
    ids: Seq<u64>,
    active: u64,
    exited: Seq<u64>,
    focused: Option<u64>,
    last: Option<u64>,
) -> (Seq<u64>, u64, Option<u64>)
    decreases exited.len(),
{
    if exited.len() == 0 {
        (ids, active, last)
    } else {
        let step = removal(
            ids,
            focus_target(active, focus_within(ids, focused)),
            exited[0],
        );
        removal_run(step.0, step.1, exited.drop_first(), focused, step.2)
    }
}

/// The pane layout of one tab and its active pane.
pub struct Split {
    root: SplitNode,
    active_pane_id: u64,
}

impl Split {
    /// The panes, in layout order.
    pub closed spec fn pane_ids(self) -> Seq<u64> {
        leaves(self.root)
    }

    /// The active pane.
    pub closed spec fn active(self) -> u64 {
        self.active_pane_id
    }

    /// The layout tree: its splits, their directions, and its panes.
    pub closed spec fn tree(self) -> Layout {
        layout_of(self.root)
    }

    /// No split in the layout is empty or holds a single child.
    pub closed spec fn layout_wf(self) -> bool {
        min_children(self.root, 2)
    }

    /// Well-formed: a proper layout of distinct panes that holds the active one.
    pub open spec fn wf(self) -> bool {
        &&& self.layout_wf()
        &&& self.pane_ids().no_duplicates()
        &&& self.pane_ids().contains(self.active())
        &&& self.pane_ids().len() <= usize::MAX
    }

    /// A layout holding the single pane `pane`, which is active.
    pub fn with_pane(pane: u64) -> (r: Self)
        ensures
            r.wf(),
            r.pane_ids() == seq![pane],
            r.active() == pane,
            r.tree() == Layout::Pane(pane),
    {
        let r = Self { active_pane_id: pane, root: SplitNode::Pane(pane) };
        proof {
            assert(seq![pane][0] == pane);
        }
        r
    }

    /// The layout tree, for drawing: its panes are the layout's panes, in
    /// order.
    pub fn layout(&self) -> (r: &SplitNode)
        ensures
            leaves(*r) == self.pane_ids(),
            layout_of(*r) == self.tree(),
    {
        &self.root
    }

    /// Number of panes.
    pub fn pane_count(&self) -> (r: usize)
        requires
            self.wf(),
        ensures
            r == self.pane_ids().len(),
    {
        self.root.pane_count()
    }

    /// The panes, in layout order.
    pub fn panes(&self) -> (r: Vec<u64>)
        ensures
            r@ == self.pane_ids(),
    {
        let mut panes: Vec<u64> = Vec::new();
        self.root.collect_panes(&mut panes);
        assert(panes@ =~= self.pane_ids());
        panes
    }

    /// The first pane, in layout order, whose flag in `focus_flags` (one flag
    /// per pane, in layout order) is set.
    pub fn focused_pane_id(&self, focus_flags: &Vec<bool>) -> (r: Option<u64>)
        ensures
            r == first_focused(self.pane_ids(), focus_flags@),
    {
        let panes = self.panes();
        let mut i: usize = 0;
        proof {
            assert(panes@.skip(0) =~= panes@);
            assert(focus_flags@.skip(0) =~= focus_flags@);
        }
        while i < panes.len() && i < focus_flags.len()
            invariant
                panes@ == self.pane_ids(),
                i <= panes@.len(),
                i <= focus_flags@.len(),
                first_focused(self.pane_ids(), focus_flags@) == first_focused(
                    panes@.skip(i as int),
                    focus_flags@.skip(i as int),
                ),
            decreases panes@.len() - i,
        {
            if focus_flags[i] {
                proof {
                    assert(panes@.skip(i as int)[0] == panes@[i as int]);
                    assert(focus_flags@.skip(i as int)[0] == focus_flags@[i as int]);
                }
                return Some(panes[i]);
            }
            proof {
                assert(panes@.skip(i as int).drop_first() =~= panes@.skip(i as int + 1));
                assert(focus_flags@.skip(i as int).drop_first() =~= focus_flags@.skip(
                    i as int + 1,
                ));
            }
            i = i + 1;
        }
        proof {
            assert(panes@.skip(i as int).len() == 0 || focus_flags@.skip(i as int).len() == 0);
        }
        None
    }

    fn update_active_from_focus(&mut self, focused: Option<u64>)
        requires
            old(self).wf(),
            focused is Some ==> old(self).pane_ids().contains(focused->0),
        ensures
            final(self).wf(),
            final(self).pane_ids() == old(self).pane_ids(),
            final(self).layout_wf() == old(self).layout_wf(),
            final(self).root == old(self).root,
            final(self).active() == focus_target(old(self).active(), focused),
    {
        if let Some(focused_pane_id) = focused {
            self.active_pane_id = focused_pane_id;
        }
    }

    /// Splits the active pane (the focused one, when `focused` names it) in
    /// `direction`, places `pane` right after it, and makes `pane` active.
    pub fn split_active(&mut self, direction: SplitDirection, pane: u64, focused: Option<u64>)
        requires
            old(self).wf(),
            !old(self).pane_ids().contains(pane),
            old(self).pane_ids().len() < usize::MAX,
            focused is Some ==> old(self).pane_ids().contains(focused->0),
        ensures
            final(self).wf(),
            final(self).pane_ids() == old(self).pane_ids().insert(
                old(self).pane_ids().index_of(focus_target(old(self).active(), focused)) + 1,
                pane,
            ),
            final(self).active() == pane,
            final(self).tree() == split_layout(
                old(self).tree(),
                focus_target(old(self).active(), focused),
                direction,
                pane,
            ),
    {
        self.update_active_from_focus(focused);
        let target_id = self.active_pane_id;
        let new_pane_id = pane;
        let ghost ids = leaves(self.root);
        proof {
            let k = ids.index_of(target_id);
            lemma_no_dup_insert(ids, k + 1, pane);
        }
        if self.root.split_pane(target_id, direction, pane) {
            self.active_pane_id = new_pane_id;
        }
    }

    /// Closes the active pane (the focused one, when `focused` names it).
    pub fn remove_active_pane(&mut self, focused: Option<u64>) -> (r: Option<u64>)
        requires
            old(self).wf(),
            focused is Some ==> old(self).pane_ids().contains(focused->0),
        ensures
            final(self).wf(),
            (final(self).pane_ids(), final(self).active(), r) == removal(
                old(self).pane_ids(),
                focus_target(old(self).active(), focused),
                focus_target(old(self).active(), focused),
            ),
            final(self).tree() == close_layout(
                old(self).tree(),
                old(self).pane_ids().len() as int,
                focus_target(old(self).active(), focused),
            ),
    {
        self.update_active_from_focus(focused);
        self.remove_pane_and_select_next(self.active_pane_id)
    }

    /// Closes the pane `pane_id` after taking the focused pane as active.
    pub fn remove_pane_by_id(&mut self, pane_id: u64, focused: Option<u64>) -> (r: Option<u64>)
        requires
            old(self).wf(),
            focused is Some ==> old(self).pane_ids().contains(focused->0),
        ensures
            final(self).wf(),
            (final(self).pane_ids(), final(self).active(), r) == removal(
                old(self).pane_ids(),
                focus_target(old(self).active(), focused),
                pane_id,
            ),
            final(self).tree() == close_layout(
                old(self).tree(),
                old(self).pane_ids().len() as int,
                pane_id,
            ),
    {
        self.update_active_from_focus(focused);
        self.remove_pane_and_select_next(pane_id)
    }

    /// Whether `pane` is one of the panes.
    pub fn contains_pane(&self, pane: u64) -> (r: bool)
        ensures
            r == self.pane_ids().contains(pane),
    {
        let panes = self.panes();
        let mut i: usize = 0;
        while i < panes.len()
            invariant
                panes@ == self.pane_ids(),
                i <= panes@.len(),
                forall|j: int| 0 <= j < i ==> panes@[j] != pane,
            decreases panes@.len() - i,
        {
            if panes[i] == pane {
                return true;
            }
            i = i + 1;
        }
        false
    }

    /// Closes each pane of `exited` in turn, as `remove_pane_by_id` does, with
    /// `focused` as the focused pane while it remains; returns the pane to
    /// focus after the last close.
    pub fn remove_exited(&mut self, exited: &Vec<u64>, focused: Option<u64>) -> (r: Option<u64>)
        requires
            old(self).wf(),
        ensures
            final(self).wf(),
            (final(self).pane_ids(), final(self).active(), r) == removal_run(
                old(self).pane_ids(),
                old(self).active(),
                exited@,
                focused,
                None,
            ),
            final(self).tree() == close_run(
                old(self).tree(),
                old(self).pane_ids(),
                old(self).active(),
                exited@,
                focused,
            ),
    {
        let mut last: Option<u64> = None;
        let mut i: usize = 0;
        assert(exited@.skip(0) =~= exited@);
        while i < exited.len()
            invariant
                self.wf(),
                i <= exited@.len(),
                removal_run(old(self).pane_ids(), old(self).active(), exited@, focused, None)
                    == removal_run(
                    self.pane_ids(),
                    self.active(),
                    exited@.skip(i as int),
                    focused,
                    last,
                ),
                close_run(old(self).tree(), old(self).pane_ids(), old(self).active(), exited@, focused)
                    == close_run(
                    self.tree(),
                    self.pane_ids(),
                    self.active(),
                    exited@.skip(i as int),
                    focused,
                ),
            decreases exited@.len() - i,
        {
            let here = match focused {
                Some(f) => if self.contains_pane(f) {
                    Some(f)
                } else {
                    None
                },
                None => None,
            };
            proof {
                assert(exited@.skip(i as int)[0] == exited@[i as int]);
                assert(exited@.skip(i as int).drop_first() =~= exited@.skip(i as int + 1));
            }
            last = self.remove_pane_by_id(exited[i], here);
            i = i + 1;
        }
        proof {
            assert(exited@.skip(i as int) =~= Seq::<u64>::empty());
        }
        last
    }

    fn remove_pane_and_select_next(&mut self, pane_id: u64) -> (r: Option<u64>)
        requires
            old(self).wf(),
        ensures
            final(self).wf(),
            (final(self).pane_ids(), final(self).active(), r) == removal(
                old(self).pane_ids(),
                old(self).active(),
                pane_id,
            ),
            final(self).tree() == close_layout(
                old(self).tree(),
                old(self).pane_ids().len() as int,
                pane_id,
            ),
    {
        proof {
            lemma_has_pane_leaves(self.root, pane_id);
        }
        if self.pane_count() <= 1 {
            return None;
        }
        let panes_before = self.panes();
        let mut target_index: usize = 0;
        let mut found = false;
        let mut k: usize = 0;
        while k < panes_before.len() && !found
            invariant
                k <= panes_before@.len(),
                found ==> target_index < panes_before@.len() && panes_before@[target_index as int]
                    == pane_id,
                !found ==> forall|j: int| 0 <= j < k ==> panes_before@[j] != pane_id,
            decreases panes_before@.len() - k + (if found {
                0int
            } else {
                1int
            }),
        {
            if panes_before[k] == pane_id {
                target_index = k;
                found = true;
            } else {
                k = k + 1;
            }
        }
        let ghost ids = leaves(self.root);
        proof {
            if ids.contains(pane_id) {
                let j = ids.index_of(pane_id);
                assert(panes_before@[j] == pane_id);
                lemma_index_of_unique(ids, pane_id, target_index as int);
            }
            if self.root is Pane {
                assert(ids.len() == 1);
            }
        }
        if !self.root.remove_pane(pane_id) {
            proof {
                lemma_remove_absent(layout_of(old(self).root), pane_id);
            }
            return None;
        }
        self.root.collapse_single_child_splits();
        let panes_after = self.panes();
        proof {
            lemma_no_dup_remove(ids, target_index as int);
        }
        let last: usize = if panes_after.len() == 0 {
            0
        } else {
            panes_after.len() - 1
        };
        let focus_index: usize = if target_index < last {
            target_index
        } else {
            last
        };
        let pane_to_focus = if focus_index < panes_after.len() {
            Some(panes_after[focus_index])
        } else {
            None
        };
        if let Some(pane) = pane_to_focus {
            self.active_pane_id = pane;
        }
        proof {
            let rest = panes_after@;
            assert(rest[focus_index as int] == pane_to_focus->0);
        }
        pane_to_focus
    }

    /// Focuses the active pane, or the first pane when the active one is gone.
    pub fn focus_active(&mut self) -> (r: Option<u64>)
        requires
            old(self).wf(),
        ensures
            final(self).wf(),
            r == Some(old(self).active()),
            final(self).pane_ids() == old(self).pane_ids(),
            final(self).active() == old(self).active(),
            *final(self) == *old(self),
    {
        let panes = self.panes();
        let mut found: Option<u64> = None;
        let mut i: usize = 0;
        while i < panes.len() && found.is_none()
            invariant
                panes@ == self.pane_ids(),
                i <= panes@.len(),
                found is Some ==> found->0 == self.active(),
                found is None ==> forall|j: int| 0 <= j < i ==> panes@[j] != self.active(),
            decreases panes@.len() - i + (if found is Some {
                0int
            } else {
                1int
            }),
        {
            if panes[i] == self.active_pane_id {
                found = Some(panes[i]);
            } else {
                i = i + 1;
            }
        }
        proof {
            if found is None {
                let j = self.pane_ids().index_of(self.active());
                assert(panes@[j] == self.active());
            }
        }
        let pane = match found {
            Some(p) => Some(p),
            None => if panes.len() > 0 {
                Some(panes[0])
            } else {
                None
            },
        };
        if let Some(p) = pane {
            self.active_pane_id = p;
        }
        pane
    }
}

// ---------------------------------------------------------------------------
// Laws of the layout.
// ---------------------------------------------------------------------------

/// Splitting a pane and then closing the new pane gives back the panes as
/// they were, in the same order.
pub proof fn law_split_then_close_restores_panes(ids: Seq<u64>, target: u64, pane: u64)
    requires
        ids.no_duplicates(),
        ids.contains(target),
        !ids.contains(pane),
    ensures
        ({
            let grown = ids.insert(ids.index_of(target) + 1, pane);
            grown.remove(grown.index_of(pane)) == ids
        }),
{
    let i = ids.index_of(target);
    let grown = ids.insert(i + 1, pane);
    lemma_no_dup_insert(ids, i + 1, pane);
    assert(grown[i + 1] == pane);
    lemma_index_of_unique(grown, pane, i + 1);
    assert(grown.remove(i + 1) =~= ids);
}

/// A split adds exactly the new pane: every earlier pane stays, the new pane
/// comes right after the pane that was split, and no pane occurs twice.
pub proof fn law_split_adds_one_pane(ids: Seq<u64>, target: u64, pane: u64)
    requires
        ids.no_duplicates(),
        ids.contains(target),
        !ids.contains(pane),
    ensures
        ({
            let grown = ids.insert(ids.index_of(target) + 1, pane);
            &&& grown.len() == ids.len() + 1
            &&& grown.no_duplicates()
            &&& grown[ids.index_of(target)] == target
            &&& grown[ids.index_of(target) + 1] == pane
            &&& forall|x: u64| ids.contains(x) ==> grown.contains(x)
        }),
{
    let i = ids.index_of(target);
    lemma_no_dup_insert(ids, i + 1, pane);
}

/// Closing a pane of several leaves at least one pane, removes exactly that
/// pane, and focuses its neighbour: the next pane, or the previous one when
/// the last pane was closed.
pub proof fn law_close_focuses_neighbour(ids: Seq<u64>, i: int)
    requires
        ids.no_duplicates(),
        ids.len() >= 2,
        0 <= i < ids.len(),
    ensures
        ({
            let rest = ids.remove(i);
            let f = focus_after_removal(i, rest.len() as int);
            &&& rest.len() == ids.len() - 1 >= 1
            &&& !rest.contains(ids[i])
            &&& 0 <= f < rest.len()
            &&& rest[f] == (if i + 1 < ids.len() {
                ids[i + 1]
            } else {
                ids[i - 1]
            })
        }),
{
    lemma_no_dup_remove(ids, i);
}

/// Closing a pane: nothing changes when the pane is unknown or is the only
/// one, so the last pane is never closed; otherwise exactly that pane leaves,
/// the others keep their order, and the pane that took its place (or the new
/// last pane, when the last was closed) becomes active and is focused.
pub proof fn law_removal(ids: Seq<u64>, active: u64, pane_id: u64)
    requires
        ids.no_duplicates(),
    ensures
        (ids.len() <= 1 || !ids.contains(pane_id)) ==> removal(ids, active, pane_id) == (
            ids,
            active,
            None::<u64>,
        ),
        (ids.len() >= 2 && ids.contains(pane_id)) ==> ({
            let i = ids.index_of(pane_id);
            let n = ids.len() as int;
            let r = removal(ids, active, pane_id);
            &&& 0 <= i < n
            &&& ids[i] == pane_id
            &&& r.0.len() == n - 1
            &&& !r.0.contains(pane_id)
            &&& r.0.no_duplicates()
            &&& (forall|j: int| 0 <= j < i ==> #[trigger] r.0[j] == ids[j])
            &&& (forall|j: int| i <= j < n - 1 ==> #[trigger] r.0[j] == ids[j + 1])
            &&& r.2 == Some(r.0[if i < n - 2 {
                i
            } else {
                n - 2
            }])
            &&& r.2 == Some(if i + 1 < n {
                ids[i + 1]
            } else {
                ids[i - 1]
            })
            &&& r.1 == r.2->0
        }),
{
    if ids.len() >= 2 && ids.contains(pane_id) {
        let i = ids.index_of(pane_id);
        law_close_focuses_neighbour(ids, i);
        lemma_no_dup_remove(ids, i);
    }
}

proof fn lemma_removal_step(ids: Seq<u64>, active: u64, pane_id: u64)
    requires
        ids.no_duplicates(),
        ids.len() >= 1,
    ensures
        ({
            let r = removal(ids, active, pane_id).0;
            &&& r.no_duplicates()
            &&& 1 <= r.len() <= ids.len()
            &&& forall|x: u64| r.contains(x) ==> ids.contains(x)
            &&& r.contains(pane_id) ==> r.len() == 1
        }),
{
    if ids.len() >= 2 && ids.contains(pane_id) {
        let i = ids.index_of(pane_id);
        lemma_no_dup_remove(ids, i);
        let r = ids.remove(i);
        assert forall|x: u64| r.contains(x) implies ids.contains(x) by {
            let j = r.index_of(x);
            if j < i {
                assert(ids[j] == x);
            } else {
                assert(ids[j + 1] == x);
            }
        }
    }
}

/// Closing exited panes one after another never closes the last pane, and
/// leaves only panes that were there before, each once; a pane that exited
/// is still there only when it is the last pane left.
pub proof fn law_removal_run(
    ids: Seq<u64>,
    active: u64,
    exited: Seq<u64>,
    focused: Option<u64>,
    last: Option<u64>,
)
    requires
        ids.no_duplicates(),
        ids.len() >= 1,
    ensures
        ({
            let r = removal_run(ids, active, exited, focused, last).0;
            &&& r.no_duplicates()
            &&& 1 <= r.len() <= ids.len()
            &&& forall|x: u64| r.contains(x) ==> ids.contains(x)
            &&& forall|x: u64| exited.contains(x) && r.contains(x) ==> r.len() == 1
        }),
    decreases exited.len(),
{
    if exited.len() > 0 {
        let a = focus_target(active, focus_within(ids, focused));
        let step = removal(ids, a, exited[0]);
        lemma_removal_step(ids, a, exited[0]);
        law_removal_run(step.0, step.1, exited.drop_first(), focused, step.2);
        let r = removal_run(ids, active, exited, focused, last).0;
        assert forall|x: u64| exited.contains(x) && r.contains(x) implies r.len() == 1 by {
            if x != exited[0] {
                let k = exited.index_of(x);
                assert(exited.drop_first()[k - 1] == x);
            } else {
                assert(step.0.contains(x));
            }
        }
    }
}

/// A split left holding a single child gives way to that child as it is:
/// collapsing it yields exactly the child's collapsed layout, with the
/// child's own direction, whatever the direction of the split it replaces.
pub proof fn law_single_child_split_gives_way(d: SplitDirection, x: Layout)
    ensures
        collapse_layout(Layout::Split(d, seq![x])) == collapse_layout(x),
{
    let s = seq![x];
    assert(s.subrange(1, 1) =~= Seq::<Layout>::empty());
    assert(collapse_seq(Seq::<Layout>::empty()) == Seq::<Layout>::empty());
    assert(collapse_seq(s) =~= seq![collapse_layout(x)]);
}

/// Closing one pane of two side by side, whose other child is a split,
/// leaves that split in place of both, with its own direction.
pub proof fn law_close_keeps_sibling_direction(
    d: SplitDirection,
    od: SplitDirection,
    p: u64,
    q: u64,
    r: u64,
)
    requires
        p != q,
        p != r,
        q != r,
    ensures
        close_layout(
            Layout::Split(d, seq![Layout::Pane(p), Layout::Split(od, seq![Layout::Pane(q), Layout::Pane(r)])]),
            3,
            p,
        ) == Layout::Split(od, seq![Layout::Pane(q), Layout::Pane(r)]),
{
    let inner = Layout::Split(od, seq![Layout::Pane(q), Layout::Pane(r)]);
    let ch = seq![Layout::Pane(p), inner];
    let l = Layout::Split(d, ch);
    assert(has_pane(ch[0], p));
    assert(has_pane_seq(ch, p));
    assert(pane_index_from(ch, p, 0) == 0);
    assert(ch.remove(0) =~= seq![inner]);
    assert(remove_layout(l, p) == Layout::Split(d, seq![inner]));
    law_single_child_split_gives_way(d, inner);
    let pq = seq![Layout::Pane(q), Layout::Pane(r)];
    assert(pq.subrange(1, 2) =~= seq![Layout::Pane(r)]);
    assert(seq![Layout::Pane(r)].subrange(1, 1) =~= Seq::<Layout>::empty());
    assert(collapse_seq(Seq::<Layout>::empty()) == Seq::<Layout>::empty());
    let sr = seq![Layout::Pane(r)];
    assert(collapse_layout(Layout::Pane(r)) == Layout::Pane(r));
    assert(collapse_layout(Layout::Pane(q)) == Layout::Pane(q));
    assert(collapse_seq(sr) == seq![collapse_layout(sr[0])] + collapse_seq(sr.subrange(1, 1)));
    assert(collapse_seq(sr) =~= sr);
    assert(collapse_seq(pq) == seq![collapse_layout(pq[0])] + collapse_seq(pq.subrange(1, 2)));
    assert(collapse_seq(pq) =~= pq);
}

} // verus!
