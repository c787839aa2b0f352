//! The leaves of a tree of panes as a list, and what the operations on the tree
//! do to that list.
use vstd::prelude::*;
use crate::geometry;
use crate::pane;
use crate::connect::ConnectPaneView;
use crate::geometry::{Rect, Split};
use crate::pane::PaneView;

verus! {

/// The leaves of a tree, from the left.
pub open spec fn leaves(p: PaneView) -> Seq<PaneView>
    decreases p, 0nat,
{
    match p {
        PaneView::Split { children, .. } => leaves_before(children, children.len() as int),
        _ => seq![p],
    }
}

/// The leaves of the first `n` trees of a list.
pub open spec fn leaves_before(s: Seq<PaneView>, n: int) -> Seq<PaneView>
    decreases s, n,
{
    if 0 < n <= s.len() {
        leaves_before(s, n - 1) + leaves(s[n - 1])
    } else {
        Seq::empty()
    }
}

proof fn lemma_count(p: PaneView)
    ensures
        leaves(p).len() == pane::count(p),
    decreases p, 0nat,
{
    if let PaneView::Split { children, .. } = p {
        lemma_count_before(children, children.len() as int);
    }
}

proof fn lemma_count_before(s: Seq<PaneView>, n: int)
    requires
        0 <= n <= s.len(),
    ensures
        leaves_before(s, n).len() == pane::count_before(s, n),
    decreases s, n,
{
    if n > 0 {
        lemma_count_before(s, n - 1);
        lemma_count(s[n - 1]);
    }
}

/// The tree that holds a leaf: the leaf lies after the leaves of the trees
/// before it, and before those of the trees after it.
proof fn lemma_holder_from(s: Seq<PaneView>, n: int, i: int)
    requires
        0 <= i <= s.len(),
        pane::count_before(s, i) <= n < pane::count_before(s, s.len() as int),
    ensures
        i <= pane::holder_from(s, n, i) < s.len(),
        pane::count_before(s, pane::holder_from(s, n, i)) <= n,
        n < pane::count_before(s, pane::holder_from(s, n, i)) + pane::count(s[pane::holder_from(s, n, i)]),
    decreases s.len() - i,
{
    if i < s.len() {
        if n >= pane::count_before(s, i + 1) {
            lemma_holder_from(s, n, i + 1);
        }
    }
}

proof fn lemma_holder(s: Seq<PaneView>, n: int)
    requires
        0 <= n < pane::count_before(s, s.len() as int),
    ensures
        0 <= pane::holder(s, n) < s.len(),
        pane::count_before(s, pane::holder(s, n)) <= n,
        n < pane::count_before(s, pane::holder(s, n)) + pane::count(s[pane::holder(s, n)]),
{
    lemma_holder_from(s, n, 0);
}

/// Past the leaves of the list there is none to be found.
proof fn lemma_no_holder(s: Seq<PaneView>, n: int, i: int)
    requires
        0 <= i <= s.len(),
        n >= pane::count_before(s, s.len() as int),
    ensures
        pane::holder_from(s, n, i) == s.len(),
    decreases s.len() - i,
{
    if i < s.len() {
        lemma_count_grows(s, i + 1, s.len() as int);
        lemma_no_holder(s, n, i + 1);
    }
}

proof fn lemma_count_grows(s: Seq<PaneView>, i: int, k: int)
    requires
        0 <= i <= k <= s.len(),
    ensures
        pane::count_before(s, i) <= pane::count_before(s, k),
    decreases k - i,
{
    if i < k {
        lemma_count_grows(s, i, k - 1);
    }
}

/// The leaves of the first `n` trees when one of them is replaced.
proof fn lemma_replace(s: Seq<PaneView>, i: int, q: PaneView, n: int)
    requires
        0 <= i < s.len(),
        0 <= n <= s.len(),
    ensures
        n <= i ==> leaves_before(s.update(i, q), n) == leaves_before(s, n),
        n > i ==> leaves_before(s.update(i, q), n) == leaves_before(s, i) + leaves(q)
            + leaves_before(s, n).skip((leaves_before(s, i) + leaves(s[i])).len() as int),
        n > i ==> leaves_before(s, n) == leaves_before(s, i) + leaves(s[i])
            + leaves_before(s, n).skip((leaves_before(s, i) + leaves(s[i])).len() as int),
    decreases n,
{
    let t = s.update(i, q);
    if n > 0 {
        lemma_replace(s, i, q, n - 1);
        if n - 1 == i {
            assert(leaves_before(s, n).skip((leaves_before(s, i) + leaves(s[i])).len() as int)
                =~= Seq::empty());
            assert(leaves_before(t, n) =~= leaves_before(s, i) + leaves(q) + Seq::empty());
            assert(leaves_before(s, n) =~= leaves_before(s, i) + leaves(s[i]) + Seq::empty());
        } else if n - 1 > i {
            let head = leaves_before(s, i) + leaves(s[i]);
            let k = head.len() as int;
            assert(leaves_before(s, n - 1).len() >= k);
            assert(leaves_before(s, n).skip(k) =~= leaves_before(s, n - 1).skip(k) + leaves(
                s[n - 1],
            ));
            assert(t[n - 1] == s[n - 1]);
            assert(leaves_before(t, n) =~= leaves_before(s, i) + leaves(q) + leaves_before(
                s,
                n,
            ).skip(k));
            assert(leaves_before(s, n) =~= head + leaves_before(s, n).skip(k));
        }
    }
}

/// The leaves of the first `n` trees when one of the list is removed.
proof fn lemma_drop(s: Seq<PaneView>, i: int, n: int)
    requires
        0 <= i < s.len(),
        i < n <= s.len(),
    ensures
        leaves_before(s.remove(i), n - 1) == leaves_before(s, i) + leaves_before(s, n).skip(
            (leaves_before(s, i) + leaves(s[i])).len() as int,
        ),
    decreases n,
{
    let t = s.remove(i);
    let k = (leaves_before(s, i) + leaves(s[i])).len() as int;
    if n - 1 == i {
        lemma_same(s, t, i);
        assert(leaves_before(s, n).skip(k) =~= Seq::empty());
        assert(leaves_before(t, i) =~= leaves_before(s, i) + Seq::empty());
    } else {
        lemma_drop(s, i, n - 1);
        lemma_replace(s, i, s[i], n - 1);
        assert(s.update(i, s[i]) =~= s);
        assert(t[n - 2] == s[n - 1]);
        assert(leaves_before(s, n - 1).len() >= k);
        assert(leaves_before(s, n).skip(k) =~= leaves_before(s, n - 1).skip(k) + leaves(s[n - 1]));
        assert(leaves_before(t, n - 1) =~= leaves_before(s, i) + leaves_before(s, n).skip(k));
    }
}

proof fn lemma_same(s: Seq<PaneView>, t: Seq<PaneView>, n: int)
    requires
        0 <= n <= s.len(),
        n <= t.len(),
        forall|k: int| 0 <= k < n ==> s[k] == t[k],
    ensures
        leaves_before(s, n) == leaves_before(t, n),
    decreases n,
{
    if n > 0 {
        lemma_same(s, t, n - 1);
    }
}

/// The leaves of a list as those before a tree, those of the tree, and those
/// after it.
proof fn lemma_parts(s: Seq<PaneView>, i: int)
    requires
        0 <= i < s.len(),
    ensures
        leaves_before(s, s.len() as int) == leaves_before(s, i) + leaves(s[i]) + leaves_before(
            s,
            s.len() as int,
        ).skip((leaves_before(s, i) + leaves(s[i])).len() as int),
{
    lemma_replace(s, i, s[i], s.len() as int);
    assert(s.update(i, s[i]) =~= s);
}

/// The leaves are numbered from the left: the leaf numbered `n` is found
/// exactly where there are more than `n` leaves.
pub proof fn law_leaf_is_found(p: PaneView, n: int)
    requires
        0 <= n,
    ensures
        leaves(p).len() == pane::count(p),
        pane::leaf_at(p, n) == (if n < pane::count(p) {
            Some(leaves(p)[n])
        } else {
            None
        }),
    decreases p,
{
    lemma_count(p);
    if let PaneView::Split { children, .. } = p {
        lemma_count_before(children, children.len() as int);
        if n < pane::count(p) {
            lemma_holder(children, n);
            let i = pane::holder(children, n);
            lemma_parts(children, i);
            lemma_count(children[i]);
            lemma_count_before(children, i);
            law_leaf_is_found(children[i], n - pane::count_before(children, i));
        } else {
            lemma_no_holder(children, n, 0);
        }
    }
}

/// Replacing a leaf by another leaf changes that leaf and no other.
pub proof fn law_replacing_changes_one_leaf(p: PaneView, n: int, q: PaneView)
    requires
        0 <= n < pane::count(p),
        !(q is Split),
    ensures
        leaves(pane::with_leaf(p, n, q)) == leaves(p).update(n, q),
    decreases p,
{
    lemma_count(p);
    if let PaneView::Split { children, .. } = p {
        lemma_holder(children, n);
        let i = pane::holder(children, n);
        let m = n - pane::count_before(children, i);
        lemma_count_before(children, i);
        lemma_count(children[i]);
        law_replacing_changes_one_leaf(children[i], m, q);
        let c = pane::with_leaf(children[i], m, q);
        lemma_replace(children, i, c, children.len() as int);
        assert(leaves(pane::with_leaf(p, n, q)) =~= leaves(p).update(n, q));
    } else {
        assert(leaves(p).update(n, q) =~= seq![q]);
    }
}

/// Putting a leaf in its own place changes nothing.
pub proof fn lemma_same_leaf(p: PaneView, n: int)
    requires
        pane::leaf_at(p, n) is Some,
    ensures
        pane::with_leaf(p, n, pane::leaf_at(p, n)->0) == p,
    decreases p,
{
    if let PaneView::Split { children, .. } = p {
        let i = pane::holder(children, n);
        lemma_same_leaf(children[i], n - pane::count_before(children, i));
        assert(children.update(i, children[i]) =~= children);
    }
}

/// A tree with one leaf has that leaf as its list.
pub proof fn lemma_halved(p: PaneView, kind: Split)
    requires
        pane::count(p) == 1,
    ensures
        leaves(pane::halved(p, kind)) == leaves(p).push(PaneView::Connect(ConnectPaneView::opened())),
{
    let c = PaneView::Connect(ConnectPaneView::opened());
    let s = seq![p, c];
    lemma_count(p);
    assert(leaves_before(s, 0) =~= Seq::empty());
    assert(leaves_before(s, 1) =~= leaves(p)) by {
        assert(s[0] == p);
    }
    assert(leaves_before(s, 2) =~= leaves(p).push(c)) by {
        assert(s[1] == c);
        assert(leaves(c) == seq![c]);
    }
}

/// Dividing a leaf of a split keeps all leaves in their order, and puts a pane
/// for choosing a host behind the leaf that was divided.
pub proof fn law_split_adds_leaf(p: PaneView, n: int, kind: Split)
    requires
        p is Split,
        0 <= n < pane::count(p),
    ensures
        leaves(pane::with_split(p, n, kind)) == leaves(p).insert(
            n + 1,
            PaneView::Connect(ConnectPaneView::opened()),
        ),
        pane::count(pane::with_split(p, n, kind)) == pane::count(p) + 1,
    decreases p,
{
    let added = PaneView::Connect(ConnectPaneView::opened());
    lemma_count(p);
    if let PaneView::Split { children, .. } = p {
        lemma_holder(children, n);
        let i = pane::holder(children, n);
        let m = n - pane::count_before(children, i);
        lemma_count_before(children, i);
        lemma_count(children[i]);
        let c = if pane::count(children[i]) == 1 {
            pane::halved(children[i], kind)
        } else {
            pane::with_split(children[i], m, kind)
        };
        if pane::count(children[i]) == 1 {
            lemma_halved(children[i], kind);
            assert(leaves(c) =~= leaves(children[i]).insert(m + 1, added));
        } else {
            law_split_adds_leaf(children[i], m, kind);
        }
        lemma_replace(children, i, c, children.len() as int);
        assert(leaves(pane::with_split(p, n, kind)) =~= leaves(p).insert(n + 1, added));
        lemma_count(pane::with_split(p, n, kind));
    }
}

/// Whether a tree holds a split of a direction, of a leaf and a pane for choosing a
/// host behind it.
pub open spec fn has_division(p: PaneView, kind: Split, leaf: PaneView) -> bool
    decreases p,
{
    match p {
        PaneView::Split { kind: k, children, .. } => {
            ||| k == kind && children.len() == 2 && leaves(children[0]) == seq![leaf]
                && children[1] is Connect
            ||| exists|i: int|
                0 <= i < children.len() && has_division(#[trigger] children[i], kind, leaf)
        },
        _ => false,
    }
}

/// Dividing a leaf of a split divides it in the direction that was asked for.
pub proof fn law_split_has_its_direction(p: PaneView, n: int, kind: Split)
    requires
        p is Split,
        0 <= n < pane::count(p),
    ensures
        has_division(pane::with_split(p, n, kind), kind, leaves(p)[n]),
    decreases p,
{
    lemma_count(p);
    if let PaneView::Split { children, .. } = p {
        lemma_holder(children, n);
        let i = pane::holder(children, n);
        let m = n - pane::count_before(children, i);
        lemma_count_before(children, i);
        lemma_count(children[i]);
        lemma_parts(children, i);
        let leaf = leaves(p)[n];
        assert(leaf == leaves(children[i])[m]);
        let q = pane::with_split(p, n, kind);
        if pane::count(children[i]) == 1 {
            assert(leaves(children[i]) =~= seq![leaf]);
            let h = pane::halved(children[i], kind);
            assert(h->children[0] == children[i]);
            assert(has_division(h, kind, leaf));
        } else {
            law_split_has_its_direction(children[i], m, kind);
        }
        assert(has_division(q->children[i], kind, leaf));
        assert(has_division(q, kind, leaf));
    }
}

/// Where there is no leaf with the number, nothing is divided.
pub proof fn lemma_split_missing(p: PaneView, n: int, kind: Split)
    requires
        n >= pane::count(p),
    ensures
        pane::with_split(p, n, kind) == p,
{
    if let PaneView::Split { children, .. } = p {
        lemma_no_holder(children, n, 0);
    }
}

/// Removing a leaf of a split keeps all other leaves in their order.
pub proof fn law_remove_drops_leaf(p: PaneView, n: int)
    requires
        p is Split,
        0 <= n < pane::count(p),
        pane::count(p) > 1,
    ensures
        leaves(pane::without_leaf(p, n)) == leaves(p).remove(n),
        pane::count(pane::without_leaf(p, n)) == pane::count(p) - 1,
    decreases p,
{
    lemma_count(p);
    if let PaneView::Split { kind, children, ratios } = p {
        lemma_holder(children, n);
        let i = pane::holder(children, n);
        let m = n - pane::count_before(children, i);
        lemma_count_before(children, i);
        lemma_count(children[i]);
        lemma_parts(children, i);
        let total = children.len() as int;
        if pane::count(children[i]) == 1 {
            lemma_drop(children, i, total);
            let rest = children.remove(i);
            assert(leaves_before(rest, total - 1) =~= leaves(p).remove(n));
            lemma_single(rest);
        } else {
            law_remove_drops_leaf(children[i], m);
            let c = pane::without_leaf(children[i], m);
            lemma_replace(children, i, c, total);
            let rest = children.update(i, c);
            assert(leaves_before(rest, total) =~= leaves(p).remove(n));
            lemma_single(rest);
        }
        lemma_count(pane::without_leaf(p, n));
    }
}

/// A list of one tree has the leaves of that tree.
proof fn lemma_single(s: Seq<PaneView>)
    ensures
        s.len() == 1 ==> leaves_before(s, 1) == leaves(s[0]),
{
    if s.len() == 1 {
        assert(leaves_before(s, 0) =~= Seq::empty());
        assert(leaves_before(s, 1) =~= leaves(s[0]));
    }
}

/// Dividing and removing leaves keep one share for each pane of each split.
pub proof fn law_shares_stay(p: PaneView, n: int, kind: Split)
    requires
        pane::shared_out(p),
        0 <= n < pane::count(p),
    ensures
        pane::shared_out(pane::with_split(p, n, kind)),
        pane::shared_out(pane::without_leaf(p, n)),
    decreases p,
{
    if let PaneView::Split { kind: outer, children, ratios } = p {
        lemma_holder(children, n);
        let i = pane::holder(children, n);
        let m = n - pane::count_before(children, i);
        assert(pane::shared_out(children[i]));
        law_shares_stay(children[i], m, kind);
        let pair = seq![children[i], PaneView::Connect(ConnectPaneView::opened())];
        assert(pair[0] == children[i]);
        assert(pane::shared_out(pair[1]));
        assert(pane::shared_out(pane::halved(children[i], kind)));
        let c = if pane::count(children[i]) == 1 {
            pane::halved(children[i], kind)
        } else {
            pane::with_split(children[i], m, kind)
        };
        let divided = children.update(i, c);
        assert forall|k: int| 0 <= k < divided.len() implies pane::shared_out(#[trigger] divided[k]) by {
            if k != i {
                assert(divided[k] == children[k]);
            }
        }
        let kept = children.remove(i);
        assert forall|k: int| 0 <= k < kept.len() implies pane::shared_out(#[trigger] kept[k]) by {
            if k < i {
                assert(kept[k] == children[k]);
            } else {
                assert(kept[k] == children[k + 1]);
            }
        }
        let less = children.update(i, pane::without_leaf(children[i], m));
        assert forall|k: int| 0 <= k < less.len() implies pane::shared_out(#[trigger] less[k]) by {
            if k != i {
                assert(less[k] == children[k]);
            }
        }
    }
}

/// A tree with one share for each pane has one area for each leaf.
pub proof fn law_layout_has_all_leaves(p: PaneView, area: Rect, areas: Seq<Rect>)
    requires
        pane::shared_out(p),
        pane::is_layout(p, area, areas),
    ensures
        areas.len() == pane::count(p),
    decreases p, 0int,
{
    if let PaneView::Split { kind, children, ratios } = p {
        let parts = choose|q: Seq<Rect>| #[trigger]
            geometry::is_split(area, kind, ratios, q) && pane::are_layouts(
                children,
                q,
                geometry::at_most(children.len() as int, q.len() as int),
                areas,
            );
        lemma_layouts_count(children, parts, children.len() as int, areas);
    }
}

proof fn lemma_layouts_count(s: Seq<PaneView>, parts: Seq<Rect>, n: int, areas: Seq<Rect>)
    requires
        0 <= n <= s.len(),
        forall|i: int| 0 <= i < s.len() ==> pane::shared_out(#[trigger] s[i]),
        pane::are_layouts(s, parts, n, areas),
    ensures
        areas.len() == pane::count_before(s, n),
    decreases s, n,
{
    if n > 0 {
        let k = choose|k: int|
            0 <= k <= areas.len() && pane::are_layouts(s, parts, n - 1, #[trigger] areas.take(k))
                && pane::is_layout(s[n - 1], parts[n - 1], areas.skip(k));
        lemma_layouts_count(s, parts, n - 1, areas.take(k));
        assert(pane::shared_out(s[n - 1]));
        law_layout_has_all_leaves(s[n - 1], parts[n - 1], areas.skip(k));
    }
}

/// A leaf that is found in a tree is not a split.
pub proof fn lemma_leaf_is_no_split(p: PaneView, n: int)
    ensures
        pane::leaf_at(p, n) matches Some(q) ==> !(q is Split),
    decreases p,
{
    if let PaneView::Split { children, .. } = p {
        let i = pane::holder(children, n);
        if 0 <= i < children.len() {
            lemma_leaf_is_no_split(children[i], n - pane::count_before(children, i));
        }
    }
}

/// Whether `part` lies inside `area`.
pub open spec fn lies_inside(part: Rect, area: Rect) -> bool {
    area.x <= part.x && part.end_x() <= area.end_x() && area.y <= part.y && part.end_y()
        <= area.end_y()
}

/// However often an area is divided, every pane lies inside it.
pub proof fn law_panes_stay_inside(p: PaneView, area: Rect, areas: Seq<Rect>, i: int)
    requires
        pane::is_layout(p, area, areas),
        0 <= i < areas.len(),
    ensures
        lies_inside(areas[i], area),
    decreases p, 0int,
{
    if let PaneView::Split { kind, children, ratios } = p {
        let parts = choose|q: Seq<Rect>| #[trigger]
            geometry::is_split(area, kind, ratios, q) && pane::are_layouts(
                children,
                q,
                geometry::at_most(children.len() as int, q.len() as int),
                areas,
            );
        lemma_parts_stay_inside(
            children,
            parts,
            geometry::at_most(children.len() as int, parts.len() as int),
            area,
            kind,
            areas,
            i,
        );
    }
}

proof fn lemma_parts_stay_inside(
    s: Seq<PaneView>,
    parts: Seq<Rect>,
    n: int,
    area: Rect,
    kind: Split,
    areas: Seq<Rect>,
    i: int,
)
    requires
        0 <= n <= s.len(),
        n <= parts.len(),
        forall|k: int| 0 <= k < parts.len() ==> geometry::spans(area, kind, #[trigger] parts[k]),
        pane::are_layouts(s, parts, n, areas),
        0 <= i < areas.len(),
    ensures
        lies_inside(areas[i], area),
    decreases s, n,
{
    if n > 0 {
        let k = choose|k: int|
            0 <= k <= areas.len() && pane::are_layouts(s, parts, n - 1, #[trigger] areas.take(k))
                && pane::is_layout(s[n - 1], parts[n - 1], areas.skip(k));
        if i < k {
            lemma_parts_stay_inside(s, parts, n - 1, area, kind, areas.take(k), i);
            assert(areas.take(k)[i] == areas[i]);
        } else {
            law_panes_stay_inside(s[n - 1], parts[n - 1], areas.skip(k), i - k);
            assert(areas.skip(k)[i - k] == areas[i]);
            assert(geometry::spans(area, kind, parts[n - 1]));
        }
    }
}

/// No leaf is a split.
pub proof fn lemma_no_split_among_leaves(p: PaneView)
    ensures
        forall|i: int| 0 <= i < leaves(p).len() ==> !(#[trigger] leaves(p)[i] is Split),
{
    assert forall|i: int| 0 <= i < leaves(p).len() implies !(#[trigger] leaves(p)[i] is Split) by {
        law_leaf_is_found(p, i);
        lemma_leaf_is_no_split(p, i);
    }
}

} // verus!
