//! The multi-selection: its anchor, its rows, and how it grows.
use std::collections::BTreeSet;
use vstd::prelude::*;
use super::{BrowserCore, BrowserFocus, CoreView, PanelView};
use crate::browser::parse::FsEntry;

verus! {

/// Whether `q` lists the members of `s` in increasing order.
pub open spec fn lists(q: Seq<usize>, s: Set<usize>) -> bool {
    &&& forall|i: int, j: int| 0 <= i < j < q.len() ==> q[i] < q[j]
    &&& q.to_set() == s
}

/// The members of a finite set in increasing order.
pub open spec fn ascending(s: Set<usize>) -> Seq<usize> {
    choose|q: Seq<usize>| lists(q, s)
}

/// There is only one increasing list of the members of a set.
pub proof fn law_ascending_is_unique(p: Seq<usize>, q: Seq<usize>, s: Set<usize>)
    requires
        lists(p, s),
        lists(q, s),
    ensures
        p == q,
        ascending(s) == p,
{
    lemma_lists_equal(p, q, s);
    lemma_lists_equal(p, ascending(s), s);
}

proof fn lemma_lists_equal(p: Seq<usize>, q: Seq<usize>, s: Set<usize>)
    requires
        lists(p, s),
        lists(q, s),
    ensures
        p == q,
    decreases p.len(),
{
    if p.len() == 0 {
        if q.len() > 0 {
            assert(q.to_set().contains(q[0]));
        }
        assert(p =~= q);
    } else {
        assert(p.to_set().contains(p.last()));
        assert(q.to_set().contains(p.last()));
        let k = choose|k: int| 0 <= k < q.len() && q[k] == p.last();
        assert(q.len() > 0);
        assert(q.to_set().contains(q.last()));
        assert(p.to_set().contains(q.last()));
        let m = choose|m: int| 0 <= m < p.len() && p[m] == q.last();
        assert(q[k] <= q.last());
        assert(p[m] <= p.last());
        assert(p.last() == q.last());
        let l = p.last();
        lemma_without_last(p, s);
        lemma_without_last(q, s);
        lemma_lists_equal(p.drop_last(), q.drop_last(), s.remove(l));
        assert(p =~= p.drop_last().push(l));
        assert(q =~= q.drop_last().push(l));
    }
}

proof fn lemma_without_last(p: Seq<usize>, s: Set<usize>)
    requires
        lists(p, s),
        p.len() > 0,
    ensures
        lists(p.drop_last(), s.remove(p.last())),
{
    let r = p.drop_last();
    let l = p.last();
    assert forall|x: usize| r.to_set().contains(x) <==> s.remove(l).contains(x) by {
        if r.to_set().contains(x) {
            let i = choose|i: int| 0 <= i < r.len() && r[i] == x;
            assert(p[i] == x);
            assert(p.to_set().contains(x));
        }
        if s.remove(l).contains(x) {
            assert(p.to_set().contains(x));
            let i = choose|i: int| 0 <= i < p.len() && p[i] == x;
            assert(r[i] == x);
        }
    }
    assert(r.to_set() =~= s.remove(l));
}

proof fn lemma_key_order(q: Seq<&usize>)
    ensures
        vstd::laws_cmp::obeys_cmp::<usize>(),
        vstd::std_specs::btree::increasing_seq(q) ==> forall|i: int, j: int|
            0 <= i < j < q.len() ==> *q[i] < *q[j],
{
    broadcast use vstd::laws_cmp::group_laws_cmp;
    broadcast use vstd::std_specs::btree::group_btree_axioms;

    assert(vstd::laws_cmp::obeys_cmp::<usize>());
    assert(vstd::laws_cmp::obeys_cmp::<&usize>());
    if vstd::std_specs::btree::increasing_seq(q) {
        assert forall|i: int, j: int| 0 <= i < j < q.len() implies *q[i] < *q[j] by {
            assert(vstd::std_specs::cmp::OrdSpec::cmp_spec(&q[i], &q[j]) is Less);
        }
    }
}

/// Lists the members of a set in increasing order.
fn list_members(s: &BTreeSet<usize>) -> (r: Vec<usize>)
    ensures
        r@ == ascending(s@),
        lists(r@, s@),
{
    let mut v: Vec<usize> = Vec::new();
    let ghost q = vstd::std_specs::iter::IteratorSpec::remaining(
        &vstd::std_specs::btree::spec_btree_keys_iter(s),
    );
    proof {
        lemma_key_order(q);
    }
    for x in it: s.iter()
        invariant
            v@ == it.seq().unref().take(it.index() as int),
            it.seq() == q,
    {
        v.push(*x);
    }
    proof {
        assert(v@ =~= q.unref());
        assert(lists(v@, s@));
        law_ascending_is_unique(v@, v@, s@);
    }
    v
}

impl CoreView {
    /// The panel that has the keyboard.
    pub open spec fn focused_panel(self) -> PanelView {
        match self.focus {
            BrowserFocus::Local => self.local,
            BrowserFocus::Remote => self.remote,
        }
    }

    /// The state without a multi-selection.
    pub open spec fn unselected(self) -> CoreView {
        if self.selected != Set::<usize>::empty() || self.select_anchor is Some {
            CoreView { selected: Set::empty(), select_anchor: None, needs_redraw: true, ..self }
        } else {
            self
        }
    }

    /// The rows to operate on: the multi-selection, or else the row under the
    /// cursor unless it is the first one, the link to the parent directory.
    pub open spec fn chosen(self) -> Seq<usize> {
        if self.selected != Set::<usize>::empty() {
            ascending(self.selected)
        } else {
            match self.focused_panel().sel.selected {
                Some(i) => if i == 0 {
                    Seq::empty()
                } else {
                    seq![i]
                },
                None => Seq::empty(),
            }
        }
    }

    /// The state with the rows between the anchor and the cursor selected, but
    /// for the first one.
    pub open spec fn range_selected(self) -> CoreView {
        match (self.select_anchor, self.focused_panel().sel.selected) {
            (Some(a), Some(c)) => CoreView {
                selected: Set::new(
                    |i: usize| 1 <= i && ((a <= i && i <= c) || (c <= i && i <= a)),
                ),
                needs_redraw: true,
                ..self
            },
            _ => self,
        }
    }

    /// The state with neither a multi-selection nor a cursor in one panel.
    pub open spec fn deselected(self, in_remote: bool) -> CoreView {
        let s = self.unselected();
        if in_remote {
            CoreView { remote: s.remote.with_sel(s.remote.sel.with_selected(None)), ..s }.redrawn()
        } else {
            CoreView { local: s.local.with_sel(s.local.sel.with_selected(None)), ..s }.redrawn()
        }
    }
}

impl BrowserCore {
    /// Drops the multi-selection.
    pub fn clear_selection(&mut self)
        ensures
            final(self)@ == old(self)@.unselected(),
    {
        if !self.selected.is_empty() || self.select_anchor.is_some() {
            self.selected.clear();
            self.select_anchor = None;
            self.needs_redraw = true;
        }
        assert(self@ =~= old(self)@.unselected());
    }

    /// Drops the multi-selection and the cursor of the panel that was clicked.
    pub(crate) fn deselect_all(&mut self, in_remote: bool)
        ensures
            final(self)@ == old(self)@.deselected(in_remote),
    {
        self.clear_selection();
        if in_remote {
            self.remote.sel.select(None);
        } else {
            self.local.sel.select(None);
        }
        self.needs_redraw = true;
        assert(self@ =~= old(self)@.deselected(in_remote));
    }

    /// The row under the cursor of the panel that has the keyboard.
    pub fn focused_index(&self) -> (r: Option<usize>)
        ensures
            r == self@.focused_panel().sel.selected,
    {
        match self.focus {
            BrowserFocus::Local => self.local.sel.selected(),
            BrowserFocus::Remote => self.remote.sel.selected(),
        }
    }

    /// The entry under the cursor of the panel that has the keyboard.
    pub fn focused_entry(&self) -> (r: Option<&FsEntry>)
        ensures
            match r {
                Some(e) => self@.focused_panel().focused() == Some(e@),
                None => self@.focused_panel().focused() is None,
            },
    {
        match self.focus {
            BrowserFocus::Local => self.local.focused_entry(),
            BrowserFocus::Remote => self.remote.focused_entry(),
        }
    }

    /// The rows to operate on.
    pub fn selected_indices(&self) -> (r: Vec<usize>)
        ensures
            r@ == self@.chosen(),
    {
        if !self.selected.is_empty() {
            list_members(&self.selected)
        } else {
            let mut r: Vec<usize> = Vec::new();
            if let Some(i) = self.focused_index() {
                if i != 0 {
                    r.push(i);
                }
            }
            assert(r@ =~= self@.chosen());
            r
        }
    }

    /// Selects the rows between the anchor and the cursor.
    pub fn update_selection(&mut self)
        ensures
            final(self)@ == old(self)@.range_selected(),
    {
        let anchor: usize = match self.select_anchor {
            Some(a) => a,
            None => {
                return ;
            },
        };
        let cursor: usize = match self.focused_index() {
            Some(c) => c,
            None => {
                return ;
            },
        };
        let low: usize = if anchor < cursor {
            anchor
        } else {
            cursor
        };
        let lo: usize = if low < 1 {
            1
        } else {
            low
        };
        let hi: usize = if anchor < cursor {
            cursor
        } else {
            anchor
        };
        let rows = row_range(lo, hi);
        self.selected = rows;
        self.needs_redraw = true;
        assert(self@.selected =~= old(self)@.range_selected().selected);
        assert(self@ =~= old(self)@.range_selected());
    }
}

/// The set of the rows from `lo` to `hi`.
fn row_range(lo: usize, hi: usize) -> (r: BTreeSet<usize>)
    ensures
        r@ == Set::new(|i: usize| lo <= i <= hi),
{
    let mut r: BTreeSet<usize> = BTreeSet::new();
    proof {
        lemma_key_order(Seq::empty());
    }
    if lo > hi {
        assert(r@ =~= Set::new(|i: usize| lo <= i <= hi));
        return r;
    }
    let mut i: usize = lo;
    assert(r@ =~= Set::new(|k: usize| lo <= k < i));
    while i < hi
        invariant
            vstd::laws_cmp::obeys_cmp::<usize>(),
            lo <= i <= hi,
            r@ == Set::new(|k: usize| lo <= k < i),
        decreases hi - i,
    {
        r.insert(i);
        i += 1;
        assert(r@ =~= Set::new(|k: usize| lo <= k < i));
    }
    r.insert(i);
    assert(r@ =~= Set::new(|i: usize| lo <= i <= hi));
    r
}

} // verus!
