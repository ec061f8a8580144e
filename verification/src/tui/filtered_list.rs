//! A list that keeps a filtered view (visible indices) over an underlying
//! `Vec<T>`, so that loaded data and the subset on screen stay in step without
//! copying rows.

use vstd::prelude::*;

use crate::find::{first_index, lemma_first_index_none, lemma_first_index_some};

verus! {

/// Positions of a list, in ascending order and without repetition.
pub open spec fn ascending(shown: Seq<usize>, len: int) -> bool {
    &&& forall|i: int| #![auto] 0 <= i < shown.len() ==> shown[i] < len
    &&& forall|i: int, j: int| 0 <= i < j < shown.len() ==> shown[i] < shown[j]
}

/// Every position below `len`.
pub open spec fn every(len: nat) -> Seq<usize> {
    Seq::new(len, |i: int| i as usize)
}

/// The items at the given positions.
pub open spec fn picked<T>(items: Seq<T>, shown: Seq<usize>) -> Seq<T> {
    Seq::new(shown.len(), |i: int| items[shown[i] as int])
}

pub struct FilteredList<T> {
    items: Vec<T>,
    visible: Vec<usize>,
}

impl<T> FilteredList<T> {
    #[verifier::type_invariant]
    spec fn inv(self) -> bool {
        ascending(self.visible@, self.items@.len() as int)
    }

    /// All items, including those hidden by the filter.
    pub closed spec fn all(&self) -> Seq<T> {
        self.items@
    }

    /// The positions of the visible items.
    pub closed spec fn shown(&self) -> Seq<usize> {
        self.visible@
    }

    /// The visible items in display order.
    pub open spec fn rows(&self) -> Seq<T> {
        picked(self.all(), self.shown())
    }

    fn positions(len: usize) -> (all: Vec<usize>)
        ensures
            all@ == every(len as nat),
    {
        let mut all: Vec<usize> = Vec::new();
        let mut i: usize = 0;
        while i < len
            invariant
                i <= len,
                all@ == every(i as nat),
            decreases len - i,
        {
            all.push(i);
            i += 1;
            assert(all@ =~= every(i as nat));
        }
        all
    }

    pub fn new(items: Vec<T>) -> (list: Self)
        ensures
            list.all() == items@,
            list.shown() == every(items@.len()),
            list.rows() == items@,
    {
        let visible = Self::positions(items.len());
        let list = Self { items, visible };
        assert(list.rows() =~= items@);
        list
    }

    /// Replace all items. Resets the visible set to "all items".
    pub fn set_items(&mut self, items: Vec<T>)
        ensures
            final(self).all() == items@,
            final(self).shown() == every(items@.len()),
            final(self).rows() == items@,
    {
        *self = Self::new(items);
    }

    /// Rebuild the visible set. Items for which `pred` returns true are visible.
    pub fn refilter<F: Fn(&T) -> bool>(&mut self, pred: F)
        requires
            forall|i: int|
                0 <= i < old(self).all().len() ==> call_requires(
                    pred,
                    (&#[trigger] old(self).all()[i],),
                ),
        ensures
            final(self).all() == old(self).all(),
            ascending(final(self).shown(), old(self).all().len() as int),
            forall|i: usize|
                i < old(self).all().len() ==> call_ensures(
                    pred,
                    (&old(self).all()[i as int],),
                    #[trigger] final(self).shown().contains(i),
                ),
    {
        let mut visible: Vec<usize> = Vec::new();
        let mut i: usize = 0;
        while i < self.items.len()
            invariant
                *self == *old(self),
                i <= self.items@.len(),
                ascending(visible@, i as int),
                forall|k: int|
                    0 <= k < self.all().len() ==> call_requires(
                        pred,
                        (&#[trigger] self.all()[k],),
                    ),
                forall|k: usize|
                    k < i ==> call_ensures(
                        pred,
                        (&self.items@[k as int],),
                        #[trigger] visible@.contains(k),
                    ),
            decreases self.items@.len() - i,
        {
            assert(self.all()[i as int] == self.items@[i as int]);
            let keep = pred(&self.items[i]);
            let ghost before = visible@;
            if keep {
                visible.push(i);
                assert(visible@.last() == i);
            }
            proof {
                assert forall|k: usize| k < i implies #[trigger] visible@.contains(k)
                    == before.contains(k) by {
                    if before.contains(k) {
                        let j = choose|j: int| 0 <= j < before.len() && before[j] == k;
                        assert(visible@[j] == k);
                    }
                }
                assert(visible@.contains(i) == keep);
            }
            i += 1;
        }
        self.visible = visible;
    }

    /// Rebuild the visible set from a predicate that computes `keep`.
    pub(crate) fn refilter_where<F: Fn(&T) -> bool>(
        &mut self,
        pred: F,
        Ghost(keep): Ghost<spec_fn(T) -> bool>,
    )
        requires
            forall|t: T| #[trigger] call_requires(pred, (&t,)),
            forall|t: T, b: bool| #[trigger] call_ensures(pred, (&t,), b) ==> b == keep(t),
        ensures
            final(self).all() == old(self).all(),
            final(self).rows() == old(self).all().filter(keep),
    {
        let count: usize = self.items.len();
        self.refilter(pred);
        proof {
            assert(self.all().len() == count);
            visible_rows_are_the_filtered_items(self.all(), self.shown(), keep);
        }
    }

    /// Make all items visible (clear any filter).
    pub fn show_all(&mut self)
        ensures
            final(self).all() == old(self).all(),
            final(self).shown() == every(old(self).all().len()),
            final(self).rows() == old(self).all(),
    {
        let visible = Self::positions(self.items.len());
        self.visible = visible;
        assert(picked(self.items@, self.visible@) =~= self.items@);
    }

    /// Number of visible items.
    pub fn len(&self) -> (n: usize)
        ensures
            n == self.rows().len(),
    {
        self.visible.len()
    }

    pub fn is_empty(&self) -> (empty: bool)
        ensures
            empty == (self.rows().len() == 0),
    {
        self.visible.len() == 0
    }

    /// The visible items in display order.
    pub fn iter(&self) -> (rows: Vec<&T>)
        ensures
            rows@.len() == self.rows().len(),
            forall|i: int| 0 <= i < rows@.len() ==> *#[trigger] rows@[i] == self.rows()[i],
    {
        proof {
            use_type_invariant(self);
        }
        let mut rows: Vec<&T> = Vec::new();
        let mut i: usize = 0;
        while i < self.visible.len()
            invariant
                i <= self.visible@.len(),
                ascending(self.visible@, self.items@.len() as int),
                rows@.len() == i,
                forall|k: int| 0 <= k < i ==> *#[trigger] rows@[k] == self.rows()[k],
            decreases self.visible@.len() - i,
        {
            rows.push(&self.items[self.visible[i]]);
            i += 1;
        }
        rows
    }

    /// Get the visible item at `visible_idx` (i.e. as the user sees them).
    pub fn get(&self, visible_idx: usize) -> (item: Option<&T>)
        ensures
            item == if visible_idx < self.rows().len() {
                Some(&self.rows()[visible_idx as int])
            } else {
                None
            },
    {
        proof {
            use_type_invariant(self);
        }
        if visible_idx < self.visible.len() {
            Some(&self.items[self.visible[visible_idx]])
        } else {
            None
        }
    }

    /// Access the full underlying slice, including items hidden by the filter.
    pub fn items(&self) -> (items: &[T])
        ensures
            items@ == self.all(),
    {
        self.items.as_slice()
    }

    /// As [`Self::position`], where `pred` tests for `wanted`.
    pub(crate) fn position_where<F: Fn(&T) -> bool>(
        &self,
        pred: F,
        Ghost(wanted): Ghost<spec_fn(T) -> bool>,
    ) -> (pos: Option<usize>)
        requires
            forall|item: T| call_requires(pred, (&item,)),
            forall|item: T, b: bool| call_ensures(pred, (&item,), b) ==> b == wanted(item),
        ensures
            match pos {
                Some(p) => first_index(self.rows(), wanted) == Some(p as int),
                None => first_index(self.rows(), wanted) is None,
            },
    {
        let ghost rows = self.rows();
        let pos = self.position(pred);
        proof {
            match pos {
                Some(p) => {
                    assert forall|i: int| 0 <= i < p implies !wanted(#[trigger] rows[i]) by {
                        assert(call_ensures(pred, (&rows[i],), false));
                    }
                    lemma_first_index_some(rows, wanted, p as int);
                },
                None => {
                    assert forall|i: int| 0 <= i < rows.len() implies !wanted(
                        #[trigger] rows[i],
                    ) by {
                        assert(call_ensures(pred, (&rows[i],), false));
                    }
                    lemma_first_index_none(rows, wanted);
                },
            }
        }
        pos
    }

    /// Position (within the visible list) of the first item matching `pred`.
    pub fn position<F: Fn(&T) -> bool>(&self, pred: F) -> (pos: Option<usize>)
        requires
            forall|i: int|
                0 <= i < self.rows().len() ==> call_requires(pred, (&#[trigger] self.rows()[i],)),
        ensures
            match pos {
                Some(p) => {
                    &&& p < self.rows().len()
                    &&& call_ensures(pred, (&self.rows()[p as int],), true)
                    &&& forall|i: int|
                        0 <= i < p ==> call_ensures(pred, (&#[trigger] self.rows()[i],), false)
                },
                None => forall|i: int|
                    0 <= i < self.rows().len() ==> call_ensures(
                        pred,
                        (&#[trigger] self.rows()[i],),
                        false,
                    ),
            },
    {
        proof {
            use_type_invariant(self);
        }
        let mut i: usize = 0;
        while i < self.visible.len()
            invariant
                i <= self.visible@.len(),
                ascending(self.visible@, self.items@.len() as int),
                forall|k: int|
                    0 <= k < self.rows().len() ==> call_requires(
                        pred,
                        (&#[trigger] self.rows()[k],),
                    ),
                forall|k: int|
                    0 <= k < i ==> call_ensures(pred, (&#[trigger] self.rows()[k],), false),
            decreases self.visible@.len() - i,
        {
            assert(self.rows()[i as int] == self.items@[self.visible@[i as int] as int]);
            if pred(&self.items[self.visible[i]]) {
                return Some(i);
            }
            i += 1;
        }
        None
    }
}

impl<T> Default for FilteredList<T> {
    fn default() -> (list: Self)
        ensures
            list.all() == Seq::<T>::empty(),
            list.rows() == Seq::<T>::empty(),
    {
        Self::new(Vec::new())
    }
}

spec fn without_top(a: Seq<usize>, len: int) -> Seq<usize> {
    if a.contains((len - 1) as usize) {
        a.drop_last()
    } else {
        a
    }
}

proof fn lemma_without_top(a: Seq<usize>, len: int)
    requires
        0 < len <= usize::MAX + 1,
        ascending(a, len),
    ensures
        ascending(without_top(a, len), len - 1),
        a.contains((len - 1) as usize) ==> a.len() > 0 && a.last() == (len - 1) as usize,
        forall|i: usize|
            i < len - 1 ==> #[trigger] without_top(a, len).contains(i) == a.contains(i),
{
    let top = (len - 1) as usize;
    if a.contains(top) {
        let k = choose|k: int| 0 <= k < a.len() && a[k] == top;
        assert(k == a.len() - 1) by {
            if k < a.len() - 1 {
                assert(a[k] < a[a.len() - 1]);
            }
        }
        let x = a.drop_last();
        assert forall|i: usize| i < len - 1 implies #[trigger] x.contains(i) == a.contains(i) by {
            if a.contains(i) {
                let j = choose|j: int| 0 <= j < a.len() && a[j] == i;
                assert(x[j] == i);
            }
            if x.contains(i) {
                let j = choose|j: int| 0 <= j < x.len() && x[j] == i;
                assert(a[j] == i);
            }
        }
        assert forall|i: int| 0 <= i < x.len() implies x[i] < len - 1 by {
            assert(a[i] < a[a.len() - 1]);
        }
    } else {
        assert forall|i: int| 0 <= i < a.len() implies a[i] < len - 1 by {
            assert(a.contains(a[i]));
        }
    }
}

/// The visible rows under a predicate are the items it holds of, in their order.
pub proof fn visible_rows_are_the_filtered_items<T>(
    items: Seq<T>,
    shown: Seq<usize>,
    keep: spec_fn(T) -> bool,
)
    requires
        items.len() <= usize::MAX,
        ascending(shown, items.len() as int),
        forall|i: usize|
            i < items.len() ==> #[trigger] shown.contains(i) == keep(items[i as int]),
    ensures
        picked(items, shown) == items.filter(keep),
    decreases items.len(),
{
    reveal(Seq::filter);
    if items.len() == 0 {
        if shown.len() > 0 {
            assert(shown[0] < 0);
        }
        assert(picked(items, shown) =~= items.filter(keep));
    } else {
        let n = items.len() as int;
        let rest = items.drop_last();
        lemma_without_top(shown, n);
        let fewer = without_top(shown, n);
        assert forall|i: usize| i < rest.len() implies #[trigger] fewer.contains(i) == keep(
            rest[i as int],
        ) by {
            assert(shown.contains(i) == keep(items[i as int]));
        }
        visible_rows_are_the_filtered_items(rest, fewer, keep);
        assert(shown.contains((n - 1) as usize) == keep(items[n - 1]));
        if keep(items.last()) {
            assert(picked(items, shown) =~= picked(rest, fewer).push(items.last()));
        } else {
            assert(picked(items, shown) =~= picked(rest, fewer));
        }
    }
}

} // verus!
