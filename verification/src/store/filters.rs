//! Saved filters: CRUD, ordering, and the apply/preview pipeline that derives
//! rule-sourced categories from the filter set.


use vstd::prelude::*;
use vstd::std_specs::hash::*;
use vstd::string::*;

use super::enrichments::lemma_same_transfers;
use super::order::{by_position, position_leq};
use super::select::{keys_of, lists, select};
use super::{fresh_id, is_fresh, journal_starts, journalled, Error, Tables, TransactionStore};
use crate::model::{Filter, FilterOverride, Timestamp};

verus! {

broadcast use group_hash_axioms;

/// No filter is left out.
pub open spec fn every_filter() -> spec_fn(Filter) -> bool {
    |f: Filter| true
}

/// Filters that apply a category.
pub open spec fn applying(category_id: i64) -> spec_fn(Filter) -> bool {
    |f: Filter| f.category_id == Some(category_id)
}

impl Tables {
    /// The position after the last filter's.
    pub open spec fn next_position(self, position: int) -> bool {
        if self.filters.dom() == Set::<i64>::empty() {
            position == 0
        } else {
            &&& forall|f: i64| #[trigger]
                self.filters.contains_key(f) ==> self.filters[f].position < position
            &&& exists|f: i64| #[trigger]
                self.filters.contains_key(f) && self.filters[f].position == position - 1
        }
    }

    /// The tables with a filter replaced, where there is one.
    pub open spec fn with_filter(self, id: i64, row: Filter) -> Tables {
        if self.filters.contains_key(id) {
            Tables { filters: self.filters.insert(id, row), ..self }
        } else {
            self
        }
    }
}

impl TransactionStore {
    /// List all saved filters, ordered for display and apply precedence.
    pub fn list_filters(&self) -> (rows: Vec<Filter>)
        ensures
            lists(rows@, self@.filters, every_filter(), by_position()),
    {
        let keep = |f: &Filter| -> (b: bool)
            ensures
                b,
        { true };
        select(
            self.filter_table(),
            keep,
            position_leq,
            None,
            Ghost(every_filter()),
            Ghost(by_position()),
        )
    }

    /// List the saved filters that auto-apply the given category, in display
    /// order.
    pub fn filters_using_category(&self, category_id: i64) -> (rows: Vec<Filter>)
        ensures
            lists(rows@, self@.filters, applying(category_id), by_position()),
    {
        let keep = |f: &Filter| -> (b: bool)
            ensures
                b == applying(category_id)(*f),
        {
            match f.category_id {
                Some(c) => c == category_id,
                None => false,
            }
        };
        select(
            self.filter_table(),
            keep,
            position_leq,
            None,
            Ghost(applying(category_id)),
            Ghost(by_position()),
        )
    }

    /// The position after the last filter's; `None` where there is none left.
    fn free_position(&self) -> (position: Option<i64>)
        ensures
            match position {
                Some(p) => self@.next_position(p as int),
                None => self@.next_position(i64::MAX + 1),
            },
    {
        let keys = keys_of(self.filter_table());
        if keys.len() == 0 {
            assert(self@.filters.dom() =~= Set::<i64>::empty()) by {
                assert forall|k: i64| !#[trigger] self@.filters.contains_key(k) by {
                    assert(!keys@.contains(k));
                }
            }
            return Some(0);
        }
        let mut top: i64 = i64::MIN;
        let mut i: usize = 0;
        while i < keys.len()
            invariant
                i <= keys@.len(),
                forall|k: i64| #[trigger] keys@.contains(k) <==> self@.filters.contains_key(k),
                i > 0 ==> exists|f: i64| #[trigger]
                    self@.filters.contains_key(f) && self@.filters[f].position == top,
                forall|j: int|
                    0 <= j < i ==> self@.filters[#[trigger] keys@[j]].position <= top,
            decreases keys@.len() - i,
        {
            let k: i64 = keys[i];
            assert(keys@.contains(keys@[i as int]));
            if let Some(f) = self.filter_row(k) {
                if i == 0 || f.position > top {
                    top = f.position;
                    assert(self@.filters.contains_key(k));
                }
            }
            i += 1;
        }
        proof {
            assert(keys@.contains(keys@[0]));
            assert(self@.filters.dom().contains(keys@[0]));
            assert forall|f: i64| #[trigger] self@.filters.contains_key(f) implies
                self@.filters[f].position <= top by {
                assert(keys@.contains(f));
                let j = choose|j: int| 0 <= j < keys@.len() && keys@[j] == f;
                assert(self@.filters[keys@[j]].position <= top);
            }
        }
        if top == i64::MAX {
            None
        } else {
            Some(top + 1)
        }
    }

    /// The state after [`Self::create_filter`].
    pub open spec fn create_filter_leads_to(
        self,
        name: &str,
        query: &str,
        now: Timestamp,
        result: Result<i64,
        Error,
        >, next: TransactionStore,
    ) -> bool {
        &&& match result {
            Ok(id) => {
                let row = next@.filters[id];
                &&& is_fresh(self@.filters, id)
                &&& row.id == id && row.name@ == name@ && row.query@ == query@
                &&& row.category_id is None && row.override_mode
                    == FilterOverride::Uncategorised && !row.review_required
                &&& self@.next_position(row.position as int) && row.created_at == now
                &&& next@ == (Tables {
                    filters: self@.filters.insert(id, row),
                    ..self@
                })
            },
            Err(Error::NoFreeId) => {
                &&& self@.filters.contains_key(i64::MAX) || self@.next_position(
                    i64::MAX + 1,
                )
                &&& next == self
            },
            Err(_) => false,
        }
        &&& journalled(self, next)
        &&& self@.keyed() ==> next@.keyed()
        &&& self@.exclusive() ==> next@.exclusive()
    }

    /// Create a filter (no category, no override) appended after the last one.
    pub fn create_filter(&mut self, name: &str, query: &str, now: Timestamp) -> (result: Result<
        i64,
        Error,
    >)
        ensures
            old(self).create_filter_leads_to(name, query, now, result, *final(self)),
    {
        proof {
            journal_starts(*self);
        }
        let id: i64 = match fresh_id(self.filter_table()) {
            Some(id) => id,
            None => return Err(Error::NoFreeId),
        };
        let position: i64 = match self.free_position() {
            Some(position) => position,
            None => return Err(Error::NoFreeId),
        };
        self.put_filter(
            Filter {
                id,
                name: name.to_owned(),
                query: query.to_owned(),
                category_id: None,
                override_mode: FilterOverride::Uncategorised,
                review_required: false,
                position,
                created_at: now,
            },
        );
        proof {
            lemma_same_transfers(old(self)@, self@);
        }
        Ok(id)
    }

    fn replace_filter(&mut self, id: i64, row: Filter)
        requires
            old(self)@.keyed(),
            old(self)@.filters.contains_key(id),
            row.id == id,
        ensures
            final(self)@ == old(self)@.with_filter(id, row),
            journalled(*old(self), *final(self)),
            final(self)@.keyed(),
            old(self)@.exclusive() ==> final(self)@.exclusive(),
    {
        self.put_filter(row);
        proof {
            lemma_same_transfers(old(self)@, self@);
        }
    }

    /// The state after [`Self::rename_filter`].
    pub open spec fn rename_filter_leads_to(
        self,
        id: i64,
        name: &str,
        next: TransactionStore,
    ) -> bool {
        &&& next@ == self@.with_filter(id, next@.filters[id])
        &&& self@.filters.contains_key(id) ==> next@.filters[id] == (Filter {
            name: next@.filters[id].name,
            ..self@.filters[id]
        }) && next@.filters[id].name@ == name@
        &&& journalled(self, next)
        &&& next@.keyed()
        &&& self@.exclusive() ==> next@.exclusive()
    }

    /// Rename a filter.
    pub fn rename_filter(&mut self, id: i64, name: &str)
        requires
            old(self)@.keyed(),
        ensures
            old(self).rename_filter_leads_to(id, name, *final(self)),
    {
        proof {
            journal_starts(*self);
        }
        let mut row = match self.filter_row(id) {
            Some(f) => f.clone(),
            None => return,
        };
        row.name = name.to_owned();
        self.replace_filter(id, row);
    }

    /// The state after [`Self::set_filter_query`].
    pub open spec fn set_filter_query_leads_to(
        self,
        id: i64,
        query: &str,
        next: TransactionStore,
    ) -> bool {
        &&& next@ == self@.with_filter(id, next@.filters[id])
        &&& self@.filters.contains_key(id) ==> next@.filters[id] == (Filter {
            query: next@.filters[id].query,
            ..self@.filters[id]
        }) && next@.filters[id].query@ == query@
        &&& journalled(self, next)
        &&& next@.keyed()
        &&& self@.exclusive() ==> next@.exclusive()
    }

    /// Replace a filter's search query.
    pub fn set_filter_query(&mut self, id: i64, query: &str)
        requires
            old(self)@.keyed(),
        ensures
            old(self).set_filter_query_leads_to(id, query, *final(self)),
    {
        proof {
            journal_starts(*self);
        }
        let mut row = match self.filter_row(id) {
            Some(f) => f.clone(),
            None => return,
        };
        row.query = query.to_owned();
        self.replace_filter(id, row);
    }

    /// The state after [`Self::set_filter_category`].
    pub open spec fn set_filter_category_leads_to(
        self,
        id: i64,
        category_id: Option<i64>,
        next: TransactionStore,
    ) -> bool {
        &&& next@ == self@.with_filter(
            id,
            (Filter { category_id, ..self@.filters[id] }),
        )
        &&& journalled(self, next)
        &&& next@.keyed()
        &&& self@.exclusive() ==> next@.exclusive()
    }

    /// Set (or clear) the category a filter auto-applies.
    pub fn set_filter_category(&mut self, id: i64, category_id: Option<i64>)
        requires
            old(self)@.keyed(),
        ensures
            old(self).set_filter_category_leads_to(id, category_id, *final(self)),
    {
        proof {
            journal_starts(*self);
        }
        let mut row = match self.filter_row(id) {
            Some(f) => f.clone(),
            None => return,
        };
        row.category_id = category_id;
        self.replace_filter(id, row);
    }

    /// The state after [`Self::set_filter_override`].
    pub open spec fn set_filter_override_leads_to(
        self,
        id: i64,
        mode: FilterOverride,
        next: TransactionStore,
    ) -> bool {
        &&& next@ == self@.with_filter(
            id,
            (Filter { override_mode: mode, ..self@.filters[id] }),
        )
        &&& journalled(self, next)
        &&& next@.keyed()
        &&& self@.exclusive() ==> next@.exclusive()
    }

    /// Set a filter's override mode.
    pub fn set_filter_override(&mut self, id: i64, mode: FilterOverride)
        requires
            old(self)@.keyed(),
        ensures
            old(self).set_filter_override_leads_to(id, mode, *final(self)),
    {
        proof {
            journal_starts(*self);
        }
        let mut row = match self.filter_row(id) {
            Some(f) => f.clone(),
            None => return,
        };
        row.override_mode = mode;
        self.replace_filter(id, row);
    }

    /// The state after [`Self::set_filter_review`].
    pub open spec fn set_filter_review_leads_to(
        self,
        id: i64,
        review: bool,
        next: TransactionStore,
    ) -> bool {
        &&& next@ == self@.with_filter(
            id,
            (Filter { review_required: review, ..self@.filters[id] }),
        )
        &&& journalled(self, next)
        &&& next@.keyed()
        &&& self@.exclusive() ==> next@.exclusive()
    }

    /// Set whether a filter's applied categories require review (unconfirmed).
    pub fn set_filter_review(&mut self, id: i64, review: bool)
        requires
            old(self)@.keyed(),
        ensures
            old(self).set_filter_review_leads_to(id, review, *final(self)),
    {
        proof {
            journal_starts(*self);
        }
        let mut row = match self.filter_row(id) {
            Some(f) => f.clone(),
            None => return,
        };
        row.review_required = review;
        self.replace_filter(id, row);
    }

    /// The state after [`Self::delete_filter`].
    pub open spec fn delete_filter_leads_to(self, id: i64, next: TransactionStore) -> bool {
        &&& next@ == (Tables { filters: self@.filters.remove(id), ..self@ })
        &&& journalled(self, next)
        &&& self@.keyed() ==> next@.keyed()
        &&& self@.exclusive() ==> next@.exclusive()
    }

    /// Delete a filter.
    pub fn delete_filter(&mut self, id: i64)
        ensures
            old(self).delete_filter_leads_to(id, *final(self)),
    {
        self.drop_filter(id);
        proof {
            lemma_same_transfers(old(self)@, self@);
        }
    }
}

} // verus!
