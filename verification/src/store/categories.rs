//! Category CRUD: create/lookup, rename/merge/delete, and per-category
//! transaction counts and listings.

use std::collections::HashMap;

use vstd::prelude::*;
use vstd::seq_lib::*;
use vstd::std_specs::hash::*;
use vstd::string::*;

use super::enrichments::lemma_same_transfers;
use super::order::{by_path, lemma_by_path, lemma_newest_first, newer, newest_first, path_leq};
use super::select::{keys_of, lists, lists_up_to, select};
use super::{
    fresh_id, is_fresh, journal_goes_on, journal_starts, journalled, Error, Tables,
    TransactionStore,
};
use crate::fuzzy::{fuzzy_score, score_of};
use crate::model::{Category, Filter, Timestamp, Transaction, TransactionEnrichment};
use crate::sort::{best, insert_marked, marked, sorted, total, transitive};
use crate::text::{same, strip_end, strip_start, stripped_end, stripped_start, trim, trimmed};

verus! {

broadcast use group_hash_axioms;

/// A path as it is stored: without whitespace and slashes around it.
pub open spec fn normal_path(path: Seq<char>) -> Seq<char> {
    stripped_end(stripped_start(trimmed(path), '/'), '/')
}

fn normalise_path(path: &str) -> (normal: &str)
    ensures
        normal@ == normal_path(path@),
{
    strip_end(strip_start(trim(path), '/'), '/')
}

impl Tables {
    /// Some category has the path.
    pub open spec fn has_path(self, path: Seq<char>) -> bool {
        exists|id: i64| #[trigger]
            self.categories.contains_key(id) && self.categories[id].path@ == path
    }

    /// No two categories have one path.
    pub open spec fn paths_differ(self) -> bool {
        forall|a: i64, b: i64| #[trigger]
            self.categories.contains_key(a) && #[trigger] self.categories.contains_key(b)
                && self.categories[a].path@ == self.categories[b].path@ ==> a == b
    }

    /// The transactions in a category.
    pub open spec fn members(self, category_id: i64) -> Set<i64> {
        Set::new(
            |tx: i64|
                self.enrichments.contains_key(tx) && self.enrichments[tx].category_id == Some(
                    category_id,
                ),
        )
    }

    /// The enrichments with every category `from` replaced.
    pub open spec fn moved_enrichments(self, from: i64, to: i64, now: Timestamp) -> Map<
        i64,
        TransactionEnrichment,
    > {
        self.enrichments.map_values(
            |e: TransactionEnrichment|
                if e.category_id == Some(from) {
                    TransactionEnrichment { category_id: Some(to), updated_at: now, ..e }
                } else {
                    e
                },
        )
    }

    /// The filters with every category `from` replaced.
    pub open spec fn repointed_filters(self, from: i64, to: Option<i64>) -> Map<i64, Filter> {
        self.filters.map_values(
            |f: Filter|
                if f.category_id == Some(from) {
                    Filter { category_id: to, ..f }
                } else {
                    f
                },
        )
    }
}

/// No category is left out.
pub open spec fn every_category() -> spec_fn(Category) -> bool {
    |c: Category| true
}

/// Categories that match a fuzzy query.
pub open spec fn scores(query: Seq<char>) -> spec_fn(Category) -> bool {
    |c: Category| score_of(query, c.path@) is Some
}

/// The score of a category.
pub open spec fn mark(query: Seq<char>) -> spec_fn(Category) -> int {
    |c: Category|
        match score_of(query, c.path@) {
            Some(m) => m as int,
            None => -1,
        }
}

/// Better matches first; equal ones in path order.
pub open spec fn best_first(query: Seq<char>) -> spec_fn(Category, Category) -> bool {
    best(mark(query), by_path())
}

impl TransactionStore {
    /// List all categories in path order.
    pub fn list_categories(&self) -> (rows: Vec<Category>)
        ensures
            lists(rows@, self@.categories, every_category(), by_path()),
    {
        let keep = |c: &Category| -> (b: bool)
            ensures
                b,
        { true };
        proof {
            lemma_by_path();
        }
        select(
            self.category_table(),
            keep,
            path_leq,
            None,
            Ghost(every_category()),
            Ghost(by_path()),
        )
    }

    /// Find categories matching a fuzzy query.
    pub fn find_categories(&self, query: &str) -> (rows: Vec<Category>)
        ensures
            sorted(rows@, best_first(query@)),
            exists|all: Seq<Category>| #[trigger]
                lists(all, self@.categories, every_category(), by_path())
                    && rows@.to_multiset() == all.filter(scores(query@)).to_multiset(),
    {
        let all = self.list_categories();
        let ghost wanted = scores(query@);
        let mut rows: Vec<Category> = Vec::new();
        let mut marks: Vec<u64> = Vec::new();
        let mut i: usize = 0;
        proof {
            assert(all@.take(0) =~= Seq::empty());
            reveal(Seq::filter);
            lemma_by_path();
        }
        while i < all.len()
            invariant
                i <= all@.len(),
                total(by_path()),
                transitive(by_path()),
                wanted == scores(query@),
                sorted(rows@, best_first(query@)),
                marked(rows@, marks@, mark(query@)),
                rows@.to_multiset() == all@.take(i as int).filter(wanted).to_multiset(),
            decreases all@.len() - i,
        {
            let ghost prefix = all@.take(i + 1);
            let ghost before = all@.take(i as int).filter(wanted);
            assert(prefix.drop_last() =~= all@.take(i as int));
            assert(prefix.last() == all@[i as int]);
            proof {
                reveal(Seq::filter);
            }
            if let Some(m) = fuzzy_score(query, &all[i].path) {
                insert_marked(
                    &mut rows,
                    &mut marks,
                    all[i].clone(),
                    m as u64,
                    &path_leq,
                    Ghost(mark(query@)),
                    Ghost(by_path()),
                );
                proof {
                    broadcast use group_to_multiset_ensures;

                    assert(prefix.filter(wanted) == before.push(all@[i as int]));
                }
            }
            i += 1;
        }
        assert(all@.take(i as int) =~= all@);
        rows
    }

    /// The category with exactly this path, other than `except`.
    fn id_at(&self, path: &str, except: Option<i64>) -> (id: Option<i64>)
        ensures
            match id {
                Some(id) => self@.categories.contains_key(id) && self@.categories[id].path@ == path@
                    && except != Some(id),
                None => forall|id: i64| #[trigger]
                    self@.categories.contains_key(id) && except != Some(id)
                        ==> self@.categories[id].path@ != path@,
            },
    {
        let keys = keys_of(self.category_table());
        let mut i: usize = 0;
        while i < keys.len()
            invariant
                i <= keys@.len(),
                forall|k: i64| #[trigger]
                    keys@.contains(k) <==> self@.categories.contains_key(k),
                forall|j: int|
                    0 <= j < i ==> except == Some(#[trigger] keys@[j])
                        || self@.categories[keys@[j]].path@ != path@,
            decreases keys@.len() - i,
        {
            let k: i64 = keys[i];
            assert(keys@.contains(keys@[i as int]));
            let skip = match except {
                Some(e) => e == k,
                None => false,
            };
            if !skip {
                if let Some(c) = self.category_row(k) {
                    if same(&c.path, path) {
                        return Some(k);
                    }
                }
            }
            i += 1;
        }
        assert forall|id: i64| #[trigger]
            self@.categories.contains_key(id) && except != Some(id) implies
            self@.categories[id].path@ != path@ by {
            assert(keys@.contains(id));
            let j = choose|j: int| 0 <= j < keys@.len() && keys@[j] == id;
            assert(except == Some(keys@[j]) || self@.categories[keys@[j]].path@ != path@);
        }
        None
    }

    /// The state after [`Self::get_or_create_category`].
    pub open spec fn get_or_create_category_leads_to(
        self,
        path: &str,
        now: Timestamp,
        result: Result<i64,
        Error,
        >, next: TransactionStore,
    ) -> bool {
        &&& match result {
            Ok(id) => if self@.has_path(normal_path(path@)) {
                &&& next == self
                &&& self@.categories.contains_key(id)
                &&& self@.categories[id].path@ == normal_path(path@)
            } else {
                let row = next@.categories[id];
                &&& is_fresh(self@.categories, id)
                &&& row.id == id && row.path@ == normal_path(path@) && row.created_at == now
                &&& next@ == (Tables {
                    categories: self@.categories.insert(id, row),
                    ..self@
                })
            },
            Err(Error::NoFreeId) => {
                &&& !self@.has_path(normal_path(path@))
                &&& self@.categories.contains_key(i64::MAX)
                &&& next == self
            },
            Err(_) => false,
        }
        &&& journalled(self, next)
        &&& self@.keyed() ==> next@.keyed()
        &&& self@.exclusive() ==> next@.exclusive()
        &&& self@.paths_differ() ==> next@.paths_differ()
    }

    /// Get or create a category by path.
    pub fn get_or_create_category(&mut self, path: &str, now: Timestamp) -> (result: Result<
        i64,
        Error,
    >)
        ensures
            old(self).get_or_create_category_leads_to(path, now, result, *final(self)),
    {
        proof {
            journal_starts(*self);
        }
        let normalised = normalise_path(path);
        if let Some(id) = self.id_at(normalised, None) {
            return Ok(id);
        }
        let id: i64 = match fresh_id(self.category_table()) {
            Some(id) => id,
            None => return Err(Error::NoFreeId),
        };
        self.put_category(Category { id, path: normalised.to_owned(), created_at: now });
        proof {
            lemma_same_transfers(old(self)@, self@);
        }
        Ok(id)
    }

    /// Get a category by ID.
    pub fn get_category(&self, id: i64) -> (category: Option<Category>)
        ensures
            category == if self@.categories.contains_key(id) {
                Some(self@.categories[id])
            } else {
                None
            },
    {
        match self.category_row(id) {
            Some(c) => Some(c.clone()),
            None => None,
        }
    }

    /// Get the category assigned to a transaction.
    pub fn get_transaction_category(&self, transaction_id: i64) -> (category: Option<Category>)
        ensures
            category == self@.category_of(transaction_id),
    {
        match self.enrichment_row(transaction_id) {
            Some(e) => match e.category_id {
                Some(id) => self.get_category(id),
                None => None,
            },
            None => None,
        }
    }

    /// Get categories for multiple transactions in bulk.
    /// Returns a map of transaction_id -> category_path.
    pub fn get_categories_for_transactions(&self, transaction_ids: &Vec<i64>) -> (paths: HashMap<
        i64,
        String,
    >)
        ensures
            forall|tx: i64| #[trigger]
                paths@.contains_key(tx) <==> transaction_ids@.contains(tx)
                    && self@.category_of(tx) is Some,
            forall|tx: i64| #[trigger]
                paths@.contains_key(tx) ==> paths@[tx]@ == self@.category_of(tx)->0.path@,
    {
        let mut paths: HashMap<i64, String> = HashMap::new();
        let mut i: usize = 0;
        while i < transaction_ids.len()
            invariant
                i <= transaction_ids@.len(),
                forall|tx: i64| #[trigger]
                    paths@.contains_key(tx) <==> transaction_ids@.take(i as int).contains(tx)
                        && self@.category_of(tx) is Some,
                forall|tx: i64| #[trigger]
                    paths@.contains_key(tx) ==> paths@[tx]@ == self@.category_of(tx)->0.path@,
            decreases transaction_ids@.len() - i,
        {
            let tx: i64 = transaction_ids[i];
            proof {
                super::select::lemma_take_contains(transaction_ids@, i as int);
            }
            if let Some(category) = self.get_transaction_category(tx) {
                paths.insert(tx, category.path);
            }
            i += 1;
        }
        assert(transaction_ids@.take(i as int) =~= transaction_ids@);
        paths
    }

    /// The state after [`Self::rename_category`].
    pub open spec fn rename_category_leads_to(
        self,
        category_id: i64,
        new_path: &str,
        result: Result<(),
        Error,
        >, next: TransactionStore,
    ) -> bool {
        &&& match result {
            Ok(_) => {
                &&& !self@.path_taken(normal_path(new_path@), category_id)
                &&& if self@.categories.contains_key(category_id) {
                    let row = next@.categories[category_id];
                    &&& row == (Category {
                        path: row.path,
                        ..self@.categories[category_id]
                    })
                    &&& row.path@ == normal_path(new_path@)
                    &&& next@ == (Tables {
                        categories: self@.categories.insert(category_id, row),
                        ..self@
                    })
                } else {
                    next == self
                }
            },
            Err(Error::CategoryExists(path)) => {
                &&& self@.path_taken(normal_path(new_path@), category_id)
                &&& path@ == normal_path(new_path@)
                &&& next == self
            },
            Err(_) => false,
        }
        &&& journalled(self, next)
        &&& next@.keyed()
        &&& self@.exclusive() ==> next@.exclusive()
        &&& self@.paths_differ() ==> next@.paths_differ()
    }

    /// Rename a category. Returns error if new name already exists.
    pub fn rename_category(&mut self, category_id: i64, new_path: &str) -> (result: Result<
        (),
        Error,
    >)
        requires
            old(self)@.keyed(),
        ensures
            old(self).rename_category_leads_to(category_id, new_path, result, *final(self)),
    {
        proof {
            journal_starts(*self);
        }
        let normalised = normalise_path(new_path);
        if self.id_at(normalised, Some(category_id)).is_some() {
            return Err(Error::CategoryExists(normalised.to_owned()));
        }
        if let Some(c) = self.category_row(category_id) {
            let row = Category { id: c.id, path: normalised.to_owned(), created_at: c.created_at };
            self.put_category(row);
            proof {
                lemma_same_transfers(old(self)@, self@);
            }
        }
        Ok(())
    }

    /// Move every enrichment of a category to another; `None` removes them.
    fn move_enrichments(&mut self, from: i64, to: i64, now: Timestamp)
        requires
            old(self)@.keyed(),
        ensures
            final(self)@ == (Tables {
                enrichments: old(self)@.moved_enrichments(from, to, now),
                ..old(self)@
            }),
            journalled(*old(self), *final(self)),
            final(self)@.keyed(),
    {
        let ghost start = self@;
        let ghost goal = start.moved_enrichments(from, to, now);
        let keys = keys_of(self.enrichment_table());
        let mut i: usize = 0;
        proof {
            journal_starts(*self);
            assert(self@ == (Tables { enrichments: self@.enrichments, ..start }));
        }
        while i < keys.len()
            invariant
                i <= keys@.len(),
                keys@.no_duplicates(),
                forall|k: i64| #[trigger] keys@.contains(k) <==> start.enrichments.contains_key(k),
                goal == start.moved_enrichments(from, to, now),
                start.keyed(),
                self@ == (Tables { enrichments: self@.enrichments, ..start }),
                self@.enrichments.dom() == start.enrichments.dom(),
                forall|j: int|
                    0 <= j < i ==> self@.enrichments[#[trigger] keys@[j]] == goal[keys@[j]],
                forall|j: int|
                    i <= j < keys@.len() ==> self@.enrichments[#[trigger] keys@[j]]
                        == start.enrichments[keys@[j]],
                journalled(*old(self), *self),
            decreases keys@.len() - i,
        {
            let k: i64 = keys[i];
            assert(keys@.contains(keys@[i as int]));
            let ghost before = *self;
            if let Some(e) = self.enrichment_row(k) {
                let moves = match e.category_id {
                    Some(c) => c == from,
                    None => false,
                };
                if moves {
                    let row = TransactionEnrichment {
                        category_id: Some(to),
                        updated_at: now,
                        ..*e
                    };
                    self.put_enrichment(row);
                    proof {
                        journal_goes_on(*old(self), before, *self);
                        assert(self@.enrichments.dom() =~= start.enrichments.dom());
                    }
                }
            }
            i += 1;
        }
        assert(self@.enrichments =~= goal) by {
            assert forall|k: i64| #[trigger] goal.contains_key(k) implies self@.enrichments[k]
                == goal[k] by {
                assert(keys@.contains(k));
                let j = choose|j: int| 0 <= j < keys@.len() && keys@[j] == k;
                assert(self@.enrichments[keys@[j]] == goal[keys@[j]]);
            }
        }
    }

    fn repoint_filters(&mut self, from: i64, to: Option<i64>)
        requires
            old(self)@.keyed(),
        ensures
            final(self)@ == (Tables {
                filters: old(self)@.repointed_filters(from, to),
                ..old(self)@
            }),
            journalled(*old(self), *final(self)),
            final(self)@.keyed(),
    {
        let ghost start = self@;
        let ghost goal = start.repointed_filters(from, to);
        let keys = keys_of(self.filter_table());
        let mut i: usize = 0;
        proof {
            journal_starts(*self);
        }
        while i < keys.len()
            invariant
                i <= keys@.len(),
                keys@.no_duplicates(),
                forall|k: i64| #[trigger] keys@.contains(k) <==> start.filters.contains_key(k),
                goal == start.repointed_filters(from, to),
                start.keyed(),
                self@ == (Tables { filters: self@.filters, ..start }),
                self@.filters.dom() == start.filters.dom(),
                forall|j: int| 0 <= j < i ==> self@.filters[#[trigger] keys@[j]] == goal[keys@[j]],
                forall|j: int|
                    i <= j < keys@.len() ==> self@.filters[#[trigger] keys@[j]]
                        == start.filters[keys@[j]],
                journalled(*old(self), *self),
            decreases keys@.len() - i,
        {
            let k: i64 = keys[i];
            assert(keys@.contains(keys@[i as int]));
            let ghost before = *self;
            if let Some(f) = self.filter_row(k) {
                let moves = match f.category_id {
                    Some(c) => c == from,
                    None => false,
                };
                if moves {
                    let mut row = f.clone();
                    row.category_id = to;
                    self.put_filter(row);
                    proof {
                        journal_goes_on(*old(self), before, *self);
                        assert(self@.filters.dom() =~= start.filters.dom());
                    }
                }
            }
            i += 1;
        }
        assert(self@.filters =~= goal) by {
            assert forall|k: i64| #[trigger] goal.contains_key(k) implies self@.filters[k]
                == goal[k] by {
                assert(keys@.contains(k));
                let j = choose|j: int| 0 <= j < keys@.len() && keys@[j] == k;
                assert(self@.filters[keys@[j]] == goal[keys@[j]]);
            }
        }
    }

    /// The state after [`Self::merge_categories`].
    pub open spec fn merge_categories_leads_to(
        self,
        source_id: i64,
        target_id: i64,
        now: Timestamp,
        next: TransactionStore,
    ) -> bool {
        &&& next@ == (Tables {
            enrichments: self@.moved_enrichments(source_id, target_id, now),
            filters: self@.repointed_filters(source_id, Some(target_id)),
            categories: self@.categories.remove(source_id),
            ..self@
        })
        &&& journalled(self, next)
        &&& next@.keyed()
        &&& self@.exclusive() ==> next@.exclusive()
        &&& self@.paths_differ() ==> next@.paths_differ()
    }

    /// Merge source category into target category. Moves all transactions from
    /// source to target, repoints the filters that applied the source, then
    /// deletes source.
    pub fn merge_categories(&mut self, source_id: i64, target_id: i64, now: Timestamp)
        requires
            old(self)@.keyed(),
        ensures
            old(self).merge_categories_leads_to(source_id, target_id, now, *final(self)),
    {
        self.move_enrichments(source_id, target_id, now);
        let ghost one = *self;
        self.repoint_filters(source_id, Some(target_id));
        let ghost two = *self;
        self.drop_category(source_id);
        proof {
            journal_goes_on(*old(self), one, two);
            journal_goes_on(*old(self), two, *self);
            lemma_same_transfers(old(self)@, self@);
        }
    }

    /// Remove every enrichment of a category; how many there were.
    fn drop_enrichments_of(&mut self, category_id: i64) -> (n: usize)
        requires
            old(self)@.keyed(),
        ensures
            final(self)@ == (Tables {
                enrichments: old(self)@.enrichments.remove_keys(old(self)@.members(category_id)),
                ..old(self)@
            }),
            n == old(self)@.members(category_id).len(),
            journalled(*old(self), *final(self)),
            final(self)@.keyed(),
    {
        let ghost start = self@;
        let keys = keys_of(self.enrichment_table());
        let mut n: usize = 0;
        let mut i: usize = 0;
        let ghost mut gone: Set<i64> = Set::empty();
        proof {
            journal_starts(*self);
            assert(start.enrichments.remove_keys(gone) =~= start.enrichments);
        }
        while i < keys.len()
            invariant
                i <= keys@.len(),
                keys@.no_duplicates(),
                forall|k: i64| #[trigger] keys@.contains(k) <==> start.enrichments.contains_key(k),
                start.keyed(),
                n <= i,
                gone.finite(),
                n == gone.len(),
                forall|k: i64| #[trigger]
                    gone.contains(k) <==> keys@.take(i as int).contains(k) && start.members(
                        category_id,
                    ).contains(k),
                self@ == (Tables { enrichments: start.enrichments.remove_keys(gone), ..start }),
                journalled(*old(self), *self),
            decreases keys@.len() - i,
        {
            let k: i64 = keys[i];
            assert(keys@.contains(keys@[i as int]));
            let ghost before = *self;
            proof {
                super::select::lemma_take_contains(keys@, i as int);
                assert(!keys@.take(i as int).contains(k));
            }
            if let Some(e) = self.enrichment_row(k) {
                let goes = match e.category_id {
                    Some(c) => c == category_id,
                    None => false,
                };
                if goes {
                    self.drop_enrichment(k);
                    n += 1;
                    proof {
                        journal_goes_on(*old(self), before, *self);
                        assert(start.enrichments.remove_keys(gone).remove(k)
                            =~= start.enrichments.remove_keys(gone.insert(k)));
                        gone = gone.insert(k);
                    }
                }
            }
            i += 1;
        }
        proof {
            assert(keys@.take(i as int) =~= keys@);
            assert(gone =~= start.members(category_id));
        }
        n
    }

    /// The state after [`Self::delete_category`].
    pub open spec fn delete_category_leads_to(
        self,
        category_id: i64,
        affected: usize,
        next: TransactionStore,
    ) -> bool {
        &&& affected == self@.members(category_id).len()
        &&& next@ == (Tables {
            enrichments: self@.enrichments.remove_keys(self@.members(category_id)),
            filters: self@.repointed_filters(category_id, None),
            categories: self@.categories.remove(category_id),
            ..self@
        })
        &&& journalled(self, next)
        &&& next@.keyed()
        &&& self@.exclusive() ==> next@.exclusive()
        &&& self@.paths_differ() ==> next@.paths_differ()
    }

    /// Delete a category, dropping its enrichments so those transactions fall
    /// back to uncategorised, and clearing the filters that applied it. Returns
    /// the number of transactions that lost their category.
    pub fn delete_category(&mut self, category_id: i64) -> (affected: usize)
        requires
            old(self)@.keyed(),
        ensures
            old(self).delete_category_leads_to(category_id, affected, *final(self)),
    {
        let affected: usize = self.drop_enrichments_of(category_id);
        let ghost one = *self;
        self.repoint_filters(category_id, None);
        let ghost two = *self;
        self.drop_category(category_id);
        proof {
            journal_goes_on(*old(self), one, two);
            journal_goes_on(*old(self), two, *self);
            lemma_same_transfers(old(self)@, self@);
        }
        affected
    }

    /// Get category by path.
    pub fn get_category_by_path(&self, path: &str) -> (category: Option<Category>)
        ensures
            match category {
                Some(c) => c.path@ == normal_path(path@) && self@.categories.contains_value(c),
                None => !self@.has_path(normal_path(path@)),
            },
    {
        match self.id_at(normalise_path(path), None) {
            Some(id) => self.get_category(id),
            None => None,
        }
    }

    /// Count transactions in a category.
    pub fn count_transactions_in_category(&self, category_id: i64) -> (n: usize)
        ensures
            n == self@.members(category_id).len(),
    {
        let keys = keys_of(self.enrichment_table());
        let mut n: usize = 0;
        let mut i: usize = 0;
        let ghost mut seen: Set<i64> = Set::empty();
        while i < keys.len()
            invariant
                i <= keys@.len(),
                keys@.no_duplicates(),
                forall|k: i64| #[trigger]
                    keys@.contains(k) <==> self@.enrichments.contains_key(k),
                n <= i,
                seen.finite(),
                n == seen.len(),
                forall|k: i64| #[trigger]
                    seen.contains(k) <==> keys@.take(i as int).contains(k) && self@.members(
                        category_id,
                    ).contains(k),
            decreases keys@.len() - i,
        {
            let k: i64 = keys[i];
            assert(keys@.contains(keys@[i as int]));
            proof {
                super::select::lemma_take_contains(keys@, i as int);
                assert(!keys@.take(i as int).contains(k));
            }
            if let Some(e) = self.enrichment_row(k) {
                let counts = match e.category_id {
                    Some(c) => c == category_id,
                    None => false,
                };
                if counts {
                    n += 1;
                    proof {
                        seen = seen.insert(k);
                    }
                }
            }
            i += 1;
        }
        proof {
            assert(keys@.take(i as int) =~= keys@);
            assert(seen =~= self@.members(category_id));
        }
        n
    }

    /// Transactions whose enrichment assigns them exactly `category_id`, newest
    /// first. Backs the Categories tab "view transactions" side panel.
    pub fn query_transactions_in_category(&self, category_id: i64, limit: Option<usize>) -> (rows:
        Vec<Transaction>)
        ensures
            lists_up_to(
                rows@,
                self@.transactions,
                self@.in_category(category_id),
                newest_first(),
                limit,
            ),
    {
        let keep = |tx: &Transaction| -> (b: bool)
            ensures
                b == self@.in_category(category_id)(*tx),
        {
            self.is_live(tx) && match self.enrichment_row(tx.id) {
                Some(e) => match e.category_id {
                    Some(c) => c == category_id,
                    None => false,
                },
                None => false,
            }
        };
        proof {
            lemma_newest_first();
        }
        select(
            self.transaction_table(),
            keep,
            newer,
            limit,
            Ghost(self@.in_category(category_id)),
            Ghost(newest_first()),
        )
    }

    /// Transaction counts for every category that has at least one enrichment.
    /// Categories with zero transactions are absent from the returned map.
    pub fn get_category_transaction_counts(&self) -> (counts: HashMap<i64, usize>)
        ensures
            forall|c: i64| #[trigger]
                counts@.contains_key(c) <==> self@.members(c).len() > 0,
            forall|c: i64| #[trigger]
                counts@.contains_key(c) ==> counts@[c] == self@.members(c).len(),
    {
        let keys = keys_of(self.enrichment_table());
        let mut counts: HashMap<i64, usize> = HashMap::new();
        let mut i: usize = 0;
        proof {
            assert forall|c: i64| #[trigger] counts@.contains_key(c) <==> self.seen_in(
                keys@.take(0),
                c,
            ).len() > 0 by {
                assert(self.seen_in(keys@.take(0), c) =~= Set::empty());
            }
            assert forall|c: i64| (#[trigger] self.seen_in(keys@.take(0), c)).finite() by {
                assert(self.seen_in(keys@.take(0), c) =~= Set::empty());
            }
        }
        while i < keys.len()
            invariant
                i <= keys@.len(),
                keys@.no_duplicates(),
                forall|k: i64| #[trigger]
                    keys@.contains(k) <==> self@.enrichments.contains_key(k),
                forall|c: i64| #[trigger]
                    counts@.contains_key(c) <==> self.seen_in(keys@.take(i as int), c).len() > 0,
                forall|c: i64| #[trigger]
                    counts@.contains_key(c) ==> counts@[c] == self.seen_in(
                        keys@.take(i as int),
                        c,
                    ).len() && counts@[c] <= i,
                forall|c: i64| (#[trigger] self.seen_in(keys@.take(i as int), c)).finite(),
            decreases keys@.len() - i,
        {
            let k: i64 = keys[i];
            assert(keys@.contains(keys@[i as int]));
            let ghost seen = keys@.take(i as int);
            let ghost next = keys@.take(i + 1);
            proof {
                super::select::lemma_take_contains(keys@, i as int);
                assert(!seen.contains(k));
            }
            let ghost before = counts@;
            if let Some(e) = self.enrichment_row(k) {
                if let Some(c) = e.category_id {
                    let n: usize = match counts.get(&c) {
                        Some(n) => *n,
                        None => 0,
                    };
                    counts.insert(c, n + 1);
                    proof {
                        assert(self.seen_in(next, c) =~= self.seen_in(seen, c).insert(k));
                        assert(!self.seen_in(seen, c).contains(k));
                    }
                }
            }
            proof {
                let cat = self@.enrichments[k].category_id;
                assert forall|c: i64| cat != Some(c) implies #[trigger] self.seen_in(next, c)
                    == self.seen_in(seen, c) by {
                    assert(self.seen_in(next, c) =~= self.seen_in(seen, c));
                }
                assert forall|c: i64| (#[trigger] self.seen_in(next, c)).finite() by {
                    if cat != Some(c) {
                        assert(self.seen_in(next, c) == self.seen_in(seen, c));
                    } else {
                        assert(self.seen_in(next, c) =~= self.seen_in(seen, c).insert(k));
                    }
                }
                assert forall|c: i64| #[trigger] counts@.contains_key(c) <==> self.seen_in(
                    next,
                    c,
                ).len() > 0 by {
                    if cat != Some(c) {
                        assert(self.seen_in(next, c) == self.seen_in(seen, c));
                        assert(counts@.contains_key(c) <==> before.contains_key(c));
                    } else {
                        assert(counts@.contains_key(c));
                    }
                }
                assert forall|c: i64| #[trigger] counts@.contains_key(c) implies counts@[c]
                    == self.seen_in(next, c).len() && counts@[c] <= i + 1 by {
                    if cat != Some(c) {
                        assert(self.seen_in(next, c) == self.seen_in(seen, c));
                        assert(before.contains_key(c));
                    }
                }
            }
            i += 1;
        }
        proof {
            assert(keys@.take(i as int) =~= keys@);
            assert forall|c: i64| #[trigger] self.seen_in(keys@, c) == self@.members(c) by {
                assert(self.seen_in(keys@, c) =~= self@.members(c));
            }
            assert forall|c: i64| #[trigger] counts@.contains_key(c) <==> self@.members(c).len()
                > 0 by {
                assert(self.seen_in(keys@, c) == self@.members(c));
            }
            assert forall|c: i64| #[trigger] counts@.contains_key(c) implies counts@[c]
                == self@.members(c).len() by {
                assert(self.seen_in(keys@, c) == self@.members(c));
            }
        }
        counts
    }

    /// The members of a category among the keys.
    spec fn seen_in(&self, keys: Seq<i64>, category_id: i64) -> Set<i64> {
        Set::new(|k: i64| keys.contains(k) && self@.members(category_id).contains(k))
    }
}

impl Tables {
    /// The category assigned to a transaction.
    pub open spec fn category_of(self, tx_id: i64) -> Option<Category> {
        if self.enrichments.contains_key(tx_id) {
            match self.enrichments[tx_id].category_id {
                Some(c) => if self.categories.contains_key(c) {
                    Some(self.categories[c])
                } else {
                    None
                },
                None => None,
            }
        } else {
            None
        }
    }

    /// Another category has the path.
    pub open spec fn path_taken(self, path: Seq<char>, category_id: i64) -> bool {
        exists|id: i64| #[trigger]
            self.categories.contains_key(id) && id != category_id && self.categories[id].path@
                == path
    }

    /// The transactions of live accounts in a category.
    pub open spec fn in_category(self, category_id: i64) -> spec_fn(Transaction) -> bool {
        |tx: Transaction| self.live(tx) && self.members(category_id).contains(tx.id)
    }
}

/// After a merge the target has what either had, nothing points at the source,
/// and every other category keeps its members.
pub proof fn merging_moves_the_members(
    t: Tables,
    source: i64,
    target: i64,
    now: Timestamp,
    other: i64,
)
    requires
        source != target,
        other != source,
        other != target,
    ensures
        ({
            let u = Tables {
                enrichments: t.moved_enrichments(source, target, now),
                filters: t.repointed_filters(source, Some(target)),
                categories: t.categories.remove(source),
                ..t
            };
            &&& u.members(target) == t.members(source).union(t.members(target))
            &&& u.members(source) == Set::<i64>::empty()
            &&& u.members(other) == t.members(other)
            &&& forall|f: i64| #[trigger]
                u.filters.contains_key(f) ==> u.filters[f].category_id != Some(source)
        }),
{
    let u = Tables {
        enrichments: t.moved_enrichments(source, target, now),
        filters: t.repointed_filters(source, Some(target)),
        categories: t.categories.remove(source),
        ..t
    };
    assert(u.members(target) =~= t.members(source).union(t.members(target)));
    assert(u.members(source) =~= Set::<i64>::empty());
    assert(u.members(other) =~= t.members(other));
}

/// After a deletion nothing points at the category, and every other category
/// keeps its members.
pub proof fn deleting_leaves_no_reference(t: Tables, category: i64, other: i64)
    requires
        other != category,
    ensures
        ({
            let u = Tables {
                enrichments: t.enrichments.remove_keys(t.members(category)),
                filters: t.repointed_filters(category, None),
                categories: t.categories.remove(category),
                ..t
            };
            &&& u.members(category) == Set::<i64>::empty()
            &&& u.members(other) == t.members(other)
            &&& forall|f: i64| #[trigger]
                u.filters.contains_key(f) ==> u.filters[f].category_id != Some(category)
        }),
{
    let u = Tables {
        enrichments: t.enrichments.remove_keys(t.members(category)),
        filters: t.repointed_filters(category, None),
        categories: t.categories.remove(category),
        ..t
    };
    assert(u.members(category) =~= Set::<i64>::empty());
    assert(u.members(other) =~= t.members(other));
}

} // verus!
