//! General transaction read methods: the main search-backed query, the Todo-tab
//! queries, and id-based lookups.

use std::collections::HashMap;

use vstd::prelude::*;
use vstd::std_specs::hash::*;

use super::order::{lemma_newest_first, newer, newest_first};
use super::select::{lists_up_to, select};
use super::{Hits, Tables, TransactionStore};
use crate::model::{CategorySource, Transaction, TransactionWithEnrichment};

verus! {

broadcast use group_hash_axioms;

impl Tables {
    /// The transaction's account is not deleted.
    pub open spec fn live(self, tx: Transaction) -> bool {
        !(self.accounts.contains_key(tx.account_id)
            && self.accounts[tx.account_id].deleted_at is Some)
    }

    /// There is a live transaction with the id.
    pub open spec fn has_live(self, id: i64) -> bool {
        self.transactions.contains_key(id) && self.live(self.transactions[id])
    }

    /// The live transactions among the ids.
    pub open spec fn live_among(self, ids: Set<i64>) -> Map<i64, Transaction> {
        self.transactions.restrict(ids.filter(|id: i64| self.has_live(id)))
    }

    /// The transaction has a category.
    pub open spec fn categorised(self, tx_id: i64) -> bool {
        self.enrichments.contains_key(tx_id) && self.enrichments[tx_id].category_id is Some
    }

    /// The transaction has a category that the user confirmed.
    pub open spec fn settled(self, tx_id: i64) -> bool {
        self.categorised(tx_id) && self.enrichments[tx_id].category_confirmed
    }

    /// An automatic category waits for the user.
    pub open spec fn in_review(self, tx_id: i64) -> bool {
        self.enrichments.contains_key(tx_id) && self.enrichments[tx_id].category_source == Some(
            CategorySource::Ai,
        ) && !self.enrichments[tx_id].category_confirmed
    }

    /// Transactions a query finds.
    pub open spec fn found(self, hits: Hits) -> spec_fn(Transaction) -> bool {
        |tx: Transaction| self.live(tx) && hits.holds(tx.id)
    }

    /// Those without a category that are in no transfer.
    pub open spec fn uncategorised(self, hits: Hits) -> spec_fn(Transaction) -> bool {
        |tx: Transaction|
            self.live(tx) && hits.holds(tx.id) && !self.categorised(tx.id) && !self.is_leg(tx.id)
    }

    /// Those without a confirmed category that are in no transfer.
    pub open spec fn unconfirmed(self, hits: Hits) -> spec_fn(Transaction) -> bool {
        |tx: Transaction|
            self.live(tx) && hits.holds(tx.id) && !self.settled(tx.id) && !self.is_leg(tx.id)
    }

    /// Those whose automatic category waits for the user.
    pub open spec fn under_review(self, hits: Hits) -> spec_fn(Transaction) -> bool {
        |tx: Transaction| self.live(tx) && hits.holds(tx.id) && self.in_review(tx.id)
    }

    /// A transaction under review with its category.
    pub open spec fn review_of(self, tx: Transaction) -> TransactionWithEnrichment {
        let e = self.enrichments[tx.id];
        TransactionWithEnrichment {
            transaction: tx,
            enrichment: Some(e),
            category: match e.category_id {
                Some(c) => if self.categories.contains_key(c) {
                    Some(self.categories[c])
                } else {
                    None
                },
                None => None,
            },
        }
    }
}

impl TransactionStore {
    pub(crate) fn is_live(&self, tx: &Transaction) -> (yes: bool)
        ensures
            yes == self@.live(*tx),
    {
        match self.account_row(tx.account_id) {
            Some(account) => account.deleted_at.is_none(),
            None => true,
        }
    }

    fn is_categorised(&self, tx_id: i64) -> (yes: bool)
        ensures
            yes == self@.categorised(tx_id),
    {
        match self.enrichment_row(tx_id) {
            Some(e) => e.category_id.is_some(),
            None => false,
        }
    }

    fn is_settled(&self, tx_id: i64) -> (yes: bool)
        ensures
            yes == self@.settled(tx_id),
    {
        match self.enrichment_row(tx_id) {
            Some(e) => e.category_id.is_some() && e.category_confirmed,
            None => false,
        }
    }

    fn is_in_review(&self, tx_id: i64) -> (yes: bool)
        ensures
            yes == self@.in_review(tx_id),
    {
        match self.enrichment_row(tx_id) {
            Some(e) => matches!(e.category_source, Some(CategorySource::Ai))
                && !e.category_confirmed,
            None => false,
        }
    }

    /// Query transactions matching a search query.
    ///
    /// `limit` is `None` for unbounded queries.
    pub fn query_transactions(&self, hits: &Hits, limit: Option<usize>) -> (rows: Vec<Transaction>)
        ensures
            lists_up_to(
                rows@,
                self@.transactions,
                self@.found(*hits),
                newest_first(),
                limit,
            ),
    {
        let keep = |tx: &Transaction| -> (b: bool)
            ensures
                b == self@.found(*hits)(*tx),
        { self.is_live(tx) && hits.contains(tx.id) };
        proof {
            lemma_newest_first();
        }
        select(
            self.transaction_table(),
            keep,
            newer,
            limit,
            Ghost(self@.found(*hits)),
            Ghost(newest_first()),
        )
    }

    /// Get transactions that need categorization, scoped by a search query.
    pub fn get_uncategorised_transactions(&self, hits: &Hits, limit: Option<usize>) -> (rows: Vec<
        Transaction,
    >)
        ensures
            lists_up_to(
                rows@,
                self@.transactions,
                self@.uncategorised(*hits),
                newest_first(),
                limit,
            ),
    {
        let keep = |tx: &Transaction| -> (b: bool)
            ensures
                b == self@.uncategorised(*hits)(*tx),
        {
            self.is_live(tx) && hits.contains(tx.id) && !self.is_categorised(tx.id)
                && !self.is_transfer_leg(tx.id)
        };
        proof {
            lemma_newest_first();
        }
        select(
            self.transaction_table(),
            keep,
            newer,
            limit,
            Ghost(self@.uncategorised(*hits)),
            Ghost(newest_first()),
        )
    }

    /// Transactions eligible for (re)categorisation: no enrichment, or an
    /// enrichment that is not user-confirmed. Excludes transfer legs.
    pub fn get_unconfirmed_transactions(&self, hits: &Hits, limit: Option<usize>) -> (rows: Vec<
        Transaction,
    >)
        ensures
            lists_up_to(
                rows@,
                self@.transactions,
                self@.unconfirmed(*hits),
                newest_first(),
                limit,
            ),
    {
        let keep = |tx: &Transaction| -> (b: bool)
            ensures
                b == self@.unconfirmed(*hits)(*tx),
        {
            self.is_live(tx) && hits.contains(tx.id) && !self.is_settled(tx.id)
                && !self.is_transfer_leg(tx.id)
        };
        proof {
            lemma_newest_first();
        }
        select(
            self.transaction_table(),
            keep,
            newer,
            limit,
            Ghost(self@.unconfirmed(*hits)),
            Ghost(newest_first()),
        )
    }

    /// Get transactions with AI-suggested categories pending review.
    pub fn get_pending_ai_reviews(&self, hits: &Hits, limit: Option<usize>) -> (rows: Vec<
        TransactionWithEnrichment,
    >)
        requires
            self@.keyed(),
        ensures
            exists|txs: Seq<Transaction>| #[trigger]
                lists_up_to(
                    txs,
                    self@.transactions,
                    self@.under_review(*hits),
                    newest_first(),
                    limit,
                ) && rows@ == txs.map_values(|tx: Transaction| self@.review_of(tx)),
    {
        let keep = |tx: &Transaction| -> (b: bool)
            ensures
                b == self@.under_review(*hits)(*tx),
        { self.is_live(tx) && hits.contains(tx.id) && self.is_in_review(tx.id) };
        proof {
            lemma_newest_first();
        }
        let txs = select(
            self.transaction_table(),
            keep,
            newer,
            limit,
            Ghost(self@.under_review(*hits)),
            Ghost(newest_first()),
        );
        let ghost all = txs@.map_values(|tx: Transaction| self@.review_of(tx));
        proof {
            super::select::lemma_listed(
                txs@,
                self@.transactions,
                self@.under_review(*hits),
                newest_first(),
                limit,
            );
        }
        let mut rows: Vec<TransactionWithEnrichment> = Vec::new();
        let mut i: usize = 0;
        while i < txs.len()
            invariant
                i <= txs@.len(),
                all == txs@.map_values(|tx: Transaction| self@.review_of(tx)),
                forall|j: int|
                    0 <= j < txs@.len() ==> self@.under_review(*hits)(#[trigger] txs@[j]),
                rows@ == all.take(i as int),
            decreases txs@.len() - i,
        {
            let tx = txs[i].clone();
            assert(self@.under_review(*hits)(txs@[i as int]));
            if let Some(e) = self.enrichment_row(tx.id) {
                let category = match e.category_id {
                    Some(c) => match self.category_row(c) {
                        Some(category) => Some(category.clone()),
                        None => None,
                    },
                    None => None,
                };
                rows.push(
                    TransactionWithEnrichment { transaction: tx, enrichment: Some(*e), category },
                );
            }
            assert(rows@ =~= all.take(i + 1));
            i += 1;
        }
        assert(all.take(i as int) =~= all);
        rows
    }

    /// Get a transaction by ID.
    pub fn get_transaction_by_id(&self, id: i64) -> (tx: Option<Transaction>)
        ensures
            tx == if self@.transactions.contains_key(id) {
                Some(self@.transactions[id])
            } else {
                None
            },
    {
        match self.transaction_row(id) {
            Some(tx) => Some(tx.clone()),
            None => None,
        }
    }

    /// Fetch transactions for a set of ids, keyed by id. Ids with no matching live
    /// transaction are simply absent from the map.
    pub fn get_transactions_by_ids(&self, ids: &Vec<i64>) -> (rows: HashMap<i64, Transaction>)
        ensures
            rows@ == self@.live_among(ids@.to_set()),
    {
        let mut rows: HashMap<i64, Transaction> = HashMap::new();
        let mut i: usize = 0;
        assert(ids@.take(0).to_set() =~= Set::empty());
        assert(rows@ =~= self@.live_among(ids@.take(0).to_set()));
        while i < ids.len()
            invariant
                i <= ids@.len(),
                rows@ == self@.live_among(ids@.take(i as int).to_set()),
            decreases ids@.len() - i,
        {
            let id: i64 = ids[i];
            if let Some(tx) = self.transaction_row(id) {
                if self.is_live(tx) {
                    rows.insert(id, tx.clone());
                }
            }
            proof {
                super::select::lemma_taken(ids@, i as int);
                assert(rows@ =~= self@.live_among(ids@.take(i + 1).to_set()));
            }
            i += 1;
        }
        assert(ids@.take(i as int) =~= ids@);
        rows
    }
}

} // verus!
