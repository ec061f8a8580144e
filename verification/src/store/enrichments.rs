//! Transaction enrichments: set/confirm/clear categories on transactions and
//! the confirmed-example reads that feed the classifier.

use vstd::prelude::*;
use vstd::std_specs::hash::*;

use super::order::{by_id, id_leq};
use super::select::{keys_of, lemma_listed, lists, select};
use super::{journal_goes_on, journal_starts, journalled, Error, Tables, TransactionStore};
use crate::model::{CategorySource, Confidence, Timestamp, Transaction, TransactionEnrichment};
use crate::time::{read_date, read_iso_date};

verus! {

broadcast use group_hash_axioms;

/// An enrichment's category source, confirmed flag, and category id.
pub type EnrichmentMeta = (Option<CategorySource>, bool, Option<i64>);

/// What a category is assigned with.
#[derive(Debug, Clone, Copy)]
pub struct Assignment {
    pub category_id: i64,
    pub source: CategorySource,
    pub confirmed: bool,
    pub ai_confidence: Option<Confidence>,
}

impl Tables {
    /// The tables after assigning a category; `id` is what a new enrichment
    /// gets. An existing one keeps its id and its time of creation.
    pub open spec fn assigned(
        self,
        tx_id: i64,
        a: Assignment,
        id: i64,
        now: Timestamp,
    ) -> Tables {
        let known = self.enrichments.contains_key(tx_id);
        Tables {
            enrichments: self.enrichments.insert(
                tx_id,
                TransactionEnrichment {
                    id: if known {
                        self.enrichments[tx_id].id
                    } else {
                        id
                    },
                    transaction_id: tx_id,
                    category_id: Some(a.category_id),
                    category_source: Some(a.source),
                    category_confirmed: a.confirmed,
                    ai_confidence: a.ai_confidence,
                    created_at: if known {
                        self.enrichments[tx_id].created_at
                    } else {
                        now
                    },
                    updated_at: now,
                },
            ),
            ..self
        }
    }
}

impl Tables {
    /// The id is above that of every enrichment, by one.
    pub open spec fn next_enrichment_id(self, id: int) -> bool {
        &&& id >= 1
        &&& forall|tx: i64| #[trigger]
            self.enrichments.contains_key(tx) ==> self.enrichments[tx].id < id
        &&& id > 1 ==> exists|tx: i64| #[trigger]
            self.enrichments.contains_key(tx) && self.enrichments[tx].id == id - 1
    }
}

/// The tables after assigning a category to many transactions, skipping transfer
/// legs, and the id the next new enrichment gets.
pub open spec fn assigned_to(
    tables: Tables,
    ids: Seq<i64>,
    a: Assignment,
    next: int,
    now: Timestamp,
) -> (Tables, int)
    decreases ids.len(),
{
    if ids.len() == 0 {
        (tables, next)
    } else {
        let (t, n) = assigned_to(tables, ids.drop_last(), a, next, now);
        if t.is_leg(ids.last()) {
            (t, n)
        } else {
            (
                t.assigned(ids.last(), a, n as i64, now),
                if t.enrichments.contains_key(ids.last()) {
                    n
                } else {
                    n + 1
                },
            )
        }
    }
}

/// The ids that are no transfer legs.
pub open spec fn plain_ids(tables: Tables, ids: Seq<i64>) -> Seq<i64> {
    ids.filter(|id: i64| !tables.is_leg(id))
}

/// A user-confirmed category assignment.
#[derive(Debug)]
pub struct ConfirmedCategoryExample {
    pub description: String,
    pub amount_cents: i64,
    /// ISO date.
    pub date: String,
    pub category_id: i64,
    pub category_path: String,
}

pub(
    crate) proof fn lemma_assigning_keeps(t: Tables,
    tx_id: i64,
    a: Assignment,
    id: i64,
    now: Timestamp,
)
    ensures
        forall|x: i64| #[trigger] t.assigned(tx_id, a, id, now).is_leg(x) == t.is_leg(x),
        t.keyed() ==> t.assigned(tx_id, a, id, now).keyed(),
        t.exclusive() && !t.is_leg(tx_id) ==> t.assigned(tx_id, a, id, now).exclusive(),
{
    let u = t.assigned(tx_id, a, id, now);
    assert(u.transfers == t.transfers);
    assert forall|x: i64| #[trigger] u.is_leg(x) == t.is_leg(x) by {}
    if t.exclusive() && !t.is_leg(tx_id) {
        assert forall|x: i64| #[trigger] u.enrichments.contains_key(x) implies !u.is_leg(x) by {
            if x != tx_id {
                assert(t.enrichments.contains_key(x));
            }
        }
    }
}

impl TransactionStore {
    /// The id for a new enrichment, while there is one.
    pub(crate) fn fresh_enrichment_id(&self) -> (next: Option<i64>)
        ensures
            match next {
                Some(id) => self@.next_enrichment_id(id as int),
                None => self@.next_enrichment_id(i64::MAX + 1),
            },
    {
        let keys = keys_of(self.enrichment_table());
        let mut top: i64 = 0;
        let mut i: usize = 0;
        while i < keys.len()
            invariant
                i <= keys@.len(),
                forall|k: i64| #[trigger]
                    keys@.contains(k) <==> self@.enrichments.contains_key(k),
                top >= 0,
                top > 0 ==> exists|tx: i64| #[trigger]
                    self@.enrichments.contains_key(tx) && self@.enrichments[tx].id == top,
                forall|j: int|
                    0 <= j < i ==> self@.enrichments[#[trigger] keys@[j]].id <= top,
            decreases keys@.len() - i,
        {
            let k: i64 = keys[i];
            assert(keys@.contains(keys@[i as int]));
            if let Some(e) = self.enrichment_row(k) {
                if e.id > top {
                    top = e.id;
                    assert(self@.enrichments.contains_key(k));
                }
            }
            i += 1;
        }
        assert forall|tx: i64| #[trigger] self@.enrichments.contains_key(tx) implies
            self@.enrichments[tx].id <= top by {
            assert(keys@.contains(tx));
            let j = choose|j: int| 0 <= j < keys@.len() && keys@[j] == tx;
            assert(self@.enrichments[keys@[j]].id <= top);
        }
        if top == i64::MAX {
            None
        } else {
            Some(top + 1)
        }
    }

    pub(crate) fn assign(&mut self, tx_id: i64, a: Assignment, id: i64, now: Timestamp)
        ensures
            final(self)@ == old(self)@.assigned(tx_id, a, id, now),
            journalled(*old(self), *final(self)),
    {
        let (id, created_at): (i64, Timestamp) = match self.enrichment_row(tx_id) {
            Some(e) => (e.id, e.created_at),
            None => (id, now),
        };
        self.put_enrichment(
            TransactionEnrichment {
                id,
                transaction_id: tx_id,
                category_id: Some(a.category_id),
                category_source: Some(a.source),
                category_confirmed: a.confirmed,
                ai_confidence: a.ai_confidence,
                created_at,
                updated_at: now,
            },
        );
    }

    /// The state after [`Self::set_category`].
    pub open spec fn set_category_leads_to(
        self,
        transaction_id: i64,
        category_id: i64,
        source: CategorySource,
        confirmed: bool,
        ai_confidence: Option<Confidence>,
        now: Timestamp,
        result: Result<(), Error>,
        next: TransactionStore,
    ) -> bool {
        &&& match result {
            Ok(_) => {
                let a = Assignment { category_id, source, confirmed, ai_confidence };
                &&& !self@.is_leg(transaction_id)
                &&& exists|id: i64|
                    next@ == #[trigger] self@.assigned(transaction_id, a, id, now)
                        && (self@.enrichments.contains_key(transaction_id)
                        || self@.next_enrichment_id(id as int))
            },
            Err(Error::TransactionInTransfer(id)) => {
                &&& self@.is_leg(transaction_id)
                &&& id == transaction_id
                &&& next == self
            },
            Err(Error::NoFreeId) => {
                &&& !self@.is_leg(transaction_id)
                &&& !self@.enrichments.contains_key(transaction_id)
                &&& self@.next_enrichment_id(i64::MAX + 1)
                &&& next == self
            },
            Err(_) => false,
        }
        &&& journalled(self, next)
        &&& self@.keyed() ==> next@.keyed()
        &&& self@.exclusive() ==> next@.exclusive()
    }

    /// Set or update the category for a transaction.
    ///
    /// Rejects a transaction that is currently a transfer leg with
    /// [`Error::TransactionInTransfer`]: a transaction is either part of a
    /// transfer or categorised, never both, so the caller must unlink the
    /// transfer first.
    pub fn set_category(
        &mut self,
        transaction_id: i64,
        category_id: i64,
        source: CategorySource,
        confirmed: bool,
        ai_confidence: Option<Confidence>,
        now: Timestamp,
    ) -> (result: Result<(), Error>)
        ensures
            old(self).set_category_leads_to(
                transaction_id,
                category_id,
                source,
                confirmed,
                ai_confidence,
                now,
                result,
                *final(self),
            ),
    {
        proof {
            journal_starts(*self);
        }
        // A transaction is either part of a transfer or categorised, never both.
        // Refuse to categorise a transfer leg here so any path that reaches
        // this cannot silently violate the invariant.
        if self.is_transfer_leg(transaction_id) {
            return Err(Error::TransactionInTransfer(transaction_id));
        }
        let id: i64 = if self.enrichment_row(transaction_id).is_some() {
            0
        } else {
            match self.fresh_enrichment_id() {
                Some(id) => id,
                None => return Err(Error::NoFreeId),
            }
        };
        let a = Assignment { category_id, source, confirmed, ai_confidence };
        proof {
            lemma_assigning_keeps(self@, transaction_id, a, id, now);
        }
        self.assign(transaction_id, a, id, now);
        Ok(())
    }

    /// The state after [`Self::set_categories`].
    pub open spec fn set_categories_leads_to(
        self,
        transaction_ids: &Vec<i64>,
        category_id: i64,
        source: CategorySource,
        confirmed: bool,
        ai_confidence: Option<Confidence>,
        now: Timestamp,
        result: Result<usize, Error>,
        next: TransactionStore,
    ) -> bool {
        &&& match result {
            Ok(updated) => {
                let a = Assignment { category_id, source, confirmed, ai_confidence };
                &&& updated == plain_ids(self@, transaction_ids@).len()
                &&& exists|top: int| #[trigger]
                    self@.next_enrichment_id(top) && top + transaction_ids@.len()
                        <= i64::MAX && next@ == assigned_to(
                        self@,
                        transaction_ids@,
                        a,
                        top,
                        now,
                    ).0
            },
            Err(Error::NoFreeId) => {
                &&& exists|top: int| #[trigger]
                    self@.next_enrichment_id(top) && top + transaction_ids@.len()
                        > i64::MAX
                &&& next == self
            },
            Err(_) => false,
        }
        &&& journalled(self, next)
        &&& self@.keyed() ==> next@.keyed()
        &&& self@.exclusive() ==> next@.exclusive()
    }

    /// Apply a category to many transactions in one go, skipping any that are
    /// currently transfer legs (which can't be categorised — see
    /// [`Self::set_category`]). Returns the number of transactions updated.
    pub fn set_categories(
        &mut self,
        transaction_ids: &Vec<i64>,
        category_id: i64,
        source: CategorySource,
        confirmed: bool,
        ai_confidence: Option<Confidence>,
        now: Timestamp,
    ) -> (result: Result<usize, Error>)
        ensures
            old(self).set_categories_leads_to(
                transaction_ids,
                category_id,
                source,
                confirmed,
                ai_confidence,
                now,
                result,
                *final(self),
            ),
    {
        proof {
            journal_starts(*self);
        }
        let n: usize = transaction_ids.len();
        let first: i64 = match self.fresh_enrichment_id() {
            Some(id) => id,
            None => {
                assert(self@.next_enrichment_id(i64::MAX + 1));
                return Err(Error::NoFreeId);
            },
        };
        if n as i128 > i64::MAX as i128 - first as i128 {
            assert(self@.next_enrichment_id(first as int));
            return Err(Error::NoFreeId);
        }
        let a = Assignment { category_id, source, confirmed, ai_confidence };
        let ghost start = self@;
        let ghost plain = |id: i64| !start.is_leg(id);
        let mut next: i64 = first;
        let mut updated: usize = 0;
        let mut i: usize = 0;
        assert(transaction_ids@.take(0) =~= Seq::empty());
        assert(Seq::<i64>::empty().filter(plain) =~= Seq::empty()) by {
            reveal(Seq::filter);
        }
        while i < n
            invariant
                i <= n,
                n == transaction_ids@.len(),
                first + n <= i64::MAX,
                first <= next <= first + i,
                updated <= i,
                start == old(self)@,
                plain == (|id: i64| !start.is_leg(id)),
                (self@, next as int) == assigned_to(
                    start,
                    transaction_ids@.take(i as int),
                    a,
                    first as int,
                    now,
                ),
                forall|x: i64| #[trigger] self@.is_leg(x) == start.is_leg(x),
                updated == transaction_ids@.take(i as int).filter(plain).len(),
                journalled(*old(self), *self),
                start.keyed() ==> self@.keyed(),
                start.exclusive() ==> self@.exclusive(),
            decreases n - i,
        {
            let tx_id: i64 = transaction_ids[i];
            let ghost before = *self;
            let ghost prefix = transaction_ids@.take(i + 1);
            assert(prefix.drop_last() =~= transaction_ids@.take(i as int));
            assert(prefix.last() == tx_id);
            proof {
                prefix.lemma_filter_len(plain);
                reveal(Seq::filter);
            }
            // A transaction is either part of a transfer or categorised, never
            // both — skip transfer legs rather than fail the whole batch.
            if !self.is_transfer_leg(tx_id) {
                let known = self.enrichment_row(tx_id).is_some();
                proof {
                    lemma_assigning_keeps(self@, tx_id, a, next, now);
                }
                self.assign(tx_id, a, next, now);
                proof {
                    journal_goes_on(*old(self), before, *self);
                }
                if !known {
                    next += 1;
                }
                updated += 1;
            }
            i += 1;
        }
        assert(transaction_ids@.take(n as int) =~= transaction_ids@);
        assert(old(self)@.next_enrichment_id(first as int));
        Ok(updated)
    }

    /// The state after [`Self::confirm_category`].
    pub open spec fn confirm_category_leads_to(
        self,
        transaction_id: i64,
        now: Timestamp,
        next: TransactionStore,
    ) -> bool {
        &&& next@ == if self@.enrichments.contains_key(transaction_id) {
            Tables {
                enrichments: self@.enrichments.insert(
                    transaction_id,
                    TransactionEnrichment {
                        category_confirmed: true,
                        updated_at: now,
                        ..self@.enrichments[transaction_id]
                    },
                ),
                ..self@
            }
        } else {
            self@
        }
        &&& journalled(self, next)
        &&& next@.keyed()
        &&& self@.exclusive() ==> next@.exclusive()
    }

    /// Mark a category as user-confirmed.
    pub fn confirm_category(&mut self, transaction_id: i64, now: Timestamp)
        requires
            old(self)@.keyed(),
        ensures
            old(self).confirm_category_leads_to(transaction_id, now, *final(self)),
    {
        proof {
            journal_starts(*self);
        }
        if let Some(e) = self.enrichment_row(transaction_id) {
            let row = TransactionEnrichment { category_confirmed: true, updated_at: now, ..*e };
            self.put_enrichment(row);
            proof {
                lemma_same_transfers(old(self)@, self@);
            }
        }
    }

    /// The state after [`Self::delete_enrichment`].
    pub open spec fn delete_enrichment_leads_to(
        self,
        transaction_id: i64,
        next: TransactionStore,
    ) -> bool {
        &&& next@ == (Tables {
            enrichments: self@.enrichments.remove(transaction_id),
            ..self@
        })
        &&& journalled(self, next)
        &&& self@.keyed() ==> next@.keyed()
        &&& self@.exclusive() ==> next@.exclusive()
    }

    /// Remove a transaction's enrichment entirely (category + AI metadata).
    pub fn delete_enrichment(&mut self, transaction_id: i64)
        ensures
            old(self).delete_enrichment_leads_to(transaction_id, *final(self)),
    {
        self.drop_enrichment(transaction_id);
        proof {
            lemma_same_transfers(old(self)@, self@);
        }
    }

    /// Enrichment source, confirmed flag, and category id for a transaction.
    pub fn get_enrichment_meta(&self, tx_id: i64) -> (meta: Option<EnrichmentMeta>)
        ensures
            meta == if self@.enrichments.contains_key(tx_id) {
                let e = self@.enrichments[tx_id];
                Some((e.category_source, e.category_confirmed, e.category_id))
            } else {
                None
            },
    {
        match self.enrichment_row(tx_id) {
            Some(e) => Some((e.category_source, e.category_confirmed, e.category_id)),
            None => None,
        }
    }
}

impl Tables {
    /// Transactions whose category the user confirmed.
    pub open spec fn exemplary(self) -> spec_fn(Transaction) -> bool {
        |tx: Transaction|
            self.enrichments.contains_key(tx.id) && self.enrichments[tx.id].category_confirmed
                && (self.enrichments[tx.id].category_id matches Some(c)
                && self.categories.contains_key(c))
    }

    /// The example that a transaction gives.
    pub open spec fn is_example(self, tx: Transaction, e: ConfirmedCategoryExample) -> bool {
        &&& e.description@ == tx.description@
        &&& e.amount_cents == tx.amount_cents
        &&& read_date(tx.date@, "%Y-%m-%d"@) == Some(e.date@)
        &&& self.enrichments[tx.id].category_id == Some(e.category_id)
        &&& e.category_path@ == self.categories[e.category_id].path@
    }
}

impl TransactionStore {
    fn example(&self, tx: &Transaction) -> (example: Result<ConfirmedCategoryExample, Error>)
        requires
            self@.exemplary()(*tx),
        ensures
            match example {
                Ok(e) => self@.is_example(*tx, e),
                Err(Error::InvalidDate(d)) => d@ == tx.date@ && read_date(tx.date@, "%Y-%m-%d"@)
                    is None,
                Err(_) => false,
            },
    {
        let date = match read_iso_date(&tx.date) {
            Some(date) => date,
            None => return Err(Error::InvalidDate(tx.date.clone())),
        };
        let category_id: i64 = match self.enrichment_row(tx.id) {
            Some(e) => match e.category_id {
                Some(id) => id,
                None => 0,
            },
            None => 0,
        };
        let category_path = match self.category_row(category_id) {
            Some(category) => category.path.clone(),
            None => String::new(),
        };
        Ok(
            ConfirmedCategoryExample {
                description: tx.description.clone(),
                amount_cents: tx.amount_cents,
                date,
                category_id,
                category_path,
            },
        )
    }

    /// Return all user-confirmed category assignments as classifier examples.
    pub fn get_confirmed_examples(&self) -> (examples: Result<Vec<ConfirmedCategoryExample>, Error>)
        ensures
            exists|txs: Seq<Transaction>| #[trigger]
                lists(txs, self@.transactions, self@.exemplary(), by_id()) && match examples {
                    Ok(rows) => rows@.len() == txs.len() && forall|i: int|
                        0 <= i < txs.len() ==> self@.is_example(txs[i], #[trigger] rows@[i]),
                    Err(Error::InvalidDate(d)) => exists|i: int|
                        0 <= i < txs.len() && d@ == (#[trigger] txs[i]).date@ && read_date(
                            d@,
                            "%Y-%m-%d"@,
                        ) is None && forall|j: int|
                            0 <= j < i ==> read_date((#[trigger] txs[j]).date@, "%Y-%m-%d"@)
                                is Some,
                    Err(_) => false,
                },
    {
        let keep = |tx: &Transaction| -> (b: bool)
            ensures
                b == self@.exemplary()(*tx),
        {
            match self.enrichment_row(tx.id) {
                Some(e) => e.category_confirmed && match e.category_id {
                    Some(c) => self.category_row(c).is_some(),
                    None => false,
                },
                None => false,
            }
        };
        let txs = select(
            self.transaction_table(),
            keep,
            id_leq,
            None,
            Ghost(self@.exemplary()),
            Ghost(by_id()),
        );
        proof {
            lemma_listed(txs@, self@.transactions, self@.exemplary(), by_id(), None);
        }
        let mut rows: Vec<ConfirmedCategoryExample> = Vec::new();
        let mut i: usize = 0;
        while i < txs.len()
            invariant
                i <= txs@.len(),
                lists(txs@, self@.transactions, self@.exemplary(), by_id()),
                forall|j: int| 0 <= j < txs@.len() ==> self@.exemplary()(#[trigger] txs@[j]),
                rows@.len() == i,
                forall|j: int| 0 <= j < i ==> self@.is_example(txs@[j], #[trigger] rows@[j]),
            decreases txs@.len() - i,
        {
            assert(self@.exemplary()(txs@[i as int]));
            match self.example(&txs[i]) {
                Ok(e) => rows.push(e),
                Err(e) => {
                    assert forall|j: int| 0 <= j < i implies read_date(
                        (#[trigger] txs@[j]).date@,
                        "%Y-%m-%d"@,
                    ) is Some by {
                        assert(self@.is_example(txs@[j], rows@[j]));
                    }
                    return Err(e);
                },
            }
            i += 1;
        }
        Ok(rows)
    }
}

/// Where no transfer changes and no transaction gains a category, none is both.
pub(crate) proof fn lemma_same_transfers(a: Tables, b: Tables)
    requires
        a.transfers == b.transfers,
        b.enrichments.dom().subset_of(a.enrichments.dom()),
    ensures
        a.exclusive() ==> b.exclusive(),
{
    assert forall|x: i64| #[trigger] b.is_leg(x) == a.is_leg(x) by {}
    if a.exclusive() {
        assert forall|x: i64| #[trigger] b.enrichments.contains_key(x) implies !b.is_leg(x) by {
            assert(a.enrichments.contains_key(x));
        }
    }
}

} // verus!
