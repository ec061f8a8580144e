//! Transfer lifecycle: create/confirm/delete links, candidate search, and
//! transfer read queries.

use std::collections::HashMap;

use vstd::prelude::*;
use vstd::std_specs::hash::*;

use super::order::{later, latest_first};
use super::select::{keys_of, lemma_listed, lists, lists_up_to, select};
use super::{
    fresh_id, has_id, is_fresh, joins, journal_goes_on, journal_starts, journalled, Error, Hits,
    Tables, TransactionStore,
};
use crate::model::{
    Confidence, Timestamp, Transaction, Transfer, TransferSource, TransferWithTransactions,
};
use crate::sort::{sort_rows, sorted};
use crate::time::{day_number, day_of};

verus! {

broadcast use group_hash_axioms;

/// A user-confirmed transfer.
#[derive(Debug)]
pub struct ConfirmedTransferExample {
    pub from_account_id: i64,
    pub to_account_id: i64,
    pub from_description: String,
    pub to_description: String,
}

/// Days between the dates of two transactions; dates that cannot be read come
/// before any distance.
pub open spec fn distance(a: Transaction, b: Transaction) -> int {
    match (day_number(a.date@), day_number(b.date@)) {
        (Some(x), Some(y)) => if x <= y {
            y - x
        } else {
            x - y
        },
        _ => -1,
    }
}

fn days_apart(a: &Transaction, b: &Transaction) -> (days: i64)
    ensures
        days == distance(*a, *b),
{
    match (day_of(&a.date), day_of(&b.date)) {
        (Some(x), Some(y)) => if x <= y {
            y as i64 - x as i64
        } else {
            x as i64 - y as i64
        },
        _ => -1,
    }
}

/// Closest in time first; then by id.
pub open spec fn nearest(tx: Transaction) -> spec_fn(Transaction, Transaction) -> bool {
    |a: Transaction, b: Transaction|
        distance(a, tx) < distance(b, tx) || (distance(a, tx) == distance(b, tx) && a.id <= b.id)
}

impl Tables {
    /// Transactions that could be the other side of a transfer with `tx`. Those
    /// already in a transfer are not excluded: the caller offers to break the
    /// existing link.
    pub open spec fn counterparts(self, tx: Transaction, other_account: bool) -> spec_fn(
        Transaction,
    ) -> bool {
        |c: Transaction|
            c.amount_cents == -tx.amount_cents && c.id != tx.id && self.live(c) && (!other_account
                || c.account_id != tx.account_id)
    }

    /// There is a counterpart in another account.
    pub open spec fn has_counterpart_elsewhere(self, tx: Transaction) -> bool {
        exists|id: i64| #[trigger]
            self.transactions.contains_key(id) && self.counterparts(tx, true)(
                self.transactions[id],
            )
    }

    /// Both sides of a transfer are known and of live accounts.
    pub open spec fn whole(self, t: Transfer) -> bool {
        &&& self.transactions.contains_key(t.from_transaction_id)
        &&& self.transactions.contains_key(t.to_transaction_id)
        &&& self.live(self.transactions[t.from_transaction_id])
        &&& self.live(self.transactions[t.to_transaction_id])
    }

    /// A query finds either side.
    pub open spec fn either_side(self, t: Transfer, hits: Hits) -> bool {
        hits.holds(t.from_transaction_id) || hits.holds(t.to_transaction_id)
    }

    /// Transfers that wait for the user.
    pub open spec fn pending(self, hits: Hits) -> spec_fn(Transfer) -> bool {
        |t: Transfer| !t.confirmed && self.whole(t) && self.either_side(t, hits)
    }

    /// Transfers on the Transfers tab.
    pub open spec fn shown(self, confirmed_only: bool, hits: Hits) -> spec_fn(Transfer) -> bool {
        |t: Transfer|
            (!confirmed_only || t.confirmed) && self.whole(t) && self.either_side(t, hits)
    }

    /// Transfers the user confirmed.
    pub open spec fn exemplary_transfers(self) -> spec_fn(Transfer) -> bool {
        |t: Transfer| t.confirmed && self.whole(t)
    }

    /// The transfer with both its transactions.
    pub open spec fn sides(self, t: Transfer) -> TransferWithTransactions {
        TransferWithTransactions {
            transfer: t,
            from_transaction: self.transactions[t.from_transaction_id],
            to_transaction: self.transactions[t.to_transaction_id],
        }
    }

    /// The transfer is one that either of the transactions is part of.
    pub open spec fn touches(self, transfer_id: i64, ids: Seq<i64>) -> bool {
        &&& self.transfers.contains_key(transfer_id)
        &&& ids.contains(self.transfers[transfer_id].from_transaction_id) || ids.contains(
            self.transfers[transfer_id].to_transaction_id,
        )
    }

    /// The last transfer of a transaction among those that touch the ids.
    pub open spec fn last_link(self, ids: Seq<i64>, tx_id: i64, transfer_id: i64) -> bool {
        &&& self.touches(transfer_id, ids)
        &&& joins(self.transfers[transfer_id], tx_id)
        &&& forall|other: i64| #[trigger]
            self.touches(other, ids) && joins(self.transfers[other], tx_id) ==> other
                <= transfer_id
    }

    /// The tables after linking two transactions: neither keeps a category.
    pub open spec fn linked(self, id: i64, t: Transfer) -> Tables {
        Tables {
            enrichments: self.enrichments.remove(t.from_transaction_id).remove(
                t.to_transaction_id,
            ),
            transfers: self.transfers.insert(id, t),
            ..self
        }
    }
}

/// Linking keeps categories and transfers apart.
pub proof fn linking_keeps_categories_apart(tables: Tables, id: i64, t: Transfer)
    requires
        tables.exclusive(),
        !tables.transfers.contains_key(id),
    ensures
        tables.linked(id, t).exclusive(),
        tables.linked(id, t).is_leg(t.from_transaction_id),
        tables.linked(id, t).is_leg(t.to_transaction_id),
{
    let u = tables.linked(id, t);
    assert(u.transfers.contains_key(id));
    assert forall|tx: i64| #[trigger] u.enrichments.contains_key(tx) implies !u.is_leg(tx) by {
        assert(tables.enrichments.contains_key(tx));
        assert(!tables.is_leg(tx));
        assert forall|k: i64| #[trigger] u.transfers.contains_key(k) implies !joins(
            u.transfers[k],
            tx,
        ) by {
            if k != id {
                assert(tables.transfers.contains_key(k));
            }
        }
    }
}

/// Removing a transfer keeps categories and transfers apart.
pub proof fn unlinking_keeps_categories_apart(tables: Tables, id: i64)
    requires
        tables.exclusive(),
    ensures
        (Tables { transfers: tables.transfers.remove(id), ..tables }).exclusive(),
{
    let u = Tables { transfers: tables.transfers.remove(id), ..tables };
    assert forall|tx: i64| #[trigger] u.enrichments.contains_key(tx) implies !u.is_leg(tx) by {
        assert(!tables.is_leg(tx));
        assert forall|k: i64| #[trigger] u.transfers.contains_key(k) implies !joins(
            u.transfers[k],
            tx,
        ) by {
            assert(tables.transfers.contains_key(k));
        }
    }
}

/// Ascending.
spec fn ascending() -> spec_fn(i64, i64) -> bool {
    |a: i64, b: i64| a <= b
}

fn leq(a: &i64, b: &i64) -> (le: bool)
    ensures
        le == ascending()(*a, *b),
{
    *a <= *b
}

impl TransactionStore {
    /// Whether a transaction is an endpoint of a transfer.
    pub(crate) fn is_transfer_leg(&self, tx_id: i64) -> (yes: bool)
        ensures
            yes == self@.is_leg(tx_id),
    {
        self.get_transfer_for_transaction(tx_id).is_some()
    }

    /// Get the transfer (if any) involving a transaction; of several the one
    /// linked first.
    pub fn get_transfer_for_transaction(&self, transaction_id: i64) -> (transfer: Option<Transfer>)
        ensures
            match transfer {
                Some(t) => exists|id: i64|
                    #![trigger self@.transfers.contains_key(id)]
                    self@.transfers.contains_key(id) && self@.transfers[id] == t && joins(
                        t,
                        transaction_id,
                    ) && forall|other: i64| #[trigger]
                        self@.transfers.contains_key(other) && joins(
                            self@.transfers[other],
                            transaction_id,
                        ) ==> id <= other,
                None => !self@.is_leg(transaction_id),
            },
            transfer is Some == self@.is_leg(transaction_id),
    {
        let keys = keys_of(self.transfer_table());
        let mut found: Option<(i64, Transfer)> = None;
        let mut i: usize = 0;
        while i < keys.len()
            invariant
                i <= keys@.len(),
                forall|k: i64| #[trigger]
                    keys@.contains(k) <==> self@.transfers.contains_key(k),
                match found {
                    Some(f) => {
                        &&& self@.transfers.contains_key(f.0)
                        &&& self@.transfers[f.0] == f.1
                        &&& joins(f.1, transaction_id)
                        &&& forall|j: int|
                            0 <= j < i && joins(
                                self@.transfers[#[trigger] keys@[j]],
                                transaction_id,
                            ) ==> f.0 <= keys@[j]
                    },
                    None => forall|j: int|
                        0 <= j < i ==> !joins(self@.transfers[#[trigger] keys@[j]], transaction_id),
                },
            decreases keys@.len() - i,
        {
            let k: i64 = keys[i];
            assert(keys@.contains(keys@[i as int]));
            if let Some(t) = self.transfer_row(k) {
                if t.from_transaction_id == transaction_id || t.to_transaction_id
                    == transaction_id {
                    let first = match found {
                        Some((id, _)) => k < id,
                        None => true,
                    };
                    if first {
                        found = Some((k, *t));
                    }
                }
            }
            i += 1;
        }
        match found {
            Some((id, t)) => {
                assert forall|other: i64| #[trigger]
                    self@.transfers.contains_key(other) && joins(
                        self@.transfers[other],
                        transaction_id,
                    ) implies id <= other by {
                    assert(keys@.contains(other));
                    let j = choose|j: int| 0 <= j < keys@.len() && keys@[j] == other;
                    assert(id <= keys@[j]);
                }
                Some(t)
            },
            None => {
                assert forall|t: i64| #[trigger] self@.transfers.contains_key(t) implies !joins(
                    self@.transfers[t],
                    transaction_id,
                ) by {
                    assert(keys@.contains(t));
                    let j = choose|j: int| 0 <= j < keys@.len() && keys@[j] == t;
                    assert(!joins(self@.transfers[keys@[j]], transaction_id));
                }
                None
            },
        }
    }

    /// The state after [`Self::create_transfer`].
    pub open spec fn create_transfer_leads_to(
        self,
        from_transaction_id: i64,
        to_transaction_id: i64,
        source: TransferSource,
        confirmed: bool,
        confidence: Option<Confidence>,
        now: Timestamp,
        result: Result<i64, Error>,
        next: TransactionStore,
    ) -> bool {
        &&& match result {
            Ok(id) => {
                &&& is_fresh(self@.transfers, id)
                &&& next@ == self@.linked(
                    id,
                    (Transfer {
                        id,
                        from_transaction_id,
                        to_transaction_id,
                        source,
                        confirmed,
                        created_at: now,
                        ai_confidence: confidence,
                    }),
                )
            },
            Err(Error::NoFreeId) => self@.transfers.contains_key(i64::MAX) && next
                == self,
            Err(_) => false,
        }
        &&& journalled(self, next)
        &&& self@.keyed() ==> next@.keyed()
        &&& self@.exclusive() ==> next@.exclusive()
    }

    /// Create a transfer linking two transactions. A transaction is either part
    /// of a transfer or categorised, never both, so marking a transfer clears
    /// any category on both endpoints.
    pub fn create_transfer(
        &mut self,
        from_transaction_id: i64,
        to_transaction_id: i64,
        source: TransferSource,
        confirmed: bool,
        confidence: Option<Confidence>,
        now: Timestamp,
    ) -> (result: Result<i64, Error>)
        ensures
            old(self).create_transfer_leads_to(
                from_transaction_id,
                to_transaction_id,
                source,
                confirmed,
                confidence,
                now,
                result,
                *final(self),
            ),
    {
        proof {
            journal_starts(*self);
        }
        let id: i64 = match fresh_id(self.transfer_table()) {
            Some(id) => id,
            None => return Err(Error::NoFreeId),
        };
        self.drop_enrichment(from_transaction_id);
        let ghost one = *self;
        self.drop_enrichment(to_transaction_id);
        let ghost two = *self;
        let row = Transfer {
            id,
            from_transaction_id,
            to_transaction_id,
            source,
            confirmed,
            created_at: now,
            ai_confidence: confidence,
        };
        self.put_transfer(row);
        proof {
            journal_goes_on(*old(self), one, two);
            journal_goes_on(*old(self), two, *self);
            if old(self)@.exclusive() {
                linking_keeps_categories_apart(old(self)@, id, row);
            }
        }
        Ok(id)
    }

    /// The state after [`Self::confirm_transfer`].
    pub open spec fn confirm_transfer_leads_to(
        self,
        transfer_id: i64,
        next: TransactionStore,
    ) -> bool {
        &&& next@ == if self@.transfers.contains_key(transfer_id) {
            Tables {
                transfers: self@.transfers.insert(
                    transfer_id,
                    Transfer { confirmed: true, ..self@.transfers[transfer_id] },
                ),
                ..self@
            }
        } else {
            self@
        }
        &&& journalled(self, next)
        &&& next@.keyed()
        &&& self@.exclusive() ==> next@.exclusive()
    }

    /// Mark a transfer as user-confirmed.
    pub fn confirm_transfer(&mut self, transfer_id: i64)
        requires
            old(self)@.keyed(),
        ensures
            old(self).confirm_transfer_leads_to(transfer_id, *final(self)),
    {
        proof {
            journal_starts(*self);
        }
        if let Some(t) = self.transfer_row(transfer_id) {
            let row = Transfer { confirmed: true, ..*t };
            self.put_transfer(row);
            proof {
                let (a, b) = (old(self)@, self@);
                assert forall|tx: i64| #[trigger] b.is_leg(tx) implies a.is_leg(tx) by {
                    let k = choose|k: i64| #[trigger]
                        b.transfers.contains_key(k) && joins(b.transfers[k], tx);
                    assert(a.transfers.contains_key(k));
                }
                if a.exclusive() {
                    assert forall|tx: i64| #[trigger] b.enrichments.contains_key(tx) implies
                        !b.is_leg(tx) by {
                        assert(a.enrichments.contains_key(tx));
                    }
                }
            }
        }
    }

    /// The state after [`Self::delete_transfer`].
    pub open spec fn delete_transfer_leads_to(
        self,
        transfer_id: i64,
        next: TransactionStore,
    ) -> bool {
        &&& next@ == (Tables {
            transfers: self@.transfers.remove(transfer_id),
            ..self@
        })
        &&& journalled(self, next)
        &&& self@.keyed() ==> next@.keyed()
        &&& self@.exclusive() ==> next@.exclusive()
    }

    /// Delete a transfer.
    pub fn delete_transfer(&mut self, transfer_id: i64)
        ensures
            old(self).delete_transfer_leads_to(transfer_id, *final(self)),
    {
        self.drop_transfer(transfer_id);
        proof {
            if old(self)@.exclusive() {
                unlinking_keeps_categories_apart(old(self)@, transfer_id);
            }
        }
    }

    /// Map each of `transaction_ids` that is part of a transfer to that
    /// transfer. Both endpoints of a matching transfer are inserted, so a row
    /// can resolve its own link whether it is the "from" or "to" side.
    pub fn get_transfers_for_transactions(&self, transaction_ids: &Vec<i64>) -> (links: HashMap<
        i64,
        Transfer,
    >)
        ensures
            forall|tx: i64| #[trigger]
                links@.contains_key(tx) <==> exists|t: i64| #[trigger]
                    self@.touches(t, transaction_ids@) && joins(self@.transfers[t], tx),
            forall|tx: i64| #[trigger]
                links@.contains_key(tx) ==> exists|t: i64| #[trigger]
                    self@.last_link(transaction_ids@, tx, t) && self@.transfers[t] == links@[tx],
    {
        let unsorted = keys_of(self.transfer_table());
        let ghost members = unsorted@;
        let keys = sort_rows(unsorted, leq, Ghost(ascending()));
        proof {
            super::select::lemma_same_members(members, keys@);
        }
        let mut links: HashMap<i64, Transfer> = HashMap::new();
        let mut i: usize = 0;
        while i < keys.len()
            invariant
                i <= keys@.len(),
                keys@.no_duplicates(),
                sorted(keys@, ascending()),
                forall|k: i64| #[trigger]
                    keys@.contains(k) <==> self@.transfers.contains_key(k),
                forall|tx: i64| #[trigger]
                    links@.contains_key(tx) <==> exists|j: int|
                        0 <= j < i && self@.touches(#[trigger] keys@[j], transaction_ids@)
                            && joins(self@.transfers[keys@[j]], tx),
                forall|tx: i64| #[trigger]
                    links@.contains_key(tx) ==> exists|j: int|
                        #![trigger keys@[j]]
                        0 <= j < i && self@.touches(keys@[j], transaction_ids@) && joins(
                            self@.transfers[keys@[j]],
                            tx,
                        ) && self@.transfers[keys@[j]] == links@[tx] && forall|l: int|
                            j < l < i && self@.touches(#[trigger] keys@[l], transaction_ids@)
                                ==> !joins(self@.transfers[keys@[l]], tx),
            decreases keys@.len() - i,
        {
            let k: i64 = keys[i];
            assert(keys@.contains(keys@[i as int]));
            let ghost before = links@;
            if let Some(t) = self.transfer_row(k) {
                let (from, to): (i64, i64) = (t.from_transaction_id, t.to_transaction_id);
                let row: Transfer = *t;
                if has_id(transaction_ids, from) || has_id(transaction_ids, to) {
                    assert(self@.touches(k, transaction_ids@));
                    links.insert(from, row);
                    links.insert(to, row);
                } else {
                    assert(!self@.touches(k, transaction_ids@));
                }
            }
            proof {
                let t = self@.transfers[k];
                let hit = self@.touches(k, transaction_ids@);
                assert forall|tx: i64| #[trigger] links@.contains_key(tx) <==> exists|j: int|
                    0 <= j < i + 1 && self@.touches(#[trigger] keys@[j], transaction_ids@)
                        && joins(self@.transfers[keys@[j]], tx) by {
                    if hit && joins(t, tx) {
                        assert(self@.touches(keys@[i as int], transaction_ids@));
                    } else {
                        assert(links@.contains_key(tx) == before.contains_key(tx));
                        if before.contains_key(tx) {
                            let j = choose|j: int|
                                0 <= j < i && self@.touches(
                                    #[trigger] keys@[j],
                                    transaction_ids@,
                                ) && joins(self@.transfers[keys@[j]], tx);
                            assert(self@.touches(keys@[j], transaction_ids@));
                        }
                    }
                }
                assert forall|tx: i64| #[trigger] links@.contains_key(tx) implies exists|j: int|
                    #![trigger keys@[j]]
                    0 <= j < i + 1 && self@.touches(keys@[j], transaction_ids@) && joins(
                        self@.transfers[keys@[j]],
                        tx,
                    ) && self@.transfers[keys@[j]] == links@[tx] && forall|l: int|
                        j < l < i + 1 && self@.touches(#[trigger] keys@[l], transaction_ids@)
                            ==> !joins(self@.transfers[keys@[l]], tx) by {
                    if hit && joins(t, tx) {
                        assert(keys@[i as int] == k);
                    } else {
                        assert(before.contains_key(tx));
                        let j = choose|j: int|
                            #![trigger keys@[j]]
                            0 <= j < i && self@.touches(keys@[j], transaction_ids@) && joins(
                                self@.transfers[keys@[j]],
                                tx,
                            ) && self@.transfers[keys@[j]] == before[tx] && forall|l: int|
                                j < l < i && self@.touches(#[trigger] keys@[l], transaction_ids@)
                                    ==> !joins(self@.transfers[keys@[l]], tx);
                        assert(keys@[j] == keys@[j]);
                    }
                }
            }
            i += 1;
        }
        proof {
            assert forall|tx: i64| #[trigger] links@.contains_key(tx) <==> exists|t: i64| #[trigger]
                self@.touches(t, transaction_ids@) && joins(self@.transfers[t], tx) by {
                if exists|t: i64| #[trigger]
                    self@.touches(t, transaction_ids@) && joins(self@.transfers[t], tx) {
                    let t = choose|t: i64| #[trigger]
                        self@.touches(t, transaction_ids@) && joins(self@.transfers[t], tx);
                    assert(keys@.contains(t));
                    let j = choose|j: int| 0 <= j < keys@.len() && keys@[j] == t;
                    assert(self@.touches(keys@[j], transaction_ids@));
                }
                if links@.contains_key(tx) {
                    let j = choose|j: int|
                        0 <= j < i && self@.touches(#[trigger] keys@[j], transaction_ids@)
                            && joins(self@.transfers[keys@[j]], tx);
                    assert(self@.touches(keys@[j], transaction_ids@));
                }
            }
            assert forall|tx: i64| #[trigger] links@.contains_key(tx) implies exists|t: i64|
                #[trigger]
                self@.last_link(transaction_ids@, tx, t) && self@.transfers[t] == links@[tx] by {
                let j = choose|j: int|
                    #![trigger keys@[j]]
                    0 <= j < i && self@.touches(keys@[j], transaction_ids@) && joins(
                        self@.transfers[keys@[j]],
                        tx,
                    ) && self@.transfers[keys@[j]] == links@[tx] && forall|l: int|
                        j < l < i && self@.touches(#[trigger] keys@[l], transaction_ids@)
                            ==> !joins(self@.transfers[keys@[l]], tx);
                let t = keys@[j];
                assert forall|other: i64| #[trigger]
                    self@.touches(other, transaction_ids@) && joins(
                        self@.transfers[other],
                        tx,
                    ) implies other <= t by {
                    assert(keys@.contains(other));
                    let l = choose|l: int| 0 <= l < keys@.len() && keys@[l] == other;
                    assert(self@.touches(keys@[l], transaction_ids@));
                    if l < j {
                        assert(ascending()(keys@[l], keys@[j]));
                    }
                }
                assert(self@.last_link(transaction_ids@, tx, t));
            }
        }
        links
    }

    /// Find potential matching transactions for a transfer.
    ///
    /// Prefers candidates in *other* accounts (the common transfer case). Only
    /// if there are none does it fall back to the same account (rebates,
    /// refunds, internal corrections).
    pub fn find_matching_transfer_candidates(&self, tx: &Transaction) -> (rows: Vec<Transaction>)
        ensures
            lists(
                rows@,
                self@.transactions,
                self@.counterparts(*tx, self@.has_counterpart_elsewhere(*tx)),
                nearest(*tx),
            ),
    {
        let rows = self.transfer_candidates(tx, true);
        let ghost wanted = self@.counterparts(*tx, true);
        let ghost keys = choose|keys: Seq<i64>| #[trigger]
            super::select::selection(keys, self@.transactions, wanted, nearest(*tx)) && rows@
                == super::select::rows_at(self@.transactions, keys);
        if rows.len() == 0 {
            assert forall|id: i64| #[trigger] self@.transactions.contains_key(id) implies !wanted(
                self@.transactions[id],
            ) by {
                assert(keys.len() == 0);
                assert(!keys.contains(id));
            }
            self.transfer_candidates(tx, false)
        } else {
            proof {
                assert(keys.len() > 0);
                assert(keys.contains(keys[0]));
                assert(self@.transactions.contains_key(keys[0]));
            }
            rows
        }
    }

    fn transfer_candidates(&self, tx: &Transaction, exclude_same_account: bool) -> (rows: Vec<
        Transaction,
    >)
        ensures
            lists(
                rows@,
                self@.transactions,
                self@.counterparts(*tx, exclude_same_account),
                nearest(*tx),
            ),
    {
        let keep = |c: &Transaction| -> (b: bool)
            ensures
                b == self@.counterparts(*tx, exclude_same_account)(*c),
        {
            c.amount_cents as i128 == -(tx.amount_cents as i128) && c.id != tx.id && self.is_live(c)
                && (!exclude_same_account || c.account_id != tx.account_id)
        };
        let closer = |a: &Transaction, b: &Transaction| -> (le: bool)
            ensures
                le == nearest(*tx)(*a, *b),
        {
            let x: i64 = days_apart(a, tx);
            let y: i64 = days_apart(b, tx);
            x < y || (x == y && a.id <= b.id)
        };
        select(
            self.transaction_table(),
            keep,
            closer,
            None,
            Ghost(self@.counterparts(*tx, exclude_same_account)),
            Ghost(nearest(*tx)),
        )
    }

    fn is_whole(&self, t: &Transfer) -> (yes: bool)
        ensures
            yes == self@.whole(*t),
    {
        match (
            self.transaction_row(t.from_transaction_id),
            self.transaction_row(t.to_transaction_id),
        ) {
            (Some(from), Some(to)) => self.is_live(from) && self.is_live(to),
            _ => false,
        }
    }

    /// Get transfers pending user confirmation.
    /// Filters match if EITHER the from or to transaction matches.
    pub fn get_pending_transfer_reviews(&self, hits: &Hits, limit: Option<usize>) -> (rows: Vec<
        Transfer,
    >)
        ensures
            lists_up_to(rows@, self@.transfers, self@.pending(*hits), latest_first(), limit),
    {
        let keep = |t: &Transfer| -> (b: bool)
            ensures
                b == self@.pending(*hits)(*t),
        {
            !t.confirmed && self.is_whole(t) && (hits.contains(t.from_transaction_id)
                || hits.contains(t.to_transaction_id))
        };
        select(
            self.transfer_table(),
            keep,
            later,
            limit,
            Ghost(self@.pending(*hits)),
            Ghost(latest_first()),
        )
    }

    /// List transfers with all transaction data resolved.
    /// Filters match if EITHER the from or to transaction matches.
    pub fn list_transfers_with_transactions(
        &self,
        confirmed_only: bool,
        hits: &Hits,
        limit: Option<usize>,
    ) -> (rows: Vec<TransferWithTransactions>)
        ensures
            exists|transfers: Seq<Transfer>| #[trigger]
                lists_up_to(
                    transfers,
                    self@.transfers,
                    self@.shown(confirmed_only, *hits),
                    latest_first(),
                    limit,
                ) && rows@ == transfers.map_values(|t: Transfer| self@.sides(t)),
    {
        let keep = |t: &Transfer| -> (b: bool)
            ensures
                b == self@.shown(confirmed_only, *hits)(*t),
        {
            (!confirmed_only || t.confirmed) && self.is_whole(t) && (hits.contains(
                t.from_transaction_id,
            ) || hits.contains(t.to_transaction_id))
        };
        let ghost wanted = self@.shown(confirmed_only, *hits);
        let transfers = select(
            self.transfer_table(),
            keep,
            later,
            limit,
            Ghost(wanted),
            Ghost(latest_first()),
        );
        proof {
            lemma_listed(transfers@, self@.transfers, wanted, latest_first(), limit);
        }
        let ghost all = transfers@.map_values(|t: Transfer| self@.sides(t));
        let mut rows: Vec<TransferWithTransactions> = Vec::new();
        let mut i: usize = 0;
        while i < transfers.len()
            invariant
                i <= transfers@.len(),
                wanted == self@.shown(confirmed_only, *hits),
                all == transfers@.map_values(|t: Transfer| self@.sides(t)),
                forall|j: int| 0 <= j < transfers@.len() ==> wanted(#[trigger] transfers@[j]),
                rows@ == all.take(i as int),
            decreases transfers@.len() - i,
        {
            let t: Transfer = transfers[i];
            assert(wanted(transfers@[i as int]));
            if let (Some(from), Some(to)) = (
                self.transaction_row(t.from_transaction_id),
                self.transaction_row(t.to_transaction_id),
            ) {
                rows.push(
                    TransferWithTransactions {
                        transfer: t,
                        from_transaction: from.clone(),
                        to_transaction: to.clone(),
                    },
                );
            }
            assert(rows@ =~= all.take(i + 1));
            i += 1;
        }
        assert(all.take(i as int) =~= all);
        rows
    }

    /// Return all user-confirmed transfers as transfer-detection examples.
    pub fn get_confirmed_transfer_examples(&self) -> (examples: Vec<ConfirmedTransferExample>)
        ensures
            exists|transfers: Seq<Transfer>| #[trigger]
                lists(
                    transfers,
                    self@.transfers,
                    self@.exemplary_transfers(),
                    by_transfer_id(),
                ) && examples@.len() == transfers.len() && forall|i: int|
                    0 <= i < transfers.len() ==> shows_transfer(
                        self@.sides(transfers[i]),
                        #[trigger] examples@[i],
                    ),
    {
        let keep = |t: &Transfer| -> (b: bool)
            ensures
                b == self@.exemplary_transfers()(*t),
        { t.confirmed && self.is_whole(t) };
        let in_order = |a: &Transfer, b: &Transfer| -> (le: bool)
            ensures
                le == by_transfer_id()(*a, *b),
        { a.id <= b.id };
        let ghost wanted = self@.exemplary_transfers();
        let transfers = select(
            self.transfer_table(),
            keep,
            in_order,
            None,
            Ghost(wanted),
            Ghost(by_transfer_id()),
        );
        proof {
            lemma_listed(transfers@, self@.transfers, wanted, by_transfer_id(), None);
        }
        let mut examples: Vec<ConfirmedTransferExample> = Vec::new();
        let mut i: usize = 0;
        while i < transfers.len()
            invariant
                i <= transfers@.len(),
                wanted == self@.exemplary_transfers(),
                forall|j: int| 0 <= j < transfers@.len() ==> wanted(#[trigger] transfers@[j]),
                examples@.len() == i,
                forall|j: int|
                    0 <= j < i ==> shows_transfer(
                        self@.sides(transfers@[j]),
                        #[trigger] examples@[j],
                    ),
            decreases transfers@.len() - i,
        {
            let t: Transfer = transfers[i];
            assert(wanted(transfers@[i as int]));
            if let (Some(from), Some(to)) = (
                self.transaction_row(t.from_transaction_id),
                self.transaction_row(t.to_transaction_id),
            ) {
                examples.push(
                    ConfirmedTransferExample {
                        from_account_id: from.account_id,
                        to_account_id: to.account_id,
                        from_description: from.description.clone(),
                        to_description: to.description.clone(),
                    },
                );
            }
            i += 1;
        }
        examples
    }
}

/// Transfers by id.
pub open spec fn by_transfer_id() -> spec_fn(Transfer, Transfer) -> bool {
    |a: Transfer, b: Transfer| a.id <= b.id
}

/// The example that a transfer gives.
pub open spec fn shows_transfer(t: TransferWithTransactions, e: ConfirmedTransferExample) -> bool {
    &&& e.from_account_id == t.from_transaction.account_id
    &&& e.to_account_id == t.to_transaction.account_id
    &&& e.from_description@ == t.from_transaction.description@
    &&& e.to_description@ == t.to_transaction.description@
}

} // verus!
