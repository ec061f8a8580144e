//! Applying the saved filters.
//!
//! Rule-sourced unconfirmed enrichments are wiped first so the result is a pure
//! function of the current filter set; confirmed enrichments are never deleted.
//! Filters apply in order with first-match-wins per transaction, and never touch
//! a transfer leg.

use std::collections::{HashMap, HashSet};

use vstd::prelude::*;
use vstd::std_specs::hash::*;

use super::enrichments::{lemma_assigning_keeps, Assignment};
use super::filters::every_filter;
use super::order::{by_position, newest_first};
use super::select::{keys_of, lemma_take_contains, limited, lists, rows_at, selection};
use super::{
    journal_goes_on, journal_starts, journalled, Error, Hits, Tables, TransactionStore,
};
use crate::model::{
    CategorySource, Filter, FilterOverride, Timestamp, Transaction, TransactionEnrichment,
};

verus! {

broadcast use group_hash_axioms;

/// A filter's claim on a transaction it finds.
#[derive(Debug)]
pub struct Claim {
    pub tx: Transaction,
    pub category_id: i64,
    pub override_mode: FilterOverride,
    pub review_required: bool,
}

/// The claims of a filter on the transactions it finds.
pub open spec fn claims_of(f: Filter, txs: Seq<Transaction>) -> Seq<Claim> {
    match f.category_id {
        Some(category_id) => txs.map_values(
            |tx: Transaction|
                Claim {
                    tx,
                    category_id,
                    override_mode: f.override_mode,
                    review_required: f.review_required,
                },
        ),
        None => Seq::empty(),
    }
}

/// The claims of all filters, in order.
pub open spec fn candidates(filters: Seq<Filter>, txs: Seq<Seq<Transaction>>) -> Seq<Claim>
    decreases filters.len(),
{
    if filters.len() == 0 {
        Seq::empty()
    } else {
        candidates(filters.drop_last(), txs) + claims_of(
            filters.last(),
            txs[filters.len() - 1],
        )
    }
}

/// A claim on the transaction is among the claims.
pub open spec fn is_claimed(claims: Seq<Claim>, tx_id: i64) -> bool {
    exists|i: int| 0 <= i < claims.len() && (#[trigger] claims[i]).tx.id == tx_id
}

/// The claims without those on a transaction that an earlier one is on.
pub open spec fn first_claims(claims: Seq<Claim>) -> Seq<Claim>
    decreases claims.len(),
{
    if claims.len() == 0 {
        Seq::empty()
    } else {
        let before = first_claims(claims.drop_last());
        if is_claimed(before, claims.last().tx.id) {
            before
        } else {
            before.push(claims.last())
        }
    }
}

impl Tables {
    /// The transactions a filter finds: none for one whose query was not run.
    pub open spec fn finds(self, found: Map<i64, Hits>, f: Filter) -> spec_fn(Transaction) -> bool {
        |tx: Transaction| found.contains_key(f.id) && self.found(found[f.id])(tx)
    }

    /// The claims that the filters of the tables make.
    pub open spec fn claimed(self, found: Map<i64, Hits>, claims: Seq<Claim>) -> bool {
        exists|filters: Seq<Filter>, txs: Seq<Seq<Transaction>>|
            {
                &&& #[trigger] lists(filters, self.filters, every_filter(), by_position())
                &&& txs.len() == filters.len()
                &&& forall|i: int|
                    #![trigger txs[i]]
                    0 <= i < filters.len() ==> lists(
                        txs[i],
                        self.transactions,
                        self.finds(found, filters[i]),
                        newest_first(),
                    )
                &&& claims == first_claims(#[trigger] candidates(filters, txs))
            }
    }

    /// The transactions whose category a rule gave and nobody confirmed.
    pub open spec fn provisional(self) -> Set<i64> {
        Set::new(
            |tx: i64|
                self.enrichments.contains_key(tx) && self.enrichments[tx].category_source == Some(
                    CategorySource::Rule,
                ) && !self.enrichments[tx].category_confirmed,
        )
    }

    /// The tables without provisional categories.
    pub open spec fn cleaned(self) -> Tables {
        Tables { enrichments: self.enrichments.remove_keys(self.provisional()), ..self }
    }

    /// The category that a rule gave a transaction.
    pub open spec fn rule_category(self, tx_id: i64) -> Option<i64> {
        if self.enrichments.contains_key(tx_id) && self.enrichments[tx_id].category_source == Some(
            CategorySource::Rule,
        ) {
            self.enrichments[tx_id].category_id
        } else {
            None
        }
    }

    /// A filter may categorise the transaction, given its override mode and the
    /// transaction's existing enrichment. A user's confirmation of this very
    /// category is preserved.
    pub open spec fn may_apply(self, category_id: i64, mode: FilterOverride, tx_id: i64) -> bool {
        if !self.enrichments.contains_key(tx_id) {
            true
        } else {
            let e = self.enrichments[tx_id];
            if e.category_confirmed && e.category_id == Some(category_id) {
                false
            } else {
                match mode {
                    FilterOverride::Uncategorised => false,
                    FilterOverride::Ai => e.category_source == Some(CategorySource::Ai),
                    FilterOverride::All => true,
                }
            }
        }
    }

    /// The claim gives its transaction the category; `self` is cleaned.
    pub open spec fn effective(self, c: Claim) -> bool {
        !self.is_leg(c.tx.id) && self.may_apply(c.category_id, c.override_mode, c.tx.id)
    }

    /// The claim changes its transaction's category; rows that already carried
    /// this exact rule category do not count.
    pub open spec fn changes(self, c: Claim) -> bool {
        self.cleaned().effective(c) && self.rule_category(c.tx.id) != Some(c.category_id)
    }

    /// The transactions that applying the claims (re)categorises.
    pub open spec fn changed(self, claims: Seq<Claim>) -> Seq<Transaction> {
        claims.filter(|c: Claim| self.changes(c)).map_values(|c: Claim| c.tx)
    }

    /// The rows are the transactions that applying the filters would (re)categorise,
    /// in apply order.
    pub open spec fn previewed(self, found: Map<i64, Hits>, rows: Seq<Transaction>) -> bool {
        exists|claims: Seq<Claim>| #[trigger]
            self.claimed(found, claims) && rows == self.changed(claims)
    }

    /// The enrichment that a claim gives; `self` is cleaned.
    pub open spec fn ruled(self, c: Claim, e: TransactionEnrichment, now: Timestamp) -> bool {
        let known = self.enrichments.contains_key(c.tx.id);
        &&& e.transaction_id == c.tx.id
        &&& e.category_id == Some(c.category_id)
        &&& e.category_source == Some(CategorySource::Rule)
        &&& e.category_confirmed == !c.review_required
        &&& e.ai_confidence is None
        &&& e.updated_at == now
        &&& if known {
            e.id == self.enrichments[c.tx.id].id && e.created_at
                == self.enrichments[c.tx.id].created_at
        } else {
            e.created_at == now
        }
    }

    /// `next` is the cleaned tables after the claims: each effective one has
    /// given its transaction the category, and nothing else has changed.
    pub open spec fn carried_out(self, claims: Seq<Claim>, now: Timestamp, next: Tables) -> bool {
        &&& next == (Tables { enrichments: next.enrichments, ..self })
        &&& forall|i: int|
            #![trigger claims[i]]
            0 <= i < claims.len() && self.effective(claims[i]) ==> next.enrichments.contains_key(
                claims[i].tx.id,
            ) && self.ruled(claims[i], next.enrichments[claims[i].tx.id], now)
        &&& forall|tx: i64|
            self.untouched(claims, tx) ==> (#[trigger] next.enrichments.contains_key(tx)
                == self.enrichments.contains_key(tx) && (self.enrichments.contains_key(tx)
                ==> next.enrichments[tx] == self.enrichments[tx]))
    }

    /// No claim on the transaction is effective; `self` is cleaned.
    pub open spec fn untouched(self, claims: Seq<Claim>, tx_id: i64) -> bool {
        forall|i: int|
            0 <= i < claims.len() && (#[trigger] claims[i]).tx.id == tx_id ==> !self.effective(
                claims[i],
            )
    }
}

/// No two claims are on one transaction.
pub open spec fn claims_differ(claims: Seq<Claim>) -> bool {
    forall|i: int, j: int|
        0 <= i < j < claims.len() ==> (#[trigger] claims[i]).tx.id != (#[trigger] claims[j]).tx.id
}

/// No two claims that count are on one transaction.
pub proof fn a_transaction_is_claimed_once(claims: Seq<Claim>)
    ensures
        claims_differ(first_claims(claims)),
    decreases claims.len(),
{
    if claims.len() > 0 {
        a_transaction_is_claimed_once(claims.drop_last());
        let before = first_claims(claims.drop_last());
        let all = first_claims(claims);
        assert forall|i: int, j: int| 0 <= i < j < all.len() implies (#[trigger] all[i]).tx.id != (
        #[trigger] all[j]).tx.id by {
            if j == before.len() {
                assert(before[i].tx.id != claims.last().tx.id);
            }
        }
    }
}

/// The first filter that finds a transaction wins: of all claims on it, the
/// earliest counts.
pub proof fn first_match_wins(claims: Seq<Claim>, i: int)
    requires
        0 <= i < claims.len(),
        forall|j: int| 0 <= j < i ==> (#[trigger] claims[j]).tx.id != claims[i].tx.id,
    ensures
        first_claims(claims).contains(claims[i]),
    decreases claims.len(),
{
    let before = first_claims(claims.drop_last());
    if i < claims.len() - 1 {
        first_match_wins(claims.drop_last(), i);
        let k = choose|k: int| 0 <= k < before.len() && before[k] == claims[i];
        assert(first_claims(claims)[k] == claims[i]);
    } else {
        lemma_claims_come_from(claims.drop_last());
        if is_claimed(before, claims[i].tx.id) {
            let k = choose|k: int|
                0 <= k < before.len() && (#[trigger] before[k]).tx.id == claims[i].tx.id;
            assert(claims.drop_last().contains(before[k]));
            let j = choose|j: int|
                0 <= j < claims.drop_last().len() && claims.drop_last()[j] == before[k];
            assert(claims[j].tx.id == claims[i].tx.id);
        }
        assert(first_claims(claims) == before.push(claims[i]));
        assert(first_claims(claims)[before.len() as int] == claims[i]);
    }
}

proof fn lemma_claims_come_from(claims: Seq<Claim>)
    ensures
        forall|k: int|
            0 <= k < first_claims(claims).len() ==> claims.contains(
                #[trigger] first_claims(claims)[k],
            ),
    decreases claims.len(),
{
    if claims.len() > 0 {
        lemma_claims_come_from(claims.drop_last());
        let before = first_claims(claims.drop_last());
        assert forall|k: int| 0 <= k < first_claims(claims).len() implies claims.contains(
            #[trigger] first_claims(claims)[k],
        ) by {
            if k < before.len() {
                assert(claims.drop_last().contains(before[k]));
                let j = choose|j: int|
                    0 <= j < claims.drop_last().len() && claims.drop_last()[j] == before[k];
                assert(claims[j] == before[k]);
            } else {
                assert(claims[claims.len() - 1] == claims.last());
            }
        }
    }
}

/// A confirmed category is never deleted by applying the filters, and a transfer
/// leg is never categorised by it.
pub proof fn applying_spares_confirmed_and_legs(
    t: Tables,
    claims: Seq<Claim>,
    now: Timestamp,
    next: Tables,
    tx: i64,
)
    requires
        t.cleaned().carried_out(claims, now, next),
    ensures
        t.enrichments.contains_key(tx) && t.enrichments[tx].category_confirmed
            ==> next.enrichments.contains_key(tx),
        t.is_leg(tx) ==> next.enrichments.contains_key(tx)
            == t.cleaned().enrichments.contains_key(tx),
        t.exclusive() ==> next.exclusive(),
{
    let base = t.cleaned();
    lemma_legs(t, base);
    lemma_legs(base, next);
    assert forall|x: i64| t.is_leg(x) implies #[trigger] next.enrichments.contains_key(x)
        == base.enrichments.contains_key(x) by {
        assert(base.untouched(claims, x));
    }
    if t.enrichments.contains_key(tx) && t.enrichments[tx].category_confirmed {
        assert(base.enrichments.contains_key(tx));
        if !next.enrichments.contains_key(tx) {
            assert forall|i: int| 0 <= i < claims.len() && (#[trigger] claims[i]).tx.id
                == tx implies !base.effective(claims[i]) by {
                if base.effective(claims[i]) {
                    assert(next.enrichments.contains_key(claims[i].tx.id));
                }
            }
            assert(base.untouched(claims, tx));
        }
    }
    if t.exclusive() {
        assert forall|x: i64| #[trigger] next.enrichments.contains_key(x) implies !next.is_leg(
            x,
        ) by {
            if t.is_leg(x) {
                assert(base.enrichments.contains_key(x));
                assert(t.enrichments.contains_key(x));
            }
        }
    }
}

pub(crate) proof fn lemma_legs(a: Tables, b: Tables)
    requires
        a.transfers == b.transfers,
    ensures
        forall|x: i64| #[trigger] b.is_leg(x) == a.is_leg(x),
{
    assert forall|x: i64| #[trigger] b.is_leg(x) == a.is_leg(x) by {}
}

/// Applying the filters again changes nothing: no claim changes a category.
pub proof fn applying_again_changes_nothing(
    t: Tables,
    claims: Seq<Claim>,
    now: Timestamp,
    next: Tables,
)
    requires
        t.cleaned().carried_out(claims, now, next),
        claims_differ(claims),
    ensures
        next.changed(claims) == Seq::<Transaction>::empty(),
{
    let base = t.cleaned();
    lemma_legs(t, base);
    lemma_legs(base, next);
    lemma_legs(next, next.cleaned());
    assert forall|i: int| 0 <= i < claims.len() implies !next.changes(#[trigger] claims[i]) by {
        let c = claims[i];
        let tx = c.tx.id;
        if base.effective(c) {
            assert(base.ruled(c, next.enrichments[tx], now));
            if !c.review_required {
                assert(next.enrichments[tx].category_confirmed);
                assert(next.cleaned().enrichments.contains_key(tx));
            }
        } else {
            assert forall|j: int| 0 <= j < claims.len() && (#[trigger] claims[j]).tx.id
                == tx implies !base.effective(claims[j]) by {
                if j < i {
                    assert(claims[j].tx.id != claims[i].tx.id);
                } else if i < j {
                    assert(claims[i].tx.id != claims[j].tx.id);
                }
            }
            assert(base.untouched(claims, tx));
            assert(next.enrichments.contains_key(tx) == base.enrichments.contains_key(tx));
            if base.enrichments.contains_key(tx) {
                assert(next.enrichments[tx] == base.enrichments[tx]);
                assert(!t.provisional().contains(tx));
                assert(next.cleaned().enrichments.contains_key(tx));
            }
        }
    }
    let wanted = |c: Claim| next.changes(c);
    lemma_filter_none(claims, wanted);
    assert(next.changed(claims) =~= Seq::<Transaction>::empty());
}

proof fn lemma_filter_none(claims: Seq<Claim>, wanted: spec_fn(Claim) -> bool)
    requires
        forall|i: int| 0 <= i < claims.len() ==> !wanted(#[trigger] claims[i]),
    ensures
        claims.filter(wanted) == Seq::<Claim>::empty(),
    decreases claims.len(),
{
    reveal(Seq::filter);
    if claims.len() > 0 {
        assert forall|i: int| 0 <= i < claims.drop_last().len() implies !wanted(
            #[trigger] claims.drop_last()[i],
        ) by {
            assert(claims.drop_last()[i] == claims[i]);
        }
        lemma_filter_none(claims.drop_last(), wanted);
    }
}

pub(crate) proof fn lemma_claim_pushed(claims: Seq<Claim>, c: Claim, tx_id: i64)
    ensures
        is_claimed(claims.push(c), tx_id) <==> is_claimed(claims, tx_id) || c.tx.id == tx_id,
{
    let more = claims.push(c);
    if is_claimed(claims, tx_id) {
        let i = choose|i: int| 0 <= i < claims.len() && (#[trigger] claims[i]).tx.id == tx_id;
        assert(more[i].tx.id == tx_id);
    }
    if c.tx.id == tx_id {
        assert(more[claims.len() as int].tx.id == tx_id);
    }
    if is_claimed(more, tx_id) && c.tx.id != tx_id {
        let i = choose|i: int| 0 <= i < more.len() && (#[trigger] more[i]).tx.id == tx_id;
        assert(claims[i].tx.id == tx_id);
    }
}

pub(crate) proof fn lemma_candidates_extend(
    filters: Seq<Filter>,
    txs: Seq<Seq<Transaction>>,
    more: Seq<Seq<Transaction>>,
)
    requires
        txs.len() >= filters.len(),
        more.len() >= filters.len(),
        forall|i: int| 0 <= i < filters.len() ==> txs[i] == more[i],
    ensures
        candidates(filters, txs) == candidates(filters, more),
    decreases filters.len(),
{
    if filters.len() > 0 {
        lemma_candidates_extend(filters.drop_last(), txs, more);
    }
}

impl TransactionStore {
    /// The transactions that a filter finds, newest first.
    fn found_by(&self, found: &HashMap<i64, Hits>, f: &Filter) -> (txs: Vec<Transaction>)
        ensures
            lists(txs@, self@.transactions, self@.finds(found@, *f), newest_first()),
    {
        let ghost wanted = self@.finds(found@, *f);
        match found.get(&f.id) {
            Some(hits) => {
                let txs = self.query_transactions(hits, None);
                proof {
                    let keys = choose|keys: Seq<i64>| #[trigger]
                        selection(
                            keys,
                            self@.transactions,
                            self@.found(*hits),
                            newest_first(),
                        ) && txs@ == rows_at(self@.transactions, limited(keys, None));
                    assert(selection(keys, self@.transactions, wanted, newest_first()));
                }
                txs
            },
            None => {
                let txs: Vec<Transaction> = Vec::new();
                proof {
                    let keys = Seq::<i64>::empty();
                    assert(selection(keys, self@.transactions, wanted, newest_first()));
                    assert(txs@ =~= rows_at(self@.transactions, keys));
                }
                txs
            },
        }
    }

    /// The claims that count; `found` has for each filter the transactions that
    /// its query finds.
    pub fn filter_claims(&self, found: &HashMap<i64, Hits>) -> (claims: Vec<Claim>)
        ensures
            self@.claimed(found@, claims@),
            claims_differ(claims@),
    {
        let filters = self.list_filters();
        let mut claims: Vec<Claim> = Vec::new();
        let mut claimed: HashSet<i64> = HashSet::new();
        let ghost mut txs_of: Seq<Seq<Transaction>> = Seq::empty();
        let mut i: usize = 0;
        assert(filters@.take(0) =~= Seq::empty());
        while i < filters.len()
            invariant
                i <= filters@.len(),
                lists(filters@, self@.filters, every_filter(), by_position()),
                txs_of.len() == i,
                forall|k: int|
                    #![trigger txs_of[k]]
                    0 <= k < i ==> lists(
                        txs_of[k],
                        self@.transactions,
                        self@.finds(found@, filters@[k]),
                        newest_first(),
                    ),
                claims@ == first_claims(candidates(filters@.take(i as int), txs_of)),
                forall|id: i64| #[trigger] claimed@.contains(id) <==> is_claimed(claims@, id),
            decreases filters@.len() - i,
        {
            let f = &filters[i];
            let txs = self.found_by(found, f);
            let ghost before = candidates(filters@.take(i as int), txs_of);
            let ghost own = claims_of(*f, txs@);
            if let Some(category_id) = f.category_id {
                let mut k: usize = 0;
                assert(before + own.take(0) =~= before);
                while k < txs.len()
                    invariant
                        k <= txs@.len(),
                        own == claims_of(*f, txs@),
                        f.category_id == Some(category_id),
                        own.len() == txs@.len(),
                        claims@ == first_claims(before + own.take(k as int)),
                        forall|id: i64| #[trigger]
                            claimed@.contains(id) <==> is_claimed(claims@, id),
                    decreases txs@.len() - k,
                {
                    let id: i64 = txs[k].id;
                    let claim = Claim {
                        tx: txs[k].clone(),
                        category_id,
                        override_mode: f.override_mode,
                        review_required: f.review_required,
                    };
                    let ghost next = before + own.take(k + 1);
                    assert(next.drop_last() =~= before + own.take(k as int));
                    assert(next.last() == own[k as int]);
                    assert(own[k as int] == claim);
                    let ghost earlier = claims@;
                    if !claimed.contains(&id) {
                        claimed.insert(id);
                        claims.push(claim);
                        assert forall|x: i64| #[trigger] claimed@.contains(x) <==> is_claimed(
                            claims@,
                            x,
                        ) by {
                            lemma_claim_pushed(earlier, claim, x);
                        }
                    }
                    k += 1;
                }
                assert(own.take(k as int) =~= own);
            } else {
                assert(before + own =~= before);
            }
            proof {
                let more = txs_of.push(txs@);
                lemma_candidates_extend(filters@.take(i as int), txs_of, more);
                assert(filters@.take(i + 1).drop_last() =~= filters@.take(i as int));
                assert(candidates(filters@.take(i + 1), more) == before + own);
                txs_of = more;
            }
            i += 1;
        }
        proof {
            assert(filters@.take(i as int) =~= filters@);
            a_transaction_is_claimed_once(candidates(filters@, txs_of));
        }
        claims
    }

    /// Decide whether a filter may categorise `tx_id` given its override mode
    /// and the transaction's existing enrichment.
    fn filter_applies(&self, category_id: i64, mode: FilterOverride, tx_id: i64) -> (yes: bool)
        ensures
            yes == self@.may_apply(category_id, mode, tx_id),
    {
        match self.enrichment_row(tx_id) {
            Some(e) => {
                let same_category = match e.category_id {
                    Some(c) => c == category_id,
                    None => false,
                };
                if e.category_confirmed && same_category {
                    return false;
                }
                match mode {
                    FilterOverride::Uncategorised => false,
                    FilterOverride::Ai => matches!(e.category_source, Some(CategorySource::Ai)),
                    FilterOverride::All => true,
                }
            },
            None => true,
        }
    }

    /// Whether the claim changes its transaction's category.
    fn claim_changes(&self, c: &Claim) -> (yes: bool)
        ensures
            yes == self@.changes(*c),
    {
        let tx_id: i64 = c.tx.id;
        proof {
            lemma_legs(self@, self@.cleaned());
        }
        if self.is_transfer_leg(tx_id) {
            return false;
        }
        let (provisional, prior): (bool, Option<i64>) = match self.enrichment_row(tx_id) {
            Some(e) => if matches!(e.category_source, Some(CategorySource::Rule)) {
                (!e.category_confirmed, e.category_id)
            } else {
                (false, None)
            },
            None => (false, None),
        };
        let effective = provisional || self.filter_applies(c.category_id, c.override_mode, tx_id);
        let same_as_before = match prior {
            Some(p) => p == c.category_id,
            None => false,
        };
        effective && !same_as_before
    }

    /// The transactions that the claims (re)categorise, in apply order.
    fn changed_by(&self, claims: &Vec<Claim>) -> (txs: Vec<Transaction>)
        ensures
            txs@ == self@.changed(claims@),
    {
        let ghost t = self@;
        let ghost wanted = |c: Claim| t.changes(c);
        let ghost of = |c: Claim| c.tx;
        let mut txs: Vec<Transaction> = Vec::new();
        let mut i: usize = 0;
        proof {
            assert(claims@.take(0) =~= Seq::empty());
            reveal(Seq::filter);
            assert(claims@.take(0).filter(wanted).map_values(of) =~= Seq::empty());
        }
        while i < claims.len()
            invariant
                i <= claims@.len(),
                t == self@,
                wanted == (|c: Claim| t.changes(c)),
                of == (|c: Claim| c.tx),
                txs@ == claims@.take(i as int).filter(wanted).map_values(of),
            decreases claims@.len() - i,
        {
            let ghost prefix = claims@.take(i + 1);
            assert(prefix.drop_last() =~= claims@.take(i as int));
            assert(prefix.last() == claims@[i as int]);
            proof {
                reveal(Seq::filter);
            }
            if self.claim_changes(&claims[i]) {
                txs.push(claims[i].tx.clone());
                assert(prefix.filter(wanted) == claims@.take(i as int).filter(wanted).push(
                    claims@[i as int],
                ));
            }
            assert(txs@ =~= prefix.filter(wanted).map_values(of));
            i += 1;
        }
        assert(claims@.take(i as int) =~= claims@);
        txs
    }

    /// Dry-run of [`Self::apply_filters`]: the transactions it would
    /// (re)categorise, in apply order.
    pub fn preview_filters(&self, found: &HashMap<i64, Hits>) -> (txs: Vec<Transaction>)
        ensures
            self@.previewed(found@, txs@),
    {
        let claims = self.filter_claims(found);
        self.changed_by(&claims)
    }

    /// Remove the provisional categories.
    fn clean(&mut self)
        ensures
            final(self)@ == old(self)@.cleaned(),
            journalled(*old(self), *final(self)),
    {
        let ghost start = self@;
        let keys = keys_of(self.enrichment_table());
        let mut i: usize = 0;
        let ghost mut gone: Set<i64> = Set::empty();
        proof {
            journal_starts(*self);
            assert(start.enrichments.remove_keys(gone) =~= start.enrichments);
        }
        while i < keys.len()
            invariant
                i <= keys@.len(),
                keys@.no_duplicates(),
                forall|k: i64| #[trigger] keys@.contains(k) <==> start.enrichments.contains_key(k),
                forall|k: i64| #[trigger]
                    gone.contains(k) <==> keys@.take(i as int).contains(k)
                        && start.provisional().contains(k),
                self@ == (Tables { enrichments: start.enrichments.remove_keys(gone), ..start }),
                journalled(*old(self), *self),
            decreases keys@.len() - i,
        {
            let k: i64 = keys[i];
            assert(keys@.contains(keys@[i as int]));
            let ghost before = *self;
            proof {
                lemma_take_contains(keys@, i as int);
                assert(!keys@.take(i as int).contains(k));
            }
            if let Some(e) = self.enrichment_row(k) {
                if matches!(e.category_source, Some(CategorySource::Rule))
                    && !e.category_confirmed {
                    self.drop_enrichment(k);
                    proof {
                        journal_goes_on(*old(self), before, *self);
                        assert(start.enrichments.remove_keys(gone).remove(k)
                            =~= start.enrichments.remove_keys(gone.insert(k)));
                        gone = gone.insert(k);
                    }
                }
            }
            i += 1;
        }
        proof {
            assert(keys@.take(i as int) =~= keys@);
            assert(gone =~= start.provisional());
        }
    }

    /// Give the claimed transactions their categories; `first` is an id above
    /// those of all enrichments.
    fn carry_out(&mut self, claims: &Vec<Claim>, first: i64, now: Timestamp)
        requires
            claims_differ(claims@),
            first + claims@.len() <= i64::MAX,
            0 <= first,
        ensures
            old(self)@.carried_out(claims@, now, final(self)@),
            journalled(*old(self), *final(self)),
            old(self)@.keyed() ==> final(self)@.keyed(),
    {
        let ghost base = self@;
        let mut next: i64 = first;
        let mut i: usize = 0;
        proof {
            journal_starts(*self);
        }
        while i < claims.len()
            invariant
                i <= claims@.len(),
                claims_differ(claims@),
                first + claims@.len() <= i64::MAX,
                0 <= first <= next <= first + i,
                base == old(self)@,
                base.carried_out(claims@.take(i as int), now, self@),
                journalled(*old(self), *self),
                base.keyed() ==> self@.keyed(),
            decreases claims@.len() - i,
        {
            let c = &claims[i];
            let tx_id: i64 = c.tx.id;
            let ghost before = *self;
            let ghost done = claims@.take(i as int);
            let ghost more = claims@.take(i + 1);
            proof {
                lemma_legs(base, self@);
                assert forall|j: int| 0 <= j < done.len() && (#[trigger] done[j]).tx.id
                    == tx_id implies !base.effective(done[j]) by {
                    assert(claims@[j].tx.id != claims@[i as int].tx.id);
                }
                assert(base.untouched(done, tx_id));
                assert(self@.enrichments.contains_key(tx_id) == base.enrichments.contains_key(
                    tx_id,
                ));
            }
            if !self.is_transfer_leg(tx_id) && self.filter_applies(
                c.category_id,
                c.override_mode,
                tx_id,
            ) {
                assert(base.effective(claims@[i as int]));
                let a = Assignment {
                    category_id: c.category_id,
                    source: CategorySource::Rule,
                    confirmed: !c.review_required,
                    ai_confidence: None,
                };
                proof {
                    lemma_assigning_keeps(self@, tx_id, a, next, now);
                }
                self.assign(tx_id, a, next, now);
                proof {
                    journal_goes_on(*old(self), before, *self);
                }
                next += 1;
            } else {
                assert(!base.effective(claims@[i as int]));
            }
            proof {
                assert forall|j: int|
                    #![trigger more[j]]
                    0 <= j < more.len() && base.effective(more[j]) implies
                    self@.enrichments.contains_key(more[j].tx.id) && base.ruled(
                    more[j],
                    self@.enrichments[more[j].tx.id],
                    now,
                ) by {
                    assert(more[j] == claims@[j]);
                    if j < i {
                        assert(done[j] == claims@[j]);
                        assert(claims@[j].tx.id != claims@[i as int].tx.id);
                    }
                }
                assert forall|tx: i64| base.untouched(more, tx) implies (
                #[trigger] self@.enrichments.contains_key(tx) == base.enrichments.contains_key(tx)
                    && (base.enrichments.contains_key(tx) ==> self@.enrichments[tx]
                    == base.enrichments[tx])) by {
                    assert forall|j: int| 0 <= j < done.len() && (#[trigger] done[j]).tx.id
                        == tx implies !base.effective(done[j]) by {
                        assert(more[j] == done[j]);
                    }
                    assert(base.untouched(done, tx));
                    assert(more[i as int] == claims@[i as int]);
                    assert(before@.enrichments.contains_key(tx)
                        == base.enrichments.contains_key(tx));
                }
            }
            i += 1;
        }
        assert(claims@.take(i as int) =~= claims@);
    }

    /// The state after [`Self::apply_filters`].
    pub open spec fn apply_filters_leads_to(
        self,
        found: &HashMap<i64, Hits>,
        now: Timestamp,
        result: Result<usize,
        Error,
        >, next: TransactionStore,
    ) -> bool {
        &&& match result {
            Ok(n) => exists|claims: Seq<Claim>| #[trigger]
                self@.claimed(found@, claims) && n == self@.changed(claims).len()
                    && self@.cleaned().carried_out(claims, now, next@)
                    && claims_differ(claims),
            Err(Error::NoFreeId) => {
                &&& next == self
                &&& exists|claims: Seq<Claim>, top: int| #[trigger]
                    self@.claimed(found@, claims) && #[trigger]
                    self@.next_enrichment_id(top) && top + claims.len() > i64::MAX
            },
            Err(_) => false,
        }
        &&& journalled(self, next)
        &&& self@.keyed() ==> next@.keyed()
        &&& self@.exclusive() ==> next@.exclusive()
    }

    /// Auto-categorise transactions matching category-bearing filters. Returns
    /// the number of transactions whose category changed. `found` has for each
    /// filter the transactions that its query finds.
    pub fn apply_filters(&mut self, found: &HashMap<i64, Hits>, now: Timestamp) -> (result: Result<
        usize,
        Error,
    >)
        ensures
            old(self).apply_filters_leads_to(found, now, result, *final(self)),
    {
        proof {
            journal_starts(*self);
        }
        let claims = self.filter_claims(found);
        let first: i64 = match self.fresh_enrichment_id() {
            Some(id) => id,
            None => {
                assert(self@.next_enrichment_id(i64::MAX + 1));
                return Err(Error::NoFreeId);
            },
        };
        if claims.len() as i128 > i64::MAX as i128 - first as i128 {
            assert(self@.next_enrichment_id(first as int));
            return Err(Error::NoFreeId);
        }
        let changed = self.changed_by(&claims);
        self.clean();
        let ghost one = *self;
        self.carry_out(&claims, first, now);
        proof {
            journal_goes_on(*old(self), one, *self);
            applying_spares_confirmed_and_legs(old(self)@, claims@, now, self@, 0);
        }
        Ok(changed.len())
    }
}

} // verus!
