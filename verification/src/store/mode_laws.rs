//! What applying the filters does to each transaction.

use std::collections::HashMap;

use vstd::prelude::*;

use super::apply::{candidates, claims_differ, first_claims, lemma_legs, Claim};
use super::apply_laws::{a_found_transaction_is_claimed, the_first_filter_wins, wins};
use super::filters::every_filter;
use super::order::{by_position, newest_first};
use super::query_laws::{asked_for, buried, in_transfer};
use super::select::{lists, rows_at, selection};
use super::{Hits, Tables, TransactionStore};
use crate::model::{
    CategorySource, Filter, FilterOverride, Timestamp, Transaction, TransactionEnrichment,
};

verus! {

/// The filter has a category to give, and its query finds the transaction, whose
/// account is not deleted.
pub open spec fn matches_tx(t: Tables, found: Map<i64, Hits>, f: Filter, tx: Transaction) -> bool {
    f.category_id is Some && found.contains_key(f.id) && asked_for(found[f.id], tx.id) && !buried(
        t,
        tx,
    )
}

/// The filter is the first of those that match the transaction: by position, and by
/// id in one position.
pub open spec fn matches_first(
    t: Tables,
    found: Map<i64, Hits>,
    filter_id: i64,
    tx: Transaction,
) -> bool {
    let f = t.filters[filter_id];
    &&& t.filters.contains_key(filter_id)
    &&& matches_tx(t, found, f, tx)
    &&& forall|k: i64| #[trigger]
        t.filters.contains_key(k) && k != filter_id && matches_tx(t, found, t.filters[k], tx) ==> {
            let g = t.filters[k];
            f.position < g.position || (f.position == g.position && filter_id < k)
        }
}

/// The enrichment is one that a rule gave and nobody confirmed.
pub open spec fn is_provisional(e: TransactionEnrichment) -> bool {
    e.category_source == Some(CategorySource::Rule) && !e.category_confirmed
}

/// The transaction has an enrichment that is not provisional.
pub open spec fn has_lasting(t: Tables, tx_id: i64) -> bool {
    t.enrichments.contains_key(tx_id) && !is_provisional(t.enrichments[tx_id])
}

proof fn lemma_ordered(t: Tables, filters: Seq<Filter>)
    requires
        t.keyed(),
        lists(filters, t.filters, every_filter(), by_position()),
    ensures
        forall|k: i64| #[trigger]
            t.filters.contains_key(k) ==> exists|i: int|
                0 <= i < filters.len() && #[trigger] filters[i] == t.filters[k],
        forall|i: int|
            0 <= i < filters.len() ==> t.filters.contains_key((#[trigger] filters[i]).id)
                && t.filters[filters[i].id] == filters[i],
        forall|i: int, j: int|
            0 <= i < j < filters.len() ==> {
                let (f, g) = (#[trigger] filters[i], #[trigger] filters[j]);
                f.position < g.position || (f.position == g.position && f.id < g.id)
            },
{
    let keys = choose|keys: Seq<i64>| #[trigger]
        selection(keys, t.filters, every_filter(), by_position()) && filters == rows_at(
            t.filters,
            keys,
        );
    assert forall|i: int| 0 <= i < filters.len() implies t.filters.contains_key(
        (#[trigger] filters[i]).id,
    ) && t.filters[filters[i].id] == filters[i] && filters[i].id == keys[i] by {
        assert(keys.contains(keys[i]));
        assert(filters[i] == t.filters[keys[i]]);
    }
    assert forall|k: i64| #[trigger] t.filters.contains_key(k) implies exists|i: int|
        0 <= i < filters.len() && #[trigger] filters[i] == t.filters[k] by {
        assert(every_filter()(t.filters[k]));
        assert(keys.contains(k));
        let i = choose|i: int| 0 <= i < keys.len() && keys[i] == k;
        assert(filters[i] == t.filters[k]);
    }
    assert forall|i: int, j: int| 0 <= i < j < filters.len() implies {
        let (f, g) = (#[trigger] filters[i], #[trigger] filters[j]);
        f.position < g.position || (f.position == g.position && f.id < g.id)
    } by {
        assert(by_position()(filters[i], filters[j]));
        assert(filters[i].id == keys[i] && filters[j].id == keys[j]);
        assert(keys[i] != keys[j]);
    }
}

/// The claim on a transaction is that of the first filter that matches it.
proof fn lemma_claim(
    t: Tables,
    found: Map<i64, Hits>,
    claims: Seq<Claim>,
    filter_id: i64,
    tx_id: i64,
) -> (i: int)
    requires
        t.keyed(),
        t.claimed(found, claims),
        t.transactions.contains_key(tx_id),
        matches_first(t, found, filter_id, t.transactions[tx_id]),
    ensures
        0 <= i < claims.len(),
        claims[i].tx == t.transactions[tx_id],
        t.filters[filter_id].category_id == Some(claims[i].category_id),
        claims[i].override_mode == t.filters[filter_id].override_mode,
        claims[i].review_required == t.filters[filter_id].review_required,
{
    let (filters, txs) = choose|filters: Seq<Filter>, txs: Seq<Seq<Transaction>>|
        {
            &&& #[trigger] lists(filters, t.filters, every_filter(), by_position())
            &&& txs.len() == filters.len()
            &&& forall|i: int|
                #![trigger txs[i]]
                0 <= i < filters.len() ==> lists(
                    txs[i],
                    t.transactions,
                    t.finds(found, filters[i]),
                    newest_first(),
                )
            &&& claims == first_claims(#[trigger] candidates(filters, txs))
        };
    lemma_ordered(t, filters);
    let f = t.filters[filter_id];
    let tx = t.transactions[tx_id];
    let n = choose|n: int| 0 <= n < filters.len() && #[trigger] filters[n] == f;
    a_found_transaction_is_claimed(t, found, filters, claims, n, tx_id);
    let i = choose|i: int| 0 <= i < claims.len() && (#[trigger] claims[i]).tx.id == tx_id;
    the_first_filter_wins(t, found, filters, claims, i);
    let k = choose|k: int| #[trigger] wins(t, found, filters, k, claims[i]);
    let g = filters[k];
    assert(matches_tx(t, found, g, tx));
    assert(k == n) by {
        if n < k {
            assert(filters[n].category_id is None || !t.finds(found, filters[n])(claims[i].tx));
        }
        if k < n {
            assert(t.filters.contains_key(g.id));
            assert(g.position < f.position || (g.position == f.position && g.id < f.id));
        }
    }
    i
}

/// The first filter that matches a transaction decides, by its mode. A transfer leg is
/// left alone, and so is a confirmation of the very category. A transaction without an
/// enrichment, provisional ones not counted, gets the category. One that has an
/// enrichment keeps exactly that in mode Uncategorised, unless its source was Ai in
/// mode Ai, and gets the category in mode All.
pub proof fn the_mode_of_the_first_filter_decides(
    before: TransactionStore,
    found: &HashMap<i64, Hits>,
    now: Timestamp,
    count: usize,
    after: TransactionStore,
    filter_id: i64,
    tx_id: i64,
)
    requires
        before@.keyed(),
        before.apply_filters_leads_to(found, now, Ok(count), after),
        before@.transactions.contains_key(tx_id),
        matches_first(before@, found@, filter_id, before@.transactions[tx_id]),
    ensures
        ({
            let f = before@.filters[filter_id];
            let (was, is) = (before@.enrichments[tx_id], after@.enrichments[tx_id]);
            let had = has_lasting(before@, tx_id);
            let settled = was.category_confirmed && was.category_id == f.category_id;
            let given = !in_transfer(before@, tx_id) && (!had || (!settled
                && match f.override_mode {
                FilterOverride::Uncategorised => false,
                FilterOverride::Ai => was.category_source == Some(CategorySource::Ai),
                FilterOverride::All => true,
            }));
            if given {
                &&& after@.enrichments.contains_key(tx_id)
                &&& is.transaction_id == tx_id
                &&& is.category_id == f.category_id
                &&& is.category_source == Some(CategorySource::Rule)
                &&& is.category_confirmed == !f.review_required
                &&& is.ai_confidence is None
                &&& is.updated_at == now
                &&& is.created_at == if had {
                    was.created_at
                } else {
                    now
                }
            } else {
                &&& after@.enrichments.contains_key(tx_id) == had
                &&& had ==> is == was
            }
        }),
{
    let t = before@;
    let base = t.cleaned();
    let claims = choose|claims: Seq<Claim>| #[trigger]
        t.claimed(found@, claims) && count == t.changed(claims).len() && base.carried_out(
            claims,
            now,
            after@,
        ) && claims_differ(claims);
    let i = lemma_claim(t, found@, claims, filter_id, tx_id);
    let c = claims[i];
    lemma_legs(t, base);
    assert(t.is_leg(tx_id) == in_transfer(t, tx_id));
    assert(c.tx.id == tx_id);
    assert(base.enrichments.contains_key(tx_id) == has_lasting(t, tx_id));
    if base.effective(c) {
        assert(base.ruled(c, after@.enrichments[tx_id], now));
    } else {
        assert forall|j: int| 0 <= j < claims.len() && (#[trigger] claims[j]).tx.id
            == tx_id implies !base.effective(claims[j]) by {
            if j < i {
                assert(claims[j].tx.id != claims[i].tx.id);
            } else if i < j {
                assert(claims[i].tx.id != claims[j].tx.id);
            }
        }
        assert(base.untouched(claims, tx_id));
        assert(after@.enrichments.contains_key(tx_id) == base.enrichments.contains_key(tx_id));
    }
}

/// A transaction that no filter with a category matches keeps its enrichment, or
/// loses it where it was provisional. Nothing but enrichments changes.
pub proof fn what_no_filter_matches_stays(
    before: TransactionStore,
    found: &HashMap<i64, Hits>,
    now: Timestamp,
    count: usize,
    after: TransactionStore,
    tx_id: i64,
)
    requires
        before@.keyed(),
        before.apply_filters_leads_to(found, now, Ok(count), after),
        before@.transactions.contains_key(tx_id) ==> forall|k: i64| #[trigger]
            before@.filters.contains_key(k) ==> !matches_tx(
                before@,
                found@,
                before@.filters[k],
                before@.transactions[tx_id],
            ),
    ensures
        after@.enrichments.contains_key(tx_id) == has_lasting(before@, tx_id),
        has_lasting(before@, tx_id) ==> after@.enrichments[tx_id] == before@.enrichments[tx_id],
        after@ == (Tables { enrichments: after@.enrichments, ..before@ }),
{
    let t = before@;
    let base = t.cleaned();
    let claims = choose|claims: Seq<Claim>| #[trigger]
        t.claimed(found@, claims) && count == t.changed(claims).len() && base.carried_out(
            claims,
            now,
            after@,
        ) && claims_differ(claims);
    let filters = lemma_some_filters(t, found@, claims);
    lemma_ordered(t, filters);
    assert forall|i: int| 0 <= i < claims.len() && (#[trigger] claims[i]).tx.id
        == tx_id implies !base.effective(claims[i]) by {
        the_first_filter_wins(t, found@, filters, claims, i);
        let k = choose|k: int| #[trigger] wins(t, found@, filters, k, claims[i]);
        assert(t.filters.contains_key(filters[k].id));
        assert(matches_tx(t, found@, filters[k], claims[i].tx));
    }
    assert(base.untouched(claims, tx_id));
    assert(after@.enrichments.contains_key(tx_id) == base.enrichments.contains_key(tx_id));
}

proof fn lemma_some_filters(t: Tables, found: Map<i64, Hits>, claims: Seq<Claim>) -> (filters: Seq<
    Filter,
>)
    requires
        t.claimed(found, claims),
    ensures
        lists(filters, t.filters, every_filter(), by_position()),
{
    let (filters, txs) = choose|filters: Seq<Filter>, txs: Seq<Seq<Transaction>>|
        {
            &&& #[trigger] lists(filters, t.filters, every_filter(), by_position())
            &&& txs.len() == filters.len()
            &&& forall|i: int|
                #![trigger txs[i]]
                0 <= i < filters.len() ==> lists(
                    txs[i],
                    t.transactions,
                    t.finds(found, filters[i]),
                    newest_first(),
                )
            &&& claims == first_claims(#[trigger] candidates(filters, txs))
        };
    filters
}

/// The transaction got a category from a rule that it had not from a rule before.
pub open spec fn gained(before: Tables, after: Tables, tx_id: i64) -> bool {
    &&& after.enrichments.contains_key(tx_id)
    &&& after.enrichments[tx_id].category_source == Some(CategorySource::Rule)
    &&& !(before.enrichments.contains_key(tx_id) && before.enrichments[tx_id].category_source
        == Some(CategorySource::Rule) && before.enrichments[tx_id].category_id
        == after.enrichments[tx_id].category_id)
}

/// What applying the filters counts, and a preview before it names, is exactly the
/// transactions that get a category from a rule which they had not from a rule
/// before.
pub proof fn what_changes_is_counted(
    before: TransactionStore,
    found: &HashMap<i64, Hits>,
    now: Timestamp,
    count: usize,
    after: TransactionStore,
    rows: Seq<Transaction>,
)
    requires
        before@.keyed(),
        before.apply_filters_leads_to(found, now, Ok(count), after),
        before@.previewed(found@, rows),
    ensures
        count == rows.len(),
        forall|i: int, j: int|
            0 <= i < j < rows.len() ==> (#[trigger] rows[i]).id != (#[trigger] rows[j]).id,
        forall|i: int| 0 <= i < rows.len() ==> gained(before@, after@, (#[trigger] rows[i]).id),
        forall|tx: i64| #[trigger]
            gained(before@, after@, tx) ==> exists|i: int|
                0 <= i < rows.len() && (#[trigger] rows[i]).id == tx,
{
    let t = before@;
    let base = t.cleaned();
    let claims = choose|claims: Seq<Claim>| #[trigger]
        t.claimed(found@, claims) && count == t.changed(claims).len() && base.carried_out(
            claims,
            now,
            after@,
        ) && claims_differ(claims);
    let named = choose|claims: Seq<Claim>| #[trigger]
        t.claimed(found@, claims) && rows == t.changed(claims);
    super::apply_laws::claims_are_fixed(t, t, found@, claims, named);
    super::apply_laws::lemma_changed(t, claims);
    lemma_legs(t, base);
    assert forall|i: int| 0 <= i < rows.len() implies gained(
        before@,
        after@,
        (#[trigger] rows[i]).id,
    ) by {
        let k = lemma_changing(t, claims, i);
        assert(base.effective(claims[k]));
        assert(base.ruled(claims[k], after@.enrichments[claims[k].tx.id], now));
    }
    assert forall|tx: i64| #[trigger] gained(before@, after@, tx) implies exists|i: int|
        0 <= i < rows.len() && (#[trigger] rows[i]).id == tx by {
        if base.untouched(claims, tx) {
            assert(after@.enrichments.contains_key(tx) == base.enrichments.contains_key(tx));
        }
        let k = choose|k: int|
            0 <= k < claims.len() && (#[trigger] claims[k]).tx.id == tx && base.effective(
                claims[k],
            );
        assert(base.ruled(claims[k], after@.enrichments[tx], now));
        assert(t.changes(claims[k]));
        let i = lemma_is_changed(t, claims, k);
        assert(rows[i].id == tx);
    }
}

proof fn lemma_changing(t: Tables, claims: Seq<Claim>, i: int) -> (k: int)
    requires
        0 <= i < t.changed(claims).len(),
    ensures
        0 <= k < claims.len(),
        t.changes(claims[k]),
        t.changed(claims)[i] == claims[k].tx,
    decreases claims.len(),
{
    reveal(Seq::filter);
    if claims.len() == 0 {
        assert(t.changed(claims) =~= Seq::empty());
        0
    } else {
        let rest = claims.drop_last();
        let before = t.changed(rest);
        assert(t.changed(claims) =~= if t.changes(claims.last()) {
            before.push(claims.last().tx)
        } else {
            before
        });
        if i < before.len() {
            lemma_changing(t, rest, i)
        } else {
            claims.len() - 1
        }
    }
}

proof fn lemma_is_changed(t: Tables, claims: Seq<Claim>, k: int) -> (i: int)
    requires
        0 <= k < claims.len(),
        t.changes(claims[k]),
    ensures
        0 <= i < t.changed(claims).len(),
        t.changed(claims)[i] == claims[k].tx,
    decreases claims.len(),
{
    reveal(Seq::filter);
    let rest = claims.drop_last();
    let before = t.changed(rest);
    assert(t.changed(claims) =~= if t.changes(claims.last()) {
        before.push(claims.last().tx)
    } else {
        before
    });
    if k < rest.len() {
        lemma_is_changed(t, rest, k)
    } else {
        before.len() as int
    }
}

} // verus!
