//! Applying the filters more than once, and after a preview.

use std::collections::HashMap;

use vstd::prelude::*;

use super::apply::{
    a_transaction_is_claimed_once, applying_again_changes_nothing, candidates, claims_differ,
    claims_of, first_claims, is_claimed, lemma_candidates_extend, lemma_claim_pushed, lemma_legs,
    Claim,
};
use super::filters::every_filter;
use super::order::{by_position, newest_first};
use super::select::{lists, rows_at, selection};
use super::{Error, Hits, Tables, TransactionStore};
use crate::model::{Filter, Timestamp, Transaction};
use crate::text::lemma_lex_total;

verus! {

/// Where no two rows are level, there is one selection.
proof fn lemma_one_selection<T>(
    m: Map<i64, T>,
    a: Seq<i64>,
    b: Seq<i64>,
    order: spec_fn(T, T) -> bool,
)
    requires
        a.no_duplicates(),
        b.no_duplicates(),
        forall|k: i64| #[trigger] a.contains(k) <==> b.contains(k),
        forall|k: i64| #[trigger] a.contains(k) ==> m.contains_key(k),
        forall|i: int, j: int|
            0 <= i < j < a.len() ==> order(#[trigger] m[a[i]], #[trigger] m[a[j]]),
        forall|i: int, j: int|
            0 <= i < j < b.len() ==> order(#[trigger] m[b[i]], #[trigger] m[b[j]]),
        forall|x: i64, y: i64| #[trigger]
            m.contains_key(x) && #[trigger] m.contains_key(y) && order(m[x], m[y]) && order(
                m[y],
                m[x],
            ) ==> x == y,
    ensures
        a == b,
    decreases a.len(),
{
    if a.len() == 0 {
        if b.len() > 0 {
            assert(b.contains(b[0]));
            assert(a.contains(b[0]));
        }
        assert(a =~= b);
    } else {
        assert(a.contains(a[0]));
        assert(b.contains(a[0]));
        let x = a.last();
        let y = b.last();
        assert(a.contains(x) && b.contains(y));
        assert(a.contains(y) && b.contains(x));
        let i = choose|i: int| 0 <= i < a.len() && a[i] == y;
        let j = choose|j: int| 0 <= j < b.len() && b[j] == x;
        if x != y {
            assert(order(m[a[i]], m[a[a.len() - 1]]));
            assert(order(m[b[j]], m[b[b.len() - 1]]));
        }
        let a1 = a.drop_last();
        let b1 = b.drop_last();
        assert forall|k: i64| #[trigger] a1.contains(k) <==> b1.contains(k) by {
            lemma_dropped(a, k);
            lemma_dropped(b, k);
            assert(a.contains(k) <==> b.contains(k));
        }
        assert forall|k: i64| #[trigger] a1.contains(k) implies m.contains_key(k) by {
            lemma_dropped(a, k);
            assert(a.contains(k));
        }
        lemma_one_selection(m, a1, b1, order);
        assert(a =~= a1.push(x));
        assert(b =~= b1.push(y));
    }
}

proof fn lemma_dropped(a: Seq<i64>, k: i64)
    requires
        a.no_duplicates(),
        a.len() > 0,
    ensures
        a.drop_last().contains(k) <==> a.contains(k) && k != a.last(),
{
    let b = a.drop_last();
    if b.contains(k) {
        let i = choose|i: int| 0 <= i < b.len() && b[i] == k;
        assert(a[i] == k);
    }
    if a.contains(k) && k != a.last() {
        let i = choose|i: int| 0 <= i < a.len() && a[i] == k;
        assert(b[i] == k);
    }
}

/// Where no two rows are level, there is one list of the wanted rows.
proof fn lemma_one_list<T>(
    m: Map<i64, T>,
    a: Seq<T>,
    b: Seq<T>,
    wanted: spec_fn(T) -> bool,
    also: spec_fn(T) -> bool,
    order: spec_fn(T, T) -> bool,
)
    requires
        lists(a, m, wanted, order),
        lists(b, m, also, order),
        forall|t: T| wanted(t) == #[trigger] also(t),
        forall|x: i64, y: i64| #[trigger]
            m.contains_key(x) && #[trigger] m.contains_key(y) && order(m[x], m[y]) && order(
                m[y],
                m[x],
            ) ==> x == y,
    ensures
        a == b,
{
    let ka = choose|keys: Seq<i64>| #[trigger]
        selection(keys, m, wanted, order) && a == rows_at(m, keys);
    let kb = choose|keys: Seq<i64>| #[trigger]
        selection(keys, m, also, order) && b == rows_at(m, keys);
    assert forall|k: i64| #[trigger] ka.contains(k) <==> kb.contains(k) by {
        assert(kb.contains(k) <==> m.contains_key(k) && also(m[k]));
    }
    assert forall|i: int, j: int| 0 <= i < j < ka.len() implies order(
        #[trigger] m[ka[i]],
        #[trigger] m[ka[j]],
    ) by {
        assert(rows_at(m, ka)[i] == m[ka[i]] && rows_at(m, ka)[j] == m[ka[j]]);
    }
    assert forall|i: int, j: int| 0 <= i < j < kb.len() implies order(
        #[trigger] m[kb[i]],
        #[trigger] m[kb[j]],
    ) by {
        assert(rows_at(m, kb)[i] == m[kb[i]] && rows_at(m, kb)[j] == m[kb[j]]);
    }
    lemma_one_selection(m, ka, kb, order);
}

/// The claims are fixed by the filters, the transactions and the accounts: tables
/// that agree on these make the same claims.
pub proof fn claims_are_fixed(
    t: Tables,
    u: Tables,
    found: Map<i64, Hits>,
    a: Seq<Claim>,
    b: Seq<Claim>,
)
    requires
        t.keyed(),
        u.filters == t.filters,
        u.transactions == t.transactions,
        u.accounts == t.accounts,
        t.claimed(found, a),
        u.claimed(found, b),
    ensures
        a == b,
        claims_differ(a),
{
    let (fa, ta) = choose|filters: Seq<Filter>, txs: Seq<Seq<Transaction>>|
        {
            &&& #[trigger] lists(filters, t.filters, every_filter(), by_position())
            &&& txs.len() == filters.len()
            &&& forall|i: int|
                #![trigger txs[i]]
                0 <= i < filters.len() ==> lists(
                    txs[i],
                    t.transactions,
                    t.finds(found, filters[i]),
                    newest_first(),
                )
            &&& a == first_claims(#[trigger] candidates(filters, txs))
        };
    let (fb, tb) = choose|filters: Seq<Filter>, txs: Seq<Seq<Transaction>>|
        {
            &&& #[trigger] lists(filters, u.filters, every_filter(), by_position())
            &&& txs.len() == filters.len()
            &&& forall|i: int|
                #![trigger txs[i]]
                0 <= i < filters.len() ==> lists(
                    txs[i],
                    u.transactions,
                    u.finds(found, filters[i]),
                    newest_first(),
                )
            &&& b == first_claims(#[trigger] candidates(filters, txs))
        };
    lemma_one_list(t.filters, fa, fb, every_filter(), every_filter(), by_position());
    let m = t.transactions;
    let order = newest_first();
    assert forall|x: i64, y: i64| #[trigger]
        m.contains_key(x) && #[trigger] m.contains_key(y) && order(m[x], m[y]) && order(
            m[y],
            m[x],
        ) implies x == y by {
        lemma_lex_total(m[x].date@, m[y].date@);
    }
    assert forall|i: int| 0 <= i < fa.len() implies ta[i] == tb[i] by {
        let wanted = t.finds(found, fa[i]);
        let also = u.finds(found, fa[i]);
        assert forall|tx: Transaction| wanted(tx) == #[trigger] also(tx) by {
            assert(t.live(tx) == u.live(tx));
        }
        assert(lists(ta[i], m, wanted, order));
        assert(lists(tb[i], m, also, order));
        lemma_one_list(m, ta[i], tb[i], wanted, also, order);
    }
    lemma_candidates_extend(fa, ta, tb);
    a_transaction_is_claimed_once(candidates(fa, ta));
}

/// The claim is that of the filter at `k`, which finds the transaction; no filter
/// before it has a category and finds it.
pub open spec fn wins(
    t: Tables,
    found: Map<i64, Hits>,
    filters: Seq<Filter>,
    k: int,
    c: Claim,
) -> bool {
    &&& 0 <= k < filters.len()
    &&& filters[k].category_id == Some(c.category_id)
    &&& c.override_mode == filters[k].override_mode
    &&& c.review_required == filters[k].review_required
    &&& t.finds(found, filters[k])(c.tx)
    &&& forall|j: int|
        0 <= j < k ==> (#[trigger] filters[j]).category_id is None || !t.finds(found, filters[j])(
            c.tx,
        )
}

proof fn lemma_claimed_at_all(claims: Seq<Claim>, tx_id: i64)
    ensures
        is_claimed(first_claims(claims), tx_id) <==> is_claimed(claims, tx_id),
    decreases claims.len(),
{
    if claims.len() > 0 {
        let rest = claims.drop_last();
        lemma_claimed_at_all(rest, tx_id);
        lemma_claim_pushed(rest, claims.last(), tx_id);
        assert(rest.push(claims.last()) =~= claims);
        lemma_claim_pushed(first_claims(rest), claims.last(), tx_id);
    }
}

proof fn lemma_claims_behind(a: Seq<Claim>, b: Seq<Claim>, c: Claim)
    requires
        first_claims(a + b).contains(c),
    ensures
        first_claims(a).contains(c) || (b.contains(c) && !is_claimed(a, c.tx.id)),
    decreases b.len(),
{
    if b.len() == 0 {
        assert(a + b =~= a);
    } else {
        let all = a + b;
        let rest = b.drop_last();
        assert(all.drop_last() =~= a + rest);
        let before = first_claims(a + rest);
        let k = choose|k: int| 0 <= k < first_claims(all).len() && first_claims(all)[k] == c;
        if k < before.len() {
            assert(before[k] == c);
            lemma_claims_behind(a, rest, c);
            if rest.contains(c) {
                let j = choose|j: int| 0 <= j < rest.len() && rest[j] == c;
                assert(b[j] == c);
            }
        } else {
            assert(c == all.last());
            assert(b[b.len() - 1] == c);
            lemma_claimed_at_all(a + rest, c.tx.id);
            if is_claimed(a, c.tx.id) {
                let j = choose|j: int| 0 <= j < a.len() && (#[trigger] a[j]).tx.id == c.tx.id;
                assert((a + rest)[j].tx.id == c.tx.id);
            }
        }
    }
}

/// A transaction that a filter with a category finds is among the candidates.
proof fn lemma_candidate(filters: Seq<Filter>, txs: Seq<Seq<Transaction>>, j: int, tx: Transaction)
    requires
        0 <= j < filters.len(),
        txs.len() >= filters.len(),
        filters[j].category_id is Some,
        txs[j].contains(tx),
    ensures
        is_claimed(candidates(filters, txs), tx.id),
    decreases filters.len(),
{
    let rest = candidates(filters.drop_last(), txs);
    let own = claims_of(filters.last(), txs[filters.len() - 1]);
    let all = candidates(filters, txs);
    if j < filters.len() - 1 {
        lemma_candidate(filters.drop_last(), txs, j, tx);
        let k = choose|k: int| 0 <= k < rest.len() && (#[trigger] rest[k]).tx.id == tx.id;
        assert(all[k].tx.id == tx.id);
    } else {
        let k = choose|k: int| 0 <= k < txs[j].len() && txs[j][k] == tx;
        assert(own[k].tx == tx);
        assert(all[rest.len() + k].tx.id == tx.id);
    }
}

proof fn lemma_first_filter(
    t: Tables,
    found: Map<i64, Hits>,
    filters: Seq<Filter>,
    txs: Seq<Seq<Transaction>>,
    c: Claim,
)
    requires
        t.keyed(),
        txs.len() >= filters.len(),
        forall|i: int|
            #![trigger txs[i]]
            0 <= i < filters.len() ==> lists(
                txs[i],
                t.transactions,
                t.finds(found, filters[i]),
                newest_first(),
            ),
        first_claims(candidates(filters, txs)).contains(c),
    ensures
        exists|k: int| #[trigger] wins(t, found, filters, k, c),
        t.transactions.contains_key(c.tx.id),
        t.transactions[c.tx.id] == c.tx,
    decreases filters.len(),
{
    if filters.len() > 0 {
        let rest = filters.drop_last();
        let n = filters.len() - 1;
        let a = candidates(rest, txs);
        let b = claims_of(filters.last(), txs[n]);
        lemma_claims_behind(a, b, c);
        if first_claims(a).contains(c) {
            lemma_first_filter(t, found, rest, txs, c);
            let k = choose|k: int| #[trigger] wins(t, found, rest, k, c);
            assert forall|j: int| 0 <= j < k implies (#[trigger] filters[j]).category_id is None
                || !t.finds(found, filters[j])(c.tx) by {
                assert(rest[j] == filters[j]);
            }
            assert(wins(t, found, filters, k, c));
        } else {
            let m = choose|m: int| 0 <= m < b.len() && b[m] == c;
            assert(txs[n][m] == c.tx);
            let keys = choose|keys: Seq<i64>| #[trigger]
                selection(keys, t.transactions, t.finds(found, filters[n]), newest_first())
                    && txs[n] == rows_at(t.transactions, keys);
            assert(keys.contains(keys[m]));
            assert forall|j: int| 0 <= j < n implies (#[trigger] filters[j]).category_id is None
                || !t.finds(found, filters[j])(c.tx) by {
                if filters[j].category_id is Some && t.finds(found, filters[j])(c.tx) {
                    let ks = choose|keys: Seq<i64>| #[trigger]
                        selection(
                            keys,
                            t.transactions,
                            t.finds(found, filters[j]),
                            newest_first(),
                        ) && txs[j] == rows_at(t.transactions, keys);
                    assert(ks.contains(c.tx.id));
                    let p = choose|p: int| 0 <= p < ks.len() && ks[p] == c.tx.id;
                    assert(txs[j][p] == c.tx);
                    assert(rest[j] == filters[j]);
                    lemma_candidate(rest, txs, j, c.tx);
                }
            }
            assert(wins(t, found, filters, n, c));
        }
    }
}

/// The claim that counts is that of the first filter in order that has a category and
/// finds the transaction.
pub proof fn the_first_filter_wins(
    t: Tables,
    found: Map<i64, Hits>,
    filters: Seq<Filter>,
    claims: Seq<Claim>,
    i: int,
)
    requires
        t.keyed(),
        lists(filters, t.filters, every_filter(), by_position()),
        t.claimed(found, claims),
        0 <= i < claims.len(),
    ensures
        exists|k: int| #[trigger] wins(t, found, filters, k, claims[i]),
        t.transactions.contains_key(claims[i].tx.id),
        t.transactions[claims[i].tx.id] == claims[i].tx,
{
    let (fs, txs) = choose|filters: Seq<Filter>, txs: Seq<Seq<Transaction>>|
        {
            &&& #[trigger] lists(filters, t.filters, every_filter(), by_position())
            &&& txs.len() == filters.len()
            &&& forall|i: int|
                #![trigger txs[i]]
                0 <= i < filters.len() ==> lists(
                    txs[i],
                    t.transactions,
                    t.finds(found, filters[i]),
                    newest_first(),
                )
            &&& claims == first_claims(#[trigger] candidates(filters, txs))
        };
    lemma_one_list(t.filters, filters, fs, every_filter(), every_filter(), by_position());
    assert(claims.contains(claims[i]));
    lemma_first_filter(t, found, filters, txs, claims[i]);
}

/// Every transaction that a filter with a category finds is claimed.
pub proof fn a_found_transaction_is_claimed(
    t: Tables,
    found: Map<i64, Hits>,
    filters: Seq<Filter>,
    claims: Seq<Claim>,
    k: int,
    tx_id: i64,
)
    requires
        t.keyed(),
        lists(filters, t.filters, every_filter(), by_position()),
        t.claimed(found, claims),
        0 <= k < filters.len(),
        filters[k].category_id is Some,
        t.transactions.contains_key(tx_id),
        t.finds(found, filters[k])(t.transactions[tx_id]),
    ensures
        is_claimed(claims, tx_id),
{
    let (fs, txs) = choose|filters: Seq<Filter>, txs: Seq<Seq<Transaction>>|
        {
            &&& #[trigger] lists(filters, t.filters, every_filter(), by_position())
            &&& txs.len() == filters.len()
            &&& forall|i: int|
                #![trigger txs[i]]
                0 <= i < filters.len() ==> lists(
                    txs[i],
                    t.transactions,
                    t.finds(found, filters[i]),
                    newest_first(),
                )
            &&& claims == first_claims(#[trigger] candidates(filters, txs))
        };
    lemma_one_list(t.filters, filters, fs, every_filter(), every_filter(), by_position());
    let tx = t.transactions[tx_id];
    let keys = choose|keys: Seq<i64>| #[trigger]
        selection(keys, t.transactions, t.finds(found, filters[k]), newest_first()) && txs[k]
            == rows_at(t.transactions, keys);
    assert(keys.contains(tx_id));
    let p = choose|p: int| 0 <= p < keys.len() && keys[p] == tx_id;
    assert(txs[k][p] == tx);
    lemma_candidate(filters, txs, k, tx);
    lemma_claimed_at_all(candidates(filters, txs), tx_id);
}

/// The transaction has the same category in both, from the same source and as
/// certain.
pub open spec fn same_category(t: Tables, u: Tables, tx_id: i64) -> bool {
    &&& t.enrichments.contains_key(tx_id) == u.enrichments.contains_key(tx_id)
    &&& t.enrichments.contains_key(tx_id) ==> {
        &&& t.enrichments[tx_id].category_id == u.enrichments[tx_id].category_id
        &&& t.enrichments[tx_id].category_source == u.enrichments[tx_id].category_source
        &&& t.enrichments[tx_id].category_confirmed == u.enrichments[tx_id].category_confirmed
    }
}

proof fn lemma_applied_again(
    t: Tables,
    claims: Seq<Claim>,
    now: Timestamp,
    u: Tables,
    later: Timestamp,
    v: Tables,
    tx: i64,
)
    requires
        claims_differ(claims),
        t.cleaned().carried_out(claims, now, u),
        u.cleaned().carried_out(claims, later, v),
    ensures
        same_category(u, v, tx),
{
    let base = t.cleaned();
    let again = u.cleaned();
    lemma_legs(t, base);
    lemma_legs(base, u);
    lemma_legs(u, again);
    if base.untouched(claims, tx) {
        assert(u.enrichments.contains_key(tx) == base.enrichments.contains_key(tx));
        if base.enrichments.contains_key(tx) {
            assert(u.enrichments[tx] == base.enrichments[tx]);
            assert(!t.provisional().contains(tx));
            assert(again.enrichments.contains_key(tx));
        }
        assert forall|i: int| 0 <= i < claims.len() && (#[trigger] claims[i]).tx.id
            == tx implies !again.effective(claims[i]) by {
            assert(!base.effective(claims[i]));
        }
        assert(again.untouched(claims, tx));
        assert(v.enrichments.contains_key(tx) == again.enrichments.contains_key(tx));
    } else {
        let i = choose|i: int|
            0 <= i < claims.len() && (#[trigger] claims[i]).tx.id == tx && base.effective(
                claims[i],
            );
        let c = claims[i];
        assert(base.ruled(c, u.enrichments[tx], now));
        if c.review_required {
            assert(u.provisional().contains(tx));
            assert(!again.enrichments.contains_key(tx));
            assert(again.effective(c));
            assert(again.ruled(c, v.enrichments[tx], later));
        } else {
            assert(!u.provisional().contains(tx));
            assert(again.enrichments.contains_key(tx));
            assert forall|j: int| 0 <= j < claims.len() && (#[trigger] claims[j]).tx.id
                == tx implies !again.effective(claims[j]) by {
                if j < i {
                    assert(claims[j].tx.id != claims[i].tx.id);
                } else if i < j {
                    assert(claims[i].tx.id != claims[j].tx.id);
                }
            }
            assert(again.untouched(claims, tx));
            assert(v.enrichments.contains_key(tx) == again.enrichments.contains_key(tx));
        }
    }
}

/// Applying the filters again at once changes no category: none is counted, and every
/// transaction keeps the one it has. Only for want of row ids is it refused.
pub proof fn applying_twice_is_applying_once(
    before: TransactionStore,
    found: &HashMap<i64, Hits>,
    now: Timestamp,
    count: usize,
    once: TransactionStore,
    later: Timestamp,
    again: Result<usize, Error>,
    twice: TransactionStore,
    tx: i64,
)
    requires
        before@.keyed(),
        before.apply_filters_leads_to(found, now, Ok(count), once),
        once.apply_filters_leads_to(found, later, again, twice),
    ensures
        match again {
            Ok(n) => n == 0,
            Err(e) => e is NoFreeId && twice == once,
        },
        same_category(once@, twice@, tx),
{
    let claims = choose|claims: Seq<Claim>| #[trigger]
        before@.claimed(found@, claims) && count == before@.changed(claims).len()
            && before@.cleaned().carried_out(claims, now, once@) && claims_differ(claims);
    if let Ok(n) = again {
        let more = choose|claims: Seq<Claim>| #[trigger]
            once@.claimed(found@, claims) && n == once@.changed(claims).len()
                && once@.cleaned().carried_out(claims, later, twice@) && claims_differ(claims);
        claims_are_fixed(before@, once@, found@, claims, more);
        applying_again_changes_nothing(before@, claims, now, once@);
        lemma_applied_again(before@, claims, now, once@, later, twice@, tx);
    }
}

/// Each transaction that applying the filters counts has a category that a rule gave
/// it, and is no transfer leg; it had not that category from a rule before.
pub proof fn applying_gives_what_it_counts(
    before: TransactionStore,
    found: &HashMap<i64, Hits>,
    now: Timestamp,
    count: usize,
    after: TransactionStore,
)
    requires
        before.apply_filters_leads_to(found, now, Ok(count), after),
    ensures
        exists|claims: Seq<Claim>| #[trigger]
            before@.claimed(found@, claims) && count == before@.changed(claims).len() && forall|
                i: int,
            |
                #![trigger claims[i]]
                0 <= i < claims.len() && before@.changes(claims[i]) ==> {
                    let tx = claims[i].tx.id;
                    &&& after@.rule_category(tx) == Some(claims[i].category_id)
                    &&& before@.rule_category(tx) != Some(claims[i].category_id)
                    &&& !after@.is_leg(tx)
                },
{
    let claims = choose|claims: Seq<Claim>| #[trigger]
        before@.claimed(found@, claims) && count == before@.changed(claims).len()
            && before@.cleaned().carried_out(claims, now, after@) && claims_differ(claims);
    let base = before@.cleaned();
    lemma_legs(base, after@);
    assert forall|i: int|
        #![trigger claims[i]]
        0 <= i < claims.len() && before@.changes(claims[i]) implies {
        let tx = claims[i].tx.id;
        &&& after@.rule_category(tx) == Some(claims[i].category_id)
        &&& before@.rule_category(tx) != Some(claims[i].category_id)
        &&& !after@.is_leg(tx)
    } by {
        assert(base.effective(claims[i]));
        assert(base.ruled(claims[i], after@.enrichments[claims[i].tx.id], now));
    }
}

pub(crate) proof fn lemma_changed(t: Tables, claims: Seq<Claim>)
    requires
        claims_differ(claims),
    ensures
        forall|i: int, j: int|
            0 <= i < j < t.changed(claims).len() ==> (#[trigger] t.changed(claims)[i]).id != (
            #[trigger] t.changed(claims)[j]).id,
        forall|i: int|
            0 <= i < t.changed(claims).len() ==> is_claimed(
                claims,
                (#[trigger] t.changed(claims)[i]).id,
            ),
    decreases claims.len(),
{
    reveal(Seq::filter);
    let rows = t.changed(claims);
    if claims.len() > 0 {
        let rest = claims.drop_last();
        let before = t.changed(rest);
        lemma_changed(t, rest);
        let c = claims.last();
        assert(rows =~= if t.changes(c) {
            before.push(c.tx)
        } else {
            before
        });
        assert forall|i: int| 0 <= i < rows.len() implies is_claimed(
            claims,
            (#[trigger] rows[i]).id,
        ) by {
            if i < before.len() {
                assert(is_claimed(rest, before[i].id));
                let k = choose|k: int|
                    0 <= k < rest.len() && (#[trigger] rest[k]).tx.id == before[i].id;
                assert(claims[k].tx.id == rows[i].id);
            } else {
                assert(claims[claims.len() - 1].tx.id == rows[i].id);
            }
        }
        assert forall|i: int, j: int| 0 <= i < j < rows.len() implies (#[trigger] rows[i]).id != (
        #[trigger] rows[j]).id by {
            if j == before.len() {
                assert(is_claimed(rest, before[i].id));
                let k = choose|k: int|
                    0 <= k < rest.len() && (#[trigger] rest[k]).tx.id == before[i].id;
                assert(claims[k].tx.id != claims[claims.len() - 1].tx.id);
            } else {
                assert(before[i].id != before[j].id);
            }
        }
    }
}

/// Two previews of the same tables give the same rows.
pub proof fn previews_agree(
    t: Tables,
    found: Map<i64, Hits>,
    rows: Seq<Transaction>,
    again: Seq<Transaction>,
)
    requires
        t.keyed(),
        t.previewed(found, rows),
        t.previewed(found, again),
    ensures
        again == rows,
{
    let a = choose|claims: Seq<Claim>| #[trigger]
        t.claimed(found, claims) && rows == t.changed(claims);
    let b = choose|claims: Seq<Claim>| #[trigger]
        t.claimed(found, claims) && again == t.changed(claims);
    claims_are_fixed(t, t, found, a, b);
}

/// A preview names no transaction twice.
pub proof fn a_preview_names_each_once(
    t: Tables,
    found: Map<i64, Hits>,
    rows: Seq<Transaction>,
    i: int,
    j: int,
)
    requires
        t.keyed(),
        t.previewed(found, rows),
        0 <= i < j < rows.len(),
    ensures
        rows[i].id != rows[j].id,
{
    let claims = choose|claims: Seq<Claim>| #[trigger]
        t.claimed(found, claims) && rows == t.changed(claims);
    claims_are_fixed(t, t, found, claims, claims);
    lemma_changed(t, claims);
}

/// Applying the filters after a preview counts the rows that the preview named.
pub proof fn applying_keeps_the_preview(
    before: TransactionStore,
    found: &HashMap<i64, Hits>,
    rows: Seq<Transaction>,
    now: Timestamp,
    count: usize,
    after: TransactionStore,
)
    requires
        before@.keyed(),
        before@.previewed(found@, rows),
        before.apply_filters_leads_to(found, now, Ok(count), after),
    ensures
        count == rows.len(),
{
    let a = choose|claims: Seq<Claim>| #[trigger]
        before@.claimed(found@, claims) && rows == before@.changed(claims);
    let b = choose|claims: Seq<Claim>| #[trigger]
        before@.claimed(found@, claims) && count == before@.changed(claims).len()
            && before@.cleaned().carried_out(claims, now, after@) && claims_differ(claims);
    claims_are_fixed(before@, before@, found@, a, b);
}

} // verus!
