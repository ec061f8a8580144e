//! What the lists of the store hold, and in which order.

use vstd::prelude::*;
use vstd::seq_lib::*;

use super::annotations::most_used;
use super::categories::{best_first, every_category, scores};
use super::filters::{applying, every_filter};
use super::order::{
    by_account_name, by_bank_name, by_id, by_path, by_position, latest_first, newest_first,
};
use super::refresh::{existing_account, existing_bank};
use super::select::{limited, lists, lists_up_to, rows_at, selection};
use super::transfers::{by_transfer_id, nearest};
use super::{Hits, Tables, Tag};
use crate::fuzzy::score_of;
use crate::model::{
    Account, AccountWithBank, Bank, Category, CategorySource, Filter, Transaction, Transfer,
};
use crate::sort::sorted;
use crate::text::lex_le;
use crate::time::day_number;

verus! {

/// The query finds the transaction.
pub open spec fn asked_for(hits: Hits, tx_id: i64) -> bool {
    match hits {
        Hits::All => true,
        Hits::Only(ids) => ids@.contains(tx_id),
    }
}

/// The transaction's account was deleted.
pub open spec fn buried(t: Tables, tx: Transaction) -> bool {
    t.accounts.contains_key(tx.account_id) && t.accounts[tx.account_id].deleted_at is Some
}

/// The transaction is a side of a transfer.
pub open spec fn in_transfer(t: Tables, tx_id: i64) -> bool {
    exists|k: i64| #[trigger]
        t.transfers.contains_key(k) && (t.transfers[k].from_transaction_id == tx_id
            || t.transfers[k].to_transaction_id == tx_id)
}

/// A list holds wanted rows of the table only, each once, and every one where the
/// limit leaves room; of two rows the order tells which comes first, and a row that is
/// left out comes behind all that are there.
pub open spec fn is_the_list<T>(
    rows: Seq<T>,
    m: Map<i64, T>,
    wanted: spec_fn(T) -> bool,
    order: spec_fn(T, T) -> bool,
    limit: Option<usize>,
    keys: Seq<i64>,
) -> bool {
    &&& rows.len() <= keys.len()
    &&& keys.no_duplicates()
    &&& forall|i: int| 0 <= i < rows.len() ==> #[trigger] rows[i] == m[keys[i]]
    &&& forall|k: i64| #[trigger] m.contains_key(k) && wanted(m[k]) ==> keys.contains(k)
    &&& forall|i: int|
        0 <= i < keys.len() ==> m.contains_key(#[trigger] keys[i]) && wanted(m[keys[i]])
    &&& forall|i: int, j: int|
        0 <= i < j < keys.len() ==> order(m[#[trigger] keys[i]], m[#[trigger] keys[j]])
    &&& match limit {
        Some(n) => rows.len() == if n < keys.len() {
            n as nat
        } else {
            keys.len()
        },
        None => rows.len() == keys.len(),
    }
}

proof fn lemma_list<T>(
    rows: Seq<T>,
    m: Map<i64, T>,
    wanted: spec_fn(T) -> bool,
    order: spec_fn(T, T) -> bool,
    limit: Option<usize>,
) -> (keys: Seq<i64>)
    requires
        lists_up_to(rows, m, wanted, order, limit),
    ensures
        is_the_list(rows, m, wanted, order, limit, keys),
{
    let keys = choose|keys: Seq<i64>| #[trigger]
        selection(keys, m, wanted, order) && rows == rows_at(m, limited(keys, limit));
    let some = limited(keys, limit);
    assert forall|i: int| 0 <= i < rows.len() implies #[trigger] rows[i] == m[keys[i]] by {
        assert(some[i] == keys[i]);
    }
    assert forall|i: int| 0 <= i < keys.len() implies m.contains_key(#[trigger] keys[i]) && wanted(
        m[keys[i]],
    ) by {
        assert(keys.contains(keys[i]));
    }
    assert forall|i: int, j: int| 0 <= i < j < keys.len() implies order(
        m[#[trigger] keys[i]],
        m[#[trigger] keys[j]],
    ) by {
        let all = rows_at(m, keys);
        assert(all[i] == m[keys[i]] && all[j] == m[keys[j]]);
    }
    keys
}

proof fn lemma_whole_list<T>(
    rows: Seq<T>,
    m: Map<i64, T>,
    wanted: spec_fn(T) -> bool,
    order: spec_fn(T, T) -> bool,
) -> (keys: Seq<i64>)
    requires
        lists(rows, m, wanted, order),
    ensures
        is_the_list(rows, m, wanted, order, None, keys),
{
    let keys = choose|keys: Seq<i64>| #[trigger]
        selection(keys, m, wanted, order) && rows == rows_at(m, keys);
    assert(limited(keys, None) == keys);
    lemma_list(rows, m, wanted, order, None)
}

/// The candidates for the other side of a transfer are the transactions of the
/// opposite amount, none of a deleted account: those of other accounts where there
/// are any, else those of the same account, but never the transaction itself.
pub proof fn candidates_have_the_opposite_amount(
    t: Tables,
    tx: Transaction,
    rows: Seq<Transaction>,
    id: i64,
)
    requires
        t.keyed(),
        lists(
            rows,
            t.transactions,
            t.counterparts(tx, t.has_counterpart_elsewhere(tx)),
            nearest(tx),
        ),
        t.transactions.contains_key(id),
    ensures
        ({
            let c = t.transactions[id];
            let elsewhere = exists|k: i64| #[trigger]
                t.transactions.contains_key(k) && t.transactions[k].amount_cents
                    + tx.amount_cents == 0 && k != tx.id && !buried(t, t.transactions[k])
                    && t.transactions[k].account_id != tx.account_id;
            rows.contains(c) <==> {
                &&& c.amount_cents + tx.amount_cents == 0
                &&& id != tx.id
                &&& !buried(t, c)
                &&& c.account_id != tx.account_id <==> elsewhere
            }
        }),
{
    let c = t.transactions[id];
    let far = t.has_counterpart_elsewhere(tx);
    let wanted = t.counterparts(tx, far);
    let keys = lemma_whole_list(rows, t.transactions, wanted, nearest(tx));
    if far {
        let k = choose|k: i64| #[trigger]
            t.transactions.contains_key(k) && t.counterparts(tx, true)(t.transactions[k]);
        assert(t.transactions[k].amount_cents + tx.amount_cents == 0);
    } else {
        assert forall|k: i64| #[trigger] t.transactions.contains_key(k) implies !(
        t.transactions[k].amount_cents + tx.amount_cents == 0 && k != tx.id && !buried(
            t,
            t.transactions[k],
        ) && t.transactions[k].account_id != tx.account_id) by {
            assert(!t.counterparts(tx, true)(t.transactions[k]));
        }
    }
    if rows.contains(c) {
        let i = choose|i: int| 0 <= i < rows.len() && rows[i] == c;
        assert(keys[i] == id);
    }
    if wanted(c) {
        assert(keys.contains(id));
        let i = choose|i: int| 0 <= i < keys.len() && keys[i] == id;
        assert(rows[i] == c);
    }
}

/// The candidates stand in the order of their distance in days: of two whose dates
/// can be read the one closer to the transaction comes first, and of two equally
/// close the one with the lower id.
pub proof fn candidates_come_closest_first(
    t: Tables,
    tx: Transaction,
    rows: Seq<Transaction>,
    i: int,
    j: int,
    a: int,
    b: int,
    day: int,
)
    requires
        lists(
            rows,
            t.transactions,
            t.counterparts(tx, t.has_counterpart_elsewhere(tx)),
            nearest(tx),
        ),
        0 <= i < j < rows.len(),
        day_number(rows[i].date@) matches Some(d) && d == a,
        day_number(rows[j].date@) matches Some(d) && d == b,
        day_number(tx.date@) matches Some(d) && d == day,
    ensures
        (a - day) * (a - day) <= (b - day) * (b - day),
        vstd::math::abs(a - day) <= vstd::math::abs(b - day),
        vstd::math::abs(a - day) == vstd::math::abs(b - day) ==> rows[i].id <= rows[j].id,
{
    let wanted = t.counterparts(tx, t.has_counterpart_elsewhere(tx));
    let keys = lemma_whole_list(rows, t.transactions, wanted, nearest(tx));
    assert(nearest(tx)(t.transactions[keys[i]], t.transactions[keys[j]]));
    assert(nearest(tx)(rows[i], rows[j]));
    let (x, y) = (vstd::math::abs(a - day) as int, vstd::math::abs(b - day) as int);
    assert(x <= y);
    assert(x * x <= y * y) by (nonlinear_arith)
        requires
            0 <= x <= y,
    ;
    assert((a - day) * (a - day) == x * x) by (nonlinear_arith)
        requires
            x == a - day || x == day - a,
    ;
    assert((b - day) * (b - day) == y * y) by (nonlinear_arith)
        requires
            y == b - day || y == day - b,
    ;
}

/// The row is a wanted one of the table.
pub open spec fn is_wanted_row<T>(m: Map<i64, T>, wanted: spec_fn(i64) -> bool, row: T) -> bool {
    exists|k: i64| #[trigger] m.contains_key(k) && wanted(k) && row == m[k]
}

/// The rows are the wanted ones of the table, each strictly before the next. Where a
/// limit leaves some out there are as many rows as it allows, and those that are left
/// out come behind them.
pub open spec fn holds_exactly<T>(
    rows: Seq<T>,
    m: Map<i64, T>,
    wanted: spec_fn(i64) -> bool,
    before: spec_fn(T, T) -> bool,
    limit: Option<usize>,
) -> bool {
    &&& forall|i: int| 0 <= i < rows.len() ==> is_wanted_row(m, wanted, #[trigger] rows[i])
    &&& forall|i: int, j: int|
        0 <= i < j < rows.len() ==> before(#[trigger] rows[i], #[trigger] rows[j])
    &&& limit matches Some(n) ==> rows.len() <= n
    &&& forall|k: i64| #[trigger]
        m.contains_key(k) && wanted(k) && !rows.contains(m[k]) ==> limit == Some(
            rows.len() as usize,
        ) && forall|i: int| 0 <= i < rows.len() ==> before(#[trigger] rows[i], m[k])
}

pub(crate) proof fn lemma_exact<T>(
    rows: Seq<T>,
    m: Map<i64, T>,
    keep: spec_fn(T) -> bool,
    order: spec_fn(T, T) -> bool,
    limit: Option<usize>,
    wanted: spec_fn(i64) -> bool,
    before: spec_fn(T, T) -> bool,
)
    requires
        lists_up_to(rows, m, keep, order, limit),
        forall|k: i64| #[trigger] m.contains_key(k) ==> keep(m[k]) == wanted(k),
        forall|x: i64, y: i64| #[trigger]
            m.contains_key(x) && #[trigger] m.contains_key(y) && x != y && order(m[x], m[y])
                ==> before(m[x], m[y]),
    ensures
        holds_exactly(rows, m, wanted, before, limit),
{
    let keys = lemma_list(rows, m, keep, order, limit);
    assert forall|i: int| 0 <= i < rows.len() implies is_wanted_row(
        m,
        wanted,
        #[trigger] rows[i],
    ) by {
        assert(rows[i] == m[keys[i]]);
        assert(m.contains_key(keys[i]) && keep(m[keys[i]]));
        assert(wanted(keys[i]));
    }
    assert forall|i: int, j: int| 0 <= i < j < keys.len() implies before(
        m[#[trigger] keys[i]],
        m[#[trigger] keys[j]],
    ) by {
        assert(order(m[keys[i]], m[keys[j]]));
        assert(m.contains_key(keys[i]) && m.contains_key(keys[j]));
    }
    assert forall|i: int, j: int| 0 <= i < j < rows.len() implies before(
        #[trigger] rows[i],
        #[trigger] rows[j],
    ) by {
        assert(before(m[keys[i]], m[keys[j]]));
    }
    assert forall|k: i64| #[trigger]
        m.contains_key(k) && wanted(k) && !rows.contains(m[k]) implies limit == Some(
        rows.len() as usize,
    ) && forall|i: int| 0 <= i < rows.len() ==> before(#[trigger] rows[i], m[k]) by {
        assert(keys.contains(k));
        let at = choose|at: int| 0 <= at < keys.len() && keys[at] == k;
        if at < rows.len() {
            assert(rows[at] == m[k]);
        }
        assert forall|i: int| 0 <= i < rows.len() implies before(#[trigger] rows[i], m[k]) by {
            assert(before(m[keys[i]], m[keys[at]]));
        }
    }
}

/// A later day comes first; of one day the higher id.
pub open spec fn newer_than(a: Transaction, b: Transaction) -> bool {
    (a.date@ != b.date@ && lex_le(b.date@, a.date@)) || (a.date@ == b.date@ && a.id > b.id)
}

/// The transaction has a category.
pub open spec fn is_categorised(t: Tables, id: i64) -> bool {
    t.enrichments.contains_key(id) && t.enrichments[id].category_id is Some
}

proof fn lemma_newer(t: Tables)
    requires
        t.keyed(),
    ensures
        forall|x: i64, y: i64| #[trigger]
            t.transactions.contains_key(x) && #[trigger] t.transactions.contains_key(y) && x != y
                && newest_first()(t.transactions[x], t.transactions[y]) ==> newer_than(
                t.transactions[x],
                t.transactions[y],
            ),
{
}

/// A query lists the transactions it finds, but for those of deleted accounts, newest
/// first.
pub proof fn a_query_lists_what_it_finds(
    t: Tables,
    hits: Hits,
    limit: Option<usize>,
    rows: Seq<Transaction>,
)
    requires
        t.keyed(),
        lists_up_to(rows, t.transactions, t.found(hits), newest_first(), limit),
    ensures
        holds_exactly(
            rows,
            t.transactions,
            |id: i64| asked_for(hits, id) && !buried(t, t.transactions[id]),
            |a: Transaction, b: Transaction| newer_than(a, b),
            limit,
        ),
{
    lemma_newer(t);
    lemma_exact(
        rows,
        t.transactions,
        t.found(hits),
        newest_first(),
        limit,
        |id: i64| asked_for(hits, id) && !buried(t, t.transactions[id]),
        |a: Transaction, b: Transaction| newer_than(a, b),
    );
}

/// What needs a category: found, of no deleted account, in no transfer, and without a
/// category, newest first.
pub proof fn the_uncategorised_are_those_without_a_category(
    t: Tables,
    hits: Hits,
    limit: Option<usize>,
    rows: Seq<Transaction>,
)
    requires
        t.keyed(),
        lists_up_to(rows, t.transactions, t.uncategorised(hits), newest_first(), limit),
    ensures
        holds_exactly(
            rows,
            t.transactions,
            |id: i64|
                asked_for(hits, id) && !buried(t, t.transactions[id]) && !in_transfer(t, id)
                    && !is_categorised(t, id),
            |a: Transaction, b: Transaction| newer_than(a, b),
            limit,
        ),
{
    lemma_newer(t);
    lemma_exact(
        rows,
        t.transactions,
        t.uncategorised(hits),
        newest_first(),
        limit,
        |id: i64|
            asked_for(hits, id) && !buried(t, t.transactions[id]) && !in_transfer(t, id)
                && !is_categorised(t, id),
        |a: Transaction, b: Transaction| newer_than(a, b),
    );
}

/// What may be categorised anew: found, of no deleted account, in no transfer, and
/// without a category that the user confirmed, newest first.
pub proof fn the_unconfirmed_are_those_without_a_confirmed_category(
    t: Tables,
    hits: Hits,
    limit: Option<usize>,
    rows: Seq<Transaction>,
)
    requires
        t.keyed(),
        lists_up_to(rows, t.transactions, t.unconfirmed(hits), newest_first(), limit),
    ensures
        holds_exactly(
            rows,
            t.transactions,
            |id: i64|
                asked_for(hits, id) && !buried(t, t.transactions[id]) && !in_transfer(t, id) && !(
                is_categorised(t, id) && t.enrichments[id].category_confirmed),
            |a: Transaction, b: Transaction| newer_than(a, b),
            limit,
        ),
{
    lemma_newer(t);
    lemma_exact(
        rows,
        t.transactions,
        t.unconfirmed(hits),
        newest_first(),
        limit,
        |id: i64|
            asked_for(hits, id) && !buried(t, t.transactions[id]) && !in_transfer(t, id) && !(
            is_categorised(t, id) && t.enrichments[id].category_confirmed),
        |a: Transaction, b: Transaction| newer_than(a, b),
    );
}

/// What waits for review: found, of no deleted account, with an automatic category
/// that nobody confirmed, newest first.
pub proof fn the_reviews_are_the_unconfirmed_suggestions(
    t: Tables,
    hits: Hits,
    limit: Option<usize>,
    rows: Seq<Transaction>,
)
    requires
        t.keyed(),
        lists_up_to(rows, t.transactions, t.under_review(hits), newest_first(), limit),
    ensures
        holds_exactly(
            rows,
            t.transactions,
            |id: i64|
                asked_for(hits, id) && !buried(t, t.transactions[id])
                    && t.enrichments.contains_key(id) && t.enrichments[id].category_source == Some(
                    CategorySource::Ai,
                ) && !t.enrichments[id].category_confirmed,
            |a: Transaction, b: Transaction| newer_than(a, b),
            limit,
        ),
        forall|i: int|
            0 <= i < rows.len() ==> {
                let (tx, r) = (rows[i], #[trigger] t.review_of(rows[i]));
                &&& r.transaction == tx
                &&& r.enrichment == Some(t.enrichments[tx.id])
                &&& r.category == match t.enrichments[tx.id].category_id {
                    Some(c) => if t.categories.contains_key(c) {
                        Some(t.categories[c])
                    } else {
                        None
                    },
                    None => None,
                }
            },
{
    lemma_newer(t);
    lemma_exact(
        rows,
        t.transactions,
        t.under_review(hits),
        newest_first(),
        limit,
        |id: i64|
            asked_for(hits, id) && !buried(t, t.transactions[id]) && t.enrichments.contains_key(id)
                && t.enrichments[id].category_source == Some(CategorySource::Ai)
                && !t.enrichments[id].category_confirmed,
        |a: Transaction, b: Transaction| newer_than(a, b),
    );
}

/// The transactions of a category are those assigned to exactly it, and those of an
/// account the ones in it, none of a deleted account, newest first.
pub proof fn a_panel_lists_its_transactions(
    t: Tables,
    id: i64,
    limit: Option<usize>,
    in_category: Seq<Transaction>,
    in_account: Seq<Transaction>,
)
    requires
        t.keyed(),
        lists_up_to(in_category, t.transactions, t.in_category(id), newest_first(), limit),
        lists_up_to(in_account, t.transactions, t.in_account(id), newest_first(), limit),
    ensures
        holds_exactly(
            in_category,
            t.transactions,
            |tx: i64|
                !buried(t, t.transactions[tx]) && t.enrichments.contains_key(tx)
                    && t.enrichments[tx].category_id == Some(id),
            |a: Transaction, b: Transaction| newer_than(a, b),
            limit,
        ),
        holds_exactly(
            in_account,
            t.transactions,
            |tx: i64| !buried(t, t.transactions[tx]) && t.transactions[tx].account_id == id,
            |a: Transaction, b: Transaction| newer_than(a, b),
            limit,
        ),
{
    lemma_newer(t);
    lemma_exact(
        in_category,
        t.transactions,
        t.in_category(id),
        newest_first(),
        limit,
        |tx: i64|
            !buried(t, t.transactions[tx]) && t.enrichments.contains_key(tx)
                && t.enrichments[tx].category_id == Some(id),
        |a: Transaction, b: Transaction| newer_than(a, b),
    );
    lemma_exact(
        in_account,
        t.transactions,
        t.in_account(id),
        newest_first(),
        limit,
        |tx: i64| !buried(t, t.transactions[tx]) && t.transactions[tx].account_id == id,
        |a: Transaction, b: Transaction| newer_than(a, b),
    );
}

/// Both transactions of the transfer are there, and of no deleted account.
pub open spec fn is_whole(t: Tables, x: Transfer) -> bool {
    &&& t.transactions.contains_key(x.from_transaction_id)
    &&& t.transactions.contains_key(x.to_transaction_id)
    &&& !buried(t, t.transactions[x.from_transaction_id])
    &&& !buried(t, t.transactions[x.to_transaction_id])
}

/// The query finds one of the transfer's transactions.
pub open spec fn finds_a_side(hits: Hits, x: Transfer) -> bool {
    asked_for(hits, x.from_transaction_id) || asked_for(hits, x.to_transaction_id)
}

/// A later link comes first; of one moment the lower id.
pub open spec fn linked_later(a: Transfer, b: Transfer) -> bool {
    let (x, y) = (a.created_at, b.created_at);
    x.seconds > y.seconds || (x.seconds == y.seconds && x.nanos > y.nanos) || (x == y && a.id
        < b.id)
}

pub(crate) proof fn lemma_later(t: Tables)
    requires
        t.keyed(),
    ensures
        forall|x: i64, y: i64| #[trigger]
            t.transfers.contains_key(x) && #[trigger] t.transfers.contains_key(y) && x != y
                && latest_first()(t.transfers[x], t.transfers[y]) ==> linked_later(
                t.transfers[x],
                t.transfers[y],
            ),
{
}

/// The transfers under review are the unconfirmed ones, those on the Transfers tab the
/// confirmed ones where only these are asked for; a query finds a transfer by either
/// side. The latest link comes first.
pub proof fn transfers_are_listed_by_either_side(
    t: Tables,
    hits: Hits,
    limit: Option<usize>,
    confirmed_only: bool,
    pending: Seq<Transfer>,
    shown: Seq<Transfer>,
)
    requires
        t.keyed(),
        lists_up_to(pending, t.transfers, t.pending(hits), latest_first(), limit),
        lists_up_to(shown, t.transfers, t.shown(confirmed_only, hits), latest_first(), limit),
    ensures
        holds_exactly(
            pending,
            t.transfers,
            |k: i64|
                !t.transfers[k].confirmed && is_whole(t, t.transfers[k]) && finds_a_side(
                    hits,
                    t.transfers[k],
                ),
            |a: Transfer, b: Transfer| linked_later(a, b),
            limit,
        ),
        holds_exactly(
            shown,
            t.transfers,
            |k: i64|
                (confirmed_only ==> t.transfers[k].confirmed) && is_whole(t, t.transfers[k])
                    && finds_a_side(hits, t.transfers[k]),
            |a: Transfer, b: Transfer| linked_later(a, b),
            limit,
        ),
        forall|i: int|
            0 <= i < shown.len() ==> {
                let (x, r) = (shown[i], #[trigger] t.sides(shown[i]));
                &&& r.transfer == x
                &&& r.from_transaction == t.transactions[x.from_transaction_id]
                &&& r.to_transaction == t.transactions[x.to_transaction_id]
            },
{
    lemma_later(t);
    lemma_exact(
        pending,
        t.transfers,
        t.pending(hits),
        latest_first(),
        limit,
        |k: i64|
            !t.transfers[k].confirmed && is_whole(t, t.transfers[k]) && finds_a_side(
                hits,
                t.transfers[k],
            ),
        |a: Transfer, b: Transfer| linked_later(a, b),
    );
    lemma_exact(
        shown,
        t.transfers,
        t.shown(confirmed_only, hits),
        latest_first(),
        limit,
        |k: i64|
            (confirmed_only ==> t.transfers[k].confirmed) && is_whole(t, t.transfers[k])
                && finds_a_side(hits, t.transfers[k]),
        |a: Transfer, b: Transfer| linked_later(a, b),
    );
}

pub(crate) proof fn lemma_unlimited<T>(
    rows: Seq<T>,
    m: Map<i64, T>,
    keep: spec_fn(T) -> bool,
    order: spec_fn(T, T) -> bool,
)
    requires
        lists(rows, m, keep, order),
    ensures
        lists_up_to(rows, m, keep, order, None),
{
    let keys = choose|keys: Seq<i64>| #[trigger]
        selection(keys, m, keep, order) && rows == rows_at(m, keys);
    assert(limited(keys, None) == keys);
}

/// The first text comes before the second; of equal texts the lower id decides.
pub open spec fn named_before(a: Seq<char>, i: i64, b: Seq<char>, j: i64) -> bool {
    (a != b && lex_le(a, b)) || (a == b && i < j)
}

/// Every category is listed, by path; every filter, by position; those of a category
/// where one is asked for.
pub proof fn categories_and_filters_are_listed_in_order(
    t: Tables,
    category_id: i64,
    categories: Seq<Category>,
    filters: Seq<Filter>,
    using: Seq<Filter>,
)
    requires
        t.keyed(),
        lists(categories, t.categories, every_category(), by_path()),
        lists(filters, t.filters, every_filter(), by_position()),
        lists(using, t.filters, applying(category_id), by_position()),
    ensures
        holds_exactly(
            categories,
            t.categories,
            |k: i64| true,
            |a: Category, b: Category| named_before(a.path@, a.id, b.path@, b.id),
            None,
        ),
        holds_exactly(
            filters,
            t.filters,
            |k: i64| true,
            |a: Filter, b: Filter|
                a.position < b.position || (a.position == b.position && a.id < b.id),
            None,
        ),
        holds_exactly(
            using,
            t.filters,
            |k: i64| t.filters[k].category_id == Some(category_id),
            |a: Filter, b: Filter|
                a.position < b.position || (a.position == b.position && a.id < b.id),
            None,
        ),
{
    lemma_unlimited(categories, t.categories, every_category(), by_path());
    lemma_unlimited(filters, t.filters, every_filter(), by_position());
    lemma_unlimited(using, t.filters, applying(category_id), by_position());
    lemma_exact(
        categories,
        t.categories,
        every_category(),
        by_path(),
        None,
        |k: i64| true,
        |a: Category, b: Category| named_before(a.path@, a.id, b.path@, b.id),
    );
    lemma_exact(
        filters,
        t.filters,
        every_filter(),
        by_position(),
        None,
        |k: i64| true,
        |a: Filter, b: Filter| a.position < b.position || (a.position == b.position && a.id < b.id),
    );
    lemma_exact(
        using,
        t.filters,
        applying(category_id),
        by_position(),
        None,
        |k: i64| t.filters[k].category_id == Some(category_id),
        |a: Filter, b: Filter| a.position < b.position || (a.position == b.position && a.id < b.id),
    );
}

/// The banks that are not deleted are listed by name, and so are the accounts of a bank;
/// all accounts by bank and then by name, where neither the account nor its bank is
/// deleted.
pub proof fn banks_and_accounts_are_listed_by_name(
    t: Tables,
    bank_id: i64,
    banks: Seq<Bank>,
    accounts: Seq<Account>,
    open: Seq<Account>,
)
    requires
        t.keyed(),
        lists(banks, t.banks, existing_bank(), by_bank_name()),
        lists(accounts, t.accounts, existing_account(bank_id), by_account_name()),
        lists(open, t.accounts, t.open_account(), t.by_bank()),
    ensures
        holds_exactly(
            banks,
            t.banks,
            |k: i64| t.banks[k].deleted_at is None,
            |a: Bank, b: Bank| named_before(a.name@, a.id, b.name@, b.id),
            None,
        ),
        holds_exactly(
            accounts,
            t.accounts,
            |k: i64| t.accounts[k].bank_id == bank_id && t.accounts[k].deleted_at is None,
            |a: Account, b: Account| named_before(a.name@, a.id, b.name@, b.id),
            None,
        ),
        holds_exactly(
            open,
            t.accounts,
            |k: i64| is_standing(t, k),
            |a: Account, b: Account|
                {
                    let (x, y) = (t.banks[a.bank_id].name@, t.banks[b.bank_id].name@);
                    is_standing(t, a.id) && is_standing(t, b.id) ==> if x == y {
                        named_before(a.name@, a.id, b.name@, b.id)
                    } else {
                        lex_le(x, y)
                    }
                },
            None,
        ),
{
    lemma_unlimited(banks, t.banks, existing_bank(), by_bank_name());
    lemma_unlimited(accounts, t.accounts, existing_account(bank_id), by_account_name());
    lemma_unlimited(open, t.accounts, t.open_account(), t.by_bank());
    lemma_exact(
        banks,
        t.banks,
        existing_bank(),
        by_bank_name(),
        None,
        |k: i64| t.banks[k].deleted_at is None,
        |a: Bank, b: Bank| named_before(a.name@, a.id, b.name@, b.id),
    );
    lemma_exact(
        accounts,
        t.accounts,
        existing_account(bank_id),
        by_account_name(),
        None,
        |k: i64| t.accounts[k].bank_id == bank_id && t.accounts[k].deleted_at is None,
        |a: Account, b: Account| named_before(a.name@, a.id, b.name@, b.id),
    );
    lemma_exact(
        open,
        t.accounts,
        t.open_account(),
        t.by_bank(),
        None,
        |k: i64| is_standing(t, k),
        |a: Account, b: Account|
            {
                let (x, y) = (t.banks[a.bank_id].name@, t.banks[b.bank_id].name@);
                is_standing(t, a.id) && is_standing(t, b.id) ==> if x == y {
                    named_before(a.name@, a.id, b.name@, b.id)
                } else {
                    lex_le(x, y)
                }
            },
    );
}

/// The account is there, and neither it nor its bank is deleted.
pub open spec fn is_standing(t: Tables, k: i64) -> bool {
    let a = t.accounts[k];
    t.accounts.contains_key(k) && a.deleted_at is None && t.banks.contains_key(a.bank_id)
        && t.banks[a.bank_id].deleted_at is None
}

/// A live account is shown with its bank's name, its own, and both with a slash
/// between them.
pub proof fn an_account_is_shown_with_its_bank(t: Tables, id: i64, row: AccountWithBank)
    requires
        is_standing(t, id),
        t.shows_account(id, row),
    ensures
        t.is_open(id),
        row.id == id,
        row.bank_id == t.accounts[id].bank_id,
        row.bank_name@ == t.banks[row.bank_id].name@,
        row.name@ == t.accounts[id].name@,
        row.path@ == row.bank_name@ + seq!['/'] + row.name@,
{
    reveal_strlit("/");
    assert("/"@ =~= seq!['/']);
}

/// The examples for the classifier are the confirmed assignments to a category that is
/// there, by transaction; the transfer examples the confirmed transfers, by id.
pub proof fn the_examples_are_what_was_confirmed(
    t: Tables,
    txs: Seq<Transaction>,
    transfers: Seq<Transfer>,
)
    requires
        t.keyed(),
        lists(txs, t.transactions, t.exemplary(), by_id()),
        lists(transfers, t.transfers, t.exemplary_transfers(), by_transfer_id()),
    ensures
        holds_exactly(
            txs,
            t.transactions,
            |id: i64|
                t.enrichments.contains_key(id) && t.enrichments[id].category_confirmed
                    && t.enrichments[id].category_id is Some && t.categories.contains_key(
                    t.enrichments[id].category_id->0,
                ),
            |a: Transaction, b: Transaction| a.id < b.id,
            None,
        ),
        holds_exactly(
            transfers,
            t.transfers,
            |k: i64| t.transfers[k].confirmed && is_whole(t, t.transfers[k]),
            |a: Transfer, b: Transfer| a.id < b.id,
            None,
        ),
{
    lemma_unlimited(txs, t.transactions, t.exemplary(), by_id());
    lemma_unlimited(transfers, t.transfers, t.exemplary_transfers(), by_transfer_id());
    lemma_exact(
        txs,
        t.transactions,
        t.exemplary(),
        by_id(),
        None,
        |id: i64|
            t.enrichments.contains_key(id) && t.enrichments[id].category_confirmed
                && t.enrichments[id].category_id is Some && t.categories.contains_key(
                t.enrichments[id].category_id->0,
            ),
        |a: Transaction, b: Transaction| a.id < b.id,
    );
    lemma_exact(
        transfers,
        t.transfers,
        t.exemplary_transfers(),
        by_transfer_id(),
        None,
        |k: i64| t.transfers[k].confirmed && is_whole(t, t.transfers[k]),
        |a: Transfer, b: Transfer| a.id < b.id,
    );
}

proof fn lemma_kept<T>(all: Seq<T>, p: spec_fn(T) -> bool, x: T)
    requires
        all.filter(p).contains(x),
    ensures
        all.contains(x),
        p(x),
    decreases all.len(),
{
    reveal(Seq::filter);
    if all.len() > 0 {
        let rest = all.drop_last();
        let n = choose|n: int| 0 <= n < all.filter(p).len() && all.filter(p)[n] == x;
        if n < rest.filter(p).len() {
            assert(rest.filter(p)[n] == x);
            lemma_kept(rest, p, x);
            let m = choose|m: int| 0 <= m < rest.len() && rest[m] == x;
            assert(all[m] == x);
        } else {
            assert(all[all.len() - 1] == x);
        }
    }
}

/// Categories found for a query are those that match it, the better matches first, and
/// equally good ones by path.
pub proof fn better_matches_come_first(
    t: Tables,
    query: Seq<char>,
    all: Seq<Category>,
    rows: Seq<Category>,
    i: int,
    j: int,
)
    requires
        t.keyed(),
        sorted(rows, best_first(query)),
        lists(all, t.categories, every_category(), by_path()),
        rows.to_multiset() == all.filter(scores(query)).to_multiset(),
        0 <= i < j < rows.len(),
    ensures
        ({
            let (a, b) = (rows[i], rows[j]);
            let (x, y) = (score_of(query, a.path@), score_of(query, b.path@));
            &&& t.categories.contains_value(a) && t.categories.contains_value(b)
            &&& x is Some && y is Some
            &&& x->0 >= y->0
            &&& x->0 == y->0 ==> a.path@ == b.path@ || lex_le(a.path@, b.path@)
        }),
{
    broadcast use group_to_multiset_ensures;

    let kept = all.filter(scores(query));
    assert forall|k: int| 0 <= k < rows.len() implies t.categories.contains_value(#[trigger] rows[k])
        && score_of(query, rows[k].path@) is Some by {
        assert(rows.contains(rows[k]));
        assert(rows.to_multiset().count(rows[k]) > 0);
        assert(kept.contains(rows[k]));
        lemma_kept(all, scores(query), rows[k]);
        lemma_unlimited(all, t.categories, every_category(), by_path());
        super::select::lemma_listed(all, t.categories, every_category(), by_path(), None);
    }
    assert(best_first(query)(rows[i], rows[j]));
}

/// Tags are listed by how many transactions have them, the most used first, and equally
/// used ones by name.
pub proof fn the_most_used_tags_come_first(t: Tables, rows: Seq<Tag>, i: int, j: int)
    requires
        sorted(rows, most_used(t)),
        0 <= i < j < rows.len(),
    ensures
        ({
            let a = Set::new(
                |tx: i64| t.tagged.contains_key(tx) && t.tagged[tx].contains(rows[i].name@),
            );
            let b = Set::new(
                |tx: i64| t.tagged.contains_key(tx) && t.tagged[tx].contains(rows[j].name@),
            );
            &&& a.len() >= b.len()
            &&& a.len() == b.len() ==> rows[i].name@ == rows[j].name@ || lex_le(
                rows[i].name@,
                rows[j].name@,
            )
        }),
{
    assert(most_used(t)(rows[i], rows[j]));
    assert(t.users(rows[i].name@) =~= Set::new(
        |tx: i64| t.tagged.contains_key(tx) && t.tagged[tx].contains(rows[i].name@),
    ));
    assert(t.users(rows[j].name@) =~= Set::new(
        |tx: i64| t.tagged.contains_key(tx) && t.tagged[tx].contains(rows[j].name@),
    ));
}

} // verus!
