//! What a task does to the store and to what the application shows.

use vstd::prelude::*;

use super::app::tabs::{Tab, TodoSubTab};
use super::app::tasks::Task;
use super::app::{App, LIST_LIMIT};
use super::session::{done, Outside};
use crate::model::{
    CategorySource, Filter, Timestamp, Transaction, TransactionEnrichment,
    TransactionWithEnrichment, Transfer, TransferSource, TransferWithTransactions,
};
use crate::store::categories::normal_path;
use crate::store::change_laws::{
    a_category_is_assigned_to_all_but_legs, a_category_is_assigned_to_one_transaction,
    a_category_is_found_or_made, enrichment_stays, has_category,
};
use crate::store::filters::every_filter;
use crate::store::order::{by_position, latest_first, newest_first};
use crate::store::query_laws::{
    a_query_lists_what_it_finds, asked_for, buried, finds_a_side, holds_exactly, in_transfer,
    is_categorised, is_whole, lemma_exact, lemma_later, lemma_unlimited, linked_later, newer_than,
    the_reviews_are_the_unconfirmed_suggestions, the_uncategorised_are_those_without_a_category,
};
use crate::store::select::lists_up_to;
use crate::store::{Error, Tables, TransactionStore};

verus! {

/// The transaction has the category with the path, set by hand and confirmed.
pub open spec fn has_manual(t: Tables, tx_id: i64, path: Seq<char>) -> bool {
    let e = t.enrichments[tx_id];
    &&& t.enrichments.contains_key(tx_id)
    &&& e.category_id is Some
    &&& has_category(t, path, e.category_id->0)
    &&& e.category_source == Some(CategorySource::Manual)
    &&& e.category_confirmed
    &&& e.ai_confidence is None
}

/// Setting a category gives it to the transaction, by hand and confirmed, and to no other;
/// where it does not, the transaction is in a transfer or a row id is wanting, and an error
/// is shown. No transfer changes.
pub proof fn a_set_category_is_manual_and_confirmed(
    app: App,
    before: TransactionStore,
    tx: Transaction,
    path: String,
    outside: Outside,
    next: App,
    after: TransactionStore,
    other: i64,
)
    requires
        done(app, before, Task::SetCategory { tx, category_path: path }, outside, next, after),
        other != tx.id,
    ensures
        has_manual(after@, tx.id, normal_path(path@)) || (enrichment_stays(before@, after@, tx.id)
            && next.error_message is Some),
        in_transfer(before@, tx.id) ==> enrichment_stays(before@, after@, tx.id)
            && next.error_message is Some,
        enrichment_stays(before@, after@, other),
        after@.transfers == before@.transfers,
        after@.transactions == before@.transactions,
{
    let now = outside.now;
    let (text, result, outcome) = choose|
        text: &str,
        result: Result<i64, Error>,
        outcome: Result<(), String>,
    |
        {
            &&& text@ == path@
            &&& #[trigger] before.categorise_leads_to(tx.id, text, now, result, after)
            &&& super::session::told_done(result, outcome)
            &&& #[trigger] app.on_category_set_leads_to(tx, path, outcome, next)
        };
    let (made, mid) = choose|made: Result<i64, Error>, mid: TransactionStore|
        {
            &&& #[trigger] before.get_or_create_category_leads_to(text, now, made, mid)
            &&& match made {
                Ok(id) => exists|set: Result<(), Error>|
                    {
                        &&& #[trigger] mid.set_category_leads_to(
                            tx.id,
                            id,
                            CategorySource::Manual,
                            true,
                            None,
                            now,
                            set,
                            after,
                        )
                        &&& match set {
                            Ok(_) => result == Ok::<i64, Error>(id),
                            Err(e) => result == Err::<i64, Error>(e),
                        }
                    },
                Err(e) => result == Err::<i64, Error>(e) && after == mid,
            }
        };
    if let Ok(id) = made {
        a_category_is_found_or_made(before, text, now, id, mid);
        let set = choose|set: Result<(), Error>|
            {
                &&& #[trigger] mid.set_category_leads_to(
                    tx.id,
                    id,
                    CategorySource::Manual,
                    true,
                    None,
                    now,
                    set,
                    after,
                )
                &&& match set {
                    Ok(_) => result == Ok::<i64, Error>(id),
                    Err(e) => result == Err::<i64, Error>(e),
                }
            };
        a_category_is_assigned_to_one_transaction(
            mid,
            tx.id,
            id,
            CategorySource::Manual,
            true,
            None,
            now,
            set,
            after,
            other,
        );
    }
}

/// Applying a category to many gives it by hand and confirmed to each of them that is in
/// no transfer, and to no other, or shows an error and leaves every category.
pub proof fn a_bulk_category_spares_transfers(
    app: App,
    before: TransactionStore,
    ids: Vec<i64>,
    path: String,
    outside: Outside,
    next: App,
    after: TransactionStore,
    tx: i64,
)
    requires
        done(app, before, Task::BulkCategorise { ids, category_path: path }, outside, next, after),
    ensures
        if ids@.contains(tx) && !in_transfer(before@, tx) {
            has_manual(after@, tx, normal_path(path@)) || (enrichment_stays(before@, after@, tx)
                && next.error_message is Some)
        } else {
            enrichment_stays(before@, after@, tx)
        },
        after@.transfers == before@.transfers,
{
    let now = outside.now;
    let (text, result, outcome) = choose|
        text: &str,
        result: Result<usize, Error>,
        outcome: Result<(), String>,
    |
        {
            &&& text@ == path@
            &&& #[trigger] before.categorise_all_leads_to(&ids, text, now, result, after)
            &&& super::session::told_done(result, outcome)
            &&& #[trigger] app.on_bulk_applied_leads_to(
                &super::app::BulkAction::ApplyCategory { category_path: path },
                outcome,
                next,
            )
        };
    let (made, mid) = choose|made: Result<i64, Error>, mid: TransactionStore|
        {
            &&& #[trigger] before.get_or_create_category_leads_to(text, now, made, mid)
            &&& match made {
                Ok(id) => mid.set_categories_leads_to(
                    &ids,
                    id,
                    CategorySource::Manual,
                    true,
                    None,
                    now,
                    result,
                    after,
                ),
                Err(e) => result == Err::<usize, Error>(e) && after == mid,
            }
        };
    if let Ok(id) = made {
        a_category_is_found_or_made(before, text, now, id, mid);
        assert(in_transfer(mid@, tx) == in_transfer(before@, tx));
        if let Ok(count) = result {
            a_category_is_assigned_to_all_but_legs(
                mid,
                &ids,
                id,
                CategorySource::Manual,
                true,
                None,
                now,
                count,
                after,
                tx,
            );
        }
    }
}

/// A manual, confirmed transfer goes from the first to the second.
pub open spec fn has_manual_link(t: Tables, from: i64, to: i64) -> bool {
    exists|k: i64| #[trigger]
        t.transfers.contains_key(k) && t.transfers[k].from_transaction_id == from
            && t.transfers[k].to_transaction_id == to && t.transfers[k].source
            == TransferSource::Manual && t.transfers[k].confirmed
}

/// Linking two transactions makes a manual, confirmed transfer from the first to the
/// second, after which neither has a category; or nothing changes and an error is shown.
/// No other transfer goes.
pub proof fn a_link_is_manual_and_confirmed(
    app: App,
    before: TransactionStore,
    from: i64,
    to: i64,
    outside: Outside,
    next: App,
    after: TransactionStore,
    k: i64,
)
    requires
        done(
            app,
            before,
            Task::CreateTransfer { from_id: from, to_id: to },
            outside,
            next,
            after,
        ),
    ensures
        (has_manual_link(after@, from, to) && !after@.enrichments.contains_key(from)
            && !after@.enrichments.contains_key(to)) || (after@ == before@ && next.error_message
            is Some),
        before@.transfers.contains_key(k) ==> after@.transfers.contains_key(k)
            && after@.transfers[k] == before@.transfers[k],
        k != from && k != to ==> enrichment_stays(before@, after@, k),
{
    let now = outside.now;
    let (result, outcome) = choose|result: Result<i64, Error>, outcome: Result<(), String>|
        {
            &&& #[trigger] before.create_transfer_leads_to(
                from,
                to,
                TransferSource::Manual,
                true,
                None,
                now,
                result,
                after,
            )
            &&& super::session::told_done(result, outcome)
            &&& #[trigger] app.on_transfer_created_leads_to(outcome, next)
        };
    if let Ok(id) = result {
        assert(after@.transfers.contains_key(id));
    }
}

proof fn lemma_unlinked(before: TransactionStore, ids: Seq<i64>, after: TransactionStore, k: i64)
    requires
        before.unlinked(ids, after),
    ensures
        after@.transfers.contains_key(k) <==> before@.transfers.contains_key(k) && !ids.contains(k),
        after@.transfers.contains_key(k) ==> after@.transfers[k] == before@.transfers[k],
        after@ == (Tables { transfers: after@.transfers, ..before@ }),
    decreases ids.len(),
{
    if ids.len() > 0 {
        let rest = ids.drop_last();
        let mid = choose|mid: TransactionStore|
            before.unlinked(ids.drop_last(), mid) && #[trigger] mid.delete_transfer_leads_to(
                ids.last(),
                after,
            );
        lemma_unlinked(before, rest, mid, k);
        if rest.contains(k) {
            let i = choose|i: int| 0 <= i < rest.len() && rest[i] == k;
            assert(ids[i] == k);
        }
        if ids.contains(k) {
            let i = choose|i: int| 0 <= i < ids.len() && ids[i] == k;
            if i < rest.len() {
                assert(rest[i] == k);
            }
        }
        assert(ids[ids.len() - 1] == ids.last());
    }
}

/// Linking anew takes the named transfers away and no other, and links the two.
pub proof fn a_new_link_replaces_the_named_ones(
    app: App,
    before: TransactionStore,
    transfer_ids: Vec<i64>,
    from: i64,
    to: i64,
    outside: Outside,
    next: App,
    after: TransactionStore,
    k: i64,
)
    requires
        done(
            app,
            before,
            Task::RecreateTransfer { transfer_ids, from_id: from, to_id: to },
            outside,
            next,
            after,
        ),
    ensures
        before@.transfers.contains_key(k) && !transfer_ids@.contains(k)
            ==> after@.transfers.contains_key(k) && after@.transfers[k] == before@.transfers[k],
        has_manual_link(after@, from, to) || next.error_message is Some,
        after@.transfers.contains_key(k) && transfer_ids@.contains(k)
            ==> after@.transfers[k].from_transaction_id == from
            && after@.transfers[k].to_transaction_id == to,
{
    let now = outside.now;
    let (result, outcome) = choose|result: Result<i64, Error>, outcome: Result<(), String>|
        {
            &&& #[trigger] before.recreate_transfer_leads_to(
                &transfer_ids,
                from,
                to,
                now,
                result,
                after,
            )
            &&& super::session::told_done(result, outcome)
            &&& #[trigger] app.on_changed_leads_to(
                super::app::confirm::Change::RecreateTransfer,
                outcome,
                next,
            )
        };
    let mid = choose|mid: TransactionStore|
        before.unlinked(transfer_ids@, mid) && #[trigger] mid.create_transfer_leads_to(
            from,
            to,
            TransferSource::Manual,
            true,
            None,
            now,
            result,
            after,
        );
    lemma_unlinked(before, transfer_ids@, mid, k);
    if let Ok(id) = result {
        assert(after@.transfers.contains_key(id));
    }
}

proof fn lemma_confirmed(
    before: TransactionStore,
    ids: Seq<i64>,
    now: Timestamp,
    after: TransactionStore,
    k: i64,
)
    requires
        before.categories_confirmed(ids, now, after),
    ensures
        after@ == (Tables { enrichments: after@.enrichments, ..before@ }),
        if ids.contains(k) && before@.enrichments.contains_key(k) {
            after@.enrichments.contains_key(k) && after@.enrichments[k] == (TransactionEnrichment {
                category_confirmed: true,
                updated_at: now,
                ..before@.enrichments[k]
            })
        } else {
            enrichment_stays(before@, after@, k)
        },
    decreases ids.len(),
{
    if ids.len() > 0 {
        let rest = ids.drop_last();
        let mid = choose|mid: TransactionStore|
            before.categories_confirmed(ids.drop_last(), now, mid) && #[trigger]
            mid.confirm_category_leads_to(ids.last(), now, after);
        lemma_confirmed(before, rest, now, mid, k);
        if rest.contains(k) {
            let i = choose|i: int| 0 <= i < rest.len() && rest[i] == k;
            assert(ids[i] == k);
        }
        if ids.contains(k) {
            let i = choose|i: int| 0 <= i < ids.len() && ids[i] == k;
            if i < rest.len() {
                assert(rest[i] == k);
            }
        }
        assert(ids[ids.len() - 1] == ids.last());
    }
}

proof fn lemma_transfers_confirmed(
    before: TransactionStore,
    ids: Seq<i64>,
    after: TransactionStore,
    k: i64,
)
    requires
        before.transfers_confirmed(ids, after),
    ensures
        after@ == (Tables { transfers: after@.transfers, ..before@ }),
        after@.transfers.contains_key(k) == before@.transfers.contains_key(k),
        before@.transfers.contains_key(k) ==> after@.transfers[k] == (Transfer {
            confirmed: before@.transfers[k].confirmed || ids.contains(k),
            ..before@.transfers[k]
        }),
    decreases ids.len(),
{
    if ids.len() > 0 {
        let rest = ids.drop_last();
        let mid = choose|mid: TransactionStore|
            before.transfers_confirmed(ids.drop_last(), mid) && #[trigger]
            mid.confirm_transfer_leads_to(ids.last(), after);
        lemma_transfers_confirmed(before, rest, mid, k);
        if rest.contains(k) {
            let i = choose|i: int| 0 <= i < rest.len() && rest[i] == k;
            assert(ids[i] == k);
        }
        if ids.contains(k) {
            let i = choose|i: int| 0 <= i < ids.len() && ids[i] == k;
            if i < rest.len() {
                assert(rest[i] == k);
            }
        }
        assert(ids[ids.len() - 1] == ids.last());
    }
}

/// Accepting many confirms exactly the named categories, or exactly the named transfers,
/// and changes nothing else of them.
pub proof fn accepting_confirms_exactly_the_named(
    app: App,
    before: TransactionStore,
    ids: Vec<i64>,
    outside: Outside,
    categories: (App, TransactionStore),
    transfers: (App, TransactionStore),
    k: i64,
)
    requires
        done(
            app,
            before,
            Task::BulkConfirmCategories { ids },
            outside,
            categories.0,
            categories.1,
        ),
        done(
            app,
            before,
            Task::BulkConfirmTransfers { ids },
            outside,
            transfers.0,
            transfers.1,
        ),
    ensures
        if ids@.contains(k) && before@.enrichments.contains_key(k) {
            categories.1@.enrichments.contains_key(k) && categories.1@.enrichments[k] == (
            TransactionEnrichment {
                category_confirmed: true,
                updated_at: outside.now,
                ..before@.enrichments[k]
            })
        } else {
            enrichment_stays(before@, categories.1@, k)
        },
        categories.1@.transfers == before@.transfers,
        transfers.1@.transfers.contains_key(k) == before@.transfers.contains_key(k),
        before@.transfers.contains_key(k) ==> transfers.1@.transfers[k] == (Transfer {
            confirmed: before@.transfers[k].confirmed || ids@.contains(k),
            ..before@.transfers[k]
        }),
        transfers.1@.enrichments == before@.enrichments,
{
    lemma_confirmed(before, ids@, outside.now, categories.1, k);
    lemma_transfers_confirmed(before, ids@, transfers.1, k);
}

/// What waits on the agenda for one row is done to that row: a confirmed or removed
/// category, a confirmed, unlinked or deleted transfer.
pub proof fn a_task_for_one_row_does_it_there(
    app: App,
    before: TransactionStore,
    task: Task,
    outside: Outside,
    next: App,
    after: TransactionStore,
    other: i64,
)
    requires
        done(app, before, task, outside, next, after),
    ensures
        task matches Task::ConfirmCategory { tx_id } ==> {
            &&& before@.enrichments.contains_key(tx_id) ==> after@.enrichments[tx_id] == (
            TransactionEnrichment {
                category_confirmed: true,
                updated_at: outside.now,
                ..before@.enrichments[tx_id]
            })
            &&& other != tx_id ==> enrichment_stays(before@, after@, other)
        },
        task matches Task::RemoveCategory { tx_id } ==> {
            &&& !after@.enrichments.contains_key(tx_id)
            &&& other != tx_id ==> enrichment_stays(before@, after@, other)
        },
        task matches Task::ConfirmTransfer { id } ==> {
            &&& before@.transfers.contains_key(id) ==> after@.transfers[id] == (Transfer {
                confirmed: true,
                ..before@.transfers[id]
            })
            &&& other != id && before@.transfers.contains_key(other) ==> after@.transfers[other]
                == before@.transfers[other]
        },
        task matches Task::UnlinkTransfer { transfer_id } ==> after@.transfers
            == before@.transfers.remove(transfer_id) && after@.enrichments == before@.enrichments,
        task matches Task::DeleteTransfer { id } ==> after@.transfers == before@.transfers.remove(
            id,
        ) && after@.enrichments == before@.enrichments,
        task matches Task::DeleteFilter { id } ==> after@.filters == before@.filters.remove(id),
{
}

/// Loading the rows of the Transactions tab gives those that its query finds, and of the
/// Uncategorised subtab those of them that need a category; every loaded row is shown.
pub proof fn a_tab_loads_what_its_query_finds(
    app: App,
    before: TransactionStore,
    outside: Outside,
    next: App,
    after: TransactionStore,
)
    requires
        done(app, before, Task::LoadRows, outside, next, after),
        before@.keyed(),
    ensures
        after == before,
        app.current_tab == Tab::Transactions ==> next.lists.transactions.rows()
            == next.lists.transactions.all() && holds_exactly(
            next.lists.transactions.all(),
            before@.transactions,
            |id: i64| asked_for(outside.hits, id) && !buried(before@, before@.transactions[id]),
            |a: Transaction, b: Transaction| newer_than(a, b),
            Some(LIST_LIMIT),
        ),
        app.current_tab == Tab::Todo && app.todo_subtab == TodoSubTab::Uncategorised
            ==> next.lists.uncategorised.rows() == next.lists.uncategorised.all() && holds_exactly(
            next.lists.uncategorised.all(),
            before@.transactions,
            |id: i64|
                asked_for(outside.hits, id) && !buried(before@, before@.transactions[id])
                    && !in_transfer(before@, id) && !is_categorised(before@, id),
            |a: Transaction, b: Transaction| newer_than(a, b),
            Some(LIST_LIMIT),
        ),
        app.current_tab == Tab::Categories || app.current_tab == Tab::Accounts ==> next.lists
            == app.lists,
{
    let rows = choose|rows: super::app::tabs::TabRows|
        super::session::rows_for(before@, app.key(), outside.hits, rows) && #[trigger]
        app.on_rows_leads_to(Ok(rows), next);
    if app.current_tab == Tab::Transactions {
        a_query_lists_what_it_finds(
            before@,
            outside.hits,
            Some(LIST_LIMIT),
            next.lists.transactions.all(),
        );
    }
    if app.current_tab == Tab::Todo && app.todo_subtab == TodoSubTab::Uncategorised {
        the_uncategorised_are_those_without_a_category(
            before@,
            outside.hits,
            Some(LIST_LIMIT),
            next.lists.uncategorised.all(),
        );
    }
}

/// Loading the rows of the other tabs gives what their queries find too: the confirmed
/// transfers with both their sides, the suggestions and the transfers that wait for the
/// user, and every filter in its place.
pub proof fn the_other_tabs_load_what_they_show(
    app: App,
    before: TransactionStore,
    outside: Outside,
    next: App,
    after: TransactionStore,
)
    requires
        done(app, before, Task::LoadRows, outside, next, after),
        before@.keyed(),
    ensures
        app.current_tab == Tab::Todo && app.todo_subtab == TodoSubTab::TransferReview
            ==> holds_exactly(
            next.lists.transfer_reviews.all(),
            before@.transfers,
            |k: i64|
                !before@.transfers[k].confirmed && is_whole(before@, before@.transfers[k])
                    && finds_a_side(outside.hits, before@.transfers[k]),
            |a: Transfer, b: Transfer| linked_later(a, b),
            Some(LIST_LIMIT),
        ),
        app.current_tab == Tab::Transfers ==> holds_exactly(
            next.lists.linked_transfers.all().map_values(|x: TransferWithTransactions| x.transfer),
            before@.transfers,
            |k: i64|
                before@.transfers[k].confirmed && is_whole(before@, before@.transfers[k])
                    && finds_a_side(outside.hits, before@.transfers[k]),
            |a: Transfer, b: Transfer| linked_later(a, b),
            Some(LIST_LIMIT),
        ),
        app.current_tab == Tab::Transfers ==> forall|i: int|
            0 <= i < next.lists.linked_transfers.all().len() ==> {
                let x = #[trigger] next.lists.linked_transfers.all()[i];
                &&& x.from_transaction == before@.transactions[x.transfer.from_transaction_id]
                &&& x.to_transaction == before@.transactions[x.transfer.to_transaction_id]
            },
        app.current_tab == Tab::Todo && app.todo_subtab == TodoSubTab::AiReview ==> holds_exactly(
            next.lists.ai_reviews.all().map_values(|x: TransactionWithEnrichment| x.transaction),
            before@.transactions,
            |id: i64|
                asked_for(outside.hits, id) && !buried(before@, before@.transactions[id])
                    && before@.enrichments.contains_key(id)
                    && before@.enrichments[id].category_source == Some(CategorySource::Ai)
                    && !before@.enrichments[id].category_confirmed,
            |a: Transaction, b: Transaction| newer_than(a, b),
            Some(LIST_LIMIT),
        ),
        app.current_tab == Tab::Filters ==> holds_exactly(
            next.lists.filters.all(),
            before@.filters,
            |k: i64| true,
            |a: Filter, b: Filter|
                a.position < b.position || (a.position == b.position && a.id < b.id),
            None,
        ),
{
    let t = before@;
    let limit = Some(LIST_LIMIT);
    lemma_later(t);
    if app.current_tab == Tab::Todo && app.todo_subtab == TodoSubTab::TransferReview {
        lemma_exact(
            next.lists.transfer_reviews.all(),
            t.transfers,
            t.pending(outside.hits),
            latest_first(),
            limit,
            |k: i64|
                !before@.transfers[k].confirmed && is_whole(before@, before@.transfers[k])
                    && finds_a_side(outside.hits, before@.transfers[k]),
            |a: Transfer, b: Transfer| linked_later(a, b),
        );
    }
    if app.current_tab == Tab::Transfers {
        let all = next.lists.linked_transfers.all();
        let ts = choose|ts: Seq<Transfer>| #[trigger]
            lists_up_to(ts, t.transfers, t.shown(true, outside.hits), latest_first(), limit)
                && all == ts.map_values(|x: Transfer| t.sides(x));
        assert(all.map_values(|x: TransferWithTransactions| x.transfer) =~= ts);
        lemma_exact(
            ts,
            t.transfers,
            t.shown(true, outside.hits),
            latest_first(),
            limit,
            |k: i64|
                before@.transfers[k].confirmed && is_whole(before@, before@.transfers[k])
                    && finds_a_side(outside.hits, before@.transfers[k]),
            |a: Transfer, b: Transfer| linked_later(a, b),
        );
    }
    if app.current_tab == Tab::Todo && app.todo_subtab == TodoSubTab::AiReview {
        let all = next.lists.ai_reviews.all();
        let txs = choose|txs: Seq<Transaction>| #[trigger]
            lists_up_to(txs, t.transactions, t.under_review(outside.hits), newest_first(), limit)
                && all == txs.map_values(|tx: Transaction| t.review_of(tx));
        assert(all.map_values(|x: TransactionWithEnrichment| x.transaction) =~= txs);
        the_reviews_are_the_unconfirmed_suggestions(t, outside.hits, limit, txs);
    }
    if app.current_tab == Tab::Filters {
        let all = next.lists.filters.all();
        lemma_unlimited(all, t.filters, every_filter(), by_position());
        lemma_exact(
            all,
            t.filters,
            every_filter(),
            by_position(),
            None,
            |k: i64| true,
            |a: Filter, b: Filter|
                a.position < b.position || (a.position == b.position && a.id < b.id),
        );
    }
}

} // verus!
