//! What is loaded after a change, and what the caches hold then.

use std::collections::HashMap;

use vstd::prelude::*;

use super::caches::{both_sides, named_ids, reviewed, transactions_of, unknown_ids};
use super::confirm::Change;
use super::tabs::{Tab, TabLists, TabRows};
use super::tasks::{refresh_tasks, reload_tasks, Task};
use super::{filled, keyed, tx_id, App, BulkAction, InputMode};
use crate::find::lemma_first_index;
use crate::model::{
    Category, RefreshReport, Transaction, Transfer, TransferWithTransactions,
};

verus! {

/// The lists hold the transaction: as a row of the Transactions tab or of a review, or as a
/// side of a transfer.
pub open spec fn held(lists: TabLists, tx: Transaction) -> bool {
    ||| lists.transactions.all().contains(tx)
    ||| lists.uncategorised.all().contains(tx)
    ||| exists|i: int|
        0 <= i < lists.ai_reviews.all().len() && (#[trigger] lists.ai_reviews.all()[i]).transaction
            == tx
    ||| exists|i: int|
        0 <= i < lists.linked_transfers.all().len() && ((
        #[trigger] lists.linked_transfers.all()[i]).from_transaction == tx
            || lists.linked_transfers.all()[i].to_transaction == tx)
}

proof fn lemma_keyed(rows: Seq<Transaction>, k: i64)
    ensures
        ({
            let m = keyed(Map::empty(), rows, |tx: Transaction| tx_id(tx));
            &&& m.contains_key(k) ==> m[k].id == k && rows.contains(m[k])
            &&& forall|tx: Transaction|
                rows.contains(tx) && tx.id == k ==> #[trigger] m.contains_key(tx.id)
        }),
    decreases rows.len(),
{
    if rows.len() > 0 {
        let rest = rows.drop_last();
        lemma_keyed(rest, k);
        let id = |tx: Transaction| tx_id(tx);
        let fewer = keyed(Map::empty(), rest, id);
        let m = keyed(Map::empty(), rows, id);
        if m.contains_key(k) {
            if rows.last().id == k {
                assert(rows.contains(rows.last()));
            } else {
                let i = choose|i: int| 0 <= i < rest.len() && rest[i] == fewer[k];
                assert(rows[i] == m[k]);
            }
        }
        assert forall|tx: Transaction| rows.contains(tx) && tx.id == k implies #[trigger] m.contains_key(
            tx.id,
        ) by {
            let i = choose|i: int| 0 <= i < rows.len() && rows[i] == tx;
            if i < rest.len() {
                assert(rest[i] == tx);
                assert(fewer.contains_key(tx.id));
            }
        }
    }
}

proof fn lemma_filled(before: Map<i64, Transaction>, rows: Seq<Transaction>, k: i64)
    ensures
        ({
            let m = filled(before, rows, |tx: Transaction| tx_id(tx));
            &&& before.contains_key(k) ==> m.contains_key(k) && m[k] == before[k]
            &&& m.contains_key(k) && !before.contains_key(k) ==> m[k].id == k && rows.contains(
                m[k],
            )
            &&& forall|tx: Transaction|
                rows.contains(tx) && tx.id == k ==> #[trigger] m.contains_key(tx.id)
        }),
    decreases rows.len(),
{
    if rows.len() > 0 {
        let rest = rows.drop_last();
        lemma_filled(before, rest, k);
        let id = |tx: Transaction| tx_id(tx);
        let fewer = filled(before, rest, id);
        let m = filled(before, rows, id);
        if m.contains_key(k) && !before.contains_key(k) {
            if fewer.contains_key(k) {
                let i = choose|i: int| 0 <= i < rest.len() && rest[i] == fewer[k];
                assert(rows[i] == m[k]);
            } else {
                assert(rows.contains(rows.last()));
            }
        }
        assert forall|tx: Transaction| rows.contains(tx) && tx.id == k implies #[trigger] m.contains_key(
            tx.id,
        ) by {
            let i = choose|i: int| 0 <= i < rows.len() && rows[i] == tx;
            if i < rest.len() {
                assert(rest[i] == tx);
                assert(fewer.contains_key(tx.id));
            }
        }
    }
}

proof fn lemma_sides(transfers: Seq<TransferWithTransactions>, tx: Transaction)
    ensures
        both_sides(transfers).contains(tx) <==> exists|i: int|
            0 <= i < transfers.len() && ((#[trigger] transfers[i]).from_transaction == tx
                || transfers[i].to_transaction == tx),
    decreases transfers.len(),
{
    if transfers.len() > 0 {
        let rest = transfers.drop_last();
        let last = transfers.last();
        lemma_sides(rest, tx);
        let fewer = both_sides(rest);
        let sides = both_sides(transfers);
        assert(sides == fewer.push(last.from_transaction).push(last.to_transaction));
        if fewer.contains(tx) {
            let i = choose|i: int| 0 <= i < fewer.len() && fewer[i] == tx;
            assert(sides[i] == tx);
            let k = choose|k: int|
                0 <= k < rest.len() && ((#[trigger] rest[k]).from_transaction == tx
                    || rest[k].to_transaction == tx);
            assert(transfers[k] == rest[k]);
        }
        assert(sides[fewer.len() as int] == last.from_transaction);
        assert(sides[fewer.len() as int + 1] == last.to_transaction);
        assert(transfers[transfers.len() - 1] == last);
        if exists|i: int|
            0 <= i < transfers.len() && ((#[trigger] transfers[i]).from_transaction == tx
                || transfers[i].to_transaction == tx) {
            let i = choose|i: int|
                0 <= i < transfers.len() && ((#[trigger] transfers[i]).from_transaction == tx
                    || transfers[i].to_transaction == tx);
            if i < rest.len() {
                assert(rest[i] == transfers[i]);
            }
        }
        if sides.contains(tx) {
            let i = choose|i: int| 0 <= i < sides.len() && sides[i] == tx;
            if i < fewer.len() {
                assert(fewer[i] == tx);
            }
        }
    }
}

proof fn lemma_named(transfers: Seq<Transfer>, id: i64)
    ensures
        named_ids(transfers).contains(id) <==> exists|i: int|
            0 <= i < transfers.len() && ((#[trigger] transfers[i]).from_transaction_id == id
                || transfers[i].to_transaction_id == id),
    decreases transfers.len(),
{
    if transfers.len() > 0 {
        let rest = transfers.drop_last();
        let last = transfers.last();
        lemma_named(rest, id);
        let fewer = named_ids(rest);
        let ids = named_ids(transfers);
        assert(ids == fewer.push(last.from_transaction_id).push(last.to_transaction_id));
        if fewer.contains(id) {
            let i = choose|i: int| 0 <= i < fewer.len() && fewer[i] == id;
            assert(ids[i] == id);
            let k = choose|k: int|
                0 <= k < rest.len() && ((#[trigger] rest[k]).from_transaction_id == id
                    || rest[k].to_transaction_id == id);
            assert(transfers[k] == rest[k]);
        }
        assert(ids[fewer.len() as int] == last.from_transaction_id);
        assert(ids[fewer.len() as int + 1] == last.to_transaction_id);
        assert(transfers[transfers.len() - 1] == last);
        if exists|i: int|
            0 <= i < transfers.len() && ((#[trigger] transfers[i]).from_transaction_id == id
                || transfers[i].to_transaction_id == id) {
            let i = choose|i: int|
                0 <= i < transfers.len() && ((#[trigger] transfers[i]).from_transaction_id == id
                    || transfers[i].to_transaction_id == id);
            if i < rest.len() {
                assert(rest[i] == transfers[i]);
            }
        }
        if ids.contains(id) {
            let i = choose|i: int| 0 <= i < ids.len() && ids[i] == id;
            if i < fewer.len() {
                assert(fewer[i] == id);
            }
        }
    }
}

proof fn lemma_unknown(known: Set<i64>, ids: Seq<i64>, id: i64)
    ensures
        unknown_ids(known, ids).contains(id) <==> ids.contains(id) && !known.contains(id),
        unknown_ids(known, ids).no_duplicates(),
    decreases ids.len(),
{
    if ids.len() > 0 {
        let rest = ids.drop_last();
        let last = ids.last();
        lemma_unknown(known, rest, id);
        let fewer = unknown_ids(known, rest);
        let all = unknown_ids(known, ids);
        if fewer.contains(id) {
            let i = choose|i: int| 0 <= i < fewer.len() && fewer[i] == id;
            assert(all[i] == id);
        }
        if rest.contains(id) {
            let i = choose|i: int| 0 <= i < rest.len() && rest[i] == id;
            assert(ids[i] == id);
        }
        assert(ids[ids.len() - 1] == last);
        if ids.contains(id) && id != last {
            let i = choose|i: int| 0 <= i < ids.len() && ids[i] == id;
            assert(rest[i] == id);
        }
        if !known.contains(last) && !fewer.contains(last) {
            assert(all == fewer.push(last));
            assert(all[all.len() - 1] == last);
            if all.contains(id) && id != last {
                let i = choose|i: int| 0 <= i < all.len() && all[i] == id;
                assert(fewer[i] == id);
            }
        }
    }
}

/// Every transaction that the lists hold is found by its id, and what is found by an id has
/// it. The transactions that a transfer under review names and no list holds are still to
/// be loaded, each once.
pub proof fn held_transactions_are_found_by_id(
    app: App,
    missing: Vec<i64>,
    next: App,
    tx: Transaction,
    id: i64,
)
    requires
        app.missing_review_ids_leads_to(missing, next),
    ensures
        held(app.lists, tx) ==> next.tx_by_id@.contains_key(tx.id) && next.tx_by_id@[tx.id].id
            == tx.id,
        next.tx_by_id@.contains_key(id) ==> next.tx_by_id@[id].id == id && held(
            app.lists,
            next.tx_by_id@[id],
        ),
        missing@.no_duplicates(),
        missing@.contains(id) <==> !next.tx_by_id@.contains_key(id) && exists|i: int|
            0 <= i < app.lists.transfer_reviews.all().len() && ((
            #[trigger] app.lists.transfer_reviews.all()[i]).from_transaction_id == id
                || app.lists.transfer_reviews.all()[i].to_transaction_id == id),
{
    lemma_held(app.lists, tx.id, tx);
    lemma_held(app.lists, id, next.tx_by_id@[id]);
    lemma_unknown(
        transactions_of(app.lists).dom(),
        named_ids(app.lists.transfer_reviews.all()),
        id,
    );
    lemma_named(app.lists.transfer_reviews.all(), id);
}

proof fn lemma_held(lists: TabLists, k: i64, tx: Transaction)
    ensures
        held(lists, tx) && tx.id == k ==> transactions_of(lists).contains_key(k),
        transactions_of(lists).contains_key(k) ==> transactions_of(lists)[k].id == k && held(
            lists,
            transactions_of(lists)[k],
        ),
{
    let id = |tx: Transaction| tx_id(tx);
    let a = keyed(Map::empty(), lists.transactions.all(), id);
    let b = filled(a, lists.uncategorised.all(), id);
    let reviews = reviewed(lists.ai_reviews.all());
    let c = filled(b, reviews, id);
    let sides = both_sides(lists.linked_transfers.all());
    let m = filled(c, sides, id);
    lemma_keyed(lists.transactions.all(), k);
    lemma_filled(a, lists.uncategorised.all(), k);
    lemma_filled(b, reviews, k);
    lemma_filled(c, sides, k);
    assert(m == transactions_of(lists));
    lemma_sides(lists.linked_transfers.all(), tx);
    if m.contains_key(k) {
        lemma_sides(lists.linked_transfers.all(), m[k]);
        if reviews.contains(m[k]) {
            let i = choose|i: int| 0 <= i < reviews.len() && reviews[i] == m[k];
            assert(lists.ai_reviews.all()[i].transaction == m[k]);
        }
    }
    if exists|i: int|
        0 <= i < lists.ai_reviews.all().len() && (#[trigger] lists.ai_reviews.all()[i]).transaction
            == tx {
        let i = choose|i: int|
            0 <= i < lists.ai_reviews.all().len() && (
            #[trigger] lists.ai_reviews.all()[i]).transaction == tx;
        assert(reviews[i] == tx);
    }
    if held(lists, tx) && tx.id == k {
        assert(lists.transactions.all().contains(tx) ==> a.contains_key(tx.id));
        assert(lists.uncategorised.all().contains(tx) ==> b.contains_key(tx.id));
        assert(reviews.contains(tx) ==> c.contains_key(tx.id));
        assert(sides.contains(tx) ==> m.contains_key(tx.id));
    }
}

/// The step is on the agenda, before what was on it.
pub open spec fn brings(before: App, after: App, task: Task) -> bool {
    exists|i: int|
        0 <= i < after.agenda@.len() - before.agenda@.len() && #[trigger] after.agenda@[i] == task
}

/// The rows of the tab, the categories and the accounts are loaded, and what is known of
/// the rows; the rows are filtered and the selection is kept on one of them.
pub open spec fn loads_anew(before: App, after: App) -> bool {
    &&& brings(before, after, Task::LoadRows)
    &&& brings(before, after, Task::LoadCategories)
    &&& brings(before, after, Task::LoadAccounts)
    &&& brings(before, after, Task::LoadReviewTransactions)
    &&& brings(before, after, Task::LoadTxCategories)
    &&& brings(before, after, Task::LoadTxTransfers)
    &&& brings(before, after, Task::LoadTxTags)
    &&& brings(before, after, Task::LoadTxNotes)
    &&& brings(before, after, Task::ApplyFuzzy)
    &&& brings(before, after, Task::ClampSelection)
    &&& brings(before, after, Task::LoadCategoryCounts)
    &&& brings(before, after, Task::LoadAccountCounts)
}

/// After a change to the store the rows of the tab, the categories and the accounts are
/// loaded anew, and then what is known of the rows; after one that failed nothing is, and
/// the error is shown.
pub proof fn a_change_loads_everything_anew(
    app: App,
    change: Change,
    done: App,
    error: String,
    failed: App,
)
    requires
        app.on_changed_leads_to(change, Ok(()), done),
        app.on_changed_leads_to(change, Err(error), failed),
    ensures
        loads_anew(app, done),
        done.similarity_stale,
        failed.error_message is Some && failed == (App {
            error_message: failed.error_message,
            ..app
        }),
{
    let tasks = refresh_tasks();
    assert(done.agenda@.take(tasks.len() as int) =~= tasks);
    lemma_refreshes(app, done);
}

proof fn lemma_refreshes(app: App, done: App)
    requires
        done.agenda@.len() >= refresh_tasks().len() + app.agenda@.len(),
        done.agenda@.take(refresh_tasks().len() as int)
            == refresh_tasks(),
    ensures
        loads_anew(app, done),
{
    let tasks = refresh_tasks();
    assert forall|i: int| 0 <= i < tasks.len() implies #[trigger] done.agenda@[i] == tasks[i] by {
        assert(done.agenda@.take(tasks.len() as int)[i] == tasks[i]);
    }
    assert(done.agenda@[0] == Task::LoadCategories);
    assert(done.agenda@[1] == Task::LoadAccounts);
    assert(done.agenda@[3] == Task::LoadRows);
    assert(done.agenda@[4] == Task::LoadReviewTransactions);
    assert(done.agenda@[5] == Task::LoadTxCategories);
    assert(done.agenda@[6] == Task::LoadTxTransfers);
    assert(done.agenda@[7] == Task::LoadTxTags);
    assert(done.agenda@[8] == Task::LoadTxNotes);
    assert(done.agenda@[11] == Task::ApplyFuzzy);
    assert(done.agenda@[12] == Task::ClampSelection);
    assert(done.agenda@[15] == Task::LoadCategoryCounts);
    assert(done.agenda@[16] == Task::LoadAccountCounts);
}

/// A finished job makes room for the next, has everything loaded anew, and shows what came
/// of it after that. One that stopped makes room and shows an error.
pub proof fn a_finished_job_makes_room(
    app: App,
    refresh: Result<RefreshReport, String>,
    refreshed: App,
    report: Result<String, String>,
    classified: App,
    stopped: App,
)
    requires
        app.finish_refresh_leads_to(refresh, refreshed),
        app.finish_classification_leads_to(report, classified),
        app.job_stopped_leads_to(stopped),
    ensures
        refreshed.active_job is None && classified.active_job is None && stopped.active_job
            is None,
        loads_anew(app, refreshed) && loads_anew(app, classified),
        ({
            let last = refreshed.agenda@[refreshed.agenda@.len() - app.agenda@.len() - 1];
            if refresh is Ok { last is Status } else { last is ShowError }
        }),
        ({
            let last = classified.agenda@[classified.agenda@.len() - app.agenda@.len() - 1];
            match report {
                Ok(text) => last == (Task::ShowReport { report: text }),
                Err(_) => last is ShowError,
            }
        }),
        stopped.error_message is Some && stopped.agenda == app.agenda,
{
    let tasks = refresh_tasks();
    let n = tasks.len() as int;
    assert(refreshed.agenda@.take(n) =~= tasks);
    assert(classified.agenda@.take(n) =~= tasks);
    lemma_refreshes(app, refreshed);
    lemma_refreshes(app, classified);
}

/// What was loaded by id is there; what could not be loaded leaves nothing of what was
/// there before, and the error is shown.
pub proof fn a_load_replaces_the_cache(
    app: App,
    paths: Result<HashMap<i64, String>, String>,
    categories: App,
    notes: App,
    links: Result<HashMap<i64, Transfer>, String>,
    transfers: App,
    id: i64,
)
    requires
        app.on_tx_categories_leads_to(paths, categories),
        app.on_tx_notes_leads_to(paths, notes),
        app.on_tx_transfers_leads_to(links, transfers),
    ensures
        match paths {
            Ok(m) => {
                &&& categories.category_by_tx_id@.contains_key(id) == m@.contains_key(id)
                &&& m@.contains_key(id) ==> categories.category_by_tx_id@[id] == m@[id]
                &&& notes.note_by_tx_id@.contains_key(id) == m@.contains_key(id)
                &&& m@.contains_key(id) ==> notes.note_by_tx_id@[id] == m@[id]
                &&& categories.error_message == app.error_message
            },
            Err(_) => {
                &&& !categories.category_by_tx_id@.contains_key(id)
                &&& !notes.note_by_tx_id@.contains_key(id)
                &&& categories.error_message is Some && notes.error_message is Some
            },
        },
        match links {
            Ok(m) => {
                &&& transfers.transfer_by_tx_id@.contains_key(id) == m@.contains_key(id)
                &&& m@.contains_key(id) ==> transfers.transfer_by_tx_id@[id] == m@[id]
            },
            Err(_) => !transfers.transfer_by_tx_id@.contains_key(id) && transfers.error_message
                is Some,
        },
{
}

/// The path of a category is that of the row with its id, and there is none without one.
pub proof fn a_category_is_called_by_its_path(app: App, c: Category, id: i64)
    requires
        app.lists.categories.all().contains(c),
        forall|i: int|
            0 <= i < app.lists.categories.all().len() && (
            #[trigger] app.lists.categories.all()[i]).id == c.id ==> app.lists.categories.all()[i]
                == c,
        forall|i: int|
            0 <= i < app.lists.categories.all().len() ==> (
            #[trigger] app.lists.categories.all()[i]).id != id,
    ensures
        app.path_of(c.id) == Some(c.path@),
        app.path_of(id) is None,
{
    let all = app.lists.categories.all();
    lemma_first_index(all, |x: Category| x.id == c.id);
    lemma_first_index(all, |x: Category| x.id == id);
    let k = choose|k: int| 0 <= k < all.len() && all[k] == c;
    assert(all[k].id == c.id);
}

/// What was carried out has everything loaded anew, and closes what it was done from; what
/// failed changes nothing and shows the error.
pub proof fn what_was_done_is_loaded_anew(
    app: App,
    tx: Transaction,
    path: String,
    action: BulkAction,
    result: Result<(), String>,
    set: App,
    bulk: App,
    linked: App,
)
    requires
        app.on_category_set_leads_to(tx, path, result, set),
        app.on_bulk_applied_leads_to(&action, result, bulk),
        app.on_transfer_created_leads_to(result, linked),
    ensures
        result is Ok ==> {
            &&& loads_anew(app, set) && loads_anew(app, bulk) && loads_anew(app, linked)
            &&& brings(app, set, Task::CancelInput)
            &&& brings(app, set, Task::OfferSimilar { tx, category_path: path })
            &&& bulk.bulk_apply is None && bulk.input_mode == InputMode::Normal
            &&& set.lists == app.lists && bulk.lists == app.lists && linked.lists == app.lists
        },
        result is Err ==> {
            &&& set == (App { error_message: set.error_message, ..app })
            &&& bulk == (App { error_message: bulk.error_message, ..app })
            &&& linked == (App { error_message: linked.error_message, ..app })
            &&& set.error_message is Some && bulk.error_message is Some && linked.error_message
                is Some
        },
{
    if result is Ok {
        let tasks = refresh_tasks();
        let n = tasks.len() as int;
        assert(set.agenda@.take(n) =~= tasks);
        assert(bulk.agenda@.take(n) =~= tasks);
        assert(linked.agenda@.take(n) =~= tasks);
        lemma_refreshes(app, set);
        lemma_refreshes(app, bulk);
        lemma_refreshes(app, linked);
        assert(set.agenda@[n] == Task::CancelInput);
        assert(set.agenda@[n + 1] == (Task::OfferSimilar { tx, category_path: path }));
    }
}

/// Loaded rows are all shown, in the list that they were loaded for, and the other lists
/// stay; rows that could not be loaded leave every list, and an error is shown.
pub proof fn loaded_rows_are_shown(app: App, result: Result<TabRows, String>, next: App)
    requires
        app.on_rows_leads_to(result, next),
    ensures
        match result {
            Ok(TabRows::Transactions(items)) => next.lists.transactions.rows() == items@
                && next.lists.linked_transfers == app.lists.linked_transfers
                && next.lists.uncategorised == app.lists.uncategorised,
            Ok(TabRows::Transfers(items)) => next.lists.linked_transfers.rows() == items@
                && next.lists.transactions == app.lists.transactions
                && next.lists.transfer_reviews == app.lists.transfer_reviews,
            Ok(TabRows::Filters(items)) => next.lists.filters.rows() == items@
                && next.lists.transactions == app.lists.transactions && next.lists.categories
                == app.lists.categories,
            Ok(TabRows::Uncategorised(items)) => next.lists.uncategorised.rows() == items@
                && next.lists.transactions == app.lists.transactions && next.lists.ai_reviews
                == app.lists.ai_reviews,
            Ok(TabRows::AiReviews(items)) => next.lists.ai_reviews.rows() == items@
                && next.lists.uncategorised == app.lists.uncategorised
                && next.lists.transfer_reviews == app.lists.transfer_reviews,
            Ok(TabRows::TransferReviews(items)) => next.lists.transfer_reviews.rows() == items@
                && next.lists.linked_transfers == app.lists.linked_transfers
                && next.lists.ai_reviews == app.lists.ai_reviews,
            Ok(TabRows::Unchanged) => next.lists == app.lists,
            Err(_) => next.lists == app.lists && next.error_message is Some,
        },
        result is Ok ==> next.error_message is None,
        next.selected_index == app.selected_index,
{
}

/// Going to another tab, or on the Todo tab to another subtab, loads its rows and what
/// is known of them, filters them and keeps the selection on one of them.
pub proof fn another_tab_is_loaded(app: App, next: App, previous: App, right: App, left: App)
    requires
        app.next_tab_leads_to(next),
        app.previous_tab_leads_to(previous),
        app.next_subtab_leads_to(right),
        app.previous_subtab_leads_to(left),
    ensures
        forall|after: App|
            (after == next || after == previous || (app.current_tab == Tab::Todo && (after == right
                || after == left))) ==> {
                &&& #[trigger] brings(app, after, Task::LoadRows)
                &&& brings(app, after, Task::LoadReviewTransactions)
                &&& brings(app, after, Task::LoadTxCategories)
                &&& brings(app, after, Task::LoadTxTransfers)
                &&& brings(app, after, Task::ApplyFuzzy)
                &&& brings(app, after, Task::ClampSelection)
            },
{
    assert forall|after: App|
        (after == next || after == previous || (app.current_tab == Tab::Todo && (after == right
            || after == left))) implies {
        &&& #[trigger] brings(app, after, Task::LoadRows)
        &&& brings(app, after, Task::LoadReviewTransactions)
        &&& brings(app, after, Task::LoadTxCategories)
        &&& brings(app, after, Task::LoadTxTransfers)
        &&& brings(app, after, Task::ApplyFuzzy)
        &&& brings(app, after, Task::ClampSelection)
    } by {
        lemma_reloads(app, after);
    }
}

proof fn lemma_reloads(app: App, after: App)
    requires
        after.agenda@ == reload_tasks() + app.agenda@,
    ensures
        brings(app, after, Task::LoadRows),
        brings(app, after, Task::LoadReviewTransactions),
        brings(app, after, Task::LoadTxCategories),
        brings(app, after, Task::LoadTxTransfers),
        brings(app, after, Task::ApplyFuzzy),
        brings(app, after, Task::ClampSelection),
{
    assert(after.agenda@[0] == Task::LoadRows);
    assert(after.agenda@[1] == Task::LoadReviewTransactions);
    assert(after.agenda@[2] == Task::LoadTxCategories);
    assert(after.agenda@[3] == Task::LoadTxTransfers);
    assert(after.agenda@[8] == Task::ApplyFuzzy);
    assert(after.agenda@[9] == Task::ClampSelection);
}

} // verus!
