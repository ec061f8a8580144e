//! What the actions of the application come to.

use std::collections::HashMap;

use vstd::prelude::*;
use vstd::seq_lib::*;
use vstd::string::*;

use super::categories::{in_offer_order, known_matches, ticked, ticked_ids};
use super::tabs::{lemma_first_with_id, row_transactions, visible_rows, Tab, TodoSubTab};
use super::tasks::Task;
use super::{
    App, BulkAction, BulkApplyState, BulkItem, BulkRow, CategoryTarget, ConfirmAction, InputMode,
    TextPromptTarget,
};
use crate::model::{Category, FilterOverride, Timestamp, Transaction, Transfer};
use crate::text::{lex_le, trimmed};

verus! {

/// The agenda gained the tasks at its front, and nothing else.
pub open spec fn gained(before: App, after: App, tasks: Seq<Task>) -> bool {
    after.agenda@ == tasks + before.agenda@
}

/// The rows that the application shows on its tab.
pub open spec fn rows_shown(app: App) -> nat {
    match app.current_tab {
        Tab::Transactions => app.lists.transactions.rows().len(),
        Tab::Transfers => app.lists.linked_transfers.rows().len(),
        Tab::Categories => app.lists.categories.rows().len(),
        Tab::Accounts => app.lists.accounts.rows().len(),
        Tab::Filters => app.lists.filters.rows().len(),
        Tab::Todo => match app.todo_subtab {
            TodoSubTab::Uncategorised => app.lists.uncategorised.rows().len(),
            TodoSubTab::AiReview => app.lists.ai_reviews.rows().len(),
            TodoSubTab::TransferReview => app.lists.transfer_reviews.rows().len(),
        },
    }
}

/// The transaction of a row, on the tabs whose rows are transactions.
pub open spec fn tx_at(app: App, i: int) -> Option<Transaction> {
    if app.current_tab == Tab::Transactions && 0 <= i < app.lists.transactions.rows().len() {
        Some(app.lists.transactions.rows()[i])
    } else if app.current_tab == Tab::Todo && app.todo_subtab == TodoSubTab::Uncategorised && 0
        <= i < app.lists.uncategorised.rows().len() {
        Some(app.lists.uncategorised.rows()[i])
    } else if app.current_tab == Tab::Todo && app.todo_subtab == TodoSubTab::AiReview && 0 <= i
        < app.lists.ai_reviews.rows().len() {
        Some(app.lists.ai_reviews.rows()[i].transaction)
    } else {
        None
    }
}

/// The transaction at hand is that of the selected row.
pub proof fn the_selected_row_is_at_hand(app: App)
    ensures
        app.selected_tx() == tx_at(app, app.selected_index as int),
        visible_rows(app.lists, app.key()) == rows_shown(app),
{
}

/// Down goes to the next row, and from the last to the first; Up goes back the same
/// way. Where there is no row the selection stays.
pub proof fn the_arrows_step_by_one_row(app: App, down: App, up: App)
    requires
        app.next_leads_to(down),
        app.previous_leads_to(up),
        app.input_mode != InputMode::TransferPending || app.transfer_candidates@.len() == 0,
        app.selected_index < rows_shown(app) || rows_shown(app) == 0,
    ensures
        ({
            let (i, n) = (app.selected_index as int, rows_shown(app) as int);
            &&& n == 0 ==> down.selected_index == i && up.selected_index == i
            &&& n > 0 ==> down.selected_index == if i + 1 == n {
                0
            } else {
                i + 1
            }
            &&& n > 0 ==> up.selected_index == if i == 0 {
                n - 1
            } else {
                i - 1
            }
        }),
        down == (App { selected_index: down.selected_index, agenda: down.agenda, ..app }),
        up == (App { selected_index: up.selected_index, agenda: up.agenda, ..app }),
{
    let (i, n) = (app.selected_index as int, rows_shown(app) as int);
    assert(visible_rows(app.lists, app.key()) == n);
    if n > 0 {
        lemma_round(i, n);
    }
}

proof fn lemma_round(i: int, n: int)
    requires
        0 <= i < n,
    ensures
        (i + 1) % n == if i + 1 == n {
            0
        } else {
            i + 1
        },
        (i + n - 1) % n == if i == 0 {
            n - 1
        } else {
            i - 1
        },
{
    assert((i + 1) % n == if i + 1 == n {
        0
    } else {
        i + 1
    }) by (nonlinear_arith)
        requires
            0 <= i < n,
    ;
    assert((i + n - 1) % n == if i == 0 {
        n - 1
    } else {
        i - 1
    }) by (nonlinear_arith)
        requires
            0 <= i < n,
    ;
}

/// While a transfer is marked, Down goes to the row of the next candidate and Up to that
/// of the one before; at the ends, or where that candidate is not shown, the selection
/// stays.
pub proof fn the_arrows_step_through_the_candidates(app: App, down: App, up: App, k: int, row: int)
    requires
        app.next_leads_to(down),
        app.previous_leads_to(up),
        app.input_mode == InputMode::TransferPending,
        rows_shown(app) <= usize::MAX,
        0 <= k < app.transfer_candidates@.len(),
        tx_at(app, app.selected_index as int) matches Some(tx) && tx.id
            == app.transfer_candidates@[k].id,
        forall|j: int| 0 <= j < k ==> (#[trigger] app.transfer_candidates@[j]).id
            != app.transfer_candidates@[k].id,
        tx_at(app, row) is Some,
        forall|j: int|
            0 <= j < row ==> (#[trigger] tx_at(app, j) matches Some(tx) ==> tx.id != tx_at(
                app,
                row,
            )->0.id),
    ensures
        k + 1 < app.transfer_candidates@.len() && tx_at(app, row)->0.id
            == app.transfer_candidates@[k + 1].id ==> down.selected_index == row,
        k > 0 && tx_at(app, row)->0.id == app.transfer_candidates@[k - 1].id ==> up.selected_index
            == row,
        k + 1 == app.transfer_candidates@.len() ==> down.selected_index == app.selected_index,
        k == 0 ==> up.selected_index == app.selected_index,
{
    let rows = row_transactions(app.lists, app.key());
    let id = app.transfer_candidates@[k].id;
    assert(visible_rows(app.lists, app.key()) == rows_shown(app));
    assert(app.transfer_candidates.len() == app.transfer_candidates@.len());
    lemma_first_with_id(app.transfer_candidates@, id, Some(k as usize));
    assert forall|j: int| 0 <= j < rows.len() implies tx_at(app, j) == Some(#[trigger] rows[j]) by {}
    let want = tx_at(app, row)->0.id;
    assert(row < rows.len());
    assert forall|j: int| 0 <= j < row implies (#[trigger] rows[j]).id != want by {
        assert(tx_at(app, j) == Some(rows[j]));
    }
    lemma_first_with_id(rows, want, Some(row as usize));
}

/// What happens to the selection when the rows change: it stays, or goes to the last row
/// where there are fewer, or to zero without any.
pub proof fn the_selection_stays_on_a_row(app: App, next: App)
    requires
        app.clamp_selection_leads_to(next),
    ensures
        rows_shown(app) > 0 ==> next.selected_index < rows_shown(app),
        app.selected_index < rows_shown(app) ==> next == app,
        app.selected_index >= rows_shown(app) && rows_shown(app) > 0 ==> next.selected_index
            == rows_shown(app) - 1,
        rows_shown(app) == 0 ==> next.selected_index == 0,
        next == (App { selected_index: next.selected_index, ..app }),
{
}

/// The tab that Tab leads to.
pub open spec fn tab_behind(tab: Tab) -> Tab {
    match tab {
        Tab::Todo => Tab::Transactions,
        Tab::Transactions => Tab::Categories,
        Tab::Categories => Tab::Accounts,
        Tab::Accounts => Tab::Transfers,
        Tab::Transfers => Tab::Filters,
        Tab::Filters => Tab::Todo,
    }
}

/// The subtab that `]` leads to.
pub open spec fn subtab_behind(subtab: TodoSubTab) -> TodoSubTab {
    match subtab {
        TodoSubTab::Uncategorised => TodoSubTab::AiReview,
        TodoSubTab::AiReview => TodoSubTab::TransferReview,
        TodoSubTab::TransferReview => TodoSubTab::Uncategorised,
    }
}

/// Tab goes through the tabs in order and around, its reverse the other way, and so do
/// the brackets through the subtabs of Todo, which elsewhere do nothing. The mark of a
/// transfer goes with a change of tab.
pub proof fn tabs_are_gone_through_in_order(
    app: App,
    next: App,
    previous: App,
    right: App,
    left: App,
)
    requires
        app.next_tab_leads_to(next),
        app.previous_tab_leads_to(previous),
        app.next_subtab_leads_to(right),
        app.previous_subtab_leads_to(left),
    ensures
        next.current_tab == tab_behind(app.current_tab),
        app.current_tab == tab_behind(previous.current_tab),
        next.todo_subtab == app.todo_subtab && previous.todo_subtab == app.todo_subtab,
        next.pending_transfer_tx is None && next.transfer_candidates@.len() == 0,
        previous.pending_transfer_tx is None && previous.transfer_candidates@.len() == 0,
        next.input_mode == InputMode::Normal || next.input_mode == InputMode::DbSearch
            || next.input_mode == InputMode::FuzzySearch,
        app.current_tab == Tab::Todo ==> right.current_tab == Tab::Todo && left.current_tab
            == Tab::Todo && right.todo_subtab == subtab_behind(app.todo_subtab) && app.todo_subtab
            == subtab_behind(left.todo_subtab),
        app.current_tab != Tab::Todo ==> right == app && left == app,
        next.lists == app.lists && previous.lists == app.lists,
{
    lemma_round(app.current_tab.place(), 6);
    lemma_round(app.todo_subtab.place(), 3);
}

/// The transfer that the application knows a transaction to be part of.
pub open spec fn known_link(app: App, tx_id: i64) -> Option<Transfer> {
    if app.transfer_by_tx_id@.contains_key(tx_id) {
        Some(app.transfer_by_tx_id@[tx_id])
    } else {
        None
    }
}

/// The transfer joins the two transactions, whichever way.
pub open spec fn joins_both(t: Transfer, a: i64, b: i64) -> bool {
    (t.from_transaction_id == a && t.to_transaction_id == b) || (t.from_transaction_id == b
        && t.to_transaction_id == a)
}

/// Completing a transfer between two transactions of opposite amounts that are in none
/// asks the store to link them, from the one that money left to the one that it
/// reached.
pub proof fn a_transfer_goes_from_the_debit_to_the_credit(
    app: App,
    next: App,
    marked: Transaction,
    chosen: Transaction,
)
    requires
        app.transfer_completed(next),
        app.pending_transfer_tx == Some(marked),
        tx_at(app, app.selected_index as int) == Some(chosen),
        marked.amount_cents + chosen.amount_cents == 0,
        marked.amount_cents != 0,
        known_link(app, marked.id) is None,
        known_link(app, chosen.id) is None,
    ensures
        ({
            let (debit, credit) = if marked.amount_cents < 0 {
                (marked, chosen)
            } else {
                (chosen, marked)
            };
            gained(
                app,
                next,
                seq![Task::CreateTransfer { from_id: debit.id, to_id: credit.id }],
            )
        }),
        next.pending_transfer_tx is None,
        next.transfer_candidates@.len() == 0,
        next.input_mode != InputMode::TransferPending,
        next.confirm_action == app.confirm_action,
{
    reveal(App::linking);
}

/// Transactions whose amounts do not cancel out are not linked: an error says so, and
/// the mark is gone.
pub proof fn unequal_amounts_are_not_linked(
    app: App,
    next: App,
    marked: Transaction,
    chosen: Transaction,
)
    requires
        app.transfer_completed(next),
        app.pending_transfer_tx == Some(marked),
        tx_at(app, app.selected_index as int) == Some(chosen),
        marked.amount_cents + chosen.amount_cents != 0,
    ensures
        next.agenda@ == app.agenda@,
        next.confirm_action == app.confirm_action,
        next.error_message matches Some(m) && m@ == "Amounts don't match"@,
        next.pending_transfer_tx is None,
        next.transfer_candidates@.len() == 0,
{
}

/// Linking transactions that are linked with each other already does nothing. Where one
/// of them is in another transfer, the user is asked first: the question carries the
/// transfers that would go, each once, and nothing is on the agenda.
pub proof fn linked_transactions_are_asked_about(
    app: App,
    next: App,
    marked: Transaction,
    chosen: Transaction,
    id: i64,
)
    requires
        app.transfer_completed(next),
        app.pending_transfer_tx == Some(marked),
        tx_at(app, app.selected_index as int) == Some(chosen),
        marked.amount_cents + chosen.amount_cents == 0,
        known_link(app, marked.id) is Some || known_link(app, chosen.id) is Some,
    ensures
        ({
            let (a, b) = (known_link(app, marked.id), known_link(app, chosen.id));
            let linked = (a matches Some(t) && joins_both(t, marked.id, chosen.id)) || (
            b matches Some(t) && joins_both(t, marked.id, chosen.id));
            &&& next.agenda@ == app.agenda@
            &&& linked ==> next.confirm_action == app.confirm_action
            &&& !linked ==> {
                &&& next.input_mode == InputMode::Confirm
                &&& next.confirm_action matches Some(
                    ConfirmAction::BreakTransfersForTransfer { transfer_ids, from_id, to_id },
                )
                &&& transfer_ids@.contains(id) <==> (a matches Some(t) && t.id == id) || (
                b matches Some(t) && t.id == id)
                &&& transfer_ids@.no_duplicates()
                &&& marked.amount_cents < 0 ==> from_id == marked.id && to_id == chosen.id
                &&& marked.amount_cents >= 0 ==> from_id == chosen.id && to_id == marked.id
            }
        }),
{
    reveal(App::linking);
    let sides = super::transfers::directed(marked, chosen);
    let broken = super::transfers::broken_links(app.transfer_by_tx_id@, sides.0, sides.1);
    lemma_pair(broken, id);
}

proof fn lemma_pair(s: Seq<i64>, id: i64)
    requires
        s.len() <= 2,
    ensures
        s.contains(id) <==> (s.len() > 0 && s[0] == id) || (s.len() > 1 && s[1] == id),
{
}

/// Marking a transaction for a transfer puts the cursor on the first candidate, where it
/// is shown, and keeps the candidates in order; without one it says so.
pub proof fn the_first_candidate_is_selected(
    app: App,
    tx: Transaction,
    candidates: Vec<Transaction>,
    next: App,
    row: int,
)
    requires
        app.on_transfer_candidates_leads_to(tx, Ok(candidates), next),
        rows_shown(app) <= usize::MAX,
    ensures
        next.pending_transfer_tx == Some(tx),
        next.transfer_candidates@ == candidates@,
        candidates@.len() == 0 ==> next.input_mode == InputMode::TransferNoMatch
            && next.selected_index == app.selected_index,
        candidates@.len() > 0 ==> next.input_mode == InputMode::TransferPending,
        candidates@.len() > 0 && (tx_at(app, row) matches Some(first) && first.id
            == candidates@[0].id) && (forall|j: int|
            0 <= j < row ==> (#[trigger] tx_at(app, j) matches Some(t) ==> t.id
                != candidates@[0].id)) ==> next.selected_index == row,
{
    if candidates@.len() > 0 && (tx_at(app, row) matches Some(first) && first.id
        == candidates@[0].id) && (forall|j: int|
        0 <= j < row ==> (#[trigger] tx_at(app, j) matches Some(t) ==> t.id != candidates@[0].id)) {
        let rows = row_transactions(app.lists, app.key());
        assert forall|j: int| 0 <= j < row implies (#[trigger] rows[j]).id != candidates@[0].id by {
            assert(tx_at(app, j) == Some(rows[j]));
        }
        lemma_first_with_id(rows, candidates@[0].id, Some(row as usize));
    }
}

/// Removing the link of a transaction asks about its transfer first; only where it has
/// none about its category, and where it has neither nothing happens.
pub proof fn a_transfer_is_removed_before_a_category(app: App, next: App, tx: Transaction)
    requires
        app.delete_selected_tx_link_leads_to(next),
        tx_at(app, app.selected_index as int) == Some(tx),
    ensures
        ({
            let categorised = app.category_by_tx_id@.contains_key(tx.id)
                && app.category_by_tx_id@[tx.id]@.len() > 0;
            match known_link(app, tx.id) {
                Some(t) => next.input_mode == InputMode::Confirm && next.confirm_action == Some(
                    ConfirmAction::UnlinkTransfer { transfer_id: t.id },
                ),
                None => if categorised {
                    next.input_mode == InputMode::Confirm && next.confirm_action == Some(
                        ConfirmAction::Uncategorise { tx_id: tx.id },
                    )
                } else {
                    next == app
                },
            }
        }),
        next.agenda == app.agenda,
{
}

/// What the category popup offers for an input: everything found, in that order, and
/// behind it the typed text where that is not blank and no found path is exactly it.
pub proof fn the_typed_text_is_offered(
    app: App,
    found: Vec<Category>,
    now: Timestamp,
    next: App,
    i: int,
)
    requires
        app.on_suggestions_leads_to(Ok(found), now, next),
    ensures
        ({
            let typed = trimmed(app.category_input@);
            let shown = next.category_suggestions@;
            let new = typed.len() > 0 && forall|k: int|
                0 <= k < found@.len() ==> (#[trigger] found@[k]).path@ != typed;
            &&& 0 <= i < found@.len() ==> shown[i] == found@[i]
            &&& shown.len() == found@.len() + if new {
                1int
            } else {
                0
            }
            &&& new ==> shown[found@.len() as int].path@ == typed && shown[found@.len() as int].id
                == 0
            &&& next.category_selected == 0
        }),
{
    let typed = trimmed(app.category_input@);
    let shown = next.category_suggestions@;
    if exists|k: int| 0 <= k < found@.len() && (#[trigger] found@[k]).path@ == typed {
    } else {
        if typed.len() > 0 {
            assert(shown.drop_last() == found@);
            if 0 <= i < found@.len() {
                assert(shown.drop_last()[i] == shown[i]);
            }
        }
    }
}

/// The path that Enter stands for in the popup: the highlighted suggestion, or what was
/// typed where there are no suggestions.
pub open spec fn path_meant(app: App, path: Seq<char>) -> bool {
    let s = app.category_suggestions@;
    if s.len() > 0 {
        app.category_selected < s.len() && s[app.category_selected as int].path@ == path
    } else {
        app.category_input@.len() > 0 && app.category_input@ == path
    }
}

/// Enter in the category popup of a transaction asks the store to set the category that
/// is meant. Where the transaction is in a transfer, the user is asked first.
pub proof fn the_meant_category_is_set(app: App, next: App, tx: Transaction, path: Seq<char>)
    requires
        app.confirm_category_leads_to(next),
        app.category_target == CategoryTarget::Transaction,
        tx_at(app, app.selected_index as int) == Some(tx),
        path_meant(app, path),
    ensures
        match known_link(app, tx.id) {
            None => next.agenda@.len() == app.agenda@.len() + 1 && gained(
                app,
                next,
                seq![next.agenda@[0]],
            ) && (next.agenda@[0] matches Task::SetCategory { tx: which, category_path } && which
                == tx && category_path@ == path),
            Some(t) => next.agenda == app.agenda && next.input_mode == InputMode::Confirm && (
            next.confirm_action matches Some(
                ConfirmAction::BreakTransferForCategory { transfer_id, tx: which, category_path },
            ) && transfer_id == t.id && which == tx && category_path@ == path),
        },
{
}

/// Enter in the popup for all that match opens the list of the shown transactions that
/// are in no transfer, all ticked, in their order, with the category that is meant.
pub proof fn matching_transactions_are_listed_without_legs(
    app: App,
    next: App,
    path: Seq<char>,
    k: int,
)
    requires
        app.confirm_category_leads_to(next),
        app.category_target == CategoryTarget::MatchingTransactions,
        path_meant(app, path),
        next.input_mode == InputMode::BulkApply,
        next.bulk_apply is Some,
        app.bulk_candidates().len() > 0,
    ensures
        ({
            let state = next.bulk_apply->0;
            let rows = row_transactions(app.lists, app.key());
            &&& state.action matches BulkAction::ApplyCategory { category_path }
            &&& category_path@ == path
            &&& state.cursor == 0
            &&& 0 <= k < state.rows@.len() ==> {
                &&& state.rows@[k].selected
                &&& state.rows@[k].item matches BulkItem::Transaction { tx, score }
                &&& score is None
                &&& rows.contains(tx)
                &&& known_link(app, tx.id) is None
            }
            &&& forall|j: int|
                0 <= j < rows.len() && known_link(app, (#[trigger] rows[j]).id) is None
                    ==> exists|n: int|
                    #![trigger state.rows@[n]]
                    0 <= n < state.rows@.len() && state.rows@[n].item == (BulkItem::Transaction {
                        tx: rows[j],
                        score: None,
                    })
        }),
{
    let rows = row_transactions(app.lists, app.key());
    let keep = |tx: Transaction| !app.transfer_by_tx_id@.contains_key(tx.id);
    let kept = rows.filter(keep);
    let state = next.bulk_apply->0;
    assert(state.rows@ == super::categories::plain_rows(kept));
    if 0 <= k < state.rows@.len() {
        lemma_filtered(rows, keep, kept[k]);
        assert(kept.contains(kept[k]));
    }
    assert forall|j: int|
        0 <= j < rows.len() && known_link(app, (#[trigger] rows[j]).id) is None implies exists|n: int|
        #![trigger state.rows@[n]]
        0 <= n < state.rows@.len() && state.rows@[n].item == (BulkItem::Transaction {
            tx: rows[j],
            score: None,
        }) by {
        assert(keep(rows[j]));
        assert(rows.contains(rows[j]));
        lemma_filtered(rows, keep, rows[j]);
        let n = choose|n: int| 0 <= n < kept.len() && kept[n] == rows[j];
        assert(state.rows@[n].item == (BulkItem::Transaction { tx: rows[j], score: None }));
    }
}

proof fn lemma_filtered<T>(all: Seq<T>, p: spec_fn(T) -> bool, x: T)
    ensures
        all.filter(p).contains(x) <==> all.contains(x) && p(x),
    decreases all.len(),
{
    reveal(Seq::filter);
    if all.len() > 0 {
        let rest = all.drop_last();
        lemma_filtered(rest, p, x);
        let (some, whole) = (rest.filter(p), all.filter(p));
        if all.contains(x) {
            let i = choose|i: int| 0 <= i < all.len() && all[i] == x;
            if i < rest.len() {
                assert(rest[i] == x);
            }
        }
        if rest.contains(x) {
            let i = choose|i: int| 0 <= i < rest.len() && rest[i] == x;
            assert(all[i] == x);
        }
        assert(all[all.len() - 1] == all.last());
        if p(all.last()) {
            assert(whole == some.push(all.last()));
            if some.contains(x) {
                let i = choose|i: int| 0 <= i < some.len() && some[i] == x;
                assert(whole[i] == x);
            }
            assert(whole[some.len() as int] == all.last());
            if whole.contains(x) {
                let i = choose|i: int| 0 <= i < whole.len() && whole[i] == x;
                if i < some.len() {
                    assert(some[i] == x);
                }
            }
        }
    } else {
        assert(all.filter(p) =~= Seq::empty());
    }
}

/// Accepting what is under review lists every row shown, all ticked: the transactions of
/// AI Review, or the transfers of Transfer Review. Elsewhere it does nothing.
pub proof fn accepting_lists_what_is_under_review(app: App, next: App)
    requires
        app.start_accept_matching_leads_to(next),
    ensures
        app.current_tab == Tab::Todo && app.todo_subtab == TodoSubTab::AiReview && rows_shown(app)
            > 0 ==> {
            &&& next.bulk_apply matches Some(state)
            &&& state.action is ConfirmCategories
            &&& state.cursor == 0
            &&& state.rows@.len() == rows_shown(app)
            &&& forall|i: int|
                0 <= i < state.rows@.len() ==> (#[trigger] state.rows@[i]).selected
                    && state.rows@[i].item == (BulkItem::Transaction {
                    tx: app.lists.ai_reviews.rows()[i].transaction,
                    score: None,
                })
        },
        app.current_tab == Tab::Todo && app.todo_subtab == TodoSubTab::TransferReview && rows_shown(
            app,
        ) > 0 ==> {
            &&& next.bulk_apply matches Some(state)
            &&& state.action is ConfirmTransfers
            &&& state.cursor == 0
            &&& state.rows@.len() == rows_shown(app)
            &&& forall|i: int|
                0 <= i < state.rows@.len() ==> (#[trigger] state.rows@[i]).selected
                    && state.rows@[i].item == BulkItem::Transfer(
                    app.lists.transfer_reviews.rows()[i],
                )
        },
        app.current_tab != Tab::Todo || app.todo_subtab == TodoSubTab::Uncategorised || rows_shown(
            app,
        ) == 0 ==> next == app,
{
}

proof fn lemma_ticked_ids(rows: Seq<BulkRow>, id: i64)
    ensures
        ticked_ids(rows).contains(id) <==> exists|i: int|
            #![trigger rows[i]]
            0 <= i < rows.len() && rows[i].selected && target_of(rows[i]) == id,
        ticked_ids(rows).len() <= rows.len(),
    decreases rows.len(),
{
    let all = ticked_ids(rows);
    if rows.len() > 0 {
        let rest = rows.drop_last();
        let before = ticked_ids(rest);
        lemma_ticked_ids(rest, id);
        let last = rows.last();
        assert(rows[rows.len() - 1] == last);
        if before.contains(id) {
            let i = choose|i: int|
                #![trigger rest[i]]
                0 <= i < rest.len() && rest[i].selected && target_of(rest[i]) == id;
            assert(rows[i] == rest[i]);
            let n = choose|n: int| 0 <= n < before.len() && before[n] == id;
            assert(all[n] == id);
        }
        if last.selected {
            assert(all == before.push(last.target()));
            assert(all[before.len() as int] == last.target());
            if all.contains(id) {
                let n = choose|n: int| 0 <= n < all.len() && all[n] == id;
                if n < before.len() {
                    assert(before[n] == id);
                }
            }
        }
        if exists|i: int|
            #![trigger rows[i]]
            0 <= i < rows.len() && rows[i].selected && target_of(rows[i]) == id {
            let i = choose|i: int|
                #![trigger rows[i]]
                0 <= i < rows.len() && rows[i].selected && target_of(rows[i]) == id;
            if i < rest.len() {
                assert(rest[i] == rows[i]);
            }
        }
    }
}

/// What a row of the bulk-apply popup stands for.
pub open spec fn target_of(row: BulkRow) -> i64 {
    match row.item {
        BulkItem::Transaction { tx, .. } => tx.id,
        BulkItem::Transfer(t) => t.id,
    }
}

/// The ids that a task of the bulk-apply popup names.
pub open spec fn named_ids(task: Task) -> Seq<i64> {
    match task {
        Task::BulkCategorise { ids, .. } => ids@,
        Task::BulkConfirmCategories { ids } => ids@,
        Task::BulkConfirmTransfers { ids } => ids@,
        _ => Seq::empty(),
    }
}

/// Enter in the bulk-apply popup carries out its action for exactly the ticked rows;
/// without one it closes the popup and does nothing.
pub proof fn exactly_the_ticked_rows_are_applied(app: App, next: App, state: BulkApplyState, id: i64)
    requires
        app.bulk_apply_confirm_leads_to(next),
        app.bulk_apply == Some(state),
    ensures
        ({
            let rows = state.rows@;
            let any = exists|i: int| 0 <= i < rows.len() && (#[trigger] rows[i]).selected;
            &&& !any ==> next == (App {
                bulk_apply: None,
                input_mode: InputMode::Normal,
                ..app
            })
            &&& any ==> {
                let task = next.agenda@[0];
                &&& gained(app, next, seq![task])
                &&& named_ids(task).contains(id) <==> exists|i: int|
                    #![trigger rows[i]]
                    0 <= i < rows.len() && rows[i].selected && target_of(rows[i]) == id
                &&& match state.action {
                    BulkAction::ApplyCategory { category_path } => task matches
                        Task::BulkCategorise { category_path: path, .. } && path == category_path,
                    BulkAction::ConfirmCategories => task is BulkConfirmCategories,
                    BulkAction::ConfirmTransfers => task is BulkConfirmTransfers,
                }
            }
        }),
{
    let rows = state.rows@;
    lemma_ticked_ids(rows, id);
    if exists|i: int| 0 <= i < rows.len() && (#[trigger] rows[i]).selected {
        let i = choose|i: int| 0 <= i < rows.len() && (#[trigger] rows[i]).selected;
        lemma_ticked_ids(rows, target_of(rows[i]));
    } else if ticked_ids(rows).len() > 0 {
        let x = ticked_ids(rows)[0];
        assert(ticked_ids(rows).contains(x));
        lemma_ticked_ids(rows, x);
    }
}

/// Space ticks or unticks the row at the cursor and no other. `a` ticks every row, or
/// unticks them all where every one is ticked. What the rows stand for stays.
pub proof fn ticking_changes_only_the_ticks(
    app: App,
    toggled: App,
    all: App,
    state: BulkApplyState,
    i: int,
)
    requires
        app.bulk_apply == Some(state),
        app.bulk_apply_toggle_leads_to(toggled),
        app.bulk_apply_toggle_all_leads_to(all),
        0 <= i < state.rows@.len(),
    ensures
        toggled.bulk_apply matches Some(now) && {
            &&& now.rows@.len() == state.rows@.len()
            &&& now.rows@[i].item == state.rows@[i].item
            &&& now.rows@[i].selected == if i == state.cursor {
                !state.rows@[i].selected
            } else {
                state.rows@[i].selected
            }
            &&& now.cursor == state.cursor && now.action == state.action
        },
        all.bulk_apply matches Some(now) && {
            &&& now.rows@.len() == state.rows@.len()
            &&& now.rows@[i].item == state.rows@[i].item
            &&& now.rows@[i].selected <==> exists|j: int|
                0 <= j < state.rows@.len() && !(#[trigger] state.rows@[j]).selected
            &&& now.cursor == state.cursor && now.action == state.action
        },
{
    if super::categories::every_ticked(state.rows@) {
    } else {
        let j = choose|j: int| 0 <= j < state.rows@.len() && !(#[trigger] state.rows@[j]).selected;
        assert(!state.rows@[j].selected);
    }
}

/// A confirmed question does what it asked about.
pub proof fn yes_does_what_was_asked(app: App, next: App, action: ConfirmAction)
    requires
        app.confirm_proceed_leads_to(next),
        app.confirm_action == Some(action),
    ensures
        next.confirm_action is None,
        next.confirm_message is None,
        next.input_mode == InputMode::Normal,
        match action {
            ConfirmAction::MergeCategory { source_id, target_id } => gained(
                app,
                next,
                seq![Task::MergeCategories { source_id, target_id }],
            ),
            ConfirmAction::BreakTransferForCategory { transfer_id, tx, category_path } => gained(
                app,
                next,
                seq![Task::UnlinkForCategory { transfer_id, tx, category_path }],
            ),
            ConfirmAction::BreakTransfersForTransfer { transfer_ids, from_id, to_id } => gained(
                app,
                next,
                seq![Task::RecreateTransfer { transfer_ids, from_id, to_id }],
            ),
            ConfirmAction::UnlinkTransfer { transfer_id } => gained(
                app,
                next,
                seq![Task::UnlinkTransfer { transfer_id }],
            ),
            ConfirmAction::Uncategorise { tx_id } => gained(
                app,
                next,
                seq![Task::RemoveCategory { tx_id }],
            ),
            ConfirmAction::DeleteCategory(id) => gained(
                app,
                next,
                seq![Task::DeleteCategory { id }],
            ),
            ConfirmAction::DeleteAccount(id) => gained(app, next, seq![Task::DeleteAccount { id }]),
            ConfirmAction::DeleteFilter(id) => gained(app, next, seq![Task::DeleteFilter { id }]),
            ConfirmAction::DiscardFilterEdit => next.agenda == app.agenda && next.filter_edit
                is None && next.note_editor == app.note_editor,
            ConfirmAction::DiscardNoteEdit => next.agenda == app.agenda && next.note_editor is None
                && next.filter_edit == app.filter_edit,
        },
{
}

/// Cancelling carries nothing out. It takes the question, the popups and the error away,
/// and leads back to what was behind: a prompt or a note that a question was about, the
/// mode a prompt was opened in, the filter edit screen, or Normal mode.
pub proof fn cancelling_leads_back(app: App, next: App)
    requires
        app.cancelled(next),
    ensures
        next.agenda == app.agenda,
        next.confirm_action is None && next.confirm_message is None,
        next.bulk_apply is None && next.apply_filters_preview is None,
        next.pending_transfer_tx is None && next.transfer_candidates@.len() == 0,
        next.category_input@.len() == 0 && next.category_suggestions@.len() == 0,
        next.error_message is None,
        next.lists == app.lists && next.selected_index == app.selected_index,
        next.filter_edit == app.filter_edit && next.note_editor == app.note_editor,
        app.input_mode == InputMode::Confirm && app.text_prompt is Some ==> next.input_mode
            == InputMode::TextPrompt && next.text_prompt == app.text_prompt,
        app.input_mode == InputMode::Confirm && app.text_prompt is None && app.note_editor is Some
            ==> next.input_mode == InputMode::Note,
        app.input_mode == InputMode::Confirm && app.text_prompt is None && app.note_editor is None
            && app.filter_edit is Some ==> next.input_mode == InputMode::FilterEdit,
        app.input_mode == InputMode::TextPrompt ==> next.text_prompt is None,
        app.input_mode == InputMode::TextPrompt && app.text_prompt is Some ==> {
            let mode = app.text_prompt->0.return_mode;
            mode != InputMode::TransferPending && mode != InputMode::TransferNoMatch
                ==> next.input_mode == mode
        },
        (app.input_mode == InputMode::Category || app.input_mode == InputMode::BulkApply) ==> (
        next.input_mode == if app.filter_edit is Some {
            InputMode::FilterEdit
        } else {
            InputMode::Normal
        }),
        app.input_mode == InputMode::TransferPending ==> next.input_mode == InputMode::Normal,
{
}

/// The override mode goes round: uncategorised, those suggested automatically, all. Only
/// a filter with a category has it changed; its review mark is turned over likewise.
pub proof fn filter_settings_go_round(app: App, cycled: App, turned: App)
    requires
        app.cycle_filter_override_leads_to(cycled),
        app.toggle_filter_review_leads_to(turned),
    ensures
        match app.chosen_filter() {
            Some(f) => if f.category_id is Some {
                &&& gained(
                    app,
                    cycled,
                    seq![
                        Task::SetFilterOverride {
                            id: f.id,
                            mode: match f.override_mode {
                                FilterOverride::Uncategorised => FilterOverride::Ai,
                                FilterOverride::Ai => FilterOverride::All,
                                FilterOverride::All => FilterOverride::Uncategorised,
                            },
                        },
                    ],
                )
                &&& gained(
                    app,
                    turned,
                    seq![Task::SetFilterReview { id: f.id, review: !f.review_required }],
                )
            } else {
                cycled == app && turned == app
            },
            None => cycled == app && turned == app,
        },
{
}

/// Enter in a prompt carries out what it was for with the typed text, without the blanks
/// around it. A blank text, or one that changes nothing, carries out nothing.
pub proof fn a_prompt_does_what_it_was_for(app: App, next: App, value: Seq<char>)
    requires
        app.confirm_text_prompt_leads_to(next),
        app.text_prompt is Some,
        value == trimmed(app.text_prompt->0.input.text()),
    ensures
        value.len() == 0 ==> next.agenda == app.agenda,
        value.len() > 0 ==> match app.text_prompt->0.target {
            TextPromptTarget::CategoryRename(c) => if value == c.path@ {
                next.agenda == app.agenda
            } else {
                gained(app, next, seq![next.agenda@[0]]) && (next.agenda@[0] matches
                    Task::RenameCategory { category, new_path } && category == c && new_path@
                    == value)
            },
            TextPromptTarget::AccountRename(a) => if value == a.path@ {
                next.agenda == app.agenda
            } else {
                gained(app, next, seq![next.agenda@[0]]) && (next.agenda@[0] matches
                    Task::RenameAccount { account, new_path } && account == a && new_path@ == value)
            },
            TextPromptTarget::FilterCreate => app.current_tab == Tab::Filters ==> gained(
                app,
                next,
                seq![next.agenda@[0]],
            ) && (next.agenda@[0] matches Task::CreateFilter { name } && name@ == value),
            TextPromptTarget::FilterCreateFromQuery(q) => app.current_tab == Tab::Transactions
                ==> gained(app, next, seq![next.agenda@[0]]) && (next.agenda@[0] matches
                Task::CreateFilterFromQuery { name, query, .. } && name@ == value && query == q),
            TextPromptTarget::FilterRename(id) => {
                let unchanged = exists|i: int|
                    #![trigger app.lists.filters.all()[i]]
                    0 <= i < app.lists.filters.all().len() && app.lists.filters.all()[i].id == id
                        && app.lists.filters.all()[i].name@ == value;
                &&& unchanged ==> next.agenda == app.agenda
                &&& app.current_tab == Tab::Filters && !unchanged ==> gained(
                    app,
                    next,
                    seq![next.agenda@[0]],
                ) && (next.agenda@[0] matches Task::RenameFilter { id: which, name } && which == id
                    && name@ == value)
            },
        },
{
    let prompt = app.text_prompt->0;
    let bare = App { text_prompt: None, ..app };
    if !bare.declines(prompt.target, value) {
        let answer = choose|answer: String|
            answer@ == value && super::scheduled(
                bare,
                next,
                seq![#[trigger] super::prompt::task_of(
                    prompt.target,
                    answer,
                    prompt.return_mode,
                )],
            );
        assert(next.agenda@[0] == super::prompt::task_of(
            prompt.target,
            answer,
            prompt.return_mode,
        ));
    }
}

/// A message stays for five seconds on the application's clock of milliseconds.
pub proof fn a_message_stays_five_seconds(app: App, message: String, next: App)
    requires
        app.show_status_leads_to(message, next),
        app.clock <= u64::MAX - 5000,
    ensures
        next.status == Some((message, (app.clock + 5000) as u64)),
        next == (App { status: next.status, ..app }),
{
}

/// The similar transactions are offered by score, the highest first, and of one score
/// the latest day first; each is known, ticked, and among the first two hundred matches.
pub proof fn similar_transactions_come_by_score(
    app: App,
    path: String,
    matches: &Vec<(i64, u32)>,
    candidates: &HashMap<i64, Transaction>,
    next: App,
    i: int,
    j: int,
)
    requires
        app.open_bulk_apply_for_leads_to(path, matches, candidates, next),
        next != app,
        next.bulk_apply is Some,
        0 <= i < j < next.bulk_apply->0.rows@.len(),
    ensures
        ({
            let rows = next.bulk_apply->0.rows@;
            &&& rows[i].selected && rows[j].selected
            &&& rows[i].item matches BulkItem::Transaction { tx: a, score: x }
            &&& rows[j].item matches BulkItem::Transaction { tx: b, score: y }
            &&& x matches Some(p)
            &&& y matches Some(q)
            &&& p >= q
            &&& p == q ==> lex_le(b.date@, a.date@)
            &&& exists|k: int|
                #![trigger matches@[k]]
                0 <= k < matches@.len() && k < 200 && matches@[k].1 == p && candidates@.contains_key(
                    matches@[k].0,
                ) && candidates@[matches@[k].0] == a
            &&& next.bulk_apply->0.action == (BulkAction::ApplyCategory { category_path: path })
        }),
{
    broadcast use group_to_multiset_ensures;

    let first = super::categories::first_matches(matches@);
    let known = known_matches(first, candidates@);
    let rows = choose|rows: Seq<(Transaction, u32)>|
        #[trigger] in_offer_order(rows) && rows.to_multiset() == known.to_multiset()
            && app.bulk_opened(
            BulkAction::ApplyCategory { category_path: path },
            ticked(rows),
            next,
        );
    assert(super::categories::offered_before(rows[i], rows[j]));
    assert(rows.contains(rows[i]));
    assert(rows.to_multiset().count(rows[i]) > 0);
    assert(known.contains(rows[i]));
    let k = lemma_known(first, candidates@, rows[i]);
    assert(first[k] == matches@[k]);
}

proof fn lemma_known(
    matches: Seq<(i64, u32)>,
    candidates: Map<i64, Transaction>,
    row: (Transaction, u32),
) -> (k: int)
    requires
        known_matches(matches, candidates).contains(row),
    ensures
        0 <= k < matches.len(),
        matches[k].1 == row.1,
        candidates.contains_key(matches[k].0),
        candidates[matches[k].0] == row.0,
    decreases matches.len(),
{
    let all = known_matches(matches, candidates);
    let n = choose|n: int| 0 <= n < all.len() && all[n] == row;
    if matches.len() == 0 {
        0
    } else {
        let rest = known_matches(matches.drop_last(), candidates);
        if n < rest.len() {
            assert(rest[n] == row);
            lemma_known(matches.drop_last(), candidates, row)
        } else {
            matches.len() - 1
        }
    }
}

} // verus!
