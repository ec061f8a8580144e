//! What searching does to the rows on screen.

use vstd::prelude::*;
use vstd::seq_lib::*;

use super::search_state::{SearchStates, TabSearchState};
use super::tabs::{
    boundary, filter_visible, linked_visible, occurs_at, path_visible, refiltered, review_visible,
    starts_at_boundary, tx_visible, Tab, TabLists, TodoSubTab,
};
use super::tasks::{BarTarget, Task};
use super::{App, InputMode};
use crate::fuzzy::score_of;
use crate::model::{
    AccountWithBank, Category, Filter, Transaction, TransactionWithEnrichment, Transfer,
    TransferWithTransactions,
};
use crate::tag::{alphanumeric, lowercase};
use crate::tui::filtered_list::FilteredList;
use crate::tui::input::InputRequest;
use crate::tui::search_bar::ColonAnswer;

verus! {

/// Exactly the loaded items that `wanted` holds of are shown, in the order that they were
/// loaded in.
pub open spec fn narrowed<T>(
    before: FilteredList<T>,
    after: FilteredList<T>,
    wanted: spec_fn(T) -> bool,
) -> bool {
    &&& after.all() == before.all()
    &&& forall|i: int|
        0 <= i < after.rows().len() ==> wanted(#[trigger] after.rows()[i])
            && before.all().contains(after.rows()[i])
    &&& forall|i: int|
        0 <= i < before.all().len() && wanted(#[trigger] before.all()[i])
            ==> after.rows().contains(before.all()[i])
    &&& (forall|i: int| 0 <= i < before.all().len() ==> wanted(#[trigger] before.all()[i]))
        ==> after.rows() == before.all()
}

/// The pattern is empty or has a score in the text.
pub open spec fn scores(pattern: Seq<char>, text: Seq<char>) -> bool {
    pattern.len() == 0 || score_of(pattern, text) is Some
}

/// `q` stands in `t` at position `i`, behind no letter or digit.
pub open spec fn word_begins_at(t: Seq<char>, q: Seq<char>, i: int) -> bool {
    &&& 0 <= i < t.len()
    &&& i + q.len() <= t.len()
    &&& i == 0 || !alphanumeric(t[i - 1])
    &&& forall|k: int| 0 <= k < q.len() ==> t[i + k] == #[trigger] q[k]
}

/// A word of the text begins with the query, whatever the case of either.
pub open spec fn begins_a_word(text: Seq<char>, query: Seq<char>) -> bool {
    exists|i: int| #[trigger] word_begins_at(lowercase(text), lowercase(query), i)
}

proof fn lemma_kept<T>(items: Seq<T>, keep: spec_fn(T) -> bool)
    ensures
        forall|i: int|
            0 <= i < items.filter(keep).len() ==> keep(#[trigger] items.filter(keep)[i])
                && items.contains(items.filter(keep)[i]),
        forall|i: int|
            0 <= i < items.len() && keep(#[trigger] items[i]) ==> items.filter(keep).contains(
                items[i],
            ),
        (forall|i: int| 0 <= i < items.len() ==> keep(#[trigger] items[i])) ==> items.filter(keep)
            == items,
    decreases items.len(),
{
    reveal(Seq::filter);
    if items.len() > 0 {
        let rest = items.drop_last();
        lemma_kept(rest, keep);
        let kept = items.filter(keep);
        let fewer = rest.filter(keep);
        assert forall|i: int| 0 <= i < kept.len() implies keep(#[trigger] kept[i])
            && items.contains(kept[i]) by {
            if i < fewer.len() {
                assert(kept[i] == fewer[i]);
                let k = choose|k: int| 0 <= k < rest.len() && rest[k] == fewer[i];
                assert(items[k] == kept[i]);
            } else {
                assert(kept[i] == items[items.len() - 1]);
            }
        }
        assert forall|i: int| 0 <= i < items.len() && keep(#[trigger] items[i]) implies kept.contains(
            items[i],
        ) by {
            if i < rest.len() {
                assert(rest[i] == items[i]);
                let k = choose|k: int| 0 <= k < fewer.len() && fewer[k] == rest[i];
                assert(kept[k] == items[i]);
            } else {
                assert(kept[kept.len() - 1] == items[i]);
            }
        }
        if forall|i: int| 0 <= i < items.len() ==> keep(#[trigger] items[i]) {
            assert forall|i: int| 0 <= i < rest.len() implies keep(#[trigger] rest[i]) by {
                assert(rest[i] == items[i]);
            }
            assert(keep(items[items.len() - 1]));
            assert(kept =~= items);
        }
    }
}

proof fn lemma_begins(text: Seq<char>, query: Seq<char>)
    ensures
        starts_at_boundary(text, query) == (query.len() == 0 || begins_a_word(
            text,
            query,
        )),
{
    let t = lowercase(text);
    let q = lowercase(query);
    if starts_at_boundary(text, query) && query.len() > 0 {
        let i = choose|i: int|
            0 <= i < t.len() && boundary(t, i) && #[trigger] occurs_at(
                t,
                q,
                i,
            );
        assert forall|k: int| 0 <= k < q.len() implies t[i + k] == #[trigger] q[k] by {
            assert(t.subrange(i, i + q.len())[k] == t[i + k]);
        }
        assert(word_begins_at(t, q, i));
    }
    if begins_a_word(text, query) {
        let i = choose|i: int| #[trigger] word_begins_at(lowercase(text), lowercase(query), i);
        assert(t.subrange(i, i + q.len()) =~= q);
        assert(occurs_at(t, q, i));
    }
}

/// The tab shows the rows that the pattern has a score in: in a transaction's description,
/// in that of either side of a transfer, in a filter's name or query, in a category's or an
/// account's path. A transfer under review is shown as well where a side of it is not
/// known. The query narrows categories and accounts further, to paths in which it begins a
/// word. The other tabs' rows stay.
pub proof fn a_pattern_narrows_the_rows(
    before: TabLists,
    app: App,
    query: Seq<char>,
    pattern: Seq<char>,
    txs: Map<i64, Transaction>,
    after: TabLists,
)
    requires
        refiltered(before, app.key(), query, pattern, txs, after),
    ensures
        match app.current_tab {
            Tab::Transactions => narrowed(
                before.transactions,
                after.transactions,
                |tx: Transaction| scores(pattern, tx.description@),
            ),
            Tab::Transfers => narrowed(
                before.linked_transfers,
                after.linked_transfers,
                |t: TransferWithTransactions|
                    scores(pattern, t.from_transaction.description@) || scores(
                        pattern,
                        t.to_transaction.description@,
                    ),
            ),
            Tab::Categories => narrowed(
                before.categories,
                after.categories,
                |c: Category|
                    scores(pattern, c.path@) && (query.len() == 0 || begins_a_word(
                        c.path@,
                        query,
                    )),
            ),
            Tab::Accounts => narrowed(
                before.accounts,
                after.accounts,
                |a: AccountWithBank|
                    scores(pattern, a.path@) && (query.len() == 0 || begins_a_word(
                        a.path@,
                        query,
                    )),
            ),
            Tab::Filters => narrowed(
                before.filters,
                after.filters,
                |f: Filter| scores(pattern, f.name@) || scores(pattern, f.query@),
            ),
            Tab::Todo => match app.todo_subtab {
                TodoSubTab::Uncategorised => narrowed(
                    before.uncategorised,
                    after.uncategorised,
                    |tx: Transaction| scores(pattern, tx.description@),
                ),
                TodoSubTab::AiReview => narrowed(
                    before.ai_reviews,
                    after.ai_reviews,
                    |r: TransactionWithEnrichment| scores(pattern, r.transaction.description@),
                ),
                TodoSubTab::TransferReview => narrowed(
                    before.transfer_reviews,
                    after.transfer_reviews,
                    |t: Transfer|
                        {
                            let (from, to) = (t.from_transaction_id, t.to_transaction_id);
                            if txs.contains_key(from) && txs.contains_key(to) {
                                scores(pattern, txs[from].description@) || scores(
                                    pattern,
                                    txs[to].description@,
                                )
                            } else {
                                true
                            }
                        },
                ),
            },
        },
        app.current_tab != Tab::Transactions ==> after.transactions == before.transactions,
        app.current_tab != Tab::Transfers ==> after.linked_transfers == before.linked_transfers,
        app.current_tab != Tab::Categories ==> after.categories == before.categories,
        app.current_tab != Tab::Accounts ==> after.accounts == before.accounts,
        app.current_tab != Tab::Filters ==> after.filters == before.filters,
        app.current_tab != Tab::Todo ==> after.uncategorised == before.uncategorised
            && after.ai_reviews == before.ai_reviews && after.transfer_reviews
            == before.transfer_reviews,
{
    match app.current_tab {
        Tab::Transactions => {
            lemma_kept(
                before.transactions.all(),
                |tx: Transaction| tx_visible(pattern, tx),
            );
        },
        Tab::Transfers => {
            lemma_kept(
                before.linked_transfers.all(),
                |t: TransferWithTransactions|
                    linked_visible(pattern, t),
            );
        },
        Tab::Categories => {
            assert forall|c: Category| starts_at_boundary(#[trigger] c.path@, query)
                == (query.len() == 0 || begins_a_word(c.path@, query)) by {
                lemma_begins(c.path@, query);
            }
            lemma_kept(
                before.categories.all(),
                |c: Category| path_visible(query, pattern, c.path@),
            );
        },
        Tab::Accounts => {
            assert forall|a: AccountWithBank| starts_at_boundary(
                #[trigger] a.path@,
                query,
            ) == (query.len() == 0 || begins_a_word(a.path@, query)) by {
                lemma_begins(a.path@, query);
            }
            lemma_kept(
                before.accounts.all(),
                |a: AccountWithBank| path_visible(query, pattern, a.path@),
            );
        },
        Tab::Filters => {
            lemma_kept(
                before.filters.all(),
                |f: Filter| filter_visible(pattern, f),
            );
        },
        Tab::Todo => match app.todo_subtab {
            TodoSubTab::Uncategorised => {
                lemma_kept(
                    before.uncategorised.all(),
                    |tx: Transaction| tx_visible(pattern, tx),
                );
            },
            TodoSubTab::AiReview => {
                lemma_kept(
                    before.ai_reviews.all(),
                    |r: TransactionWithEnrichment| tx_visible(pattern, r.transaction),
                );
            },
            TodoSubTab::TransferReview => {
                lemma_kept(
                    before.transfer_reviews.all(),
                    |t: Transfer| review_visible(pattern, txs, t),
                );
            },
        },
    }
}

/// Typing in the fuzzy search filters by what is then in the input, beside what stands in
/// the search bar, and selects the first row.
pub proof fn typing_filters_by_what_is_typed(before: App, req: InputRequest, after: App)
    requires
        before.handle_fuzzy_search_input_leads_to(req, after),
    ensures
        refiltered(
            before.lists,
            before.key(),
            before.here().search_bar.text(),
            after.here().fuzzy_search_input.text(),
            before.tx_by_id@,
            after.lists,
        ),
        after.here().fuzzy_pattern@ == after.here().fuzzy_search_input.text(),
        after.selected_index == 0,
        after.input_mode == before.input_mode,
        after.current_tab == before.current_tab,
        after.agenda == before.agenda,
{
}

/// Clearing takes the fuzzy search away first and then the one in the bar, and does nothing
/// where there is neither. The first row is selected then.
pub proof fn clearing_takes_the_fuzzy_search_first(before: App, after: App)
    requires
        before.clear_search_leads_to(after),
    ensures
        before.here().fuzzy_search_active ==> !after.here().fuzzy_search_active
            && after.here().fuzzy_search_input.text().len() == 0 && after.here().search_bar
            == before.here().search_bar && after.here().db_search_active
            == before.here().db_search_active && after.selected_index == 0,
        !before.here().fuzzy_search_active && before.here().db_search_active
            ==> !after.here().db_search_active && after.here().search_bar.text().len() == 0
            && after.agenda@.contains(Task::LoadRows) && after.selected_index == 0 && after.lists
            == before.lists,
        !before.here().fuzzy_search_active && !before.here().db_search_active ==> after == before,
        after.input_mode == before.input_mode,
{
    reveal(SearchStates::of);
    reveal(SearchStates::with);
    if !before.here().fuzzy_search_active && before.here().db_search_active {
        assert(after.agenda@[0] == Task::LoadRows);
    }
}

/// Leaving a fuzzy search with nothing kept shows every row of a tab without a query, and
/// goes back to the search bar where one is in use.
pub proof fn leaving_the_fuzzy_search_shows_every_row(before: App, after: App)
    requires
        before.clear_fuzzy_search_leads_to(after),
    ensures
        after.input_mode == if before.here().db_search_active {
            InputMode::DbSearch
        } else {
            InputMode::Normal
        },
        before.current_tab == Tab::Transactions ==> after.lists.transactions.rows()
            == before.lists.transactions.all(),
        before.current_tab == Tab::Transfers ==> after.lists.linked_transfers.rows()
            == before.lists.linked_transfers.all(),
        before.current_tab == Tab::Filters ==> after.lists.filters.rows()
            == before.lists.filters.all(),
{
    let mid = App { input_mode: before.input_mode, ..after };
    a_pattern_narrows_the_rows(
        before.lists,
        before,
        before.here().search_bar.text(),
        Seq::empty(),
        before.tx_by_id@,
        after.lists,
    );
}

/// A search begins in the mode of its own, with nothing typed changed; confirming the one
/// in the bar goes back to the rows, unless a list of completions is open.
pub proof fn a_search_begins_and_ends(before: App, typed: App, fuzzy: App, after: App)
    requires
        before.start_db_search_leads_to(typed),
        before.start_fuzzy_search_leads_to(fuzzy),
        before.confirm_db_search_leads_to(after),
    ensures
        typed.input_mode == InputMode::DbSearch && typed.here().db_search_active
            && typed.here().search_bar == before.here().search_bar && typed.lists == before.lists,
        fuzzy.input_mode == InputMode::FuzzySearch && fuzzy.here().fuzzy_search_active
            && fuzzy.here().fuzzy_search_input == before.here().fuzzy_search_input && fuzzy.lists
            == before.lists,
        before.here().search_bar.popup() is None ==> after.input_mode == InputMode::Normal
            && after.search == before.search && after.agenda == before.agenda,
        before.here().search_bar.popup() is Some ==> after.here().search_bar.popup() is None
            && after.input_mode == before.input_mode,
{
    reveal(SearchStates::of);
    reveal(SearchStates::with);
}

/// What is typed into the bar is parsed first, then its rows are loaded and the first is
/// selected.
pub proof fn typing_in_the_bar_loads_its_rows(
    before: App,
    req: InputRequest,
    answer: Option<ColonAnswer>,
    after: App,
)
    requires
        before.db_searched(req, answer, after),
    ensures
        after.agenda@.len() >= 3 + before.agenda@.len(),
        after.agenda@[0] == (Task::Parse { target: BarTarget::Tab(before.key()) }),
        after.agenda@[1] == Task::LoadRows,
        after.agenda@[after.agenda@.len() - before.agenda@.len() - 1] == Task::ResetSelection,
        after.input_mode == before.input_mode || after.input_mode == InputMode::FuzzySearch
            && after.here().fuzzy_search_active,
        after.lists == before.lists,
        after.selected_index == before.selected_index,
{
    reveal(SearchStates::of);
    reveal(SearchStates::with);
}

/// Jumping to a query lands on the first row of the Transactions tab, whose bar then holds
/// the query with the cursor behind it and is parsed before its rows are loaded. A fuzzy
/// search there is over, and the tab that was left keeps its row.
pub proof fn a_jump_lands_on_the_transactions(before: App, query: Seq<char>, after: App)
    requires
        before.jumped(query, after),
    ensures
        after.current_tab == Tab::Transactions,
        after.input_mode == InputMode::Normal,
        after.selected_index == 0,
        after.here().search_bar.text() == query,
        after.here().search_bar.at() == query.len(),
        after.here().db_search_active,
        !after.here().fuzzy_search_active,
        after.agenda@.len() >= 2 + before.agenda@.len(),
        after.agenda@[0] == (Task::Parse { target: BarTarget::Tab((Tab::Transactions, None)) }),
        after.agenda@[1] == Task::LoadRows,
        before.current_tab != Tab::Transactions ==> after.search.of(before.key())
            == (TabSearchState {
            selected_index: before.selected_index,
            editing_db_search: before.input_mode == InputMode::DbSearch,
            editing_fuzzy_search: before.input_mode == InputMode::FuzzySearch,
            ..before.here()
        }),
{
    reveal(SearchStates::of);
    reveal(SearchStates::with);
}

} // verus!
