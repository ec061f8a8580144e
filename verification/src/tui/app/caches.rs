//! Construction, loads and the caches that rendering and filtering read.

use std::collections::HashMap;

use vstd::prelude::*;
use vstd::std_specs::hash::*;
use vstd::std_specs::iter::IteratorSpec;
use vstd::string::*;

use super::search_state::SearchStates;
use super::tabs::{key_name, reloaded, refiltered, tab_title, Tab, TabLists, TabRows, TodoSubTab};
use super::tasks::{
    cache_tasks, caches, refresh, refresh_tasks, reload, reload_tasks, BackgroundJob, Task,
};
use super::{
    failure, failure_message, filled, keyed, says, scheduled, tx_id, App, CategoryTarget,
    InputMode,
};
use crate::find::{first_index, lemma_first_index_none, lemma_first_index_some};
use crate::fuzzy::FuzzyMatcher;
use crate::model::{
    Account, AccountWithBank, Bank, Category, Transaction, TransactionWithEnrichment, Transfer,
    TransferWithTransactions,
};

verus! {

broadcast use group_hash_axioms;

/// The transactions of AI reviews.
pub open spec fn reviewed(reviews: Seq<TransactionWithEnrichment>) -> Seq<Transaction> {
    reviews.map_values(|r: TransactionWithEnrichment| r.transaction)
}

/// Both sides of each transfer, in order.
pub open spec fn both_sides(transfers: Seq<TransferWithTransactions>) -> Seq<Transaction>
    decreases transfers.len(),
{
    if transfers.len() == 0 {
        Seq::empty()
    } else {
        both_sides(transfers.drop_last()).push(transfers.last().from_transaction).push(
            transfers.last().to_transaction,
        )
    }
}

/// Every transaction the lists hold, by id. Where several lists hold one, the
/// Transactions tab's copy counts, then the first of the others.
pub open spec fn transactions_of(lists: TabLists) -> Map<i64, Transaction> {
    let id = |tx: Transaction| tx_id(tx);
    filled(
        filled(
            filled(
                keyed(Map::empty(), lists.transactions.all(), id),
                lists.uncategorised.all(),
                id,
            ),
            reviewed(lists.ai_reviews.all()),
            id,
        ),
        both_sides(lists.linked_transfers.all()),
        id,
    )
}

/// The ids among `ids` that are neither known nor listed before, in order.
pub open spec fn unknown_ids(known: Set<i64>, ids: Seq<i64>) -> Seq<i64>
    decreases ids.len(),
{
    if ids.len() == 0 {
        Seq::empty()
    } else {
        let before = unknown_ids(known, ids.drop_last());
        if known.contains(ids.last()) || before.contains(ids.last()) {
            before
        } else {
            before.push(ids.last())
        }
    }
}

/// The transactions that transfers name, in order.
pub open spec fn named_ids(transfers: Seq<Transfer>) -> Seq<i64>
    decreases transfers.len(),
{
    if transfers.len() == 0 {
        Seq::empty()
    } else {
        named_ids(transfers.drop_last()).push(transfers.last().from_transaction_id).push(
            transfers.last().to_transaction_id,
        )
    }
}

/// Rows with their ids, over `m`.
pub open spec fn inserted(m: Map<i64, Transaction>, rows: Seq<(i64, Transaction)>) -> Map<
    i64,
    Transaction,
>
    decreases rows.len(),
{
    if rows.len() == 0 {
        m
    } else {
        inserted(m, rows.drop_last()).insert(rows.last().0, rows.last().1)
    }
}

fn insert_all(m: &mut HashMap<i64, Transaction>, rows: &[Transaction])
    ensures
        final(m)@ == keyed(old(m)@, rows@, |tx: Transaction| tx_id(tx)),
{
    let ghost id = |tx: Transaction| tx_id(tx);
    let mut i: usize = 0;
    assert(rows@.take(0) =~= Seq::empty());
    while i < rows.len()
        invariant
            i <= rows@.len(),
            id == (|tx: Transaction| tx_id(tx)),
            m@ == keyed(old(m)@, rows@.take(i as int), id),
        decreases rows@.len() - i,
    {
        assert(rows@.take(i + 1).drop_last() =~= rows@.take(i as int));
        m.insert(rows[i].id, rows[i].clone());
        i += 1;
    }
    assert(rows@.take(i as int) =~= rows@);
}

fn insert_new(m: &mut HashMap<i64, Transaction>, tx: &Transaction)
    ensures
        final(m)@ == if old(m)@.contains_key(tx.id) {
            old(m)@
        } else {
            old(m)@.insert(tx.id, *tx)
        },
{
    if !m.contains_key(&tx.id) {
        m.insert(tx.id, tx.clone());
    }
}

/// The cache of every loaded transaction.
fn index_transactions(lists: &TabLists) -> (m: HashMap<i64, Transaction>)
    ensures
        m@ == transactions_of(*lists),
{
    let ghost id = |tx: Transaction| tx_id(tx);
    let mut m: HashMap<i64, Transaction> = HashMap::new();
    insert_all(&mut m, lists.transactions.items());
    let ghost m0 = m@;
    let rows = lists.uncategorised.items();
    let mut i: usize = 0;
    assert(rows@.take(0) =~= Seq::empty());
    while i < rows.len()
        invariant
            i <= rows@.len(),
            id == (|tx: Transaction| tx_id(tx)),
            m@ == filled(m0, rows@.take(i as int), id),
        decreases rows@.len() - i,
    {
        assert(rows@.take(i + 1).drop_last() =~= rows@.take(i as int));
        insert_new(&mut m, &rows[i]);
        i += 1;
    }
    assert(rows@.take(i as int) =~= rows@);
    let ghost m1 = m@;
    let reviews = lists.ai_reviews.items();
    let mut j: usize = 0;
    assert(reviewed(reviews@).take(0) =~= Seq::empty());
    while j < reviews.len()
        invariant
            j <= reviews@.len(),
            id == (|tx: Transaction| tx_id(tx)),
            m@ == filled(m1, reviewed(reviews@).take(j as int), id),
        decreases reviews@.len() - j,
    {
        assert(reviewed(reviews@).take(j + 1).drop_last() =~= reviewed(reviews@).take(j as int));
        insert_new(&mut m, &reviews[j].transaction);
        j += 1;
    }
    assert(reviewed(reviews@).take(j as int) =~= reviewed(reviews@));
    let ghost m2 = m@;
    let linked = lists.linked_transfers.items();
    let mut k: usize = 0;
    assert(linked@.take(0) =~= Seq::empty());
    while k < linked.len()
        invariant
            k <= linked@.len(),
            id == (|tx: Transaction| tx_id(tx)),
            m@ == filled(m2, both_sides(linked@.take(k as int)), id),
        decreases linked@.len() - k,
    {
        let ghost sides = both_sides(linked@.take(k as int));
        let ghost one = sides.push(linked@[k as int].from_transaction);
        let ghost two = one.push(linked@[k as int].to_transaction);
        proof {
            assert(linked@.take(k + 1).drop_last() =~= linked@.take(k as int));
            assert(two.drop_last() =~= one);
            assert(one.drop_last() =~= sides);
            assert(both_sides(linked@.take(k + 1)) == two);
        }
        insert_new(&mut m, &linked[k].from_transaction);
        assert(m@ == filled(m2, one, id));
        insert_new(&mut m, &linked[k].to_transaction);
        assert(m@ == filled(m2, two, id));
        k += 1;
    }
    assert(linked@.take(k as int) =~= linked@);
    m
}

/// What a load gives, or nothing where it failed.
pub open spec fn loaded<T>(result: Result<Vec<T>, String>) -> Seq<T> {
    match result {
        Ok(rows) => rows@,
        Err(_) => Seq::empty(),
    }
}

/// The error shown after a load: a failure is shown, a success leaves what was.
pub open spec fn shown_after<T>(
    before: Option<String>,
    after: Option<String>,
    what: Seq<char>,
    result: Result<T, String>,
) -> bool {
    match result {
        Ok(_) => after == before,
        Err(e) => says(after, failure(what, e@)),
    }
}

impl App {
    /// The application as it opens, but for its lists: on the first tab, with
    /// nothing open, asked or searched for, and the caches still to be loaded.
    pub open spec fn opened(
        self,
        bank_list: Seq<Bank>,
        account_list: Seq<Account>,
        refreshing: bool,
    ) -> bool {
        &&& self.banks@ == keyed(Map::empty(), bank_list, |b: Bank| b.id)
        &&& self.accounts@ == keyed(Map::empty(), account_list, |a: Account| a.id)
        &&& self.current_tab == Tab::Todo
        &&& self.todo_subtab == TodoSubTab::Uncategorised
        &&& self.selected_index == 0
        &&& self.input_mode == InputMode::Normal
        &&& self.active_job == if refreshing {
            Some(BackgroundJob::Refresh)
        } else {
            None
        }
        &&& !self.should_quit
        &&& !self.keybind_help_open
        &&& self.hints_visible
        &&& !self.view_details && !self.show_sum
        &&& !self.show_category_transactions && self.category_transactions@.len() == 0
        &&& !self.show_account_transactions && self.account_transactions@.len() == 0
        &&& self.similarity_stale
        &&& self.error_message is None
        &&& self.confirm_message is None && self.confirm_action is None
        &&& self.status is None && self.classify_report is None && self.clock == 0
        &&& self.bulk_apply is None && self.apply_filters_preview is None
        &&& self.note_editor is None && self.tag_editor is None
        &&& self.text_prompt is None && self.filter_edit is None
        &&& self.pending_transfer_tx is None && self.transfer_candidates@.len() == 0
        &&& self.category_input@.len() == 0 && self.category_suggestions@.len() == 0
        &&& self.category_selected == 0 && self.category_target == CategoryTarget::Transaction
        &&& self.tx_by_id@ == Map::<i64, Transaction>::empty()
        &&& self.category_by_tx_id@ == Map::<i64, String>::empty()
        &&& self.transfer_by_tx_id@ == Map::<i64, Transfer>::empty()
        &&& self.tags_by_tx_id@ == Map::<i64, Vec<String>>::empty()
        &&& self.note_by_tx_id@ == Map::<i64, String>::empty()
        &&& self.tag_options@.len() == 0
        &&& self.category_tx_count@ == Map::<i64, usize>::empty()
        &&& self.account_tx_count@ == Map::<i64, usize>::empty()
        &&& forall|key: (Tab, Option<TodoSubTab>)| (#[trigger] self.search.of(key)).is_fresh()
        &&& self.agenda@ == cache_tasks() + seq![
            Task::LoadCategoryCounts,
            Task::LoadAccountCounts,
        ]
    }

    /// The application over freshly loaded lists. `refreshing` says that a
    /// refresh is already under way.
    pub fn new_with_refreshing(
        lists: TabLists,
        bank_list: Vec<Bank>,
        account_list: Vec<Account>,
        refreshing: bool,
    ) -> (app: Self)
        ensures
            app.lists == lists,
            app.opened(bank_list@, account_list@, refreshing),
    {
        let mut banks: HashMap<i64, Bank> = HashMap::new();
        let mut i: usize = 0;
        let ghost bank_id = |b: Bank| b.id;
        assert(bank_list@.take(0) =~= Seq::empty());
        while i < bank_list.len()
            invariant
                i <= bank_list@.len(),
                bank_id == (|b: Bank| b.id),
                banks@ == keyed(Map::empty(), bank_list@.take(i as int), bank_id),
            decreases bank_list@.len() - i,
        {
            assert(bank_list@.take(i + 1).drop_last() =~= bank_list@.take(i as int));
            banks.insert(bank_list[i].id, bank_list[i].clone());
            i += 1;
        }
        assert(bank_list@.take(i as int) =~= bank_list@);
        let mut accounts: HashMap<i64, Account> = HashMap::new();
        let mut j: usize = 0;
        let ghost account_id = |a: Account| a.id;
        assert(account_list@.take(0) =~= Seq::empty());
        while j < account_list.len()
            invariant
                j <= account_list@.len(),
                account_id == (|a: Account| a.id),
                accounts@ == keyed(Map::empty(), account_list@.take(j as int), account_id),
            decreases account_list@.len() - j,
        {
            assert(account_list@.take(j + 1).drop_last() =~= account_list@.take(j as int));
            accounts.insert(account_list[j].id, account_list[j].clone());
            j += 1;
        }
        assert(account_list@.take(j as int) =~= account_list@);
        let mut agenda = caches();
        agenda.push(Task::LoadCategoryCounts);
        agenda.push(Task::LoadAccountCounts);
        assert(agenda@ =~= cache_tasks() + seq![Task::LoadCategoryCounts, Task::LoadAccountCounts]);
        App {
            current_tab: Tab::Todo,
            todo_subtab: TodoSubTab::Uncategorised,
            lists,
            selected_index: 0,
            input_mode: InputMode::Normal,
            similarity_stale: true,
            bulk_apply: None,
            apply_filters_preview: None,
            should_quit: false,
            active_job: if refreshing {
                Some(BackgroundJob::Refresh)
            } else {
                None
            },
            classify_report: None,
            keybind_help_open: false,
            hints_visible: true,
            view_details: false,
            show_sum: false,
            show_category_transactions: false,
            category_transactions: Vec::new(),
            show_account_transactions: false,
            account_transactions: Vec::new(),
            category_input: String::new(),
            category_suggestions: Vec::new(),
            category_selected: 0,
            category_target: CategoryTarget::Transaction,
            pending_transfer_tx: None,
            transfer_candidates: Vec::new(),
            error_message: None,
            banks,
            accounts,
            fuzzy_matcher: FuzzyMatcher::new(),
            tx_by_id: HashMap::new(),
            category_by_tx_id: HashMap::new(),
            transfer_by_tx_id: HashMap::new(),
            tags_by_tx_id: HashMap::new(),
            note_by_tx_id: HashMap::new(),
            tag_options: Vec::new(),
            category_tx_count: HashMap::new(),
            account_tx_count: HashMap::new(),
            note_editor: None,
            tag_editor: None,
            text_prompt: None,
            filter_edit: None,
            confirm_message: None,
            confirm_action: None,
            status: None,
            clock: 0,
            search: SearchStates::new(),
            agenda,
        }
    }

    /// The application over freshly loaded lists.
    pub fn new(lists: TabLists, bank_list: Vec<Bank>, account_list: Vec<Account>) -> (app: Self)
        ensures
            app.lists == lists,
            app.opened(bank_list@, account_list@, false),
    {
        Self::new_with_refreshing(lists, bank_list, account_list, false)
    }

    // ==================== Data Loading ====================

    /// Reload only the current tab's data based on its search query.
    pub fn reload_current_tab(&mut self)
        ensures
            *final(self) == (App { agenda: final(self).agenda, ..*old(self) }),
            scheduled(*old(self), *final(self), reload_tasks()),
    {
        let tasks = reload();
        self.schedule(tasks);
    }

    /// Reload data after a mutation (categorisation, transfers) — both tx
    /// caches and category counts may have changed.
    pub fn refresh_data(&mut self)
        ensures
            *final(self) == (App {
                similarity_stale: true,
                agenda: final(self).agenda,
                ..*old(self)
            }),
            scheduled(*old(self), *final(self), refresh_tasks()),
    {
        self.similarity_stale = true;
        let tasks = refresh();
        self.schedule(tasks);
    }

    /// The state after [`Self::on_rows`].
    pub open spec fn on_rows_leads_to(self, result: Result<TabRows, String>, next: App) -> bool {
        &&& next == (App {
            lists: next.lists,
            error_message: next.error_message,
            ..self
        })
        &&& match result {
            Ok(rows) => reloaded(self.lists, rows, next.lists) && next.error_message is None,
            Err(e) => next.lists == self.lists && says(
                next.error_message,
                "Failed to load "@ + key_name(self.key()) + ": "@ + e@,
            ),
        }
    }

    /// The rows of the current tab. On failure the previous items stay visible
    /// alongside the error popup; a successful load clears any stale error:
    /// fixing the query, leaving search, or switching tabs all reload through
    /// here, so the error popup dismisses itself once the underlying problem is
    /// gone.
    pub fn on_rows(&mut self, result: Result<TabRows, String>)
        ensures
            old(self).on_rows_leads_to(result, *final(self)),
    {
        match result {
            Ok(rows) => {
                self.lists.reload(rows);
                self.error_message = None;
            },
            Err(e) => {
                let mut m = "Failed to load ".to_owned();
                m.append(tab_title(self.current_tab_key()));
                m.append(": ");
                m.append(&e);
                self.error_message = Some(m);
            },
        }
    }

    /// Show why a load failed.
    fn show_failure(&mut self, what: &str, error: &String)
        ensures
            *final(self) == (App { error_message: final(self).error_message, ..*old(self) }),
            says(final(self).error_message, failure(what@, error@)),
    {
        self.error_message = Some(failure_message(what, error));
    }

    /// The rows of a load, or none with its failure shown. Used for mid-flight
    /// loads where a stack trace would lose the user their typed input.
    pub(crate) fn load_or_show<T>(&mut self, what: &str, result: Result<Vec<T>, String>) -> (rows:
        Vec<T>)
        ensures
            rows@ == loaded(result),
            *final(self) == (App { error_message: final(self).error_message, ..*old(self) }),
            shown_after(old(self).error_message, final(self).error_message, what@, result),
    {
        match result {
            Ok(rows) => rows,
            Err(e) => {
                self.show_failure(what, &e);
                Vec::new()
            },
        }
    }

    /// The state after [`Self::on_categories`].
    pub open spec fn on_categories_leads_to(
        self,
        result: Result<Vec<Category>, String>,
        next: App,
    ) -> bool {
        &&& next == (App {
            lists: next.lists,
            error_message: next.error_message,
            ..self
        })
        &&& next.lists == (TabLists {
            categories: next.lists.categories,
            ..self.lists
        })
        &&& super::tabs::shows_all(next.lists.categories, loaded(result))
        &&& shown_after(
            self.error_message,
            next.error_message,
            "load categories"@,
            result,
        )
    }

    /// All categories.
    pub fn on_categories(&mut self, result: Result<Vec<Category>, String>)
        ensures
            old(self).on_categories_leads_to(result, *final(self)),
    {
        let rows = self.load_or_show("load categories", result);
        self.lists.categories.set_items(rows);
    }

    /// The state after [`Self::on_accounts`].
    pub open spec fn on_accounts_leads_to(
        self,
        result: Result<Vec<AccountWithBank>, String>,
        next: App,
    ) -> bool {
        &&& next == (App {
            lists: next.lists,
            error_message: next.error_message,
            ..self
        })
        &&& next.lists == (TabLists {
            accounts: next.lists.accounts,
            ..self.lists
        })
        &&& super::tabs::shows_all(next.lists.accounts, loaded(result))
        &&& shown_after(
            self.error_message,
            next.error_message,
            "load accounts"@,
            result,
        )
    }

    /// All live accounts.
    pub fn on_accounts(&mut self, result: Result<Vec<AccountWithBank>, String>)
        ensures
            old(self).on_accounts_leads_to(result, *final(self)),
    {
        let rows = self.load_or_show("load accounts", result);
        self.lists.accounts.set_items(rows);
    }

    /// The state after [`Self::apply_fuzzy_filter`].
    pub open spec fn apply_fuzzy_filter_leads_to(self, next: App) -> bool {
        &&& next == (App { lists: next.lists, ..self })
        &&& refiltered(
            self.lists,
            self.key(),
            self.search.of(self.key()).search_bar.text(),
            self.search.of(self.key()).fuzzy_pattern@,
            self.tx_by_id@,
            next.lists,
        )
    }

    /// Apply fuzzy filter on top of loaded data for current tab only
    pub fn apply_fuzzy_filter(&mut self)
        ensures
            old(self).apply_fuzzy_filter_leads_to(*final(self)),
    {
        let key = self.current_tab_key();
        let state = self.search.get(key);
        let db_query = state.search_bar.value().to_owned();
        let pattern = state.fuzzy_pattern.clone();
        self.lists.apply_fuzzy(key, &db_query, &pattern, &self.fuzzy_matcher, &self.tx_by_id);
    }

    // ==================== Transaction caches ====================

    /// The state after [`Self::missing_review_ids`].
    pub open spec fn missing_review_ids_leads_to(self, ids: Vec<i64>, next: App) -> bool {
        &&& next == (App { tx_by_id: next.tx_by_id, ..self })
        &&& next.tx_by_id@ == transactions_of(self.lists)
        &&& ids@ == unknown_ids(
            transactions_of(self.lists).dom(),
            named_ids(self.lists.transfer_reviews.all()),
        )
    }

    /// Cache every transaction the lists hold, and name those that pending
    /// transfer reviews refer to but no list holds.
    pub fn missing_review_ids(&mut self) -> (ids: Vec<i64>)
        ensures
            old(self).missing_review_ids_leads_to(ids, *final(self)),
    {
        self.tx_by_id = index_transactions(&self.lists);
        let reviews = self.lists.transfer_reviews.items();
        let ghost known = self.tx_by_id@.dom();
        let mut ids: Vec<i64> = Vec::new();
        let mut i: usize = 0;
        assert(reviews@.take(0) =~= Seq::empty());
        while i < reviews.len()
            invariant
                i <= reviews@.len(),
                known == self.tx_by_id@.dom(),
                ids@ == unknown_ids(known, named_ids(reviews@.take(i as int))),
            decreases reviews@.len() - i,
        {
            let ghost named = named_ids(reviews@.take(i as int));
            let ghost one = named.push(reviews@[i as int].from_transaction_id);
            let ghost two = one.push(reviews@[i as int].to_transaction_id);
            proof {
                assert(reviews@.take(i + 1).drop_last() =~= reviews@.take(i as int));
                assert(one.drop_last() =~= named);
                assert(two.drop_last() =~= one);
                assert(named_ids(reviews@.take(i + 1)) == two);
            }
            let from: i64 = reviews[i].from_transaction_id;
            if !self.tx_by_id.contains_key(&from) && !holds(&ids, from) {
                ids.push(from);
            }
            assert(ids@ == unknown_ids(known, one));
            let to: i64 = reviews[i].to_transaction_id;
            if !self.tx_by_id.contains_key(&to) && !holds(&ids, to) {
                ids.push(to);
            }
            assert(ids@ == unknown_ids(known, two));
            i += 1;
        }
        assert(reviews@.take(i as int) =~= reviews@);
        ids
    }

    /// The state after [`Self::on_review_transactions`].
    pub open spec fn on_review_transactions_leads_to(
        self,
        result: Result<Vec<(i64, Transaction)>, String>,
        next: App,
    ) -> bool {
        &&& next == (App {
            tx_by_id: next.tx_by_id,
            error_message: next.error_message,
            ..self
        })
        &&& next.tx_by_id@ == inserted(self.tx_by_id@, loaded(result))
        &&& shown_after(
            self.error_message,
            next.error_message,
            "load transfer-review transactions"@,
            result,
        )
    }

    /// The transactions that no list held.
    pub fn on_review_transactions(&mut self, result: Result<Vec<(i64, Transaction)>, String>)
        ensures
            old(self).on_review_transactions_leads_to(result, *final(self)),
    {
        let rows = self.load_or_show("load transfer-review transactions", result);
        let ghost mid = *self;
        let mut i: usize = 0;
        assert(rows@.take(0) =~= Seq::empty());
        while i < rows.len()
            invariant
                i <= rows@.len(),
                *self == (App { tx_by_id: self.tx_by_id, ..mid }),
                self.tx_by_id@ == inserted(mid.tx_by_id@, rows@.take(i as int)),
            decreases rows@.len() - i,
        {
            assert(rows@.take(i + 1).drop_last() =~= rows@.take(i as int));
            self.tx_by_id.insert(rows[i].0, rows[i].1.clone());
            i += 1;
        }
        assert(rows@.take(i as int) =~= rows@);
    }

    /// The ids of the Transactions tab's rows, whose categories are cached.
    pub fn listed_ids(&self) -> (ids: Vec<i64>)
        ensures
            ids@ == self.lists.transactions.all().map_values(|tx: Transaction| tx.id),
    {
        let rows = self.lists.transactions.items();
        let ghost all = rows@.map_values(|tx: Transaction| tx.id);
        let mut ids: Vec<i64> = Vec::new();
        let mut i: usize = 0;
        while i < rows.len()
            invariant
                i <= rows@.len(),
                all == rows@.map_values(|tx: Transaction| tx.id),
                ids@ == all.take(i as int),
            decreases rows@.len() - i,
        {
            ids.push(rows[i].id);
            assert(ids@ =~= all.take(i + 1));
            i += 1;
        }
        assert(all.take(i as int) =~= all);
        ids
    }

    /// The ids of every cached transaction, whose transfers, tags and notes are
    /// cached.
    pub fn loaded_ids(&self) -> (ids: Vec<i64>)
        ensures
            ids@.to_set() == self.tx_by_id@.dom(),
            ids@.no_duplicates(),
    {
        let mut ids: Vec<i64> = Vec::new();
        let keys = self.tx_by_id.keys();
        let ghost all = spec_keys_iter(&self.tx_by_id).remaining().unref();
        for id in it: keys
            invariant
                it.seq().unref() == all,
                ids@ == all.take(it.index()),
        {
            assert(all.take(it.index() + 1) =~= all.take(it.index()).push(*id));
            ids.push(*id);
        }
        proof {
            assert(all.take(all.len() as int) =~= all);
            let refs = spec_keys_iter(&self.tx_by_id).remaining();
            assert forall|i: int, j: int|
                0 <= i < all.len() && 0 <= j < all.len() && i != j implies all[i] != all[j] by {
                assert(refs[i] != refs[j]);
            }
        }
        ids
    }
}

/// What a keyed load gives, or nothing where it failed.
pub open spec fn loaded_map<V>(result: Result<HashMap<i64, V>, String>) -> Map<i64, V> {
    match result {
        Ok(rows) => rows@,
        Err(_) => Map::empty(),
    }
}

/// What a cache holds for an id.
pub open spec fn lookup<V>(m: Map<i64, V>, id: i64) -> Option<V> {
    if m.contains_key(id) {
        Some(m[id])
    } else {
        None
    }
}

impl App {
    fn load_map_or_show<V>(&mut self, what: &str, result: Result<HashMap<i64, V>, String>) -> (rows:
        HashMap<i64, V>)
        ensures
            rows@ == loaded_map(result),
            *final(self) == (App { error_message: final(self).error_message, ..*old(self) }),
            shown_after(old(self).error_message, final(self).error_message, what@, result),
    {
        match result {
            Ok(rows) => rows,
            Err(e) => {
                self.show_failure(what, &e);
                HashMap::new()
            },
        }
    }

    /// The state after [`Self::on_tx_categories`].
    pub open spec fn on_tx_categories_leads_to(
        self,
        result: Result<HashMap<i64, String>, String>,
        next: App,
    ) -> bool {
        &&& next == (App {
            category_by_tx_id: next.category_by_tx_id,
            error_message: next.error_message,
            ..self
        })
        &&& next.category_by_tx_id@ == loaded_map(result)
        &&& shown_after(
            self.error_message,
            next.error_message,
            "load transaction categories"@,
            result,
        )
    }

    /// Category paths of the Transactions tab's rows.
    pub fn on_tx_categories(&mut self, result: Result<HashMap<i64, String>, String>)
        ensures
            old(self).on_tx_categories_leads_to(result, *final(self)),
    {
        self.category_by_tx_id = self.load_map_or_show("load transaction categories", result);
    }

    /// The state after [`Self::on_tx_transfers`].
    pub open spec fn on_tx_transfers_leads_to(
        self,
        result: Result<HashMap<i64, Transfer>, String>,
        next: App,
    ) -> bool {
        &&& next == (App {
            transfer_by_tx_id: next.transfer_by_tx_id,
            error_message: next.error_message,
            ..self
        })
        &&& next.transfer_by_tx_id@ == loaded_map(result)
        &&& shown_after(
            self.error_message,
            next.error_message,
            "load transaction transfers"@,
            result,
        )
    }

    /// Transfers of every loaded transaction.
    pub fn on_tx_transfers(&mut self, result: Result<HashMap<i64, Transfer>, String>)
        ensures
            old(self).on_tx_transfers_leads_to(result, *final(self)),
    {
        self.transfer_by_tx_id = self.load_map_or_show("load transaction transfers", result);
    }

    /// The state after [`Self::on_tx_tags`].
    pub open spec fn on_tx_tags_leads_to(
        self,
        result: Result<HashMap<i64, Vec<String>>, String>,
        next: App,
    ) -> bool {
        &&& next == (App {
            tags_by_tx_id: next.tags_by_tx_id,
            error_message: next.error_message,
            ..self
        })
        &&& next.tags_by_tx_id@ == loaded_map(result)
        &&& shown_after(
            self.error_message,
            next.error_message,
            "load transaction tags"@,
            result,
        )
    }

    /// Tags of every loaded transaction.
    pub fn on_tx_tags(&mut self, result: Result<HashMap<i64, Vec<String>>, String>)
        ensures
            old(self).on_tx_tags_leads_to(result, *final(self)),
    {
        self.tags_by_tx_id = self.load_map_or_show("load transaction tags", result);
    }

    /// The state after [`Self::on_tx_notes`].
    pub open spec fn on_tx_notes_leads_to(
        self,
        result: Result<HashMap<i64, String>, String>,
        next: App,
    ) -> bool {
        &&& next == (App {
            note_by_tx_id: next.note_by_tx_id,
            error_message: next.error_message,
            ..self
        })
        &&& next.note_by_tx_id@ == loaded_map(result)
        &&& shown_after(
            self.error_message,
            next.error_message,
            "load transaction notes"@,
            result,
        )
    }

    /// Notes of every loaded transaction.
    pub fn on_tx_notes(&mut self, result: Result<HashMap<i64, String>, String>)
        ensures
            old(self).on_tx_notes_leads_to(result, *final(self)),
    {
        self.note_by_tx_id = self.load_map_or_show("load transaction notes", result);
    }

    /// The state after [`Self::on_category_counts`].
    pub open spec fn on_category_counts_leads_to(
        self,
        result: Result<HashMap<i64, usize>, String>,
        next: App,
    ) -> bool {
        &&& next == (App {
            category_tx_count: next.category_tx_count,
            error_message: next.error_message,
            ..self
        })
        &&& next.category_tx_count@ == loaded_map(result)
        &&& shown_after(
            self.error_message,
            next.error_message,
            "load category counts"@,
            result,
        )
    }

    /// Transactions per category.
    pub fn on_category_counts(&mut self, result: Result<HashMap<i64, usize>, String>)
        ensures
            old(self).on_category_counts_leads_to(result, *final(self)),
    {
        self.category_tx_count = self.load_map_or_show("load category counts", result);
    }

    /// The state after [`Self::on_account_counts`].
    pub open spec fn on_account_counts_leads_to(
        self,
        result: Result<HashMap<i64, usize>, String>,
        next: App,
    ) -> bool {
        &&& next == (App {
            account_tx_count: next.account_tx_count,
            error_message: next.error_message,
            ..self
        })
        &&& next.account_tx_count@ == loaded_map(result)
        &&& shown_after(
            self.error_message,
            next.error_message,
            "load account counts"@,
            result,
        )
    }

    /// Transactions per account.
    pub fn on_account_counts(&mut self, result: Result<HashMap<i64, usize>, String>)
        ensures
            old(self).on_account_counts_leads_to(result, *final(self)),
    {
        self.account_tx_count = self.load_map_or_show("load account counts", result);
    }

    /// The state after [`Self::on_tag_options`].
    pub open spec fn on_tag_options_leads_to(
        self,
        result: Result<Vec<String>, String>,
        next: App,
    ) -> bool {
        &&& next == (App {
            tag_options: next.tag_options,
            error_message: next.error_message,
            ..self
        })
        &&& next.tag_options@ == loaded(result)
        &&& shown_after(self.error_message, next.error_message, "load tags"@, result)
    }

    /// Every known tag, so that `tag:` autocomplete reflects one that was just
    /// created or dropped.
    pub fn on_tag_options(&mut self, result: Result<Vec<String>, String>)
        ensures
            old(self).on_tag_options_leads_to(result, *final(self)),
    {
        self.tag_options = self.load_or_show("load tags", result);
    }

    pub fn get_cached_transaction(&self, id: i64) -> (tx: Option<&Transaction>)
        ensures
            tx == match lookup(self.tx_by_id@, id) {
                Some(t) => Some(&t),
                None => None,
            },
    {
        self.tx_by_id.get(&id)
    }

    pub fn get_cached_category(&self, tx_id: i64) -> (path: Option<&String>)
        ensures
            path == match lookup(self.category_by_tx_id@, tx_id) {
                Some(p) => Some(&p),
                None => None,
            },
    {
        self.category_by_tx_id.get(&tx_id)
    }

    /// A transaction's tags; none where it has none.
    pub fn get_cached_tags(&self, tx_id: i64) -> (tags: &[String])
        ensures
            tags@ == match lookup(self.tags_by_tx_id@, tx_id) {
                Some(t) => t@,
                None => Seq::empty(),
            },
    {
        match self.tags_by_tx_id.get(&tx_id) {
            Some(tags) => tags.as_slice(),
            None => &[],
        }
    }

    pub fn get_cached_note(&self, tx_id: i64) -> (note: Option<&String>)
        ensures
            note == match lookup(self.note_by_tx_id@, tx_id) {
                Some(n) => Some(&n),
                None => None,
            },
    {
        self.note_by_tx_id.get(&tx_id)
    }

    pub fn get_cached_transfer(&self, tx_id: i64) -> (transfer: Option<&Transfer>)
        ensures
            transfer == match lookup(self.transfer_by_tx_id@, tx_id) {
                Some(t) => Some(&t),
                None => None,
            },
    {
        self.transfer_by_tx_id.get(&tx_id)
    }

    pub fn tag_options(&self) -> (tags: &[String])
        ensures
            tags@ == self.tag_options@,
    {
        self.tag_options.as_slice()
    }

    pub fn category_transaction_count(&self, category_id: i64) -> (count: usize)
        ensures
            count == match lookup(self.category_tx_count@, category_id) {
                Some(n) => n,
                None => 0,
            },
    {
        match self.category_tx_count.get(&category_id) {
            Some(n) => *n,
            None => 0,
        }
    }

    pub fn account_transaction_count(&self, account_id: i64) -> (count: usize)
        ensures
            count == match lookup(self.account_tx_count@, account_id) {
                Some(n) => n,
                None => 0,
            },
    {
        match self.account_tx_count.get(&account_id) {
            Some(n) => *n,
            None => 0,
        }
    }

    /// The path of the first category with the id.
    pub open spec fn path_of(self, category_id: i64) -> Option<Seq<char>> {
        let all = self.lists.categories.all();
        match first_index(all, |c: Category| c.id == category_id) {
            Some(i) => Some(all[i].path@),
            None => None,
        }
    }

    pub fn category_path(&self, category_id: i64) -> (path: Option<&String>)
        ensures
            match path {
                Some(p) => self.path_of(category_id) == Some(p@),
                None => self.path_of(category_id) is None,
            },
    {
        let rows = self.lists.categories.items();
        let ghost wanted = |c: Category| c.id == category_id;
        let mut i: usize = 0;
        while i < rows.len()
            invariant
                i <= rows@.len(),
                rows@ == self.lists.categories.all(),
                wanted == (|c: Category| c.id == category_id),
                forall|j: int| 0 <= j < i ==> !wanted(#[trigger] rows@[j]),
            decreases rows@.len() - i,
        {
            if rows[i].id == category_id {
                proof {
                    lemma_first_index_some(rows@, wanted, i as int);
                }
                return Some(&rows[i].path);
            }
            i += 1;
        }
        proof {
            lemma_first_index_none(rows@, wanted);
        }
        None
    }

    pub fn bank_name(&self, bank_id: i64) -> (name: &str)
        ensures
            name@ == match lookup(self.banks@, bank_id) {
                Some(b) => b.name@,
                None => "Unknown"@,
            },
    {
        match self.banks.get(&bank_id) {
            Some(b) => &b.name,
            None => "Unknown",
        }
    }

    pub fn account_name(&self, account_id: i64) -> (name: &str)
        ensures
            name@ == match lookup(self.accounts@, account_id) {
                Some(a) => a.name@,
                None => "Unknown"@,
            },
    {
        match self.accounts.get(&account_id) {
            Some(a) => &a.name,
            None => "Unknown",
        }
    }
}

pub(crate) fn copy_strings(strings: &[String]) -> (copy: Vec<String>)
    ensures
        copy@ == strings@,
{
    let mut copy: Vec<String> = Vec::new();
    let mut i: usize = 0;
    while i < strings.len()
        invariant
            i <= strings@.len(),
            copy@ == strings@.take(i as int),
        decreases strings@.len() - i,
    {
        copy.push(strings[i].clone());
        assert(copy@ =~= strings@.take(i + 1));
        i += 1;
    }
    assert(strings@.take(i as int) =~= strings@);
    copy
}

fn holds(ids: &Vec<i64>, id: i64) -> (yes: bool)
    ensures
        yes == ids@.contains(id),
{
    let mut i: usize = 0;
    while i < ids.len()
        invariant
            i <= ids@.len(),
            forall|j: int| 0 <= j < i ==> ids@[j] != id,
        decreases ids@.len() - i,
    {
        if ids[i] == id {
            return true;
        }
        i += 1;
    }
    false
}

} // verus!
