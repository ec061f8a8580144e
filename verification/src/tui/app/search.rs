//! The DB-search / fuzzy-search / autocomplete actions. The search bar widget
//! lives in `tui::search_bar`.

use std::collections::HashMap;

use vstd::prelude::*;
use vstd::std_specs::hash::*;
use vstd::std_specs::iter::IteratorSpec;
use vstd::string::*;

use super::search_state::{last_state_counts, put_state_is_there, TabSearchState};
use super::tabs::{refiltered, Tab, TabKey, TodoSubTab};
use super::tasks::{reload, reload_tasks, BarTarget, Task};
use super::{scheduled, App, InputMode};
use crate::model::{Account, Bank, Category};
use crate::search::{CursorContext, ParsedQuery};
use crate::tui::input::{
    display_column, edited_cursor, edited_text, InputRequest, TextInput,
};
use crate::tui::search_bar::{
    after_input, at_most, completion, filter_under_cursor, kept_selection, moved, ColonAnswer,
    KeyResult, SearchBar,
};

verus! {

broadcast use {group_hash_axioms, put_state_is_there, last_state_counts};

/// What the filters of a query can be completed with.
pub struct FilterOptions {
    /// `{bank}/{account}` of every account.
    pub accounts: Vec<String>,
    /// Every visible category path, where rows have a category.
    pub categories: Option<Vec<String>>,
}

/// `{bank}/{account}` of the accounts, in the order of their ids; an account
/// whose bank is unknown has none.
pub open spec fn account_names(
    ids: Seq<i64>,
    accounts: Map<i64, Account>,
    banks: Map<i64, Bank>,
) -> Seq<Seq<char>>
    decreases ids.len(),
{
    if ids.len() == 0 {
        Seq::empty()
    } else {
        let before = account_names(ids.drop_last(), accounts, banks);
        let account = accounts[ids.last()];
        if banks.contains_key(account.bank_id) {
            before.push(banks[account.bank_id].name@ + "/"@ + account.name@)
        } else {
            before
        }
    }
}

/// The names are those of all accounts, in some order.
pub open spec fn names_accounts(
    names: Seq<Seq<char>>,
    accounts: Map<i64, Account>,
    banks: Map<i64, Bank>,
) -> bool {
    exists|ids: Seq<i64>|
        ids.no_duplicates() && ids.to_set() == accounts.dom() && names == #[trigger] account_names(
            ids,
            accounts,
            banks,
        )
}

/// Tabs whose search takes plain text only.
pub open spec fn plain_search(key: TabKey) -> bool {
    key.0 == Tab::Categories || key.0 == Tab::Accounts || key.0 == Tab::Filters
}

/// Tabs whose rows have a category to search by.
pub open spec fn category_search(key: TabKey) -> bool {
    key.0 == Tab::Transactions || key.0 == Tab::Todo && key.1 == Some(TodoSubTab::AiReview)
}

fn account_options(accounts: &HashMap<i64, Account>, banks: &HashMap<i64, Bank>) -> (names: Vec<
    String,
>)
    ensures
        names_accounts(crate::text::views(names@), accounts@, banks@),
{
    let mut names: Vec<String> = Vec::new();
    let keys = accounts.keys();
    let ghost all = spec_keys_iter(accounts).remaining().unref();
    assert(all.take(0) =~= Seq::empty());
    assert(crate::text::views(names@) =~= account_names(all.take(0), accounts@, banks@));
    for id in it: keys
        invariant
            it.seq().unref() == all,
            all.to_set() == accounts@.dom(),
            crate::text::views(names@) == account_names(all.take(it.index()), accounts@, banks@),
    {
        let ghost upto = all.take(it.index() + 1);
        assert(upto.drop_last() =~= all.take(it.index()));
        assert(all.contains(all[it.index()]));
        assert(all.to_set().contains(*id));
        if let Some(account) = accounts.get(id) {
            if let Some(bank) = banks.get(&account.bank_id) {
                let mut name = bank.name.clone();
                name.append("/");
                name.append(&account.name);
                let ghost before = names@;
                names.push(name);
                assert(crate::text::views(names@) =~= crate::text::views(before).push(name@));
            }
        }
    }
    proof {
        assert(all.take(all.len() as int) =~= all);
        let refs = spec_keys_iter(accounts).remaining();
        assert forall|i: int, j: int|
            0 <= i < all.len() && 0 <= j < all.len() && i != j implies all[i] != all[j] by {
            assert(refs[i] != refs[j]);
        }
        assert(all.no_duplicates());
    }
    names
}

impl App {
    /// The search state of the current tab.
    pub open spec fn here(self) -> TabSearchState {
        self.search.of(self.key())
    }

    /// The application with another search state of the current tab.
    pub open spec fn with_here(self, state: TabSearchState) -> App {
        App { search: self.search.with(self.key(), state), ..self }
    }

    pub fn current_search_state(&self) -> (state: Option<&TabSearchState>)
        ensures
            state matches Some(s) && *s == self.here(),
    {
        Some(self.search.get(self.current_tab_key()))
    }

    pub(crate) fn current_search_state_mut(&mut self) -> (state: &mut TabSearchState)
        ensures
            *state == old(self).here(),
            *final(self) == old(self).with_here(*final(state)),
    {
        let key = self.current_tab_key();
        self.search.get_mut(key)
    }

    /// What the filters of a tab's query can be completed with. The category
    /// filter is omitted on tabs whose rows have no category (Uncategorised) or
    /// where the filter is meaningless (raw transfer lists); tabs of plain text
    /// have no filters.
    pub fn build_search_config(&self, key: TabKey) -> (options: Option<FilterOptions>)
        ensures
            options is None <==> plain_search(key),
            match options {
                Some(o) => {
                    &&& names_accounts(crate::text::views(o.accounts@), self.accounts@, self.banks@)
                    &&& o.categories is Some <==> category_search(key)
                    &&& o.categories matches Some(paths) ==> crate::text::views(paths@)
                        == self.lists.categories.rows().map_values(|c: Category| c.path@)
                },
                None => true,
            },
    {
        if matches!(key.0, Tab::Categories | Tab::Accounts | Tab::Filters) {
            return None;
        }
        let accounts = account_options(&self.accounts, &self.banks);
        let with_category = matches!(
            key,
            (Tab::Transactions, _) | (Tab::Todo, Some(TodoSubTab::AiReview))
        );
        let categories = if with_category {
            Some(self.category_paths())
        } else {
            None
        };
        Some(FilterOptions { accounts, categories })
    }

    fn category_paths(&self) -> (paths: Vec<String>)
        ensures
            crate::text::views(paths@) == self.lists.categories.rows().map_values(
                |c: Category| c.path@,
            ),
    {
        let rows = self.lists.categories.iter();
        let ghost all = self.lists.categories.rows().map_values(|c: Category| c.path@);
        let mut paths: Vec<String> = Vec::new();
        let mut i: usize = 0;
        while i < rows.len()
            invariant
                i <= rows@.len(),
                rows@.len() == self.lists.categories.rows().len(),
                all == self.lists.categories.rows().map_values(|c: Category| c.path@),
                forall|k: int|
                    0 <= k < rows@.len() ==> *#[trigger] rows@[k]
                        == self.lists.categories.rows()[k],
                crate::text::views(paths@) == all.take(i as int),
            decreases rows@.len() - i,
        {
            let ghost before = paths@;
            paths.push(rows[i].path.clone());
            assert(crate::text::views(paths@) =~= crate::text::views(before).push(
                all[i as int],
            ));
            assert(all.take(i + 1) =~= all.take(i as int).push(all[i as int]));
            i += 1;
        }
        assert(all.take(i as int) =~= all);
        paths
    }

    // ==================== Search bars ====================

    /// The bars on screen or behind it: one per tab, and the filter edit
    /// screen's while it is up.
    pub open spec fn bars(self) -> Seq<BarTarget> {
        let tabs = seq![
            BarTarget::Tab((Tab::Transactions, None)),
            BarTarget::Tab((Tab::Transfers, None)),
            BarTarget::Tab((Tab::Categories, None)),
            BarTarget::Tab((Tab::Accounts, None)),
            BarTarget::Tab((Tab::Filters, None)),
            BarTarget::Tab((Tab::Todo, Some(TodoSubTab::Uncategorised))),
            BarTarget::Tab((Tab::Todo, Some(TodoSubTab::AiReview))),
            BarTarget::Tab((Tab::Todo, Some(TodoSubTab::TransferReview))),
        ];
        if self.filter_edit is Some {
            tabs.push(BarTarget::FilterEdit)
        } else {
            tabs
        }
    }

    /// Every search bar, to be parsed anew when the filter options change.
    pub fn rebuild_search_configs(&self) -> (targets: Vec<BarTarget>)
        ensures
            targets@ == self.bars(),
    {
        let mut targets: Vec<BarTarget> = vec![
            BarTarget::Tab((Tab::Transactions, None)),
            BarTarget::Tab((Tab::Transfers, None)),
            BarTarget::Tab((Tab::Categories, None)),
            BarTarget::Tab((Tab::Accounts, None)),
            BarTarget::Tab((Tab::Filters, None)),
            BarTarget::Tab((Tab::Todo, Some(TodoSubTab::Uncategorised))),
            BarTarget::Tab((Tab::Todo, Some(TodoSubTab::AiReview))),
            BarTarget::Tab((Tab::Todo, Some(TodoSubTab::TransferReview))),
        ];
        if self.filter_edit.is_some() {
            targets.push(BarTarget::FilterEdit);
        }
        assert(targets@ =~= self.bars());
        targets
    }

    /// The bar at `target`.
    pub open spec fn bar_at(self, target: BarTarget) -> Option<SearchBar> {
        match target {
            BarTarget::Tab(key) => Some(self.search.of(key).search_bar),
            BarTarget::FilterEdit => match self.filter_edit {
                Some(edit) => Some(edit.search_bar),
                None => None,
            },
        }
    }

    /// The application with another bar at `target`, where there is one.
    pub open spec fn with_bar(self, target: BarTarget, bar: SearchBar) -> App {
        match target {
            BarTarget::Tab(key) => App {
                search: self.search.with(
                    key,
                    TabSearchState { search_bar: bar, ..self.search.of(key) },
                ),
                ..self
            },
            BarTarget::FilterEdit => match self.filter_edit {
                Some(edit) => App {
                    filter_edit: Some(super::FilterEditState { search_bar: bar, ..edit }),
                    ..self
                },
                None => self,
            },
        }
    }

    /// The bar at `target`, to read its text and cursor.
    pub fn search_bar(&self, target: BarTarget) -> (bar: Option<&SearchBar>)
        ensures
            match bar {
                Some(b) => self.bar_at(target) == Some(*b),
                None => self.bar_at(target) is None,
            },
    {
        match target {
            BarTarget::Tab(key) => Some(&self.search.get(key).search_bar),
            BarTarget::FilterEdit => match &self.filter_edit {
                Some(edit) => Some(&edit.search_bar),
                None => None,
            },
        }
    }

    /// The parse of a bar's text and what its cursor is in.
    pub fn on_parsed(&mut self, target: BarTarget, parsed: ParsedQuery, context: CursorContext)
        ensures
            match old(self).bar_at(target) {
                Some(was) => final(self).bar_at(target) matches Some(bar) && *final(self) == old(
                    self).with_bar(target, bar) && bar.query() == parsed && bar.in_context()
                    == context && bar.text() == was.text() && bar.at() == was.at() && bar.popup()
                    == was.popup(),
                None => *final(self) == *old(self),
            },
    {
        match target {
            BarTarget::Tab(key) => self.search.get_mut(key).search_bar.reparse(parsed, context),
            BarTarget::FilterEdit => if let Some(mut edit) = self.filter_edit.take() {
                edit.search_bar.reparse(parsed, context);
                self.filter_edit = Some(edit);
            },
        }
    }

    /// The completions of the filter value under a bar's cursor.
    pub fn on_completions(&mut self, target: BarTarget, completions: Option<(Vec<String>, usize)>)
        ensures
            match old(self).bar_at(target) {
                Some(was) => final(self).bar_at(target) matches Some(bar) && *final(self) == old(
                    self).with_bar(target, bar) && completed(was, bar, completions),
                None => *final(self) == *old(self),
            },
    {
        match target {
            BarTarget::Tab(key) => self.search.get_mut(key).search_bar.update_autocomplete(
                completions,
            ),
            BarTarget::FilterEdit => if let Some(mut edit) = self.filter_edit.take() {
                edit.search_bar.update_autocomplete(completions);
                self.filter_edit = Some(edit);
            },
        }
    }

    // ==================== DB Search ====================

    pub fn db_search_active(&self) -> (active: bool)
        ensures
            active == self.here().db_search_active,
    {
        self.search.get(self.current_tab_key()).db_search_active
    }

    pub fn fuzzy_search_active(&self) -> (active: bool)
        ensures
            active == self.here().fuzzy_search_active,
    {
        self.search.get(self.current_tab_key()).fuzzy_search_active
    }

    /// The state after [`Self::start_db_search`].
    pub open spec fn start_db_search_leads_to(self, next: App) -> bool {
        next == (App {
            input_mode: InputMode::DbSearch,
            ..self.with_here(
                (TabSearchState { db_search_active: true, ..self.here() }),
            )
        })
    }

    pub fn start_db_search(&mut self)
        ensures
            old(self).start_db_search_leads_to(*final(self)),
    {
        self.input_mode = InputMode::DbSearch;
        self.current_search_state_mut().db_search_active = true;
    }

    /// The state after typing into the search bar: the text is edited, parsed
    /// anew and its rows loaded, with the first of them selected. A `~` at a
    /// word boundary leaves for fuzzy search.
    pub open spec fn db_searched(
        self,
        req: InputRequest,
        answer: Option<ColonAnswer>,
        next: App,
    ) -> bool {
        let was = self.here();
        let bar = next.here().search_bar;
        let r = after_input(
            was.search_bar.text(),
            was.search_bar.at(),
            was.search_bar.query().parts@,
            was.search_bar.in_context(),
            req,
            answer,
        );
        let to_fuzzy = r.2 == KeyResult::TransitionToFuzzy;
        &&& bar.text() == r.0
        &&& bar.at() == r.1
        &&& same_parse(was.search_bar, bar)
        &&& next == (App {
            input_mode: if to_fuzzy {
                InputMode::FuzzySearch
            } else {
                self.input_mode
            },
            agenda: next.agenda,
            ..self.with_here(
                TabSearchState {
                    search_bar: bar,
                    fuzzy_search_active: to_fuzzy || was.fuzzy_search_active,
                    ..was
                },
            )
        })
        &&& scheduled(
            self,
            next,
            seq![Task::Parse { target: BarTarget::Tab(self.key()) }] + reload_tasks() + seq![
                Task::ResetSelection,
            ],
        )
    }

    pub fn handle_db_search_input(&mut self, req: InputRequest, answer: Option<ColonAnswer>)
        ensures
            old(self).db_searched(req, answer, *final(self)),
    {
        let key = self.current_tab_key();
        let res = self.edit_search(req, answer);
        // Check for transition to fuzzy search
        if res == KeyResult::TransitionToFuzzy {
            self.start_fuzzy_search();
        }
        self.reload_from_top(Task::Parse { target: BarTarget::Tab(key) });
    }

    fn edit_search(&mut self, req: InputRequest, answer: Option<ColonAnswer>) -> (res: KeyResult)
        ensures
            *final(self) == old(self).with_here(
                (TabSearchState {
                    search_bar: final(self).here().search_bar,
                    ..old(self).here()
                }),
            ),
            (final(self).here().search_bar.text(), final(self).here().search_bar.at(), res)
                == after_input(
                old(self).here().search_bar.text(),
                old(self).here().search_bar.at(),
                old(self).here().search_bar.query().parts@,
                old(self).here().search_bar.in_context(),
                req,
                answer,
            ),
            same_parse(old(self).here().search_bar, final(self).here().search_bar),
    {
        self.current_search_state_mut().search_bar.handle_input(req, answer)
    }

    /// A first task, then reload the current tab and select its first row.
    fn reload_from_top(&mut self, first: Task)
        ensures
            *final(self) == (App { agenda: final(self).agenda, ..*old(self) }),
            scheduled(
                *old(self),
                *final(self),
                seq![first] + reload_tasks() + seq![Task::ResetSelection],
            ),
    {
        let mut tasks: Vec<Task> = Vec::new();
        tasks.push(first);
        let mut rows = reload();
        tasks.append(&mut rows);
        tasks.push(Task::ResetSelection);
        assert(tasks@ =~= seq![first] + reload_tasks() + seq![Task::ResetSelection]);
        self.schedule(tasks);
    }

    /// The state without a DB search, its rows to be loaded.
    pub open spec fn db_cleared(self, next: App) -> bool {
        let bar = next.here().search_bar;
        &&& bar.text().len() == 0
        &&& bar.at() == 0
        &&& bar.query().parts@.len() == 0
        &&& bar.in_context() is Whitespace
        &&& bar.popup() is None
        &&& next == (App {
            selected_index: 0,
            agenda: next.agenda,
            ..self.with_here(
                TabSearchState {
                    search_bar: bar,
                    db_search_active: false,
                    selected_index: 0,
                    ..self.here()
                },
            )
        })
        &&& scheduled(self, next, reload_tasks())
    }

    /// Clear the DB-search state without touching the input mode.
    fn clear_db_state(&mut self)
        ensures
            old(self).db_cleared(*final(self)),
    {
        let state = self.current_search_state_mut();
        state.search_bar.reset();
        state.db_search_active = false;
        state.selected_index = 0;
        self.selected_index = 0;
        self.reload_current_tab();
    }

    /// The state after [`Self::clear_db_search`].
    pub open spec fn clear_db_search_leads_to(self, next: App) -> bool {
        &&& next.input_mode == InputMode::Normal
        &&& self.db_cleared((App { input_mode: self.input_mode, ..next }))
    }

    pub fn clear_db_search(&mut self)
        ensures
            old(self).clear_db_search_leads_to(*final(self)),
    {
        self.clear_db_state();
        self.input_mode = InputMode::Normal;
    }

    /// The state after [`Self::clear_search`].
    pub open spec fn clear_search_leads_to(self, next: App) -> bool {
        if self.here().fuzzy_search_active {
            self.fuzzy_cleared(next)
        } else if self.here().db_search_active {
            self.db_cleared(next)
        } else {
            next == self
        }
    }

    /// Clear whichever search is active from Normal mode, staying in Normal.
    /// Fuzzy clears first so a second Esc clears the DB search beneath it.
    pub fn clear_search(&mut self)
        ensures
            old(self).clear_search_leads_to(*final(self)),
    {
        if self.fuzzy_search_active() {
            self.clear_fuzzy_state();
        } else if self.db_search_active() {
            self.clear_db_state();
        }
    }

    /// The state after choosing the highlighted completion: the popup closes,
    /// and where there was one, it is in the text.
    pub open spec fn completion_chosen(self, next: App) -> bool {
        let was = self.here().search_bar;
        let bar = next.here().search_bar;
        &&& chosen(was, bar)
        &&& next == (App {
            agenda: next.agenda,
            ..self.with_here(TabSearchState { search_bar: bar, ..self.here() })
        })
    }

    /// The tasks after a completion.
    pub open spec fn completion_tasks(self) -> Seq<Task> {
        seq![Task::ParseOnly { target: BarTarget::Tab(self.key()) }] + reload_tasks() + seq![
            Task::ResetSelection,
        ]
    }

    /// The state after [`Self::confirm_db_search`].
    pub open spec fn confirm_db_search_leads_to(self, next: App) -> bool {
        if self.here().search_bar.popup() is Some {
            self.completion_chosen(next) && scheduled(
                self,
                next,
                self.completion_tasks(),
            )
        } else {
            next == (App { input_mode: InputMode::Normal, ..self })
        }
    }

    /// Enter in the search bar: choose from the popup if it is open, else keep
    /// the query and go back to Normal.
    pub fn confirm_db_search(&mut self)
        ensures
            old(self).confirm_db_search_leads_to(*final(self)),
    {
        // If autocomplete is active, select from it instead of confirming
        let key = self.current_tab_key();
        if self.search.get(key).search_bar.autocomplete_active() {
            self.choose_completion();
            self.reload_from_top(Task::ParseOnly { target: BarTarget::Tab(key) });
            return;
        }
        self.input_mode = InputMode::Normal;
    }

    pub fn db_search_value(&self) -> (value: &str)
        ensures
            value@ == self.here().search_bar.text(),
    {
        self.search.get(self.current_tab_key()).search_bar.value()
    }

    pub fn db_search_cursor(&self) -> (cursor: usize)
        ensures
            cursor == self.here().search_bar.at(),
    {
        self.search.get(self.current_tab_key()).search_bar.cursor()
    }

    // ==================== Filter Autocomplete ====================

    /// The popup of the current tab's bar with the highlight moved.
    pub open spec fn popup_moved(self, forwards: bool, next: App) -> bool {
        let was = self.here().search_bar;
        let bar = next.here().search_bar;
        &&& moved(was.popup(), bar.popup(), forwards)
        &&& same_text(was, bar)
        &&& next == self.with_here(TabSearchState { search_bar: bar, ..self.here() })
    }

    pub fn filter_autocomplete_next(&mut self)
        ensures
            old(self).popup_moved(true, *final(self)),
    {
        self.current_search_state_mut().search_bar.autocomplete_next();
    }

    pub fn filter_autocomplete_prev(&mut self)
        ensures
            old(self).popup_moved(false, *final(self)),
    {
        self.current_search_state_mut().search_bar.autocomplete_prev();
    }

    /// The state after [`Self::filter_autocomplete_select`].
    pub open spec fn filter_autocomplete_select_leads_to(self, selected: bool, next: App) -> bool {
        &&& selected == (completion(
            self.here().search_bar.text(),
            self.here().search_bar.query().parts@,
            self.here().search_bar.popup(),
        ) is Some)
        &&& self.completion_chosen(next)
        &&& if selected {
            scheduled(self, next, self.completion_tasks())
        } else {
            next.agenda == self.agenda
        }
    }

    pub fn filter_autocomplete_select(&mut self) -> (selected: bool)
        ensures
            old(self).filter_autocomplete_select_leads_to(selected, *final(self)),
    {
        let key = self.current_tab_key();
        let selected = self.choose_completion();
        if selected {
            self.reload_from_top(Task::ParseOnly { target: BarTarget::Tab(key) });
        }
        selected
    }

    fn choose_completion(&mut self) -> (selected: bool)
        ensures
            *final(self) == old(self).with_here(
                (TabSearchState {
                    search_bar: final(self).here().search_bar,
                    ..old(self).here()
                }),
            ),
            chosen(old(self).here().search_bar, final(self).here().search_bar),
            selected == (completion(
                old(self).here().search_bar.text(),
                old(self).here().search_bar.query().parts@,
                old(self).here().search_bar.popup(),
            ) is Some),
    {
        self.current_search_state_mut().search_bar.autocomplete_select()
    }

    /// The state after [`Self::filter_autocomplete_close`].
    pub open spec fn filter_autocomplete_close_leads_to(self, next: App) -> bool {
        &&& next.here().search_bar.popup() is None
        &&& same_text(self.here().search_bar, next.here().search_bar)
        &&& next == self.with_here(
            (TabSearchState {
                search_bar: next.here().search_bar,
                ..self.here()
            }),
        )
    }

    pub fn filter_autocomplete_close(&mut self)
        ensures
            old(self).filter_autocomplete_close_leads_to(*final(self)),
    {
        self.current_search_state_mut().search_bar.autocomplete_close();
    }

    pub fn filter_autocomplete_active(&self) -> (active: bool)
        ensures
            active == (self.here().search_bar.popup() is Some),
    {
        self.search.get(self.current_tab_key()).search_bar.autocomplete_active()
    }

    // ==================== Fuzzy Search ====================

    /// The state after [`Self::start_fuzzy_search`].
    pub open spec fn start_fuzzy_search_leads_to(self, next: App) -> bool {
        next == (App {
            input_mode: InputMode::FuzzySearch,
            ..self.with_here(
                (TabSearchState { fuzzy_search_active: true, ..self.here() }),
            )
        })
    }

    pub fn start_fuzzy_search(&mut self)
        ensures
            old(self).start_fuzzy_search_leads_to(*final(self)),
    {
        self.input_mode = InputMode::FuzzySearch;
        self.current_search_state_mut().fuzzy_search_active = true;
    }

    /// The state with another pattern: the rows are those that match it, and
    /// the first of them is selected.
    pub open spec fn fuzzy_searched(self, active: bool, text: Seq<char>, next: App) -> bool {
        let was = self.here();
        let now = next.here();
        &&& now.fuzzy_search_input.text() == text
        &&& now.fuzzy_pattern@ == text
        &&& next == (App {
            selected_index: 0,
            lists: next.lists,
            ..self.with_here(
                TabSearchState {
                    fuzzy_search_input: now.fuzzy_search_input,
                    fuzzy_pattern: now.fuzzy_pattern,
                    fuzzy_search_active: active,
                    selected_index: 0,
                    ..was
                },
            )
        })
        &&& refiltered(
            self.lists,
            self.key(),
            was.search_bar.text(),
            text,
            self.tx_by_id@,
            next.lists,
        )
    }

    /// The state after [`Self::handle_fuzzy_search_input`].
    pub open spec fn handle_fuzzy_search_input_leads_to(
        self,
        req: InputRequest,
        next: App,
    ) -> bool {
        &&& self.fuzzy_searched(
            self.here().fuzzy_search_active,
            edited_text(
                self.here().fuzzy_search_input.text(),
                self.here().fuzzy_search_input.at(),
                req,
            ),
            next,
        )
        &&& next.here().fuzzy_search_input.at() == edited_cursor(
            self.here().fuzzy_search_input.text(),
            self.here().fuzzy_search_input.at(),
            req,
        )
    }

    pub fn handle_fuzzy_search_input(&mut self, req: InputRequest)
        ensures
            old(self).handle_fuzzy_search_input_leads_to(req, *final(self)),
    {
        let state = self.current_search_state_mut();
        state.fuzzy_search_input.handle(req);
        state.fuzzy_pattern = state.fuzzy_search_input.value().to_owned();
        state.selected_index = 0;
        self.selected_index = 0;
        self.apply_fuzzy_filter();
    }

    /// The state without a fuzzy search: every loaded row is there.
    pub open spec fn fuzzy_cleared(self, next: App) -> bool {
        &&& self.fuzzy_searched(false, Seq::empty(), next)
        &&& next.here().fuzzy_search_input.at() == 0
    }

    /// Clear the fuzzy-search state without touching the input mode.
    fn clear_fuzzy_state(&mut self)
        ensures
            old(self).fuzzy_cleared(*final(self)),
    {
        let state = self.current_search_state_mut();
        state.fuzzy_search_input = TextInput::default();
        state.fuzzy_pattern = String::new();
        state.fuzzy_search_active = false;
        state.selected_index = 0;
        assert(state.fuzzy_pattern@ =~= Seq::empty());
        assert(state.fuzzy_search_input.text() =~= Seq::empty());
        self.selected_index = 0;
        self.apply_fuzzy_filter();
    }

    /// The state after [`Self::clear_fuzzy_search`]: back in DB search mode if
    /// it's still active, else normal.
    pub open spec fn clear_fuzzy_search_leads_to(self, next: App) -> bool {
        &&& next.input_mode == if self.here().db_search_active {
            InputMode::DbSearch
        } else {
            InputMode::Normal
        }
        &&& self.fuzzy_cleared((App { input_mode: self.input_mode, ..next }))
    }

    pub fn clear_fuzzy_search(&mut self)
        ensures
            old(self).clear_fuzzy_search_leads_to(*final(self)),
    {
        let db_search_active = self.db_search_active();
        self.clear_fuzzy_state();
        if db_search_active {
            self.input_mode = InputMode::DbSearch;
        } else {
            self.input_mode = InputMode::Normal;
        }
    }

    pub fn confirm_fuzzy_search(&mut self)
        ensures
            *final(self) == (App { input_mode: InputMode::Normal, ..*old(self) }),
    {
        self.input_mode = InputMode::Normal;
    }

    pub fn fuzzy_search_value(&self) -> (value: &str)
        ensures
            value@ == self.here().fuzzy_search_input.text(),
    {
        self.search.get(self.current_tab_key()).fuzzy_search_input.value()
    }

    pub fn fuzzy_search_cursor(&self) -> (column: usize)
        ensures
            column == display_column(
                self.here().fuzzy_search_input.text(),
                self.here().fuzzy_search_input.at(),
            ),
    {
        self.search.get(self.current_tab_key()).fuzzy_search_input.visual_cursor()
    }

    // ==================== Jumping to a search ====================

    /// The state after jumping to the Transactions tab with its DB search set
    /// to a query: focus lands on its first row.
    pub open spec fn jumped(self, query: Seq<char>, next: App) -> bool {
        let saved = self.search.with(
            self.key(),
            TabSearchState {
                selected_index: self.selected_index,
                editing_db_search: self.input_mode == InputMode::DbSearch,
                editing_fuzzy_search: self.input_mode == InputMode::FuzzySearch,
                ..self.here()
            },
        );
        let key = (Tab::Transactions, None);
        let bar = next.search.of(key).search_bar;
        &&& bar.text() == query
        &&& bar.at() == query.len()
        &&& same_parse(saved.of(key).search_bar, bar)
        &&& next == (App {
            current_tab: Tab::Transactions,
            search: saved.with(
                key,
                TabSearchState {
                    search_bar: bar,
                    db_search_active: true,
                    editing_db_search: false,
                    fuzzy_search_active: false,
                    editing_fuzzy_search: false,
                    selected_index: 0,
                    ..saved.of(key)
                },
            ),
            input_mode: InputMode::Normal,
            selected_index: 0,
            agenda: next.agenda,
            ..self
        })
        &&& scheduled(
            self,
            next,
            seq![Task::Parse { target: BarTarget::Tab(key) }] + reload_tasks(),
        )
    }

    pub(crate) fn jump_to_search(&mut self, query: &str)
        ensures
            old(self).jumped(query@, *final(self)),
    {
        self.save_tab_state();
        self.current_tab = Tab::Transactions;
        let state = self.current_search_state_mut();
        state.search_bar.set_value(query);
        state.db_search_active = true;
        state.editing_db_search = false;
        state.fuzzy_search_active = false;
        state.editing_fuzzy_search = false;
        state.selected_index = 0;
        self.input_mode = InputMode::Normal;
        self.selected_index = 0;
        let mut tasks = vec![Task::Parse { target: BarTarget::Tab((Tab::Transactions, None)) }];
        let mut rows = reload();
        tasks.append(&mut rows);
        assert(tasks@ =~= seq![
            Task::Parse { target: BarTarget::Tab((Tab::Transactions, None)) },
        ] + reload_tasks());
        self.schedule(tasks);
    }
}

/// The bars have one parse, context and popup.
pub open spec fn same_parse(was: SearchBar, bar: SearchBar) -> bool {
    &&& bar.query() == was.query()
    &&& bar.in_context() == was.in_context()
    &&& bar.popup() == was.popup()
}

/// The bars have one text, cursor, parse and context.
pub open spec fn same_text(was: SearchBar, bar: SearchBar) -> bool {
    &&& bar.text() == was.text()
    &&& bar.at() == was.at()
    &&& bar.query() == was.query()
    &&& bar.in_context() == was.in_context()
}

/// The bar after choosing the highlighted completion.
pub open spec fn chosen(was: SearchBar, bar: SearchBar) -> bool {
    &&& bar.popup() is None
    &&& bar.query() == was.query()
    &&& bar.in_context() == was.in_context()
    &&& match completion(was.text(), was.query().parts@, was.popup()) {
        Some(r) => bar.text() == r.0 && bar.at() == r.1,
        None => bar.text() == was.text() && bar.at() == was.at(),
    }
}

/// The bar after its completions came: the popup lists them, where the cursor
/// is in a filter's value and there are any.
pub open spec fn completed(
    was: SearchBar,
    bar: SearchBar,
    completions: Option<(Vec<String>, usize)>,
) -> bool {
    &&& same_text(was, bar)
    &&& match (
        filter_under_cursor(was.query().parts@, was.in_context(), was.at()),
        completions,
    ) {
        (Some(i), Some(c)) => {
            let start = was.query().parts@[i]->Filter_value_span.start;
            if c.0@.len() == 0 {
                bar.popup() is None
            } else {
                &&& bar.popup() matches Some(ac)
                &&& ac.filter_name == was.in_context()->Filter_name
                &&& ac.suggestions == c.0
                &&& ac.anchor_offset == at_most(start + c.1, usize::MAX as int)
                &&& ac.selected == kept_selection(
                    was.popup(),
                    was.in_context()->Filter_name@,
                    c.0@.len() as int,
                )
            }
        },
        _ => bar.popup() is None,
    }
}

} // verus!
