//! Per-tab search state.

use vstd::prelude::*;
use vstd::string::*;

use super::tabs::{Tab, TabKey, TodoSubTab};
use crate::tui::input::TextInput;
use crate::tui::search_bar::SearchBar;

verus! {

/// Per-tab search state (DB search + fuzzy search + selection).
pub struct TabSearchState {
    /// SearchBar for DB search queries
    pub search_bar: SearchBar,
    pub db_search_active: bool,
    pub fuzzy_search_input: TextInput,
    pub fuzzy_pattern: String,
    pub fuzzy_search_active: bool,
    pub selected_index: usize,
    /// Was actively editing DB search when we left this tab
    pub editing_db_search: bool,
    /// Was actively editing fuzzy search when we left this tab
    pub editing_fuzzy_search: bool,
}

impl TabSearchState {
    /// Nothing typed, nothing active, the first row selected.
    pub open spec fn is_fresh(&self) -> bool {
        &&& self.search_bar.text().len() == 0
        &&& self.search_bar.query().parts@.len() == 0
        &&& self.search_bar.popup() is None
        &&& !self.db_search_active
        &&& self.fuzzy_search_input.text().len() == 0
        &&& self.fuzzy_pattern@.len() == 0
        &&& !self.fuzzy_search_active
        &&& self.selected_index == 0
        &&& !self.editing_db_search
        &&& !self.editing_fuzzy_search
    }

    /// Create a new TabSearchState.
    pub fn new() -> (state: Self)
        ensures
            state.is_fresh(),
    {
        Self {
            search_bar: SearchBar::new(),
            db_search_active: false,
            fuzzy_search_input: TextInput::default(),
            fuzzy_pattern: String::new(),
            fuzzy_search_active: false,
            selected_index: 0,
            editing_db_search: false,
            editing_fuzzy_search: false,
        }
    }
}

/// The search states of all tabs.
pub struct SearchStates {
    pub transactions: TabSearchState,
    pub transfers: TabSearchState,
    pub categories: TabSearchState,
    pub accounts: TabSearchState,
    pub filters: TabSearchState,
    pub uncategorised: TabSearchState,
    pub ai_review: TabSearchState,
    pub transfer_review: TabSearchState,
}

impl SearchStates {
    /// The state of a tab.
    #[verifier::opaque]
    pub open spec fn of(self, key: TabKey) -> TabSearchState {
        match key {
            (Tab::Transactions, _) => self.transactions,
            (Tab::Transfers, _) => self.transfers,
            (Tab::Categories, _) => self.categories,
            (Tab::Accounts, _) => self.accounts,
            (Tab::Filters, _) => self.filters,
            (Tab::Todo, Some(TodoSubTab::AiReview)) => self.ai_review,
            (Tab::Todo, Some(TodoSubTab::TransferReview)) => self.transfer_review,
            (Tab::Todo, _) => self.uncategorised,
        }
    }

    /// The states with one tab's replaced.
    #[verifier::opaque]
    pub open spec fn with(self, key: TabKey, state: TabSearchState) -> SearchStates {
        match key {
            (Tab::Transactions, _) => SearchStates { transactions: state, ..self },
            (Tab::Transfers, _) => SearchStates { transfers: state, ..self },
            (Tab::Categories, _) => SearchStates { categories: state, ..self },
            (Tab::Accounts, _) => SearchStates { accounts: state, ..self },
            (Tab::Filters, _) => SearchStates { filters: state, ..self },
            (Tab::Todo, Some(TodoSubTab::AiReview)) => SearchStates { ai_review: state, ..self },
            (Tab::Todo, Some(TodoSubTab::TransferReview)) => SearchStates {
                transfer_review: state,
                ..self
            },
            (Tab::Todo, _) => SearchStates { uncategorised: state, ..self },
        }
    }

    pub fn new() -> (states: Self)
        ensures
            forall|key: TabKey| (#[trigger] states.of(key)).is_fresh(),
    {
        reveal(SearchStates::of);
        SearchStates {
            transactions: TabSearchState::new(),
            transfers: TabSearchState::new(),
            categories: TabSearchState::new(),
            accounts: TabSearchState::new(),
            filters: TabSearchState::new(),
            uncategorised: TabSearchState::new(),
            ai_review: TabSearchState::new(),
            transfer_review: TabSearchState::new(),
        }
    }

    pub fn get(&self, key: TabKey) -> (state: &TabSearchState)
        ensures
            *state == self.of(key),
    {
        reveal(SearchStates::of);
        match key {
            (Tab::Transactions, _) => &self.transactions,
            (Tab::Transfers, _) => &self.transfers,
            (Tab::Categories, _) => &self.categories,
            (Tab::Accounts, _) => &self.accounts,
            (Tab::Filters, _) => &self.filters,
            (Tab::Todo, Some(TodoSubTab::AiReview)) => &self.ai_review,
            (Tab::Todo, Some(TodoSubTab::TransferReview)) => &self.transfer_review,
            (Tab::Todo, _) => &self.uncategorised,
        }
    }

    pub fn get_mut(&mut self, key: TabKey) -> (state: &mut TabSearchState)
        ensures
            *state == old(self).of(key),
            *final(self) == old(self).with(key, *final(state)),
    {
        reveal(SearchStates::of);
        reveal(SearchStates::with);
        match key {
            (Tab::Transactions, _) => &mut self.transactions,
            (Tab::Transfers, _) => &mut self.transfers,
            (Tab::Categories, _) => &mut self.categories,
            (Tab::Accounts, _) => &mut self.accounts,
            (Tab::Filters, _) => &mut self.filters,
            (Tab::Todo, Some(TodoSubTab::AiReview)) => &mut self.ai_review,
            (Tab::Todo, Some(TodoSubTab::TransferReview)) => &mut self.transfer_review,
            (Tab::Todo, _) => &mut self.uncategorised,
        }
    }
}

/// A tab has the state that was put there.
pub broadcast proof fn put_state_is_there(states: SearchStates, key: TabKey, state: TabSearchState)
    ensures
        (#[trigger] states.with(key, state)).of(key) == state,
{
    reveal(SearchStates::of);
    reveal(SearchStates::with);
}

/// Of two states put to a tab the last counts.
pub broadcast proof fn last_state_counts(
    states: SearchStates,
    key: TabKey,
    first: TabSearchState,
    second: TabSearchState,
)
    ensures
        #[trigger] states.with(key, first).with(key, second) == states.with(key, second),
{
    reveal(SearchStates::with);
}

} // verus!
