//! Application state for the TUI.
//!
//! Split by feature: this file owns the `App` struct, construction, caches,
//! navigation, prompts and confirmations. Feature-specific actions live in
//! submodules:
//!
//! - `tabs` — Tab/TodoSubTab enums + `TabLists` (all per-tab dispatch)
//! - `search_state` — per-tab search state
//! - `search` — DB/fuzzy search, autocomplete
//! - `categories` — category popup, AI review, bulk apply
//! - `category_tab` — rename/merge and deletion of categories, their side panel
//! - `accounts` — rename and deletion of accounts, their side panel
//! - `annotations` — note and tag editors
//! - `filters` — saved-search filter management
//! - `filter_edit` — the filter edit screen, applying the filters
//! - `transfers` — transfer marking, confirmation, deletion
//!
//! `App` never touches the store. What it wants done there it puts on its
//! agenda; whoever owns the store takes the tasks off one by one
//! ([`App::next_task`]), carries each out, and hands the outcome back to the
//! method named with the task.

pub mod accounts;
pub mod action_laws;
pub mod annotations;
pub mod cache_laws;
pub mod caches;
pub mod categories;
pub mod category_tab;
pub mod confirm;
pub mod edit_laws;
pub mod filter_edit;
pub mod filters;
pub mod laws;
pub mod prompt;
pub mod search;
pub mod search_laws;
pub mod search_state;
pub mod tabs;
pub mod tasks;
pub mod transfers;

use std::collections::HashMap;

use vstd::prelude::*;
use vstd::std_specs::hash::*;
use vstd::string::*;

use crate::fuzzy::FuzzyMatcher;
use crate::model::{Account, AccountWithBank, Bank, Category, Transaction, Transfer};
use crate::tui::input::TextInput;
use crate::tui::note_editor::NoteEditor;
use crate::tui::search_bar::SearchBar;
use crate::tui::tag_editor::TagEditor;

use search_state::{SearchStates, TabSearchState};
use tabs::{
    first_with_id, key_of, row_transactions, tab_key, visible_rows, Tab, TabKey, TabLists,
    TodoSubTab,
};
use tasks::{reload_tasks, BackgroundJob, Task};

verus! {

broadcast use group_hash_axioms;

/// Row limit for every list load.
pub const LIST_LIMIT: usize = 500;

#[derive(Debug, Clone, Copy, PartialEq, Eq, Structural)]
pub enum InputMode {
    Normal,
    DbSearch,
    FuzzySearch,
    FilterEdit,
    Category,
    /// Multi-line free-form note editor (`n`), backed by `note_editor`.
    Note,
    /// Space-separated `#tag` line editor (`#`), backed by `tag_editor`.
    Tags,
    TextPrompt,
    BulkApply,
    /// Generic yes/no confirmation driven by `confirm_action`.
    Confirm,
    /// Scrollable confirmation listing the transactions that applying the
    /// filters would (re)categorise (Ctrl-A). Confirm applies; cancel does
    /// nothing.
    ConfirmApplyFilters,
    TransferPending,
    TransferNoMatch,
}

/// A change that waits for the user's yes.
#[derive(Debug)]
pub enum ConfirmAction {
    MergeCategory { source_id: i64, target_id: i64 },
    /// Categorising a transaction that is part of a transfer: unlink the
    /// transfer first, then apply the category.
    BreakTransferForCategory { transfer_id: i64, tx: Transaction, category_path: String },
    /// Marking a transfer whose chosen endpoints are already linked elsewhere:
    /// delete the existing transfer(s), then create the new one.
    BreakTransfersForTransfer { transfer_ids: Vec<i64>, from_id: i64, to_id: i64 },
    /// Leaving the filter edit screen with unsaved query changes.
    DiscardFilterEdit,
    /// Leaving the note editor with unsaved text.
    DiscardNoteEdit,
    /// Deleting a saved filter from the Filters tab.
    DeleteFilter(i64),
    /// Unlinking the selected transaction's transfer.
    UnlinkTransfer { transfer_id: i64 },
    /// Removing the selected transaction's category.
    Uncategorise { tx_id: i64 },
    /// Deleting a category from the Categories tab.
    DeleteCategory(i64),
    /// Deleting an account from the Accounts tab (also removes its exports
    /// folder; transactions are retained in history).
    DeleteAccount(i64),
}

/// What the category popup assigns to.
#[derive(Debug, Clone, Copy, PartialEq, Eq, Structural)]
pub enum CategoryTarget {
    Transaction,
    /// The popup applies to every transaction matching the current search
    /// rather than the single selected one.
    MatchingTransactions,
    Filter(i64),
}

/// What a text prompt is for.
#[derive(Debug)]
pub enum TextPromptTarget {
    CategoryRename(Category),
    AccountRename(AccountWithBank),
    FilterCreate,
    FilterCreateFromQuery(String),
    FilterRename(i64),
}

/// A single-line prompt.
pub struct TextPrompt {
    pub title: &'static str,
    pub input: TextInput,
    pub target: TextPromptTarget,
    pub return_mode: InputMode,
}

/// The filter edit screen.
pub struct FilterEditState {
    pub filter_id: i64,
    pub name: String,
    pub search_bar: SearchBar,
    pub preview: Vec<Transaction>,
    pub preview_scroll: usize,
}

/// Preview backing the Ctrl-A apply-filters confirmation modal: the
/// transactions that applying the filters would (re)categorise, plus the list
/// scroll position.
pub struct ApplyFiltersPreview {
    pub rows: Vec<Transaction>,
    pub scroll: usize,
}

/// What `Enter` does with the selected rows in the bulk-apply popup.
#[derive(Debug)]
pub enum BulkAction {
    /// Apply a category to the selected transactions. The category is looked
    /// up or created at apply time.
    ApplyCategory { category_path: String },
    /// Confirm the selected transactions' existing AI category suggestions.
    ConfirmCategories,
    /// Confirm the selected pending transfers.
    ConfirmTransfers,
}

/// The bulk-apply popup.
pub struct BulkApplyState {
    pub action: BulkAction,
    pub rows: Vec<BulkRow>,
    pub cursor: usize,
}

pub struct BulkRow {
    pub selected: bool,
    pub item: BulkItem,
}

/// A row in the bulk-apply popup: either a transaction or a transfer.
#[derive(Debug)]
pub enum BulkItem {
    /// `score` is there only for similar transactions (drives the score
    /// column). It holds the bits of a non-negative single-precision float,
    /// which are in the order of the floats.
    Transaction { tx: Transaction, score: Option<u32> },
    Transfer(Transfer),
}

impl BulkRow {
    pub open spec fn target(&self) -> i64 {
        match self.item {
            BulkItem::Transaction { tx, .. } => tx.id,
            BulkItem::Transfer(t) => t.id,
        }
    }

    /// Id used when applying: the transaction id, or the transfer id.
    pub fn target_id(&self) -> (id: i64)
        ensures
            id == self.target(),
    {
        match &self.item {
            BulkItem::Transaction { tx, .. } => tx.id,
            BulkItem::Transfer(t) => t.id,
        }
    }
}

/// The state of the interface.
pub struct App {
    pub current_tab: Tab,
    pub todo_subtab: TodoSubTab,
    /// The data behind every tab (see `tabs::TabLists`).
    pub lists: TabLists,
    pub selected_index: usize,
    pub input_mode: InputMode,
    /// Whether the index of similar transactions has to be rebuilt before use.
    pub similarity_stale: bool,
    pub bulk_apply: Option<BulkApplyState>,
    pub apply_filters_preview: Option<ApplyFiltersPreview>,
    pub should_quit: bool,
    /// Which background writer (if any) is currently running. Only one may
    /// write at a time; all of refresh / classify / reindex share this slot.
    pub active_job: Option<BackgroundJob>,
    /// Summary of the last classification, shown until dismissed.
    pub classify_report: Option<String>,
    pub keybind_help_open: bool,
    pub hints_visible: bool,
    /// Whether the transaction view shows the inline detail panel (full
    /// description, source file, and metadata) for the selected row.
    pub view_details: bool,
    /// Whether the Transactions tab shows a row summing the amounts of the
    /// currently visible transactions.
    pub show_sum: bool,
    /// Whether the Categories tab shows the side panel listing the selected
    /// category's transactions.
    pub show_category_transactions: bool,
    /// Transactions backing that side panel (the selected category's rows).
    pub category_transactions: Vec<Transaction>,
    /// Whether the Accounts tab shows the side panel listing the selected
    /// account's transactions.
    pub show_account_transactions: bool,
    /// Transactions backing that side panel (the selected account's rows).
    pub account_transactions: Vec<Transaction>,
    // Category popup state
    pub category_input: String,
    pub category_suggestions: Vec<Category>,
    pub category_selected: usize,
    pub category_target: CategoryTarget,
    // Transfer marking state
    pub pending_transfer_tx: Option<Transaction>,
    pub transfer_candidates: Vec<Transaction>,
    pub error_message: Option<String>,
    pub banks: HashMap<i64, Bank>,
    pub accounts: HashMap<i64, Account>,
    pub fuzzy_matcher: FuzzyMatcher,
    // Caches to avoid store queries during render/filter
    pub tx_by_id: HashMap<i64, Transaction>,
    pub category_by_tx_id: HashMap<i64, String>,
    pub transfer_by_tx_id: HashMap<i64, Transfer>,
    pub tags_by_tx_id: HashMap<i64, Vec<String>>,
    pub note_by_tx_id: HashMap<i64, String>,
    /// Every known tag, most-used first — feeds `tag:` autocomplete and the
    /// tag editor's suggestion list.
    pub tag_options: Vec<String>,
    pub category_tx_count: HashMap<i64, usize>,
    pub account_tx_count: HashMap<i64, usize>,
    // Note / tag editors (self-contained widgets)
    pub note_editor: Option<NoteEditor>,
    pub tag_editor: Option<TagEditor>,
    // Shared single-line text prompt state
    pub text_prompt: Option<TextPrompt>,
    // Dedicated saved-filter query editor state
    pub filter_edit: Option<FilterEditState>,
    // Confirmation popup state
    pub confirm_message: Option<String>,
    pub confirm_action: Option<ConfirmAction>,
    /// Transient tab-bar status message and the time it expires.
    pub status: Option<(String, u64)>,
    /// Milliseconds on a clock that never goes back.
    pub clock: u64,
    // Per-tab search state
    pub search: SearchStates,
    /// What is left to be done outside, next step first.
    pub agenda: Vec<Task>,
}

/// How long a transient status message stays on screen, in milliseconds.
pub const STATUS_DURATION: u64 = 5000;

/// The message says the text.
pub open spec fn says(message: Option<String>, text: Seq<char>) -> bool {
    message matches Some(m) && m@ == text
}

/// "Failed to {what}: {error}".
pub open spec fn failure(what: Seq<char>, error: Seq<char>) -> Seq<char> {
    "Failed to "@ + what + ": "@ + error
}

/// "s" unless there is exactly one.
pub open spec fn plural(n: int) -> Seq<char> {
    if n == 1 {
        Seq::empty()
    } else {
        "s"@
    }
}

pub(crate) fn failure_message(what: &str, error: &str) -> (message: String)
    ensures
        message@ == failure(what@, error@),
{
    let mut m = "Failed to ".to_owned();
    m.append(what);
    m.append(": ");
    m.append(error);
    m
}

pub(crate) fn plural_suffix(n: usize) -> (s: &'static str)
    ensures
        s@ == plural(n as int),
{
    proof {
        reveal_strlit("");
    }
    assert(""@ =~= Seq::empty());
    if n == 1 {
        ""
    } else {
        "s"
    }
}

/// The rows keyed by their ids, over `m`; of rows with one id the last counts.
pub open spec fn keyed<T>(m: Map<i64, T>, rows: Seq<T>, id: spec_fn(T) -> i64) -> Map<i64, T>
    decreases rows.len(),
{
    if rows.len() == 0 {
        m
    } else {
        keyed(m, rows.drop_last(), id).insert(id(rows.last()), rows.last())
    }
}

/// `m` with those rows whose ids it does not have; of rows with one id the
/// first counts.
pub open spec fn filled<T>(m: Map<i64, T>, rows: Seq<T>, id: spec_fn(T) -> i64) -> Map<i64, T>
    decreases rows.len(),
{
    if rows.len() == 0 {
        m
    } else {
        let before = filled(m, rows.drop_last(), id);
        if before.contains_key(id(rows.last())) {
            before
        } else {
            before.insert(id(rows.last()), rows.last())
        }
    }
}

pub open spec fn tx_id(tx: Transaction) -> i64 {
    tx.id
}

/// The tasks go before what is on the agenda already.
pub open spec fn scheduled(before: App, after: App, tasks: Seq<Task>) -> bool {
    after.agenda@ == tasks + before.agenda@
}

impl App {
    pub open spec fn key(self) -> TabKey {
        key_of(self.current_tab, self.todo_subtab)
    }

    /// The transaction under the cursor.
    pub open spec fn selected_tx(self) -> Option<Transaction> {
        let rows = row_transactions(self.lists, self.key());
        if self.selected_index < rows.len() {
            Some(rows[self.selected_index as int])
        } else {
            None
        }
    }

    pub fn current_tab_key(&self) -> (key: TabKey)
        ensures
            key == self.key(),
    {
        tab_key(self.current_tab, self.todo_subtab)
    }

    /// Put tasks before what is on the agenda already.
    pub fn schedule(&mut self, tasks: Vec<Task>)
        ensures
            *final(self) == (App { agenda: final(self).agenda, ..*old(self) }),
            scheduled(*old(self), *final(self), tasks@),
    {
        let mut agenda = tasks;
        agenda.append(&mut self.agenda);
        self.agenda = agenda;
    }

    /// Put one task before what is on the agenda already.
    pub fn schedule_one(&mut self, task: Task)
        ensures
            *final(self) == (App { agenda: final(self).agenda, ..*old(self) }),
            scheduled(*old(self), *final(self), seq![task]),
    {
        let mut tasks: Vec<Task> = Vec::new();
        tasks.push(task);
        assert(tasks@ =~= seq![task]);
        self.schedule(tasks);
    }

    /// Take the next step off the agenda.
    pub fn next_task(&mut self) -> (task: Option<Task>)
        ensures
            *final(self) == (App { agenda: final(self).agenda, ..*old(self) }),
            match task {
                Some(t) => old(self).agenda@.len() > 0 && t == old(self).agenda@[0] && final(
                    self).agenda@ == old(self).agenda@.drop_first(),
                None => old(self).agenda@.len() == 0 && final(self).agenda@ == old(self).agenda@,
            },
    {
        if self.agenda.len() == 0 {
            return None;
        }
        let task = self.agenda.remove(0);
        assert(self.agenda@ =~= old(self).agenda@.drop_first());
        Some(task)
    }

    /// Let the clock advance.
    pub fn tick(&mut self, now: u64)
        ensures
            *final(self) == (App { clock: now, ..*old(self) }),
    {
        self.clock = now;
    }

    /// The state after [`Self::show_status`].
    pub open spec fn show_status_leads_to(self, message: String, next: App) -> bool {
        next == (App {
            status: Some((message, expiry(self.clock))),
            ..self
        })
    }

    /// Show a transient message in the tab bar's right-aligned status area
    /// for [`STATUS_DURATION`]. It never captures input; it just disappears on
    /// a later redraw.
    pub fn show_status(&mut self, message: String)
        ensures
            old(self).show_status_leads_to(message, *final(self)),
    {
        let until: u64 = if self.clock <= u64::MAX - STATUS_DURATION {
            self.clock + STATUS_DURATION
        } else {
            u64::MAX
        };
        self.status = Some((message, until));
    }

    /// The status message to display, if one is active and hasn't expired.
    pub fn active_status(&self) -> (message: Option<&String>)
        ensures
            message == match self.status {
                Some(s) => if self.clock < s.1 {
                    Some(&s.0)
                } else {
                    None
                },
                None => None,
            },
    {
        match &self.status {
            Some((message, until)) => if self.clock < *until {
                Some(message)
            } else {
                None
            },
            None => None,
        }
    }

    /// The state after [`Self::show_error`].
    pub open spec fn show_error_leads_to(self, message: String, next: App) -> bool {
        next == (App { error_message: Some(message), ..self })
    }

    /// Show an error.
    pub fn show_error(&mut self, message: String)
        ensures
            old(self).show_error_leads_to(message, *final(self)),
    {
        self.error_message = Some(message);
    }
}

/// The search mode a tab was left in.
pub open spec fn left_in(editing_db: bool, editing_fuzzy: bool) -> InputMode {
    if editing_fuzzy {
        InputMode::FuzzySearch
    } else if editing_db {
        InputMode::DbSearch
    } else {
        InputMode::Normal
    }
}

impl App {
    // ==================== Tab Navigation ====================

    /// The state after leaving the current tab for another: what was selected
    /// and edited is remembered, and what was selected and edited there when it
    /// was last left is taken up again.
    pub open spec fn switched(self, tab: Tab, subtab: TodoSubTab, agenda: Vec<Task>) -> App {
        let here = self.key();
        let saved = TabSearchState {
            selected_index: self.selected_index,
            editing_db_search: self.input_mode == InputMode::DbSearch,
            editing_fuzzy_search: self.input_mode == InputMode::FuzzySearch,
            ..self.search.of(here)
        };
        let states = self.search.with(here, saved);
        let there = states.of(key_of(tab, subtab));
        App {
            current_tab: tab,
            todo_subtab: subtab,
            search: states,
            selected_index: there.selected_index,
            input_mode: left_in(there.editing_db_search, there.editing_fuzzy_search),
            agenda,
            ..self
        }
    }

    fn switch_to(&mut self, tab: Tab, subtab: TodoSubTab)
        ensures
            *final(self) == old(self).switched(tab, subtab, final(self).agenda),
            scheduled(*old(self), *final(self), reload_tasks()),
    {
        self.save_tab_state();
        self.current_tab = tab;
        self.todo_subtab = subtab;
        self.restore_tab_state();
    }

    /// The state after [`Self::next_tab`].
    pub open spec fn next_tab_leads_to(self, next: App) -> bool {
        &&& next == self.switched(
            Tab::order()[after(self.current_tab.place(), 6)],
            self.todo_subtab,
            next.agenda,
        ).without_marking(next.transfer_candidates)
        &&& next.transfer_candidates@.len() == 0
        &&& scheduled(self, next, reload_tasks())
    }

    pub fn next_tab(&mut self)
        ensures
            old(self).next_tab_leads_to(*final(self)),
    {
        let tabs = Tab::all();
        let next: usize = next_wrapping(self.current_tab.position(), 6);
        self.switch_to(tabs[next], self.todo_subtab);
        self.clear_transfer_mode();
    }

    /// The state after [`Self::previous_tab`].
    pub open spec fn previous_tab_leads_to(self, next: App) -> bool {
        &&& next == self.switched(
            Tab::order()[before(self.current_tab.place(), 6)],
            self.todo_subtab,
            next.agenda,
        ).without_marking(next.transfer_candidates)
        &&& next.transfer_candidates@.len() == 0
        &&& scheduled(self, next, reload_tasks())
    }

    pub fn previous_tab(&mut self)
        ensures
            old(self).previous_tab_leads_to(*final(self)),
    {
        let tabs = Tab::all();
        let prev: usize = prev_wrapping(self.current_tab.position(), 6);
        self.switch_to(tabs[prev], self.todo_subtab);
        self.clear_transfer_mode();
    }

    /// The state after [`Self::next_subtab`].
    pub open spec fn next_subtab_leads_to(self, next: App) -> bool {
        &&& self.current_tab != Tab::Todo ==> next == self
        &&& self.current_tab == Tab::Todo ==> next == self.switched(
            Tab::Todo,
            TodoSubTab::order()[after(self.todo_subtab.place(), 3)],
            next.agenda,
        ) && scheduled(self, next, reload_tasks())
    }

    pub fn next_subtab(&mut self)
        ensures
            old(self).next_subtab_leads_to(*final(self)),
    {
        if self.current_tab != Tab::Todo {
            return;
        }
        let subtabs = TodoSubTab::all();
        let next: usize = next_wrapping(self.todo_subtab.position(), 3);
        self.switch_to(Tab::Todo, subtabs[next]);
    }

    /// The state after [`Self::previous_subtab`].
    pub open spec fn previous_subtab_leads_to(self, next: App) -> bool {
        &&& self.current_tab != Tab::Todo ==> next == self
        &&& self.current_tab == Tab::Todo ==> next == self.switched(
            Tab::Todo,
            TodoSubTab::order()[before(self.todo_subtab.place(), 3)],
            next.agenda,
        ) && scheduled(self, next, reload_tasks())
    }

    pub fn previous_subtab(&mut self)
        ensures
            old(self).previous_subtab_leads_to(*final(self)),
    {
        if self.current_tab != Tab::Todo {
            return;
        }
        let subtabs = TodoSubTab::all();
        let prev: usize = prev_wrapping(self.todo_subtab.position(), 3);
        self.switch_to(Tab::Todo, subtabs[prev]);
    }

    /// Save current state to the tab's search state before switching away
    pub(crate) fn save_tab_state(&mut self)
        ensures
            *final(self) == (App {
                search: old(self).search.with(
                    old(self).key(),
                    (TabSearchState {
                        selected_index: old(self).selected_index,
                        editing_db_search: old(self).input_mode == InputMode::DbSearch,
                        editing_fuzzy_search: old(self).input_mode == InputMode::FuzzySearch,
                        ..old(self).search.of(old(self).key())
                    }),
                ),
                ..*old(self)
            }),
    {
        let selected_index: usize = self.selected_index;
        let editing_db = self.input_mode == InputMode::DbSearch;
        let editing_fuzzy = self.input_mode == InputMode::FuzzySearch;
        let key = self.current_tab_key();
        let state = self.search.get_mut(key);
        state.selected_index = selected_index;
        state.editing_db_search = editing_db;
        state.editing_fuzzy_search = editing_fuzzy;
    }

    /// Restore state from the new tab's search state
    fn restore_tab_state(&mut self)
        ensures
            *final(self) == (App {
                selected_index: old(self).search.of(old(self).key()).selected_index,
                input_mode: left_in(
                    old(self).search.of(old(self).key()).editing_db_search,
                    old(self).search.of(old(self).key()).editing_fuzzy_search,
                ),
                agenda: final(self).agenda,
                ..*old(self)
            }),
            scheduled(*old(self), *final(self), reload_tasks()),
    {
        let key = self.current_tab_key();
        let state = self.search.get(key);
        let selected_index: usize = state.selected_index;
        let editing_fuzzy = state.editing_fuzzy_search;
        let editing_db = state.editing_db_search;
        self.selected_index = selected_index;
        // Restore input mode based on what we were doing when we left this tab
        if editing_fuzzy {
            self.input_mode = InputMode::FuzzySearch;
        } else if editing_db {
            self.input_mode = InputMode::DbSearch;
        } else {
            self.input_mode = InputMode::Normal;
        }
        // Reload data for this tab based on its search state
        self.reload_current_tab();
    }

    /// The state without the marking of a transfer; `none` is empty.
    pub open spec fn without_marking(self, none: Vec<Transaction>) -> App {
        App {
            pending_transfer_tx: None,
            transfer_candidates: none,
            input_mode: if self.input_mode == InputMode::TransferPending || self.input_mode
                == InputMode::TransferNoMatch {
                InputMode::Normal
            } else {
                self.input_mode
            },
            ..self
        }
    }

    pub fn clear_transfer_mode(&mut self)
        ensures
            *final(self) == old(self).without_marking(final(self).transfer_candidates),
            final(self).transfer_candidates@.len() == 0,
    {
        self.pending_transfer_tx = None;
        self.transfer_candidates = Vec::new();
        if self.input_mode == InputMode::TransferPending || self.input_mode
            == InputMode::TransferNoMatch {
            self.input_mode = InputMode::Normal;
        }
    }

    // ==================== Selection ====================

    /// Position among the candidates of the transaction under the cursor; zero
    /// where it is none of them.
    pub open spec fn candidate_place(self) -> int {
        match self.selected_tx() {
            Some(tx) => match first_with_id(self.transfer_candidates@, tx.id) {
                Some(p) => p as int,
                None => 0,
            },
            None => 0,
        }
    }

    /// Whether the arrow keys step through the candidates of a transfer.
    pub open spec fn choosing(self) -> bool {
        self.input_mode == InputMode::TransferPending && self.transfer_candidates@.len() > 0
    }

    /// The selected row with the cursor on candidate `place`, where there is
    /// such a candidate and it is on screen.
    pub open spec fn row_of_candidate(self, place: int) -> usize {
        if 0 <= place < self.transfer_candidates@.len() {
            match first_with_id(
                row_transactions(self.lists, self.key()),
                self.transfer_candidates@[place].id,
            ) {
                Some(p) => p,
                None => self.selected_index,
            }
        } else {
            self.selected_index
        }
    }

    fn candidate_position(&self) -> (place: usize)
        ensures
            place == self.candidate_place(),
            place < self.transfer_candidates@.len() || place == 0,
    {
        let id: i64 = match self.selected_transaction() {
            Some(tx) => tx.id,
            None => return 0,
        };
        let mut i: usize = 0;
        while i < self.transfer_candidates.len()
            invariant
                i <= self.transfer_candidates@.len(),
                self.selected_tx() matches Some(tx) && tx.id == id,
                forall|j: int| 0 <= j < i ==> (#[trigger] self.transfer_candidates@[j]).id != id,
            decreases self.transfer_candidates@.len() - i,
        {
            if self.transfer_candidates[i].id == id {
                proof {
                    tabs::lemma_first_with_id(self.transfer_candidates@, id, Some(i));
                }
                return i;
            }
            i += 1;
        }
        proof {
            tabs::lemma_first_with_id(self.transfer_candidates@, id, None);
        }
        0
    }

    fn candidate_row(&self, place: usize) -> (row: usize)
        requires
            place < self.transfer_candidates@.len(),
        ensures
            row == self.row_of_candidate(place as int),
    {
        let id: i64 = self.transfer_candidates[place].id;
        match self.lists.position_of_tx(self.current_tab_key(), id) {
            Some(pos) => pos,
            None => self.selected_index,
        }
    }

    /// The selected row after an arrow key.
    pub open spec fn stepped(self, forwards: bool) -> int {
        let len = visible_rows(self.lists, self.key()) as int;
        if len == 0 {
            self.selected_index as int
        } else if self.choosing() {
            self.row_of_candidate(
                if forwards {
                    self.candidate_place() + 1
                } else {
                    self.candidate_place() - 1
                },
            ) as int
        } else if forwards {
            after(self.selected_index as int, len)
        } else {
            before(self.selected_index as int, len)
        }
    }

    fn step(&self, forwards: bool) -> (row: usize)
        ensures
            row == self.stepped(forwards),
    {
        let len: usize = self.list_len();
        if len == 0 {
            return self.selected_index;
        }
        if self.input_mode == InputMode::TransferPending && self.transfer_candidates.len() > 0 {
            let place: usize = self.candidate_position();
            if forwards && place < self.transfer_candidates.len() - 1 {
                self.candidate_row(place + 1)
            } else if !forwards && place > 0 {
                self.candidate_row(place - 1)
            } else {
                self.selected_index
            }
        } else if forwards {
            next_wrapping(self.selected_index, len)
        } else {
            prev_wrapping(self.selected_index, len)
        }
    }

    /// The state after [`Self::next`].
    pub open spec fn next_leads_to(self, next: App) -> bool {
        &&& next == (App {
            selected_index: next.selected_index,
            agenda: next.agenda,
            ..self
        })
        &&& next.selected_index == self.stepped(true)
        &&& scheduled(
            self,
            next,
            seq![Task::LoadCategoryPanel, Task::LoadAccountPanel],
        )
    }

    pub fn next(&mut self)
        ensures
            old(self).next_leads_to(*final(self)),
    {
        self.selected_index = self.step(true);
        self.schedule(vec![Task::LoadCategoryPanel, Task::LoadAccountPanel]);
    }

    /// The state after [`Self::previous`].
    pub open spec fn previous_leads_to(self, next: App) -> bool {
        &&& next == (App {
            selected_index: next.selected_index,
            agenda: next.agenda,
            ..self
        })
        &&& next.selected_index == self.stepped(false)
        &&& scheduled(
            self,
            next,
            seq![Task::LoadCategoryPanel, Task::LoadAccountPanel],
        )
    }

    pub fn previous(&mut self)
        ensures
            old(self).previous_leads_to(*final(self)),
    {
        self.selected_index = self.step(false);
        self.schedule(vec![Task::LoadCategoryPanel, Task::LoadAccountPanel]);
    }

    pub fn list_len(&self) -> (len: usize)
        ensures
            len == visible_rows(self.lists, self.key()),
    {
        self.lists.len(self.current_tab_key())
    }

    /// The state after [`Self::clamp_selection`].
    pub open spec fn clamp_selection_leads_to(self, next: App) -> bool {
        &&& next == (App { selected_index: next.selected_index, ..self })
        &&& next.selected_index == {
            let len = visible_rows(self.lists, self.key()) as int;
            if len == 0 {
                0
            } else if self.selected_index < len {
                self.selected_index as int
            } else {
                len - 1
            }
        }
    }

    /// Keep the cursor on a row.
    pub fn clamp_selection(&mut self)
        ensures
            old(self).clamp_selection_leads_to(*final(self)),
    {
        let len: usize = self.list_len();
        if len == 0 {
            self.selected_index = 0;
        } else if self.selected_index >= len {
            self.selected_index = len - 1;
        }
    }

    /// The state after [`Self::reset_selection`].
    pub open spec fn reset_selection_leads_to(self, next: App) -> bool {
        &&& next == (App {
            selected_index: 0,
            search: next.search,
            ..self
        })
        &&& next.search == self.search.with(
            self.key(),
            (TabSearchState {
                selected_index: 0,
                ..self.search.of(self.key())
            }),
        )
    }

    /// Move the cursor to the first row.
    pub fn reset_selection(&mut self)
        ensures
            old(self).reset_selection_leads_to(*final(self)),
    {
        let key = self.current_tab_key();
        self.search.get_mut(key).selected_index = 0;
        self.selected_index = 0;
    }

    pub fn selected_transaction(&self) -> (tx: Option<&Transaction>)
        ensures
            match tx {
                Some(t) => self.selected_tx() == Some(*t),
                None => self.selected_tx() is None,
            },
    {
        self.lists.transaction_at(self.current_tab_key(), self.selected_index)
    }

    /// Toggle the inline transaction detail panel (full description, source
    /// file, and metadata) for the selected row.
    pub fn toggle_view_details(&mut self)
        ensures
            *final(self) == (App { view_details: !old(self).view_details, ..*old(self) }),
    {
        self.view_details = !self.view_details;
    }

    /// Toggle the row summing the amounts of the currently visible
    /// transactions on the Transactions tab.
    pub fn toggle_sum(&mut self)
        ensures
            *final(self) == (App { show_sum: !old(self).show_sum, ..*old(self) }),
    {
        self.show_sum = !self.show_sum;
    }

    /// Dismiss the error popup if one is showing. Returns whether an error was
    /// present and cleared.
    pub fn dismiss_error(&mut self) -> (dismissed: bool)
        ensures
            dismissed == (old(self).error_message is Some),
            *final(self) == (App { error_message: None, ..*old(self) }),
    {
        self.error_message.take().is_some()
    }
}

/// When a message shown at `clock` expires.
pub open spec fn expiry(clock: u64) -> u64 {
    if clock <= u64::MAX - STATUS_DURATION {
        (clock + STATUS_DURATION) as u64
    } else {
        u64::MAX
    }
}

/// The position after `i`, around the end of a list of `len`.
pub open spec fn after(i: int, len: int) -> int {
    if len == 0 {
        0
    } else {
        (i + 1) % len
    }
}

/// The position before `i`, around the start of a list of `len`.
pub open spec fn before(i: int, len: int) -> int {
    if len == 0 {
        0
    } else {
        (i + len - 1) % len
    }
}

pub fn next_wrapping(i: usize, len: usize) -> (next: usize)
    ensures
        next == after(i as int, len as int),
        len > 0 ==> next < len,
{
    if len == 0 {
        return 0;
    }
    let r: usize = i % len;
    proof {
        lemma_wraps(i as int, len as int);
    }
    if r == len - 1 {
        0
    } else {
        r + 1
    }
}

pub fn prev_wrapping(i: usize, len: usize) -> (prev: usize)
    ensures
        prev == before(i as int, len as int),
        len > 0 ==> prev < len,
{
    if len == 0 {
        return 0;
    }
    let r: usize = i % len;
    proof {
        lemma_wraps(i as int, len as int);
    }
    if r == 0 {
        len - 1
    } else {
        r - 1
    }
}

proof fn lemma_wraps(i: int, len: int)
    requires
        0 <= i,
        0 < len,
    ensures
        (i + 1) % len == if i % len == len - 1 {
            0
        } else {
            i % len + 1
        },
        (i + len - 1) % len == if i % len == 0 {
            len - 1
        } else {
            i % len - 1
        },
{
    let q = i / len;
    let r = i % len;
    vstd::arithmetic::div_mod::lemma_fundamental_div_mod(i, len);
    vstd::arithmetic::div_mod::lemma_mod_bound(i, len);
    if r == len - 1 {
        assert(i + 1 == (q + 1) * len + 0) by (nonlinear_arith)
            requires
                i == len * q + r,
                r == len - 1,
        ;
        vstd::arithmetic::div_mod::lemma_fundamental_div_mod_converse(i + 1, len, q + 1, 0);
    } else {
        assert(i + 1 == q * len + (r + 1)) by (nonlinear_arith)
            requires
                i == len * q + r,
        ;
        vstd::arithmetic::div_mod::lemma_fundamental_div_mod_converse(i + 1, len, q, r + 1);
    }
    if r == 0 {
        assert(i + len - 1 == q * len + (len - 1)) by (nonlinear_arith)
            requires
                i == len * q + r,
                r == 0,
        ;
        vstd::arithmetic::div_mod::lemma_fundamental_div_mod_converse(i + len - 1, len, q, len - 1);
    } else {
        assert(i + len - 1 == (q + 1) * len + (r - 1)) by (nonlinear_arith)
            requires
                i == len * q + r,
        ;
        vstd::arithmetic::div_mod::lemma_fundamental_div_mod_converse(
            i + len - 1,
            len,
            q + 1,
            r - 1,
        );
    }
}

/// Going forward and back, or back and forward, ends where it began.
pub proof fn wrapping_round_trip(i: int, len: int)
    requires
        0 <= i < len,
    ensures
        before(after(i, len), len) == i,
        after(before(i, len), len) == i,
{
    lemma_wraps(i, len);
    vstd::arithmetic::div_mod::lemma_small_mod(i as nat, len as nat);
    let n = after(i, len);
    let p = before(i, len);
    lemma_wraps(n, len);
    lemma_wraps(p, len);
    vstd::arithmetic::div_mod::lemma_small_mod(n as nat, len as nat);
    vstd::arithmetic::div_mod::lemma_small_mod(p as nat, len as nat);
}

} // verus!
