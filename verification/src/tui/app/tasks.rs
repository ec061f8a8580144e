//! What the application asks of the store and of the query language.

use vstd::prelude::*;

use super::tabs::TabKey;
use super::InputMode;
use crate::model::{AccountWithBank, Category, FilterOverride, Transaction};

verus! {

/// The single background writer job the TUI can run at a time.
#[derive(Debug, Clone, Copy, PartialEq, Eq, Structural)]
pub enum BackgroundJob {
    Refresh,
    Classify,
    Reindex,
}

impl BackgroundJob {
    pub open spec fn label(self) -> Seq<char> {
        match self {
            BackgroundJob::Refresh => "Refreshing"@,
            BackgroundJob::Classify => "Classifying"@,
            BackgroundJob::Reindex => "Reindexing"@,
        }
    }

    /// Present-progressive label for the tab-bar indicator and the
    /// "<X> in progress" conflict message.
    pub fn gerund(self) -> (label: &'static str)
        ensures
            label@ == self.label(),
    {
        match self {
            BackgroundJob::Refresh => "Refreshing",
            BackgroundJob::Classify => "Classifying",
            BackgroundJob::Reindex => "Reindexing",
        }
    }
}

/// A search bar of the application.
#[derive(Debug, Clone, Copy)]
pub enum BarTarget {
    /// The bar of a tab.
    Tab(TabKey),
    /// The query under edit on the filter edit screen.
    FilterEdit,
}

/// One step on the agenda. Each names the method of `App` that takes its
/// outcome.
#[derive(Debug)]
pub enum Task {
    // ---- loads ----
    /// All categories: `on_categories`.
    LoadCategories,
    /// All live accounts with their banks: `on_accounts`.
    LoadAccounts,
    /// All saved filters: `on_filters`.
    LoadFilters,
    /// The rows of the current tab under its query: `on_rows`.
    LoadRows,
    /// The transactions `missing_review_ids` names: `on_review_transactions`.
    LoadReviewTransactions,
    /// Category paths of the Transactions tab's rows: `on_tx_categories`.
    LoadTxCategories,
    /// Transfers of every loaded transaction: `on_tx_transfers`.
    LoadTxTransfers,
    /// Tags of every loaded transaction: `on_tx_tags`.
    LoadTxTags,
    /// Notes of every loaded transaction: `on_tx_notes`.
    LoadTxNotes,
    /// All tags, most used first: `on_tag_options`.
    LoadTagOptions,
    /// Transactions per category: `on_category_counts`.
    LoadCategoryCounts,
    /// Transactions per account: `on_account_counts`.
    LoadAccountCounts,
    /// The side panel of the selected category: `on_category_panel`.
    LoadCategoryPanel,
    /// The side panel of the selected account: `on_account_panel`.
    LoadAccountPanel,
    /// Categories for the popup's input: `on_suggestions`.
    LoadSuggestions,
    /// Transactions matching the filter under edit: `on_filter_preview`.
    LoadFilterPreview,
    /// What applying the filters would change: `on_apply_preview`.
    PreviewFilters,
    /// Transactions that could pair with `tx`: `on_transfer_candidates`.
    FindCandidates { tx: Transaction },
    /// Transactions and filters of a category: `on_category_usage`.
    CountForCategoryDelete { category: Category },
    /// Transactions of an account: `on_account_usage`.
    CountForAccountDelete { account: AccountWithBank },
    /// Transactions similar to `tx`: `open_bulk_apply_for`.
    OfferSimilar { tx: Transaction, category_path: String },
    /// The category's path: `focus_category`.
    FocusMerged { category_id: i64 },
    // ---- query language ----
    /// Parse a bar's text (`on_parsed`), then complete it (`on_completions`).
    Parse { target: BarTarget },
    /// Parse a bar's text: `on_parsed`.
    ParseOnly { target: BarTarget },
    /// Parse and complete every bar under the current filter options.
    RebuildSearchConfigs,
    // ---- the application's own ----
    /// `apply_fuzzy_filter`.
    ApplyFuzzy,
    /// `clamp_selection`.
    ClampSelection,
    /// `reset_selection`.
    ResetSelection,
    /// `step_back_from_end`.
    StepBackFromEnd,
    /// `focus_category`.
    FocusCategory { path: String },
    /// `focus_account`.
    FocusAccount { path: String },
    /// `focus_filter`.
    FocusFilter { id: i64 },
    /// `open_filter_edit`.
    OpenFilterEdit,
    /// `restore_after_filter_modal`.
    RestoreFilterModal { id: i64 },
    /// `enter_filters`.
    EnterFilters,
    /// `cancel_input`.
    CancelInput,
    /// `show_status`.
    Status { message: String },
    /// `show_error`.
    ShowError { message: String },
    /// `show_classify_report`.
    ShowReport { report: String },
    // ---- changes ----
    /// `on_merged`.
    MergeCategories { source_id: i64, target_id: i64 },
    /// `on_unlinked_for_category`.
    UnlinkForCategory { transfer_id: i64, tx: Transaction, category_path: String },
    /// `on_changed` with "recreate transfer".
    RecreateTransfer { transfer_ids: Vec<i64>, from_id: i64, to_id: i64 },
    /// `on_changed` with "unlink transfer".
    UnlinkTransfer { transfer_id: i64 },
    /// `on_changed` with "remove category".
    RemoveCategory { tx_id: i64 },
    /// `on_category_deleted`.
    DeleteCategory { id: i64 },
    /// `on_account_deleted`.
    DeleteAccount { id: i64 },
    /// `on_filter_deleted`.
    DeleteFilter { id: i64 },
    /// `on_category_set`.
    SetCategory { tx: Transaction, category_path: String },
    /// `on_filter_category_set`.
    SetFilterCategory { filter_id: i64, assigned: Option<String> },
    /// `on_changed` with "confirm AI category".
    ConfirmCategory { tx_id: i64 },
    /// `on_changed` with "confirm transfer".
    ConfirmTransfer { id: i64 },
    /// `on_transfer_created`.
    CreateTransfer { from_id: i64, to_id: i64 },
    /// `on_transfer_deleted`.
    DeleteTransfer { id: i64 },
    /// `on_category_renamed`.
    RenameCategory { category: Category, new_path: String },
    /// `on_account_renamed`.
    RenameAccount { account: AccountWithBank, new_path: String },
    /// `on_filter_created`.
    CreateFilter { name: String },
    /// `on_filter_created_from_query`.
    CreateFilterFromQuery { name: String, query: String, return_mode: InputMode },
    /// `on_filter_renamed`.
    RenameFilter { id: i64, name: String },
    /// `on_filter_query_saved`.
    SetFilterQuery { id: i64, query: String },
    /// `on_filter_setting`.
    SetFilterOverride { id: i64, mode: FilterOverride },
    /// `on_filter_setting`.
    SetFilterReview { id: i64, review: bool },
    /// `on_changed` with "apply filters".
    ApplyFilters,
    /// `on_note_saved`.
    SaveNote { tx_id: i64, text: String },
    /// `on_tags_saved`.
    SaveTags { tx_id: i64, tags: Vec<String> },
    /// `on_bulk_applied` with "apply category".
    BulkCategorise { ids: Vec<i64>, category_path: String },
    /// `on_bulk_applied` with "confirm categories".
    BulkConfirmCategories { ids: Vec<i64> },
    /// `on_bulk_applied` with "confirm transfers".
    BulkConfirmTransfers { ids: Vec<i64> },
    /// Run a background job; its outcome goes to `finish_refresh`,
    /// `finish_classification` or `finish_reindex`.
    StartJob { job: BackgroundJob },
}

/// Rebuilding the per-transaction caches from the loaded lists. Transfer links
/// come from the store for every loaded transaction, never from the list of
/// transfer reviews: that list is not reloaded while another tab is active, and
/// a stale entry would resurrect a transfer just unlinked.
pub open spec fn cache_tasks() -> Seq<Task> {
    seq![
        Task::LoadReviewTransactions,
        Task::LoadTxCategories,
        Task::LoadTxTransfers,
        Task::LoadTxTags,
        Task::LoadTxNotes,
        Task::LoadTagOptions,
        Task::RebuildSearchConfigs,
    ]
}

/// Reloading the current tab.
pub open spec fn reload_tasks() -> Seq<Task> {
    seq![Task::LoadRows] + cache_tasks() + seq![
        Task::ApplyFuzzy,
        Task::ClampSelection,
        Task::LoadCategoryPanel,
        Task::LoadAccountPanel,
    ]
}

/// Reloading everything a change in the store can affect.
pub open spec fn refresh_tasks() -> Seq<Task> {
    seq![Task::LoadCategories, Task::LoadAccounts, Task::RebuildSearchConfigs] + reload_tasks()
        + seq![Task::LoadCategoryCounts, Task::LoadAccountCounts]
}

/// Reloading the categories.
pub open spec fn category_tasks() -> Seq<Task> {
    seq![
        Task::LoadCategories,
        Task::RebuildSearchConfigs,
        Task::LoadCategoryCounts,
        Task::ApplyFuzzy,
        Task::ClampSelection,
        Task::LoadCategoryPanel,
    ]
}

/// Reloading the accounts.
pub open spec fn account_tasks() -> Seq<Task> {
    seq![
        Task::LoadAccounts,
        Task::LoadAccountCounts,
        Task::ApplyFuzzy,
        Task::ClampSelection,
        Task::LoadAccountPanel,
    ]
}

/// Reloading the saved filters.
pub open spec fn filter_tasks() -> Seq<Task> {
    seq![Task::LoadFilters, Task::ApplyFuzzy, Task::ClampSelection]
}

pub fn caches() -> (tasks: Vec<Task>)
    ensures
        tasks@ == cache_tasks(),
{
    vec![
        Task::LoadReviewTransactions,
        Task::LoadTxCategories,
        Task::LoadTxTransfers,
        Task::LoadTxTags,
        Task::LoadTxNotes,
        Task::LoadTagOptions,
        Task::RebuildSearchConfigs,
    ]
}

pub fn reload() -> (tasks: Vec<Task>)
    ensures
        tasks@ == reload_tasks(),
{
    let mut tasks = vec![Task::LoadRows];
    let mut caches = caches();
    tasks.append(&mut caches);
    tasks.push(Task::ApplyFuzzy);
    tasks.push(Task::ClampSelection);
    tasks.push(Task::LoadCategoryPanel);
    tasks.push(Task::LoadAccountPanel);
    assert(tasks@ =~= reload_tasks());
    tasks
}

pub fn refresh() -> (tasks: Vec<Task>)
    ensures
        tasks@ == refresh_tasks(),
{
    let mut tasks = vec![Task::LoadCategories, Task::LoadAccounts, Task::RebuildSearchConfigs];
    let mut rows = reload();
    tasks.append(&mut rows);
    tasks.push(Task::LoadCategoryCounts);
    tasks.push(Task::LoadAccountCounts);
    assert(tasks@ =~= refresh_tasks());
    tasks
}

pub fn categories() -> (tasks: Vec<Task>)
    ensures
        tasks@ == category_tasks(),
{
    vec![
        Task::LoadCategories,
        Task::RebuildSearchConfigs,
        Task::LoadCategoryCounts,
        Task::ApplyFuzzy,
        Task::ClampSelection,
        Task::LoadCategoryPanel,
    ]
}

pub fn accounts() -> (tasks: Vec<Task>)
    ensures
        tasks@ == account_tasks(),
{
    vec![
        Task::LoadAccounts,
        Task::LoadAccountCounts,
        Task::ApplyFuzzy,
        Task::ClampSelection,
        Task::LoadAccountPanel,
    ]
}

pub fn filters() -> (tasks: Vec<Task>)
    ensures
        tasks@ == filter_tasks(),
{
    vec![Task::LoadFilters, Task::ApplyFuzzy, Task::ClampSelection]
}

} // verus!
