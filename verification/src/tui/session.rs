//! The application over its store: carrying out what is on the agenda.
//!
//! [`needs`] says what a task needs from outside. What needs nothing but the
//! store, and the hits of a query, is carried out here; parsing queries, the
//! exports folder and background jobs are left to the program around this
//! crate.

use std::collections::HashMap;

use vstd::prelude::*;
use vstd::std_specs::hash::*;
use vstd::string::*;

use super::app::category_tab::Renamed;
use super::app::confirm::Change;
use super::app::filter_edit::FILTER_EDIT_PREVIEW_LIMIT;
use super::app::filters::FilterSetting;
use super::app::tabs::{source_of, tab_key, tab_source, TabKey, TabLists, TabRows, TabSource};
use super::app::tasks::Task;
use super::app::{keyed, App, BulkAction, LIST_LIMIT};
use crate::model::{
    Account, AccountWithBank, Bank, Category, Filter, Timestamp, Transaction, Transfer,
    TransferSource,
};
use crate::store::annotations::most_used;
use crate::store::categories::{best_first, every_category, scores};
use crate::store::filters::{applying, every_filter};
use crate::store::order::{by_bank_name, by_path, by_position, latest_first, newest_first};
use crate::store::refresh::existing_bank;
use crate::store::select::{lists, lists_up_to, rows_at, selection};
use crate::store::transfers::nearest;
use crate::store::{journal_starts, journalled, joins, Error, Hits, Tables, Tag, TransactionStore};
use crate::sort::sorted;
use crate::text::views;

verus! {

broadcast use group_hash_axioms;

/// What a task needs from outside.
#[derive(Debug, Clone, Copy, PartialEq, Eq, Structural)]
pub enum Need {
    /// Nothing: [`carry_out`] does it.
    Nothing,
    /// The hits of the current tab's query.
    TabHits,
    /// The hits of the query under edit.
    EditHits,
    /// The hits of every filter's query.
    FilterHits,
    /// The transactions similar to one, with their scores.
    Similar,
    /// The query language.
    Parser,
    /// The exports folder.
    Disk,
    /// A background job.
    Job,
}

pub open spec fn need_of(task: Task) -> Need {
    match task {
        Task::LoadRows => Need::TabHits,
        Task::LoadFilterPreview => Need::EditHits,
        Task::PreviewFilters | Task::ApplyFilters => Need::FilterHits,
        Task::OfferSimilar { .. } => Need::Similar,
        Task::Parse { .. } | Task::ParseOnly { .. } | Task::RebuildSearchConfigs => Need::Parser,
        Task::RenameAccount { .. } | Task::DeleteAccount { .. } => Need::Disk,
        Task::StartJob { .. } => Need::Job,
        _ => Need::Nothing,
    }
}

pub fn needs(task: &Task) -> (need: Need)
    ensures
        need == need_of(*task),
{
    match task {
        Task::LoadRows => Need::TabHits,
        Task::LoadFilterPreview => Need::EditHits,
        Task::PreviewFilters | Task::ApplyFilters => Need::FilterHits,
        Task::OfferSimilar { .. } => Need::Similar,
        Task::Parse { .. } | Task::ParseOnly { .. } | Task::RebuildSearchConfigs => Need::Parser,
        Task::RenameAccount { .. } | Task::DeleteAccount { .. } => Need::Disk,
        Task::StartJob { .. } => Need::Job,
        _ => Need::Nothing,
    }
}

/// What a task is handed from outside: the time, and the results of the query
/// language and of the similarity search.
pub struct Outside {
    pub now: Timestamp,
    /// What the query at hand finds.
    pub hits: Hits,
    /// What the query of each filter finds.
    pub found: HashMap<i64, Hits>,
    /// The transactions similar to the one at hand, with their scores.
    pub similar: Vec<(i64, u32)>,
}

/// Which part of the agenda a task belongs to.
#[derive(Debug, Clone, Copy, PartialEq, Eq, Structural)]
pub enum Part {
    List,
    Detail,
    Own,
    Category,
    Link,
    Filter,
    Annotation,
    Outside,
}

pub open spec fn part_of(task: Task) -> Part {
    match task {
        Task::LoadCategories
        | Task::LoadAccounts
        | Task::LoadFilters
        | Task::LoadReviewTransactions
        | Task::LoadTxCategories
        | Task::LoadTxTransfers
        | Task::LoadTxTags
        | Task::LoadTxNotes
        | Task::LoadTagOptions
        | Task::LoadCategoryCounts
        | Task::LoadAccountCounts => Part::List,
        Task::LoadRows
        | Task::LoadCategoryPanel
        | Task::LoadAccountPanel
        | Task::LoadSuggestions
        | Task::LoadFilterPreview
        | Task::PreviewFilters
        | Task::FindCandidates { .. }
        | Task::CountForCategoryDelete { .. }
        | Task::CountForAccountDelete { .. }
        | Task::OfferSimilar { .. }
        | Task::FocusMerged { .. } => Part::Detail,
        Task::ApplyFuzzy
        | Task::ClampSelection
        | Task::ResetSelection
        | Task::StepBackFromEnd
        | Task::FocusCategory { .. }
        | Task::FocusAccount { .. }
        | Task::FocusFilter { .. }
        | Task::OpenFilterEdit
        | Task::RestoreFilterModal { .. }
        | Task::EnterFilters
        | Task::CancelInput
        | Task::Status { .. }
        | Task::ShowError { .. }
        | Task::ShowReport { .. } => Part::Own,
        Task::Parse { .. }
        | Task::ParseOnly { .. }
        | Task::RebuildSearchConfigs
        | Task::RenameAccount { .. }
        | Task::DeleteAccount { .. }
        | Task::StartJob { .. } => Part::Outside,
        Task::MergeCategories { .. }
        | Task::RemoveCategory { .. }
        | Task::DeleteCategory { .. }
        | Task::SetCategory { .. }
        | Task::ConfirmCategory { .. }
        | Task::RenameCategory { .. } => Part::Category,
        Task::UnlinkForCategory { .. }
        | Task::RecreateTransfer { .. }
        | Task::UnlinkTransfer { .. }
        | Task::ConfirmTransfer { .. }
        | Task::CreateTransfer { .. }
        | Task::DeleteTransfer { .. } => Part::Link,
        Task::DeleteFilter { .. }
        | Task::SetFilterCategory { .. }
        | Task::CreateFilter { .. }
        | Task::CreateFilterFromQuery { .. }
        | Task::RenameFilter { .. }
        | Task::SetFilterQuery { .. }
        | Task::SetFilterOverride { .. }
        | Task::SetFilterReview { .. }
        | Task::ApplyFilters => Part::Filter,
        Task::SaveNote { .. }
        | Task::SaveTags { .. }
        | Task::BulkCategorise { .. }
        | Task::BulkConfirmCategories { .. }
        | Task::BulkConfirmTransfers { .. } => Part::Annotation,
    }
}

fn part(task: &Task) -> (part: Part)
    ensures
        part == part_of(*task),
{
    match task {
        Task::LoadCategories
        | Task::LoadAccounts
        | Task::LoadFilters
        | Task::LoadReviewTransactions
        | Task::LoadTxCategories
        | Task::LoadTxTransfers
        | Task::LoadTxTags
        | Task::LoadTxNotes
        | Task::LoadTagOptions
        | Task::LoadCategoryCounts
        | Task::LoadAccountCounts => Part::List,
        Task::LoadRows
        | Task::LoadCategoryPanel
        | Task::LoadAccountPanel
        | Task::LoadSuggestions
        | Task::LoadFilterPreview
        | Task::PreviewFilters
        | Task::FindCandidates { .. }
        | Task::CountForCategoryDelete { .. }
        | Task::CountForAccountDelete { .. }
        | Task::OfferSimilar { .. }
        | Task::FocusMerged { .. } => Part::Detail,
        Task::ApplyFuzzy
        | Task::ClampSelection
        | Task::ResetSelection
        | Task::StepBackFromEnd
        | Task::FocusCategory { .. }
        | Task::FocusAccount { .. }
        | Task::FocusFilter { .. }
        | Task::OpenFilterEdit
        | Task::RestoreFilterModal { .. }
        | Task::EnterFilters
        | Task::CancelInput
        | Task::Status { .. }
        | Task::ShowError { .. }
        | Task::ShowReport { .. } => Part::Own,
        Task::Parse { .. }
        | Task::ParseOnly { .. }
        | Task::RebuildSearchConfigs
        | Task::RenameAccount { .. }
        | Task::DeleteAccount { .. }
        | Task::StartJob { .. } => Part::Outside,
        Task::MergeCategories { .. }
        | Task::RemoveCategory { .. }
        | Task::DeleteCategory { .. }
        | Task::SetCategory { .. }
        | Task::ConfirmCategory { .. }
        | Task::RenameCategory { .. } => Part::Category,
        Task::UnlinkForCategory { .. }
        | Task::RecreateTransfer { .. }
        | Task::UnlinkTransfer { .. }
        | Task::ConfirmTransfer { .. }
        | Task::CreateTransfer { .. }
        | Task::DeleteTransfer { .. } => Part::Link,
        Task::DeleteFilter { .. }
        | Task::SetFilterCategory { .. }
        | Task::CreateFilter { .. }
        | Task::CreateFilterFromQuery { .. }
        | Task::RenameFilter { .. }
        | Task::SetFilterQuery { .. }
        | Task::SetFilterOverride { .. }
        | Task::SetFilterReview { .. }
        | Task::ApplyFilters => Part::Filter,
        Task::SaveNote { .. }
        | Task::SaveTags { .. }
        | Task::BulkCategorise { .. }
        | Task::BulkConfirmCategories { .. }
        | Task::BulkConfirmTransfers { .. } => Part::Annotation,
    }
}

// ==================== Rows of the tabs ====================

/// The rows of a tab under a query.
pub open spec fn rows_for(t: Tables, key: TabKey, hits: Hits, rows: TabRows) -> bool {
    let limit = Some(LIST_LIMIT);
    match source_of(key) {
        TabSource::Transactions => rows matches TabRows::Transactions(r) && lists_up_to(
            r@,
            t.transactions,
            t.found(hits),
            newest_first(),
            limit,
        ),
        TabSource::Transfers => rows matches TabRows::Transfers(r) && exists|ts: Seq<Transfer>|
            #[trigger]
            lists_up_to(ts, t.transfers, t.shown(true, hits), latest_first(), limit) && r@
                == ts.map_values(|x: Transfer| t.sides(x)),
        TabSource::Filters => rows matches TabRows::Filters(r) && lists(
            r@,
            t.filters,
            every_filter(),
            by_position(),
        ),
        TabSource::Uncategorised => rows matches TabRows::Uncategorised(r) && lists_up_to(
            r@,
            t.transactions,
            t.uncategorised(hits),
            newest_first(),
            limit,
        ),
        TabSource::AiReviews => rows matches TabRows::AiReviews(r) && exists|
            txs: Seq<Transaction>,
        | #[trigger]
            lists_up_to(txs, t.transactions, t.under_review(hits), newest_first(), limit) && r@
                == txs.map_values(|tx: Transaction| t.review_of(tx)),
        TabSource::TransferReviews => rows matches TabRows::TransferReviews(r) && lists_up_to(
            r@,
            t.transfers,
            t.pending(hits),
            latest_first(),
            limit,
        ),
        TabSource::Nothing => rows is Unchanged,
    }
}

/// Load the rows of a tab under a query.
pub fn load_rows(store: &TransactionStore, key: TabKey, hits: &Hits) -> (rows: TabRows)
    requires
        store@.keyed(),
    ensures
        rows_for(store@, key, *hits, rows),
{
    let limit = Some(LIST_LIMIT);
    match tab_source(key) {
        TabSource::Transactions => TabRows::Transactions(store.query_transactions(hits, limit)),
        TabSource::Transfers => TabRows::Transfers(
            store.list_transfers_with_transactions(true, hits, limit),
        ),
        TabSource::Filters => TabRows::Filters(store.list_filters()),
        TabSource::Uncategorised => TabRows::Uncategorised(
            store.get_uncategorised_transactions(hits, limit),
        ),
        TabSource::AiReviews => TabRows::AiReviews(store.get_pending_ai_reviews(hits, limit)),
        TabSource::TransferReviews => TabRows::TransferReviews(
            store.get_pending_transfer_reviews(hits, limit),
        ),
        TabSource::Nothing => TabRows::Unchanged,
    }
}

/// The lists of every tab as loaded from the store, with nothing hidden.
pub open spec fn loaded_tabs(t: Tables, tabs: TabLists) -> bool {
    let all = Hits::All;
    let limit = Some(LIST_LIMIT);
    &&& tabs.transactions.rows() == tabs.transactions.all()
    &&& lists_up_to(
        tabs.transactions.all(),
        t.transactions,
        t.found(all),
        newest_first(),
        limit,
    )
    &&& tabs.linked_transfers.rows() == tabs.linked_transfers.all()
    &&& exists|ts: Seq<Transfer>| #[trigger]
        lists_up_to(ts, t.transfers, t.shown(true, all), latest_first(), limit)
            && tabs.linked_transfers.all() == ts.map_values(|x: Transfer| t.sides(x))
    &&& tabs.categories.rows() == tabs.categories.all()
    &&& lists(
        tabs.categories.all(),
        t.categories,
        every_category(),
        by_path(),
    )
    &&& tabs.accounts.rows() == tabs.accounts.all()
    &&& exists|keys: Seq<i64>| #[trigger]
        selection(keys, t.accounts, t.open_account(), t.by_bank()) && tabs.accounts.all().len()
            == keys.len() && forall|i: int|
            0 <= i < keys.len() ==> t.shows_account(keys[i], #[trigger] tabs.accounts.all()[i])
    &&& tabs.uncategorised.rows() == tabs.uncategorised.all()
    &&& lists_up_to(
        tabs.uncategorised.all(),
        t.transactions,
        t.uncategorised(all),
        newest_first(),
        limit,
    )
    &&& tabs.ai_reviews.rows() == tabs.ai_reviews.all()
    &&& exists|txs: Seq<Transaction>| #[trigger]
        lists_up_to(txs, t.transactions, t.under_review(all), newest_first(), limit)
            && tabs.ai_reviews.all() == txs.map_values(|tx: Transaction| t.review_of(tx))
    &&& tabs.transfer_reviews.rows() == tabs.transfer_reviews.all()
    &&& lists_up_to(
        tabs.transfer_reviews.all(),
        t.transfers,
        t.pending(all),
        latest_first(),
        limit,
    )
    &&& tabs.filters.rows() == tabs.filters.all()
    &&& lists(
        tabs.filters.all(),
        t.filters,
        every_filter(),
        by_position(),
    )
}

/// The application over a store, as it opens. `refreshing` says that a refresh is
/// already under way.
pub fn open_app(store: &TransactionStore, refreshing: bool) -> (app: App)
    requires
        store@.keyed(),
    ensures
        loaded_tabs(store@, app.lists),
        exists|banks: Seq<Bank>, accounts: Seq<Account>|
            {
                &&& lists(banks, store@.banks, existing_bank(), by_bank_name())
                &&& lists(accounts, store@.accounts, store@.open_account(), store@.by_bank())
                &&& #[trigger] app.opened(banks, accounts, refreshing)
            },
        app.editors_valid(),
{
    let hits = Hits::All;
    let limit = Some(LIST_LIMIT);
    let lists = TabLists::load(
        store.query_transactions(&hits, limit),
        store.list_transfers_with_transactions(true, &hits, limit),
        store.list_categories(),
        store.list_accounts_with_bank(),
        store.get_uncategorised_transactions(&hits, limit),
        store.get_pending_ai_reviews(&hits, limit),
        store.get_pending_transfer_reviews(&hits, limit),
        store.list_filters(),
    );
    App::new_with_refreshing(lists, store.list_banks(), store.list_open_accounts(), refreshing)
}

// ==================== Outcomes ====================

/// The outcome with its error in words.
pub open spec fn told<T>(outcome: Result<T, Error>, text: Result<T, String>) -> bool {
    match (outcome, text) {
        (Ok(a), Ok(b)) => a == b,
        (Err(e), Err(m)) => m@ == e.words(),
        _ => false,
    }
}

fn tell<T>(outcome: Result<T, Error>) -> (text: Result<T, String>)
    ensures
        told(outcome, text),
{
    match outcome {
        Ok(value) => Ok(value),
        Err(e) => Err(e.message()),
    }
}

/// The outcome without its value, its error in words.
pub open spec fn told_done<T>(outcome: Result<T, Error>, text: Result<(), String>) -> bool {
    match outcome {
        Ok(_) => text is Ok,
        Err(e) => text matches Err(m) && m@ == e.words(),
    }
}

fn tell_done<T>(outcome: Result<T, Error>) -> (text: Result<(), String>)
    ensures
        told_done(outcome, text),
{
    match outcome {
        Ok(_) => Ok(()),
        Err(e) => Err(e.message()),
    }
}

/// What a rename gave, for the application: where the path is taken, the category
/// there and how many transactions a merge would move.
pub open spec fn renamed_as(
    t: Tables,
    category_id: i64,
    outcome: Result<(), Error>,
    renamed: Renamed,
) -> bool {
    match outcome {
        Ok(_) => renamed is Done,
        Err(Error::CategoryExists(path)) => {
            &&& renamed matches Renamed::Taken { existing_path, merge }
            &&& existing_path == path
            &&& match merge {
                Some(m) => {
                    &&& t.categories.contains_key(m.0)
                    &&& t.categories[m.0].path@ == crate::store::categories::normal_path(path@)
                    &&& m.1 matches Ok(n)
                    &&& n == t.members(category_id).len()
                },
                None => !t.has_path(crate::store::categories::normal_path(path@)),
            }
        },
        Err(e) => renamed matches Renamed::Failed(m) && m@ == e.words(),
    }
}

fn rename(store: &TransactionStore, category_id: i64, outcome: Result<(), Error>) -> (renamed:
    Renamed)
    requires
        store@.keyed(),
    ensures
        renamed_as(store@, category_id, outcome, renamed),
{
    match outcome {
        Ok(_) => Renamed::Done,
        Err(Error::CategoryExists(path)) => {
            let merge = match store.get_category_by_path(&path) {
                Some(target) => Some(
                    (target.id, Ok(store.count_transactions_in_category(category_id))),
                ),
                None => None,
            };
            Renamed::Taken { existing_path: path, merge }
        },
        Err(e) => Renamed::Failed(e.message()),
    }
}

// ==================== Loads ====================

/// The rows of the transactions that are live, in the order of the ids.
pub open spec fn present(t: Tables, ids: Seq<i64>) -> Seq<(i64, Transaction)>
    decreases ids.len(),
{
    if ids.len() == 0 {
        Seq::empty()
    } else {
        let before = present(t, ids.drop_last());
        if t.has_live(ids.last()) {
            before.push((ids.last(), t.transactions[ids.last()]))
        } else {
            before
        }
    }
}

fn present_rows(store: &TransactionStore, ids: &Vec<i64>) -> (rows: Vec<(i64, Transaction)>)
    ensures
        rows@ == present(store@, ids@),
{
    let found = store.get_transactions_by_ids(ids);
    let mut rows: Vec<(i64, Transaction)> = Vec::new();
    let mut i: usize = 0;
    assert(ids@.take(0) =~= Seq::empty());
    while i < ids.len()
        invariant
            i <= ids@.len(),
            found@ == store@.live_among(ids@.to_set()),
            rows@ == present(store@, ids@.take(i as int)),
        decreases ids@.len() - i,
    {
        assert(ids@.take(i + 1).drop_last() =~= ids@.take(i as int));
        assert(ids@.to_set().contains(ids@[i as int]));
        if let Some(tx) = found.get(&ids[i]) {
            rows.push((ids[i], tx.clone()));
        }
        i += 1;
    }
    assert(ids@.take(i as int) =~= ids@);
    rows
}

/// The categories that the popup suggests for an input.
pub open spec fn suggests(t: Tables, input: Seq<char>, rows: Seq<Category>) -> bool {
    if input.len() == 0 {
        lists(rows, t.categories, every_category(), by_path())
    } else {
        sorted(rows, best_first(input)) && exists|all: Seq<Category>| #[trigger]
            lists(all, t.categories, every_category(), by_path()) && rows.to_multiset()
                == all.filter(scores(input)).to_multiset()
    }
}

/// Names of tags, as listed.
pub open spec fn names_tags(t: Tables, names: Seq<String>) -> bool {
    exists|tags: Seq<Tag>| #[trigger]
        sorted(tags, most_used(t)) && names.len() == tags.len() && (forall|i: int|
            0 <= i < tags.len() ==> (#[trigger] names[i])@ == tags[i].name@) && exists|
            keys: Seq<i64>,
        |
            #![trigger keys.no_duplicates()]
            keys.no_duplicates() && (forall|k: i64| #[trigger]
                keys.contains(k) <==> t.tags.contains_key(k)) && tags.to_multiset() == rows_at(
                t.tags,
                keys,
            ).to_multiset()
}

fn tag_options(store: &TransactionStore) -> (names: Vec<String>)
    ensures
        names_tags(store@, names@),
{
    let tags = store.list_tags();
    let mut names: Vec<String> = Vec::new();
    let mut i: usize = 0;
    while i < tags.len()
        invariant
            i <= tags@.len(),
            names@.len() == i,
            forall|j: int| 0 <= j < i ==> (#[trigger] names@[j])@ == tags@[j].name@,
        decreases tags@.len() - i,
    {
        names.push(tags[i].name.clone());
        i += 1;
    }
    names
}

/// The category paths of transactions.
pub open spec fn gives_paths(t: Tables, ids: Seq<i64>, m: Map<i64, String>) -> bool {
    &&& forall|tx: i64| #[trigger]
        m.contains_key(tx) <==> ids.contains(tx) && t.category_of(tx) is Some
    &&& forall|tx: i64| #[trigger] m.contains_key(tx) ==> m[tx]@ == t.category_of(tx)->0.path@
}

/// The transfers of transactions.
pub open spec fn gives_links(t: Tables, ids: Seq<i64>, m: Map<i64, Transfer>) -> bool {
    &&& forall|tx: i64| #[trigger]
        m.contains_key(tx) <==> exists|x: i64| #[trigger]
            t.touches(x, ids) && joins(t.transfers[x], tx)
    &&& forall|tx: i64| #[trigger]
        m.contains_key(tx) ==> exists|x: i64| #[trigger]
            t.last_link(ids, tx, x) && t.transfers[x] == m[tx]
}

/// The tags of transactions.
pub open spec fn gives_tags(t: Tables, ids: Seq<i64>, m: Map<i64, Vec<String>>) -> bool {
    &&& forall|tx: i64| #[trigger]
        m.contains_key(tx) <==> ids.contains(tx) && t.tagged.contains_key(tx)
    &&& forall|tx: i64| #[trigger] m.contains_key(tx) ==> views(m[tx]@) == t.tagged[tx]
}

/// The notes of transactions.
pub open spec fn gives_notes(t: Tables, ids: Seq<i64>, m: Map<i64, String>) -> bool {
    &&& forall|tx: i64| #[trigger]
        m.contains_key(tx) <==> ids.contains(tx) && t.notes.contains_key(tx)
    &&& forall|tx: i64| #[trigger] m.contains_key(tx) ==> m[tx]@ == t.notes[tx]
}

/// The state after a list or a cache was loaded.
pub open spec fn loaded_lists(app: App, t: Tables, task: Task, next: App) -> bool {
    match task {
        Task::LoadCategories => exists|rows: Vec<Category>|
            lists(rows@, t.categories, every_category(), by_path()) && #[trigger]
            app.on_categories_leads_to(Ok(rows), next),
        Task::LoadAccounts => exists|keys: Seq<i64>, rows: Vec<AccountWithBank>|
            #[trigger] selection(keys, t.accounts, t.open_account(), t.by_bank()) && rows@.len()
                == keys.len() && (forall|i: int|
                0 <= i < keys.len() ==> t.shows_account(keys[i], #[trigger] rows@[i]))
                && #[trigger] app.on_accounts_leads_to(Ok(rows), next),
        Task::LoadFilters => exists|rows: Vec<Filter>|
            lists(rows@, t.filters, every_filter(), by_position()) && #[trigger]
            app.on_filters_leads_to(Ok(rows), next),
        Task::LoadReviewTransactions => exists|
            ids: Vec<i64>,
            mid: App,
            rows: Vec<(i64, Transaction)>,
        |
            #[trigger] app.missing_review_ids_leads_to(ids, mid) && rows@ == present(t, ids@)
                && #[trigger] mid.on_review_transactions_leads_to(Ok(rows), next),
        Task::LoadTxCategories => exists|ids: Vec<i64>, m: HashMap<i64, String>|
            ids@ == app.lists.transactions.all().map_values(|tx: Transaction| tx.id)
                && #[trigger] gives_paths(t, ids@, m@) && #[trigger]
            app.on_tx_categories_leads_to(Ok(m), next),
        Task::LoadTxTransfers => exists|ids: Vec<i64>, m: HashMap<i64, Transfer>|
            ids@.to_set() == app.tx_by_id@.dom() && #[trigger] gives_links(t, ids@, m@)
                && #[trigger] app.on_tx_transfers_leads_to(Ok(m), next),
        Task::LoadTxTags => exists|ids: Vec<i64>, m: HashMap<i64, Vec<String>>|
            ids@.to_set() == app.tx_by_id@.dom() && #[trigger] gives_tags(t, ids@, m@)
                && #[trigger] app.on_tx_tags_leads_to(Ok(m), next),
        Task::LoadTxNotes => exists|ids: Vec<i64>, m: HashMap<i64, String>|
            ids@.to_set() == app.tx_by_id@.dom() && #[trigger] gives_notes(t, ids@, m@)
                && #[trigger] app.on_tx_notes_leads_to(Ok(m), next),
        Task::LoadTagOptions => exists|names: Vec<String>|
            names_tags(t, names@) && #[trigger] app.on_tag_options_leads_to(Ok(names), next),
        Task::LoadCategoryCounts => exists|m: HashMap<i64, usize>|
            (forall|c: i64| #[trigger] m@.contains_key(c) <==> t.members(c).len() > 0) && (forall|
                c: i64,
            | #[trigger] m@.contains_key(c) ==> m@[c] == t.members(c).len()) && #[trigger]
            app.on_category_counts_leads_to(Ok(m), next),
        Task::LoadAccountCounts => exists|m: HashMap<i64, usize>|
            (forall|a: i64| #[trigger] m@.contains_key(a) <==> t.holdings(a).len() > 0) && (forall|
                a: i64,
            | #[trigger] m@.contains_key(a) ==> m@[a] == t.holdings(a).len()) && #[trigger]
            app.on_account_counts_leads_to(Ok(m), next),
        _ => false,
    }
}

fn load_lists(app: &mut App, store: &TransactionStore, task: &Task)
    requires
        store@.keyed(),
        part_of(*task) == Part::List,
    ensures
        loaded_lists(*old(app), store@, *task, *final(app)),
{
    match task {
        Task::LoadCategories => {
            let rows = store.list_categories();
            app.on_categories(Ok(rows));
        },
        Task::LoadAccounts => {
            let rows = store.list_accounts_with_bank();
            let ghost t = store@;
            app.on_accounts(Ok(rows));
            proof {
                let keys = choose|keys: Seq<i64>| #[trigger]
                    selection(keys, t.accounts, t.open_account(), t.by_bank()) && rows@.len()
                        == keys.len() && forall|i: int|
                        0 <= i < keys.len() ==> t.shows_account(keys[i], #[trigger] rows@[i]);
                assert(selection(keys, t.accounts, t.open_account(), t.by_bank()));
            }
        },
        Task::LoadFilters => {
            let rows = store.list_filters();
            app.on_filters(Ok(rows));
        },
        Task::LoadReviewTransactions => {
            let ids = app.missing_review_ids();
            let ghost mid = *app;
            assert(old(app).missing_review_ids_leads_to(ids, mid));
            let rows = present_rows(store, &ids);
            app.on_review_transactions(Ok(rows));
        },
        Task::LoadTxCategories => {
            let ids = app.listed_ids();
            let m = store.get_categories_for_transactions(&ids);
            assert(gives_paths(store@, ids@, m@));
            app.on_tx_categories(Ok(m));
        },
        Task::LoadTxTransfers => {
            let ids = app.loaded_ids();
            let m = store.get_transfers_for_transactions(&ids);
            assert(gives_links(store@, ids@, m@));
            app.on_tx_transfers(Ok(m));
        },
        Task::LoadTxTags => {
            let ids = app.loaded_ids();
            let m = store.tags_for_transactions(&ids);
            assert(gives_tags(store@, ids@, m@));
            app.on_tx_tags(Ok(m));
        },
        Task::LoadTxNotes => {
            let ids = app.loaded_ids();
            let m = store.notes_for_transactions(&ids);
            assert(gives_notes(store@, ids@, m@));
            app.on_tx_notes(Ok(m));
        },
        Task::LoadTagOptions => {
            let names = tag_options(store);
            app.on_tag_options(Ok(names));
        },
        Task::LoadCategoryCounts => {
            let m = store.get_category_transaction_counts();
            app.on_category_counts(Ok(m));
        },
        Task::LoadAccountCounts => {
            let m = store.get_account_transaction_counts();
            app.on_account_counts(Ok(m));
        },
        _ => {},
    }
}

/// The state after the rows of a tab, a panel or a popup were loaded.
pub open spec fn loaded_detail(
    app: App,
    t: Tables,
    task: Task,
    outside: Outside,
    next: App,
) -> bool {
    match task {
        Task::LoadRows => exists|rows: TabRows|
            rows_for(t, app.key(), outside.hits, rows) && #[trigger] app.on_rows_leads_to(
                Ok(rows),
                next,
            ),
        Task::LoadCategoryPanel => exists|rows: Vec<Transaction>|
            (app.panel_category() matches Some(id) ==> lists_up_to(
                rows@,
                t.transactions,
                t.in_category(id),
                newest_first(),
                Some(LIST_LIMIT),
            )) && #[trigger] app.on_category_panel_leads_to(Ok(rows), next),
        Task::LoadAccountPanel => exists|rows: Vec<Transaction>|
            (app.panel_account() matches Some(id) ==> lists_up_to(
                rows@,
                t.transactions,
                t.in_account(id),
                newest_first(),
                Some(LIST_LIMIT),
            )) && #[trigger] app.on_account_panel_leads_to(Ok(rows), next),
        Task::LoadSuggestions => exists|rows: Vec<Category>|
            suggests(t, app.category_input@, rows@) && #[trigger] app.on_suggestions_leads_to(
                Ok(rows),
                outside.now,
                next,
            ),
        Task::LoadFilterPreview => exists|rows: Vec<Transaction>|
            lists_up_to(
                rows@,
                t.transactions,
                t.found(outside.hits),
                newest_first(),
                Some(FILTER_EDIT_PREVIEW_LIMIT),
            ) && #[trigger] app.on_filter_preview_leads_to(Ok(rows), next),
        Task::PreviewFilters => exists|rows: Vec<Transaction>|
            t.previewed(outside.found@, rows@) && #[trigger] app.on_apply_preview_leads_to(
                Ok(rows),
                next,
            ),
        Task::FindCandidates { tx } => exists|rows: Vec<Transaction>|
            lists(
                rows@,
                t.transactions,
                t.counterparts(tx, t.has_counterpart_elsewhere(tx)),
                nearest(tx),
            ) && #[trigger] app.on_transfer_candidates_leads_to(tx, Ok(rows), next),
        Task::CountForCategoryDelete { category } => exists|n: usize, m: usize|
            n == t.members(category.id).len() && (exists|rows: Seq<Filter>| #[trigger]
                lists(rows, t.filters, applying(category.id), by_position()) && m == rows.len())
                && #[trigger] app.on_category_usage_leads_to(&category, Ok(n), Ok(m), next),
        Task::CountForAccountDelete { account } => exists|n: usize|
            n == t.holdings(account.id).len() && #[trigger] app.on_account_usage_leads_to(
                &account,
                Ok(n),
                next,
            ),
        Task::OfferSimilar { tx, category_path } => exists|candidates: HashMap<i64, Transaction>|
            (exists|rows: Seq<Transaction>| #[trigger]
                lists_up_to(
                    rows,
                    t.transactions,
                    t.unconfirmed(Hits::All),
                    newest_first(),
                    None,
                ) && candidates@ == keyed(Map::empty(), rows, |tx: Transaction| tx.id))
                && #[trigger] app.open_bulk_apply_for_leads_to(
                category_path,
                &outside.similar,
                &candidates,
                next,
            ),
        Task::FocusMerged { category_id } => if t.categories.contains_key(category_id) {
            exists|path: &str|
                path@ == t.categories[category_id].path@ && #[trigger] app.focus_category_leads_to(
                    path,
                    next,
                )
        } else {
            next == app
        },
        _ => false,
    }
}

fn load_detail(app: &mut App, store: &TransactionStore, task: Task, outside: &Outside)
    requires
        store@.keyed(),
        part_of(task) == Part::Detail,
    ensures
        loaded_detail(*old(app), store@, task, *outside, *final(app)),
{
    match task {
        Task::LoadRows => {
            let rows = load_rows(store, tab_key(app.current_tab, app.todo_subtab), &outside.hits);
            app.on_rows(Ok(rows));
        },
        Task::LoadCategoryPanel => {
            let rows = match app.category_panel_id() {
                Some(id) => store.query_transactions_in_category(id, Some(LIST_LIMIT)),
                None => Vec::new(),
            };
            app.on_category_panel(Ok(rows));
        },
        Task::LoadAccountPanel => {
            let rows = match app.account_panel_id() {
                Some(id) => store.query_transactions_in_account(id, Some(LIST_LIMIT)),
                None => Vec::new(),
            };
            app.on_account_panel(Ok(rows));
        },
        Task::LoadSuggestions => {
            let rows = if app.category_input.as_str().is_empty() {
                store.list_categories()
            } else {
                store.find_categories(&app.category_input)
            };
            app.on_suggestions(Ok(rows), outside.now);
        },
        Task::LoadFilterPreview => {
            let rows = store.query_transactions(&outside.hits, Some(FILTER_EDIT_PREVIEW_LIMIT));
            app.on_filter_preview(Ok(rows));
        },
        Task::PreviewFilters => {
            let rows = store.preview_filters(&outside.found);
            app.on_apply_preview(Ok(rows));
        },
        Task::FindCandidates { tx } => {
            let rows = store.find_matching_transfer_candidates(&tx);
            app.on_transfer_candidates(tx, Ok(rows));
        },
        Task::CountForCategoryDelete { category } => {
            let n: usize = store.count_transactions_in_category(category.id);
            let m: usize = store.filters_using_category(category.id).len();
            app.on_category_usage(&category, Ok(n), Ok(m));
        },
        Task::CountForAccountDelete { account } => {
            let n: usize = store.count_transactions_in_account(account.id);
            app.on_account_usage(&account, Ok(n));
        },
        Task::OfferSimilar { tx: _, category_path } => {
            let rows = store.get_unconfirmed_transactions(&Hits::All, None);
            let candidates = transactions_by_id(&rows);
            app.open_bulk_apply_for(category_path, &outside.similar, &candidates);
        },
        Task::FocusMerged { category_id } => {
            if let Some(category) = store.get_category(category_id) {
                app.focus_category(&category.path);
            }
        },
        _ => {},
    }
}

fn transactions_by_id(rows: &Vec<Transaction>) -> (m: HashMap<i64, Transaction>)
    ensures
        m@ == keyed(Map::empty(), rows@, |tx: Transaction| tx.id),
{
    let mut m: HashMap<i64, Transaction> = HashMap::new();
    let ghost id_of = |tx: Transaction| tx.id;
    let mut i: usize = 0;
    assert(rows@.take(0) =~= Seq::empty());
    while i < rows.len()
        invariant
            i <= rows@.len(),
            id_of == (|tx: Transaction| tx.id),
            m@ == keyed(Map::empty(), rows@.take(i as int), id_of),
        decreases rows@.len() - i,
    {
        assert(rows@.take(i + 1).drop_last() =~= rows@.take(i as int));
        m.insert(rows[i].id, rows[i].clone());
        i += 1;
    }
    assert(rows@.take(i as int) =~= rows@);
    m
}

// ==================== Changes ====================

/// A change of categories: the store takes it, and the application its outcome.
pub open spec fn changed_category(
    app: App,
    before: TransactionStore,
    task: Task,
    outside: Outside,
    next: App,
    after: TransactionStore,
) -> bool {
    let now = outside.now;
    match task {
        Task::MergeCategories { source_id, target_id } => {
            &&& before.merge_categories_leads_to(source_id, target_id, now, after)
            &&& app.on_merged_leads_to(target_id, Ok(()), next)
        },
        Task::RemoveCategory { tx_id } => {
            &&& before.delete_enrichment_leads_to(tx_id, after)
            &&& app.on_changed_leads_to(Change::RemoveCategory, Ok(()), next)
        },
        Task::DeleteCategory { id } => exists|result: usize|
            {
                &&& #[trigger] before.delete_category_leads_to(id, result, after)
                &&& app.on_category_deleted_leads_to(Ok(()), next)
            },
        Task::SetCategory { tx, category_path } => exists|
            text: &str,
            result: Result<i64, Error>,
            outcome: Result<(), String>,
        |
            {
                &&& text@ == category_path@
                &&& #[trigger] before.categorise_leads_to(tx.id, text, now, result, after)
                &&& told_done(result, outcome)
                &&& #[trigger] app.on_category_set_leads_to(tx, category_path, outcome, next)
            },
        Task::ConfirmCategory { tx_id } => {
            &&& before.confirm_category_leads_to(tx_id, now, after)
            &&& app.on_changed_leads_to(Change::ConfirmCategory, Ok(()), next)
        },
        Task::RenameCategory { category, new_path } => exists|
            text: &str,
            result: Result<(), Error>,
            outcome: Renamed,
        |
            {
                &&& text@ == new_path@
                &&& #[trigger] before.rename_category_leads_to(category.id, text, result, after)
                &&& renamed_as(after@, category.id, result, outcome)
                &&& #[trigger] app.on_category_renamed_leads_to(category, new_path, outcome, next)
            },
        _ => false,
    }
}

fn change_category(app: &mut App, store: &mut TransactionStore, task: Task, outside: &Outside)
    requires
        old(store)@.keyed(),
        part_of(task) == Part::Category,
    ensures
        changed_category(*old(app), *old(store), task, *outside, *final(app), *final(store)),
        journalled(*old(store), *final(store)),
        final(store)@.keyed(),
        old(store)@.exclusive() ==> final(store)@.exclusive(),
{
    let now = outside.now;
    match task {
        Task::MergeCategories { source_id, target_id } => {
            store.merge_categories(source_id, target_id, now);
            app.on_merged(target_id, Ok(()));
        },
        Task::RemoveCategory { tx_id } => {
            store.delete_enrichment(tx_id);
            app.on_changed(Change::RemoveCategory, Ok(()));
        },
        Task::DeleteCategory { id } => {
            let result: usize = store.delete_category(id);
            app.on_category_deleted(Ok(()));
        },
        Task::SetCategory { tx, category_path } => {
            let text = category_path.as_str();
            let result = store.categorise(tx.id, text, now);
            let ghost given = result;
            let outcome = tell_done(result);
            assert(old(store).categorise_leads_to(tx.id, text, now, given, *store));
            app.on_category_set(tx, category_path, outcome);
        },
        Task::ConfirmCategory { tx_id } => {
            store.confirm_category(tx_id, now);
            app.on_changed(Change::ConfirmCategory, Ok(()));
        },
        Task::RenameCategory { category, new_path } => {
            let text = new_path.as_str();
            let result = store.rename_category(category.id, text);
            let ghost given = result;
            let outcome = rename(store, category.id, result);
            assert(old(store).rename_category_leads_to(category.id, text, given, *store));
            app.on_category_renamed(category, new_path, outcome);
        },
        _ => {},
    }
}

/// A change of transfers: the store takes it, and the application its outcome.
pub open spec fn changed_transfer(
    app: App,
    before: TransactionStore,
    task: Task,
    outside: Outside,
    next: App,
    after: TransactionStore,
) -> bool {
    let now = outside.now;
    match task {
        Task::UnlinkForCategory { transfer_id, tx, category_path } => {
            &&& before.delete_transfer_leads_to(transfer_id, after)
            &&& app.on_unlinked_for_category_leads_to(tx, category_path, Ok(()), next)
        },
        Task::RecreateTransfer { transfer_ids, from_id, to_id } => exists|
            result: Result<i64, Error>,
            outcome: Result<(), String>,
        |
            {
                &&& #[trigger] before.recreate_transfer_leads_to(
                    &transfer_ids,
                    from_id,
                    to_id,
                    now,
                    result,
                    after,
                )
                &&& told_done(result, outcome)
                &&& #[trigger] app.on_changed_leads_to(Change::RecreateTransfer, outcome, next)
            },
        Task::UnlinkTransfer { transfer_id } => {
            &&& before.delete_transfer_leads_to(transfer_id, after)
            &&& app.on_changed_leads_to(Change::UnlinkTransfer, Ok(()), next)
        },
        Task::ConfirmTransfer { id } => {
            &&& before.confirm_transfer_leads_to(id, after)
            &&& app.on_changed_leads_to(Change::ConfirmTransfer, Ok(()), next)
        },
        Task::CreateTransfer { from_id, to_id } => exists|
            result: Result<i64, Error>,
            outcome: Result<(), String>,
        |
            {
                &&& #[trigger] before.create_transfer_leads_to(
                    from_id,
                    to_id,
                    TransferSource::Manual,
                    true,
                    None,
                    now,
                    result,
                    after,
                )
                &&& told_done(result, outcome)
                &&& #[trigger] app.on_transfer_created_leads_to(outcome, next)
            },
        Task::DeleteTransfer { id } => {
            &&& before.delete_transfer_leads_to(id, after)
            &&& app.on_transfer_deleted_leads_to(Ok(()), next)
        },
        _ => false,
    }
}

fn change_transfer(app: &mut App, store: &mut TransactionStore, task: Task, outside: &Outside)
    requires
        old(store)@.keyed(),
        part_of(task) == Part::Link,
    ensures
        changed_transfer(*old(app), *old(store), task, *outside, *final(app), *final(store)),
        journalled(*old(store), *final(store)),
        final(store)@.keyed(),
        old(store)@.exclusive() ==> final(store)@.exclusive(),
{
    let now = outside.now;
    match task {
        Task::UnlinkForCategory { transfer_id, tx, category_path } => {
            store.delete_transfer(transfer_id);
            app.on_unlinked_for_category(tx, category_path, Ok(()));
        },
        Task::RecreateTransfer { transfer_ids, from_id, to_id } => {
            let result = store.recreate_transfer(&transfer_ids, from_id, to_id, now);
            let outcome = tell_done(result);
            app.on_changed(Change::RecreateTransfer, outcome);
        },
        Task::UnlinkTransfer { transfer_id } => {
            store.delete_transfer(transfer_id);
            app.on_changed(Change::UnlinkTransfer, Ok(()));
        },
        Task::ConfirmTransfer { id } => {
            store.confirm_transfer(id);
            app.on_changed(Change::ConfirmTransfer, Ok(()));
        },
        Task::CreateTransfer { from_id, to_id } => {
            let result = store.create_transfer(
                from_id,
                to_id,
                TransferSource::Manual,
                true,
                None,
                now,
            );
            let outcome = tell_done(result);
            app.on_transfer_created(outcome);
        },
        Task::DeleteTransfer { id } => {
            store.delete_transfer(id);
            app.on_transfer_deleted(Ok(()));
        },
        _ => {},
    }
}

/// A change of saved filters: the store takes it, and the application its outcome.
pub open spec fn changed_filter(
    app: App,
    before: TransactionStore,
    task: Task,
    outside: Outside,
    next: App,
    after: TransactionStore,
) -> bool {
    let now = outside.now;
    match task {
        Task::DeleteFilter { id } => {
            &&& before.delete_filter_leads_to(id, after)
            &&& app.on_filter_deleted_leads_to(Ok(()), next)
        },
        Task::SetFilterCategory { filter_id, assigned } => exists|
            result: Result<(), Error>,
            outcome: Result<(), String>,
        |
            {
                &&& #[trigger] before.assign_filter_leads_to(
                    filter_id,
                    &assigned,
                    now,
                    result,
                    after,
                )
                &&& told_done(result, outcome)
                &&& #[trigger] app.on_filter_category_set_leads_to(
                    filter_id,
                    &assigned,
                    outcome,
                    next,
                )
            },
        Task::CreateFilter { name } => exists|
            text: &str,
            query_text: &str,
            result: Result<i64, Error>,
            outcome: Result<i64, String>,
        |
            {
                &&& text@ == name@
                &&& query_text@ == ""@
                &&& #[trigger] before.create_filter_leads_to(text, query_text, now, result, after)
                &&& told(result, outcome)
                &&& #[trigger] app.on_filter_created_leads_to(name, outcome, next)
            },
        Task::CreateFilterFromQuery { name, query, return_mode } => exists|
            text: &str,
            query_text: &str,
            result: Result<i64, Error>,
            outcome: Result<i64, String>,
        |
            {
                &&& text@ == name@
                &&& query_text@ == query@
                &&& #[trigger] before.create_filter_leads_to(text, query_text, now, result, after)
                &&& told(result, outcome)
                &&& #[trigger] app.on_filter_created_from_query_leads_to(
                    name,
                    query,
                    return_mode,
                    outcome,
                    next,
                )
            },
        Task::RenameFilter { id, name } => exists|text: &str|
            {
                &&& text@ == name@
                &&& #[trigger] before.rename_filter_leads_to(id, text, after)
                &&& app.on_filter_renamed_leads_to(id, name, Ok(()), next)
            },
        Task::SetFilterQuery { id, query } => exists|text: &str|
            {
                &&& text@ == query@
                &&& #[trigger] before.set_filter_query_leads_to(id, text, after)
                &&& app.on_filter_query_saved_leads_to(Ok(()), next)
            },
        Task::SetFilterOverride { id, mode } => {
            &&& before.set_filter_override_leads_to(id, mode, after)
            &&& app.on_filter_setting_leads_to(FilterSetting::Override, Ok(()), next)
        },
        Task::SetFilterReview { id, review } => {
            &&& before.set_filter_review_leads_to(id, review, after)
            &&& app.on_filter_setting_leads_to(FilterSetting::Review, Ok(()), next)
        },
        Task::ApplyFilters => exists|result: Result<usize, Error>, outcome: Result<(), String>|
            {
                &&& #[trigger] before.apply_filters_leads_to(&outside.found, now, result, after)
                &&& told_done(result, outcome)
                &&& #[trigger] app.on_changed_leads_to(Change::ApplyFilters, outcome, next)
            },
        _ => false,
    }
}

fn change_filter(app: &mut App, store: &mut TransactionStore, task: Task, outside: &Outside)
    requires
        old(store)@.keyed(),
        part_of(task) == Part::Filter,
    ensures
        changed_filter(*old(app), *old(store), task, *outside, *final(app), *final(store)),
        journalled(*old(store), *final(store)),
        final(store)@.keyed(),
        old(store)@.exclusive() ==> final(store)@.exclusive(),
{
    let now = outside.now;
    match task {
        Task::DeleteFilter { id } => {
            store.delete_filter(id);
            app.on_filter_deleted(Ok(()));
        },
        Task::SetFilterCategory { filter_id, assigned } => {
            let result = store.assign_filter(filter_id, &assigned, now);
            let outcome = tell_done(result);
            app.on_filter_category_set(filter_id, &assigned, outcome);
        },
        Task::CreateFilter { name } => {
            let text = name.as_str();
            let query_text = "";
            let result = store.create_filter(text, query_text, now);
            let ghost given = result;
            let outcome = tell(result);
            assert(old(store).create_filter_leads_to(text, query_text, now, given, *store));
            app.on_filter_created(name, outcome);
        },
        Task::CreateFilterFromQuery { name, query, return_mode } => {
            let text = name.as_str();
            let query_text = query.as_str();
            let result = store.create_filter(text, query_text, now);
            let ghost given = result;
            let outcome = tell(result);
            assert(old(store).create_filter_leads_to(text, query_text, now, given, *store));
            app.on_filter_created_from_query(name, query, return_mode, outcome);
        },
        Task::RenameFilter { id, name } => {
            let text = name.as_str();
            store.rename_filter(id, text);
            assert(old(store).rename_filter_leads_to(id, text, *store));
            app.on_filter_renamed(id, name, Ok(()));
        },
        Task::SetFilterQuery { id, query } => {
            let text = query.as_str();
            store.set_filter_query(id, text);
            assert(old(store).set_filter_query_leads_to(id, text, *store));
            app.on_filter_query_saved(Ok(()));
        },
        Task::SetFilterOverride { id, mode } => {
            store.set_filter_override(id, mode);
            app.on_filter_setting(FilterSetting::Override, Ok(()));
        },
        Task::SetFilterReview { id, review } => {
            store.set_filter_review(id, review);
            app.on_filter_setting(FilterSetting::Review, Ok(()));
        },
        Task::ApplyFilters => {
            let result = store.apply_filters(&outside.found, now);
            let outcome = tell_done(result);
            app.on_changed(Change::ApplyFilters, outcome);
        },
        _ => {},
    }
}

/// A note, tags, or a bulk change: the store takes it, and the application its outcome.
pub open spec fn annotated(
    app: App,
    before: TransactionStore,
    task: Task,
    outside: Outside,
    next: App,
    after: TransactionStore,
) -> bool {
    let now = outside.now;
    match task {
        Task::SaveNote { tx_id, text: note } => exists|text: &str, result: bool|
            {
                &&& text@ == note@
                &&& #[trigger] before.set_note_leads_to(tx_id, text, result, after)
                &&& app.on_note_saved_leads_to(Ok(result), next)
            },
        Task::SaveTags { tx_id, tags } => exists|
            result: Result<Vec<String>, Error>,
            outcome: Result<Vec<String>, String>,
        |
            {
                &&& #[trigger] before.set_transaction_tags_leads_to(
                    tx_id,
                    &tags,
                    now,
                    result,
                    after,
                )
                &&& told(result, outcome)
                &&& #[trigger] app.on_tags_saved_leads_to(outcome, next)
            },
        Task::BulkCategorise { ids, category_path } => exists|
            text: &str,
            result: Result<usize, Error>,
            outcome: Result<(), String>,
        |
            {
                &&& text@ == category_path@
                &&& #[trigger] before.categorise_all_leads_to(&ids, text, now, result, after)
                &&& told_done(result, outcome)
                &&& #[trigger] app.on_bulk_applied_leads_to(
                    &BulkAction::ApplyCategory { category_path },
                    outcome,
                    next,
                )
            },
        Task::BulkConfirmCategories { ids } => {
            &&& before.categories_confirmed(ids@, now, after)
            &&& app.on_bulk_applied_leads_to(&BulkAction::ConfirmCategories, Ok(()), next)
        },
        Task::BulkConfirmTransfers { ids } => {
            &&& before.transfers_confirmed(ids@, after)
            &&& app.on_bulk_applied_leads_to(&BulkAction::ConfirmTransfers, Ok(()), next)
        },
        _ => false,
    }
}

fn annotate(app: &mut App, store: &mut TransactionStore, task: Task, outside: &Outside)
    requires
        old(store)@.keyed(),
        part_of(task) == Part::Annotation,
    ensures
        annotated(*old(app), *old(store), task, *outside, *final(app), *final(store)),
        journalled(*old(store), *final(store)),
        final(store)@.keyed(),
        old(store)@.exclusive() ==> final(store)@.exclusive(),
{
    let now = outside.now;
    match task {
        Task::SaveNote { tx_id, text } => {
            let note = text.as_str();
            let result: bool = store.set_note(tx_id, note);
            assert(old(store).set_note_leads_to(tx_id, note, result, *store));
            app.on_note_saved(Ok(result));
        },
        Task::SaveTags { tx_id, tags } => {
            let result = store.set_transaction_tags(tx_id, &tags, now);
            let outcome = tell(result);
            app.on_tags_saved(outcome);
        },
        Task::BulkCategorise { ids, category_path } => {
            let text = category_path.as_str();
            let result = store.categorise_all(&ids, text, now);
            let ghost given = result;
            let outcome = tell_done(result);
            assert(old(store).categorise_all_leads_to(&ids, text, now, given, *store));
            app.on_bulk_applied(&BulkAction::ApplyCategory { category_path }, outcome);
        },
        Task::BulkConfirmCategories { ids } => {
            store.confirm_categories(&ids, now);
            app.on_bulk_applied(&BulkAction::ConfirmCategories, Ok(()));
        },
        Task::BulkConfirmTransfers { ids } => {
            store.confirm_transfers(&ids);
            app.on_bulk_applied(&BulkAction::ConfirmTransfers, Ok(()));
        },
        _ => {},
    }
}

// ==================== The agenda ====================

/// The state after a task of the application's own.
pub open spec fn stepped(app: App, task: Task, next: App) -> bool {
    match task {
        Task::ApplyFuzzy => app.apply_fuzzy_filter_leads_to(next),
        Task::ClampSelection => app.clamp_selection_leads_to(next),
        Task::ResetSelection => app.reset_selection_leads_to(next),
        Task::StepBackFromEnd => app.step_back_from_end_leads_to(next),
        Task::FocusCategory { path } => exists|text: &str|
            text@ == path@ && #[trigger] app.focus_category_leads_to(text, next),
        Task::FocusAccount { path } => exists|text: &str|
            text@ == path@ && #[trigger] app.focus_account_leads_to(text, next),
        Task::FocusFilter { id } => app.focus_filter_leads_to(id, next),
        Task::OpenFilterEdit => app.open_filter_edit_leads_to(next),
        Task::RestoreFilterModal { id } => app.restore_after_filter_modal_leads_to(id, next),
        Task::EnterFilters => app.enter_filters_leads_to(next),
        Task::CancelInput => app.cancelled(next),
        Task::Status { message } => app.show_status_leads_to(message, next),
        Task::ShowError { message } => app.show_error_leads_to(message, next),
        Task::ShowReport { report } => app.show_classify_report_leads_to(report, next),
        _ => false,
    }
}

fn step(app: &mut App, task: Task)
    requires
        part_of(task) == Part::Own,
    ensures
        stepped(*old(app), task, *final(app)),
{
    match task {
        Task::ApplyFuzzy => app.apply_fuzzy_filter(),
        Task::ClampSelection => app.clamp_selection(),
        Task::ResetSelection => app.reset_selection(),
        Task::StepBackFromEnd => app.step_back_from_end(),
        Task::FocusCategory { path } => {
            let text = path.as_str();
            app.focus_category(text);
            assert(old(app).focus_category_leads_to(text, *app));
        },
        Task::FocusAccount { path } => {
            let text = path.as_str();
            app.focus_account(text);
            assert(old(app).focus_account_leads_to(text, *app));
        },
        Task::FocusFilter { id } => app.focus_filter(id),
        Task::OpenFilterEdit => app.open_filter_edit(),
        Task::RestoreFilterModal { id } => app.restore_after_filter_modal(id),
        Task::EnterFilters => app.enter_filters(),
        Task::CancelInput => app.cancel_input(),
        Task::Status { message } => app.show_status(message),
        Task::ShowError { message } => app.show_error(message),
        Task::ShowReport { report } => app.show_classify_report(report),
        _ => {},
    }
}

/// The application and the store after a task was carried out.
pub open spec fn done(
    app: App,
    before: TransactionStore,
    task: Task,
    outside: Outside,
    next: App,
    after: TransactionStore,
) -> bool {
    match part_of(task) {
        Part::List => loaded_lists(app, before@, task, next) && after == before,
        Part::Detail => loaded_detail(app, before@, task, outside, next) && after == before,
        Part::Own => stepped(app, task, next) && after == before,
        Part::Category => changed_category(app, before, task, outside, next, after),
        Part::Link => changed_transfer(app, before, task, outside, next, after),
        Part::Filter => changed_filter(app, before, task, outside, next, after),
        Part::Annotation => annotated(app, before, task, outside, next, after),
        Part::Outside => next == app && after == before,
    }
}

/// Carry out a task over the store. A task for which [`needs`] names the query
/// language, the exports folder or a background job is left to the program
/// around this crate.
pub fn carry_out(app: &mut App, store: &mut TransactionStore, task: Task, outside: &Outside)
    requires
        old(store)@.keyed(),
    ensures
        done(*old(app), *old(store), task, *outside, *final(app), *final(store)),
        journalled(*old(store), *final(store)),
        final(store)@.keyed(),
        old(store)@.exclusive() ==> final(store)@.exclusive(),
{
    proof {
        journal_starts(*store);
    }
    match part(&task) {
        Part::List => load_lists(app, store, &task),
        Part::Detail => load_detail(app, store, task, outside),
        Part::Own => step(app, task),
        Part::Category => change_category(app, store, task, outside),
        Part::Link => change_transfer(app, store, task, outside),
        Part::Filter => change_filter(app, store, task, outside),
        Part::Annotation => annotate(app, store, task, outside),
        Part::Outside => {},
    }
}

} // verus!
