//! Tab definitions and per-tab list dispatch.
//!
//! Every piece of per-tab behaviour — what data backs a tab, how fuzzy
//! filtering matches its rows, which tabs expose selectable transactions —
//! lives in this file.

use std::collections::HashMap;

use vstd::prelude::*;
use vstd::std_specs::hash::*;

use crate::fuzzy::{score_of, FuzzyMatcher};
use crate::model::{
    AccountWithBank, Category, Filter, Transaction, TransactionWithEnrichment, Transfer,
    TransferWithTransactions,
};
use crate::tag::{alphanumeric, lowercase};
use crate::text::to_chars;
use crate::tui::filtered_list::FilteredList;

verus! {

broadcast use group_hash_axioms;

#[derive(Debug, Clone, Copy, PartialEq, Eq, Structural)]
pub enum Tab {
    Todo,
    Transactions,
    Categories,
    Accounts,
    Transfers,
    Filters,
}

impl Tab {
    /// The tabs in display order.
    pub open spec fn order() -> Seq<Tab> {
        seq![
            Tab::Todo,
            Tab::Transactions,
            Tab::Categories,
            Tab::Accounts,
            Tab::Transfers,
            Tab::Filters,
        ]
    }

    /// Position in the display order.
    pub open spec fn place(self) -> int {
        match self {
            Tab::Todo => 0,
            Tab::Transactions => 1,
            Tab::Categories => 2,
            Tab::Accounts => 3,
            Tab::Transfers => 4,
            Tab::Filters => 5,
        }
    }

    pub fn all() -> (tabs: [Tab; 6])
        ensures
            tabs@ == Self::order(),
            forall|t: Tab| tabs@[#[trigger] t.place()] == t,
    {
        [
            Tab::Todo,
            Tab::Transactions,
            Tab::Categories,
            Tab::Accounts,
            Tab::Transfers,
            Tab::Filters,
        ]
    }

    pub open spec fn name(self) -> Seq<char> {
        match self {
            Tab::Todo => "Todo"@,
            Tab::Transactions => "Transactions"@,
            Tab::Categories => "Categories"@,
            Tab::Accounts => "Accounts"@,
            Tab::Transfers => "Transfers"@,
            Tab::Filters => "Filters"@,
        }
    }

    pub fn title(&self) -> (title: &'static str)
        ensures
            title@ == self.name(),
    {
        match self {
            Tab::Todo => "Todo",
            Tab::Transactions => "Transactions",
            Tab::Categories => "Categories",
            Tab::Accounts => "Accounts",
            Tab::Transfers => "Transfers",
            Tab::Filters => "Filters",
        }
    }

    /// Position in [`Tab::all`].
    pub fn position(self) -> (i: usize)
        ensures
            i == self.place(),
    {
        match self {
            Tab::Todo => 0,
            Tab::Transactions => 1,
            Tab::Categories => 2,
            Tab::Accounts => 3,
            Tab::Transfers => 4,
            Tab::Filters => 5,
        }
    }
}

#[derive(Debug, Clone, Copy, PartialEq, Eq, Structural)]
pub enum TodoSubTab {
    Uncategorised,
    AiReview,
    TransferReview,
}

impl TodoSubTab {
    /// The subtabs in display order.
    pub open spec fn order() -> Seq<TodoSubTab> {
        seq![TodoSubTab::Uncategorised, TodoSubTab::AiReview, TodoSubTab::TransferReview]
    }

    /// Position in the display order.
    pub open spec fn place(self) -> int {
        match self {
            TodoSubTab::Uncategorised => 0,
            TodoSubTab::AiReview => 1,
            TodoSubTab::TransferReview => 2,
        }
    }

    pub fn all() -> (subtabs: [TodoSubTab; 3])
        ensures
            subtabs@ == Self::order(),
            forall|t: TodoSubTab| subtabs@[#[trigger] t.place()] == t,
    {
        [TodoSubTab::Uncategorised, TodoSubTab::AiReview, TodoSubTab::TransferReview]
    }

    pub open spec fn name(self) -> Seq<char> {
        match self {
            TodoSubTab::Uncategorised => "Uncategorised"@,
            TodoSubTab::AiReview => "AI Review"@,
            TodoSubTab::TransferReview => "Transfer Review"@,
        }
    }

    pub fn title(&self) -> (title: &'static str)
        ensures
            title@ == self.name(),
    {
        match self {
            TodoSubTab::Uncategorised => "Uncategorised",
            TodoSubTab::AiReview => "AI Review",
            TodoSubTab::TransferReview => "Transfer Review",
        }
    }

    /// Position in [`TodoSubTab::all`].
    pub fn position(self) -> (i: usize)
        ensures
            i == self.place(),
    {
        match self {
            TodoSubTab::Uncategorised => 0,
            TodoSubTab::AiReview => 1,
            TodoSubTab::TransferReview => 2,
        }
    }
}

/// Key for per-tab search state. The subtab is only meaningful on the Todo tab
/// (where each subtab gets its own state); all other tabs use `None` so that
/// switching the Todo subtab while on, say, Transactions doesn't silently fork
/// the saved search state.
pub type TabKey = (Tab, Option<TodoSubTab>);

/// The key of a tab, with the subtab where it matters.
pub open spec fn key_of(tab: Tab, subtab: TodoSubTab) -> TabKey {
    if tab == Tab::Todo {
        (Tab::Todo, Some(subtab))
    } else {
        (tab, None)
    }
}

pub fn tab_key(tab: Tab, subtab: TodoSubTab) -> (key: TabKey)
    ensures
        key == key_of(tab, subtab),
{
    match tab {
        Tab::Todo => (Tab::Todo, Some(subtab)),
        other => (other, None),
    }
}

/// The name of a key: the subtab's on the Todo tab, else the tab's.
pub open spec fn key_name(key: TabKey) -> Seq<char> {
    match key {
        (Tab::Todo, Some(sub)) => sub.name(),
        (tab, _) => tab.name(),
    }
}

/// Human-readable name for a tab key, for error messages.
pub fn tab_title(key: TabKey) -> (title: &'static str)
    ensures
        title@ == key_name(key),
{
    match key {
        (Tab::Todo, Some(sub)) => sub.title(),
        (tab, _) => tab.title(),
    }
}

/// Two tabs with their subtabs share their search state only if they are the
/// same tab and, on the Todo tab, the same subtab.
pub proof fn keys_do_not_fork(a: Tab, x: TodoSubTab, b: Tab, y: TodoSubTab)
    ensures
        key_of(a, x) == key_of(b, y) <==> a == b && (a == Tab::Todo ==> x == y),
{
}

/// The subtab a key stands for; a Todo key without one means Uncategorised.
pub open spec fn subtab_of(sub: Option<TodoSubTab>) -> TodoSubTab {
    match sub {
        Some(s) => s,
        None => TodoSubTab::Uncategorised,
    }
}

/// Whether a typed pattern matches a text.
pub open spec fn hit(pattern: Seq<char>, text: Seq<char>) -> bool {
    score_of(pattern, text) is Some
}

/// Whether a boundary stands before position `i`: the start of the text, or a
/// character that is neither letter nor digit.
pub open spec fn boundary(text: Seq<char>, i: int) -> bool {
    i == 0 || !alphanumeric(text[i - 1])
}

/// Whether `query` begins at some boundary of `path`, both in lower case.
pub open spec fn starts_at_boundary(path: Seq<char>, query: Seq<char>) -> bool {
    let p = lowercase(path);
    let q = lowercase(query);
    query.len() == 0 || exists|i: int|
        0 <= i < p.len() && boundary(p, i) && #[trigger] occurs_at(p, q, i)
}

/// Whether `q` stands in `p` at position `i`.
pub open spec fn occurs_at(p: Seq<char>, q: Seq<char>, i: int) -> bool {
    i + q.len() <= p.len() && p.subrange(i, i + q.len()) == q
}

fn occurs(p: &Vec<char>, q: &Vec<char>, i: usize) -> (yes: bool)
    requires
        i <= p@.len(),
    ensures
        yes == occurs_at(p@, q@, i as int),
{
    if p.len() - i < q.len() {
        return false;
    }
    let mut k: usize = 0;
    while k < q.len()
        invariant
            i <= p@.len(),
            k <= q@.len(),
            i + q@.len() <= p@.len(),
            p@.len() <= usize::MAX,
            p@.subrange(i as int, i + k) == q@.take(k as int),
        decreases q@.len() - k,
    {
        if p[i + k] != q[k] {
            assert(p@.subrange(i as int, i + q@.len())[k as int] != q@[k as int]);
            return false;
        }
        assert(p@.subrange(i as int, i + k + 1) =~= p@.subrange(i as int, i + k).push(
            p@[i + k],
        ));
        assert(q@.take(k + 1) =~= q@.take(k as int).push(q@[k as int]));
        k += 1;
    }
    assert(q@.take(k as int) =~= q@);
    true
}

/// True if `query` is a case-insensitive prefix of `path` starting at any
/// boundary: the start of the string or immediately after a non-alphanumeric
/// character. Empty query matches everything.
pub fn boundary_prefix(path: &str, query: &str) -> (yes: bool)
    ensures
        yes == starts_at_boundary(path@, query@),
{
    if query.is_empty() {
        return true;
    }
    let p = to_chars(&path.to_lowercase());
    let q = to_chars(&query.to_lowercase());
    let mut i: usize = 0;
    while i < p.len()
        invariant
            i <= p@.len(),
            p@ == lowercase(path@),
            q@ == lowercase(query@),
            forall|j: int| 0 <= j < i ==> !(boundary(p@, j) && #[trigger] occurs_at(p@, q@, j)),
        decreases p@.len() - i,
    {
        if (i == 0 || !p[i - 1].is_alphanumeric()) && occurs(&p, &q, i) {
            assert(boundary(p@, i as int));
            return true;
        }
        i += 1;
    }
    false
}

/// The data behind every tab. All key-driven behaviour goes through the
/// dispatch methods below so that per-tab logic stays in this file.
pub struct TabLists {
    pub transactions: FilteredList<Transaction>,
    pub linked_transfers: FilteredList<TransferWithTransactions>,
    pub categories: FilteredList<Category>,
    pub accounts: FilteredList<AccountWithBank>,
    pub uncategorised: FilteredList<Transaction>,
    pub ai_reviews: FilteredList<TransactionWithEnrichment>,
    pub transfer_reviews: FilteredList<Transfer>,
    pub filters: FilteredList<Filter>,
}

/// The rows of one tab, as loaded from the store.
pub enum TabRows {
    Transactions(Vec<Transaction>),
    Transfers(Vec<TransferWithTransactions>),
    Filters(Vec<Filter>),
    Uncategorised(Vec<Transaction>),
    AiReviews(Vec<TransactionWithEnrichment>),
    TransferReviews(Vec<Transfer>),
    /// The tab keeps the rows it has: it reloads on its own occasions.
    Unchanged,
}

/// What a tab's rows are loaded from.
#[derive(Debug, Clone, Copy, PartialEq, Eq, Structural)]
pub enum TabSource {
    Transactions,
    Transfers,
    Filters,
    Uncategorised,
    AiReviews,
    TransferReviews,
    /// Nothing: the tab reloads on its own occasions.
    Nothing,
}

/// What the rows of a key are loaded from.
pub open spec fn source_of(key: TabKey) -> TabSource {
    match key.0 {
        Tab::Transactions => TabSource::Transactions,
        Tab::Transfers => TabSource::Transfers,
        Tab::Categories => TabSource::Nothing,
        Tab::Accounts => TabSource::Nothing,
        Tab::Filters => TabSource::Filters,
        Tab::Todo => match subtab_of(key.1) {
            TodoSubTab::Uncategorised => TabSource::Uncategorised,
            TodoSubTab::AiReview => TabSource::AiReviews,
            TodoSubTab::TransferReview => TabSource::TransferReviews,
        },
    }
}

pub fn tab_source(key: TabKey) -> (source: TabSource)
    ensures
        source == source_of(key),
{
    match key {
        (Tab::Transactions, _) => TabSource::Transactions,
        (Tab::Transfers, _) => TabSource::Transfers,
        (Tab::Categories, _) => TabSource::Nothing,
        (Tab::Accounts, _) => TabSource::Nothing,
        (Tab::Filters, _) => TabSource::Filters,
        (Tab::Todo, sub) => match sub.unwrap_or(TodoSubTab::Uncategorised) {
            TodoSubTab::Uncategorised => TabSource::Uncategorised,
            TodoSubTab::AiReview => TabSource::AiReviews,
            TodoSubTab::TransferReview => TabSource::TransferReviews,
        },
    }
}

/// The list shows all of `items`.
pub open spec fn shows_all<T>(list: FilteredList<T>, items: Seq<T>) -> bool {
    list.all() == items && list.rows() == items
}

/// The list holds what it held, and shows the items that `keep` holds of.
pub open spec fn shows_only<T>(
    list: FilteredList<T>,
    before: FilteredList<T>,
    keep: spec_fn(T) -> bool,
) -> bool {
    list.all() == before.all() && list.rows() == before.all().filter(keep)
}

/// Whether a transaction is visible under a typed pattern.
pub open spec fn tx_visible(pattern: Seq<char>, tx: Transaction) -> bool {
    pattern.len() == 0 || hit(pattern, tx.description@)
}

/// Whether a linked transfer is visible: either side may match.
pub open spec fn linked_visible(pattern: Seq<char>, twt: TransferWithTransactions) -> bool {
    pattern.len() == 0 || hit(pattern, twt.from_transaction.description@) || hit(
        pattern,
        twt.to_transaction.description@,
    )
}

/// Whether a transfer under review is visible: either side may match. One
/// whose sides are not both known stays visible — hiding it would silently
/// drop work.
pub open spec fn review_visible(
    pattern: Seq<char>,
    tx_by_id: Map<i64, Transaction>,
    tr: Transfer,
) -> bool {
    pattern.len() == 0 || !tx_by_id.contains_key(tr.from_transaction_id) || !tx_by_id.contains_key(
        tr.to_transaction_id,
    ) || hit(pattern, tx_by_id[tr.from_transaction_id].description@) || hit(
        pattern,
        tx_by_id[tr.to_transaction_id].description@,
    )
}

/// Whether a path is visible: the query begins at a boundary of it and the
/// pattern matches it.
pub open spec fn path_visible(db_query: Seq<char>, pattern: Seq<char>, path: Seq<char>) -> bool {
    starts_at_boundary(path, db_query) && (pattern.len() == 0 || hit(pattern, path))
}

/// Whether a saved filter is visible: the pattern matches its name or its text.
pub open spec fn filter_visible(pattern: Seq<char>, f: Filter) -> bool {
    pattern.len() == 0 || hit(pattern, f.name@) || hit(pattern, f.query@)
}

/// The transaction of a row, for the tabs whose rows are transactions or wrap
/// one.
pub open spec fn row_transactions(lists: TabLists, key: TabKey) -> Seq<Transaction> {
    match key {
        (Tab::Transactions, _) => lists.transactions.rows(),
        (Tab::Todo, Some(TodoSubTab::Uncategorised)) => lists.uncategorised.rows(),
        (Tab::Todo, Some(TodoSubTab::AiReview)) => lists.ai_reviews.rows().map_values(
            |r: TransactionWithEnrichment| r.transaction,
        ),
        _ => Seq::empty(),
    }
}

/// Number of visible rows behind a key.
pub open spec fn visible_rows(lists: TabLists, key: TabKey) -> nat {
    match key.0 {
        Tab::Transactions => lists.transactions.rows().len(),
        Tab::Transfers => lists.linked_transfers.rows().len(),
        Tab::Categories => lists.categories.rows().len(),
        Tab::Accounts => lists.accounts.rows().len(),
        Tab::Filters => lists.filters.rows().len(),
        Tab::Todo => match subtab_of(key.1) {
            TodoSubTab::Uncategorised => lists.uncategorised.rows().len(),
            TodoSubTab::AiReview => lists.ai_reviews.rows().len(),
            TodoSubTab::TransferReview => lists.transfer_reviews.rows().len(),
        },
    }
}

/// The lists after loading `rows`.
pub open spec fn reloaded(before: TabLists, rows: TabRows, after: TabLists) -> bool {
    match rows {
        TabRows::Transactions(items) => shows_all(after.transactions, items@) && after == (
        TabLists { transactions: after.transactions, ..before }),
        TabRows::Transfers(items) => shows_all(after.linked_transfers, items@) && after == (
        TabLists { linked_transfers: after.linked_transfers, ..before }),
        TabRows::Filters(items) => shows_all(after.filters, items@) && after == (TabLists {
            filters: after.filters,
            ..before
        }),
        TabRows::Uncategorised(items) => shows_all(after.uncategorised, items@) && after == (
        TabLists { uncategorised: after.uncategorised, ..before }),
        TabRows::AiReviews(items) => shows_all(after.ai_reviews, items@) && after == (TabLists {
            ai_reviews: after.ai_reviews,
            ..before
        }),
        TabRows::TransferReviews(items) => shows_all(after.transfer_reviews, items@) && after == (
        TabLists { transfer_reviews: after.transfer_reviews, ..before }),
        TabRows::Unchanged => after == before,
    }
}

/// The lists after filtering the one behind `key`.
pub open spec fn refiltered(
    before: TabLists,
    key: TabKey,
    db_query: Seq<char>,
    pattern: Seq<char>,
    tx_by_id: Map<i64, Transaction>,
    after: TabLists,
) -> bool {
    match key.0 {
        Tab::Transactions => shows_only(
            after.transactions,
            before.transactions,
            |tx: Transaction| tx_visible(pattern, tx),
        ) && after == (TabLists { transactions: after.transactions, ..before }),
        Tab::Transfers => shows_only(
            after.linked_transfers,
            before.linked_transfers,
            |twt: TransferWithTransactions| linked_visible(pattern, twt),
        ) && after == (TabLists { linked_transfers: after.linked_transfers, ..before }),
        Tab::Categories => shows_only(
            after.categories,
            before.categories,
            |c: Category| path_visible(db_query, pattern, c.path@),
        ) && after == (TabLists { categories: after.categories, ..before }),
        Tab::Accounts => shows_only(
            after.accounts,
            before.accounts,
            |a: AccountWithBank| path_visible(db_query, pattern, a.path@),
        ) && after == (TabLists { accounts: after.accounts, ..before }),
        Tab::Filters => shows_only(
            after.filters,
            before.filters,
            |f: Filter| filter_visible(pattern, f),
        ) && after == (TabLists { filters: after.filters, ..before }),
        Tab::Todo => match subtab_of(key.1) {
            TodoSubTab::Uncategorised => shows_only(
                after.uncategorised,
                before.uncategorised,
                |tx: Transaction| tx_visible(pattern, tx),
            ) && after == (TabLists { uncategorised: after.uncategorised, ..before }),
            TodoSubTab::AiReview => shows_only(
                after.ai_reviews,
                before.ai_reviews,
                |r: TransactionWithEnrichment| tx_visible(pattern, r.transaction),
            ) && after == (TabLists { ai_reviews: after.ai_reviews, ..before }),
            TodoSubTab::TransferReview => shows_only(
                after.transfer_reviews,
                before.transfer_reviews,
                |tr: Transfer| review_visible(pattern, tx_by_id, tr),
            ) && after == (TabLists { transfer_reviews: after.transfer_reviews, ..before }),
        },
    }
}

proof fn lemma_filter_true<T>(items: Seq<T>, keep: spec_fn(T) -> bool)
    requires
        forall|t: T| #[trigger] keep(t),
    ensures
        items.filter(keep) == items,
    decreases items.len(),
{
    reveal(Seq::filter);
    if items.len() > 0 {
        lemma_filter_true(items.drop_last(), keep);
        assert(keep(items.last()));
        assert(items =~= items.drop_last().push(items.last()));
    } else {
        assert(items.filter(keep) =~= items);
    }
}

/// Apply `visible` as the list's filter, or show everything when the pattern
/// is empty.
pub(crate) fn refilter_by<T, F: Fn(&T) -> bool>(
    list: &mut FilteredList<T>,
    pattern: &str,
    visible: F,
    Ghost(keep): Ghost<spec_fn(T) -> bool>,
)
    requires
        forall|t: T| #[trigger] call_requires(visible, (&t,)),
        forall|t: T, b: bool|
            pattern@.len() > 0 && #[trigger] call_ensures(visible, (&t,), b) ==> b == keep(t),
        pattern@.len() == 0 ==> forall|t: T| #[trigger] keep(t),
    ensures
        shows_only(*final(list), *old(list), keep),
{
    if pattern.is_empty() {
        list.show_all();
        proof {
            lemma_filter_true(list.all(), keep);
        }
    } else {
        list.refilter_where(visible, Ghost(keep));
    }
}

impl TabLists {
    /// The lists behind every tab with no filters applied.
    pub fn load(
        transactions: Vec<Transaction>,
        linked_transfers: Vec<TransferWithTransactions>,
        categories: Vec<Category>,
        accounts: Vec<AccountWithBank>,
        uncategorised: Vec<Transaction>,
        ai_reviews: Vec<TransactionWithEnrichment>,
        transfer_reviews: Vec<Transfer>,
        filters: Vec<Filter>,
    ) -> (lists: Self)
        ensures
            shows_all(lists.transactions, transactions@),
            shows_all(lists.linked_transfers, linked_transfers@),
            shows_all(lists.categories, categories@),
            shows_all(lists.accounts, accounts@),
            shows_all(lists.uncategorised, uncategorised@),
            shows_all(lists.ai_reviews, ai_reviews@),
            shows_all(lists.transfer_reviews, transfer_reviews@),
            shows_all(lists.filters, filters@),
    {
        TabLists {
            transactions: FilteredList::new(transactions),
            linked_transfers: FilteredList::new(linked_transfers),
            categories: FilteredList::new(categories),
            accounts: FilteredList::new(accounts),
            uncategorised: FilteredList::new(uncategorised),
            ai_reviews: FilteredList::new(ai_reviews),
            transfer_reviews: FilteredList::new(transfer_reviews),
            filters: FilteredList::new(filters),
        }
    }

    /// Take over the rows loaded for a tab; they are all visible.
    pub fn reload(&mut self, rows: TabRows)
        ensures
            reloaded(*old(self), rows, *final(self)),
    {
        match rows {
            TabRows::Transactions(items) => self.transactions = FilteredList::new(items),
            TabRows::Transfers(items) => self.linked_transfers = FilteredList::new(items),
            TabRows::Filters(items) => self.filters = FilteredList::new(items),
            TabRows::Uncategorised(items) => self.uncategorised = FilteredList::new(items),
            TabRows::AiReviews(items) => self.ai_reviews = FilteredList::new(items),
            TabRows::TransferReviews(items) => self.transfer_reviews = FilteredList::new(items),
            TabRows::Unchanged => {},
        }
    }

    /// Number of visible rows in the list behind `key`.
    pub fn len(&self, key: TabKey) -> (n: usize)
        ensures
            n == visible_rows(*self, key),
    {
        match key {
            (Tab::Transactions, _) => self.transactions.len(),
            (Tab::Transfers, _) => self.linked_transfers.len(),
            (Tab::Categories, _) => self.categories.len(),
            (Tab::Accounts, _) => self.accounts.len(),
            (Tab::Filters, _) => self.filters.len(),
            (Tab::Todo, sub) => match sub.unwrap_or(TodoSubTab::Uncategorised) {
                TodoSubTab::Uncategorised => self.uncategorised.len(),
                TodoSubTab::AiReview => self.ai_reviews.len(),
                TodoSubTab::TransferReview => self.transfer_reviews.len(),
            },
        }
    }

    /// Re-apply in-memory filters to the list behind `key`. Most tabs ignore
    /// `db_query` because their search has already been pushed to SQL during
    /// reload; Categories and Accounts apply `db_query` as an in-memory
    /// boundary-prefix filter over the path, then layer fuzzy matching over it.
    /// `tx_by_id` resolves the transaction IDs held by transfer reviews.
    pub fn apply_fuzzy(
        &mut self,
        key: TabKey,
        db_query: &str,
        pattern: &str,
        matcher: &FuzzyMatcher,
        tx_by_id: &HashMap<i64, Transaction>,
    )
        ensures
            refiltered(*old(self), key, db_query@, pattern@, tx_by_id@, *final(self)),
    {
        match key {
            (Tab::Transactions, _) => {
                let visible = |tx: &Transaction| -> (b: bool)
                    ensures
                        b == hit(pattern@, tx.description@),
                { matcher.fuzzy_matches(pattern, &tx.description) };
                refilter_by(
                    &mut self.transactions,
                    pattern,
                    visible,
                    Ghost(|tx: Transaction| tx_visible(pattern@, tx)),
                );
            },
            (Tab::Transfers, _) => {
                let visible = |twt: &TransferWithTransactions| -> (b: bool)
                    ensures
                        b == (hit(pattern@, twt.from_transaction.description@) || hit(
                            pattern@,
                            twt.to_transaction.description@,
                        )),
                {
                    matcher.fuzzy_matches(pattern, &twt.from_transaction.description)
                        || matcher.fuzzy_matches(pattern, &twt.to_transaction.description)
                };
                refilter_by(
                    &mut self.linked_transfers,
                    pattern,
                    visible,
                    Ghost(|twt: TransferWithTransactions| linked_visible(pattern@, twt)),
                );
            },
            (Tab::Categories, _) => {
                let visible = |c: &Category| -> (b: bool)
                    ensures
                        b == path_visible(db_query@, pattern@, c.path@),
                { boundary_prefix(&c.path, db_query) && matcher.fuzzy_matches(pattern, &c.path) };
                self.categories.refilter_where(
                    visible,
                    Ghost(|c: Category| path_visible(db_query@, pattern@, c.path@)),
                );
            },
            (Tab::Accounts, _) => {
                let visible = |a: &AccountWithBank| -> (b: bool)
                    ensures
                        b == path_visible(db_query@, pattern@, a.path@),
                { boundary_prefix(&a.path, db_query) && matcher.fuzzy_matches(pattern, &a.path) };
                self.accounts.refilter_where(
                    visible,
                    Ghost(|a: AccountWithBank| path_visible(db_query@, pattern@, a.path@)),
                );
            },
            (Tab::Filters, _) => {
                let visible = |f: &Filter| -> (b: bool)
                    ensures
                        b == (hit(pattern@, f.name@) || hit(pattern@, f.query@)),
                {
                    matcher.fuzzy_matches(pattern, &f.name) || matcher.fuzzy_matches(
                        pattern,
                        &f.query,
                    )
                };
                refilter_by(
                    &mut self.filters,
                    pattern,
                    visible,
                    Ghost(|f: Filter| filter_visible(pattern@, f)),
                );
            },
            (Tab::Todo, sub) => match sub.unwrap_or(TodoSubTab::Uncategorised) {
                TodoSubTab::Uncategorised => {
                    let visible = |tx: &Transaction| -> (b: bool)
                        ensures
                            b == hit(pattern@, tx.description@),
                    { matcher.fuzzy_matches(pattern, &tx.description) };
                    refilter_by(
                        &mut self.uncategorised,
                        pattern,
                        visible,
                        Ghost(|tx: Transaction| tx_visible(pattern@, tx)),
                    );
                },
                TodoSubTab::AiReview => {
                    let visible = |r: &TransactionWithEnrichment| -> (b: bool)
                        ensures
                            b == hit(pattern@, r.transaction.description@),
                    { matcher.fuzzy_matches(pattern, &r.transaction.description) };
                    refilter_by(
                        &mut self.ai_reviews,
                        pattern,
                        visible,
                        Ghost(|r: TransactionWithEnrichment| tx_visible(pattern@, r.transaction)),
                    );
                },
                TodoSubTab::TransferReview => {
                    let visible = |tr: &Transfer| -> (b: bool)
                        ensures
                            pattern@.len() > 0 ==> b == review_visible(pattern@, tx_by_id@, *tr),
                    {
                        match (
                            tx_by_id.get(&tr.from_transaction_id),
                            tx_by_id.get(&tr.to_transaction_id),
                        ) {
                            (Some(from), Some(to)) => {
                                matcher.fuzzy_matches(pattern, &from.description)
                                    || matcher.fuzzy_matches(pattern, &to.description)
                            },
                            // The referenced transactions could not be loaded:
                            // keep the entry visible.
                            _ => true,
                        }
                    };
                    refilter_by(
                        &mut self.transfer_reviews,
                        pattern,
                        visible,
                        Ghost(|tr: Transfer| review_visible(pattern@, tx_by_id@, tr)),
                    );
                },
            },
        }
    }

    /// The transaction at visible index `idx`, for tabs whose rows are plain
    /// transactions or wrap one directly (where category/transfer actions
    /// apply).
    pub fn transaction_at(&self, key: TabKey, idx: usize) -> (tx: Option<&Transaction>)
        ensures
            tx == if idx < row_transactions(*self, key).len() {
                Some(&row_transactions(*self, key)[idx as int])
            } else {
                None
            },
    {
        match key {
            (Tab::Transactions, _) => self.transactions.get(idx),
            (Tab::Todo, Some(TodoSubTab::Uncategorised)) => self.uncategorised.get(idx),
            (Tab::Todo, Some(TodoSubTab::AiReview)) => {
                match self.ai_reviews.get(idx) {
                    Some(r) => Some(&r.transaction),
                    None => None,
                }
            },
            _ => None,
        }
    }

    /// Number of visible transactions, for the same tabs as
    /// [`Self::transaction_at`].
    pub fn transaction_rows(&self, key: TabKey) -> (n: usize)
        ensures
            n == row_transactions(*self, key).len(),
    {
        match key {
            (Tab::Transactions, _) => self.transactions.len(),
            (Tab::Todo, Some(TodoSubTab::Uncategorised)) => self.uncategorised.len(),
            (Tab::Todo, Some(TodoSubTab::AiReview)) => self.ai_reviews.len(),
            _ => 0,
        }
    }

    /// Visible position of the transaction with `tx_id`, for the same tabs and
    /// transaction-wrapping rows as [`Self::transaction_at`].
    pub fn position_of_tx(&self, key: TabKey, tx_id: i64) -> (pos: Option<usize>)
        ensures
            pos == first_with_id(row_transactions(*self, key), tx_id),
    {
        let same_tx = |tx: &Transaction| -> (b: bool)
            ensures
                b == (tx.id == tx_id),
        { tx.id == tx_id };
        let same_review = |r: &TransactionWithEnrichment| -> (b: bool)
            ensures
                b == (r.transaction.id == tx_id),
        { r.transaction.id == tx_id };
        let pos = match key {
            (Tab::Transactions, _) => self.transactions.position(same_tx),
            (Tab::Todo, Some(TodoSubTab::Uncategorised)) => self.uncategorised.position(same_tx),
            (Tab::Todo, Some(TodoSubTab::AiReview)) => self.ai_reviews.position(same_review),
            _ => None,
        };
        proof {
            lemma_first_with_id(row_transactions(*self, key), tx_id, pos);
        }
        pos
    }
}

/// Position of the first transaction with the id.
pub open spec fn first_with_id(rows: Seq<Transaction>, tx_id: i64) -> Option<usize>
    decreases rows.len(),
{
    if rows.len() == 0 {
        None
    } else {
        match first_with_id(rows.drop_last(), tx_id) {
            Some(p) => Some(p),
            None => if rows.last().id == tx_id {
                Some((rows.len() - 1) as usize)
            } else {
                None
            },
        }
    }
}

pub proof fn lemma_first_with_id(rows: Seq<Transaction>, tx_id: i64, pos: Option<usize>)
    requires
        match pos {
            Some(p) => p < rows.len() && rows[p as int].id == tx_id && forall|i: int|
                0 <= i < p ==> (#[trigger] rows[i]).id != tx_id,
            None => forall|i: int| 0 <= i < rows.len() ==> (#[trigger] rows[i]).id != tx_id,
        },
    ensures
        pos == first_with_id(rows, tx_id),
    decreases rows.len(),
{
    if rows.len() > 0 {
        let rest = rows.drop_last();
        match pos {
            Some(p) => {
                if p < rest.len() {
                    lemma_first_with_id(rest, tx_id, pos);
                } else {
                    lemma_first_with_id(rest, tx_id, None);
                }
            },
            None => {
                lemma_first_with_id(rest, tx_id, None);
            },
        }
    }
}

} // verus!
