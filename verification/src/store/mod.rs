//! The ledger: every table as plain rows, and the rules that keep them
//! consistent.
//!
//! A [`TransactionStore`] holds what the database holds. Its methods live in
//! focused submodules, each contributing an `impl TransactionStore` block. Every
//! row that changes is noted in a journal; whoever owns the database takes the
//! journal ([`TransactionStore::take_journal`]) and makes the same changes there.

pub mod accounts;
pub mod actions;
pub mod annotations;
pub mod apply;
pub mod apply_laws;
pub mod categories;
pub mod change_laws;
pub mod enrichments;
pub mod filters;
pub mod folder_laws;
pub mod import;
pub mod import_laws;
pub mod index;
pub mod laws;
pub mod mode_laws;
pub mod order;
pub mod queries;
pub mod query_laws;
pub mod record_laws;
pub mod refresh;
pub mod refresh_laws;
pub mod rows;
pub mod select;
pub mod transfers;

use std::collections::HashMap;

use vstd::prelude::*;
use vstd::std_specs::hash::*;
use vstd::string::*;

use crate::model::{
    Account, Bank, Category, Filter, Transaction, TransactionEnrichment, Transfer, Timestamp,
};
use crate::text::views;
use index::{follow, IndexText};
use select::{keys_of, Row};

verus! {

broadcast use group_hash_axioms;

/// A label on transactions.
#[derive(Debug)]
pub struct Tag {
    pub id: i64,
    pub name: String,
    pub created_at: Timestamp,
}

impl Clone for Tag {
    fn clone(&self) -> (copy: Self)
        ensures
            copy == *self,
    {
        Tag { id: self.id, name: self.name.clone(), created_at: self.created_at }
    }
}

/// Why an operation was refused.
#[derive(Debug)]
pub enum Error {
    /// A transfer leg cannot be categorised.
    TransactionInTransfer(i64),
    /// Another category has the path.
    CategoryExists(String),
    /// No live account has the id.
    AccountNotFound(String),
    /// The path is not of the form `Bank/Account`.
    InvalidAccountPath(String),
    /// Another account has the path.
    AccountExists(String),
    /// Neither an ISO date nor day/month/year.
    InvalidDate(String),
    /// A source could not be read.
    ImportFailed(String),
    /// Every row id is taken.
    NoFreeId,
}

/// A row written or removed.
#[derive(Debug)]
pub enum Change {
    PutBank(Bank),
    PutAccount(Account),
    PutTransaction(Transaction),
    PutCategory(Category),
    DropCategory(i64),
    PutEnrichment(TransactionEnrichment),
    DropEnrichment(i64),
    PutTransfer(Transfer),
    DropTransfer(i64),
    PutFilter(Filter),
    DropFilter(i64),
    PutTag(Tag),
    DropTag(i64),
    /// A transaction's note.
    PutNote { tx_id: i64, note: String },
    DropNote { tx_id: i64 },
    /// The names of a transaction's tags; none where it has no tags left.
    PutTags { tx_id: i64, names: Vec<String> },
    /// A file's contents that were imported into an account.
    PutFile { account_id: i64, content_hash: String },
    /// The text of a transaction changed, and with it what full-text search
    /// finds it by.
    Reindex { tx_id: i64 },
}

/// The tables as values. Enrichments, notes and tag lists are keyed by their
/// transaction, imported files by their account, other rows by their id.
pub struct Tables {
    pub banks: Map<i64, Bank>,
    pub accounts: Map<i64, Account>,
    pub transactions: Map<i64, Transaction>,
    pub categories: Map<i64, Category>,
    pub enrichments: Map<i64, TransactionEnrichment>,
    pub transfers: Map<i64, Transfer>,
    pub filters: Map<i64, Filter>,
    pub tags: Map<i64, Tag>,
    pub notes: Map<i64, Seq<char>>,
    pub tagged: Map<i64, Seq<Seq<char>>>,
    pub files: Map<i64, Seq<Seq<char>>>,
}

/// The elements of a keyed list.
pub open spec fn listed(m: Map<i64, Seq<Seq<char>>>, key: i64) -> Seq<Seq<char>> {
    if m.contains_key(key) {
        m[key]
    } else {
        Seq::empty()
    }
}

impl Tables {
    /// The tables after a change.
    pub open spec fn after(self, change: Change) -> Tables {
        match change {
            Change::PutBank(row) => Tables { banks: self.banks.insert(row.id, row), ..self },
            Change::PutAccount(row) => Tables {
                accounts: self.accounts.insert(row.id, row),
                ..self
            },
            Change::PutTransaction(row) => Tables {
                transactions: self.transactions.insert(row.id, row),
                ..self
            },
            Change::PutCategory(row) => Tables {
                categories: self.categories.insert(row.id, row),
                ..self
            },
            Change::DropCategory(id) => Tables { categories: self.categories.remove(id), ..self },
            Change::PutEnrichment(row) => Tables {
                enrichments: self.enrichments.insert(row.transaction_id, row),
                ..self
            },
            Change::DropEnrichment(id) => Tables {
                enrichments: self.enrichments.remove(id),
                ..self
            },
            Change::PutTransfer(row) => Tables {
                transfers: self.transfers.insert(row.id, row),
                ..self
            },
            Change::DropTransfer(id) => Tables { transfers: self.transfers.remove(id), ..self },
            Change::PutFilter(row) => Tables { filters: self.filters.insert(row.id, row), ..self },
            Change::DropFilter(id) => Tables { filters: self.filters.remove(id), ..self },
            Change::PutTag(row) => Tables { tags: self.tags.insert(row.id, row), ..self },
            Change::DropTag(id) => Tables { tags: self.tags.remove(id), ..self },
            Change::PutNote { tx_id, note } => Tables {
                notes: self.notes.insert(tx_id, note@),
                ..self
            },
            Change::DropNote { tx_id } => Tables { notes: self.notes.remove(tx_id), ..self },
            Change::PutTags { tx_id, names } => Tables {
                tagged: if names@.len() == 0 {
                    self.tagged.remove(tx_id)
                } else {
                    self.tagged.insert(tx_id, views(names@))
                },
                ..self
            },
            Change::PutFile { account_id, content_hash } => Tables {
                files: self.files.insert(
                    account_id,
                    listed(self.files, account_id).push(content_hash@),
                ),
                ..self
            },
            Change::Reindex { .. } => self,
        }
    }

    /// Every row is stored under its key.
    pub open spec fn keyed(self) -> bool {
        &&& forall|k: i64| #[trigger]
            self.banks.contains_key(k) ==> self.banks[k].id == k
        &&& forall|k: i64| #[trigger]
            self.accounts.contains_key(k) ==> self.accounts[k].id == k
        &&& forall|k: i64| #[trigger]
            self.transactions.contains_key(k) ==> self.transactions[k].id == k
        &&& forall|k: i64| #[trigger]
            self.categories.contains_key(k) ==> self.categories[k].id == k
        &&& forall|k: i64| #[trigger]
            self.enrichments.contains_key(k) ==> self.enrichments[k].transaction_id == k
        &&& forall|k: i64| #[trigger]
            self.transfers.contains_key(k) ==> self.transfers[k].id == k
        &&& forall|k: i64| #[trigger]
            self.filters.contains_key(k) ==> self.filters[k].id == k
        &&& forall|k: i64| #[trigger]
            self.tags.contains_key(k) ==> self.tags[k].id == k
    }

    /// The transaction is an endpoint of a transfer.
    pub open spec fn is_leg(self, tx_id: i64) -> bool {
        exists|t: i64| #[trigger]
            self.transfers.contains_key(t) && joins(self.transfers[t], tx_id)
    }

    /// No transaction is both part of a transfer and categorised.
    pub open spec fn exclusive(self) -> bool {
        forall|tx_id: i64| #[trigger]
            self.enrichments.contains_key(tx_id) ==> !self.is_leg(tx_id)
    }
}

/// The transaction is an endpoint of the transfer.
pub open spec fn joins(t: Transfer, tx_id: i64) -> bool {
    t.from_transaction_id == tx_id || t.to_transaction_id == tx_id
}

/// The tables after changes, one after the other.
pub open spec fn replay(tables: Tables, changes: Seq<Change>) -> Tables
    decreases changes.len(),
{
    if changes.len() == 0 {
        tables
    } else {
        replay(tables, changes.drop_last()).after(changes.last())
    }
}

/// Which transactions a search query finds.
#[derive(Debug)]
pub enum Hits {
    /// Every one: the query is empty.
    All,
    /// Those with the ids.
    Only(Vec<i64>),
}

impl Hits {
    pub open spec fn holds(&self, tx_id: i64) -> bool {
        match self {
            Hits::All => true,
            Hits::Only(ids) => ids@.contains(tx_id),
        }
    }

    pub fn contains(&self, tx_id: i64) -> (yes: bool)
        ensures
            yes == self.holds(tx_id),
    {
        match self {
            Hits::All => true,
            Hits::Only(ids) => has_id(ids, tx_id),
        }
    }
}

/// Whether the id is in the list.
pub fn has_id(ids: &Vec<i64>, id: i64) -> (yes: bool)
    ensures
        yes == ids@.contains(id),
{
    let mut i: usize = 0;
    while i < ids.len()
        invariant
            i <= ids@.len(),
            forall|j: int| 0 <= j < i ==> ids@[j] != id,
        decreases ids@.len() - i,
    {
        if ids[i] == id {
            return true;
        }
        i += 1;
    }
    false
}

/// Every table of the database.
pub struct TransactionStore {
    banks: HashMap<i64, Bank>,
    accounts: HashMap<i64, Account>,
    transactions: HashMap<i64, Transaction>,
    categories: HashMap<i64, Category>,
    enrichments: HashMap<i64, TransactionEnrichment>,
    transfers: HashMap<i64, Transfer>,
    filters: HashMap<i64, Filter>,
    tags: HashMap<i64, Tag>,
    notes: HashMap<i64, String>,
    tagged: HashMap<i64, Vec<String>>,
    files: HashMap<i64, Vec<String>>,
    journal: Vec<Change>,
}

/// The texts as values.
pub open spec fn text_views(m: Map<i64, String>) -> Map<i64, Seq<char>> {
    m.map_values(|s: String| s@)
}

/// The lists as values.
pub open spec fn list_views(m: Map<i64, Vec<String>>) -> Map<i64, Seq<Seq<char>>> {
    m.map_values(|v: Vec<String>| views(v@))
}

impl View for TransactionStore {
    type V = Tables;

    closed spec fn view(&self) -> Tables {
        Tables {
            banks: self.banks@,
            accounts: self.accounts@,
            transactions: self.transactions@,
            categories: self.categories@,
            enrichments: self.enrichments@,
            transfers: self.transfers@,
            filters: self.filters@,
            tags: self.tags@,
            notes: text_views(self.notes@),
            tagged: list_views(self.tagged@),
            files: list_views(self.files@),
        }
    }
}

/// `new` is `old` after the changes noted since, and whoever follows them has the
/// text of every transaction in the index.
pub open spec fn journalled(old: TransactionStore, new: TransactionStore) -> bool {
    let n = old.noted().len() as int;
    &&& old.noted().len() <= new.noted().len()
    &&& new.noted().take(n) == old.noted()
    &&& new@ == replay(old@, new.noted().skip(n))
    &&& new@.texts() == follow(old@, old@.texts(), new.noted().skip(n))
}

/// The change rewrites the text of the transaction.
pub open spec fn rewrites(change: Change, id: i64) -> bool {
    match change {
        Change::PutTransaction(row) => row.id == id,
        Change::PutNote { tx_id, .. } => tx_id == id,
        Change::DropNote { tx_id } => tx_id == id,
        _ => false,
    }
}

/// Of the changes noted since, one has the transaction indexed anew, and none after
/// it rewrites the transaction's text.
pub open spec fn indexes(old: TransactionStore, new: TransactionStore, tx_id: i64) -> bool {
    exists|i: int|
        {
            &&& old.noted().len() <= i < new.noted().len()
            &&& #[trigger] new.noted()[i] == (Change::Reindex { tx_id })
            &&& forall|j: int|
                i < j < new.noted().len() ==> !rewrites(#[trigger] new.noted()[j], tx_id)
        }
}

/// A change that touches neither transactions nor notes.
proof fn lemma_one_change(old: TransactionStore, new: TransactionStore, change: Change)
    requires
        new.noted() == old.noted().push(change),
        new@ == old@.after(change),
        new@.transactions == old@.transactions,
        new@.notes == old@.notes,
        !(change is Reindex),
    ensures
        journalled(old, new),
{
    assert(new@.texts() =~= old@.texts());
    lemma_followed(old, new, change);
}

proof fn lemma_followed(old: TransactionStore, new: TransactionStore, change: Change)
    requires
        new.noted() == old.noted().push(change),
        new@ == old@.after(change),
        new@.texts() == old@.texts(),
        !(change is Reindex),
    ensures
        journalled(old, new),
{
    let n = old.noted().len() as int;
    assert(new.noted().take(n) =~= old.noted());
    assert(new.noted().skip(n) =~= seq![change]);
    assert(seq![change].drop_last() =~= Seq::empty());
    assert(replay(old@, seq![change].drop_last()) == old@);
    assert(follow(old@, old@.texts(), seq![change].drop_last()) == old@.texts());
}

/// A row that is written again with the text it had needs no indexing.
pub(crate) proof fn lemma_same_text(old: TransactionStore, new: TransactionStore, row: Transaction)
    requires
        new.noted() == old.noted().push(Change::PutTransaction(row)),
        new@ == old@.after(Change::PutTransaction(row)),
        old@.transactions.contains_key(row.id),
        old@.transactions[row.id].description == row.description,
        old@.transactions[row.id].metadata == row.metadata,
    ensures
        journalled(old, new),
{
    assert(new@.texts() =~= old@.texts());
    lemma_followed(old, new, Change::PutTransaction(row));
}

/// A change of one transaction's text, and its indexing.
pub(crate) proof fn lemma_indexed(
    old: TransactionStore,
    one: TransactionStore,
    new: TransactionStore,
    change: Change,
    tx_id: i64,
)
    requires
        one.noted() == old.noted().push(change),
        one@ == old@.after(change),
        rewrites(change, tx_id),
        new.noted() == one.noted().push(Change::Reindex { tx_id }),
        new@ == one@,
    ensures
        journalled(old, new),
        indexes(old, new, tx_id),
{
    let n = old.noted().len() as int;
    let re = Change::Reindex { tx_id };
    let both = seq![change, re];
    assert(new.noted().take(n) =~= old.noted());
    assert(new.noted().skip(n) =~= both);
    assert(both.drop_last() =~= seq![change]);
    assert(seq![change].drop_last() =~= Seq::empty());
    assert(replay(old@, Seq::empty()) == old@);
    assert(replay(old@, seq![change]) == one@);
    assert(replay(old@, both) == new@);
    assert(follow(old@, old@.texts(), Seq::empty()) == old@.texts());
    assert(follow(old@, old@.texts(), seq![change]) == old@.texts());
    assert(new@.texts() =~= follow(old@, old@.texts(), both));
    assert(new.noted()[n + 1] == re);
}

proof fn lemma_replay_appended(tables: Tables, a: Seq<Change>, b: Seq<Change>)
    ensures
        replay(tables, a + b) == replay(replay(tables, a), b),
    decreases b.len(),
{
    if b.len() == 0 {
        assert(a + b =~= a);
    } else {
        assert((a + b).drop_last() =~= a + b.drop_last());
        assert((a + b).last() == b.last());
        lemma_replay_appended(tables, a, b.drop_last());
    }
}

proof fn lemma_follow_appended(
    tables: Tables,
    index: Map<i64, IndexText>,
    a: Seq<Change>,
    b: Seq<Change>,
)
    ensures
        follow(tables, index, a + b) == follow(
            replay(tables, a),
            follow(tables, index, a),
            b,
        ),
    decreases b.len(),
{
    if b.len() == 0 {
        assert(a + b =~= a);
    } else {
        assert((a + b).drop_last() =~= a + b.drop_last());
        assert((a + b).last() == b.last());
        lemma_follow_appended(tables, index, a, b.drop_last());
        lemma_replay_appended(tables, a, b);
    }
}

/// What is noted over two steps is noted in order.
pub proof fn journal_goes_on(a: TransactionStore, b: TransactionStore, c: TransactionStore)
    requires
        journalled(a, b),
        journalled(b, c),
    ensures
        journalled(a, c),
{
    let n = a.noted().len() as int;
    let m = b.noted().len() as int;
    let first = b.noted().skip(n);
    let second = c.noted().skip(m);
    assert(c.noted().take(n) =~= c.noted().take(m).take(n));
    assert(c.noted().skip(n) =~= first + second) by {
        assert(c.noted().skip(n).take(m - n) =~= c.noted().take(m).skip(n));
    }
    lemma_replay_appended(a@, first, second);
    lemma_follow_appended(a@, a@.texts(), first, second);
}

/// Nothing noted, nothing changed.
pub proof fn journal_starts(a: TransactionStore)
    ensures
        journalled(a, a),
{
    let n = a.noted().len() as int;
    assert(a.noted().take(n) =~= a.noted());
    assert(a.noted().skip(n) =~= Seq::empty());
}

impl Row for Transaction {
    fn copy(&self) -> (row: Self) {
        self.clone()
    }
}

impl Row for Bank {
    fn copy(&self) -> (row: Self) {
        self.clone()
    }
}

impl Row for Account {
    fn copy(&self) -> (row: Self) {
        self.clone()
    }
}

impl Row for Category {
    fn copy(&self) -> (row: Self) {
        self.clone()
    }
}

impl Row for Filter {
    fn copy(&self) -> (row: Self) {
        self.clone()
    }
}

impl Row for Tag {
    fn copy(&self) -> (row: Self) {
        self.clone()
    }
}

impl Row for Transfer {
    fn copy(&self) -> (row: Self) {
        *self
    }
}

impl Row for TransactionEnrichment {
    fn copy(&self) -> (row: Self) {
        *self
    }
}

/// The first id above every key.
pub open spec fn is_fresh<T>(m: Map<i64, T>, id: i64) -> bool {
    &&& id >= 1
    &&& forall|k: i64| #[trigger] m.contains_key(k) ==> k < id
    &&& id > 1 ==> m.contains_key((id - 1) as i64)
}

pub(crate) fn fresh_id<T>(m: &HashMap<i64, T>) -> (id: Option<i64>)
    ensures
        match id {
            Some(id) => is_fresh(m@, id),
            None => m@.contains_key(i64::MAX),
        },
{
    let keys = keys_of(m);
    let mut top: i64 = 0;
    let mut i: usize = 0;
    while i < keys.len()
        invariant
            i <= keys@.len(),
            forall|k: i64| #[trigger] keys@.contains(k) <==> m@.contains_key(k),
            top >= 0,
            top > 0 ==> m@.contains_key(top),
            forall|j: int| 0 <= j < i ==> #[trigger] keys@[j] <= top,
        decreases keys@.len() - i,
    {
        assert(keys@.contains(keys@[i as int]));
        if keys[i] > top {
            top = keys[i];
        }
        i += 1;
    }
    if top == i64::MAX {
        return None;
    }
    assert forall|k: i64| #[trigger] m@.contains_key(k) implies k < top + 1 by {
        assert(keys@.contains(k));
        let j = choose|j: int| 0 <= j < keys@.len() && keys@[j] == k;
        assert(keys@[j] <= top);
    }
    Some(top + 1)
}

impl TransactionStore {
    /// The changes noted and not yet taken.
    pub closed spec fn noted(&self) -> Seq<Change> {
        self.journal@
    }

    /// Empty tables.
    pub fn open_in_memory() -> (store: Self)
        ensures
            store@.banks == Map::<i64, Bank>::empty(),
            store@.accounts == Map::<i64, Account>::empty(),
            store@.transactions == Map::<i64, Transaction>::empty(),
            store@.categories == Map::<i64, Category>::empty(),
            store@.enrichments == Map::<i64, TransactionEnrichment>::empty(),
            store@.transfers == Map::<i64, Transfer>::empty(),
            store@.filters == Map::<i64, Filter>::empty(),
            store@.tags == Map::<i64, Tag>::empty(),
            store@.notes == Map::<i64, Seq<char>>::empty(),
            store@.tagged == Map::<i64, Seq<Seq<char>>>::empty(),
            store@.files == Map::<i64, Seq<Seq<char>>>::empty(),
            store.noted().len() == 0,
            store@.keyed(),
            store@.exclusive(),
            store@.tags_fit(),
            store@.paths_differ(),
            store@.names_differ(),
    {
        let store = TransactionStore {
            banks: HashMap::new(),
            accounts: HashMap::new(),
            transactions: HashMap::new(),
            categories: HashMap::new(),
            enrichments: HashMap::new(),
            transfers: HashMap::new(),
            filters: HashMap::new(),
            tags: HashMap::new(),
            notes: HashMap::new(),
            tagged: HashMap::new(),
            files: HashMap::new(),
            journal: Vec::new(),
        };
        assert(text_views(store.notes@) =~= Map::empty());
        assert(list_views(store.tagged@) =~= Map::empty());
        assert(list_views(store.files@) =~= Map::empty());
        store
    }

    /// Take in a row that the database holds: nothing is noted.
    pub fn restore(&mut self, change: Change)
        ensures
            final(self)@ == old(self)@.after(change),
            final(self).noted() == old(self).noted(),
            old(self)@.keyed() ==> final(self)@.keyed(),
    {
        let ghost before = *self;
        let mut journal: Vec<Change> = Vec::new();
        journal.append(&mut self.journal);
        let ghost kept = journal@;
        self.write(change);
        self.journal = journal;
        assert(self.noted() == kept);
    }

    fn write(&mut self, change: Change)
        ensures
            final(self)@ == old(self)@.after(change),
    {
        match change {
            Change::PutBank(row) => self.put_bank(row),
            Change::PutAccount(row) => self.put_account(row),
            Change::PutTransaction(row) => self.put_transaction(row),
            Change::PutCategory(row) => self.put_category(row),
            Change::DropCategory(id) => self.drop_category(id),
            Change::PutEnrichment(row) => self.put_enrichment(row),
            Change::DropEnrichment(id) => self.drop_enrichment(id),
            Change::PutTransfer(row) => self.put_transfer(row),
            Change::DropTransfer(id) => self.drop_transfer(id),
            Change::PutFilter(row) => self.put_filter(row),
            Change::DropFilter(id) => self.drop_filter(id),
            Change::PutTag(row) => self.put_tag(row),
            Change::DropTag(id) => self.drop_tag(id),
            Change::PutNote { tx_id, note } => self.put_note(tx_id, note),
            Change::DropNote { tx_id } => self.drop_note(tx_id),
            Change::PutTags { tx_id, names } => self.put_tags(tx_id, names),
            Change::PutFile { account_id, content_hash } => self.put_file(
                account_id,
                content_hash,
            ),
            Change::Reindex { .. } => {},
        }
    }

    /// A copy of the tables, with nothing noted.
    pub(crate) fn duplicate(&self) -> (copy: Self)
        ensures
            copy@ == self@,
            copy.noted().len() == 0,
    {
        TransactionStore {
            banks: copy_table(&self.banks),
            accounts: copy_table(&self.accounts),
            transactions: copy_table(&self.transactions),
            categories: copy_table(&self.categories),
            enrichments: copy_table(&self.enrichments),
            transfers: copy_table(&self.transfers),
            filters: copy_table(&self.filters),
            tags: copy_table(&self.tags),
            notes: copy_table(&self.notes),
            tagged: copy_lists(&self.tagged),
            files: copy_lists(&self.files),
            journal: Vec::new(),
        }
    }

    /// Take over the tables of a copy, and what was noted there.
    pub(crate) fn adopt(&mut self, copy: TransactionStore, Ghost(start): Ghost<TransactionStore>)
        requires
            start@ == old(self)@,
            start.noted().len() == 0,
            journalled(start, copy),
        ensures
            final(self)@ == copy@,
            journalled(*old(self), *final(self)),
    {
        let mut copy = copy;
        let ghost more = copy.journal@;
        let mut journal: Vec<Change> = Vec::new();
        journal.append(&mut self.journal);
        journal.append(&mut copy.journal);
        copy.journal = journal;
        *self = copy;
        proof {
            let n = old(self).noted().len() as int;
            assert(start.noted().len() == 0);
            assert(more.skip(0) =~= more);
            assert(self.noted().take(n) =~= old(self).noted());
            assert(self.noted().skip(n) =~= more);
        }
    }

    /// Take the noted changes, to make them in the database.
    pub fn take_journal(&mut self) -> (changes: Vec<Change>)
        ensures
            changes@ == old(self).noted(),
            final(self).noted().len() == 0,
            final(self)@ == old(self)@,
    {
        let mut changes: Vec<Change> = Vec::new();
        changes.append(&mut self.journal);
        changes
    }

    pub(crate) fn put_bank(&mut self, row: Bank)
        ensures
            final(self)@ == (Tables {
                banks: old(self)@.banks.insert(row.id, row),
                ..old(self)@
            }),
            journalled(*old(self), *final(self)),
    {
        let note = Change::PutBank(row.copy());
        self.banks.insert(row.id, row);
        self.journal.push(note);
        proof {
            lemma_one_change(*old(self), *self, note);
        }
    }

    pub(crate) fn bank_row(&self, id: i64) -> (row: Option<&Bank>)
        ensures
            match row {
                Some(r) => self@.banks.contains_key(id) && self@.banks[id] == *r,
                None => !self@.banks.contains_key(id),
            },
    {
        self.banks.get(&id)
    }

    pub(crate) fn bank_table(&self) -> (table: &HashMap<i64, Bank>)
        ensures
            table@ == self@.banks,
    {
        &self.banks
    }

    pub(crate) fn put_account(&mut self, row: Account)
        ensures
            final(self)@ == (Tables {
                accounts: old(self)@.accounts.insert(row.id, row),
                ..old(self)@
            }),
            journalled(*old(self), *final(self)),
    {
        let note = Change::PutAccount(row.copy());
        self.accounts.insert(row.id, row);
        self.journal.push(note);
        proof {
            lemma_one_change(*old(self), *self, note);
        }
    }

    pub(crate) fn account_row(&self, id: i64) -> (row: Option<&Account>)
        ensures
            match row {
                Some(r) => self@.accounts.contains_key(id) && self@.accounts[id] == *r,
                None => !self@.accounts.contains_key(id),
            },
    {
        self.accounts.get(&id)
    }

    pub(crate) fn account_table(&self) -> (table: &HashMap<i64, Account>)
        ensures
            table@ == self@.accounts,
    {
        &self.accounts
    }

    pub(crate) fn put_transaction(&mut self, row: Transaction)
        ensures
            final(self)@ == (Tables {
                transactions: old(self)@.transactions.insert(row.id, row),
                ..old(self)@
            }),
            final(self).noted() == old(self).noted().push(Change::PutTransaction(row)),
    {
        let note = Change::PutTransaction(row.copy());
        self.transactions.insert(row.id, row);
        self.journal.push(note);
    }

    pub(crate) fn transaction_row(&self, id: i64) -> (row: Option<&Transaction>)
        ensures
            match row {
                Some(r) => self@.transactions.contains_key(id) && self@.transactions[id] == *r,
                None => !self@.transactions.contains_key(id),
            },
    {
        self.transactions.get(&id)
    }

    pub(crate) fn transaction_table(&self) -> (table: &HashMap<i64, Transaction>)
        ensures
            table@ == self@.transactions,
    {
        &self.transactions
    }

    pub(crate) fn put_category(&mut self, row: Category)
        ensures
            final(self)@ == (Tables {
                categories: old(self)@.categories.insert(row.id, row),
                ..old(self)@
            }),
            journalled(*old(self), *final(self)),
    {
        let note = Change::PutCategory(row.copy());
        self.categories.insert(row.id, row);
        self.journal.push(note);
        proof {
            lemma_one_change(*old(self), *self, note);
        }
    }

    pub(crate) fn drop_category(&mut self, id: i64)
        ensures
            final(self)@ == (Tables { categories: old(self)@.categories.remove(id), ..old(self)@ }),
            journalled(*old(self), *final(self)),
    {
        self.categories.remove(&id);
        self.journal.push(Change::DropCategory(id));
        proof {
            lemma_one_change(*old(self), *self, Change::DropCategory(id));
        }
    }

    pub(crate) fn category_row(&self, id: i64) -> (row: Option<&Category>)
        ensures
            match row {
                Some(r) => self@.categories.contains_key(id) && self@.categories[id] == *r,
                None => !self@.categories.contains_key(id),
            },
    {
        self.categories.get(&id)
    }

    pub(crate) fn category_table(&self) -> (table: &HashMap<i64, Category>)
        ensures
            table@ == self@.categories,
    {
        &self.categories
    }

    pub(crate) fn put_enrichment(&mut self, row: TransactionEnrichment)
        ensures
            final(self)@ == (Tables {
                enrichments: old(self)@.enrichments.insert(row.transaction_id, row),
                ..old(self)@
            }),
            journalled(*old(self), *final(self)),
    {
        let note = Change::PutEnrichment(row.copy());
        self.enrichments.insert(row.transaction_id, row);
        self.journal.push(note);
        proof {
            lemma_one_change(*old(self), *self, note);
        }
    }

    pub(crate) fn drop_enrichment(&mut self, id: i64)
        ensures
            final(self)@ == (Tables {
                enrichments: old(self)@.enrichments.remove(id),
                ..old(self)@
            }),
            journalled(*old(self), *final(self)),
    {
        self.enrichments.remove(&id);
        self.journal.push(Change::DropEnrichment(id));
        proof {
            lemma_one_change(*old(self), *self, Change::DropEnrichment(id));
        }
    }

    pub(crate) fn enrichment_row(&self, id: i64) -> (row: Option<&TransactionEnrichment>)
        ensures
            match row {
                Some(r) => self@.enrichments.contains_key(id) && self@.enrichments[id] == *r,
                None => !self@.enrichments.contains_key(id),
            },
    {
        self.enrichments.get(&id)
    }

    pub(crate) fn enrichment_table(&self) -> (table: &HashMap<i64, TransactionEnrichment>)
        ensures
            table@ == self@.enrichments,
    {
        &self.enrichments
    }

    pub(crate) fn put_transfer(&mut self, row: Transfer)
        ensures
            final(self)@ == (Tables {
                transfers: old(self)@.transfers.insert(row.id, row),
                ..old(self)@
            }),
            journalled(*old(self), *final(self)),
    {
        let note = Change::PutTransfer(row.copy());
        self.transfers.insert(row.id, row);
        self.journal.push(note);
        proof {
            lemma_one_change(*old(self), *self, note);
        }
    }

    pub(crate) fn drop_transfer(&mut self, id: i64)
        ensures
            final(self)@ == (Tables { transfers: old(self)@.transfers.remove(id), ..old(self)@ }),
            journalled(*old(self), *final(self)),
    {
        self.transfers.remove(&id);
        self.journal.push(Change::DropTransfer(id));
        proof {
            lemma_one_change(*old(self), *self, Change::DropTransfer(id));
        }
    }

    pub(crate) fn transfer_row(&self, id: i64) -> (row: Option<&Transfer>)
        ensures
            match row {
                Some(r) => self@.transfers.contains_key(id) && self@.transfers[id] == *r,
                None => !self@.transfers.contains_key(id),
            },
    {
        self.transfers.get(&id)
    }

    pub(crate) fn transfer_table(&self) -> (table: &HashMap<i64, Transfer>)
        ensures
            table@ == self@.transfers,
    {
        &self.transfers
    }

    pub(crate) fn put_filter(&mut self, row: Filter)
        ensures
            final(self)@ == (Tables {
                filters: old(self)@.filters.insert(row.id, row),
                ..old(self)@
            }),
            journalled(*old(self), *final(self)),
    {
        let note = Change::PutFilter(row.copy());
        self.filters.insert(row.id, row);
        self.journal.push(note);
        proof {
            lemma_one_change(*old(self), *self, note);
        }
    }

    pub(crate) fn drop_filter(&mut self, id: i64)
        ensures
            final(self)@ == (Tables { filters: old(self)@.filters.remove(id), ..old(self)@ }),
            journalled(*old(self), *final(self)),
    {
        self.filters.remove(&id);
        self.journal.push(Change::DropFilter(id));
        proof {
            lemma_one_change(*old(self), *self, Change::DropFilter(id));
        }
    }

    pub(crate) fn filter_row(&self, id: i64) -> (row: Option<&Filter>)
        ensures
            match row {
                Some(r) => self@.filters.contains_key(id) && self@.filters[id] == *r,
                None => !self@.filters.contains_key(id),
            },
    {
        self.filters.get(&id)
    }

    pub(crate) fn filter_table(&self) -> (table: &HashMap<i64, Filter>)
        ensures
            table@ == self@.filters,
    {
        &self.filters
    }

    pub(crate) fn put_tag(&mut self, row: Tag)
        ensures
            final(self)@ == (Tables {
                tags: old(self)@.tags.insert(row.id, row),
                ..old(self)@
            }),
            journalled(*old(self), *final(self)),
    {
        let note = Change::PutTag(row.copy());
        self.tags.insert(row.id, row);
        self.journal.push(note);
        proof {
            lemma_one_change(*old(self), *self, note);
        }
    }

    pub(crate) fn drop_tag(&mut self, id: i64)
        ensures
            final(self)@ == (Tables { tags: old(self)@.tags.remove(id), ..old(self)@ }),
            journalled(*old(self), *final(self)),
    {
        self.tags.remove(&id);
        self.journal.push(Change::DropTag(id));
        proof {
            lemma_one_change(*old(self), *self, Change::DropTag(id));
        }
    }

    pub(crate) fn tag_row(&self, id: i64) -> (row: Option<&Tag>)
        ensures
            match row {
                Some(r) => self@.tags.contains_key(id) && self@.tags[id] == *r,
                None => !self@.tags.contains_key(id),
            },
    {
        self.tags.get(&id)
    }

    pub(crate) fn tag_table(&self) -> (table: &HashMap<i64, Tag>)
        ensures
            table@ == self@.tags,
    {
        &self.tags
    }

    pub(crate) fn put_note(&mut self, tx_id: i64, note: String)
        ensures
            final(self)@ == (Tables {
                notes: old(self)@.notes.insert(tx_id, note@),
                ..old(self)@
            }),
            final(self).noted() == old(self).noted().push(Change::PutNote { tx_id, note }),
    {
        let change = Change::PutNote { tx_id, note: note.clone() };
        self.notes.insert(tx_id, note);
        self.journal.push(change);
        assert(text_views(self.notes@) =~= text_views(old(self).notes@).insert(tx_id, note@));
    }

    pub(crate) fn drop_note(&mut self, tx_id: i64)
        ensures
            final(self)@ == (Tables { notes: old(self)@.notes.remove(tx_id), ..old(self)@ }),
            final(self).noted() == old(self).noted().push(Change::DropNote { tx_id }),
    {
        self.notes.remove(&tx_id);
        self.journal.push(Change::DropNote { tx_id });
        assert(text_views(self.notes@) =~= text_views(old(self).notes@).remove(tx_id));
    }

    pub(crate) fn note_row(&self, tx_id: i64) -> (note: Option<&String>)
        ensures
            match note {
                Some(n) => self@.notes.contains_key(tx_id) && self@.notes[tx_id] == n@,
                None => !self@.notes.contains_key(tx_id),
            },
    {
        self.notes.get(&tx_id)
    }

    pub(crate) fn put_tags(&mut self, tx_id: i64, names: Vec<String>)
        ensures
            final(self)@ == (Tables {
                tagged: if names@.len() == 0 {
                    old(self)@.tagged.remove(tx_id)
                } else {
                    old(self)@.tagged.insert(tx_id, views(names@))
                },
                ..old(self)@
            }),
            journalled(*old(self), *final(self)),
    {
        let change = Change::PutTags { tx_id, names: copy_texts(&names) };
        let ghost before = list_views(self.tagged@);
        if names.len() == 0 {
            self.tagged.remove(&tx_id);
            assert(list_views(self.tagged@) =~= before.remove(tx_id));
        } else {
            self.tagged.insert(tx_id, names);
            assert(list_views(self.tagged@) =~= before.insert(tx_id, views(names@)));
        }
        self.journal.push(change);
        proof {
            lemma_one_change(*old(self), *self, change);
        }
    }

    pub(crate) fn tags_row(&self, tx_id: i64) -> (names: Option<&Vec<String>>)
        ensures
            match names {
                Some(n) => self@.tagged.contains_key(tx_id) && self@.tagged[tx_id] == views(n@),
                None => !self@.tagged.contains_key(tx_id),
            },
    {
        self.tagged.get(&tx_id)
    }

    /// The transactions that have tags.
    pub(crate) fn tagged_ids(&self) -> (ids: Vec<i64>)
        ensures
            ids@.no_duplicates(),
            forall|k: i64| #[trigger] ids@.contains(k) <==> self@.tagged.contains_key(k),
    {
        keys_of(&self.tagged)
    }

    pub(crate) fn put_file(&mut self, account_id: i64, content_hash: String)
        ensures
            final(self)@ == (Tables {
                files: old(self)@.files.insert(
                    account_id,
                    listed(old(self)@.files, account_id).push(content_hash@),
                ),
                ..old(self)@
            }),
            journalled(*old(self), *final(self)),
    {
        let change = Change::PutFile { account_id, content_hash: content_hash.clone() };
        let mut hashes = match self.files.get(&account_id) {
            Some(hashes) => copy_texts(hashes),
            None => Vec::new(),
        };
        let ghost before = list_views(self.files@);
        assert(views(hashes@) =~= listed(before, account_id));
        let ghost listed_before = hashes@;
        hashes.push(content_hash);
        assert(views(hashes@) =~= views(listed_before).push(content_hash@));
        self.files.insert(account_id, hashes);
        self.journal.push(change);
        proof {
            assert(list_views(self.files@) =~= before.insert(account_id, views(hashes@)));
            lemma_one_change(*old(self), *self, change);
        }
    }

    pub(crate) fn files_row(&self, account_id: i64) -> (hashes: Option<&Vec<String>>)
        ensures
            match hashes {
                Some(h) => self@.files.contains_key(account_id) && self@.files[account_id] == views(
                    h@,
                ),
                None => !self@.files.contains_key(account_id),
            },
    {
        self.files.get(&account_id)
    }

    /// Note that full-text search has to index a transaction anew.
    pub(crate) fn reindex(&mut self, tx_id: i64)
        ensures
            final(self)@ == old(self)@,
            final(self).noted() == old(self).noted().push(Change::Reindex { tx_id }),
    {
        self.journal.push(Change::Reindex { tx_id });
    }
}

impl Row for String {
    fn copy(&self) -> (row: Self) {
        self.clone()
    }
}

fn copy_table<T: Row>(m: &HashMap<i64, T>) -> (copy: HashMap<i64, T>)
    ensures
        copy@ == m@,
{
    let keys = keys_of(m);
    let mut copy: HashMap<i64, T> = HashMap::new();
    let mut i: usize = 0;
    while i < keys.len()
        invariant
            i <= keys@.len(),
            forall|k: i64| #[trigger] keys@.contains(k) <==> m@.contains_key(k),
            forall|k: i64| #[trigger]
                copy@.contains_key(k) <==> keys@.take(i as int).contains(k),
            forall|k: i64| #[trigger] copy@.contains_key(k) ==> copy@[k] == m@[k],
        decreases keys@.len() - i,
    {
        let k: i64 = keys[i];
        assert(keys@.contains(keys@[i as int]));
        proof {
            select::lemma_take_contains(keys@, i as int);
        }
        if let Some(row) = m.get(&k) {
            copy.insert(k, row.copy());
        }
        i += 1;
    }
    assert(keys@.take(i as int) =~= keys@);
    assert(copy@ =~= m@);
    copy
}

fn copy_lists(m: &HashMap<i64, Vec<String>>) -> (copy: HashMap<i64, Vec<String>>)
    ensures
        list_views(copy@) == list_views(m@),
{
    let keys = keys_of(m);
    let mut copy: HashMap<i64, Vec<String>> = HashMap::new();
    let mut i: usize = 0;
    while i < keys.len()
        invariant
            i <= keys@.len(),
            forall|k: i64| #[trigger] keys@.contains(k) <==> m@.contains_key(k),
            forall|k: i64| #[trigger]
                copy@.contains_key(k) <==> keys@.take(i as int).contains(k),
            forall|k: i64| #[trigger] copy@.contains_key(k) ==> copy@[k]@ == m@[k]@,
        decreases keys@.len() - i,
    {
        let k: i64 = keys[i];
        assert(keys@.contains(keys@[i as int]));
        proof {
            select::lemma_take_contains(keys@, i as int);
        }
        if let Some(row) = m.get(&k) {
            copy.insert(k, copy_texts(row));
        }
        i += 1;
    }
    assert(keys@.take(i as int) =~= keys@);
    assert(list_views(copy@) =~= list_views(m@));
    copy
}

/// The texts, copied.
pub(crate) fn copy_texts(texts: &Vec<String>) -> (copy: Vec<String>)
    ensures
        copy@ == texts@,
{
    let mut copy: Vec<String> = Vec::new();
    let mut i: usize = 0;
    while i < texts.len()
        invariant
            i <= texts@.len(),
            copy@ == texts@.take(i as int),
        decreases texts@.len() - i,
    {
        copy.push(texts[i].clone());
        assert(copy@ =~= texts@.take(i + 1));
        i += 1;
    }
    assert(texts@.take(i as int) =~= texts@);
    copy
}

} // verus!
