use std::collections::{HashMap, HashSet};

use tally::json::read_fields;
use tally::model::{
    Account, Bank, CategorySource, Confidence, FilterOverride, RefreshReport, Timestamp,
    Transaction, TransferSource,
};
use tally::store::import::{ImportOutcome, RawTransaction};
use tally::store::index::Posting;
use tally::store::refresh::{AccountImport, BankImport, FileImport, PullImport};
use tally::store::{Change, Error, Hits, TransactionStore};

const NOW: Timestamp = Timestamp { seconds: 1_700_000_000, nanos: 0 };
const LATER: Timestamp = Timestamp { seconds: 1_700_000_100, nanos: 0 };
const EVERY: Hits = Hits::All;

// ----- fixtures -----

fn confidence(value: f64) -> Option<Confidence> {
    Some(Confidence { bits: value.to_bits() })
}

fn add_bank(store: &mut TransactionStore, name: &str) -> i64 {
    store.get_or_create_bank(name).unwrap().0
}

fn add_account(store: &mut TransactionStore, id: i64, bank_id: i64, name: &str) -> i64 {
    store.restore(Change::PutAccount(Account {
        id,
        bank_id,
        name: name.to_string(),
        deleted_at: None,
    }));
    id
}

fn next_tx_id(store: &TransactionStore) -> i64 {
    let all = store.query_transactions(&EVERY, None);
    all.iter().map(|tx| tx.id).max().unwrap_or(0) + 1
}

fn put_tx(
    store: &mut TransactionStore,
    account_id: i64,
    date: &str,
    description: &str,
    amount_cents: i64,
    balance_cents: i64,
    hash: String,
) -> i64 {
    let id = next_tx_id(store);
    let bank_id = store.get_account_with_bank(account_id).unwrap().bank_id;
    store.restore(Change::PutTransaction(Transaction {
        id,
        bank_id,
        account_id,
        date: date.to_string(),
        description: description.to_string(),
        amount_cents,
        balance_cents,
        hash,
        metadata: "{}".to_string(),
        source_file: String::new(),
        import_batch_id: 1,
    }));
    id
}

/// Two banks, three accounts, several transactions, some categorised, and one
/// transfer pair.
fn setup_rich_fixture() -> TransactionStore {
    let mut store = TransactionStore::open_in_memory();
    let ing = add_bank(&mut store, "ING");
    let nab = add_bank(&mut store, "NAB");
    let ing_orange = add_account(&mut store, 1, ing, "Orange Everyday");
    let ing_savings = add_account(&mut store, 2, ing, "Savings Maximiser");
    let nab_classic = add_account(&mut store, 3, nab, "Classic");

    let txs = [
        (ing_orange, "2024-01-15", "Coffee Shop", -500i64, 100000i64),
        (ing_orange, "2024-02-20", "Grocery Store", -8500, 91500),
        (ing_orange, "2024-03-10", "Salary", 250000, 341500),
        (ing_savings, "2024-03-15", "Interest", 1234, 50000),
        (nab_classic, "2024-04-05", "Coffee Bean", -750, 75000),
        // Transfer pair (equal & opposite)
        (ing_orange, "2024-05-01", "Transfer Out", -10000, 331500),
        (nab_classic, "2024-05-01", "Transfer In", 10000, 85000),
    ];
    for (account, date, desc, amount, balance) in txs {
        let hash = format!("{account}-{date}-{amount}");
        put_tx(&mut store, account, date, desc, amount, balance, hash);
    }

    let food = store.get_or_create_category("Food/Groceries", NOW).unwrap();
    let coffee = store.get_or_create_category("Food/Coffee", NOW).unwrap();
    let income = store.get_or_create_category("Income/Salary", NOW).unwrap();
    let manual = CategorySource::Manual;
    let coffee_tx = tx_id_of(&store, "Coffee Shop");
    let groc_tx = tx_id_of(&store, "Grocery Store");
    let salary_tx = tx_id_of(&store, "Salary");
    let bean_tx = tx_id_of(&store, "Coffee Bean");
    store.set_category(coffee_tx, coffee, manual, true, None, NOW).unwrap();
    store.set_category(groc_tx, food, manual, true, None, NOW).unwrap();
    store.set_category(salary_tx, income, manual, true, None, NOW).unwrap();
    // AI-suggested, awaiting review:
    store
        .set_category(bean_tx, coffee, CategorySource::Ai, false, confidence(0.85), NOW)
        .unwrap();

    let out = tx_id_of(&store, "Transfer Out");
    let into = tx_id_of(&store, "Transfer In");
    store.create_transfer(out, into, TransferSource::Manual, true, None, NOW).unwrap();
    store
}

fn store_with_two_accounts() -> (TransactionStore, i64, i64) {
    let mut store = TransactionStore::open_in_memory();
    let bank = add_bank(&mut store, "TB");
    let a1 = add_account(&mut store, 1, bank, "A1");
    let a2 = add_account(&mut store, 2, bank, "A2");
    (store, a1, a2)
}

fn insert_tx(store: &mut TransactionStore, account_id: i64, date: &str, amount: i64) -> i64 {
    insert_tx_desc(store, account_id, date, "tx", amount)
}

fn insert_tx_desc(
    store: &mut TransactionStore,
    account_id: i64,
    date: &str,
    description: &str,
    amount: i64,
) -> i64 {
    let hash = format!("{account_id}-{date}-{description}-{amount}");
    put_tx(store, account_id, date, description, amount, 0, hash)
}

fn get_tx(store: &TransactionStore, id: i64) -> Transaction {
    store.get_transaction_by_id(id).unwrap()
}

fn tx_id_of(store: &TransactionStore, desc: &str) -> i64 {
    let all = store.query_transactions(&EVERY, None);
    all.iter().find(|tx| tx.description == desc).unwrap().id
}

fn annotate_transaction(
    store: &mut TransactionStore,
    description: &str,
    metadata: &str,
    source_file: &str,
    hash: &str,
) {
    let mut tx = get_tx(store, tx_id_of(store, description));
    tx.metadata = metadata.to_string();
    tx.source_file = source_file.to_string();
    tx.hash = hash.to_string();
    store.restore(Change::PutTransaction(tx));
}

/// What a query that accepts these transactions finds.
fn found(store: &TransactionStore, accepts: impl Fn(&Transaction) -> bool) -> Hits {
    let all = store.query_transactions(&EVERY, None);
    Hits::Only(all.iter().filter(|tx| accepts(tx)).map(|tx| tx.id).collect())
}

fn in_bank(store: &TransactionStore, bank: &str) -> Hits {
    found(store, |tx| {
        let account = store.get_account_with_bank(tx.account_id);
        account.map(|a| a.bank_name == bank).unwrap_or(false)
    })
}

fn with_text(store: &TransactionStore, text: &str) -> Hits {
    found(store, |tx| tx.description.contains(text))
}

/// What every saved filter's query finds: it is taken as text of the
/// description.
fn filter_hits(store: &TransactionStore) -> HashMap<i64, Hits> {
    let filters = store.list_filters();
    filters.iter().map(|f| (f.id, with_text(store, &f.query))).collect()
}

fn apply_filters(store: &mut TransactionStore) -> usize {
    let hits = filter_hits(store);
    store.apply_filters(&hits, NOW).unwrap()
}

fn field(metadata: &str, key: &str) -> Option<String> {
    let fields = read_fields(metadata);
    fields.into_iter().find(|f| f.0 == key).map(|f| f.1)
}

fn assert_same_transaction(a: &Transaction, b: &Transaction) {
    assert_eq!(a.id, b.id);
    assert_eq!(a.bank_id, b.bank_id);
    assert_eq!(a.account_id, b.account_id);
    assert_eq!(a.date, b.date);
    assert_eq!(a.description, b.description);
    assert_eq!(a.amount_cents, b.amount_cents);
    assert_eq!(a.balance_cents, b.balance_cents);
    assert_eq!(a.hash, b.hash);
    assert_eq!(a.metadata, b.metadata);
    assert_eq!(a.source_file, b.source_file);
    assert_eq!(a.import_batch_id, b.import_batch_id);
}

// ----- a full-text index -----

struct Index {
    postings: Vec<(i64, Vec<String>)>,
}

fn words(text: &str) -> Vec<String> {
    text.split(|c: char| !c.is_alphanumeric())
        .filter(|w| !w.is_empty())
        .map(|w| w.to_lowercase())
        .collect()
}

fn posting_words(p: &Posting) -> Vec<String> {
    let mut all = words(&p.description);
    for (_, value) in &p.metadata {
        all.extend(words(value));
    }
    if let Some(note) = &p.note {
        all.extend(words(note));
    }
    all
}

impl Index {
    fn build(store: &TransactionStore) -> Index {
        let postings = store.rebuild_fts();
        Index { postings: postings.iter().map(|p| (p.tx_id, posting_words(p))).collect() }
    }

    /// Replace what the index holds of one transaction.
    fn write(&mut self, p: &Posting) {
        self.postings.retain(|(id, _)| *id != p.tx_id);
        self.postings.push((p.tx_id, posting_words(p)));
    }

    /// Carry out what the store noted.
    fn follow(&mut self, store: &mut TransactionStore) {
        for change in store.take_journal() {
            if let Change::Reindex { tx_id } = change {
                self.write(&store.refresh_transaction_fts(tx_id).unwrap());
            }
        }
    }

    fn rows(&self, token: &str) -> Vec<i64> {
        let token = token.to_lowercase();
        let mut ids: Vec<i64> = self
            .postings
            .iter()
            .filter(|(_, words)| words.contains(&token))
            .map(|(id, _)| *id)
            .collect();
        ids.sort();
        ids.dedup();
        ids
    }
}

// ----- accounts -----

fn account_name(store: &TransactionStore, id: i64) -> String {
    store.get_account_with_bank(id).unwrap().name
}

#[test]
fn list_orders_by_path_with_counts() {
    let (mut store, a1, a2) = store_with_two_accounts();
    insert_tx_desc(&mut store, a1, "2024-01-01", "one", -100);
    insert_tx_desc(&mut store, a1, "2024-01-02", "two", -200);

    let accounts = store.list_accounts_with_bank();
    assert_eq!(accounts.len(), 2);
    assert_eq!(accounts[0].path, "TB/A1");
    assert_eq!(accounts[1].path, "TB/A2");

    let counts = store.get_account_transaction_counts();
    assert_eq!(counts.get(&a1), Some(&2));
    assert!(!counts.contains_key(&a2));
}

#[test]
fn rename_within_bank_moves_folder() {
    let (mut store, a1, _a2) = store_with_two_accounts();

    // The folder to move, and where to.
    let plan = store.plan_account_rename(a1, "TB/Renamed").unwrap().unwrap();
    assert_eq!((plan.old_bank.as_str(), plan.old_name.as_str()), ("TB", "A1"));
    assert_eq!((plan.new_bank.as_str(), plan.new_name.as_str()), ("TB", "Renamed"));

    store.rename_account(a1, "TB/Renamed", false).unwrap();
    assert_eq!(account_name(&store, a1), "Renamed");
}

#[test]
fn rename_to_different_bank() {
    let (mut store, a1, _a2) = store_with_two_accounts();
    let original_bank_id = store.get_account_with_bank(a1).unwrap().bank_id;
    let tx = insert_tx(&mut store, a1, "2024-03-10", -5000);

    store.rename_account(a1, "NewBank/Moved", false).unwrap();

    let account = store.get_account_with_bank(a1).unwrap();
    assert_eq!(account.bank_name, "NewBank");
    assert_eq!(account.name, "Moved");
    assert_ne!(account.bank_id, original_bank_id);
    assert_eq!(get_tx(&store, tx).bank_id, account.bank_id);
}

#[test]
fn rename_collision_errors_and_leaves_state() {
    let (mut store, a1, _a2) = store_with_two_accounts();

    assert!(matches!(
        store.rename_account(a1, "TB/A2", true),
        Err(Error::AccountExists(_))
    ));
    assert_eq!(account_name(&store, a1), "A1");
    // A folder alone is a collision too, and so is a row alone.
    assert!(matches!(
        store.rename_account(a1, "TB/Free", true),
        Err(Error::AccountExists(path)) if path == "TB/Free"
    ));
    assert!(matches!(
        store.rename_account(a1, "TB/A2", false),
        Err(Error::AccountExists(path)) if path == "TB/A2"
    ));
    assert_eq!(account_name(&store, a1), "A1");
}

#[test]
fn rename_invalid_path_errors() {
    let (mut store, a1, _a2) = store_with_two_accounts();
    assert!(matches!(
        store.rename_account(a1, "NoSlash", false),
        Err(Error::InvalidAccountPath(_))
    ));
    assert!(matches!(
        store.rename_account(a1, "TB/", false),
        Err(Error::InvalidAccountPath(_))
    ));
    assert!(matches!(
        store.rename_account(a1, "TB/Sub/Deep", false),
        Err(Error::InvalidAccountPath(_))
    ));
    assert_eq!(account_name(&store, a1), "A1");
}

#[test]
fn rename_with_missing_source_folder_still_updates_db() {
    let (mut store, a1, _a2) = store_with_two_accounts();
    store.rename_account(a1, "TB/Renamed2", false).unwrap();
    assert_eq!(account_name(&store, a1), "Renamed2");
}

#[test]
fn rename_no_op_same_path() {
    let (mut store, a1, _a2) = store_with_two_accounts();
    store.rename_account(a1, "TB/A1", true).unwrap();
    assert_eq!(account_name(&store, a1), "A1");
    assert!(store.plan_account_rename(a1, "TB/A1").unwrap().is_none());
}

#[test]
fn delete_removes_folder_soft_deletes_and_retains_txns() {
    let (mut store, a1, _a2) = store_with_two_accounts();
    insert_tx_desc(&mut store, a1, "2024-01-01", "one", -100);
    insert_tx_desc(&mut store, a1, "2024-01-02", "two", -200);

    let n = store.delete_account(a1, NOW).unwrap();
    assert_eq!(n, 2);
    assert!(!store.list_accounts_with_bank().iter().any(|a| a.id == a1));
    assert!(store.get_account_with_bank(a1).is_none());
    assert_eq!(store.count_transactions_in_account(a1), 2);
}

#[test]
fn an_account_that_is_gone_is_not_found() {
    let (mut store, a1, _a2) = store_with_two_accounts();
    store.delete_account(a1, NOW).unwrap();
    assert!(matches!(
        store.delete_account(a1, NOW),
        Err(Error::AccountNotFound(id)) if id == "1"
    ));
    assert!(matches!(
        store.rename_account(77, "TB/X", false),
        Err(Error::AccountNotFound(id)) if id == "77"
    ));
}

#[test]
fn accounts_are_found_by_path() {
    let (store, a1, a2) = store_with_two_accounts();
    assert_eq!(store.get_account_by_path("TB/A1").unwrap().id, a1);
    assert_eq!(store.get_account_by_path("TB/A2").unwrap().id, a2);
    assert!(store.get_account_by_path("TB/A3").is_none());
    assert!(store.get_account_by_path("TB").is_none());
    assert_eq!(store.get_account_by_path(" TB / A1 ").unwrap().id, a1);
    assert!(store.get_account_by_path("TB/A1/").is_none());
    assert!(store.get_account_by_path("/A1").is_none());
}

#[test]
fn a_path_names_one_bank_and_one_account() {
    let (mut store, _a1, _a2) = store_with_two_accounts();
    let bank = store.get_or_create_bank("TB").unwrap().0;
    add_account(&mut store, 9, bank, "A/B");
    assert!(store.get_account_by_path("TB/A/B").is_none());
}

#[test]
fn a_deleted_accounts_rows_leave_the_lists() {
    let (mut store, a1, a2) = store_with_two_accounts();
    let gone = insert_tx(&mut store, a1, "2024-03-10", -5000);
    let kept = insert_tx(&mut store, a2, "2024-03-11", 5000);
    store.delete_account(a1, NOW).unwrap();
    let ids: Vec<i64> = store.query_transactions(&EVERY, None).iter().map(|t| t.id).collect();
    assert_eq!(ids, vec![kept]);
    assert!(store.get_transaction_by_id(gone).is_some());
}

// ----- notes and tags -----

fn annotated_fixture() -> (TransactionStore, Vec<i64>) {
    let (mut store, a1, a2) = store_with_two_accounts();
    let ids = vec![
        insert_tx_desc(&mut store, a1, "2024-03-01", "Coffee Roasters", -850),
        insert_tx_desc(&mut store, a1, "2024-03-02", "Strata Corp", -45000),
        insert_tx_desc(&mut store, a2, "2024-03-03", "Salary", 500000),
    ];
    (store, ids)
}

fn tag_names(store: &TransactionStore) -> Vec<String> {
    store.list_tags().into_iter().map(|t| t.name).collect()
}

fn tag(store: &mut TransactionStore, tx_id: i64, names: &[&str]) -> Vec<String> {
    let names: Vec<String> = names.iter().map(|n| n.to_string()).collect();
    store.set_transaction_tags(tx_id, &names, NOW).unwrap()
}

#[test]
fn set_note_round_trips_and_clears() {
    let (mut store, ids) = annotated_fixture();

    assert!(store.set_note(ids[0], "Reimbursable\n\nby Acme"));
    assert_eq!(
        store.get_note(ids[0]).as_deref(),
        Some("Reimbursable\n\nby Acme")
    );

    // Blank clears rather than storing whitespace.
    assert!(!store.set_note(ids[0], "   \n  "));
    assert_eq!(store.get_note(ids[0]), None);
}

#[test]
fn notes_are_full_text_searchable_and_reindexed_on_change() {
    let (mut store, ids) = annotated_fixture();
    let mut index = Index::build(&store);

    store.set_note(ids[0], "reimbursable by Acme");
    index.follow(&mut store);
    assert_eq!(index.rows("reimbursable"), vec![ids[0]]);

    // Rewriting the note must not leave the old tokens behind.
    store.set_note(ids[0], "personal spending");
    index.follow(&mut store);
    assert!(index.rows("reimbursable").is_empty());
    assert_eq!(index.rows("personal"), vec![ids[0]]);

    // Clearing it drops the note tokens but keeps the description indexed.
    store.set_note(ids[0], "");
    index.follow(&mut store);
    assert!(index.rows("personal").is_empty());
    assert_eq!(index.rows("roasters"), vec![ids[0]]);
}

#[test]
fn rebuild_fts_reindexes_notes() {
    let (mut store, ids) = annotated_fixture();

    store.set_note(ids[1], "quarterly levy");
    let index = Index::build(&store);
    assert_eq!(index.rows("levy"), vec![ids[1]]);
    assert_eq!(index.rows("strata"), vec![ids[1]]);
}

#[test]
fn tags_are_canonicalised_deduplicated_and_sorted() {
    let (mut store, ids) = annotated_fixture();

    let stored = tag(&mut store, ids[0], &["#Work", "work", " #travel ", "not a tag", ""]);

    assert_eq!(stored, vec!["travel".to_string(), "work".to_string()]);
    assert_eq!(store.tags_for_transaction(ids[0]), stored);
}

#[test]
fn setting_tags_replaces_the_previous_set_and_gcs_orphans() {
    let (mut store, ids) = annotated_fixture();

    tag(&mut store, ids[0], &["work", "travel"]);
    tag(&mut store, ids[1], &["travel"]);
    assert_eq!(tag_names(&store), vec!["travel", "work"]);

    // Dropping "work" from its only transaction removes the tag entirely,
    // while "travel" survives because another transaction still uses it.
    tag(&mut store, ids[0], &["travel"]);
    assert_eq!(tag_names(&store), vec!["travel"]);
    assert_eq!(store.tags_for_transaction(ids[0]), vec!["travel"]);
}

#[test]
fn list_tags_orders_by_usage_then_name() {
    let (mut store, ids) = annotated_fixture();

    tag(&mut store, ids[0], &["common", "alpha"]);
    tag(&mut store, ids[1], &["common"]);
    tag(&mut store, ids[2], &["common", "zeta"]);

    assert_eq!(tag_names(&store), vec!["common", "alpha", "zeta"]);
    let counts: HashMap<String, usize> = store.tag_transaction_counts().into_iter().collect();
    assert_eq!(counts["common"], 3);
}

#[test]
fn batch_lookups_key_by_transaction() {
    let (mut store, ids) = annotated_fixture();

    store.set_note(ids[0], "a note");
    tag(&mut store, ids[0], &["work", "travel"]);

    let notes = store.notes_for_transactions(&ids);
    assert_eq!(notes.len(), 1);
    assert_eq!(notes[&ids[0]], "a note");

    let tags = store.tags_for_transactions(&ids);
    assert_eq!(tags.len(), 1);
    assert_eq!(tags[&ids[0]], vec!["travel", "work"]);

    assert!(store.notes_for_transactions(&vec![]).is_empty());
    assert!(store.tags_for_transactions(&vec![]).is_empty());
}

#[test]
fn a_transfer_leg_keeps_its_note_and_tags() {
    let (mut store, ids) = annotated_fixture();

    store.set_note(ids[0], "paired with savings");
    tag(&mut store, ids[0], &["shuffle"]);

    // create_transfer clears enrichments on both endpoints; annotations live
    // outside that table precisely so they survive.
    store
        .create_transfer(ids[0], ids[2], TransferSource::Manual, true, None, NOW)
        .unwrap();

    assert_eq!(
        store.get_note(ids[0]).as_deref(),
        Some("paired with savings")
    );
    assert_eq!(store.tags_for_transaction(ids[0]), vec!["shuffle"]);
}

// ----- categories -----

/// One bank with one account and one imported transaction.
fn imported_fixture() -> TransactionStore {
    let mut store = TransactionStore::open_in_memory();
    store.refresh(&vec![test_bank()], 1, NOW).unwrap();
    store
}

fn test_bank() -> BankImport {
    BankImport {
        name: "TestBank".to_string(),
        accounts: vec![AccountImport {
            name: "Checking".to_string(),
            files: vec![FileImport {
                path: "TestBank/Checking/transactions.csv".to_string(),
                content_hash: "csv-hash".to_string(),
                transactions: vec![raw("2025-01-01", "Test transaction", "{}", None)],
            }],
            pulled: None,
        }],
    }
}

fn raw(date: &str, description: &str, metadata: &str, hash: Option<&str>) -> RawTransaction {
    RawTransaction {
        date: date.to_string(),
        description: description.to_string(),
        amount_cents: -10000,
        balance_cents: 50000,
        hash: hash.map(|h| h.to_string()),
        fallback_hash: format!("{date}-{description}"),
        metadata: metadata.to_string(),
    }
}

#[test]
fn rename_category_works() {
    let mut store = TransactionStore::open_in_memory();

    let cat_id = store.get_or_create_category("Food/Groceries", NOW).unwrap();
    store.rename_category(cat_id, "Food/Supermarket").unwrap();

    let cat = store.get_category(cat_id).unwrap();
    assert_eq!(cat.path, "Food/Supermarket");
}

#[test]
fn rename_category_conflict_errors() {
    let mut store = TransactionStore::open_in_memory();

    store.get_or_create_category("Food/Groceries", NOW).unwrap();
    let cat2_id = store.get_or_create_category("Food/Supermarket", NOW).unwrap();

    let result = store.rename_category(cat2_id, "Food/Groceries");
    assert!(matches!(result, Err(Error::CategoryExists(_))));
}

#[test]
fn merge_categories_moves_transactions_and_drops_source() {
    let mut store = imported_fixture();

    let source_id = store.get_or_create_category("OldCategory", NOW).unwrap();
    let target_id = store.get_or_create_category("NewCategory", NOW).unwrap();

    let txs = store.query_transactions(&EVERY, None);
    let tx_id = txs[0].id;
    store
        .set_category(tx_id, source_id, CategorySource::Manual, true, None, NOW)
        .unwrap();

    store.merge_categories(source_id, target_id, LATER);

    assert!(store.get_category(source_id).is_none());
    let cat = store.get_transaction_category(tx_id).unwrap();
    assert_eq!(cat.id, target_id);
}

#[test]
fn delete_category_drops_enrichments_and_reports_count() {
    let mut store = imported_fixture();

    let cat_id = store.get_or_create_category("Doomed", NOW).unwrap();
    let txs = store.query_transactions(&EVERY, None);
    let tx_id = txs[0].id;
    store
        .set_category(tx_id, cat_id, CategorySource::Manual, true, None, NOW)
        .unwrap();

    assert_eq!(store.delete_category(cat_id), 1);
    assert!(store.get_category(cat_id).is_none());
    assert!(store.get_transaction_category(tx_id).is_none());
}

#[test]
fn count_transactions_in_category_tracks_assignments() {
    let mut store = imported_fixture();

    let cat_id = store.get_or_create_category("TestCategory", NOW).unwrap();
    assert_eq!(store.count_transactions_in_category(cat_id), 0);

    let txs = store.query_transactions(&EVERY, None);
    store
        .set_category(txs[0].id, cat_id, CategorySource::Manual, true, None, NOW)
        .unwrap();

    assert_eq!(store.count_transactions_in_category(cat_id), 1);
}

#[test]
fn query_transactions_in_category_returns_assigned_only() {
    let mut store = imported_fixture();

    let cat_id = store.get_or_create_category("TestCategory", NOW).unwrap();
    let unused_id = store.get_or_create_category("Unused", NOW).unwrap();
    assert!(store.query_transactions_in_category(cat_id, None).is_empty());

    let txs = store.query_transactions(&EVERY, None);
    store
        .set_category(txs[0].id, cat_id, CategorySource::Manual, true, None, NOW)
        .unwrap();

    let assigned = store.query_transactions_in_category(cat_id, None);
    assert_eq!(assigned.len(), 1);
    assert_eq!(assigned[0].id, txs[0].id);
    assert!(store.query_transactions_in_category(unused_id, None).is_empty());
}

#[test]
fn get_category_transaction_counts_groups_in_one_query() {
    let mut store = imported_fixture();

    // No assignments yet — empty map (categories with zero transactions
    // are omitted, not zeroed).
    assert!(store.get_category_transaction_counts().is_empty());

    let food = store.get_or_create_category("Food", NOW).unwrap();
    let transport = store.get_or_create_category("Transport", NOW).unwrap();
    let unused = store.get_or_create_category("UnusedCategory", NOW).unwrap();

    let tx = store
        .query_transactions(&EVERY, None)
        .into_iter()
        .next()
        .expect("fixture has one transaction");

    // Categories with zero transactions stay out of the result.
    store
        .set_category(tx.id, food, CategorySource::Manual, true, None, NOW)
        .unwrap();
    let counts = store.get_category_transaction_counts();
    assert_eq!(counts.get(&food), Some(&1));
    assert_eq!(counts.get(&transport), None);
    assert_eq!(counts.get(&unused), None);
    assert_eq!(counts.len(), 1);

    // Reassigning the transaction moves the count, doesn't duplicate it.
    store
        .set_category(tx.id, transport, CategorySource::Manual, true, None, NOW)
        .unwrap();
    let counts = store.get_category_transaction_counts();
    assert_eq!(counts.get(&food), None);
    assert_eq!(counts.get(&transport), Some(&1));
    assert_eq!(counts.len(), 1);
}

#[test]
fn categories_are_listed_by_path_and_found_by_score() {
    let mut store = TransactionStore::open_in_memory();
    for path in ["Transport", "Food/Groceries", "Food/Coffee"] {
        store.get_or_create_category(path, NOW).unwrap();
    }
    let paths: Vec<String> = store.list_categories().into_iter().map(|c| c.path).collect();
    assert_eq!(paths, vec!["Food/Coffee", "Food/Groceries", "Transport"]);
    let found: Vec<String> = store.find_categories("groc").into_iter().map(|c| c.path).collect();
    assert_eq!(found, vec!["Food/Groceries"]);
    assert!(store.find_categories("zzz").is_empty());
}

#[test]
fn asking_for_a_category_again_gives_the_same_one() {
    let mut store = TransactionStore::open_in_memory();
    let first = store.get_or_create_category("Food", NOW).unwrap();
    let second = store.get_or_create_category("Food", LATER).unwrap();
    assert_eq!(first, second);
    assert_eq!(store.list_categories().len(), 1);
    assert_eq!(store.get_category_by_path("Food").unwrap().created_at, NOW);
}

// ----- enrichments -----

#[test]
fn confirmed_examples_include_only_confirmed_assignments() {
    let store = setup_rich_fixture();
    let examples = store.get_confirmed_examples().unwrap();

    assert_eq!(examples.len(), 3);
    assert!(examples.iter().any(|example| {
        example.description == "Grocery Store"
            && example.amount_cents == -8500
            && example.date == "2024-02-20"
            && example.category_path == "Food/Groceries"
    }));
    assert!(!examples.iter().any(|example| example.description == "Coffee Bean"));
}

#[test]
fn set_category_rejects_transfer_legs() {
    let (mut store, a1, a2) = store_with_two_accounts();
    let from = insert_tx(&mut store, a1, "2024-03-10", -5000);
    let to = insert_tx(&mut store, a2, "2024-03-10", 5000);
    store.create_transfer(from, to, TransferSource::Manual, true, None, NOW).unwrap();

    let cat = store.get_or_create_category("Food", NOW).unwrap();

    // Either leg of the transfer is refused.
    let from_err = store.set_category(from, cat, CategorySource::Manual, true, None, NOW);
    assert!(matches!(from_err, Err(Error::TransactionInTransfer(id)) if id == from));
    let to_err = store.set_category(to, cat, CategorySource::Manual, true, None, NOW);
    assert!(matches!(to_err, Err(Error::TransactionInTransfer(id)) if id == to));

    // A non-transfer transaction can still be categorised.
    let plain = insert_tx(&mut store, a1, "2024-03-11", -1200);
    store
        .set_category(plain, cat, CategorySource::Manual, true, None, NOW)
        .unwrap();
    assert_eq!(store.get_transaction_category(plain).unwrap().id, cat);
}

#[test]
fn set_categories_applies_and_skips_transfer_legs() {
    let (mut store, a1, a2) = store_with_two_accounts();
    let plain1 = insert_tx(&mut store, a1, "2024-03-11", -1200);
    let plain2 = insert_tx(&mut store, a1, "2024-03-12", -3400);
    let from = insert_tx(&mut store, a1, "2024-03-10", -5000);
    let to = insert_tx(&mut store, a2, "2024-03-10", 5000);
    store.create_transfer(from, to, TransferSource::Manual, true, None, NOW).unwrap();

    // Give plain1 a pre-existing category so we can prove the batch upserts.
    let old = store.get_or_create_category("Old", NOW).unwrap();
    store
        .set_category(plain1, old, CategorySource::Manual, true, None, NOW)
        .unwrap();

    let cat = store.get_or_create_category("Food", NOW).unwrap();
    let updated = store
        .set_categories(
            &vec![plain1, plain2, from, to],
            cat,
            CategorySource::Manual,
            true,
            None,
            NOW,
        )
        .unwrap();

    // Only the two plain transactions are updated; the transfer legs skip.
    assert_eq!(updated, 2);
    assert_eq!(store.get_transaction_category(plain1).unwrap().id, cat);
    assert_eq!(store.get_transaction_category(plain2).unwrap().id, cat);
    assert!(store.get_transaction_category(from).is_none());
    assert!(store.get_transaction_category(to).is_none());
}

#[test]
fn enrichment_round_trips_every_field() {
    let (mut store, a1, _a2) = store_with_two_accounts();
    let tx = insert_tx(&mut store, a1, "2024-06-01", -4321);
    let cat = store.get_or_create_category("Round/Enrich", NOW).unwrap();
    store
        .set_category(tx, cat, CategorySource::Ai, false, confidence(0.42), LATER)
        .unwrap();

    let reviews = store.get_pending_ai_reviews(&EVERY, None);
    assert_eq!(reviews.len(), 1);
    let row = &reviews[0];
    assert_eq!(row.transaction.id, tx);

    let enrichment = row.enrichment.as_ref().expect("row has enrichment");
    assert_eq!(enrichment.transaction_id, tx);
    assert_eq!(enrichment.category_id, Some(cat));
    assert_eq!(enrichment.category_source, Some(CategorySource::Ai));
    assert!(!enrichment.category_confirmed);
    assert_eq!(enrichment.ai_confidence, confidence(0.42));
    assert_eq!(enrichment.created_at, LATER);
    assert_eq!(enrichment.updated_at, LATER);

    let category = row.category.as_ref().expect("row has category");
    assert_eq!(category.id, cat);
    assert_eq!(category.path, "Round/Enrich");
    assert_eq!(category.created_at, NOW);
}

#[test]
fn a_second_assignment_keeps_the_row_and_its_creation() {
    let (mut store, a1, _a2) = store_with_two_accounts();
    let tx = insert_tx(&mut store, a1, "2024-06-01", -4321);
    let cat = store.get_or_create_category("A", NOW).unwrap();
    store
        .set_category(tx, cat, CategorySource::Ai, false, confidence(0.5), NOW)
        .unwrap();
    let first = store.get_pending_ai_reviews(&EVERY, None).remove(0).enrichment.unwrap();
    store
        .set_category(tx, cat, CategorySource::Ai, false, None, LATER)
        .unwrap();
    let second = store.get_pending_ai_reviews(&EVERY, None).remove(0).enrichment.unwrap();
    assert_eq!(second.id, first.id);
    assert_eq!(second.created_at, NOW);
    assert_eq!(second.updated_at, LATER);
    assert_eq!(second.ai_confidence, None);

    store.confirm_category(tx, LATER);
    assert!(store.get_pending_ai_reviews(&EVERY, None).is_empty());
    assert_eq!(store.get_enrichment_meta(tx), Some((Some(CategorySource::Ai), true, Some(cat))));
    store.delete_enrichment(tx);
    assert_eq!(store.get_enrichment_meta(tx), None);
}

// ----- saved filters -----

/// Source, confirmed, category path for a transaction's enrichment.
fn enrichment(store: &TransactionStore, desc: &str) -> Option<(CategorySource, bool, String)> {
    let id = tx_id_of(store, desc);
    let (source, confirmed, cat_id) = store.get_enrichment_meta(id)?;
    let path = store.get_category(cat_id.unwrap()).unwrap().path;
    Some((source.unwrap(), confirmed, path))
}

/// Add a category-bearing filter and return its id.
fn add_filter(
    store: &mut TransactionStore,
    name: &str,
    query: &str,
    category: &str,
    mode: FilterOverride,
    review: bool,
) -> i64 {
    let cat = store.get_or_create_category(category, NOW).unwrap();
    let id = store.create_filter(name, query, NOW).unwrap();
    store.set_filter_category(id, Some(cat));
    store.set_filter_override(id, mode);
    store.set_filter_review(id, review);
    id
}

#[test]
fn filter_applies_rule_to_uncategorised_match_only() {
    let mut store = setup_rich_fixture();
    // "Interest" is the only uncategorised, non-transfer transaction.
    add_filter(
        &mut store,
        "interest",
        "Interest",
        "Income/Interest",
        FilterOverride::Uncategorised,
        false,
    );

    assert_eq!(apply_filters(&mut store), 1);
    assert_eq!(
        enrichment(&store, "Interest"),
        Some((CategorySource::Rule, true, "Income/Interest".into()))
    );
    // A non-matching uncategorised-elsewhere row is untouched; the manual
    // Grocery enrichment keeps its source.
    assert_eq!(
        enrichment(&store, "Grocery Store").map(|e| e.0),
        Some(CategorySource::Manual)
    );
}

#[test]
fn filter_review_required_leaves_unconfirmed() {
    let mut store = setup_rich_fixture();
    add_filter(
        &mut store,
        "interest",
        "Interest",
        "Income/Interest",
        FilterOverride::Uncategorised,
        true,
    );
    apply_filters(&mut store);
    assert_eq!(
        enrichment(&store, "Interest"),
        Some((CategorySource::Rule, false, "Income/Interest".into()))
    );
}

#[test]
fn override_modes_respect_existing_enrichment() {
    let mut store = setup_rich_fixture();
    // Grocery Store is Manual+confirmed; Coffee Bean is AI+unconfirmed.
    add_filter(
        &mut store,
        "uncat",
        "Grocery",
        "Override/Uncat",
        FilterOverride::Uncategorised,
        false,
    );
    add_filter(
        &mut store,
        "ai-on-ai",
        "Coffee Bean",
        "Override/Ai",
        FilterOverride::Ai,
        false,
    );
    apply_filters(&mut store);
    // Uncategorised never overrides a manual category.
    assert_eq!(
        enrichment(&store, "Grocery Store").map(|e| e.0),
        Some(CategorySource::Manual)
    );
    // Ai overrides an existing AI enrichment.
    assert_eq!(
        enrichment(&store, "Coffee Bean"),
        Some((CategorySource::Rule, true, "Override/Ai".into()))
    );

    // A fresh All-mode filter overrides a manual category (Salary, which no
    // earlier filter claims).
    add_filter(
        &mut store,
        "all",
        "Salary",
        "Override/All",
        FilterOverride::All,
        false,
    );
    apply_filters(&mut store);
    assert_eq!(
        enrichment(&store, "Salary"),
        Some((CategorySource::Rule, true, "Override/All".into()))
    );

    // Ai mode must NOT override the manual Grocery category. The earlier
    // Uncategorised "uncat" filter claims Grocery first, but even alone an
    // Ai filter would skip a manual enrichment.
    add_filter(
        &mut store,
        "ai-on-manual",
        "Coffee Shop",
        "Override/AiManual",
        FilterOverride::Ai,
        false,
    );
    apply_filters(&mut store);
    // Coffee Shop is Manual+confirmed; Ai mode leaves it.
    assert_eq!(
        enrichment(&store, "Coffee Shop").map(|e| e.0),
        Some(CategorySource::Manual)
    );
}

#[test]
fn first_matching_filter_wins() {
    let mut store = setup_rich_fixture();
    // Both match "Interest"; the earlier (lower position) filter wins.
    add_filter(
        &mut store,
        "first",
        "Interest",
        "Win/First",
        FilterOverride::All,
        false,
    );
    add_filter(
        &mut store,
        "second",
        "Interest",
        "Win/Second",
        FilterOverride::All,
        false,
    );
    apply_filters(&mut store);
    assert_eq!(
        enrichment(&store, "Interest").map(|e| e.2),
        Some("Win/First".into())
    );
}

#[test]
fn apply_filters_is_idempotent_and_preserves_confirmed() {
    let mut store = setup_rich_fixture();
    let filter_id = add_filter(
        &mut store,
        "interest",
        "Interest",
        "Income/Interest",
        FilterOverride::Uncategorised,
        false,
    );

    assert_eq!(apply_filters(&mut store), 1);
    // User confirms the rule assignment.
    let interest = tx_id_of(&store, "Interest");
    store.confirm_category(interest, LATER);
    // Switching the filter to require review must not re-touch the now
    // user-confirmed same-category row.
    store.set_filter_review(filter_id, true);

    assert_eq!(apply_filters(&mut store), 0);
    assert_eq!(
        enrichment(&store, "Interest"),
        Some((CategorySource::Rule, true, "Income/Interest".into()))
    );
    // Exactly one enrichment row for the transaction.
    let cat = store.get_category_by_path("Income/Interest").unwrap().id;
    assert_eq!(store.count_transactions_in_category(cat), 1);
}

#[test]
fn review_required_filter_reapply_reports_no_change() {
    let mut store = setup_rich_fixture();
    add_filter(
        &mut store,
        "interest",
        "Interest",
        "Income/Interest",
        FilterOverride::Uncategorised,
        true,
    );

    // First apply categorises the row (unconfirmed, pending review).
    assert_eq!(apply_filters(&mut store), 1);
    assert_eq!(
        enrichment(&store, "Interest"),
        Some((CategorySource::Rule, false, "Income/Interest".into()))
    );

    // Re-applying must not re-report the already-categorised row, even
    // though its rule enrichment stays unconfirmed.
    assert!(store.preview_filters(&filter_hits(&store)).is_empty());
    assert_eq!(apply_filters(&mut store), 0);
    assert_eq!(
        enrichment(&store, "Interest"),
        Some((CategorySource::Rule, false, "Income/Interest".into()))
    );
}

#[test]
fn preview_filters_matches_apply_and_leaves_db_unchanged() {
    let mut store = setup_rich_fixture();
    add_filter(
        &mut store,
        "interest",
        "Interest",
        "Income/Interest",
        FilterOverride::Uncategorised,
        false,
    );

    let before = store.get_uncategorised_transactions(&EVERY, None);
    let hits = filter_hits(&store);
    let preview: Vec<i64> = store.preview_filters(&hits).iter().map(|t| t.id).collect();
    // The dry-run touched nothing.
    let after = store.get_uncategorised_transactions(&EVERY, None);
    assert_eq!(
        before.iter().map(|t| t.id).collect::<Vec<_>>(),
        after.iter().map(|t| t.id).collect::<Vec<_>>()
    );
    assert!(enrichment(&store, "Interest").is_none());

    // The real apply categorises exactly the previewed transactions.
    let applied = store.preview_filters(&hits);
    assert_eq!(applied.iter().map(|t| t.id).collect::<Vec<_>>(), preview);
    assert_eq!(apply_filters(&mut store), preview.len());
    assert_eq!(
        enrichment(&store, "Interest"),
        Some((CategorySource::Rule, true, "Income/Interest".into()))
    );
}

#[test]
fn filter_never_categorises_transfer_leg() {
    let mut store = setup_rich_fixture();
    add_filter(
        &mut store,
        "xfer",
        "Transfer",
        "Should/NotApply",
        FilterOverride::All,
        false,
    );
    assert_eq!(apply_filters(&mut store), 0);
    assert!(enrichment(&store, "Transfer Out").is_none());
    assert!(enrichment(&store, "Transfer In").is_none());
}

#[test]
fn rename_category_keeps_filter_reference() {
    let mut store = setup_rich_fixture();
    let cat = store.get_or_create_category("Income/Interest", NOW).unwrap();
    let filter_id = store.create_filter("interest", "Interest", NOW).unwrap();
    store.set_filter_category(filter_id, Some(cat));

    store.rename_category(cat, "Income/Earnings").unwrap();

    let filter = store.list_filters().into_iter().find(|f| f.id == filter_id).unwrap();
    // Same category row id; only its path changed.
    assert_eq!(filter.category_id, Some(cat));
    assert_eq!(
        store.get_category(cat).map(|c| c.path),
        Some("Income/Earnings".into())
    );
}

#[test]
fn merge_category_repoints_filter() {
    let mut store = setup_rich_fixture();
    let source = store.get_or_create_category("Income/Interest", NOW).unwrap();
    let target = store.get_or_create_category("Income/Earnings", NOW).unwrap();
    let filter_id = store.create_filter("interest", "Interest", NOW).unwrap();
    store.set_filter_category(filter_id, Some(source));

    store.merge_categories(source, target, LATER);

    let filter = store.list_filters().into_iter().find(|f| f.id == filter_id).unwrap();
    assert_eq!(filter.category_id, Some(target));
}

#[test]
fn delete_category_clears_filter_reference() {
    let mut store = setup_rich_fixture();
    let cat = store.get_or_create_category("Income/Interest", NOW).unwrap();
    let filter_id = store.create_filter("interest", "Interest", NOW).unwrap();
    store.set_filter_category(filter_id, Some(cat));
    apply_filters(&mut store);
    assert!(enrichment(&store, "Interest").is_some());

    store.delete_category(cat);

    let filter = store.list_filters().into_iter().find(|f| f.id == filter_id).unwrap();
    assert_eq!(filter.category_id, None);
    assert!(enrichment(&store, "Interest").is_none());
}

#[test]
fn filters_using_category_returns_only_matches() {
    let mut store = setup_rich_fixture();
    let interest = store.get_or_create_category("Income/Interest", NOW).unwrap();
    let groceries = store.get_or_create_category("Food/Groceries", NOW).unwrap();
    let matching = store.create_filter("interest", "Interest", NOW).unwrap();
    let other = store.create_filter("groceries", "Groceries", NOW).unwrap();
    store.create_filter("misc", "Misc", NOW).unwrap(); // no category
    store.set_filter_category(matching, Some(interest));
    store.set_filter_category(other, Some(groceries));

    let using = store.filters_using_category(interest);
    assert_eq!(
        using.iter().map(|f| f.id).collect::<Vec<_>>(),
        vec![matching]
    );

    // A category no filter references yields nothing.
    let unused = store.get_or_create_category("Unused", NOW).unwrap();
    assert!(store.filters_using_category(unused).is_empty());
}

#[test]
fn filter_round_trips_every_field() {
    let mut store = TransactionStore::open_in_memory();
    let cat = store.get_or_create_category("Round/Filter", NOW).unwrap();
    // A first filter takes position 0 so the round-tripped one gets a
    // non-default position.
    store.create_filter("earlier", "placeholder", NOW).unwrap();
    let id = store.create_filter("initial name", "initial query", LATER).unwrap();
    store.rename_filter(id, "round-trip name");
    store.set_filter_query(id, "amount:>10 coffee");
    store.set_filter_category(id, Some(cat));
    store.set_filter_override(id, FilterOverride::Ai);
    store.set_filter_review(id, true);

    let filter = store
        .list_filters()
        .into_iter()
        .find(|f| f.id == id)
        .expect("created filter");
    assert_eq!(filter.id, id);
    assert_eq!(filter.name, "round-trip name");
    assert_eq!(filter.query, "amount:>10 coffee");
    assert_eq!(filter.category_id, Some(cat));
    assert_eq!(filter.override_mode, FilterOverride::Ai);
    assert!(filter.review_required);
    assert_eq!(filter.position, 1);
    assert_eq!(filter.created_at, LATER);
}

#[test]
fn deleting_a_filter_leaves_the_others_in_order() {
    let mut store = TransactionStore::open_in_memory();
    let a = store.create_filter("a", "1", NOW).unwrap();
    let b = store.create_filter("b", "2", NOW).unwrap();
    let c = store.create_filter("c", "3", NOW).unwrap();
    store.delete_filter(b);
    let ids: Vec<i64> = store.list_filters().iter().map(|f| f.id).collect();
    assert_eq!(ids, vec![a, c]);
}

// ----- queries -----

#[test]
fn query_with_empty_query_returns_all() {
    let store = setup_rich_fixture();
    let txs = store.query_transactions(&EVERY, None);
    assert_eq!(txs.len(), 7);
}

#[test]
fn query_respects_limit() {
    let store = setup_rich_fixture();
    let txs = store.query_transactions(&EVERY, Some(3));
    assert_eq!(txs.len(), 3);
}

#[test]
fn transactions_come_newest_first() {
    let store = setup_rich_fixture();
    let txs = store.query_transactions(&EVERY, None);
    let descs: Vec<&str> = txs.iter().map(|t| t.description.as_str()).collect();
    assert_eq!(
        descs,
        vec![
            "Transfer In",
            "Transfer Out",
            "Coffee Bean",
            "Interest",
            "Salary",
            "Grocery Store",
            "Coffee Shop",
        ]
    );
}

#[test]
fn query_fts() {
    let store = setup_rich_fixture();
    let hits = Hits::Only(Index::build(&store).rows("Salary"));
    let txs = store.query_transactions(&hits, None);
    assert_eq!(txs.len(), 1);
    assert_eq!(txs[0].description, "Salary");
}

#[test]
fn query_fts_no_match() {
    let store = setup_rich_fixture();
    let hits = Hits::Only(Index::build(&store).rows("notpresent"));
    assert!(store.query_transactions(&hits, None).is_empty());
}

#[test]
fn transaction_query_methods_parse_full_transaction_payloads() {
    let mut store = setup_rich_fixture();
    annotate_transaction(
        &mut store,
        "Interest",
        r#"{"note":"savings","tags":["fy24","interest"],"cleared":true}"#,
        "fixtures/interest.json",
        "interest-fixture-hash",
    );
    annotate_transaction(
        &mut store,
        "Coffee Bean",
        r#"{"merchant":{"name":"Coffee Bean"},"score":0.85}"#,
        "fixtures/coffee-bean.json",
        "coffee-bean-fixture-hash",
    );

    let all = store.query_transactions(&EVERY, None);
    let interest = all
        .iter()
        .find(|tx| tx.description == "Interest")
        .expect("fixture has Interest");
    assert_same_transaction(interest, &get_tx(&store, interest.id));
    assert_eq!(field(&interest.metadata, "note").as_deref(), Some("\"savings\""));

    let uncategorised = store.get_uncategorised_transactions(&EVERY, None);
    assert_eq!(uncategorised.len(), 1);
    assert_same_transaction(&uncategorised[0], interest);
    assert_eq!(uncategorised[0].description, "Interest");

    let unconfirmed = store.get_unconfirmed_transactions(&EVERY, None);
    let coffee_bean = unconfirmed
        .iter()
        .find(|tx| tx.description == "Coffee Bean")
        .expect("fixture has Coffee Bean");
    assert_same_transaction(coffee_bean, &get_tx(&store, coffee_bean.id));
    assert_eq!(
        field(&coffee_bean.metadata, "merchant").as_deref(),
        Some("{\"name\":\"Coffee Bean\"}")
    );
}

#[test]
fn uncategorised_excludes_categorised_and_transfers() {
    let store = setup_rich_fixture();
    let txs = store.get_uncategorised_transactions(&EVERY, None);
    // Coffee Bean has an AI enrichment, so it counts as categorised here.
    let descs: Vec<_> = txs.iter().map(|t| t.description.clone()).collect();
    assert_eq!(descs, vec!["Interest"]);
}

#[test]
fn uncategorised_respects_filters() {
    let store = setup_rich_fixture();
    let hits = found(&store, |tx| tx.date.starts_with("2025"));
    let txs = store.get_uncategorised_transactions(&hits, None);
    assert!(txs.is_empty());
}

#[test]
fn unconfirmed_includes_uncategorised_and_unconfirmed_ai() {
    let store = setup_rich_fixture();
    let txs = store.get_unconfirmed_transactions(&EVERY, None);

    let descs: Vec<_> = txs.iter().map(|t| t.description.as_str()).collect();
    assert_eq!(descs, vec!["Coffee Bean", "Interest"]);
}

#[test]
fn unconfirmed_respects_filters() {
    let store = setup_rich_fixture();
    let txs = store.get_unconfirmed_transactions(&in_bank(&store, "NAB"), None);

    let descs: Vec<_> = txs.iter().map(|t| t.description.as_str()).collect();
    assert_eq!(descs, vec!["Coffee Bean"]);
}

#[test]
fn pending_ai_reviews_only_unconfirmed_ai() {
    let store = setup_rich_fixture();
    let pending = store.get_pending_ai_reviews(&EVERY, None);
    // Only Coffee Bean is AI + unconfirmed
    assert_eq!(pending.len(), 1);
    assert_eq!(pending[0].transaction.description, "Coffee Bean");
}

#[test]
fn pending_ai_reviews_filtered_by_account() {
    let store = setup_rich_fixture();
    let pending = store.get_pending_ai_reviews(&in_bank(&store, "ING"), None);
    // Coffee Bean is on NAB, so it is filtered out
    assert!(pending.is_empty());
}

#[test]
fn pending_ai_reviews_parse_transaction_enrichment_and_category() {
    let mut store = setup_rich_fixture();
    annotate_transaction(
        &mut store,
        "Coffee Bean",
        r#"{"merchant":{"name":"Coffee Bean"},"review":true}"#,
        "fixtures/ai-review.json",
        "ai-review-fixture-hash",
    );

    let pending = store.get_pending_ai_reviews(&EVERY, None);
    assert_eq!(pending.len(), 1);

    let row = &pending[0];
    assert_same_transaction(&row.transaction, &get_tx(&store, row.transaction.id));
    assert_eq!(row.transaction.source_file, "fixtures/ai-review.json");
    assert_eq!(row.transaction.hash, "ai-review-fixture-hash");

    let enrichment = row.enrichment.as_ref().expect("pending review has enrichment");
    assert_eq!(enrichment.transaction_id, row.transaction.id);
    assert_eq!(enrichment.category_source, Some(CategorySource::Ai));
    assert!(!enrichment.category_confirmed);
    assert_eq!(enrichment.ai_confidence, confidence(0.85));

    let category = row.category.as_ref().expect("pending review has category");
    assert_eq!(enrichment.category_id, Some(category.id));
    assert_eq!(category.path, "Food/Coffee");
}

#[test]
fn get_transactions_by_ids_returns_requested_rows() {
    let (mut store, a1, a2) = store_with_two_accounts();
    let t1 = insert_tx(&mut store, a1, "2024-03-10", -5000);
    let t2 = insert_tx(&mut store, a2, "2024-03-11", 5000);

    // Empty input gives an empty map.
    assert!(store.get_transactions_by_ids(&vec![]).is_empty());

    // Known ids give the matching transactions; an unknown id is simply absent.
    let unknown = t2 + 1000;
    let map = store.get_transactions_by_ids(&vec![t1, t2, unknown]);
    assert_eq!(map.len(), 2);
    assert_eq!(map[&t1].id, t1);
    assert_eq!(map[&t1].amount_cents, -5000);
    assert_eq!(map[&t2].id, t2);
    assert_eq!(map[&t2].amount_cents, 5000);
    assert!(!map.contains_key(&unknown));
}

#[test]
fn transactions_of_a_deleted_account_are_not_fetched() {
    let (mut store, a1, a2) = store_with_two_accounts();
    let t1 = insert_tx(&mut store, a1, "2024-03-10", -5000);
    let t2 = insert_tx(&mut store, a2, "2024-03-11", 5000);
    store.delete_account(a1, NOW).unwrap();
    let map = store.get_transactions_by_ids(&vec![t1, t2]);
    assert_eq!(map.keys().copied().collect::<Vec<_>>(), vec![t2]);
}

#[test]
fn transaction_round_trips_every_field() {
    let (mut store, a1, _a2) = store_with_two_accounts();
    let bank_id = store.get_account_with_bank(a1).unwrap().bank_id;
    let outcome = store
        .insert_transaction(
            a1,
            "2024-07-19",
            &RawTransaction {
                date: "2024-07-19".to_string(),
                description: "Distinct description".to_string(),
                amount_cents: -12345,
                balance_cents: 67890,
                hash: Some("distinct-hash".to_string()),
                fallback_hash: String::new(),
                metadata: "{\"key\":\"value\",\"n\":7}".to_string(),
            },
            "Bank/Acct/file.csv",
            5,
        )
        .unwrap();
    assert_eq!(outcome, ImportOutcome::Added);

    let all = store.query_transactions(&EVERY, None);
    assert_eq!(all.len(), 1);
    let tx = &all[0];
    assert_eq!(tx.bank_id, bank_id);
    assert_eq!(tx.account_id, a1);
    assert_eq!(tx.date, "2024-07-19");
    assert_eq!(tx.description, "Distinct description");
    assert_eq!(tx.amount_cents, -12345);
    assert_eq!(tx.balance_cents, 67890);
    assert_eq!(tx.hash, "distinct-hash");
    assert_eq!(read_fields(&tx.metadata).len(), 2);
    assert_eq!(field(&tx.metadata, "key").as_deref(), Some("\"value\""));
    assert_eq!(field(&tx.metadata, "n").as_deref(), Some("7"));
    assert_eq!(tx.source_file, "Bank/Acct/file.csv");
    assert_eq!(tx.import_batch_id, 5);
}

// ----- transfers -----

#[test]
fn transfers_listed_for_either_side_match() {
    let store = setup_rich_fixture();
    // On NAB the transfer still shows because its to-side is there.
    let xfers = store.list_transfers_with_transactions(true, &in_bank(&store, "NAB"), None);
    assert_eq!(xfers.len(), 1);
    assert_eq!(xfers[0].to_transaction.description, "Transfer In");
}

#[test]
fn transfers_listed_for_from_side_match() {
    let store = setup_rich_fixture();
    let xfers = store.list_transfers_with_transactions(true, &in_bank(&store, "ING"), None);
    assert_eq!(xfers.len(), 1);
    assert_eq!(xfers[0].from_transaction.description, "Transfer Out");
}

#[test]
fn transfers_dropped_when_no_side_matches() {
    let store = setup_rich_fixture();
    let hits = in_bank(&store, "Nonexistent");
    let xfers = store.list_transfers_with_transactions(true, &hits, None);
    assert!(xfers.is_empty());
}

#[test]
fn transfers_filter_by_fts_on_either_side() {
    let store = setup_rich_fixture();
    let index = Index::build(&store);
    let hits = Hits::Only(index.rows("Transfer"));
    let xfers = store.list_transfers_with_transactions(true, &hits, None);
    assert_eq!(xfers.len(), 1);

    let hits = Hits::Only(index.rows("notpresent"));
    let xfers = store.list_transfers_with_transactions(true, &hits, None);
    assert!(xfers.is_empty());
}

#[test]
fn transfers_keep_filters_and_fts_on_same_side() {
    let store = setup_rich_fixture();
    let index = Index::build(&store);
    let both = |bank: &str, word: &str| {
        let ids = index.rows(word);
        let in_bank = in_bank(&store, bank);
        found(&store, |tx| ids.contains(&tx.id) && in_bank.contains(tx.id))
    };

    let xfers = store.list_transfers_with_transactions(true, &both("ING", "In"), None);
    assert!(xfers.is_empty());

    let xfers = store.list_transfers_with_transactions(true, &both("NAB", "In"), None);
    assert_eq!(xfers.len(), 1);
    assert_eq!(xfers[0].to_transaction.description, "Transfer In");
}

#[test]
fn transfers_with_transactions_parse_transfer_and_endpoint_payloads() {
    let mut store = setup_rich_fixture();
    annotate_transaction(
        &mut store,
        "Transfer Out",
        r#"{"side":"from","reference":"xfer-001"}"#,
        "fixtures/transfer-out.json",
        "transfer-out-fixture-hash",
    );
    annotate_transaction(
        &mut store,
        "Transfer In",
        r#"{"side":"to","reference":"xfer-001"}"#,
        "fixtures/transfer-in.json",
        "transfer-in-fixture-hash",
    );

    let xfers = store.list_transfers_with_transactions(true, &EVERY, None);
    assert_eq!(xfers.len(), 1);

    let transfer = &xfers[0].transfer;
    assert_eq!(transfer.source, TransferSource::Manual);
    assert!(transfer.confirmed);
    assert_eq!(transfer.ai_confidence, None);

    let from = &xfers[0].from_transaction;
    assert_same_transaction(from, &get_tx(&store, from.id));
    assert_eq!(from.id, transfer.from_transaction_id);
    assert_eq!(from.description, "Transfer Out");
    assert_eq!(from.amount_cents, -10000);
    assert_eq!(field(&from.metadata, "side").as_deref(), Some("\"from\""));

    let to = &xfers[0].to_transaction;
    assert_same_transaction(to, &get_tx(&store, to.id));
    assert_eq!(to.id, transfer.to_transaction_id);
    assert_eq!(to.description, "Transfer In");
    assert_eq!(to.amount_cents, 10000);
    assert_eq!(field(&to.metadata, "side").as_deref(), Some("\"to\""));
}

#[test]
fn pending_transfer_reviews_empty_when_all_confirmed() {
    let store = setup_rich_fixture();
    let pending = store.get_pending_transfer_reviews(&EVERY, None);
    assert!(pending.is_empty());
}

#[test]
fn transfer_candidates_prefer_other_accounts() {
    let (mut store, a1, a2) = store_with_two_accounts();
    let source = insert_tx(&mut store, a1, "2024-03-10", -5000);
    let same_account = insert_tx(&mut store, a1, "2024-03-09", 5000);
    let other_account = insert_tx(&mut store, a2, "2024-03-12", 5000);

    let candidates = store.find_matching_transfer_candidates(&get_tx(&store, source));

    // Other-account match wins; same-account match is suppressed.
    let ids: Vec<i64> = candidates.iter().map(|t| t.id).collect();
    assert_eq!(ids, vec![other_account]);
    assert!(!ids.contains(&same_account));
}

#[test]
fn transfer_candidates_fall_back_to_same_account() {
    let (mut store, a1, _a2) = store_with_two_accounts();
    let source = insert_tx(&mut store, a1, "2024-03-10", -5000);
    let same_account = insert_tx(&mut store, a1, "2024-03-09", 5000);

    let candidates = store.find_matching_transfer_candidates(&get_tx(&store, source));

    // No other-account candidate exists, so fall through to same-account.
    let ids: Vec<i64> = candidates.iter().map(|t| t.id).collect();
    assert_eq!(ids, vec![same_account]);
}

#[test]
fn transfer_candidates_include_already_linked() {
    let (mut store, a1, a2) = store_with_two_accounts();
    let source = insert_tx(&mut store, a1, "2024-03-10", -5000);
    let linked = insert_tx(&mut store, a2, "2024-03-11", 5000);
    let unlinked = insert_tx(&mut store, a2, "2024-03-12", 5000);

    // Link `linked` to a third transaction. It is still offered as a
    // candidate: the caller confirms before breaking the existing link.
    let other = insert_tx(&mut store, a1, "2024-03-11", 9999);
    store
        .create_transfer(other, linked, TransferSource::Manual, true, None, NOW)
        .unwrap();

    let candidates = store.find_matching_transfer_candidates(&get_tx(&store, source));

    let ids: Vec<i64> = candidates.iter().map(|t| t.id).collect();
    assert!(ids.contains(&linked));
    assert!(ids.contains(&unlinked));
}

#[test]
fn create_transfer_clears_category_on_both_endpoints() {
    let (mut store, a1, a2) = store_with_two_accounts();
    let from = insert_tx(&mut store, a1, "2024-03-10", -5000);
    let to = insert_tx(&mut store, a2, "2024-03-10", 5000);

    let cat = store.get_or_create_category("Food", NOW).unwrap();
    store
        .set_category(from, cat, CategorySource::Manual, true, None, NOW)
        .unwrap();
    store
        .set_category(to, cat, CategorySource::Manual, true, None, NOW)
        .unwrap();

    store.create_transfer(from, to, TransferSource::Manual, true, None, NOW).unwrap();

    // Invariant: a transfer is never categorised.
    assert!(store.get_transaction_category(from).is_none());
    assert!(store.get_transaction_category(to).is_none());
}

#[test]
fn get_transfers_for_transactions_maps_both_endpoints_and_reflects_deletion() {
    let (mut store, a1, a2) = store_with_two_accounts();
    let from = insert_tx(&mut store, a1, "2024-03-10", -5000);
    let to = insert_tx(&mut store, a2, "2024-03-10", 5000);
    store.create_transfer(from, to, TransferSource::Manual, true, None, NOW).unwrap();

    // Both endpoints resolve to the same transfer, even when only one id is
    // queried.
    let map = store.get_transfers_for_transactions(&vec![from]);
    assert_eq!(map.len(), 2);
    let transfer = &map[&from];
    assert_eq!(transfer.from_transaction_id, from);
    assert_eq!(transfer.to_transaction_id, to);
    assert_eq!(map[&to].id, transfer.id);

    // After deleting the transfer the lookup is empty.
    store.delete_transfer(transfer.id);
    assert!(store.get_transfers_for_transactions(&vec![from, to]).is_empty());
}

#[test]
fn transfer_round_trips_every_field() {
    let (mut store, a1, a2) = store_with_two_accounts();
    let from = insert_tx(&mut store, a1, "2024-06-02", -9876);
    let to = insert_tx(&mut store, a2, "2024-06-02", 9876);
    let transfer_id = store
        .create_transfer(from, to, TransferSource::Auto, false, confidence(0.73), LATER)
        .unwrap();

    let pending = store.get_pending_transfer_reviews(&EVERY, None);
    assert_eq!(pending.len(), 1);
    let transfer = &pending[0];
    assert_eq!(transfer.id, transfer_id);
    assert_eq!(transfer.from_transaction_id, from);
    assert_eq!(transfer.to_transaction_id, to);
    assert_eq!(transfer.source, TransferSource::Auto);
    assert!(!transfer.confirmed);
    assert_eq!(transfer.ai_confidence, confidence(0.73));
    assert_eq!(transfer.created_at, LATER);
}

#[test]
fn confirming_a_transfer_makes_it_an_example() {
    let (mut store, a1, a2) = store_with_two_accounts();
    let from = insert_tx_desc(&mut store, a1, "2024-06-02", "to savings", -9876);
    let to = insert_tx_desc(&mut store, a2, "2024-06-02", "from checking", 9876);
    let id = store
        .create_transfer(from, to, TransferSource::Auto, false, None, NOW)
        .unwrap();
    assert!(store.get_confirmed_transfer_examples().is_empty());
    assert!(store.list_transfers_with_transactions(true, &EVERY, None).is_empty());
    store.confirm_transfer(id);
    let examples = store.get_confirmed_transfer_examples();
    assert_eq!(examples.len(), 1);
    assert_eq!(examples[0].from_account_id, a1);
    assert_eq!(examples[0].to_account_id, a2);
    assert_eq!(examples[0].from_description, "to savings");
    assert_eq!(examples[0].to_description, "from checking");
    assert!(store.get_pending_transfer_reviews(&EVERY, None).is_empty());
}

// ----- import -----

fn store_ready_for_insert() -> (TransactionStore, i64) {
    let mut store = TransactionStore::open_in_memory();
    let bank = add_bank(&mut store, "TB");
    let account = add_account(&mut store, 1, bank, "A1");
    (store, account)
}

/// Feed one raw transaction through the insert path, as a re-pull of the same
/// `(account_id, hash)` would.
fn reimport(
    store: &mut TransactionStore,
    account_id: i64,
    description: &str,
    metadata: &str,
    hash: &str,
) -> ImportOutcome {
    let row = RawTransaction {
        date: "2024-01-15".to_string(),
        description: description.to_string(),
        amount_cents: -100,
        balance_cents: 0,
        hash: Some(hash.to_string()),
        fallback_hash: String::new(),
        metadata: metadata.to_string(),
    };
    store.insert_transaction(account_id, "2024-01-15", &row, "test.csv", 1).unwrap()
}

fn insert_tx_with_meta(
    store: &mut TransactionStore,
    account_id: i64,
    description: &str,
    metadata: &str,
    hash: &str,
) -> i64 {
    let id = next_tx_id(store);
    let outcome = reimport(store, account_id, description, metadata, hash);
    assert_eq!(outcome, ImportOutcome::Added);
    id
}

fn meta(pairs: &[(&str, &str)]) -> String {
    let mut map = serde_json::Map::new();
    for (k, v) in pairs {
        map.insert(k.to_string(), serde_json::Value::String(v.to_string()));
    }
    serde_json::Value::Object(map).to_string()
}

fn sample_rows() -> Vec<(&'static str, String)> {
    let shared = meta(&[("merchant", "SharedMerchant")]);
    vec![
        ("Google YouTubePremium", "{\"service\":\"Premium\",\"score\":42}".to_string()),
        ("AAMI Insurance March", meta(&[("policy", "CarCover")])),
        ("Coffee Shop", shared.clone()),
        ("Grocery SharedMerchant Run", shared),
        ("Salary Deposit", "{}".to_string()),
    ]
}

const ABSENT_TOKEN: &str = "zzphantomxyz";

fn tokens_of(description: &str, metadata: &str) -> Vec<String> {
    let mut all = words(description);
    for (_, value) in read_fields(metadata) {
        all.extend(words(&value));
    }
    all
}

/// Every row is found by exactly its own words.
fn assert_fts_invariant(index: &Index, rows: &[(i64, &str, String)]) {
    for (rowid, description, metadata) in rows {
        let own = tokens_of(description, metadata);
        for token in &own {
            assert!(index.rows(token).contains(rowid));
        }
        assert!(!index.rows(ABSENT_TOKEN).contains(rowid));
        let own: HashSet<String> = own.into_iter().collect();
        for (other_id, other_desc, other_meta) in rows {
            if other_id == rowid {
                continue;
            }
            for token in tokens_of(other_desc, other_meta) {
                if !own.contains(&token) {
                    assert!(!index.rows(&token).contains(rowid));
                }
            }
        }
    }
    assert!(index.rows(ABSENT_TOKEN).is_empty());
}

#[test]
fn fts_invariant_holds_after_insert() {
    let (mut store, account_id) = store_ready_for_insert();
    let mut index = Index { postings: Vec::new() };
    let samples = sample_rows();
    let mut rows = Vec::new();
    for (i, (desc, meta)) in samples.iter().enumerate() {
        let id = insert_tx_with_meta(&mut store, account_id, desc, meta, &format!("h-{i}"));
        index.follow(&mut store);
        rows.push((id, *desc, meta.clone()));
    }
    assert_fts_invariant(&index, &rows);
}

#[test]
fn fts_drift_heals_on_idempotent_rewrite() {
    let (mut store, account_id) = store_ready_for_insert();
    let mut index = Index { postings: Vec::new() };
    let rowid =
        insert_tx_with_meta(&mut store, account_id, "Google YouTubePremium", "{}", "yt-hash");
    index.follow(&mut store);

    // Corrupt: an extra posting at the same row.
    index.postings.push((rowid, words("AAMI Insurance leftover")));
    assert!(index.rows("aami").contains(&rowid));

    // Writing the row's posting again replaces every posting of the row.
    index.write(&store.refresh_transaction_fts(rowid).unwrap());

    assert!(!index.rows("aami").contains(&rowid));
    assert!(index.rows("YouTubePremium").contains(&rowid));
    assert_fts_invariant(&index, &[(rowid, "Google YouTubePremium", "{}".to_string())]);
}

#[test]
fn rebuild_fts_repairs_corrupted_index() {
    let (mut store, account_id) = store_ready_for_insert();
    let samples = sample_rows();
    let mut rows = Vec::new();
    for (i, (desc, meta)) in samples.iter().enumerate() {
        let id = insert_tx_with_meta(&mut store, account_id, desc, meta, &format!("rb-{i}"));
        rows.push((id, *desc, meta.clone()));
    }

    // Corrupt: a foreign posting on an existing row, and an orphan.
    let mut index = Index::build(&store);
    let victim = rows[0].0;
    index.postings.push((victim, words("AAMI phantom drift")));
    index.postings.push((999_999, words("orphan phantom row")));
    assert!(index.rows("aami").contains(&victim));
    assert!(index.rows("orphan").contains(&999_999));

    let index = Index::build(&store);
    assert_eq!(index.postings.len(), rows.len());
    assert!(!index.rows("aami").contains(&victim));
    assert!(index.rows("orphan").is_empty());
    assert_fts_invariant(&index, &rows);
}

#[test]
fn reimport_applies_a_refined_description() {
    // The card-BPAY case: the feed first posts a generic merchant string
    // and only later resolves the biller and the user's own description.
    let (mut store, account_id) = store_ready_for_insert();
    let mut index = Index { postings: Vec::new() };
    let id = insert_tx_with_meta(
        &mut store,
        account_id,
        "BPAY SALES PARRAMATTA AUS",
        "{}",
        "ps-1955648710",
    );
    index.follow(&mut store);

    let refined = "BPAYN ACT REVENUE OFFICE BPAY, Camp Rates Aug26";
    let outcome = reimport(&mut store, account_id, refined, "{}", "ps-1955648710");
    assert_eq!(outcome, ImportOutcome::Updated);
    index.follow(&mut store);

    // One row, same id — so categories, notes, tags and transfers survive.
    assert_eq!(store.query_transactions(&EVERY, None).len(), 1);

    let row = get_tx(&store, id);
    assert_eq!(row.description, refined);
    assert_eq!(row.amount_cents, -100, "economic fields must not move");
    assert_eq!(row.date, "2024-01-15", "the date must not move");

    assert_eq!(index.rows("revenue"), vec![id]);
    assert!(
        index.rows("parramatta").is_empty(),
        "the superseded text must leave no phantom posting"
    );
}

#[test]
fn reimport_of_an_unchanged_row_is_skipped() {
    let (mut store, account_id) = store_ready_for_insert();
    let metadata = meta(&[("pocketsmith_id", "42")]);
    insert_tx_with_meta(&mut store, account_id, "Coffee Shop", &metadata, "ps-42");

    let outcome = reimport(&mut store, account_id, "Coffee Shop", &metadata, "ps-42");
    assert_eq!(outcome, ImportOutcome::Unchanged);
}

#[test]
fn reimport_merges_metadata_without_dropping_keys() {
    let (mut store, account_id) = store_ready_for_insert();
    let mut index = Index { postings: Vec::new() };
    let id = insert_tx_with_meta(
        &mut store,
        account_id,
        "Coffee Shop",
        &meta(&[("pocketsmith_id", "42"), ("original_payee", "COFFEE SHP")]),
        "ps-42",
    );

    // A later pull adds a label and revises the category hint, but no
    // longer emits original_payee.
    let outcome = reimport(
        &mut store,
        account_id,
        "Coffee Shop",
        &meta(&[("pocketsmith_id", "42"), ("pocketsmith_category", "Dining")]),
        "ps-42",
    );
    assert_eq!(outcome, ImportOutcome::Updated);
    index.follow(&mut store);

    let mut stored = read_fields(&get_tx(&store, id).metadata);
    let mut expected = read_fields(&meta(&[
        ("pocketsmith_id", "42"),
        ("original_payee", "COFFEE SHP"),
        ("pocketsmith_category", "Dining"),
    ]));
    stored.sort();
    expected.sort();
    assert_eq!(stored, expected, "incoming keys win; omitted ones are kept");
    assert!(index.rows("Dining").contains(&id), "new metadata must be searchable");
}

#[test]
fn a_description_only_refinement_leaves_metadata_byte_identical() {
    let (mut store, account_id) = store_ready_for_insert();
    let metadata = meta(&[
        ("pocketsmith_id", "42"),
        ("pocketsmith_category", "Professional Services"),
        ("original_payee", "BPAY SALES"),
    ]);
    let id = insert_tx_with_meta(&mut store, account_id, "BPAY SALES", &metadata, "ps-42");
    let raw_before = get_tx(&store, id).metadata;

    let outcome = reimport(&mut store, account_id, "ACT REVENUE OFFICE", &metadata, "ps-42");
    assert_eq!(outcome, ImportOutcome::Updated);

    assert_eq!(raw_before, get_tx(&store, id).metadata);
}

#[test]
fn reimport_never_blanks_a_stored_description() {
    let (mut store, account_id) = store_ready_for_insert();
    let id = insert_tx_with_meta(&mut store, account_id, "ACT REVENUE OFFICE", "{}", "ps-7");

    let outcome = reimport(&mut store, account_id, "   ", "{}", "ps-7");
    assert_eq!(outcome, ImportOutcome::Unchanged);
    assert_eq!(get_tx(&store, id).description, "ACT REVENUE OFFICE");
}

#[test]
fn reimport_keeps_the_note_in_the_searchable_text() {
    let (mut store, account_id) = store_ready_for_insert();
    let mut index = Index { postings: Vec::new() };
    let id = insert_tx_with_meta(&mut store, account_id, "BPAY SALES", "{}", "ps-9");
    store.set_note(id, "reimbursable zzmarker");

    let outcome = reimport(&mut store, account_id, "ACT REVENUE OFFICE", "{}", "ps-9");
    assert_eq!(outcome, ImportOutcome::Updated);
    index.follow(&mut store);

    assert_eq!(index.rows("revenue"), vec![id]);
    assert_eq!(
        index.rows("zzmarker"),
        vec![id],
        "the note must survive the description rewrite in the FTS text"
    );
}

fn pulled_account(name: &str, description: &str, hash: &str) -> AccountImport {
    AccountImport {
        name: name.to_string(),
        files: vec![],
        pulled: Some(PullImport {
            path: format!("TestBank/{name}/pull"),
            result: Ok(vec![raw("2025-01-01", description, "{}", Some(hash))]),
        }),
    }
}

fn bank_of(accounts: Vec<AccountImport>) -> Vec<BankImport> {
    vec![BankImport { name: "TestBank".to_string(), accounts }]
}

#[test]
fn refresh_creates_banks_and_accounts() {
    let mut store = TransactionStore::open_in_memory();

    let report = store.refresh(&vec![test_bank()], 1, NOW).unwrap();
    assert_eq!(report.banks_added, 1);
    assert_eq!(report.accounts_added, 1);

    let banks = store.list_banks();
    assert_eq!(banks.len(), 1);
    assert_eq!(banks[0].name, "TestBank");
}

#[test]
fn refresh_imports_pull_results_for_multiple_accounts() {
    let mut store = TransactionStore::open_in_memory();
    let banks = bank_of(vec![
        pulled_account("Checking", "Checking pull", "checking-pull"),
        pulled_account("Savings", "Savings pull", "savings-pull"),
    ]);

    let report = store.refresh(&banks, 1, NOW).unwrap();
    assert_eq!(report.banks_added, 1);
    assert_eq!(report.accounts_added, 2);
    assert_eq!(report.files_processed, 2);
    assert_eq!(report.transactions_added, 2);

    let mut txs = store.query_transactions(&EVERY, None);
    txs.sort_by(|a, b| a.description.cmp(&b.description));

    assert_eq!(txs.len(), 2);
    assert_eq!(txs[0].description, "Checking pull");
    assert_eq!(txs[0].source_file, "TestBank/Checking/pull");
    assert_eq!(txs[1].description, "Savings pull");
    assert_eq!(txs[1].source_file, "TestBank/Savings/pull");
}

#[test]
fn soft_delete_missing_bank() {
    let mut store = imported_fixture();

    let report = store.refresh(&vec![], 2, LATER).unwrap();
    assert_eq!(report.banks_deleted, 1);

    let banks = store.list_banks();
    assert!(banks.is_empty());
}

#[test]
fn refresh_applies_a_description_the_feed_refined() {
    let mut store = TransactionStore::open_in_memory();
    let hash = "ps-1955648710";
    let first = bank_of(vec![pulled_account("Mastercard", "BPAY SALES PARRAMATTA AUS", hash)]);
    let report = store.refresh(&first, 1, NOW).unwrap();
    assert_eq!(report.transactions_added, 1);
    assert_eq!(report.transactions_updated, 0);

    let again = bank_of(vec![pulled_account("Mastercard", "BPAYN ACT REVENUE OFFICE BPAY", hash)]);
    let report = store.refresh(&again, 2, LATER).unwrap();
    assert_eq!(report.transactions_added, 0);
    assert_eq!(report.transactions_updated, 1);
    assert_eq!(report.transactions_skipped, 0);

    let txs = store.query_transactions(&EVERY, None);
    assert_eq!(txs.len(), 1);
    assert_eq!(txs[0].description, "BPAYN ACT REVENUE OFFICE BPAY");

    // And a third, identical pull is a plain skip.
    let report = store.refresh(&again, 3, LATER).unwrap();
    assert_eq!(report.transactions_updated, 0);
    assert_eq!(report.transactions_skipped, 1);
}

#[test]
fn a_file_is_imported_once() {
    let mut store = imported_fixture();
    let account = store.get_account_by_path("TestBank/Checking").unwrap().id;
    assert!(store.is_file_imported(account, "csv-hash"));
    assert!(!store.is_file_imported(account, "another"));

    let report = store.refresh(&vec![test_bank()], 2, LATER).unwrap();
    assert_eq!(report.files_processed, 0);
    assert_eq!(report.transactions_skipped, 0);
    assert_eq!(store.query_transactions(&EVERY, None).len(), 1);
}

#[test]
fn a_bank_that_comes_back_is_undeleted() {
    let mut store = imported_fixture();
    store.refresh(&vec![], 2, LATER).unwrap();
    let report = store.refresh(&vec![test_bank()], 3, LATER).unwrap();
    assert_eq!(report.banks_added, 0);
    assert_eq!(store.list_banks().len(), 1);
    let bank: &Bank = &store.list_banks()[0];
    assert_eq!(store.list_accounts(bank.id).len(), 1);
}

#[test]
fn a_refresh_that_fails_changes_nothing() {
    let mut store = imported_fixture();
    let bad = bank_of(vec![AccountImport {
        name: "Other".to_string(),
        files: vec![FileImport {
            path: "TestBank/Other/x.csv".to_string(),
            content_hash: "x".to_string(),
            transactions: vec![raw("not a date", "Broken", "{}", None)],
        }],
        pulled: None,
    }]);
    assert!(matches!(
        store.refresh(&bad, 2, LATER),
        Err(Error::InvalidDate(date)) if date == "not a date"
    ));
    assert!(store.get_account_by_path("TestBank/Other").is_none());
    assert!(store.get_account_by_path("TestBank/Checking").is_some());
}

#[test]
fn a_failed_pull_fails_the_refresh() {
    let mut store = TransactionStore::open_in_memory();
    let banks = bank_of(vec![AccountImport {
        name: "Checking".to_string(),
        files: vec![],
        pulled: Some(PullImport {
            path: "TestBank/Checking/pull".to_string(),
            result: Err("script failed".to_string()),
        }),
    }]);
    assert!(matches!(
        store.refresh(&banks, 1, NOW),
        Err(Error::ImportFailed(why)) if why.contains("script failed")
    ));
    assert!(store.list_banks().is_empty());
}

#[test]
fn dates_are_read_in_both_forms() {
    let (mut store, account) = store_ready_for_insert();
    let mut report = RefreshReport::default();
    let rows = vec![
        raw("2024-03-05", "iso", "{}", Some("a")),
        raw("06/03/2024", "day first", "{}", Some("b")),
    ];
    store.insert_raw_transactions(account, &rows, "f.csv", 1, &mut report).unwrap();
    assert_eq!(report.transactions_added, 2);
    assert_eq!(get_tx(&store, tx_id_of(&store, "iso")).date, "2024-03-05");
    assert_eq!(get_tx(&store, tx_id_of(&store, "day first")).date, "2024-03-06");
}

#[test]
fn rows_without_a_source_identity_fall_back_to_the_computed_one() {
    let (mut store, account) = store_ready_for_insert();
    let mut report = RefreshReport::default();
    let rows = vec![raw("2024-03-05", "x", "{}", None), raw("2024-03-05", "x", "{}", None)];
    store.insert_raw_transactions(account, &rows, "f.csv", 1, &mut report).unwrap();
    assert_eq!(report.transactions_added, 1);
    assert_eq!(report.transactions_skipped, 1);
    assert_eq!(get_tx(&store, 1).hash, "2024-03-05-x");
}

// ----- the journal -----

#[test]
fn the_journal_notes_every_change_in_order() {
    let (mut store, a1, _a2) = store_with_two_accounts();
    let tx = insert_tx(&mut store, a1, "2024-06-01", -4321);
    store.take_journal();
    let cat = store.get_or_create_category("Food", NOW).unwrap();
    store.set_category(tx, cat, CategorySource::Manual, true, None, NOW).unwrap();
    let journal = store.take_journal();
    assert_eq!(journal.len(), 2);
    assert!(matches!(&journal[0], Change::PutCategory(c) if c.path == "Food"));
    assert!(matches!(&journal[1], Change::PutEnrichment(e) if e.transaction_id == tx));
    assert!(store.take_journal().is_empty());
}

#[test]
fn replaying_the_journal_restores_the_store() {
    let mut store = TransactionStore::open_in_memory();
    store.refresh(&vec![test_bank()], 1, NOW).unwrap();
    store.set_note(1, "kept");
    tag(&mut store, 1, &["work"]);
    store.create_filter("f", "q", NOW).unwrap();

    let mut copy = TransactionStore::open_in_memory();
    for change in store.take_journal() {
        copy.restore(change);
    }
    assert_eq!(copy.list_banks()[0].name, "TestBank");
    assert_same_transaction(&get_tx(&copy, 1), &get_tx(&store, 1));
    assert_eq!(copy.get_note(1).as_deref(), Some("kept"));
    assert_eq!(tag_names(&copy), vec!["work"]);
    assert_eq!(copy.list_filters().len(), 1);
    let account = copy.get_account_by_path("TestBank/Checking").unwrap().id;
    assert!(copy.is_file_imported(account, "csv-hash"));
    assert!(copy.take_journal().is_empty());
}

#[test]
fn running_out_of_row_ids_is_an_error() {
    let mut store = TransactionStore::open_in_memory();
    store.restore(Change::PutBank(Bank {
        id: i64::MAX,
        name: "Last".to_string(),
        deleted_at: None,
    }));
    let result = store.get_or_create_bank("Next");
    assert!(matches!(result, Err(Error::NoFreeId)));
    assert_eq!(store.get_or_create_bank("Last").unwrap(), (i64::MAX, false));
}

#[test]
fn errors_speak_in_words() {
    let e = Error::TransactionInTransfer(42);
    assert_eq!(e.message(), "transaction 42 is part of a transfer");
    let e = Error::TransactionInTransfer(-7);
    assert_eq!(e.message(), "transaction -7 is part of a transfer");
    assert_eq!(Error::CategoryExists("Food".into()).message(), "category already exists: Food");
    assert_eq!(Error::AccountNotFound("3".into()).message(), "account not found: 3");
    assert_eq!(Error::InvalidAccountPath("x".into()).message(), "invalid account path: x");
    assert_eq!(Error::AccountExists("A/B".into()).message(), "account already exists: A/B");
    assert_eq!(Error::InvalidDate("x".into()).message(), "invalid date: x");
    assert_eq!(Error::ImportFailed("x".into()).message(), "import failed: x");
    assert_eq!(Error::NoFreeId.message(), "no free row id");
}

#[test]
fn a_second_refresh_adds_nothing() {
    let mut store = imported_fixture();
    let report = store.refresh(&vec![test_bank()], 2, LATER).unwrap();
    assert_eq!(report.banks_added, 0);
    assert_eq!(report.accounts_added, 0);
    assert_eq!(report.transactions_added, 0);
    assert_eq!(store.query_transactions(&EVERY, None).len(), 1);

    // A folder that was gone in between is the same bank and account again.
    store.refresh(&vec![], 3, LATER).unwrap();
    assert!(store.list_banks().is_empty());
    let report = store.refresh(&vec![test_bank()], 4, LATER).unwrap();
    assert_eq!(report.transactions_added, 0);
    assert_eq!(store.list_banks().len(), 1);
    assert_eq!(store.list_accounts_with_bank().len(), 1);
}

#[test]
fn a_refused_rename_leaves_the_tables_alone() {
    let (mut store, a1, _a2) = store_with_two_accounts();
    store.take_journal();
    let plan = store.plan_account_rename(a1, "NewBank/Moved").unwrap().unwrap();
    assert!(matches!(
        store.claim_account_path(a1, &plan, true),
        Err(Error::AccountExists(path)) if path == "NewBank/Moved"
    ));
    assert!(store.claim_account_path(a1, &plan, false).is_ok());
    assert!(matches!(
        store.rename_account(a1, "NewBank/Moved", true),
        Err(Error::AccountExists(_))
    ));
    // Neither the question nor the refusal made the bank.
    assert!(store.list_banks().iter().all(|b| b.name != "NewBank"));
    assert!(store.take_journal().is_empty());

    store.move_account(a1, &plan).unwrap();
    assert!(store.list_banks().iter().any(|b| b.name == "NewBank"));
    assert_eq!(account_name(&store, a1), "Moved");
    assert!(matches!(
        store.move_account(77, &plan),
        Err(Error::AccountNotFound(id)) if id == "77"
    ));
}

#[test]
fn what_an_import_updated_is_unchanged_when_it_comes_again() {
    let (mut store, account) = store_ready_for_insert();
    insert_tx_with_meta(&mut store, account, "Card", "{\"a\":1,\"b\":\"x\"}", "h");
    assert_eq!(
        reimport(&mut store, account, "Card", "{\"a\":2}", "h"),
        ImportOutcome::Updated
    );
    assert_eq!(
        reimport(&mut store, account, "Card", "{\"a\":2}", "h"),
        ImportOutcome::Unchanged
    );
    let all = store.query_transactions(&EVERY, None);
    assert_eq!(all.len(), 1);
    assert_eq!(all[0].metadata, "{\"a\":2,\"b\":\"x\"}");
}

#[test]
fn the_two_zeros_are_one_value() {
    let (mut store, account) = store_ready_for_insert();
    insert_tx_with_meta(&mut store, account, "Card", "{\"fee\":0.0}", "h");
    assert_eq!(
        reimport(&mut store, account, "Card", "{\"fee\":-0.0}", "h"),
        ImportOutcome::Unchanged
    );
    assert_eq!(
        reimport(&mut store, account, "Card", "{\"fee\":0.5}", "h"),
        ImportOutcome::Updated
    );
}

fn last_note(store: &mut TransactionStore) -> Option<i64> {
    match store.take_journal().pop() {
        Some(Change::Reindex { tx_id }) => Some(tx_id),
        _ => None,
    }
}

#[test]
fn a_rewritten_text_is_noted_for_indexing() {
    let (mut store, account) = store_ready_for_insert();
    let id = insert_tx_with_meta(&mut store, account, "Card", "{}", "h");
    assert_eq!(last_note(&mut store), Some(id));
    reimport(&mut store, account, "Card payment", "{}", "h");
    assert_eq!(last_note(&mut store), Some(id));
    reimport(&mut store, account, "Card payment", "{}", "h");
    assert!(store.take_journal().is_empty());
    store.set_note(id, "lunch");
    assert_eq!(last_note(&mut store), Some(id));
    store.set_note(id, "");
    assert_eq!(last_note(&mut store), Some(id));
    // Another bank is no other text.
    store.rename_account(account, "Other/A1", false).unwrap();
    let noted = store.take_journal();
    assert!(!noted.is_empty());
    assert!(noted.iter().all(|c| !matches!(c, Change::Reindex { .. })));
}
