use std::collections::HashMap;

use tally::model::{
    Account, Category, CategorySource, Confidence, Filter, FilterOverride, Timestamp, Transaction,
    TransactionWithEnrichment, Transfer, TransferSource, TransferWithTransactions,
};
use tally::search::{CursorContext, ParsedQuery, QueryPart, Span};
use tally::store::import::RawTransaction;
use tally::store::refresh::{AccountImport, BankImport, FileImport};
use tally::store::{Change, Error, Hits, TransactionStore};
use tally::tui::app::tabs::{Tab, TodoSubTab};
use tally::tui::app::tasks::{BackgroundJob, BarTarget, Task};
use tally::tui::app::{
    App, BulkAction, BulkApplyState, BulkItem, BulkRow, CategoryTarget, ConfirmAction, InputMode,
};
use tally::tui::filtered_list::FilteredList;
use tally::tui::input::InputRequest;
use tally::tui::key::{KeyCode, KeyEvent};
use tally::tui::keymap::{footer_hints, help_lines, normal_binds, Act, Bind, HelpLine, Trigger};
use tally::tui::keys::dispatch_normal;
use tally::tui::search_bar::ColonAnswer;
use tally::tui::session::{carry_out, needs, open_app, Need, Outside};

const NOW: Timestamp = Timestamp { seconds: 1_700_000_000, nanos: 0 };
const EVERY: Hits = Hits::All;

// ----- a session: the application over a store in memory -----

struct Session {
    app: App,
    store: TransactionStore,
    /// The folder a rename would go to is there already.
    folder_taken: bool,
}

impl Session {
    fn new(store: TransactionStore) -> Session {
        let app = open_app(&store, false);
        let mut session = Session { app, store, folder_taken: false };
        session.run();
        session
    }

    /// Carry out everything on the agenda.
    fn run(&mut self) {
        while let Some(task) = self.app.next_task() {
            self.perform(task);
        }
    }

    fn perform(&mut self, task: Task) {
        let mut outside =
            Outside { now: NOW, hits: Hits::All, found: HashMap::new(), similar: Vec::new() };
        match needs(&task) {
            Need::Nothing | Need::Similar => {}
            Need::TabHits => {
                outside.hits = matching(&self.store, self.app.db_search_value());
            }
            Need::EditHits => {
                let bar = self.app.filter_edit_search_bar();
                let text = bar.map(|b| b.value().to_string()).unwrap_or_default();
                outside.hits = matching(&self.store, &text);
            }
            Need::FilterHits => outside.found = filter_hits(&self.store),
            Need::Parser | Need::Disk | Need::Job => return self.outside_task(task),
        }
        carry_out(&mut self.app, &mut self.store, task, &outside);
    }

    fn outside_task(&mut self, task: Task) {
        match task {
            Task::Parse { target } => self.parse(target),
            Task::ParseOnly { target } => self.parse(target),
            Task::RebuildSearchConfigs => {
                for target in self.app.rebuild_search_configs() {
                    self.parse(target);
                }
            }
            Task::RenameAccount { account, new_path } => {
                let result = self.store.rename_account(account.id, &new_path, self.folder_taken);
                let result = result.map_err(|e| e.message());
                self.app.on_account_renamed(account, new_path, result);
            }
            Task::DeleteAccount { id } => {
                let result = self.store.delete_account(id, NOW);
                let result = result.map(|_| ()).map_err(|e| e.message());
                self.app.on_account_deleted(result);
            }
            Task::StartJob { job: BackgroundJob::Reindex } => {
                self.app.finish_reindex(Ok(self.store.rebuild_fts().len()));
            }
            _ => {}
        }
    }

    fn parse(&mut self, target: BarTarget) {
        let parsed = match self.app.search_bar(target) {
            Some(bar) => (parse(bar.value()), bar.cursor()),
            None => return,
        };
        let context = if parsed.1 == 0 { CursorContext::Whitespace } else { CursorContext::Fts };
        self.app.on_parsed(target, parsed.0, context);
        self.app.on_completions(target, None);
    }

    fn press(&mut self, key: KeyEvent) {
        let answer = match self.app.colon_question(&key) {
            Some((word, rest)) if word == "category" || word == "c" => Some(ColonAnswer {
                canonical: "category".to_string(),
                cleaned: parse(&rest),
            }),
            _ => None,
        };
        self.app.handle_key(&key, answer);
        self.run();
    }

    fn type_keys(&mut self, text: &str) {
        for c in text.chars() {
            self.press(KeyEvent::plain(KeyCode::Char(c)));
        }
    }

    /// Do something to the application, then what it asks for.
    fn act(&mut self, f: impl FnOnce(&mut App)) {
        f(&mut self.app);
        self.run();
    }
}

/// Words, and `category:` with a path.
fn parse(text: &str) -> ParsedQuery {
    let chars: Vec<char> = text.chars().collect();
    let mut parts = Vec::new();
    let mut i = 0;
    while i < chars.len() {
        let start = i;
        let blank = chars[i] == ' ';
        while i < chars.len() && (chars[i] == ' ') == blank {
            i += 1;
        }
        let span = Span { start, end: i };
        let word: String = chars[start..i].iter().collect();
        if blank {
            parts.push(QueryPart::Whitespace { span });
        } else if let Some(value) = word.strip_prefix("category:") {
            parts.push(QueryPart::Filter {
                name: "category".to_string(),
                value: value.to_string(),
                span,
                value_span: Span { start: start + 9, end: i },
                error: None,
            });
        } else {
            parts.push(QueryPart::Fts { span });
        }
    }
    ParsedQuery { parts }
}

fn matching(store: &TransactionStore, query: &str) -> Hits {
    if query.trim().is_empty() {
        return Hits::All;
    }
    let accepts = |tx: &Transaction| {
        query.split_whitespace().all(|word| match word.strip_prefix("category:") {
            Some(path) => {
                let category = store.get_transaction_category(tx.id);
                category.map(|c| c.path.contains(path)).unwrap_or(false)
            }
            None => tx.description.to_lowercase().contains(&word.to_lowercase()),
        })
    };
    let all = store.query_transactions(&EVERY, None);
    Hits::Only(all.iter().filter(|tx| accepts(tx)).map(|tx| tx.id).collect())
}

fn filter_hits(store: &TransactionStore) -> HashMap<i64, Hits> {
    store.list_filters().iter().map(|f| (f.id, matching(store, &f.query))).collect()
}

// ----- fixtures -----

#[derive(Clone, Copy)]
struct FixtureTx {
    description: &'static str,
    amount_cents: i64,
}

fn fixture(description: &'static str, amount_cents: i64) -> FixtureTx {
    FixtureTx { description, amount_cents }
}

fn confidence(value: f64) -> Option<Confidence> {
    Some(Confidence { bits: value.to_bits() })
}

fn store_with_transactions(rows: &[FixtureTx]) -> TransactionStore {
    let transactions = rows
        .iter()
        .enumerate()
        .map(|(idx, tx)| RawTransaction {
            date: format!("2025-01-{:02}", idx + 1),
            description: tx.description.to_string(),
            amount_cents: tx.amount_cents,
            balance_cents: 50000 + tx.amount_cents,
            hash: Some(format!("fixture-{idx}")),
            fallback_hash: String::new(),
            metadata: "{}".to_string(),
        })
        .collect();
    let mut store = TransactionStore::open_in_memory();
    let bank = BankImport {
        name: "TestBank".to_string(),
        accounts: vec![AccountImport {
            name: "Checking".to_string(),
            files: vec![FileImport {
                path: "TestBank/Checking/transactions.csv".to_string(),
                content_hash: "fixture".to_string(),
                transactions,
            }],
            pulled: None,
        }],
    };
    store.refresh(&vec![bank], 1, NOW).unwrap();
    store
}

fn tx_by_description(store: &TransactionStore, description: &str) -> Transaction {
    store
        .query_transactions(&EVERY, None)
        .into_iter()
        .find(|tx| tx.description == description)
        .unwrap_or_else(|| panic!("missing transaction {description:?}"))
}

fn store_with_two_accounts() -> (TransactionStore, i64, i64) {
    let mut store = TransactionStore::open_in_memory();
    let bank_id = store.get_or_create_bank("TB").unwrap().0;
    for (id, name) in [(1, "A1"), (2, "A2")] {
        store.restore(Change::PutAccount(Account {
            id,
            bank_id,
            name: name.to_string(),
            deleted_at: None,
        }));
    }
    (store, 1, 2)
}

fn category_of(s: &Session, tx_id: i64) -> Option<String> {
    s.store.get_transaction_category(tx_id).map(|c| c.path)
}

// ----- confirmations -----

fn confirming(s: &mut Session, message: &str, action: ConfirmAction) {
    s.app.input_mode = InputMode::Confirm;
    s.app.confirm_message = Some(message.to_string());
    s.app.confirm_action = Some(action);
    s.act(|app| app.confirm_proceed());
}

fn cancel_current_confirmation(s: &mut Session) {
    match s.app.input_mode {
        InputMode::Confirm => s.act(|app| app.cancel_input()),
        mode => panic!("expected confirmation mode, got {mode:?}"),
    }
}

#[test]
fn confirm_merge_category_merges_and_returns_to_normal() {
    let mut store = store_with_transactions(&[fixture("Coffee", -450)]);
    let source_id = store.get_or_create_category("Old", NOW).unwrap();
    let target_id = store.get_or_create_category("New", NOW).unwrap();
    let tx = tx_by_description(&store, "Coffee");
    store
        .set_category(tx.id, source_id, CategorySource::Manual, true, None, NOW)
        .unwrap();

    let mut s = Session::new(store);
    confirming(&mut s, "Merge?", ConfirmAction::MergeCategory { source_id, target_id });

    assert_eq!(s.app.input_mode, InputMode::Normal);
    assert!(s.store.get_category(source_id).is_none());
    assert_eq!(s.store.get_transaction_category(tx.id).unwrap().id, target_id);
}

// ----- editors -----

/// Type `text` into whichever editor is open, one key at a time.
fn type_into_editor(s: &mut Session, text: &str) {
    for c in text.chars() {
        press_code(s, KeyCode::Char(c));
    }
}

fn editor_key(s: &mut Session, key: KeyEvent) {
    match s.app.input_mode {
        InputMode::Note => s.act(|app| app.handle_note_key(&key)),
        InputMode::Tags => s.act(|app| app.handle_tag_key(&key)),
        other => panic!("no editor open (mode {other:?})"),
    }
}

fn press_code(s: &mut Session, code: KeyCode) {
    editor_key(s, KeyEvent::plain(code));
}

fn ctrl_s(s: &mut Session) {
    editor_key(s, KeyEvent::ctrl('s'));
}

fn app_with_one_transaction() -> (Session, i64) {
    let store = store_with_transactions(&[fixture("Coffee", -450)]);
    let tx_id = tx_by_description(&store, "Coffee").id;
    (Session::new(store), tx_id)
}

#[test]
fn note_editor_saves_and_caches_the_note() {
    let (mut s, tx_id) = app_with_one_transaction();

    s.act(|app| app.start_note_edit());
    assert_eq!(s.app.input_mode, InputMode::Note);
    type_into_editor(&mut s, "reimbursable");
    ctrl_s(&mut s);

    assert_eq!(s.app.input_mode, InputMode::Normal);
    assert!(s.app.note_editor.is_none());
    assert_eq!(s.app.get_cached_note(tx_id).map(|n| n.as_str()), Some("reimbursable"));
    assert_eq!(s.store.get_note(tx_id).as_deref(), Some("reimbursable"));
}

#[test]
fn reopening_the_note_editor_loads_the_saved_text_and_clearing_removes_it() {
    let (mut s, tx_id) = app_with_one_transaction();

    s.act(|app| app.start_note_edit());
    type_into_editor(&mut s, "first");
    ctrl_s(&mut s);

    s.act(|app| app.start_note_edit());
    assert_eq!(s.app.note_editor.as_ref().unwrap().text(), "first");
    for _ in 0.."first".len() {
        press_code(&mut s, KeyCode::Backspace);
    }
    ctrl_s(&mut s);

    assert_eq!(s.app.get_cached_note(tx_id), None);
    assert_eq!(s.store.get_note(tx_id), None);
}

#[test]
fn escaping_a_dirty_note_confirms_and_declining_returns_to_the_editor() {
    let (mut s, tx_id) = app_with_one_transaction();

    s.act(|app| app.start_note_edit());
    type_into_editor(&mut s, "draft");
    press_code(&mut s, KeyCode::Esc);

    // Dirty: the editor must not be thrown away without asking.
    assert_eq!(s.app.input_mode, InputMode::Confirm);
    assert!(matches!(s.app.confirm_action, Some(ConfirmAction::DiscardNoteEdit)));

    cancel_current_confirmation(&mut s);
    assert_eq!(s.app.input_mode, InputMode::Note);
    assert_eq!(s.app.note_editor.as_ref().unwrap().text(), "draft");

    // Confirming does discard it.
    press_code(&mut s, KeyCode::Esc);
    s.act(|app| app.confirm_proceed());
    assert_eq!(s.app.input_mode, InputMode::Normal);
    assert!(s.app.note_editor.is_none());
    assert_eq!(s.store.get_note(tx_id), None);
}

#[test]
fn escaping_an_unchanged_note_closes_without_confirming() {
    let (mut s, _tx_id) = app_with_one_transaction();

    s.act(|app| app.start_note_edit());
    press_code(&mut s, KeyCode::Esc);

    assert_eq!(s.app.input_mode, InputMode::Normal);
    assert!(s.app.confirm_action.is_none());
}

#[test]
fn tag_editor_saves_and_feeds_tag_autocomplete() {
    let (mut s, tx_id) = app_with_one_transaction();

    s.act(|app| app.start_tag_edit());
    assert_eq!(s.app.input_mode, InputMode::Tags);
    type_into_editor(&mut s, "#work travel");
    press_code(&mut s, KeyCode::Enter);

    assert_eq!(s.app.input_mode, InputMode::Normal);
    assert_eq!(s.app.get_cached_tags(tx_id), ["travel", "work"]);
    // A newly created tag must be offered by `tag:` autocomplete at once.
    assert_eq!(s.app.tag_options().len(), 2);
    assert!(s.app.tag_options().contains(&"work".to_string()));
}

#[test]
fn clearing_every_tag_removes_it_from_autocomplete() {
    let (mut s, tx_id) = app_with_one_transaction();

    s.act(|app| app.start_tag_edit());
    type_into_editor(&mut s, "work");
    press_code(&mut s, KeyCode::Enter);
    assert_eq!(s.app.tag_options(), ["work".to_string()]);

    s.act(|app| app.start_tag_edit());
    for _ in 0.."work ".len() {
        press_code(&mut s, KeyCode::Backspace);
    }
    press_code(&mut s, KeyCode::Enter);

    assert!(s.app.get_cached_tags(tx_id).is_empty());
    assert!(s.app.tag_options().is_empty());
}

#[test]
fn note_footer_hint_says_edit_once_the_row_has_one() {
    let (mut s, _tx_id) = app_with_one_transaction();
    s.app.current_tab = Tab::Transactions;
    assert!(footer_hints(&s.app).contains(&("n", "note")));

    s.act(|app| app.start_note_edit());
    type_into_editor(&mut s, "noted");
    ctrl_s(&mut s);

    assert!(footer_hints(&s.app).contains(&("n", "edit note")));
}

#[test]
fn note_and_tag_edits_are_no_ops_without_a_selected_transaction() {
    let mut s = Session::new(store_with_transactions(&[]));

    s.act(|app| app.start_note_edit());
    assert_eq!(s.app.input_mode, InputMode::Normal);
    assert!(s.app.note_editor.is_none());

    s.act(|app| app.start_tag_edit());
    assert_eq!(s.app.input_mode, InputMode::Normal);
    assert!(s.app.tag_editor.is_none());
}

// ----- categories and transfers -----

#[test]
fn cancel_merge_from_rename_restores_rename_prompt() {
    let mut store = store_with_transactions(&[]);
    let source_id = store.get_or_create_category("Old", NOW).unwrap();
    store.get_or_create_category("Existing", NOW).unwrap();
    let source = store.get_category(source_id).unwrap();
    let mut s = Session::new(store);

    s.act(|app| app.confirm_category_rename(source, "Existing".to_string()));
    assert_eq!(s.app.input_mode, InputMode::Confirm);
    assert!(s.app.confirm_action.is_some());

    cancel_current_confirmation(&mut s);

    assert_eq!(s.app.input_mode, InputMode::TextPrompt);
    assert_eq!(s.app.text_prompt_title(), "Rename category");
    assert_eq!(s.app.text_prompt_value(), "Existing");
    assert!(s.app.confirm_action.is_none());
}

#[test]
fn confirm_break_transfer_for_category_lands_in_normal() {
    let mut store = store_with_transactions(&[
        fixture("Coffee shop", -10000),
        fixture("Salary deposit", 10000),
    ]);
    let tx = tx_by_description(&store, "Coffee shop");
    let other = tx_by_description(&store, "Salary deposit");
    let transfer_id = store
        .create_transfer(tx.id, other.id, TransferSource::Manual, true, None, NOW)
        .unwrap();
    let mut s = Session::new(store);
    confirming(
        &mut s,
        "Break transfer?",
        ConfirmAction::BreakTransferForCategory {
            transfer_id,
            tx: tx.clone(),
            category_path: "Food".to_string(),
        },
    );

    assert_eq!(s.app.input_mode, InputMode::Normal);
    assert!(s.store.get_transfer_for_transaction(tx.id).is_none());
    assert_eq!(category_of(&s, tx.id).unwrap(), "Food");
}

#[test]
fn confirm_break_transfers_for_transfer_lands_in_normal() {
    let mut store = store_with_transactions(&[
        fixture("New from", -10000),
        fixture("New to", 10000),
        fixture("Old from", -20000),
        fixture("Old to", 20000),
    ]);
    let from = tx_by_description(&store, "New from");
    let to = tx_by_description(&store, "New to");
    let old_from = tx_by_description(&store, "Old from");
    let old_to = tx_by_description(&store, "Old to");
    let first_transfer_id = store
        .create_transfer(from.id, old_to.id, TransferSource::Manual, true, None, NOW)
        .unwrap();
    let second_transfer_id = store
        .create_transfer(old_from.id, to.id, TransferSource::Manual, true, None, NOW)
        .unwrap();
    let mut s = Session::new(store);
    confirming(
        &mut s,
        "Break transfers?",
        ConfirmAction::BreakTransfersForTransfer {
            transfer_ids: vec![first_transfer_id, second_transfer_id],
            from_id: from.id,
            to_id: to.id,
        },
    );

    assert_eq!(s.app.input_mode, InputMode::Normal);
    let transfer = s.store.get_transfer_for_transaction(from.id).unwrap();
    assert_eq!(transfer.from_transaction_id, from.id);
    assert_eq!(transfer.to_transaction_id, to.id);
    assert!(s.store.get_transfer_for_transaction(old_from.id).is_none());
    assert!(s.store.get_transfer_for_transaction(old_to.id).is_none());
}

#[test]
fn confirm_unlink_transfer_lands_in_normal() {
    let mut store = store_with_transactions(&[
        fixture("Transfer out", -10000),
        fixture("Transfer in", 10000),
    ]);
    let from = tx_by_description(&store, "Transfer out");
    let to = tx_by_description(&store, "Transfer in");
    let transfer_id = store
        .create_transfer(from.id, to.id, TransferSource::Manual, true, None, NOW)
        .unwrap();
    let mut s = Session::new(store);
    confirming(&mut s, "Unlink?", ConfirmAction::UnlinkTransfer { transfer_id });

    assert_eq!(s.app.input_mode, InputMode::Normal);
    assert!(s.store.get_transfer_for_transaction(from.id).is_none());
}

#[test]
fn unlinking_transfer_clears_indicator_despite_stale_transfer_review_list() {
    let mut store =
        store_with_transactions(&[fixture("Move out", -10000), fixture("Move in", 10000)]);
    let from = tx_by_description(&store, "Move out");
    let to = tx_by_description(&store, "Move in");
    // An unconfirmed (auto) transfer surfaces on the Transfer Review subtab.
    store
        .create_transfer(from.id, to.id, TransferSource::Auto, false, confidence(0.9), NOW)
        .unwrap();

    let mut s = Session::new(store);
    // Visiting Transfer Review loads `transfer_reviews` into memory.
    s.app.current_tab = Tab::Todo;
    s.app.todo_subtab = TodoSubTab::TransferReview;
    s.act(|app| app.reload_current_tab());
    assert_eq!(s.app.lists.transfer_reviews.len(), 1);

    // Back on Transactions, the leg correctly reads as a transfer.
    s.app.current_tab = Tab::Transactions;
    s.act(|app| app.reload_current_tab());
    let transfer_id = s.app.get_cached_transfer(from.id).expect("leg reads as a transfer").id;

    // Unlink it. `transfer_reviews` is NOT reloaded while the Transactions
    // tab is active, so it still holds the now-deleted transfer — the cache
    // must reflect the DB, not the stale list.
    s.app.input_mode = InputMode::Confirm;
    s.app.confirm_action = Some(ConfirmAction::UnlinkTransfer { transfer_id });
    s.act(|app| app.confirm_proceed());

    assert!(s.app.get_cached_transfer(from.id).is_none());
    assert!(s.app.get_cached_transfer(to.id).is_none());
}

#[test]
fn bulk_categorise_matching_opens_bulk_apply_and_excludes_transfer_legs() {
    // Four transactions share the FTS term "shop"; two are plain, two are a
    // transfer pair. The bulk apply must categorise the plain ones and skip
    // the transfer legs.
    let mut store = store_with_transactions(&[
        fixture("shop groceries", -1200),
        fixture("shop hardware", -3400),
        fixture("shop transfer out", -5000),
        fixture("shop transfer in", 5000),
    ]);
    let plain1 = tx_by_description(&store, "shop groceries");
    let plain2 = tx_by_description(&store, "shop hardware");
    let from = tx_by_description(&store, "shop transfer out");
    let to = tx_by_description(&store, "shop transfer in");
    store
        .create_transfer(from.id, to.id, TransferSource::Manual, true, None, NOW)
        .unwrap();

    let mut s = Session::new(store);
    s.app.current_tab = Tab::Transactions;
    s.act(|app| app.reload_current_tab());

    // Apply a DB search that matches all four rows.
    s.act(|app| app.start_db_search());
    for c in "shop".chars() {
        s.act(|app| app.handle_db_search_input(InputRequest::InsertChar(c), None));
    }
    s.act(|app| app.confirm_db_search());

    // Drive the bulk-categorise popup: open it, type a category, confirm.
    s.act(|app| app.start_bulk_categorise_matching());
    assert_eq!(s.app.category_target, CategoryTarget::MatchingTransactions);
    for c in "Shopping".chars() {
        s.act(|app| app.update_category_input(c));
    }
    s.act(|app| app.confirm_category());

    // Lands in the bulk-apply checkbox modal (not a yes/no Confirm).
    assert_eq!(s.app.input_mode, InputMode::BulkApply);
    let state = s.app.bulk_apply.as_ref().expect("bulk apply open");
    assert!(matches!(
        &state.action,
        BulkAction::ApplyCategory { category_path } if category_path == "Shopping"
    ));
    let ids: Vec<i64> = state.rows.iter().map(|row| row.target_id()).collect();
    assert!(ids.contains(&plain1.id));
    assert!(ids.contains(&plain2.id));
    assert!(!ids.contains(&from.id));
    assert!(!ids.contains(&to.id));

    s.act(|app| app.bulk_apply_confirm());

    assert_eq!(s.app.input_mode, InputMode::Normal);
    assert_eq!(category_of(&s, plain1.id).unwrap(), "Shopping");
    assert_eq!(category_of(&s, plain2.id).unwrap(), "Shopping");
    assert!(category_of(&s, from.id).is_none());
    assert!(category_of(&s, to.id).is_none());
}

#[test]
fn start_accept_matching_builds_rows_for_ai_and_transfer_review_only() {
    let mut store = store_with_transactions(&[
        fixture("AI coffee", -450),
        fixture("AI lunch", -1200),
        fixture("Xfer out", -5000),
        fixture("Xfer in", 5000),
    ]);
    let coffee = tx_by_description(&store, "AI coffee");
    let lunch = tx_by_description(&store, "AI lunch");
    let from = tx_by_description(&store, "Xfer out");
    let to = tx_by_description(&store, "Xfer in");
    let cat = store.get_or_create_category("Food", NOW).unwrap();
    for id in [coffee.id, lunch.id] {
        store
            .set_category(id, cat, CategorySource::Ai, false, confidence(0.9), NOW)
            .unwrap();
    }
    let transfer_id = store
        .create_transfer(from.id, to.id, TransferSource::Auto, false, confidence(0.8), NOW)
        .unwrap();

    let mut s = Session::new(store);

    // AI Review: ConfirmCategories rows.
    s.app.current_tab = Tab::Todo;
    s.app.todo_subtab = TodoSubTab::AiReview;
    s.act(|app| app.reload_current_tab());
    s.act(|app| app.start_accept_matching());
    assert_eq!(s.app.input_mode, InputMode::BulkApply);
    let state = s.app.bulk_apply.as_ref().unwrap();
    assert!(matches!(state.action, BulkAction::ConfirmCategories));
    let ids: Vec<i64> = state.rows.iter().map(|row| row.target_id()).collect();
    assert_eq!(ids.len(), 2);
    assert!(ids.contains(&coffee.id) && ids.contains(&lunch.id));
    s.act(|app| app.bulk_apply_cancel());

    // Transfer Review: ConfirmTransfers rows.
    s.app.todo_subtab = TodoSubTab::TransferReview;
    s.act(|app| app.reload_current_tab());
    s.act(|app| app.start_accept_matching());
    assert_eq!(s.app.input_mode, InputMode::BulkApply);
    let state = s.app.bulk_apply.as_ref().unwrap();
    assert!(matches!(state.action, BulkAction::ConfirmTransfers));
    assert_eq!(state.rows.len(), 1);
    assert_eq!(state.rows[0].target_id(), transfer_id);
    s.act(|app| app.bulk_apply_cancel());

    // No-op on Transactions / Uncategorised.
    for (tab, subtab) in [
        (Tab::Transactions, TodoSubTab::Uncategorised),
        (Tab::Todo, TodoSubTab::Uncategorised),
    ] {
        s.app.current_tab = tab;
        s.app.todo_subtab = subtab;
        s.act(|app| app.start_accept_matching());
        assert!(s.app.bulk_apply.is_none(), "expected no-op on {tab:?}/{subtab:?}");
        assert_eq!(s.app.input_mode, InputMode::Normal);
    }
}

#[test]
fn bulk_apply_confirm_applies_selected_only_for_each_action() {
    // Deselect the middle row, confirm, and only selected rows are mutated.
    for ai in [false, true] {
        let mut store = store_with_transactions(&[
            fixture("row a", -100),
            fixture("row b", -200),
            fixture("row c", -300),
        ]);
        let a = tx_by_description(&store, "row a");
        let b = tx_by_description(&store, "row b");
        let c = tx_by_description(&store, "row c");
        if ai {
            let cat = store.get_or_create_category("Food", NOW).unwrap();
            for id in [a.id, b.id, c.id] {
                store
                    .set_category(id, cat, CategorySource::Ai, false, confidence(0.7), NOW)
                    .unwrap();
            }
        }

        let mut s = Session::new(store);
        if ai {
            s.app.current_tab = Tab::Todo;
            s.app.todo_subtab = TodoSubTab::AiReview;
            s.act(|app| app.reload_current_tab());
            s.act(|app| app.start_accept_matching());
        } else {
            s.app.bulk_apply = Some(BulkApplyState {
                action: BulkAction::ApplyCategory { category_path: "Food".into() },
                rows: [a.clone(), b.clone(), c.clone()]
                    .into_iter()
                    .map(|tx| BulkRow {
                        selected: true,
                        item: BulkItem::Transaction { tx, score: None },
                    })
                    .collect(),
                cursor: 0,
            });
            s.app.input_mode = InputMode::BulkApply;
        }

        let state = s.app.bulk_apply.as_mut().unwrap();
        assert_eq!(state.rows.len(), 3);
        state.rows[1].selected = false;
        let skipped_id = state.rows[1].target_id();
        s.act(|app| app.bulk_apply_confirm());

        if ai {
            // Confirmed rows leave the pending-AI list; skipped stays.
            let pending: Vec<i64> = s
                .store
                .get_pending_ai_reviews(&EVERY, None)
                .into_iter()
                .map(|r| r.transaction.id)
                .collect();
            assert_eq!(pending, vec![skipped_id]);
        } else {
            assert_eq!(category_of(&s, a.id).unwrap(), "Food");
            assert!(category_of(&s, skipped_id).is_none());
            assert_eq!(category_of(&s, c.id).unwrap(), "Food");
        }
    }

    let mut store = store_with_transactions(&[
        fixture("out1", -1000),
        fixture("in1", 1000),
        fixture("out2", -2000),
        fixture("in2", 2000),
        fixture("out3", -3000),
        fixture("in3", 3000),
    ]);
    let mut transfer_ids: Vec<i64> = Vec::new();
    for n in ["1", "2", "3"] {
        let out = tx_by_description(&store, &format!("out{n}"));
        let into = tx_by_description(&store, &format!("in{n}"));
        let id = store
            .create_transfer(out.id, into.id, TransferSource::Auto, false, confidence(0.8), NOW)
            .unwrap();
        transfer_ids.push(id);
    }

    let mut s = Session::new(store);
    s.app.current_tab = Tab::Todo;
    s.app.todo_subtab = TodoSubTab::TransferReview;
    s.act(|app| app.reload_current_tab());
    s.act(|app| app.start_accept_matching());
    let state = s.app.bulk_apply.as_mut().unwrap();
    // Order is by creation, so rows may not match insert order: deselect by id
    // instead.
    let skipped = transfer_ids[1];
    for row in &mut state.rows {
        if row.target_id() == skipped {
            row.selected = false;
        }
    }
    s.act(|app| app.bulk_apply_confirm());

    let pending: Vec<i64> = s
        .store
        .get_pending_transfer_reviews(&EVERY, None)
        .into_iter()
        .map(|t| t.id)
        .collect();
    assert_eq!(pending, vec![skipped]);
}

fn categorised_coffee() -> (TransactionStore, Transaction, i64) {
    let mut store = store_with_transactions(&[fixture("Coffee", -450)]);
    let tx = tx_by_description(&store, "Coffee");
    let category_id = store.get_or_create_category("Food", NOW).unwrap();
    store
        .set_category(tx.id, category_id, CategorySource::Manual, true, None, NOW)
        .unwrap();
    (store, tx, category_id)
}

#[test]
fn confirm_uncategorise_lands_in_normal() {
    let (store, tx, _) = categorised_coffee();
    let mut s = Session::new(store);
    confirming(&mut s, "Uncategorise?", ConfirmAction::Uncategorise { tx_id: tx.id });

    assert_eq!(s.app.input_mode, InputMode::Normal);
    assert!(s.store.get_transaction_category(tx.id).is_none());
}

#[test]
fn confirm_delete_category_lands_in_normal() {
    let (store, tx, category_id) = categorised_coffee();
    let mut s = Session::new(store);
    confirming(&mut s, "Delete category?", ConfirmAction::DeleteCategory(category_id));

    assert_eq!(s.app.input_mode, InputMode::Normal);
    assert!(s.store.get_category(category_id).is_none());
    assert!(s.store.get_transaction_category(tx.id).is_none());
}

#[test]
fn confirm_discard_filter_edit_lands_in_normal() {
    let mut store = store_with_transactions(&[fixture("Coffee", -450)]);
    store.create_filter("Coffee", "Coffee", NOW).unwrap();
    let mut s = Session::new(store);
    s.app.current_tab = Tab::Filters;
    s.act(|app| app.open_filter_edit());
    confirming(&mut s, "Discard?", ConfirmAction::DiscardFilterEdit);

    assert_eq!(s.app.input_mode, InputMode::Normal);
    assert!(s.app.filter_edit.is_none());
}

#[test]
fn confirm_delete_filter_lands_in_normal() {
    let mut store = store_with_transactions(&[fixture("Coffee", -450)]);
    let filter_id = store.create_filter("Coffee", "Coffee", NOW).unwrap();
    let mut s = Session::new(store);
    s.app.current_tab = Tab::Filters;
    s.app.selected_index = 0;
    confirming(&mut s, "Delete filter?", ConfirmAction::DeleteFilter(filter_id));

    assert_eq!(s.app.input_mode, InputMode::Normal);
    assert!(s.store.list_filters().is_empty());
}

#[test]
fn toggle_category_transactions_loads_and_clears() {
    let (store, tx, _) = categorised_coffee();
    let mut s = Session::new(store);
    s.app.current_tab = Tab::Categories;
    s.act(|app| app.refresh_data());
    s.act(|app| app.focus_category("Food"));

    s.act(|app| app.toggle_category_transactions());
    assert!(s.app.show_category_transactions);
    assert_eq!(s.app.category_transactions.len(), 1);
    assert_eq!(s.app.category_transactions[0].id, tx.id);

    s.act(|app| app.toggle_category_transactions());
    assert!(!s.app.show_category_transactions);
    assert!(s.app.category_transactions.is_empty());
}

#[test]
fn manage_category_transactions_switches_to_filtered_transactions() {
    let (store, _tx, _) = categorised_coffee();
    let mut s = Session::new(store);
    s.app.current_tab = Tab::Categories;
    s.act(|app| app.refresh_data());
    s.act(|app| app.focus_category("Food"));

    s.act(|app| app.manage_category_transactions());

    assert_eq!(s.app.current_tab, Tab::Transactions);
    assert_eq!(s.app.input_mode, InputMode::Normal);
    assert!(s.app.db_search_active());
    assert_eq!(s.app.db_search_value(), "category:Food");
}

// ----- background jobs -----

#[test]
fn background_job_request_skipped_while_another_is_active() {
    // Every ordered pair of distinct jobs: the running one blocks the
    // attempted one with a uniform "<running> in progress" status and
    // leaves active_job unchanged.
    let jobs = [BackgroundJob::Refresh, BackgroundJob::Classify, BackgroundJob::Reindex];
    for running in jobs {
        for attempted in jobs {
            if running == attempted {
                continue;
            }
            let mut s = Session::new(store_with_transactions(&[]));
            s.app.active_job = Some(running);

            match attempted {
                BackgroundJob::Refresh => s.app.request_refresh(),
                BackgroundJob::Classify => s.app.request_classify(),
                BackgroundJob::Reindex => s.app.reindex_fts(),
            }

            assert_eq!(s.app.active_job, Some(running));
            assert!(s.app.next_task().is_none());
            assert!(s.app.error_message.is_none());
            let expected = format!("{} in progress", running.gerund());
            assert_eq!(
                s.app.active_status().map(|m| m.as_str()),
                Some(expected.as_str()),
                "running={running:?} attempted={attempted:?}"
            );
        }
    }
}

#[test]
fn reindex_fts_rebuilds_when_idle() {
    let store = store_with_transactions(&[fixture("Coffee", -450), fixture("Rent", -120000)]);
    let mut s = Session::new(store);
    assert!(s.app.active_job.is_none());

    s.act(|app| app.reindex_fts());

    assert!(s.app.active_job.is_none());
    assert!(s.app.error_message.is_none());
    assert_eq!(
        s.app.active_status().map(|m| m.as_str()),
        Some("Reindexed 2 transactions")
    );
}

#[test]
fn finish_reindex_ok_clears_flag_and_sets_status() {
    let mut s = Session::new(store_with_transactions(&[fixture("Coffee", -450)]));
    s.app.active_job = Some(BackgroundJob::Reindex);

    s.act(|app| app.finish_reindex(Ok(1)));

    assert!(s.app.active_job.is_none());
    assert!(s.app.error_message.is_none());
    assert_eq!(
        s.app.active_status().map(|m| m.as_str()),
        Some("Reindexed 1 transactions")
    );
}

#[test]
fn finish_reindex_err_clears_flag_and_sets_error() {
    let mut s = Session::new(store_with_transactions(&[]));
    s.app.active_job = Some(BackgroundJob::Reindex);

    let failure = Error::ImportFailed("simulated reindex failure".into());
    s.act(|app| app.finish_reindex(Err(failure.message())));

    assert!(s.app.active_job.is_none());
    assert!(s.app.active_status().is_none());
    let msg = s.app.error_message.as_deref().unwrap_or("");
    assert!(
        msg.contains("Failed to reindex full-text search"),
        "unexpected error_message: {msg:?}"
    );
}

#[test]
fn dismiss_error_clears_message_when_present() {
    let mut s = Session::new(store_with_transactions(&[]));
    s.app.error_message = Some("Database is locked".to_string());

    assert!(s.app.dismiss_error());
    assert!(s.app.error_message.is_none());
    // Second dismiss is a no-op.
    assert!(!s.app.dismiss_error());
    assert!(s.app.error_message.is_none());
}

// ----- accounts -----

fn account_pos(s: &Session, path: &str) -> usize {
    s.app.lists.accounts.iter().iter().position(|a| a.path == path).unwrap()
}

fn on_account(path: &str) -> Session {
    let (store, _a1, _a2) = store_with_two_accounts();
    let mut s = Session::new(store);
    s.app.current_tab = Tab::Accounts;
    s.app.selected_index = account_pos(&s, path);
    s
}

#[test]
fn rename_collision_surfaces_error_without_merge() {
    let mut s = on_account("TB/A1");
    // Existing on-disk folder makes the target a collision.
    s.folder_taken = true;

    let account = s.app.selected_account().cloned().unwrap();
    s.act(|app| app.confirm_account_rename(account, "TB/A2".to_string()));

    // No merge flow: the error popup is shown and the account is untouched.
    assert!(s.app.error_message.is_some());
    assert!(s.app.confirm_action.is_none());
    assert!(s.app.lists.accounts.iter().iter().any(|a| a.path == "TB/A1"));
}

#[test]
fn rename_moves_account_and_focuses_it() {
    let mut s = on_account("TB/A1");

    let account = s.app.selected_account().cloned().unwrap();
    s.act(|app| app.confirm_account_rename(account, "TB/Renamed".to_string()));

    assert!(s.app.error_message.is_none());
    assert_eq!(s.app.input_mode, InputMode::Normal);
    assert_eq!(s.app.selected_account().unwrap().path, "TB/Renamed");
}

#[test]
fn delete_account_removes_it_and_clamps_cursor() {
    let (store, a1, _a2) = store_with_two_accounts();
    let mut s = Session::new(store);
    s.app.current_tab = Tab::Accounts;

    s.app.confirm_action = Some(ConfirmAction::DeleteAccount(a1));
    s.app.input_mode = InputMode::Confirm;
    s.act(|app| app.confirm_proceed());

    assert_eq!(s.app.input_mode, InputMode::Normal);
    assert!(!s.app.lists.accounts.iter().iter().any(|a| a.id == a1));
    assert!(s.app.selected_index < s.app.lists.accounts.len().max(1));
}

// ----- saved filters -----

fn store_with_imported_transaction() -> TransactionStore {
    store_with_transactions(&[fixture("Test transaction", -10000)])
}

fn set_edit_query(s: &mut Session, query: &str) {
    s.app.filter_edit.as_mut().unwrap().search_bar.set_value(query);
}

#[test]
fn filter_edit_opens_preview_and_saves_query() {
    let mut store = store_with_imported_transaction();
    let filter_id = store.create_filter("Test filter", "Test", NOW).unwrap();
    let mut s = Session::new(store);
    s.app.current_tab = Tab::Filters;

    s.act(|app| app.open_filter_edit());

    let state = s.app.filter_edit.as_ref().unwrap();
    assert_eq!(s.app.input_mode, InputMode::FilterEdit);
    assert_eq!(state.filter_id, filter_id);
    assert_eq!(state.name, "Test filter");
    assert_eq!(state.search_bar.value(), "Test");
    assert_eq!(state.preview.len(), 1);
    assert_eq!(state.preview[0].description, "Test transaction");

    set_edit_query(&mut s, "NoMatch");
    s.act(|app| app.save_filter_edit());

    let filters = s.store.list_filters();
    assert_eq!(filters[0].query, "NoMatch");
    assert_eq!(s.app.input_mode, InputMode::Normal);
    assert!(s.app.filter_edit.is_none());
}

#[test]
fn save_filter_edit_returns_to_filters_list() {
    let mut store = store_with_imported_transaction();
    store.create_filter("Test filter", "Test", NOW).unwrap();
    let mut s = Session::new(store);
    s.app.current_tab = Tab::Filters;
    s.act(|app| app.open_filter_edit());

    set_edit_query(&mut s, "NoMatch");
    // Enter with no autocomplete open saves and exits to the Filters list.
    s.act(|app| app.save_filter_edit());

    assert_eq!(s.store.list_filters()[0].query, "NoMatch");
    assert_eq!(s.app.input_mode, InputMode::Normal);
    assert_eq!(s.app.current_tab, Tab::Filters);
    assert!(s.app.filter_edit.is_none());
}

#[test]
fn saving_transaction_search_as_filter_opens_filter_edit() {
    let mut s = Session::new(store_with_imported_transaction());
    s.app.current_tab = Tab::Transactions;
    s.act(|app| app.start_db_search());
    for c in "Test".chars() {
        s.act(|app| app.handle_db_search_input(InputRequest::InsertChar(c), None));
    }

    s.act(|app| app.start_filter_from_search());
    assert_eq!(s.app.input_mode, InputMode::TextPrompt);
    assert_eq!(s.app.text_prompt_title(), "Save filter");

    for c in "Saved test".chars() {
        s.act(|app| app.handle_text_prompt_input(InputRequest::InsertChar(c)));
    }
    s.act(|app| app.confirm_text_prompt());

    let filters = s.store.list_filters();
    let filter = filters.iter().find(|filter| filter.name == "Saved test").unwrap();
    assert_eq!(filter.query, "Test");
    assert_eq!(s.app.current_tab, Tab::Filters);
    assert_eq!(s.app.input_mode, InputMode::FilterEdit);
    assert_eq!(s.app.lists.filters.get(s.app.selected_index).unwrap().id, filter.id);

    let state = s.app.filter_edit.as_ref().unwrap();
    assert_eq!(state.filter_id, filter.id);
    assert_eq!(state.search_bar.value(), "Test");
    assert_eq!(state.preview.len(), 1);
    assert_eq!(state.preview[0].description, "Test transaction");
}

#[test]
fn esc_prompts_only_when_filter_edit_query_is_dirty() {
    let mut store = store_with_imported_transaction();
    store.create_filter("Test filter", "Test", NOW).unwrap();
    let mut s = Session::new(store);
    s.app.current_tab = Tab::Filters;

    // Unchanged query exits straight to Normal.
    s.act(|app| app.open_filter_edit());
    assert!(!s.app.filter_edit_dirty());
    s.act(|app| app.request_exit_filter_edit());
    assert_eq!(s.app.input_mode, InputMode::Normal);
    assert!(s.app.filter_edit.is_none());

    // A dirty query routes to the discard confirmation instead of exiting.
    s.act(|app| app.open_filter_edit());
    set_edit_query(&mut s, "Changed");
    assert!(s.app.filter_edit_dirty());
    s.act(|app| app.request_exit_filter_edit());
    assert_eq!(s.app.input_mode, InputMode::Confirm);
    assert!(s.app.filter_edit.is_some());

    // Confirming the discard leaves the edit screen.
    s.act(|app| app.confirm_proceed());
    assert_eq!(s.app.input_mode, InputMode::Normal);
    assert!(s.app.filter_edit.is_none());
}

#[test]
fn cycling_override_persists_setting_without_applying() {
    let mut store = store_with_imported_transaction();
    let tx = tx_by_description(&store, "Test transaction");
    // A filter matches the transaction and carries a rule category.
    let rule_cat = store.get_or_create_category("Rule/Cat", NOW).unwrap();
    let filter_id = store.create_filter("f", "Test", NOW).unwrap();
    store.set_filter_category(filter_id, Some(rule_cat));
    // The transaction already has a confirmed manual category.
    let manual_cat = store.get_or_create_category("Manual/Cat", NOW).unwrap();
    store
        .set_category(tx.id, manual_cat, CategorySource::Manual, true, None, NOW)
        .unwrap();

    let mut s = Session::new(store);
    s.app.current_tab = Tab::Filters;
    s.app.selected_index = 0;

    // Cycle override uncategorised -> ai -> all.
    s.act(|app| app.cycle_filter_override());
    s.act(|app| app.cycle_filter_override());

    // The setting persisted...
    assert_eq!(s.store.list_filters()[0].override_mode, FilterOverride::All);
    // ...but nothing was applied: the manual category is untouched, even
    // though override=all would overwrite it on an explicit apply.
    assert_eq!(category_of(&s, tx.id).unwrap(), "Manual/Cat");
    // The pending change only shows up when the user applies (a / Ctrl-A).
    let preview = s.store.preview_filters(&filter_hits(&s.store));
    assert!(preview.iter().any(|t| t.id == tx.id));
}

// ----- keys -----

fn contexts() -> [(Tab, TodoSubTab); 7] {
    [
        (Tab::Transactions, TodoSubTab::Uncategorised),
        (Tab::Transfers, TodoSubTab::Uncategorised),
        (Tab::Categories, TodoSubTab::Uncategorised),
        (Tab::Todo, TodoSubTab::Uncategorised),
        (Tab::Todo, TodoSubTab::AiReview),
        (Tab::Todo, TodoSubTab::TransferReview),
        (Tab::Filters, TodoSubTab::Uncategorised),
    ]
}

fn app_with_rows() -> Session {
    let mut s = Session::new(TransactionStore::open_in_memory());
    let app = &mut s.app;

    let tx1 = tx(1, -1200);
    let tx2 = tx(2, 1200);
    let category = category(1);
    let pending_transfer = transfer(1, tx1.id, tx2.id, false);
    let linked_transfer = transfer(2, tx1.id, tx2.id, true);

    app.lists.transactions = FilteredList::new(vec![tx1.clone()]);
    app.lists.uncategorised = FilteredList::new(vec![tx1.clone()]);
    app.lists.ai_reviews = FilteredList::new(vec![TransactionWithEnrichment {
        transaction: tx1.clone(),
        enrichment: None,
        category: Some(category.clone()),
    }]);
    app.lists.transfer_reviews = FilteredList::new(vec![pending_transfer]);
    app.lists.linked_transfers = FilteredList::new(vec![TransferWithTransactions {
        transfer: linked_transfer,
        from_transaction: tx1,
        to_transaction: tx2,
    }]);
    app.lists.categories = FilteredList::new(vec![category]);
    app.lists.filters = FilteredList::new(vec![filter(1)]);
    s
}

fn tx(id: i64, amount_cents: i64) -> Transaction {
    Transaction {
        id,
        bank_id: 1,
        account_id: 1,
        date: format!("2024-01-{id:02}"),
        description: format!("Transaction {id}"),
        amount_cents,
        balance_cents: 10_000,
        hash: format!("hash-{id}"),
        metadata: "{}".to_string(),
        source_file: "test.csv".to_string(),
        import_batch_id: 1,
    }
}

fn category(id: i64) -> Category {
    Category { id, path: "Food/Groceries".to_string(), created_at: NOW }
}

fn filter(id: i64) -> Filter {
    Filter {
        id,
        name: "Groceries".to_string(),
        query: "woolworths".to_string(),
        category_id: Some(1),
        override_mode: FilterOverride::Uncategorised,
        review_required: false,
        position: 0,
        created_at: NOW,
    }
}

fn transfer(
    id: i64,
    from_transaction_id: i64,
    to_transaction_id: i64,
    confirmed: bool,
) -> Transfer {
    Transfer {
        id,
        from_transaction_id,
        to_transaction_id,
        source: TransferSource::Manual,
        confirmed,
        ai_confidence: None,
        created_at: NOW,
    }
}

fn find_act(binds: &[Bind], act: Act) -> Option<&Bind> {
    binds.iter().find(|bind| bind.act == act)
}

fn has_act(binds: &[Bind], act: Act) -> bool {
    find_act(binds, act).is_some()
}

fn has_act_trigger(binds: &[Bind], act: Act, trigger: Trigger) -> bool {
    find_act(binds, act).is_some_and(|bind| bind.triggers.contains(&trigger))
}

#[test]
fn normal_binds_have_no_duplicate_triggers_per_context() {
    for (tab, subtab) in contexts() {
        let mut s = app_with_rows();
        s.app.current_tab = tab;
        s.app.todo_subtab = subtab;

        let mut seen = Vec::new();
        for bind in normal_binds(&s.app) {
            for trigger in bind.triggers {
                assert!(
                    !seen.contains(&trigger),
                    "duplicate trigger {:?} in {:?}/{:?}",
                    trigger,
                    tab,
                    subtab
                );
                seen.push(trigger);
            }
        }
    }
}

#[test]
fn normal_binds_are_context_honest() {
    let mut s = app_with_rows();
    s.app.current_tab = Tab::Categories;
    let binds = normal_binds(&s.app);
    assert!(has_act_trigger(&binds, Act::RenameCategory, Trigger::Char('e')));
    assert!(!has_act(&binds, Act::DeleteTransfer));

    s.app.current_tab = Tab::Transfers;
    let binds = normal_binds(&s.app);
    assert!(has_act_trigger(&binds, Act::DeleteTransfer, Trigger::Char('d')));
    assert!(has_act_trigger(&binds, Act::DeleteTransfer, Trigger::Code(KeyCode::Delete)));

    s.app.current_tab = Tab::Todo;
    s.app.todo_subtab = TodoSubTab::AiReview;
    let binds = normal_binds(&s.app);
    assert!(has_act_trigger(&binds, Act::Categorise, Trigger::Char('c')));
    assert!(has_act_trigger(&binds, Act::RemoveCategory, Trigger::Code(KeyCode::Delete)));
    let bind = find_act(&binds, Act::Confirm).unwrap();
    assert_eq!(bind.desc, "confirm category");
    assert!(bind.triggers.contains(&Trigger::Code(KeyCode::Enter)));

    s.app.todo_subtab = TodoSubTab::TransferReview;
    let binds = normal_binds(&s.app);
    assert!(has_act_trigger(&binds, Act::DeleteTransfer, Trigger::Code(KeyCode::Delete)));
    let bind = find_act(&binds, Act::Confirm).unwrap();
    assert_eq!(bind.desc, "confirm transfer");
    assert!(bind.triggers.contains(&Trigger::Code(KeyCode::Enter)));

    s.app.lists.transfer_reviews = FilteredList::default();
    assert!(!has_act(&normal_binds(&s.app), Act::Confirm));
}

#[test]
fn filters_tab_binds_resolve() {
    let mut s = app_with_rows();
    s.app.current_tab = Tab::Filters;

    let binds = normal_binds(&s.app);
    assert!(has_act_trigger(&binds, Act::CreateFilter, Trigger::Char('n')));
    assert!(has_act_trigger(&binds, Act::ApplyFilters, Trigger::Char('a')));
    assert!(has_act_trigger(&binds, Act::RenameFilter, Trigger::Char('r')));
    assert!(has_act_trigger(&binds, Act::EditFilter, Trigger::Code(KeyCode::Enter)));
    assert!(has_act_trigger(&binds, Act::Categorise, Trigger::Char('c')));
    assert!(has_act_trigger(&binds, Act::CycleFilterOverride, Trigger::Char('o')));
    assert!(has_act_trigger(&binds, Act::ToggleFilterReview, Trigger::Char('v')));
    assert!(has_act_trigger(&binds, Act::DeleteFilter, Trigger::Char('d')));
    assert!(has_act_trigger(&binds, Act::DeleteFilter, Trigger::Code(KeyCode::Delete)));
}

#[test]
fn filters_tab_enter_dispatches_to_filter_edit() {
    let mut s = app_with_rows();
    s.app.current_tab = Tab::Filters;

    dispatch_normal(&mut s.app, KeyEvent::plain(KeyCode::Enter));

    assert_eq!(s.app.input_mode, InputMode::FilterEdit);
}

#[test]
fn transactions_search_can_be_saved_as_filter() {
    let mut s = app_with_rows();
    s.app.current_tab = Tab::Transactions;
    s.app.start_db_search();
    s.app.handle_db_search_input(InputRequest::InsertChar('x'), None);
    s.app.confirm_db_search();

    let binds = normal_binds(&s.app);
    assert!(has_act_trigger(&binds, Act::SaveSearchAsFilter, Trigger::Ctrl('s')));
    assert!(footer_hints(&s.app).contains(&("Ctrl-S", "save filter")));
}

#[test]
fn filter_edit_footer_hints_resolve() {
    let mut s = app_with_rows();
    s.app.input_mode = InputMode::FilterEdit;

    assert_eq!(
        footer_hints(&s.app),
        vec![
            ("Enter", "save"),
            ("Ctrl-E", "rename"),
            ("Ctrl-C", "category"),
            ("Ctrl-O", "override?"),
            ("Ctrl-V", "review?"),
            ("Ctrl-A", "apply"),
            ("Esc", "back"),
        ]
    );
}

#[test]
fn normal_footer_hints_map_to_dispatch_binds() {
    for (tab, subtab) in contexts() {
        let mut s = app_with_rows();
        s.app.current_tab = tab;
        s.app.todo_subtab = subtab;
        s.app.input_mode = InputMode::Normal;

        let binds = normal_binds(&s.app);
        for (label, desc) in footer_hints(&s.app) {
            if label == "?" {
                continue;
            }
            assert!(
                binds
                    .iter()
                    .any(|bind| bind.footer && bind.label == label && bind.desc == desc),
                "footer hint {label} {desc} has no bind in {:?}/{:?}",
                tab,
                subtab
            );
        }
    }
}

// ----- whole sessions by key -----

fn code(s: &mut Session, code: KeyCode) {
    s.press(KeyEvent::plain(code));
}

#[test]
fn categorising_by_key_files_the_selected_transaction() {
    let mut s = Session::new(store_with_transactions(&[fixture("Coffee", -450)]));
    let tx = tx_by_description(&s.store, "Coffee");
    // The program opens on what is left to categorise.
    assert_eq!(s.app.current_tab, Tab::Todo);
    assert_eq!(s.app.selected_transaction().unwrap().id, tx.id);

    s.type_keys("c");
    assert_eq!(s.app.input_mode, InputMode::Category);
    s.type_keys("Food");
    assert_eq!(s.app.category_suggestions[0].path, "Food");
    code(&mut s, KeyCode::Enter);

    assert_eq!(s.app.input_mode, InputMode::Normal);
    assert_eq!(category_of(&s, tx.id).unwrap(), "Food");
    assert!(s.app.lists.uncategorised.is_empty());
    assert_eq!(s.app.lists.categories.get(0).unwrap().path, "Food");
}

#[test]
fn similar_transactions_are_offered_best_first() {
    let mut s = Session::new(store_with_transactions(&[
        fixture("Cafe One", -450),
        fixture("Cafe Two", -460),
        fixture("Cafe Three", -470),
    ]));
    let two = tx_by_description(&s.store, "Cafe Two");
    let three = tx_by_description(&s.store, "Cafe Three");
    let tx = tx_by_description(&s.store, "Cafe One");
    let outside = Outside {
        now: NOW,
        hits: Hits::All,
        found: HashMap::new(),
        similar: vec![(two.id, 70), (three.id, 90), (12345, 99)],
    };
    let task = Task::OfferSimilar { tx, category_path: "Food".to_string() };
    carry_out(&mut s.app, &mut s.store, task, &outside);
    assert_eq!(s.app.input_mode, InputMode::BulkApply);
    let rows = &s.app.bulk_apply.as_ref().unwrap().rows;
    let ids: Vec<i64> = rows.iter().map(|r| r.target_id()).collect();
    assert_eq!(ids, vec![three.id, two.id]);
}

#[test]
fn searching_by_key_narrows_the_list_and_escape_restores_it() {
    let mut s = Session::new(store_with_transactions(&[
        fixture("Coffee", -450),
        fixture("Rent", -120000),
    ]));
    s.app.current_tab = Tab::Transactions;
    s.act(|app| app.reload_current_tab());
    assert_eq!(s.app.lists.transactions.len(), 2);
    s.type_keys("/");
    assert_eq!(s.app.input_mode, InputMode::DbSearch);
    s.type_keys("rent");
    assert_eq!(s.app.lists.transactions.len(), 1);
    assert_eq!(s.app.lists.transactions.get(0).unwrap().description, "Rent");
    code(&mut s, KeyCode::Enter);
    assert_eq!(s.app.input_mode, InputMode::Normal);
    code(&mut s, KeyCode::Esc);
    assert_eq!(s.app.lists.transactions.len(), 2);
}

#[test]
fn tabs_go_round_and_come_back() {
    let mut s = Session::new(store_with_transactions(&[]));
    let start = s.app.current_tab;
    for _ in 0..6 {
        s.act(|app| app.next_tab());
    }
    assert_eq!(s.app.current_tab, start);
    s.act(|app| app.next_tab());
    s.act(|app| app.previous_tab());
    assert_eq!(s.app.current_tab, start);
}

#[test]
fn marking_a_transfer_links_the_two_transactions() {
    let mut s = Session::new(store_with_transactions(&[
        fixture("To savings", -10000),
        fixture("From checking", 10000),
    ]));
    let from = tx_by_description(&s.store, "To savings");
    let to = tx_by_description(&s.store, "From checking");
    s.app.current_tab = Tab::Transactions;
    s.act(|app| app.reload_current_tab());
    s.app.selected_index = 1;
    assert_eq!(s.app.selected_transaction().unwrap().id, from.id);
    s.act(|app| app.start_transfer_mark());
    assert!(s.app.is_pending_transfer_tx(from.id));
    assert!(s.app.is_transfer_candidate(to.id));
    s.act(|app| app.complete_transfer());
    let transfer = s.store.get_transfer_for_transaction(from.id).unwrap();
    assert_eq!(transfer.from_transaction_id, from.id);
    assert_eq!(transfer.to_transaction_id, to.id);
    assert!(transfer.confirmed);
}

#[test]
fn a_refused_change_is_shown_in_words() {
    let mut store = store_with_transactions(&[fixture("Out", -100), fixture("In", 100)]);
    let from = tx_by_description(&store, "Out");
    let to = tx_by_description(&store, "In");
    store.create_transfer(from.id, to.id, TransferSource::Manual, true, None, NOW).unwrap();
    let mut s = Session::new(store);
    let message = format!("transaction {} is part of a transfer", from.id);
    s.act(|app| app.apply_category(from, "Food".to_string()));
    assert!(s.app.error_message.as_ref().unwrap().contains(&message));
}

#[test]
fn a_question_mark_opens_the_help_and_help_names_every_group() {
    let mut s = app_with_rows();
    s.app.current_tab = Tab::Transactions;
    s.type_keys("?");
    assert!(s.app.keybind_help_open);
    let lines = help_lines(&s.app);
    assert!(lines.iter().any(|l| matches!(l, HelpLine::Group(_))));
    assert!(lines.iter().any(|l| matches!(l, HelpLine::Bind(_, "quit"))));
}

#[test]
fn status_messages_expire() {
    let mut s = Session::new(store_with_transactions(&[]));
    s.app.tick(1000);
    s.app.show_status("Saved".to_string());
    assert_eq!(s.app.active_status().map(|m| m.as_str()), Some("Saved"));
    s.app.tick(5999);
    assert_eq!(s.app.active_status().map(|m| m.as_str()), Some("Saved"));
    s.app.tick(6000);
    assert!(s.app.active_status().is_none());
}

#[test]
fn outside_tasks_are_left_alone() {
    let mut s = Session::new(store_with_transactions(&[]));
    let task = Task::StartJob { job: BackgroundJob::Refresh };
    assert_eq!(needs(&task), Need::Job);
    let outside =
        Outside { now: NOW, hits: Hits::All, found: HashMap::new(), similar: Vec::new() };
    carry_out(&mut s.app, &mut s.store, task, &outside);
    assert!(s.app.active_job.is_none());
    assert!(s.store.take_journal().iter().all(|c| !matches!(c, Change::PutNote { .. })));
}

#[test]
fn dismiss_error_returns_false_when_none() {
    let mut s = Session::new(store_with_transactions(&[]));
    assert!(!s.app.dismiss_error());
    assert!(s.app.error_message.is_none());
}

#[test]
fn shift_c_categorises_what_matches_and_shift_a_accepts_it() {
    let mut store = store_with_transactions(&[
        fixture("AI coffee", -450),
        fixture("Xfer out", -5000),
        fixture("Xfer in", 5000),
    ]);
    let coffee = tx_by_description(&store, "AI coffee");
    let from = tx_by_description(&store, "Xfer out");
    let to = tx_by_description(&store, "Xfer in");
    let cat = store.get_or_create_category("Food", NOW).unwrap();
    store.set_category(coffee.id, cat, CategorySource::Ai, false, confidence(0.9), NOW).unwrap();
    store
        .create_transfer(from.id, to.id, TransferSource::Auto, false, confidence(0.8), NOW)
        .unwrap();
    let mut s = Session::new(store);

    let views = [
        (Tab::Transactions, TodoSubTab::Uncategorised, true, None),
        (Tab::Todo, TodoSubTab::AiReview, true, Some(BulkAction::ConfirmCategories)),
        (Tab::Todo, TodoSubTab::TransferReview, false, Some(BulkAction::ConfirmTransfers)),
        (Tab::Categories, TodoSubTab::Uncategorised, false, None),
        (Tab::Filters, TodoSubTab::Uncategorised, false, None),
    ];
    for (tab, subtab, categorises, accepts) in views {
        s.app.current_tab = tab;
        s.app.todo_subtab = subtab;
        s.act(|app| app.reload_current_tab());
        let hints = footer_hints(&s.app);
        assert_eq!(hints.contains(&("C", "categorise matching")), categorises);
        assert_eq!(hints.contains(&("A", "accept matching")), accepts.is_some());

        s.type_keys("C");
        if categorises {
            assert_eq!(s.app.input_mode, InputMode::Category);
            assert_eq!(s.app.category_target, CategoryTarget::MatchingTransactions);
            s.press(KeyEvent::plain(KeyCode::Esc));
        }
        assert_eq!(s.app.input_mode, InputMode::Normal);

        s.type_keys("A");
        match accepts {
            Some(action) => {
                assert_eq!(s.app.input_mode, InputMode::BulkApply);
                let opened = &s.app.bulk_apply.as_ref().unwrap().action;
                assert_eq!(format!("{opened:?}"), format!("{action:?}"));
                s.press(KeyEvent::plain(KeyCode::Esc));
            }
            None => assert!(s.app.bulk_apply.is_none()),
        }
        assert_eq!(s.app.input_mode, InputMode::Normal);
    }
}

#[test]
fn a_session_opens_on_the_rows_of_the_store() {
    let store = store_with_transactions(&[fixture("Coffee", -450), fixture("Lunch", -1200)]);
    let app = open_app(&store, true);
    assert_eq!(app.active_job, Some(BackgroundJob::Refresh));
    assert_eq!(app.input_mode, InputMode::Normal);
    assert!(!app.should_quit);
    assert_eq!(app.lists.uncategorised.len(), 2);
    assert!(app.error_message.is_none());

    let app = open_app(&store, false);
    assert!(app.active_job.is_none());
}

#[test]
fn there_are_no_preview_rows_before_a_preview() {
    let s = Session::new(store_with_transactions(&[fixture("Coffee", -450)]));
    assert!(s.app.apply_filters_preview_rows().is_empty());
    assert!(s.app.filter_edit_preview().is_empty());
}

#[test]
fn an_account_is_renamed_deleted_and_looked_into_from_its_tab() {
    let (store, a1, _a2) = store_with_two_accounts();
    let mut s = Session::new(store);
    s.app.current_tab = Tab::Accounts;
    s.act(|app| app.reload_current_tab());
    assert_eq!(s.app.selected_account().map(|a| a.id), Some(a1));

    s.act(|app| app.toggle_account_transactions());
    assert!(s.app.show_account_transactions);
    s.act(|app| app.toggle_account_transactions());
    assert!(!s.app.show_account_transactions);
    assert!(s.app.account_transactions.is_empty());

    s.act(|app| app.start_account_rename());
    assert_eq!(s.app.input_mode, InputMode::TextPrompt);
    s.type_keys("x");
    s.press(KeyEvent::plain(KeyCode::Enter));
    assert_eq!(s.app.input_mode, InputMode::Normal);
    assert!(s.store.get_account_with_bank(a1).unwrap().name.ends_with('x'));

    s.act(|app| app.start_account_delete());
    assert_eq!(s.app.input_mode, InputMode::Confirm);
    let message = s.app.confirm_message.clone().unwrap();
    assert!(message.contains("(kept in history)"));
    s.type_keys("y");
    assert!(s.store.get_account_with_bank(a1).is_none());
    assert_eq!(s.app.input_mode, InputMode::Normal);

    s.act(|app| app.manage_account_transactions());
    assert_eq!(s.app.current_tab, Tab::Transactions);
    assert!(s.app.db_search_value().starts_with("account:"));
    assert!(s.app.db_search_active());
}

#[test]
fn deleting_a_category_says_what_loses_it() {
    let (mut store, coffee, category) = categorised_coffee();
    let filter = store.create_filter("Cafes", "coffee", NOW).unwrap();
    store.set_filter_category(filter, Some(category));
    let mut s = Session::new(store);
    s.app.current_tab = Tab::Categories;
    s.act(|app| app.reload_current_tab());
    s.act(|app| app.start_category_delete());
    let message = s.app.confirm_message.clone().unwrap();
    let tail = "1 transaction will be left without a category \
                and 1 filter will lose their category.";
    assert!(message.ends_with(tail), "{message}");
    s.type_keys("y");
    assert!(category_of(&s, coffee.id).is_none());
    assert!(s.store.list_filters()[0].category_id.is_none());
}

#[test]
fn the_sum_row_is_toggled() {
    let mut s = Session::new(store_with_transactions(&[]));
    s.app.toggle_sum();
    assert!(s.app.show_sum);
    s.app.toggle_sum();
    assert!(!s.app.show_sum);
}
