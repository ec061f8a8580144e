//! Category actions: the category-assignment popup, AI-review confirmation,
//! bulk apply, and rename/merge on the Categories tab.

use std::collections::HashMap;

use vstd::prelude::*;
use vstd::std_specs::hash::*;
use vstd::string::*;

use super::caches::{loaded, lookup, shown_after};
use super::confirm::popup_cleared;
use super::tabs::{Tab, TodoSubTab};
use super::tasks::{categories, refresh, refresh_tasks, Task};
use super::{
    after, before, failure, failure_message, next_wrapping, prev_wrapping, says, scheduled, App,
    BulkAction, BulkApplyState, BulkItem, BulkRow, CategoryTarget, ConfirmAction, InputMode,
};
use crate::find::find_first;
use crate::model::{Category, Filter, Timestamp, Transaction, Transfer};
use crate::text::{lemma_lex_total, lemma_lex_transitive, lex_le, lex_leq, same, trim, trimmed};

verus! {

broadcast use group_hash_axioms;

/// Most similar transactions offered at once.
pub const BULK_APPLY_MATCH_LIMIT: usize = 200;

/// The last character of the input goes.
pub open spec fn popped(s: Seq<char>) -> Seq<char> {
    if s.len() > 0 {
        s.drop_last()
    } else {
        s
    }
}

/// The suggestions for an input: what was found, and the typed text itself
/// where none of those is it — so that a value that fuzzy-matches existing
/// paths can still be committed verbatim.
pub open spec fn suggestions_for(
    input: Seq<char>,
    found: Seq<Category>,
    shown: Seq<Category>,
    now: Timestamp,
) -> bool {
    let typed = trimmed(input);
    if typed.len() == 0 || exists|i: int| 0 <= i < found.len() && (#[trigger] found[i]).path@
        == typed {
        shown == found
    } else {
        &&& shown.len() == found.len() + 1
        &&& shown.drop_last() == found
        &&& shown.last().id == 0
        &&& shown.last().path@ == typed
        &&& shown.last().created_at == now
    }
}

impl App {
    // ==================== Category Popup ====================

    /// The popup is open on `target`, with the input and its suggestions to
    /// come.
    pub open spec fn popup_opened(
        self,
        target: CategoryTarget,
        input: Seq<char>,
        next: App,
    ) -> bool {
        &&& next.category_input@ == input
        &&& next.category_suggestions@.len() == 0
        &&& next == (App {
            input_mode: InputMode::Category,
            category_target: target,
            category_input: next.category_input,
            category_suggestions: next.category_suggestions,
            category_selected: 0,
            agenda: next.agenda,
            ..self
        })
        &&& scheduled(self, next, seq![Task::LoadSuggestions])
    }

    /// The filter the category popup assigns to: the one under edit, or on the
    /// Filters tab the one under the cursor.
    pub open spec fn popup_filter(self) -> Option<Filter> {
        if self.input_mode == InputMode::FilterEdit || self.current_tab == Tab::Filters {
            self.chosen_filter()
        } else {
            None
        }
    }

    /// The path of a filter's category; empty without one.
    pub open spec fn filter_path(self, filter: Filter) -> Seq<char> {
        match filter.category_id {
            Some(id) => match self.path_of(id) {
                Some(path) => path,
                None => Seq::empty(),
            },
            None => Seq::empty(),
        }
    }

    fn open_category_popup(&mut self, target: CategoryTarget, input: String)
        ensures
            old(self).popup_opened(target, input@, *final(self)),
    {
        self.input_mode = InputMode::Category;
        self.category_target = target;
        self.category_input = input;
        self.category_suggestions = Vec::new();
        self.category_selected = 0;
        self.schedule_one(Task::LoadSuggestions);
    }

    /// The state after [`Self::start_category_edit`].
    pub open spec fn start_category_edit_leads_to(self, next: App) -> bool {
        match self.popup_filter() {
            Some(filter) => self.popup_opened(
                CategoryTarget::Filter(filter.id),
                self.filter_path(filter),
                next,
            ),
            None => if self.current_tab != Tab::Filters && self.selected_tx() is Some {
                self.popup_opened(
                    CategoryTarget::Transaction,
                    Seq::empty(),
                    next,
                )
            } else {
                next == self
            },
        }
    }

    /// Open the category popup for the filter or the transaction at hand.
    pub fn start_category_edit(&mut self)
        ensures
            old(self).start_category_edit_leads_to(*final(self)),
    {
        let mut opening: Option<(i64, String)> = None;
        if self.input_mode == InputMode::FilterEdit || self.current_tab == Tab::Filters {
            if let Some(filter) = self.selected_filter() {
                let input = match filter.category_id {
                    Some(id) => match self.category_path(id) {
                        Some(path) => path.clone(),
                        None => String::new(),
                    },
                    None => String::new(),
                };
                assert(input@ =~= self.filter_path(*filter));
                opening = Some((filter.id, input));
            }
        }
        match opening {
            Some((id, input)) => self.open_category_popup(CategoryTarget::Filter(id), input),
            None => if self.current_tab != Tab::Filters && self.selected_transaction().is_some() {
                self.open_category_popup(CategoryTarget::Transaction, String::new());
            },
        }
    }

    /// The tabs whose rows are categorised, with a transaction at hand.
    pub open spec fn can_categorise_matching(self) -> bool {
        self.selected_tx() is Some && (self.current_tab == Tab::Transactions || (self.current_tab
            == Tab::Todo && self.todo_subtab == TodoSubTab::AiReview))
    }

    pub(crate) fn categorises_matching(&self) -> (yes: bool)
        ensures
            yes == self.can_categorise_matching(),
    {
        self.selected_transaction().is_some() && (self.current_tab == Tab::Transactions || (
        self.current_tab == Tab::Todo && self.todo_subtab == TodoSubTab::AiReview))
    }

    /// The state after [`Self::start_bulk_categorise_matching`].
    pub open spec fn start_bulk_categorise_matching_leads_to(self, next: App) -> bool {
        if self.can_categorise_matching() {
            self.popup_opened(CategoryTarget::MatchingTransactions, Seq::empty(), next)
        } else {
            next == self
        }
    }

    /// Open the category popup for every transaction matching the current
    /// search, on the tabs whose rows are categorised.
    pub fn start_bulk_categorise_matching(&mut self)
        ensures
            old(self).start_bulk_categorise_matching_leads_to(*final(self)),
    {
        if self.categorises_matching() {
            self.open_category_popup(CategoryTarget::MatchingTransactions, String::new());
        }
    }

    /// The state after [`Self::update_category_input`].
    pub open spec fn update_category_input_leads_to(self, c: char, next: App) -> bool {
        &&& next == (App {
            category_input: next.category_input,
            agenda: next.agenda,
            ..self
        })
        &&& next.category_input@ == self.category_input@.push(c)
        &&& scheduled(self, next, seq![Task::LoadSuggestions])
    }

    pub fn update_category_input(&mut self, c: char)
        ensures
            old(self).update_category_input_leads_to(c, *final(self)),
    {
        let mut input = self.category_input.clone();
        input.push(c);
        self.category_input = input;
        self.schedule_one(Task::LoadSuggestions);
    }

    /// The state after [`Self::backspace_category_input`].
    pub open spec fn backspace_category_input_leads_to(self, next: App) -> bool {
        &&& next == (App {
            category_input: next.category_input,
            agenda: next.agenda,
            ..self
        })
        &&& next.category_input@ == popped(self.category_input@)
        &&& scheduled(self, next, seq![Task::LoadSuggestions])
    }

    pub fn backspace_category_input(&mut self)
        ensures
            old(self).backspace_category_input_leads_to(*final(self)),
    {
        let n: usize = self.category_input.as_str().unicode_len();
        if n > 0 {
            let shorter = self.category_input.as_str().substring_char(0, n - 1).to_owned();
            assert(shorter@ =~= self.category_input@.drop_last());
            self.category_input = shorter;
        }
        self.schedule_one(Task::LoadSuggestions);
    }

    /// The state after [`Self::on_suggestions`].
    pub open spec fn on_suggestions_leads_to(
        self,
        result: Result<Vec<Category>, String>,
        now: Timestamp,
        next: App,
    ) -> bool {
        &&& next == (App {
            category_suggestions: next.category_suggestions,
            category_selected: 0,
            error_message: next.error_message,
            ..self
        })
        &&& suggestions_for(
            self.category_input@,
            loaded(result),
            next.category_suggestions@,
            now,
        )
        &&& shown_after(
            self.error_message,
            next.error_message,
            if self.category_input@.len() == 0 {
                "load categories"@
            } else {
                "search categories"@
            },
            result,
        )
    }

    /// The categories for the popup's input: all of them while it is empty,
    /// else those found for it.
    pub fn on_suggestions(&mut self, result: Result<Vec<Category>, String>, now: Timestamp)
        ensures
            old(self).on_suggestions_leads_to(result, now, *final(self)),
    {
        let what = if self.category_input.as_str().is_empty() {
            "load categories"
        } else {
            "search categories"
        };
        let mut found = self.load_or_show(what, result);
        let ghost all = found@;
        let typed = trim(&self.category_input);
        if !typed.is_empty() {
            let is_typed = |c: &Category| -> (b: bool)
                ensures
                    b == (c.path@ == typed@),
            { same(&c.path, typed) };
            let ghost wanted = |c: Category| c.path@ == typed@;
            proof {
                crate::find::lemma_first_index(found@, wanted);
            }
            if find_first(&found, is_typed, Ghost(wanted)).is_none() {
                found.push(Category { id: 0, path: typed.to_owned(), created_at: now });
                assert(found@.drop_last() =~= all);
            }
        }
        self.category_suggestions = found;
        self.category_selected = 0;
    }

    /// The state after [`Self::category_next`].
    pub open spec fn category_next_leads_to(self, next: App) -> bool {
        &&& next == (App {
            category_selected: next.category_selected,
            ..self
        })
        &&& next.category_selected == after(
            self.category_selected as int,
            self.category_suggestions@.len() as int,
        )
    }

    pub fn category_next(&mut self)
        ensures
            old(self).category_next_leads_to(*final(self)),
    {
        self.category_selected = next_wrapping(
            self.category_selected,
            self.category_suggestions.len(),
        );
    }

    /// The state after [`Self::category_previous`].
    pub open spec fn category_previous_leads_to(self, next: App) -> bool {
        &&& next == (App {
            category_selected: next.category_selected,
            ..self
        })
        &&& next.category_selected == before(
            self.category_selected as int,
            self.category_suggestions@.len() as int,
        )
    }

    pub fn category_previous(&mut self)
        ensures
            old(self).category_previous_leads_to(*final(self)),
    {
        self.category_selected = prev_wrapping(
            self.category_selected,
            self.category_suggestions.len(),
        );
    }

    /// The path the popup stands for: the highlighted suggestion, or without
    /// suggestions the input.
    pub open spec fn chosen_path(self) -> Option<String> {
        if self.category_suggestions@.len() > 0 {
            if self.category_selected < self.category_suggestions@.len() {
                Some(self.category_suggestions@[self.category_selected as int].path)
            } else {
                None
            }
        } else if self.category_input@.len() > 0 {
            Some(self.category_input)
        } else {
            None
        }
    }

    pub(crate) fn selected_category_path(&self) -> (path: Option<String>)
        ensures
            path == self.chosen_path(),
    {
        if self.category_suggestions.len() > 0 {
            if self.category_selected < self.category_suggestions.len() {
                Some(self.category_suggestions[self.category_selected].path.clone())
            } else {
                None
            }
        } else if !self.category_input.as_str().is_empty() {
            Some(self.category_input.clone())
        } else {
            None
        }
    }

    /// The state after confirming a category for the transaction under the
    /// cursor. A transaction is either a transfer or categorised, never both:
    /// categorising one that is part of a transfer breaks the link, so that is
    /// asked first.
    pub open spec fn category_confirmed(self, next: App) -> bool {
        match (self.selected_tx(), self.chosen_path()) {
            (None, _) => next == self,
            (Some(_), None) => self.cancelled(next),
            (Some(tx), Some(path)) => match lookup(self.transfer_by_tx_id@, tx.id) {
                Some(transfer) => {
                    &&& popup_cleared(next)
                    &&& says(
                        next.confirm_message,
                        "This transaction is part of a transfer. Categorising it will unlink the transfer. Continue?"@,
                    )
                    &&& next == (App {
                        category_input: next.category_input,
                        category_suggestions: next.category_suggestions,
                        category_selected: 0,
                        category_target: CategoryTarget::Transaction,
                        confirm_message: next.confirm_message,
                        confirm_action: Some(
                            ConfirmAction::BreakTransferForCategory {
                                transfer_id: transfer.id,
                                tx,
                                category_path: path,
                            },
                        ),
                        input_mode: InputMode::Confirm,
                        ..self
                    })
                },
                None => {
                    &&& next == (App { agenda: next.agenda, ..self })
                    &&& scheduled(self, next, seq![Task::SetCategory { tx, category_path: path }])
                },
            },
        }
    }

    fn confirm_transaction_category(&mut self)
        ensures
            old(self).category_confirmed(*final(self)),
    {
        let tx = match self.selected_transaction() {
            Some(tx) => tx.clone(),
            None => return,
        };
        let category_path = match self.selected_category_path() {
            Some(path) => path,
            None => {
                self.cancel_input();
                return;
            },
        };
        let linked = match self.get_cached_transfer(tx.id) {
            Some(t) => Some(t.id),
            None => None,
        };
        match linked {
            Some(transfer_id) => {
                self.clear_category_popup();
                self.confirm(
                    "This transaction is part of a transfer. Categorising it will unlink the transfer. Continue?".to_owned(),
                    ConfirmAction::BreakTransferForCategory { transfer_id, tx, category_path },
                );
            },
            None => self.apply_category(tx, category_path),
        }
    }

    /// Persist a manual category for `tx`. Assumes any transfer conflict has
    /// been resolved.
    pub fn apply_category(&mut self, tx: Transaction, category_path: String)
        ensures
            *final(self) == (App { agenda: final(self).agenda, ..*old(self) }),
            scheduled(*old(self), *final(self), seq![Task::SetCategory { tx, category_path }]),
    {
        self.schedule_one(Task::SetCategory { tx, category_path });
    }

    /// The state after [`Self::on_unlinked_for_category`].
    pub open spec fn on_unlinked_for_category_leads_to(
        self,
        tx: Transaction,
        category_path: String,
        result: Result<(), String>,
        next: App,
    ) -> bool {
        match result {
            Ok(_) => next == (App { agenda: next.agenda, ..self })
                && scheduled(
                self,
                next,
                seq![Task::SetCategory { tx, category_path }],
            ),
            Err(e) => next == (App {
                error_message: next.error_message,
                ..self
            }) && says(next.error_message, failure("unlink transfer"@, e@)),
        }
    }

    /// Outcome of unlinking a transfer so that one of its sides can be
    /// categorised.
    pub fn on_unlinked_for_category(
        &mut self,
        tx: Transaction,
        category_path: String,
        result: Result<(), String>,
    )
        ensures
            old(self).on_unlinked_for_category_leads_to(tx, category_path, result, *final(self)),
    {
        match result {
            Ok(_) => self.apply_category(tx, category_path),
            Err(e) => {
                self.error_message = Some(failure_message("unlink transfer", &e));
            },
        }
    }

    /// The state after [`Self::on_category_set`].
    pub open spec fn on_category_set_leads_to(
        self,
        tx: Transaction,
        category_path: String,
        result: Result<(), String>,
        next: App,
    ) -> bool {
        match result {
            Ok(_) => next == (App {
                similarity_stale: true,
                agenda: next.agenda,
                ..self
            }) && scheduled(
                self,
                next,
                refresh_tasks() + seq![
                    Task::CancelInput,
                    Task::OfferSimilar { tx, category_path },
                ],
            ),
            Err(e) => next == (App {
                error_message: next.error_message,
                ..self
            }) && says(next.error_message, failure("set category"@, e@)),
        }
    }

    /// Outcome of categorising a transaction: reload, close the popup, then
    /// offer the same category for similar transactions.
    pub fn on_category_set(
        &mut self,
        tx: Transaction,
        category_path: String,
        result: Result<(), String>,
    )
        ensures
            old(self).on_category_set_leads_to(tx, category_path, result, *final(self)),
    {
        match result {
            Ok(_) => {
                let mut tasks = refresh();
                tasks.push(Task::CancelInput);
                tasks.push(Task::OfferSimilar { tx, category_path });
                assert(tasks@ =~= refresh_tasks() + seq![
                    Task::CancelInput,
                    Task::OfferSimilar { tx, category_path },
                ]);
                self.similarity_stale = true;
                self.schedule(tasks);
            },
            Err(e) => {
                self.error_message = Some(failure_message("set category", &e));
            },
        }
    }

    // ==================== AI review ====================

    /// The transaction under review.
    pub open spec fn reviewed_tx(self) -> Option<i64> {
        let rows = self.lists.ai_reviews.rows();
        if self.current_tab == Tab::Todo && self.todo_subtab == TodoSubTab::AiReview
            && self.selected_index < rows.len() {
            Some(rows[self.selected_index as int].transaction.id)
        } else {
            None
        }
    }

    pub(crate) fn review_id(&self) -> (id: Option<i64>)
        ensures
            id == self.reviewed_tx(),
    {
        if self.current_tab != Tab::Todo || self.todo_subtab != TodoSubTab::AiReview {
            return None;
        }
        match self.lists.ai_reviews.get(self.selected_index) {
            Some(r) => Some(r.transaction.id),
            None => None,
        }
    }

    /// The state after [`Self::confirm_ai_category`].
    pub open spec fn confirm_ai_category_leads_to(self, next: App) -> bool {
        match self.reviewed_tx() {
            Some(tx_id) => next == (App { agenda: next.agenda, ..self })
                && scheduled(self, next, seq![Task::ConfirmCategory { tx_id }]),
            None => next == self,
        }
    }

    pub fn confirm_ai_category(&mut self)
        ensures
            old(self).confirm_ai_category_leads_to(*final(self)),
    {
        if let Some(tx_id) = self.review_id() {
            self.schedule_one(Task::ConfirmCategory { tx_id });
        }
    }

    /// The state after [`Self::remove_ai_category`].
    pub open spec fn remove_ai_category_leads_to(self, next: App) -> bool {
        match self.reviewed_tx() {
            Some(tx_id) => next == (App { agenda: next.agenda, ..self })
                && scheduled(self, next, seq![Task::RemoveCategory { tx_id }]),
            None => next == self,
        }
    }

    /// Remove the category from the selected AI-review transaction, dropping
    /// it back to uncategorised.
    pub fn remove_ai_category(&mut self)
        ensures
            old(self).remove_ai_category_leads_to(*final(self)),
    {
        if let Some(tx_id) = self.review_id() {
            self.schedule_one(Task::RemoveCategory { tx_id });
        }
    }
}

// ==================== Bulk apply ====================

/// The matches whose transactions are known, with their scores.
pub open spec fn known_matches(
    matches: Seq<(i64, u32)>,
    candidates: Map<i64, Transaction>,
) -> Seq<(Transaction, u32)>
    decreases matches.len(),
{
    if matches.len() == 0 {
        Seq::empty()
    } else {
        let rest = known_matches(matches.drop_last(), candidates);
        let (id, score) = matches.last();
        if candidates.contains_key(id) {
            rest.push((candidates[id], score))
        } else {
            rest
        }
    }
}

/// Higher scores first; equal scores newest first.
pub open spec fn offered_before(a: (Transaction, u32), b: (Transaction, u32)) -> bool {
    a.1 > b.1 || (a.1 == b.1 && lex_le(b.0.date@, a.0.date@))
}

pub open spec fn in_offer_order(rows: Seq<(Transaction, u32)>) -> bool {
    forall|i: int, j: int|
        0 <= i < j < rows.len() ==> offered_before(#[trigger] rows[i], #[trigger] rows[j])
}

/// The rows of the popup, all ticked.
pub open spec fn ticked(rows: Seq<(Transaction, u32)>) -> Seq<BulkRow> {
    rows.map_values(
        |r: (Transaction, u32)|
            BulkRow {
                selected: true,
                item: BulkItem::Transaction { tx: r.0, score: Some(r.1) },
            },
    )
}

proof fn lemma_offer_transitive(
    a: (Transaction, u32),
    b: (Transaction, u32),
    c: (Transaction, u32),
)
    requires
        offered_before(a, b),
        offered_before(b, c),
    ensures
        offered_before(a, c),
{
    if a.1 == b.1 && b.1 == c.1 {
        lemma_lex_transitive(c.0.date@, b.0.date@, a.0.date@);
    }
}

fn insert_offer(rows: &mut Vec<(Transaction, u32)>, tx: Transaction, score: u32)
    requires
        in_offer_order(old(rows)@),
    ensures
        in_offer_order(final(rows)@),
        final(rows)@.to_multiset() == old(rows)@.to_multiset().insert((tx, score)),
{
    let ghost earlier = rows@;
    let ghost item = (tx, score);
    let mut at: usize = 0;
    while at < rows.len() && (rows[at].1 > score || (rows[at].1 == score && lex_leq(
        &tx.date,
        &rows[at].0.date,
    )))
        invariant
            at <= rows@.len(),
            earlier == rows@,
            item == (tx, score),
            forall|j: int| 0 <= j < at ==> offered_before(#[trigger] earlier[j], item),
        decreases rows@.len() - at,
    {
        at += 1;
    }
    proof {
        if at < rows@.len() {
            lemma_lex_total(earlier[at as int].0.date@, item.0.date@);
            assert(offered_before(item, earlier[at as int]));
            assert forall|j: int| at <= j < earlier.len() implies offered_before(
                item,
                #[trigger] earlier[j],
            ) by {
                if j > at {
                    lemma_offer_transitive(item, earlier[at as int], earlier[j]);
                }
            }
        }
    }
    rows.insert(at, (tx, score));
    proof {
        assert(rows@ =~= earlier.insert(at as int, item));
        vstd::seq_lib::to_multiset_insert(earlier, at as int, item);
    }
}

/// The known matches among the first [`BULK_APPLY_MATCH_LIMIT`], in the order
/// they are offered.
fn rank_offers(matches: &Vec<(i64, u32)>, candidates: &HashMap<i64, Transaction>) -> (rows: Vec<
    (Transaction, u32),
>)
    ensures
        in_offer_order(rows@),
        rows@.to_multiset() == known_matches(first_matches(matches@), candidates@).to_multiset(),
{
    let mut rows: Vec<(Transaction, u32)> = Vec::new();
    let n: usize = if matches.len() < BULK_APPLY_MATCH_LIMIT {
        matches.len()
    } else {
        BULK_APPLY_MATCH_LIMIT
    };
    let mut i: usize = 0;
    assert(matches@.take(0) =~= Seq::empty());
    assert(rows@ =~= known_matches(matches@.take(0), candidates@));
    while i < n
        invariant
            i <= n <= matches@.len(),
            in_offer_order(rows@),
            rows@.to_multiset() == known_matches(
                matches@.take(i as int),
                candidates@,
            ).to_multiset(),
        decreases n - i,
    {
        proof {
            let next = matches@.take(i + 1);
            assert(next.drop_last() =~= matches@.take(i as int));
            assert(next.last() == matches@[i as int]);
            known_matches(matches@.take(i as int), candidates@).to_multiset_ensures();
        }
        if let Some(tx) = candidates.get(&matches[i].0) {
            insert_offer(&mut rows, tx.clone(), matches[i].1);
        }
        i += 1;
    }
    rows
}

/// As many matches as are offered at once.
pub open spec fn first_matches(matches: Seq<(i64, u32)>) -> Seq<(i64, u32)> {
    if matches.len() < BULK_APPLY_MATCH_LIMIT {
        matches.take(matches.len() as int)
    } else {
        matches.take(BULK_APPLY_MATCH_LIMIT as int)
    }
}

/// The ids of the ticked rows, in order.
pub open spec fn ticked_ids(rows: Seq<BulkRow>) -> Seq<i64>
    decreases rows.len(),
{
    if rows.len() == 0 {
        Seq::empty()
    } else {
        let rest = ticked_ids(rows.drop_last());
        if rows.last().selected {
            rest.push(rows.last().target())
        } else {
            rest
        }
    }
}

/// The transactions that are no side of a transfer.
pub open spec fn unlinked(
    rows: Seq<Transaction>,
    transfers: Map<i64, Transfer>,
) -> Seq<Transaction> {
    rows.filter(|tx: Transaction| !transfers.contains_key(tx.id))
}

/// Rows for transactions without a score, all ticked.
pub open spec fn plain_rows(rows: Seq<Transaction>) -> Seq<BulkRow> {
    rows.map_values(
        |tx: Transaction|
            BulkRow { selected: true, item: BulkItem::Transaction { tx, score: None } },
    )
}

/// Rows for transfers, all ticked.
pub open spec fn transfer_rows(rows: Seq<Transfer>) -> Seq<BulkRow> {
    rows.map_values(|t: Transfer| BulkRow { selected: true, item: BulkItem::Transfer(t) })
}

impl App {
    /// The bulk-apply popup is open on the rows, with the cursor on the first.
    pub open spec fn bulk_opened(self, action: BulkAction, rows: Seq<BulkRow>, next: App) -> bool {
        &&& next.bulk_apply matches Some(state)
        &&& state.action == action
        &&& state.rows@ == rows
        &&& state.cursor == 0
        &&& next == (App {
            bulk_apply: next.bulk_apply,
            input_mode: InputMode::BulkApply,
            ..self
        })
    }

    /// The state after [`Self::open_bulk_apply_for`].
    pub open spec fn open_bulk_apply_for_leads_to(
        self,
        category_path: String,
        matches: &Vec<(i64, u32)>,
        candidates: &HashMap<i64, Transaction>,
        next: App,
    ) -> bool {
        ({
            let known = known_matches(first_matches(matches@), candidates@);
            if known.len() == 0 {
                next == self
            } else {
                exists|rows: Seq<(Transaction, u32)>|
                    #[trigger] in_offer_order(rows) && rows.to_multiset()
                        == known.to_multiset() && self.bulk_opened(
                        BulkAction::ApplyCategory { category_path },
                        ticked(rows),
                        next,
                    )
            }
        })
    }

    /// Offer a category for similar transactions: `matches` names them with
    /// their scores, `candidates` holds those that may be recategorised.
    /// Nothing happens where none is left.
    pub fn open_bulk_apply_for(
        &mut self,
        category_path: String,
        matches: &Vec<(i64, u32)>,
        candidates: &HashMap<i64, Transaction>,
    )
        ensures
            old(self).open_bulk_apply_for_leads_to(
                category_path,
                matches,
                candidates,
                *final(self),
            ),
    {
        let offers = rank_offers(matches, candidates);
        let ghost known = known_matches(first_matches(matches@), candidates@);
        proof {
            offers@.to_multiset_ensures();
            known.to_multiset_ensures();
            assert(offers@.len() == known.len());
        }
        if offers.len() == 0 {
            return;
        }
        let mut rows: Vec<BulkRow> = Vec::new();
        let mut i: usize = 0;
        while i < offers.len()
            invariant
                i <= offers@.len(),
                rows@ == ticked(offers@).take(i as int),
            decreases offers@.len() - i,
        {
            rows.push(
                BulkRow {
                    selected: true,
                    item: BulkItem::Transaction {
                        tx: offers[i].0.clone(),
                        score: Some(offers[i].1),
                    },
                },
            );
            assert(rows@ =~= ticked(offers@).take(i + 1));
            i += 1;
        }
        assert(ticked(offers@).take(i as int) =~= ticked(offers@));
        self.bulk_apply = Some(
            BulkApplyState { action: BulkAction::ApplyCategory { category_path }, rows, cursor: 0 },
        );
        self.input_mode = InputMode::BulkApply;
    }

    /// The transactions on screen that a category can be applied to in bulk:
    /// those of the current tab that are no side of a transfer.
    pub open spec fn bulk_candidates(self) -> Seq<Transaction> {
        unlinked(super::tabs::row_transactions(self.lists, self.key()), self.transfer_by_tx_id@)
    }

    /// The state after confirming a category for every matching transaction.
    pub open spec fn matching_confirmed(self, next: App) -> bool {
        match self.chosen_path() {
            None => self.cancelled(next),
            Some(path) => if self.bulk_candidates().len() == 0 {
                self.cancelled(next)
            } else {
                &&& popup_cleared(next)
                &&& next.bulk_apply matches Some(state)
                &&& state.action == (BulkAction::ApplyCategory { category_path: path })
                &&& state.rows@ == plain_rows(self.bulk_candidates())
                &&& state.cursor == 0
                &&& next == (App {
                    category_input: next.category_input,
                    category_suggestions: next.category_suggestions,
                    category_selected: 0,
                    category_target: CategoryTarget::Transaction,
                    bulk_apply: next.bulk_apply,
                    input_mode: InputMode::BulkApply,
                    ..self
                })
            },
        }
    }

    fn matching_rows(&self) -> (rows: Vec<BulkRow>)
        ensures
            rows@ == plain_rows(self.bulk_candidates()),
    {
        let key = self.current_tab_key();
        let ghost all = super::tabs::row_transactions(self.lists, self.key());
        let ghost keep = |tx: Transaction| !self.transfer_by_tx_id@.contains_key(tx.id);
        let mut rows: Vec<BulkRow> = Vec::new();
        let mut i: usize = 0;
        reveal(Seq::filter);
        assert(rows@ =~= plain_rows(all.take(0).filter(keep)));
        let n: usize = self.lists.transaction_rows(key);
        while i < n
            invariant
                i <= n,
                n == all.len(),
                key == self.key(),
                all == super::tabs::row_transactions(self.lists, self.key()),
                keep == (|tx: Transaction| !self.transfer_by_tx_id@.contains_key(tx.id)),
                rows@ == plain_rows(all.take(i as int).filter(keep)),
            ensures
                i == n,
            decreases n - i,
        {
            let tx = match self.lists.transaction_at(key, i) {
                Some(tx) => tx,
                None => break,
            };
            proof {
                reveal(Seq::filter);
                assert(all.take(i + 1).drop_last() =~= all.take(i as int));
                assert(all.take(i + 1).last() == all[i as int]);
            }
            if !self.transfer_by_tx_id.contains_key(&tx.id) {
                let ghost kept = all.take(i as int).filter(keep);
                rows.push(
                    BulkRow {
                        selected: true,
                        item: BulkItem::Transaction { tx: tx.clone(), score: None },
                    },
                );
                assert(rows@ =~= plain_rows(kept.push(*tx)));
            }
            i += 1;
        }
        assert(all.take(i as int) =~= all);
        rows
    }

    fn confirm_matching_category(&mut self)
        ensures
            old(self).matching_confirmed(*final(self)),
    {
        let category_path = match self.selected_category_path() {
            Some(path) => path,
            None => {
                self.cancel_input();
                return;
            },
        };
        let rows = self.matching_rows();
        if rows.len() == 0 {
            self.cancel_input();
            return;
        }
        self.clear_category_popup();
        self.bulk_apply = Some(
            BulkApplyState { action: BulkAction::ApplyCategory { category_path }, rows, cursor: 0 },
        );
        self.input_mode = InputMode::BulkApply;
    }

    /// The state after [`Self::confirm_category`].
    pub open spec fn confirm_category_leads_to(self, next: App) -> bool {
        match self.category_target {
            CategoryTarget::Filter(id) => self.filter_category_confirmed(
                id,
                next,
            ),
            CategoryTarget::MatchingTransactions => self.matching_confirmed(next),
            CategoryTarget::Transaction => self.category_confirmed(next),
        }
    }

    /// Enter in the category popup.
    pub fn confirm_category(&mut self)
        ensures
            old(self).confirm_category_leads_to(*final(self)),
    {
        match self.category_target {
            CategoryTarget::Filter(id) => self.confirm_filter_category(id),
            CategoryTarget::MatchingTransactions => self.confirm_matching_category(),
            CategoryTarget::Transaction => self.confirm_transaction_category(),
        }
    }

    /// The tabs under review, with rows to accept.
    pub open spec fn can_accept_matching(self) -> bool {
        self.current_tab == Tab::Todo && match self.todo_subtab {
            TodoSubTab::AiReview => self.lists.ai_reviews.rows().len() > 0,
            TodoSubTab::TransferReview => self.lists.transfer_reviews.rows().len() > 0,
            TodoSubTab::Uncategorised => false,
        }
    }

    pub(crate) fn accepts_matching(&self) -> (yes: bool)
        ensures
            yes == self.can_accept_matching(),
    {
        self.current_tab == Tab::Todo && match self.todo_subtab {
            TodoSubTab::AiReview => self.lists.ai_reviews.len() > 0,
            TodoSubTab::TransferReview => self.lists.transfer_reviews.len() > 0,
            TodoSubTab::Uncategorised => false,
        }
    }

    /// The state after [`Self::start_accept_matching`].
    pub open spec fn start_accept_matching_leads_to(self, next: App) -> bool {
        if !self.can_accept_matching() {
            next == self
        } else if self.todo_subtab == TodoSubTab::AiReview {
            self.bulk_opened(
                BulkAction::ConfirmCategories,
                plain_rows(super::tabs::row_transactions(self.lists, self.key())),
                next,
            )
        } else {
            self.bulk_opened(
                BulkAction::ConfirmTransfers,
                transfer_rows(self.lists.transfer_reviews.rows()),
                next,
            )
        }
    }

    /// Offer to accept everything under review on the current tab.
    pub fn start_accept_matching(&mut self)
        ensures
            old(self).start_accept_matching_leads_to(*final(self)),
    {
        if self.current_tab != Tab::Todo {
            return;
        }
        match self.todo_subtab {
            TodoSubTab::AiReview => {
                let rows = self.review_rows();
                if rows.len() > 0 {
                    self.bulk_apply = Some(
                        BulkApplyState { action: BulkAction::ConfirmCategories, rows, cursor: 0 },
                    );
                    self.input_mode = InputMode::BulkApply;
                }
            },
            TodoSubTab::TransferReview => {
                let rows = self.transfer_review_rows();
                if rows.len() > 0 {
                    self.bulk_apply = Some(
                        BulkApplyState { action: BulkAction::ConfirmTransfers, rows, cursor: 0 },
                    );
                    self.input_mode = InputMode::BulkApply;
                }
            },
            TodoSubTab::Uncategorised => {},
        }
    }

    fn review_rows(&self) -> (rows: Vec<BulkRow>)
        ensures
            rows@ == plain_rows(super::tabs::row_transactions(self.lists, self.key())),
    {
        let key = self.current_tab_key();
        let ghost all = super::tabs::row_transactions(self.lists, self.key());
        let mut rows: Vec<BulkRow> = Vec::new();
        let mut i: usize = 0;
        let n: usize = self.lists.transaction_rows(key);
        while i < n
            invariant
                i <= n,
                n == all.len(),
                key == self.key(),
                all == super::tabs::row_transactions(self.lists, self.key()),
                rows@ == plain_rows(all).take(i as int),
            ensures
                i == n,
            decreases n - i,
        {
            let tx = match self.lists.transaction_at(key, i) {
                Some(tx) => tx,
                None => break,
            };
            rows.push(
                BulkRow {
                    selected: true,
                    item: BulkItem::Transaction { tx: tx.clone(), score: None },
                },
            );
            assert(rows@ =~= plain_rows(all).take(i + 1));
            i += 1;
        }
        assert(plain_rows(all).take(n as int) =~= plain_rows(all));
        rows
    }

    fn transfer_review_rows(&self) -> (rows: Vec<BulkRow>)
        ensures
            rows@ == transfer_rows(self.lists.transfer_reviews.rows()),
    {
        let transfers = self.lists.transfer_reviews.iter();
        let ghost all = self.lists.transfer_reviews.rows();
        let mut rows: Vec<BulkRow> = Vec::new();
        let mut i: usize = 0;
        while i < transfers.len()
            invariant
                i <= transfers@.len(),
                transfers@.len() == all.len(),
                forall|k: int| 0 <= k < transfers@.len() ==> *#[trigger] transfers@[k] == all[k],
                rows@ == transfer_rows(all).take(i as int),
            decreases transfers@.len() - i,
        {
            rows.push(BulkRow { selected: true, item: BulkItem::Transfer(*transfers[i]) });
            assert(rows@ =~= transfer_rows(all).take(i + 1));
            i += 1;
        }
        assert(transfer_rows(all).take(i as int) =~= transfer_rows(all));
        rows
    }

    /// The popup with other rows or another cursor.
    pub open spec fn bulk_changed(self, next: App, rows: Seq<BulkRow>, cursor: int) -> bool {
        &&& next.bulk_apply matches Some(state)
        &&& self.bulk_apply matches Some(was)
        &&& state.action == was.action
        &&& state.rows@ == rows
        &&& state.cursor == cursor
        &&& next == (App { bulk_apply: next.bulk_apply, ..self })
    }

    /// The state after [`Self::bulk_apply_toggle`].
    pub open spec fn bulk_apply_toggle_leads_to(self, next: App) -> bool {
        match self.bulk_apply {
            Some(state) => self.bulk_changed(
                next,
                if state.cursor < state.rows@.len() {
                    let row = state.rows@[state.cursor as int];
                    state.rows@.update(
                        state.cursor as int,
                        BulkRow { selected: !row.selected, ..row },
                    )
                } else {
                    state.rows@
                },
                state.cursor as int,
            ),
            None => next == self,
        }
    }

    pub fn bulk_apply_toggle(&mut self)
        ensures
            old(self).bulk_apply_toggle_leads_to(*final(self)),
    {
        if let Some(mut state) = self.bulk_apply.take() {
            let cursor: usize = state.cursor;
            if cursor < state.rows.len() {
                let row = &mut state.rows[cursor];
                row.selected = !row.selected;
            }
            self.bulk_apply = Some(state);
        }
    }

    /// The state after [`Self::bulk_apply_toggle_all`].
    pub open spec fn bulk_apply_toggle_all_leads_to(self, next: App) -> bool {
        match self.bulk_apply {
            Some(state) => self.bulk_changed(
                next,
                all_ticked(state.rows@, !every_ticked(state.rows@)),
                state.cursor as int,
            ),
            None => next == self,
        }
    }

    pub fn bulk_apply_toggle_all(&mut self)
        ensures
            old(self).bulk_apply_toggle_all_leads_to(*final(self)),
    {
        if let Some(mut state) = self.bulk_apply.take() {
            let ghost was = state;
            let n: usize = state.rows.len();
            let mut every = true;
            let mut i: usize = 0;
            while i < n
                invariant
                    i <= n,
                    n == state.rows@.len(),
                    state == was,
                    every == forall|j: int| 0 <= j < i ==> (#[trigger] was.rows@[j]).selected,
                decreases n - i,
            {
                if !state.rows[i].selected {
                    every = false;
                }
                i += 1;
            }
            let mut k: usize = 0;
            while k < n
                invariant
                    k <= n,
                    n == was.rows@.len(),
                    state.action == was.action,
                    state.cursor == was.cursor,
                    state.rows@.len() == n,
                    forall|j: int|
                        0 <= j < k ==> #[trigger] state.rows@[j] == (BulkRow {
                            selected: !every,
                            ..was.rows@[j]
                        }),
                    forall|j: int| k <= j < n ==> #[trigger] state.rows@[j] == was.rows@[j],
                decreases n - k,
            {
                let row = &mut state.rows[k];
                row.selected = !every;
                k += 1;
            }
            assert(state.rows@ =~= all_ticked(was.rows@, !every_ticked(was.rows@)));
            self.bulk_apply = Some(state);
        }
    }

    /// The state after [`Self::bulk_apply_next`].
    pub open spec fn bulk_apply_next_leads_to(self, next: App) -> bool {
        match self.bulk_apply {
            Some(state) => self.bulk_changed(
                next,
                state.rows@,
                after(state.cursor as int, state.rows@.len() as int),
            ),
            None => next == self,
        }
    }

    pub fn bulk_apply_next(&mut self)
        ensures
            old(self).bulk_apply_next_leads_to(*final(self)),
    {
        if let Some(mut state) = self.bulk_apply.take() {
            state.cursor = next_wrapping(state.cursor, state.rows.len());
            self.bulk_apply = Some(state);
        }
    }

    /// The state after [`Self::bulk_apply_prev`].
    pub open spec fn bulk_apply_prev_leads_to(self, next: App) -> bool {
        match self.bulk_apply {
            Some(state) => self.bulk_changed(
                next,
                state.rows@,
                before(state.cursor as int, state.rows@.len() as int),
            ),
            None => next == self,
        }
    }

    pub fn bulk_apply_prev(&mut self)
        ensures
            old(self).bulk_apply_prev_leads_to(*final(self)),
    {
        if let Some(mut state) = self.bulk_apply.take() {
            state.cursor = prev_wrapping(state.cursor, state.rows.len());
            self.bulk_apply = Some(state);
        }
    }

    /// The state after [`Self::bulk_apply_confirm`].
    pub open spec fn bulk_apply_confirm_leads_to(self, next: App) -> bool {
        match self.bulk_apply {
            Some(state) => if ticked_ids(state.rows@).len() == 0 {
                next == (App {
                    bulk_apply: None,
                    input_mode: InputMode::Normal,
                    ..self
                })
            } else {
                &&& next == (App { agenda: next.agenda, ..self })
                &&& next.agenda@.len() == self.agenda@.len() + 1
                &&& scheduled(self, next, seq![next.agenda@[0]])
                &&& applies(
                    next.agenda@[0],
                    state.action,
                    ticked_ids(state.rows@),
                )
            },
            None => next == self,
        }
    }

    /// Apply the popup's action to the ticked rows; with none ticked, close it.
    pub fn bulk_apply_confirm(&mut self)
        ensures
            old(self).bulk_apply_confirm_leads_to(*final(self)),
    {
        let (ids, task): (Vec<i64>, Task) = match &self.bulk_apply {
            Some(state) => {
                let ids = ids_of_ticked(&state.rows);
                let copy = ids_of_ticked(&state.rows);
                let task = match &state.action {
                    BulkAction::ApplyCategory { category_path } => Task::BulkCategorise {
                        ids: copy,
                        category_path: category_path.clone(),
                    },
                    BulkAction::ConfirmCategories => Task::BulkConfirmCategories { ids: copy },
                    BulkAction::ConfirmTransfers => Task::BulkConfirmTransfers { ids: copy },
                };
                (ids, task)
            },
            None => return,
        };
        if ids.len() == 0 {
            self.bulk_apply_cancel();
            return;
        }
        self.schedule_one(task);
        assert(self.agenda@[0] == task);
    }

    /// The state after [`Self::on_bulk_applied`].
    pub open spec fn on_bulk_applied_leads_to(
        self,
        action: &BulkAction,
        result: Result<(), String>,
        next: App,
    ) -> bool {
        match result {
            Ok(_) => next == (App {
                bulk_apply: None,
                input_mode: InputMode::Normal,
                similarity_stale: true,
                agenda: next.agenda,
                ..self
            }) && scheduled(self, next, refresh_tasks()),
            Err(e) => next == (App {
                error_message: next.error_message,
                ..self
            }) && says(next.error_message, failure(bulk_label(*action), e@)),
        }
    }

    /// Outcome of applying the popup's action.
    pub fn on_bulk_applied(&mut self, action: &BulkAction, result: Result<(), String>)
        ensures
            old(self).on_bulk_applied_leads_to(action, result, *final(self)),
    {
        match result {
            Ok(_) => {
                self.bulk_apply = None;
                self.input_mode = InputMode::Normal;
                self.refresh_data();
            },
            Err(e) => {
                let what = match action {
                    BulkAction::ApplyCategory { .. } => "apply category",
                    BulkAction::ConfirmCategories => "confirm categories",
                    BulkAction::ConfirmTransfers => "confirm transfers",
                };
                self.error_message = Some(failure_message(what, &e));
            },
        }
    }

    pub fn bulk_apply_cancel(&mut self)
        ensures
            *final(self) == (App {
                bulk_apply: None,
                input_mode: InputMode::Normal,
                ..*old(self)
            }),
    {
        self.bulk_apply = None;
        self.input_mode = InputMode::Normal;
    }
}

/// What a bulk action is called in messages.
pub open spec fn bulk_label(action: BulkAction) -> Seq<char> {
    match action {
        BulkAction::ApplyCategory { .. } => "apply category"@,
        BulkAction::ConfirmCategories => "confirm categories"@,
        BulkAction::ConfirmTransfers => "confirm transfers"@,
    }
}

/// The task applies the action to the ids.
pub open spec fn applies(task: Task, action: BulkAction, ids: Seq<i64>) -> bool {
    match action {
        BulkAction::ApplyCategory { category_path } => task matches Task::BulkCategorise {
            ids: named,
            category_path: path,
        } && named@ == ids && path == category_path,
        BulkAction::ConfirmCategories => task matches Task::BulkConfirmCategories { ids: named }
            && named@ == ids,
        BulkAction::ConfirmTransfers => task matches Task::BulkConfirmTransfers { ids: named }
            && named@ == ids,
    }
}

pub open spec fn every_ticked(rows: Seq<BulkRow>) -> bool {
    forall|j: int| 0 <= j < rows.len() ==> (#[trigger] rows[j]).selected
}

/// The rows, all ticked or all not.
pub open spec fn all_ticked(rows: Seq<BulkRow>, selected: bool) -> Seq<BulkRow> {
    rows.map_values(|r: BulkRow| BulkRow { selected, ..r })
}

fn ids_of_ticked(rows: &Vec<BulkRow>) -> (ids: Vec<i64>)
    ensures
        ids@ == ticked_ids(rows@),
{
    let mut ids: Vec<i64> = Vec::new();
    let mut i: usize = 0;
    assert(rows@.take(0) =~= Seq::empty());
    while i < rows.len()
        invariant
            i <= rows@.len(),
            ids@ == ticked_ids(rows@.take(i as int)),
        decreases rows@.len() - i,
    {
        assert(rows@.take(i + 1).drop_last() =~= rows@.take(i as int));
        if rows[i].selected {
            ids.push(rows[i].target_id());
        }
        i += 1;
    }
    assert(rows@.take(i as int) =~= rows@);
    ids
}

} // verus!
