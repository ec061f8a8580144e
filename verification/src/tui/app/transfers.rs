//! Transfer actions: marking a pair of transactions as a transfer, and
//! confirming/deleting transfer links.


use vstd::prelude::*;
use vstd::std_specs::hash::*;
use vstd::string::*;

use super::caches::{loaded, lookup, shown_after};
use super::tabs::{first_with_id, row_transactions, visible_rows, Tab, TodoSubTab};
use super::tasks::{refresh, refresh_tasks, Task};
use super::{
    failure, failure_message, plural, plural_suffix, says, scheduled, App, ConfirmAction,
    InputMode,
};
use crate::model::{Transaction, Transfer};
use crate::text::{decimal, decimal_string};

verus! {

broadcast use group_hash_axioms;

/// The transfer links the two, either way round.
pub open spec fn links(t: Transfer, from_id: i64, to_id: i64) -> bool {
    ||| t.from_transaction_id == from_id && t.to_transaction_id == to_id
    ||| t.from_transaction_id == to_id && t.to_transaction_id == from_id
}

/// Either of the two is known to be linked to the other.
pub open spec fn already_linked(m: Map<i64, Transfer>, from_id: i64, to_id: i64) -> bool {
    ||| lookup(m, from_id) matches Some(t) && links(t, from_id, to_id)
    ||| lookup(m, to_id) matches Some(t) && links(t, from_id, to_id)
}

/// The transfers the two are part of, by ascending id.
pub open spec fn broken_links(m: Map<i64, Transfer>, from_id: i64, to_id: i64) -> Seq<i64> {
    match (lookup(m, from_id), lookup(m, to_id)) {
        (Some(a), Some(b)) => if a.id == b.id {
            seq![a.id]
        } else if a.id < b.id {
            seq![a.id, b.id]
        } else {
            seq![b.id, a.id]
        },
        (Some(a), None) => seq![a.id],
        (None, Some(b)) => seq![b.id],
        (None, None) => Seq::empty(),
    }
}

/// The side that money left, then the side that it reached.
pub open spec fn directed(from: Transaction, to: Transaction) -> (i64, i64) {
    if from.amount_cents < 0 {
        (from.id, to.id)
    } else {
        (to.id, from.id)
    }
}

/// The question before existing links are broken.
pub open spec fn unlink_question(n: int) -> Seq<char> {
    decimal(n as nat) + " existing transfer"@ + plural(n) + " will be unlinked. Continue?"@
}

fn joins(t: &Transfer, from_id: i64, to_id: i64) -> (yes: bool)
    ensures
        yes == links(*t, from_id, to_id),
{
    (t.from_transaction_id == from_id && t.to_transaction_id == to_id) || (t.from_transaction_id
        == to_id && t.to_transaction_id == from_id)
}

impl App {
    /// The state after [`Self::start_transfer_mark`].
    pub open spec fn start_transfer_mark_leads_to(self, next: App) -> bool {
        match self.selected_tx() {
            Some(tx) => next == (App { agenda: next.agenda, ..self })
                && scheduled(self, next, seq![Task::FindCandidates { tx }]),
            None => next == self,
        }
    }

    /// Look for what the selected transaction could be paired with.
    pub fn start_transfer_mark(&mut self)
        ensures
            old(self).start_transfer_mark_leads_to(*final(self)),
    {
        let tx = match self.selected_transaction() {
            Some(tx) => tx.clone(),
            None => return,
        };
        self.schedule_one(Task::FindCandidates { tx });
    }

    /// The state after [`Self::on_transfer_candidates`].
    pub open spec fn on_transfer_candidates_leads_to(
        self,
        tx: Transaction,
        result: Result<Vec<Transaction>, String>,
        next: App,
    ) -> bool {
        &&& next == (App {
            pending_transfer_tx: Some(tx),
            transfer_candidates: next.transfer_candidates,
            input_mode: if loaded(result).len() == 0 {
                InputMode::TransferNoMatch
            } else {
                InputMode::TransferPending
            },
            selected_index: next.selected_index,
            error_message: next.error_message,
            ..self
        })
        &&& next.transfer_candidates@ == loaded(result)
        &&& shown_after(
            self.error_message,
            next.error_message,
            "find transfer candidates"@,
            result,
        )
        &&& next.selected_index == if loaded(result).len() == 0 {
            self.selected_index
        } else {
            match first_with_id(
                row_transactions(self.lists, self.key()),
                loaded(result)[0].id,
            ) {
                Some(pos) => pos,
                None => self.selected_index,
            }
        }
    }

    /// What the transaction could be paired with: the cursor goes to the first
    /// of them that is on screen.
    pub fn on_transfer_candidates(
        &mut self,
        tx: Transaction,
        result: Result<Vec<Transaction>, String>,
    )
        ensures
            old(self).on_transfer_candidates_leads_to(tx, result, *final(self)),
    {
        let candidates = self.load_or_show("find transfer candidates", result);
        self.pending_transfer_tx = Some(tx);
        if candidates.len() == 0 {
            self.input_mode = InputMode::TransferNoMatch;
            self.transfer_candidates = candidates;
        } else {
            let first_id: i64 = candidates[0].id;
            self.transfer_candidates = candidates;
            self.input_mode = InputMode::TransferPending;
            if let Some(pos) = self.lists.position_of_tx(self.current_tab_key(), first_id) {
                self.selected_index = pos;
            }
        }
    }

    /// The state after linking two transactions. Where they are linked already,
    /// nothing happens; where either is part of another transfer, the user is
    /// asked before that is unlinked.
    #[verifier::opaque]
    pub open spec fn linking(self, from_id: i64, to_id: i64, next: App) -> bool {
        let broken = broken_links(self.transfer_by_tx_id@, from_id, to_id);
        &&& next.transfer_candidates@.len() == 0
        &&& if already_linked(self.transfer_by_tx_id@, from_id, to_id) {
            next == self.without_marking(next.transfer_candidates)
        } else if broken.len() > 0 {
            &&& next == (App {
                confirm_message: next.confirm_message,
                confirm_action: next.confirm_action,
                pending_transfer_tx: None,
                transfer_candidates: next.transfer_candidates,
                input_mode: InputMode::Confirm,
                ..self
            })
            &&& says(next.confirm_message, unlink_question(broken.len() as int))
            &&& next.confirm_action matches Some(
                ConfirmAction::BreakTransfersForTransfer { transfer_ids, from_id: f, to_id: t },
            )
            &&& transfer_ids@ == broken
            &&& (f, t) == (from_id, to_id)
        } else {
            &&& next == (App {
                agenda: next.agenda,
                ..self.without_marking(next.transfer_candidates)
            })
            &&& scheduled(self, next, seq![Task::CreateTransfer { from_id, to_id }])
        }
    }

    /// The state after completing a transfer between the marked transaction and
    /// the selected one.
    pub open spec fn transfer_completed(self, next: App) -> bool {
        match (self.pending_transfer_tx, self.selected_tx()) {
            (None, _) => next == self,
            (Some(_), None) => next == (App { pending_transfer_tx: None, ..self }),
            (Some(from), Some(to)) => if from.amount_cents != -to.amount_cents {
                &&& next.transfer_candidates@.len() == 0
                &&& next == (App {
                    error_message: next.error_message,
                    ..self.without_marking(next.transfer_candidates)
                })
                &&& says(next.error_message, "Amounts don't match"@)
            } else {
                let sides = directed(from, to);
                (App { pending_transfer_tx: None, ..self }).linking(sides.0, sides.1, next)
            },
        }
    }

    pub fn complete_transfer(&mut self)
        ensures
            old(self).transfer_completed(*final(self)),
    {
        let from_tx = match self.pending_transfer_tx.take() {
            Some(tx) => tx,
            None => return,
        };
        let to_tx = match self.selected_transaction() {
            Some(tx) => tx.clone(),
            None => return,
        };
        if from_tx.amount_cents as i128 != -(to_tx.amount_cents as i128) {
            self.error_message = Some("Amounts don't match".to_owned());
            self.clear_transfer_mode();
            return;
        }
        let (from_id, to_id): (i64, i64) = if from_tx.amount_cents < 0 {
            (from_tx.id, to_tx.id)
        } else {
            (to_tx.id, from_tx.id)
        };
        self.link(from_id, to_id);
    }

    /// Whether either transaction is known to be linked to the other.
    fn linked_already(&self, from_id: i64, to_id: i64) -> (yes: bool)
        ensures
            yes == already_linked(self.transfer_by_tx_id@, from_id, to_id),
    {
        if let Some(t) = self.get_cached_transfer(from_id) {
            if joins(t, from_id, to_id) {
                return true;
            }
        }
        if let Some(t) = self.get_cached_transfer(to_id) {
            if joins(t, from_id, to_id) {
                return true;
            }
        }
        false
    }

    /// The transfers either transaction is part of.
    fn links_to_break(&self, from_id: i64, to_id: i64) -> (ids: Vec<i64>)
        ensures
            ids@ == broken_links(self.transfer_by_tx_id@, from_id, to_id),
    {
        let mut ids: Vec<i64> = Vec::new();
        let a: Option<i64> = match self.get_cached_transfer(from_id) {
            Some(t) => Some(t.id),
            None => None,
        };
        let b: Option<i64> = match self.get_cached_transfer(to_id) {
            Some(t) => Some(t.id),
            None => None,
        };
        match (a, b) {
            (Some(a), Some(b)) => {
                if a < b {
                    ids.push(a);
                    ids.push(b);
                } else {
                    ids.push(b);
                    if a != b {
                        ids.push(a);
                    }
                }
            },
            (Some(a), None) => ids.push(a),
            (None, Some(b)) => ids.push(b),
            (None, None) => {},
        }
        assert(ids@ =~= broken_links(self.transfer_by_tx_id@, from_id, to_id));
        ids
    }

    fn link(&mut self, from_id: i64, to_id: i64)
        requires
            old(self).pending_transfer_tx is None,
        ensures
            old(self).linking(from_id, to_id, *final(self)),
    {
        reveal(App::linking);
        // If this exact transfer already exists, marking it is a no-op — no
        // warning, no churn.
        if self.linked_already(from_id, to_id) {
            self.clear_transfer_mode();
            return;
        }
        // If either endpoint is already part of a *different* transfer, creating
        // this one would break those links — confirm first.
        let transfer_ids = self.links_to_break(from_id, to_id);
        if transfer_ids.len() > 0 {
            let n: usize = transfer_ids.len();
            let mut m = decimal_string(n);
            m.append(" existing transfer");
            m.append(plural_suffix(n));
            m.append(" will be unlinked. Continue?");
            self.transfer_candidates = Vec::new();
            self.confirm(
                m,
                ConfirmAction::BreakTransfersForTransfer { transfer_ids, from_id, to_id },
            );
            return;
        }
        self.schedule_one(Task::CreateTransfer { from_id, to_id });
        self.clear_transfer_mode();
    }

    /// The state after [`Self::on_transfer_created`].
    pub open spec fn on_transfer_created_leads_to(
        self,
        result: Result<(), String>,
        next: App,
    ) -> bool {
        match result {
            Ok(_) => next == (App {
                similarity_stale: true,
                agenda: next.agenda,
                ..self
            }) && scheduled(self, next, refresh_tasks()),
            Err(e) => next == (App {
                error_message: next.error_message,
                ..self
            }) && says(next.error_message, failure("create transfer"@, e@)),
        }
    }

    /// Outcome of creating a transfer.
    pub fn on_transfer_created(&mut self, result: Result<(), String>)
        ensures
            old(self).on_transfer_created_leads_to(result, *final(self)),
    {
        match result {
            Ok(_) => self.refresh_data(),
            Err(e) => {
                self.error_message = Some(failure_message("create transfer", &e));
            },
        }
    }

    pub fn is_transfer_candidate(&self, tx_id: i64) -> (yes: bool)
        ensures
            yes == exists|i: int|
                0 <= i < self.transfer_candidates@.len() && (
                #[trigger] self.transfer_candidates@[i]).id == tx_id,
    {
        let mut i: usize = 0;
        while i < self.transfer_candidates.len()
            invariant
                i <= self.transfer_candidates@.len(),
                forall|j: int| 0 <= j < i ==> (#[trigger] self.transfer_candidates@[j]).id != tx_id,
            decreases self.transfer_candidates@.len() - i,
        {
            if self.transfer_candidates[i].id == tx_id {
                return true;
            }
            i += 1;
        }
        false
    }

    pub fn is_pending_transfer_tx(&self, tx_id: i64) -> (yes: bool)
        ensures
            yes == (self.pending_transfer_tx matches Some(tx) && tx.id == tx_id),
    {
        match &self.pending_transfer_tx {
            Some(tx) => tx.id == tx_id,
            None => false,
        }
    }

    /// The transfer under the cursor among those to be reviewed.
    pub open spec fn reviewed_transfer(self) -> Option<i64> {
        let rows = self.lists.transfer_reviews.rows();
        if self.current_tab == Tab::Todo && self.todo_subtab == TodoSubTab::TransferReview
            && self.selected_index < rows.len() {
            Some(rows[self.selected_index as int].id)
        } else {
            None
        }
    }

    pub(crate) fn transfer_under_review(&self) -> (id: Option<i64>)
        ensures
            id == self.reviewed_transfer(),
    {
        if self.current_tab != Tab::Todo || self.todo_subtab != TodoSubTab::TransferReview {
            return None;
        }
        match self.lists.transfer_reviews.get(self.selected_index) {
            Some(t) => Some(t.id),
            None => None,
        }
    }

    /// The state after [`Self::confirm_transfer_review`].
    pub open spec fn confirm_transfer_review_leads_to(self, next: App) -> bool {
        match self.reviewed_transfer() {
            Some(id) => next == (App { agenda: next.agenda, ..self })
                && scheduled(self, next, seq![Task::ConfirmTransfer { id }]),
            None => next == self,
        }
    }

    pub fn confirm_transfer_review(&mut self)
        ensures
            old(self).confirm_transfer_review_leads_to(*final(self)),
    {
        if let Some(id) = self.transfer_under_review() {
            self.schedule_one(Task::ConfirmTransfer { id });
        }
    }

    /// The state after [`Self::delete_selected_tx_link`].
    pub open spec fn delete_selected_tx_link_leads_to(self, next: App) -> bool {
        match self.selected_tx() {
            Some(tx) => match lookup(self.transfer_by_tx_id@, tx.id) {
                Some(t) => says(next.confirm_message, "Unlink this transfer?"@)
                    && next == (App {
                    confirm_message: next.confirm_message,
                    confirm_action: Some(ConfirmAction::UnlinkTransfer { transfer_id: t.id }),
                    input_mode: InputMode::Confirm,
                    ..self
                }),
                None => if lookup(self.category_by_tx_id@, tx.id) matches Some(path)
                    && path@.len() > 0 {
                    says(next.confirm_message, "Uncategorise this transaction?"@)
                        && next == (App {
                        confirm_message: next.confirm_message,
                        confirm_action: Some(ConfirmAction::Uncategorise { tx_id: tx.id }),
                        input_mode: InputMode::Confirm,
                        ..self
                    })
                } else {
                    next == self
                },
            },
            None => next == self,
        }
    }

    /// On a plain-transaction view, `u` removes the selected transaction's
    /// transfer link, or — if it isn't a transfer — its category, after a
    /// confirmation prompt. (A transaction is never both; transfer takes
    /// precedence so legacy rows that ended up with both can be cleared with two
    /// presses.) The work itself happens in [`App::confirm_proceed`].
    pub fn delete_selected_tx_link(&mut self)
        ensures
            old(self).delete_selected_tx_link_leads_to(*final(self)),
    {
        let tx_id: i64 = match self.selected_transaction() {
            Some(tx) => tx.id,
            None => return,
        };
        let transfer: Option<i64> = match self.get_cached_transfer(tx_id) {
            Some(t) => Some(t.id),
            None => None,
        };
        if let Some(transfer_id) = transfer {
            self.confirm(
                "Unlink this transfer?".to_owned(),
                ConfirmAction::UnlinkTransfer { transfer_id },
            );
            return;
        }
        let categorised = match self.get_cached_category(tx_id) {
            Some(path) => !path.as_str().is_empty(),
            None => false,
        };
        if categorised {
            self.confirm(
                "Uncategorise this transaction?".to_owned(),
                ConfirmAction::Uncategorise { tx_id },
            );
        }
    }

    /// The transfer under the cursor.
    pub open spec fn chosen_transfer(self) -> Option<i64> {
        let rows = self.lists.linked_transfers.rows();
        if self.current_tab == Tab::Transfers {
            if self.selected_index < rows.len() {
                Some(rows[self.selected_index as int].transfer.id)
            } else {
                None
            }
        } else {
            self.reviewed_transfer()
        }
    }

    pub(crate) fn selected_transfer_id(&self) -> (id: Option<i64>)
        ensures
            id == self.chosen_transfer(),
    {
        if self.current_tab == Tab::Transfers {
            match self.lists.linked_transfers.get(self.selected_index) {
                Some(twt) => Some(twt.transfer.id),
                None => None,
            }
        } else {
            self.transfer_under_review()
        }
    }

    /// The state after [`Self::delete_transfer`].
    pub open spec fn delete_transfer_leads_to(self, next: App) -> bool {
        match self.chosen_transfer() {
            Some(id) => next == (App { agenda: next.agenda, ..self })
                && scheduled(self, next, seq![Task::DeleteTransfer { id }]),
            None => next == self,
        }
    }

    pub fn delete_transfer(&mut self)
        ensures
            old(self).delete_transfer_leads_to(*final(self)),
    {
        if let Some(id) = self.selected_transfer_id() {
            self.schedule_one(Task::DeleteTransfer { id });
        }
    }

    /// The state after [`Self::on_transfer_deleted`].
    pub open spec fn on_transfer_deleted_leads_to(
        self,
        result: Result<(), String>,
        next: App,
    ) -> bool {
        match result {
            Ok(_) => next == (App {
                similarity_stale: true,
                agenda: next.agenda,
                ..self
            }) && scheduled(
                self,
                next,
                refresh_tasks() + seq![Task::StepBackFromEnd],
            ),
            Err(e) => next == (App {
                error_message: next.error_message,
                ..self
            }) && says(next.error_message, failure("delete transfer"@, e@)),
        }
    }

    /// Outcome of deleting a transfer.
    pub fn on_transfer_deleted(&mut self, result: Result<(), String>)
        ensures
            old(self).on_transfer_deleted_leads_to(result, *final(self)),
    {
        match result {
            Ok(_) => {
                self.similarity_stale = true;
                let mut tasks = refresh();
                tasks.push(Task::StepBackFromEnd);
                assert(tasks@ =~= refresh_tasks() + seq![Task::StepBackFromEnd]);
                self.schedule(tasks);
            },
            Err(e) => {
                self.error_message = Some(failure_message("delete transfer", &e));
            },
        }
    }

    /// The state after [`Self::step_back_from_end`].
    pub open spec fn step_back_from_end_leads_to(self, next: App) -> bool {
        &&& next == (App { selected_index: next.selected_index, ..self })
        &&& next.selected_index == if self.selected_index >= visible_rows(
            self.lists,
            self.key(),
        ) && self.selected_index > 0 {
            self.selected_index - 1
        } else {
            self.selected_index as int
        }
    }

    /// Step back where the cursor is past the last row.
    pub fn step_back_from_end(&mut self)
        ensures
            old(self).step_back_from_end_leads_to(*final(self)),
    {
        if self.selected_index >= self.list_len() && self.selected_index > 0 {
            self.selected_index -= 1;
        }
    }
}

} // verus!
