//! Account actions on the Accounts tab: rename/move, delete (which also
//! removes the exports folder), the transaction side panel, and jumping to the
//! Transactions tab filtered to an account.
//!
//! As for categories, minus merge: accounts never merge, so a rename collision
//! surfaces as a plain error rather than offering a merge flow.

use vstd::prelude::*;
use vstd::string::*;

use super::caches::{loaded, shown_after};
use super::category_tab::counted;
use super::tabs::Tab;
use super::tasks::{account_tasks, accounts, Task};
use super::{
    plural, plural_suffix, says, scheduled, App, ConfirmAction, InputMode, TextPromptTarget,
};
use crate::find::first_index;
use crate::model::{AccountWithBank, Transaction};
use crate::text::{decimal, decimal_string, same};

verus! {

/// The question before an account is deleted.
pub open spec fn delete_question(path: Seq<char>, n: int) -> Seq<char> {
    "Delete account "@ + path + "? Removes its exports/ folder (scripts + CSVs) and hides "@
        + decimal(n as nat) + " transaction"@ + plural(n) + " (kept in history)."@
}

impl App {
    /// The account under the cursor.
    pub open spec fn chosen_account(self) -> Option<AccountWithBank> {
        let rows = self.lists.accounts.rows();
        if self.current_tab == Tab::Accounts && self.selected_index < rows.len() {
            Some(rows[self.selected_index as int])
        } else {
            None
        }
    }

    pub fn selected_account(&self) -> (account: Option<&AccountWithBank>)
        ensures
            match account {
                Some(a) => self.chosen_account() == Some(*a),
                None => self.chosen_account() is None,
            },
    {
        if self.current_tab == Tab::Accounts {
            self.lists.accounts.get(self.selected_index)
        } else {
            None
        }
    }

    pub fn start_account_rename(&mut self)
        ensures
            match old(self).chosen_account() {
                Some(a) => old(self).prompts(
                    *final(self),
                    "Rename account"@,
                    a.path@,
                    TextPromptTarget::AccountRename(a),
                    old(self).input_mode,
                ),
                None => *final(self) == *old(self),
            },
    {
        let account = match self.selected_account() {
            Some(account) => account.clone(),
            None => return,
        };
        self.open_text_prompt(
            "Rename account",
            account.path.clone(),
            TextPromptTarget::AccountRename(account),
        );
    }

    /// Enter in the rename prompt: an empty or unchanged path cancels.
    pub fn confirm_account_rename(&mut self, account: AccountWithBank, new_path: String)
        ensures
            if new_path@.len() == 0 || new_path@ == account.path@ {
                old(self).cancelled(*final(self))
            } else {
                *final(self) == (App { agenda: final(self).agenda, ..*old(self) }) && scheduled(
                    *old(self),
                    *final(self),
                    seq![Task::RenameAccount { account, new_path }],
                )
            },
    {
        if new_path.as_str().is_empty() || same(&new_path, &account.path) {
            self.cancel_input();
            return;
        }
        self.schedule_one(Task::RenameAccount { account, new_path });
    }

    /// The state after [`Self::on_account_renamed`].
    pub open spec fn on_account_renamed_leads_to(
        self,
        account: AccountWithBank,
        new_path: String,
        result: Result<(), String>,
        next: App,
    ) -> bool {
        match result {
            Ok(_) => next == (App {
                input_mode: InputMode::Normal,
                text_prompt: None,
                agenda: next.agenda,
                ..self
            }) && scheduled(
                self,
                next,
                account_tasks() + seq![Task::FocusAccount { path: new_path }],
            ),
            Err(e) => says(next.error_message, "Failed to rename: "@ + e@) && (App {
                error_message: next.error_message,
                ..self
            }).prompts(
                next,
                "Rename account"@,
                new_path@,
                TextPromptTarget::AccountRename(account),
                self.behind_prompt(),
            ),
        }
    }

    /// Outcome of renaming an account. Accounts never merge: a collision or an
    /// invalid path is a plain error, surfaced via the error popup with the
    /// prompt restored so the user can correct it.
    pub fn on_account_renamed(
        &mut self,
        account: AccountWithBank,
        new_path: String,
        result: Result<(), String>,
    )
        ensures
            old(self).on_account_renamed_leads_to(account, new_path, result, *final(self)),
    {
        match result {
            Ok(_) => {
                let mut tasks = accounts();
                tasks.push(Task::FocusAccount { path: new_path });
                assert(tasks@ =~= account_tasks() + seq![Task::FocusAccount { path: new_path }]);
                self.schedule(tasks);
                self.input_mode = InputMode::Normal;
                self.clear_text_prompt();
            },
            Err(e) => {
                let mut m = "Failed to rename: ".to_owned();
                m.append(&e);
                self.error_message = Some(m);
                self.restore_text_prompt(
                    "Rename account",
                    new_path,
                    TextPromptTarget::AccountRename(account),
                );
            },
        }
    }

    /// Prompt to delete the selected account, noting the transaction count and
    /// that its exports folder (scripts + CSVs) will be removed.
    pub fn start_account_delete(&mut self)
        ensures
            match old(self).chosen_account() {
                Some(account) => *final(self) == (App {
                    agenda: final(self).agenda,
                    ..*old(self)
                }) && scheduled(
                    *old(self),
                    *final(self),
                    seq![Task::CountForAccountDelete { account }],
                ),
                None => *final(self) == *old(self),
            },
    {
        let account = match self.selected_account() {
            Some(account) => account.clone(),
            None => return,
        };
        self.schedule_one(Task::CountForAccountDelete { account });
    }

    /// The state after [`Self::on_account_usage`].
    pub open spec fn on_account_usage_leads_to(
        self,
        account: &AccountWithBank,
        transactions: Result<usize, String>,
        next: App,
    ) -> bool {
        &&& next == (App {
            error_message: next.error_message,
            confirm_message: next.confirm_message,
            confirm_action: Some(ConfirmAction::DeleteAccount(account.id)),
            input_mode: InputMode::Confirm,
            ..self
        })
        &&& says(
            next.confirm_message,
            delete_question(account.path@, counted(transactions)),
        )
        &&& shown_after(
            self.error_message,
            next.error_message,
            "count transactions in account"@,
            transactions,
        )
    }

    /// The transactions of an account: ask before deleting it.
    pub fn on_account_usage(
        &mut self,
        account: &AccountWithBank,
        transactions: Result<usize, String>,
    )
        ensures
            old(self).on_account_usage_leads_to(account, transactions, *final(self)),
    {
        let count: usize = self.count_or_show("count transactions in account", transactions);
        let mut m = "Delete account ".to_owned();
        m.append(&account.path);
        m.append("? Removes its exports/ folder (scripts + CSVs) and hides ");
        m.append(&decimal_string(count));
        m.append(" transaction");
        m.append(plural_suffix(count));
        m.append(" (kept in history).");
        self.confirm(m, ConfirmAction::DeleteAccount(account.id));
    }

    fn account_position(&self, path: &str) -> (pos: Option<usize>)
        ensures
            match pos {
                Some(p) => first_index(
                    self.lists.accounts.rows(),
                    |a: AccountWithBank| a.path@ == path@,
                ) == Some(p as int),
                None => first_index(
                    self.lists.accounts.rows(),
                    |a: AccountWithBank| a.path@ == path@,
                ) is None,
            },
    {
        let named = |a: &AccountWithBank| -> (b: bool)
            ensures
                b == (a.path@ == path@),
        {
            same(&a.path, path)
        };
        self.lists.accounts.position_where(named, Ghost(|a: AccountWithBank| a.path@ == path@))
    }

    /// The state after [`Self::focus_account`].
    pub open spec fn focus_account_leads_to(self, path: &str, next: App) -> bool {
        &&& next == (App {
            selected_index: next.selected_index,
            agenda: next.agenda,
            ..self
        })
        &&& next.selected_index == match first_index(
            self.lists.accounts.rows(),
            |a: AccountWithBank| a.path@ == path@,
        ) {
            Some(i) => i,
            None => self.selected_index as int,
        }
        &&& scheduled(self, next, seq![Task::LoadAccountPanel])
    }

    /// Move the cursor to the account with the path, if it is visible.
    pub fn focus_account(&mut self, path: &str)
        ensures
            old(self).focus_account_leads_to(path, *final(self)),
    {
        if let Some(pos) = self.account_position(path) {
            self.selected_index = pos;
        }
        self.schedule_one(Task::LoadAccountPanel);
    }

    // ==================== Account Transactions Side Panel ====================

    pub fn toggle_account_transactions(&mut self)
        ensures
            *final(self) == (App {
                show_account_transactions: !old(self).show_account_transactions,
                agenda: final(self).agenda,
                ..*old(self)
            }),
            scheduled(*old(self), *final(self), seq![Task::LoadAccountPanel]),
    {
        self.show_account_transactions = !self.show_account_transactions;
        self.schedule_one(Task::LoadAccountPanel);
    }

    /// The account whose transactions the side panel shows.
    pub open spec fn panel_account(self) -> Option<i64> {
        match self.chosen_account() {
            Some(a) => if self.show_account_transactions {
                Some(a.id)
            } else {
                None
            },
            None => None,
        }
    }

    /// The account whose transactions the side panel wants: none when the panel
    /// is closed / not on the Accounts tab / no account selected.
    pub fn account_panel_id(&self) -> (id: Option<i64>)
        ensures
            id == self.panel_account(),
    {
        if !self.show_account_transactions {
            return None;
        }
        match self.selected_account() {
            Some(account) => Some(account.id),
            None => None,
        }
    }

    /// The state after [`Self::on_account_panel`].
    pub open spec fn on_account_panel_leads_to(
        self,
        result: Result<Vec<Transaction>, String>,
        next: App,
    ) -> bool {
        &&& next == (App {
            account_transactions: next.account_transactions,
            error_message: next.error_message,
            ..self
        })
        &&& match self.panel_account() {
            Some(_) => next.account_transactions@ == loaded(result) && shown_after(
                self.error_message,
                next.error_message,
                "load account transactions"@,
                result,
            ),
            None => next.account_transactions@.len() == 0 && next.error_message
                == self.error_message,
        }
    }

    /// The transactions of the account [`Self::account_panel_id`] names; the
    /// panel is emptied where it names none.
    pub fn on_account_panel(&mut self, result: Result<Vec<Transaction>, String>)
        ensures
            old(self).on_account_panel_leads_to(result, *final(self)),
    {
        match self.account_panel_id() {
            Some(_) => {
                let rows = self.load_or_show("load account transactions", result);
                self.account_transactions = rows;
            },
            None => {
                self.account_transactions = Vec::new();
            },
        }
    }

    /// Jump to the Transactions tab with its DB search set to this account, so
    /// the user can act on its transactions. Focus lands on the first row.
    pub fn manage_account_transactions(&mut self)
        ensures
            match old(self).chosen_account() {
                Some(a) => final(self).account_transactions@.len() == 0 && (App {
                    show_account_transactions: false,
                    account_transactions: final(self).account_transactions,
                    ..*old(self)
                }).jumped("account:"@ + a.path@, *final(self)),
                None => *final(self) == *old(self),
            },
    {
        let mut query = "account:".to_owned();
        match self.selected_account() {
            Some(account) => query.append(&account.path),
            None => return,
        }
        self.show_account_transactions = false;
        self.account_transactions = Vec::new();
        self.jump_to_search(&query);
    }
}

} // verus!
