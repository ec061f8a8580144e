//! The Categories tab: rename and merge, deletion, the side panel, and jumping
//! to a category's transactions.

use vstd::prelude::*;
use vstd::string::*;

use super::caches::{loaded, shown_after};
use super::tabs::Tab;
use super::tasks::{categories, category_tasks, Task};
use super::{
    failure_message, plural, plural_suffix, says, scheduled, App, ConfirmAction, InputMode,
    TextPrompt, TextPromptTarget,
};
use crate::find::first_index;
use crate::model::{Category, Transaction};
use crate::text::{decimal, decimal_string, same};

verus! {

/// Outcome of renaming a category.
pub enum Renamed {
    Done,
    /// The path is taken.
    Taken {
        existing_path: String,
        /// Where the category there could be found: its id, and the number of
        /// transactions that merging would move into it.
        merge: Option<(i64, Result<usize, String>)>,
    },
    Failed(String),
}

/// A count, or zero where it failed.
pub open spec fn counted(result: Result<usize, String>) -> int {
    match result {
        Ok(n) => n as int,
        Err(_) => 0,
    }
}

/// The question before a merge.
pub open spec fn merge_question(n: int, path: Seq<char>) -> Seq<char> {
    "Merge "@ + decimal(n as nat) + " transaction"@ + plural(n) + " into \""@ + path + "\"?"@
}

/// The question before a deletion: what loses its category.
pub open spec fn delete_question(path: Seq<char>, transactions: int, filters: int) -> Seq<char> {
    "Delete category \""@ + path + "\"? "@ + decimal(transactions as nat) + " transaction"@ + plural(
        transactions,
    ) + " will be left without a category"@ + if filters > 0 {
        " and "@ + decimal(filters as nat) + " filter"@ + plural(filters)
            + " will lose their category."@
    } else {
        "."@
    }
}

fn merge_text(n: usize, path: &str) -> (text: String)
    ensures
        text@ == merge_question(n as int, path@),
{
    let mut m = "Merge ".to_owned();
    m.append(&decimal_string(n));
    m.append(" transaction");
    m.append(plural_suffix(n));
    m.append(" into \"");
    m.append(path);
    m.append("\"?");
    m
}

fn delete_text(path: &str, transactions: usize, filters: usize) -> (text: String)
    ensures
        text@ == delete_question(path@, transactions as int, filters as int),
{
    let mut m = "Delete category \"".to_owned();
    m.append(path);
    m.append("\"? ");
    m.append(&decimal_string(transactions));
    m.append(" transaction");
    m.append(plural_suffix(transactions));
    m.append(" will be left without a category");
    if filters > 0 {
        let ghost before = m@;
        m.append(" and ");
        m.append(&decimal_string(filters));
        m.append(" filter");
        m.append(plural_suffix(filters));
        m.append(" will lose their category.");
        assert(m@ =~= before + (" and "@ + decimal(filters as nat) + " filter"@ + plural(
            filters as int,
        ) + " will lose their category."@));
    } else {
        m.append(".");
    }
    m
}

impl App {
    /// The category under the cursor.
    pub open spec fn chosen_category(self) -> Option<Category> {
        let rows = self.lists.categories.rows();
        if self.current_tab == Tab::Categories && self.selected_index < rows.len() {
            Some(rows[self.selected_index as int])
        } else {
            None
        }
    }

    pub fn selected_category(&self) -> (category: Option<&Category>)
        ensures
            match category {
                Some(c) => self.chosen_category() == Some(*c),
                None => self.chosen_category() is None,
            },
    {
        if self.current_tab == Tab::Categories {
            self.lists.categories.get(self.selected_index)
        } else {
            None
        }
    }

    /// The state after [`Self::start_category_rename`].
    pub open spec fn start_category_rename_leads_to(self, next: App) -> bool {
        match self.chosen_category() {
            Some(c) => self.prompts(
                next,
                "Rename category"@,
                c.path@,
                TextPromptTarget::CategoryRename(c),
                self.input_mode,
            ),
            None => next == self,
        }
    }

    pub fn start_category_rename(&mut self)
        ensures
            old(self).start_category_rename_leads_to(*final(self)),
    {
        let category = match self.selected_category() {
            Some(category) => category.clone(),
            None => return,
        };
        self.open_text_prompt(
            "Rename category",
            category.path.clone(),
            TextPromptTarget::CategoryRename(category),
        );
    }

    /// Prompt to delete the selected category, noting how many transactions
    /// would be left uncategorised.
    pub fn start_category_delete(&mut self)
        ensures
            match old(self).chosen_category() {
                Some(category) => *final(self) == (App {
                    agenda: final(self).agenda,
                    ..*old(self)
                }) && scheduled(
                    *old(self),
                    *final(self),
                    seq![Task::CountForCategoryDelete { category }],
                ),
                None => *final(self) == *old(self),
            },
    {
        let category = match self.selected_category() {
            Some(category) => category.clone(),
            None => return,
        };
        self.schedule_one(Task::CountForCategoryDelete { category });
    }

    /// A count, or zero with its failure shown.
    pub(crate) fn count_or_show(&mut self, what: &str, result: Result<usize, String>) -> (n: usize)
        ensures
            n == counted(result),
            *final(self) == (App { error_message: final(self).error_message, ..*old(self) }),
            shown_after(old(self).error_message, final(self).error_message, what@, result),
    {
        match result {
            Ok(n) => n,
            Err(e) => {
                self.error_message = Some(failure_message(what, &e));
                0
            },
        }
    }

    /// The state after [`Self::on_category_usage`].
    pub open spec fn on_category_usage_leads_to(
        self,
        category: &Category,
        transactions: Result<usize, String>,
        filters: Result<usize, String>,
        next: App,
    ) -> bool {
        &&& next == (App {
            error_message: next.error_message,
            confirm_message: next.confirm_message,
            confirm_action: Some(ConfirmAction::DeleteCategory(category.id)),
            input_mode: InputMode::Confirm,
            ..self
        })
        &&& says(
            next.confirm_message,
            delete_question(category.path@, counted(transactions), counted(filters)),
        )
        &&& match filters {
            Ok(_) => shown_after(
                self.error_message,
                next.error_message,
                "count transactions in category"@,
                transactions,
            ),
            Err(_) => shown_after(
                self.error_message,
                next.error_message,
                "load filters"@,
                filters,
            ),
        }
    }

    /// What uses a category: ask before deleting it.
    pub fn on_category_usage(
        &mut self,
        category: &Category,
        transactions: Result<usize, String>,
        filters: Result<usize, String>,
    )
        ensures
            old(self).on_category_usage_leads_to(category, transactions, filters, *final(self)),
    {
        let count: usize = self.count_or_show("count transactions in category", transactions);
        let filter_count: usize = self.count_or_show("load filters", filters);
        self.confirm(
            delete_text(&category.path, count, filter_count),
            ConfirmAction::DeleteCategory(category.id),
        );
    }

    /// Enter in the rename prompt: an empty or unchanged path cancels.
    pub fn confirm_category_rename(&mut self, category: Category, new_path: String)
        ensures
            if new_path@.len() == 0 || new_path@ == category.path@ {
                old(self).cancelled(*final(self))
            } else {
                *final(self) == (App { agenda: final(self).agenda, ..*old(self) }) && scheduled(
                    *old(self),
                    *final(self),
                    seq![Task::RenameCategory { category, new_path }],
                )
            },
    {
        if new_path.as_str().is_empty() || same(&new_path, &category.path) {
            self.cancel_input();
            return;
        }
        self.schedule_one(Task::RenameCategory { category, new_path });
    }

    /// The state after a rename. Where the path is taken, the prompt is open
    /// again, with the question whether to merge into the category there.
    pub open spec fn category_renamed(
        self,
        category: Category,
        new_path: String,
        outcome: Renamed,
        next: App,
    ) -> bool {
        match outcome {
            Renamed::Done => {
                &&& next == (App {
                    input_mode: InputMode::Normal,
                    text_prompt: None,
                    agenda: next.agenda,
                    ..self
                })
                &&& scheduled(
                    self,
                    next,
                    category_tasks() + seq![Task::FocusCategory { path: new_path }],
                )
            },
            Renamed::Taken { existing_path, merge: Some(m) } => {
                &&& self.reprompted(category, new_path@, next.text_prompt)
                &&& next == (App {
                    text_prompt: next.text_prompt,
                    error_message: next.error_message,
                    confirm_message: next.confirm_message,
                    confirm_action: Some(
                        ConfirmAction::MergeCategory { source_id: category.id, target_id: m.0 },
                    ),
                    input_mode: InputMode::Confirm,
                    ..self
                })
                &&& says(next.confirm_message, merge_question(counted(m.1), existing_path@))
                &&& shown_after(
                    self.error_message,
                    next.error_message,
                    "count transactions in category"@,
                    m.1,
                )
            },
            Renamed::Taken { merge: None, .. } => {
                &&& self.reprompted(category, new_path@, next.text_prompt)
                &&& next == (App {
                    text_prompt: next.text_prompt,
                    error_message: next.error_message,
                    input_mode: InputMode::TextPrompt,
                    ..self
                })
                &&& says(next.error_message, "Category \""@ + new_path@ + "\" already exists"@)
            },
            Renamed::Failed(e) => {
                &&& self.reprompted(category, new_path@, next.text_prompt)
                &&& next == (App {
                    text_prompt: next.text_prompt,
                    error_message: next.error_message,
                    input_mode: InputMode::TextPrompt,
                    ..self
                })
                &&& says(next.error_message, "Failed to rename: "@ + e@)
            },
        }
    }

    /// The rename prompt is open again with what was typed.
    pub open spec fn reprompted(
        self,
        category: Category,
        value: Seq<char>,
        prompt: Option<TextPrompt>,
    ) -> bool {
        &&& prompt matches Some(p)
        &&& p.title@ == "Rename category"@
        &&& p.input.text() == value
        &&& p.input.at() == value.len()
        &&& p.target == TextPromptTarget::CategoryRename(category)
        &&& p.return_mode == self.behind_prompt()
    }

    /// The state after [`Self::on_category_renamed`].
    pub open spec fn on_category_renamed_leads_to(
        self,
        category: Category,
        new_path: String,
        outcome: Renamed,
        next: App,
    ) -> bool {
        self.category_renamed(category, new_path, outcome, next)
    }

    /// Outcome of renaming a category.
    pub fn on_category_renamed(&mut self, category: Category, new_path: String, outcome: Renamed)
        ensures
            old(self).on_category_renamed_leads_to(category, new_path, outcome, *final(self)),
    {
        match outcome {
            Renamed::Done => self.renamed(category, new_path),
            Renamed::Taken { existing_path, merge: Some((target_id, count)) } => self.offer_merge(
                category,
                new_path,
                existing_path,
                target_id,
                count,
            ),
            Renamed::Taken { merge: None, .. } => {
                let mut m = "Category \"".to_owned();
                m.append(&new_path);
                m.append("\" already exists");
                self.prompt_again(category, new_path, m);
            },
            Renamed::Failed(e) => {
                let mut m = "Failed to rename: ".to_owned();
                m.append(&e);
                self.prompt_again(category, new_path, m);
            },
        }
    }

    fn renamed(&mut self, category: Category, new_path: String)
        ensures
            old(self).category_renamed(category, new_path, Renamed::Done, *final(self)),
    {
        let mut tasks = categories();
        tasks.push(Task::FocusCategory { path: new_path });
        assert(tasks@ =~= category_tasks() + seq![Task::FocusCategory { path: new_path }]);
        self.schedule(tasks);
        self.input_mode = InputMode::Normal;
        self.clear_text_prompt();
    }

    fn prompt_again(&mut self, category: Category, new_path: String, error: String)
        ensures
            old(self).reprompted(category, new_path@, final(self).text_prompt),
            *final(self) == (App {
                text_prompt: final(self).text_prompt,
                error_message: Some(error),
                input_mode: InputMode::TextPrompt,
                ..*old(self)
            }),
    {
        self.error_message = Some(error);
        self.restore_text_prompt(
            "Rename category",
            new_path,
            TextPromptTarget::CategoryRename(category),
        );
    }

    fn offer_merge(
        &mut self,
        category: Category,
        new_path: String,
        existing_path: String,
        target_id: i64,
        count: Result<usize, String>,
    )
        ensures
            old(self).category_renamed(
                category,
                new_path,
                Renamed::Taken { existing_path, merge: Some((target_id, count)) },
                *final(self),
            ),
    {
        let n: usize = self.count_or_show("count transactions in category", count);
        let source_id: i64 = category.id;
        self.restore_text_prompt(
            "Rename category",
            new_path,
            TextPromptTarget::CategoryRename(category),
        );
        self.confirm(
            merge_text(n, &existing_path),
            ConfirmAction::MergeCategory { source_id, target_id },
        );
    }

    fn category_position(&self, path: &str) -> (pos: Option<usize>)
        ensures
            match pos {
                Some(p) => first_index(
                    self.lists.categories.rows(),
                    |c: Category| c.path@ == path@,
                ) == Some(p as int),
                None => first_index(
                    self.lists.categories.rows(),
                    |c: Category| c.path@ == path@,
                ) is None,
            },
    {
        let named = |c: &Category| -> (b: bool)
            ensures
                b == (c.path@ == path@),
        {
            same(&c.path, path)
        };
        self.lists.categories.position_where(named, Ghost(|c: Category| c.path@ == path@))
    }

    /// The state after [`Self::focus_category`].
    pub open spec fn focus_category_leads_to(self, path: &str, next: App) -> bool {
        &&& next == (App {
            selected_index: next.selected_index,
            agenda: next.agenda,
            ..self
        })
        &&& next.selected_index == match first_index(
            self.lists.categories.rows(),
            |c: Category| c.path@ == path@,
        ) {
            Some(i) => i,
            None => self.selected_index as int,
        }
        &&& scheduled(self, next, seq![Task::LoadCategoryPanel])
    }

    /// Move the cursor to the category with the path, if it is visible.
    pub fn focus_category(&mut self, path: &str)
        ensures
            old(self).focus_category_leads_to(path, *final(self)),
    {
        if let Some(pos) = self.category_position(path) {
            self.selected_index = pos;
        }
        self.schedule_one(Task::LoadCategoryPanel);
    }

    // ==================== Side panel ====================

    pub fn toggle_category_transactions(&mut self)
        ensures
            *final(self) == (App {
                show_category_transactions: !old(self).show_category_transactions,
                agenda: final(self).agenda,
                ..*old(self)
            }),
            scheduled(*old(self), *final(self), seq![Task::LoadCategoryPanel]),
    {
        self.show_category_transactions = !self.show_category_transactions;
        self.schedule_one(Task::LoadCategoryPanel);
    }

    /// The category whose transactions the side panel shows.
    pub open spec fn panel_category(self) -> Option<i64> {
        match self.chosen_category() {
            Some(c) => if self.show_category_transactions {
                Some(c.id)
            } else {
                None
            },
            None => None,
        }
    }

    /// The category whose transactions the side panel wants: none when the
    /// panel is closed / not on the Categories tab / no category selected.
    pub fn category_panel_id(&self) -> (id: Option<i64>)
        ensures
            id == self.panel_category(),
    {
        if !self.show_category_transactions {
            return None;
        }
        match self.selected_category() {
            Some(category) => Some(category.id),
            None => None,
        }
    }

    /// The state after [`Self::on_category_panel`].
    pub open spec fn on_category_panel_leads_to(
        self,
        result: Result<Vec<Transaction>, String>,
        next: App,
    ) -> bool {
        &&& next == (App {
            category_transactions: next.category_transactions,
            error_message: next.error_message,
            ..self
        })
        &&& match self.panel_category() {
            Some(_) => next.category_transactions@ == loaded(result) && shown_after(
                self.error_message,
                next.error_message,
                "load category transactions"@,
                result,
            ),
            None => next.category_transactions@.len() == 0 && next.error_message
                == self.error_message,
        }
    }

    /// The transactions of the category [`Self::category_panel_id`] names; the
    /// panel is emptied where it names none.
    pub fn on_category_panel(&mut self, result: Result<Vec<Transaction>, String>)
        ensures
            old(self).on_category_panel_leads_to(result, *final(self)),
    {
        match self.category_panel_id() {
            Some(_) => {
                let rows = self.load_or_show("load category transactions", result);
                self.category_transactions = rows;
            },
            None => {
                self.category_transactions = Vec::new();
            },
        }
    }

    /// Jump to the Transactions tab with its DB search set to this category, so
    /// the user can act on its transactions. Focus lands on the first
    /// transaction.
    pub fn manage_category_transactions(&mut self)
        ensures
            match old(self).chosen_category() {
                Some(c) => final(self).category_transactions@.len() == 0 && (App {
                    show_category_transactions: false,
                    category_transactions: final(self).category_transactions,
                    ..*old(self)
                }).jumped("category:"@ + c.path@, *final(self)),
                None => *final(self) == *old(self),
            },
    {
        let mut query = "category:".to_owned();
        match self.selected_category() {
            Some(category) => query.append(&category.path),
            None => return,
        }
        self.show_category_transactions = false;
        self.category_transactions = Vec::new();
        self.jump_to_search(&query);
    }
}

} // verus!
