//! Confirmations, text prompts and background jobs.

use vstd::prelude::*;
use vstd::string::*;

use super::tasks::{
    account_tasks, accounts, categories, category_tasks, refresh_tasks, BackgroundJob, Task,
};
use super::{
    failure, failure_message, says, scheduled, App, CategoryTarget, ConfirmAction, InputMode,
    TextPrompt, TextPromptTarget,
};
use crate::model::RefreshReport;
use crate::text::{decimal, decimal_string};
use crate::tui::input::{
    display_column, display_scroll, edited_cursor, edited_text, InputRequest, TextInput,
};

verus! {

/// A change after which everything is reloaded.
#[derive(Debug, Clone, Copy, PartialEq, Eq, Structural)]
pub enum Change {
    RecreateTransfer,
    UnlinkTransfer,
    RemoveCategory,
    ConfirmCategory,
    ConfirmTransfer,
    ApplyFilters,
}

impl Change {
    pub open spec fn label(self) -> Seq<char> {
        match self {
            Change::RecreateTransfer => "recreate transfer"@,
            Change::UnlinkTransfer => "unlink transfer"@,
            Change::RemoveCategory => "remove category"@,
            Change::ConfirmCategory => "confirm AI category"@,
            Change::ConfirmTransfer => "confirm transfer"@,
            Change::ApplyFilters => "apply filters"@,
        }
    }

    fn words(self) -> (s: &'static str)
        ensures
            s@ == self.label(),
    {
        match self {
            Change::RecreateTransfer => "recreate transfer",
            Change::UnlinkTransfer => "unlink transfer",
            Change::RemoveCategory => "remove category",
            Change::ConfirmCategory => "confirm AI category",
            Change::ConfirmTransfer => "confirm transfer",
            Change::ApplyFilters => "apply filters",
        }
    }
}

/// How a background job ended.
pub enum JobOutcome {
    Refresh(Result<RefreshReport, String>),
    Classify(Result<String, String>),
    Reindex(Result<usize, String>),
    /// The worker went away without an outcome.
    Stopped,
}

/// The step that carries out a confirmed action; `None` where the application
/// does it alone.
pub open spec fn step_for(action: ConfirmAction) -> Option<Task> {
    match action {
        ConfirmAction::MergeCategory { source_id, target_id } => Some(
            Task::MergeCategories { source_id, target_id },
        ),
        ConfirmAction::BreakTransferForCategory { transfer_id, tx, category_path } => Some(
            Task::UnlinkForCategory { transfer_id, tx, category_path },
        ),
        ConfirmAction::BreakTransfersForTransfer { transfer_ids, from_id, to_id } => Some(
            Task::RecreateTransfer { transfer_ids, from_id, to_id },
        ),
        ConfirmAction::UnlinkTransfer { transfer_id } => Some(Task::UnlinkTransfer { transfer_id }),
        ConfirmAction::Uncategorise { tx_id } => Some(Task::RemoveCategory { tx_id }),
        ConfirmAction::DeleteCategory(id) => Some(Task::DeleteCategory { id }),
        ConfirmAction::DeleteAccount(id) => Some(Task::DeleteAccount { id }),
        ConfirmAction::DeleteFilter(id) => Some(Task::DeleteFilter { id }),
        ConfirmAction::DiscardFilterEdit => None,
        ConfirmAction::DiscardNoteEdit => None,
    }
}

fn task_for(action: ConfirmAction) -> (task: Option<Task>)
    ensures
        task == step_for(action),
{
    match action {
        ConfirmAction::MergeCategory { source_id, target_id } => Some(
            Task::MergeCategories { source_id, target_id },
        ),
        ConfirmAction::BreakTransferForCategory { transfer_id, tx, category_path } => Some(
            Task::UnlinkForCategory { transfer_id, tx, category_path },
        ),
        ConfirmAction::BreakTransfersForTransfer { transfer_ids, from_id, to_id } => Some(
            Task::RecreateTransfer { transfer_ids, from_id, to_id },
        ),
        ConfirmAction::UnlinkTransfer { transfer_id } => Some(Task::UnlinkTransfer { transfer_id }),
        ConfirmAction::Uncategorise { tx_id } => Some(Task::RemoveCategory { tx_id }),
        ConfirmAction::DeleteCategory(id) => Some(Task::DeleteCategory { id }),
        ConfirmAction::DeleteAccount(id) => Some(Task::DeleteAccount { id }),
        ConfirmAction::DeleteFilter(id) => Some(Task::DeleteFilter { id }),
        ConfirmAction::DiscardFilterEdit => None,
        ConfirmAction::DiscardNoteEdit => None,
    }
}

/// Nothing is typed or offered in the category popup.
pub open spec fn popup_cleared(app: App) -> bool {
    &&& app.category_input@.len() == 0
    &&& app.category_suggestions@.len() == 0
    &&& app.category_selected == 0
    &&& app.category_target == CategoryTarget::Transaction
}

/// The modes whose cancellation leads back to the filter edit screen.
pub open spec fn over_filter_edit(mode: InputMode) -> bool {
    mode == InputMode::Category || mode == InputMode::TextPrompt || mode == InputMode::BulkApply
        || mode == InputMode::Confirm || mode == InputMode::ConfirmApplyFilters || mode
        == InputMode::TransferNoMatch
}

impl App {
    /// A question asked over a text prompt leads back to the prompt.
    pub open spec fn returns_to_prompt(self) -> bool {
        self.input_mode == InputMode::Confirm && self.text_prompt is Some
    }

    /// The mode after cancelling.
    pub open spec fn mode_after_cancel(self) -> InputMode {
        let mode = if self.input_mode == InputMode::TextPrompt {
            match self.text_prompt {
                Some(prompt) => prompt.return_mode,
                None => InputMode::Normal,
            }
        } else if self.returns_to_prompt() {
            InputMode::TextPrompt
        } else if self.input_mode == InputMode::Confirm && self.note_editor is Some {
            InputMode::Note
        } else if self.filter_edit is Some && over_filter_edit(self.input_mode) {
            InputMode::FilterEdit
        } else {
            InputMode::Normal
        };
        if mode == InputMode::TransferPending || mode == InputMode::TransferNoMatch {
            InputMode::Normal
        } else {
            mode
        }
    }

    /// The state after cancelling: every popup is gone but what was asked over.
    pub open spec fn cancelled(self, next: App) -> bool {
        &&& popup_cleared(next)
        &&& next.transfer_candidates@.len() == 0
        &&& next == (App {
            input_mode: self.mode_after_cancel(),
            category_input: next.category_input,
            category_suggestions: next.category_suggestions,
            category_selected: 0,
            category_target: CategoryTarget::Transaction,
            error_message: None,
            pending_transfer_tx: None,
            transfer_candidates: next.transfer_candidates,
            text_prompt: if self.returns_to_prompt() {
                self.text_prompt
            } else {
                None
            },
            confirm_message: None,
            confirm_action: None,
            bulk_apply: None,
            apply_filters_preview: None,
            ..self
        })
    }

    pub fn clear_category_popup(&mut self)
        ensures
            popup_cleared(*final(self)),
            *final(self) == (App {
                category_input: final(self).category_input,
                category_suggestions: final(self).category_suggestions,
                category_selected: 0,
                category_target: CategoryTarget::Transaction,
                ..*old(self)
            }),
    {
        self.category_input = String::new();
        self.category_suggestions = Vec::new();
        self.category_selected = 0;
        self.category_target = CategoryTarget::Transaction;
    }

    pub fn cancel_input(&mut self)
        ensures
            old(self).cancelled(*final(self)),
    {
        let return_to_text_prompt = self.input_mode == InputMode::Confirm
            && self.text_prompt.is_some();
        let text_prompt_return_mode = match self.input_mode {
            InputMode::TextPrompt => Some(
                match &self.text_prompt {
                    Some(prompt) => prompt.return_mode,
                    None => InputMode::Normal,
                },
            ),
            InputMode::Confirm if return_to_text_prompt => Some(InputMode::TextPrompt),
            _ => None,
        };
        let return_to_filter_edit = self.filter_edit.is_some() && matches!(
            self.input_mode,
            InputMode::Category
                | InputMode::TextPrompt
                | InputMode::BulkApply
                | InputMode::Confirm
                | InputMode::ConfirmApplyFilters
                | InputMode::TransferNoMatch
        );
        // Declining the "discard this note?" confirm must put the user back in
        // the editor with their text intact, not drop them to Normal.
        let return_to_note_edit = self.input_mode == InputMode::Confirm
            && self.note_editor.is_some();
        self.input_mode = match text_prompt_return_mode {
            Some(mode) => mode,
            None => if return_to_note_edit {
                InputMode::Note
            } else if return_to_filter_edit {
                InputMode::FilterEdit
            } else {
                InputMode::Normal
            },
        };
        self.clear_category_popup();
        self.error_message = None;
        self.clear_transfer_mode();
        if !return_to_text_prompt {
            self.clear_text_prompt();
        }
        self.clear_confirm();
        self.bulk_apply = None;
        self.apply_filters_preview = None;
    }

    pub fn clear_text_prompt(&mut self)
        ensures
            *final(self) == (App { text_prompt: None, ..*old(self) }),
    {
        self.text_prompt = None;
    }

    pub fn clear_confirm(&mut self)
        ensures
            *final(self) == (App { confirm_message: None, confirm_action: None, ..*old(self) }),
    {
        self.confirm_message = None;
        self.confirm_action = None;
    }

    /// Ask before carrying out an action.
    pub fn confirm(&mut self, message: String, action: ConfirmAction)
        ensures
            *final(self) == (App {
                confirm_message: Some(message),
                confirm_action: Some(action),
                input_mode: InputMode::Confirm,
                ..*old(self)
            }),
    {
        self.confirm_message = Some(message);
        self.confirm_action = Some(action);
        self.input_mode = InputMode::Confirm;
    }

    /// The state after a confirmed action: the question is gone, and either the
    /// step that carries it out is next, or the editor it discards is gone.
    pub open spec fn proceeded(self, action: ConfirmAction, next: App) -> bool {
        match step_for(action) {
            Some(task) => {
                &&& next == (App {
                    confirm_message: None,
                    confirm_action: None,
                    input_mode: InputMode::Normal,
                    agenda: next.agenda,
                    ..self
                })
                &&& scheduled(self, next, seq![task])
            },
            None => next == (App {
                confirm_message: None,
                confirm_action: None,
                input_mode: InputMode::Normal,
                filter_edit: if action is DiscardFilterEdit {
                    None
                } else {
                    self.filter_edit
                },
                note_editor: if action is DiscardNoteEdit {
                    None
                } else {
                    self.note_editor
                },
                ..self
            }),
        }
    }

    /// The state after [`Self::confirm_proceed`].
    pub open spec fn confirm_proceed_leads_to(self, next: App) -> bool {
        match self.confirm_action {
            None => self.cancelled(next),
            Some(action) => self.proceeded(action, next),
        }
    }

    /// Carry out the pending `confirm_action`.
    pub fn confirm_proceed(&mut self)
        ensures
            old(self).confirm_proceed_leads_to(*final(self)),
    {
        match self.confirm_action.take() {
            Some(action) => self.proceed(action),
            None => self.cancel_input(),
        }
    }

    fn proceed(&mut self, action: ConfirmAction)
        requires
            old(self).confirm_action is None,
        ensures
            old(self).proceeded(action, *final(self)),
    {
        self.confirm_message = None;
        self.input_mode = InputMode::Normal;
        let leave_filter = matches!(action, ConfirmAction::DiscardFilterEdit);
        match task_for(action) {
            Some(task) => self.schedule_one(task),
            None => if leave_filter {
                self.exit_filter_edit();
            } else {
                self.close_note_editor();
            },
        }
    }

    /// Leave the filter edit screen.
    pub fn exit_filter_edit(&mut self)
        ensures
            *final(self) == (App {
                filter_edit: None,
                input_mode: InputMode::Normal,
                ..*old(self)
            }),
    {
        self.filter_edit = None;
        self.input_mode = InputMode::Normal;
    }

    /// Leave the note editor.
    pub fn close_note_editor(&mut self)
        ensures
            *final(self) == (App {
                note_editor: None,
                input_mode: InputMode::Normal,
                ..*old(self)
            }),
    {
        self.note_editor = None;
        self.input_mode = InputMode::Normal;
    }

    /// The state after [`Self::on_changed`].
    pub open spec fn on_changed_leads_to(
        self,
        change: Change,
        result: Result<(), String>,
        next: App,
    ) -> bool {
        match result {
            Ok(_) => next == (App {
                similarity_stale: true,
                agenda: next.agenda,
                ..self
            }) && scheduled(self, next, refresh_tasks()),
            Err(e) => next == (App {
                error_message: next.error_message,
                ..self
            }) && says(next.error_message, failure(change.label(), e@)),
        }
    }

    /// Outcome of a change after which everything is reloaded: its failure is
    /// shown, and nothing is reloaded after one.
    pub fn on_changed(&mut self, change: Change, result: Result<(), String>)
        ensures
            old(self).on_changed_leads_to(change, result, *final(self)),
    {
        match result {
            Ok(_) => self.refresh_data(),
            Err(e) => {
                self.error_message = Some(failure_message(change.words(), &e));
            },
        }
    }

    /// The state after [`Self::on_merged`].
    pub open spec fn on_merged_leads_to(
        self,
        target_id: i64,
        result: Result<(), String>,
        next: App,
    ) -> bool {
        match result {
            Ok(_) => next == (App {
                text_prompt: None,
                agenda: next.agenda,
                ..self
            }) && scheduled(
                self,
                next,
                category_tasks() + seq![Task::FocusMerged { category_id: target_id }],
            ),
            Err(e) => next == (App {
                text_prompt: None,
                error_message: next.error_message,
                ..self
            }) && says(next.error_message, failure("merge"@, e@)),
        }
    }

    /// Outcome of merging two categories.
    pub fn on_merged(&mut self, target_id: i64, result: Result<(), String>)
        ensures
            old(self).on_merged_leads_to(target_id, result, *final(self)),
    {
        match result {
            Ok(_) => {
                let mut tasks = categories();
                tasks.push(Task::FocusMerged { category_id: target_id });
                assert(tasks@ =~= category_tasks() + seq![
                    Task::FocusMerged { category_id: target_id },
                ]);
                self.schedule(tasks);
            },
            Err(e) => {
                self.error_message = Some(failure_message("merge", &e));
            },
        }
        self.clear_text_prompt();
    }

    /// The state after [`Self::on_category_deleted`].
    pub open spec fn on_category_deleted_leads_to(
        self,
        result: Result<(), String>,
        next: App,
    ) -> bool {
        match result {
            Ok(_) => next == (App { agenda: next.agenda, ..self })
                && scheduled(self, next, category_tasks()),
            Err(e) => next == (App {
                error_message: next.error_message,
                ..self
            }) && says(next.error_message, failure("delete category"@, e@)),
        }
    }

    /// Outcome of deleting a category.
    pub fn on_category_deleted(&mut self, result: Result<(), String>)
        ensures
            old(self).on_category_deleted_leads_to(result, *final(self)),
    {
        match result {
            Ok(_) => {
                let tasks = categories();
                self.schedule(tasks);
            },
            Err(e) => {
                self.error_message = Some(failure_message("delete category", &e));
            },
        }
    }

    /// The state after [`Self::on_account_deleted`].
    pub open spec fn on_account_deleted_leads_to(
        self,
        result: Result<(), String>,
        next: App,
    ) -> bool {
        match result {
            Ok(_) => next == (App { agenda: next.agenda, ..self })
                && scheduled(
                self,
                next,
                account_tasks() + seq![Task::ClampSelection],
            ),
            Err(e) => next == (App {
                error_message: next.error_message,
                ..self
            }) && says(next.error_message, failure("delete account"@, e@)),
        }
    }

    /// Outcome of deleting an account.
    pub fn on_account_deleted(&mut self, result: Result<(), String>)
        ensures
            old(self).on_account_deleted_leads_to(result, *final(self)),
    {
        match result {
            Ok(_) => {
                let mut tasks = accounts();
                tasks.push(Task::ClampSelection);
                assert(tasks@ =~= account_tasks() + seq![Task::ClampSelection]);
                self.schedule(tasks);
            },
            Err(e) => {
                self.error_message = Some(failure_message("delete account", &e));
            },
        }
    }

    /// The state after [`Self::on_filter_deleted`].
    pub open spec fn on_filter_deleted_leads_to(
        self,
        result: Result<(), String>,
        next: App,
    ) -> bool {
        match result {
            Ok(_) => next == (App { agenda: next.agenda, ..self })
                && scheduled(self, next, seq![Task::ApplyFilters]),
            Err(e) => next == (App {
                error_message: next.error_message,
                ..self
            }) && says(next.error_message, failure("delete filter"@, e@)),
        }
    }

    /// Outcome of deleting a filter: the remaining filters are applied anew.
    pub fn on_filter_deleted(&mut self, result: Result<(), String>)
        ensures
            old(self).on_filter_deleted_leads_to(result, *final(self)),
    {
        match result {
            Ok(_) => self.schedule_one(Task::ApplyFilters),
            Err(e) => {
                self.error_message = Some(failure_message("delete filter", &e));
            },
        }
    }

    // ==================== Text prompts ====================

    /// The prompt is open with the text, to be answered in `return_mode`'s
    /// stead.
    pub open spec fn prompts(
        self,
        next: App,
        title: Seq<char>,
        value: Seq<char>,
        target: TextPromptTarget,
        return_mode: InputMode,
    ) -> bool {
        &&& next.text_prompt matches Some(prompt)
        &&& prompt.title@ == title
        &&& prompt.input.text() == value
        &&& prompt.input.at() == value.len()
        &&& prompt.target == target
        &&& prompt.return_mode == return_mode
        &&& next == (App {
            text_prompt: next.text_prompt,
            input_mode: InputMode::TextPrompt,
            ..self
        })
    }

    pub fn open_text_prompt(&mut self, title: &'static str, value: String, target: TextPromptTarget)
        ensures
            old(self).prompts(*final(self), title@, value@, target, old(self).input_mode),
    {
        let return_mode = self.input_mode;
        self.open_text_prompt_with_return(title, value, target, return_mode);
    }

    pub fn open_text_prompt_with_return(
        &mut self,
        title: &'static str,
        value: String,
        target: TextPromptTarget,
        return_mode: InputMode,
    )
        ensures
            old(self).prompts(*final(self), title@, value@, target, return_mode),
    {
        self.text_prompt = Some(
            TextPrompt { title, input: TextInput::new(value), target, return_mode },
        );
        self.input_mode = InputMode::TextPrompt;
    }

    /// The mode behind a prompt that is opened again: the filter edit screen
    /// while it is up.
    pub open spec fn behind_prompt(self) -> InputMode {
        if self.filter_edit is Some {
            InputMode::FilterEdit
        } else {
            InputMode::Normal
        }
    }

    pub fn restore_text_prompt(
        &mut self,
        title: &'static str,
        value: String,
        target: TextPromptTarget,
    )
        ensures
            old(self).prompts(*final(self), title@, value@, target, old(self).behind_prompt()),
    {
        let return_mode = if self.filter_edit.is_some() {
            InputMode::FilterEdit
        } else {
            InputMode::Normal
        };
        self.open_text_prompt_with_return(title, value, target, return_mode);
    }

    /// The state after [`Self::handle_text_prompt_input`].
    pub open spec fn handle_text_prompt_input_leads_to(self, req: InputRequest, next: App) -> bool {
        &&& next == (App { text_prompt: next.text_prompt, ..self })
        &&& match self.text_prompt {
            Some(p) => next.text_prompt matches Some(q) && q == (TextPrompt {
                input: q.input,
                ..p
            }) && q.input.text() == edited_text(p.input.text(), p.input.at(), req)
                && q.input.at() == edited_cursor(p.input.text(), p.input.at(), req),
            None => next.text_prompt is None,
        }
    }

    pub fn handle_text_prompt_input(&mut self, req: InputRequest)
        ensures
            old(self).handle_text_prompt_input_leads_to(req, *final(self)),
    {
        if let Some(mut prompt) = self.text_prompt.take() {
            prompt.input.handle(req);
            self.text_prompt = Some(prompt);
        }
    }

    pub fn text_prompt_title(&self) -> (title: &'static str)
        ensures
            title@ == match self.text_prompt {
                Some(p) => p.title@,
                None => ""@,
            },
    {
        match &self.text_prompt {
            Some(prompt) => prompt.title,
            None => "",
        }
    }

    pub fn text_prompt_value(&self) -> (value: &str)
        ensures
            value@ == match self.text_prompt {
                Some(p) => p.input.text(),
                None => ""@,
            },
    {
        match &self.text_prompt {
            Some(prompt) => prompt.input.value(),
            None => "",
        }
    }

    pub fn text_prompt_cursor(&self) -> (column: usize)
        ensures
            column == match self.text_prompt {
                Some(p) => display_column(p.input.text(), p.input.at()),
                None => 0,
            },
    {
        match &self.text_prompt {
            Some(prompt) => prompt.input.visual_cursor(),
            None => 0,
        }
    }

    pub fn text_prompt_scroll(&self, width: usize) -> (column: usize)
        ensures
            column == match self.text_prompt {
                Some(p) => display_scroll(p.input.text(), p.input.at(), width),
                None => 0,
            },
    {
        match &self.text_prompt {
            Some(prompt) => prompt.input.visual_scroll(width),
            None => 0,
        }
    }

    // ==================== Background jobs ====================

    /// Claim the single background slot for `job`. If another job is already
    /// running, show a consistent "<running> in progress" status and return
    /// false. This is the ONLY place a background-job conflict is reported.
    pub fn claim_job(&mut self, job: BackgroundJob) -> (claimed: bool)
        ensures
            match old(self).active_job {
                Some(running) => !claimed && *final(self) == (App {
                    status: final(self).status,
                    ..*old(self)
                }) && (final(self).status matches Some(s) && s.0@ == running.label()
                    + " in progress"@ && s.1 == super::expiry(old(self).clock)),
                None => claimed && *final(self) == (App { active_job: Some(job), ..*old(self) }),
            },
    {
        if let Some(running) = self.active_job {
            let mut m = running.gerund().to_owned();
            m.append(" in progress");
            self.show_status(m);
            return false;
        }
        self.active_job = Some(job);
        true
    }

    /// The state after asking for a job: it runs unless another does.
    pub open spec fn job_requested(self, job: BackgroundJob, next: App) -> bool {
        match self.active_job {
            Some(running) => {
                &&& next == (App { status: next.status, ..self })
                &&& next.status matches Some(s)
                &&& s.0@ == running.label() + " in progress"@
                &&& s.1 == super::expiry(self.clock)
            },
            None => {
                &&& next == (App { active_job: Some(job), agenda: next.agenda, ..self })
                &&& scheduled(self, next, seq![Task::StartJob { job }])
            },
        }
    }

    fn request_job(&mut self, job: BackgroundJob)
        ensures
            old(self).job_requested(job, *final(self)),
    {
        if self.claim_job(job) {
            self.schedule_one(Task::StartJob { job });
        }
    }

    /// Start importing new bank exports in the background.
    pub fn request_refresh(&mut self)
        ensures
            old(self).job_requested(BackgroundJob::Refresh, *final(self)),
    {
        self.request_job(BackgroundJob::Refresh);
    }

    /// Start the classification pipeline in the background.
    pub fn request_classify(&mut self)
        ensures
            old(self).job_requested(BackgroundJob::Classify, *final(self)),
    {
        self.request_job(BackgroundJob::Classify);
    }

    /// Rebuild the full-text index in the background.
    pub fn reindex_fts(&mut self)
        ensures
            old(self).job_requested(BackgroundJob::Reindex, *final(self)),
    {
        self.request_job(BackgroundJob::Reindex);
    }

    /// The state after [`Self::job_stopped`].
    pub open spec fn job_stopped_leads_to(self, next: App) -> bool {
        &&& next == (App {
            active_job: None,
            error_message: next.error_message,
            ..self
        })
        &&& says(
            next.error_message,
            match self.active_job {
                Some(job) => job.label(),
                None => "Background job"@,
            } + " stopped unexpectedly"@,
        )
    }

    /// The state after [`Self::poll_job`].
    pub open spec fn poll_job_leads_to(self, outcome: Option<JobOutcome>, next: App) -> bool {
        match outcome {
            None => next == self,
            Some(JobOutcome::Refresh(result)) => self.finish_refresh_leads_to(result, next),
            Some(JobOutcome::Classify(result)) => self.finish_classification_leads_to(
                result,
                next,
            ),
            Some(JobOutcome::Reindex(result)) => self.finish_reindex_leads_to(result, next),
            Some(JobOutcome::Stopped) => self.job_stopped_leads_to(next),
        }
    }

    /// Take in a finished background job (refresh / classify / reindex), if
    /// any.
    pub fn poll_job(&mut self, outcome: Option<JobOutcome>)
        ensures
            old(self).poll_job_leads_to(outcome, *final(self)),
    {
        match outcome {
            None => {},
            Some(JobOutcome::Refresh(result)) => self.finish_refresh(result),
            Some(JobOutcome::Classify(result)) => self.finish_classification(result),
            Some(JobOutcome::Reindex(result)) => self.finish_reindex(result),
            Some(JobOutcome::Stopped) => self.job_stopped(),
        }
    }

    /// The background worker went away without an outcome.
    pub fn job_stopped(&mut self)
        ensures
            old(self).job_stopped_leads_to(*final(self)),
    {
        let mut m = match self.active_job {
            Some(job) => job.gerund().to_owned(),
            None => "Background job".to_owned(),
        };
        m.append(" stopped unexpectedly");
        self.active_job = None;
        self.error_message = Some(m);
    }

    /// The state after [`Self::finish_refresh`].
    pub open spec fn finish_refresh_leads_to(
        self,
        result: Result<RefreshReport, String>,
        next: App,
    ) -> bool {
        &&& next == (App {
            active_job: None,
            similarity_stale: true,
            agenda: next.agenda,
            ..self
        })
        &&& scheduled(
            self,
            next,
            refresh_tasks() + seq![last_word(next.agenda@)],
        )
        &&& match result {
            Ok(report) => reports(last_word(next.agenda@), refreshed_text(report)),
            Err(e) => complains(
                last_word(next.agenda@),
                "Refresh failed: "@ + e@,
            ),
        }
    }

    /// A refresh ended: reload, then report. The report comes last because a
    /// successful reload clears the error shown.
    pub fn finish_refresh(&mut self, result: Result<RefreshReport, String>)
        ensures
            old(self).finish_refresh_leads_to(result, *final(self)),
    {
        self.active_job = None;
        let last = match result {
            Ok(report) => {
                let mut m = "Refreshed — added: ".to_owned();
                m.append(&decimal_string(report.transactions_added));
                // Updates are the rare case (a feed refining an already
                // imported description), so they earn a slot in the status
                // line only when they happened.
                if report.transactions_updated > 0 {
                    m.append(", updated: ");
                    m.append(&decimal_string(report.transactions_updated));
                }
                m.append(", skipped: ");
                m.append(&decimal_string(report.transactions_skipped));
                m.append(", files: ");
                m.append(&decimal_string(report.files_processed));
                proof {
                    reveal_strlit("");
                    assert(m@ =~= refreshed_text(report));
                }
                Task::Status { message: m }
            },
            Err(e) => {
                let mut m = "Refresh failed: ".to_owned();
                m.append(&e);
                Task::ShowError { message: m }
            },
        };
        self.report_after_refresh(last);
    }

    fn report_after_refresh(&mut self, last: Task)
        ensures
            *final(self) == (App {
                similarity_stale: true,
                agenda: final(self).agenda,
                ..*old(self)
            }),
            scheduled(*old(self), *final(self), refresh_tasks() + seq![last]),
            last_word(final(self).agenda@) == last,
    {
        self.schedule_one(last);
        self.refresh_data();
        assert(self.agenda@ =~= refresh_tasks() + seq![last] + old(self).agenda@);
    }

    /// The state after [`Self::finish_classification`].
    pub open spec fn finish_classification_leads_to(
        self,
        result: Result<String, String>,
        next: App,
    ) -> bool {
        &&& next == (App {
            active_job: None,
            similarity_stale: true,
            agenda: next.agenda,
            ..self
        })
        &&& scheduled(
            self,
            next,
            refresh_tasks() + seq![last_word(next.agenda@)],
        )
        &&& match result {
            Ok(report) => last_word(next.agenda@) == (Task::ShowReport { report }),
            Err(e) => complains(last_word(next.agenda@), failure("classify"@, e@)),
        }
    }

    /// A classification ended: reload, then show its summary or its failure.
    pub fn finish_classification(&mut self, result: Result<String, String>)
        ensures
            old(self).finish_classification_leads_to(result, *final(self)),
    {
        self.active_job = None;
        let last = match result {
            Ok(report) => Task::ShowReport { report },
            Err(e) => Task::ShowError { message: failure_message("classify", &e) },
        };
        self.report_after_refresh(last);
    }

    /// The state after [`Self::show_classify_report`].
    pub open spec fn show_classify_report_leads_to(self, report: String, next: App) -> bool {
        next == (App { classify_report: Some(report), ..self })
    }

    pub fn show_classify_report(&mut self, report: String)
        ensures
            old(self).show_classify_report_leads_to(report, *final(self)),
    {
        self.classify_report = Some(report);
    }

    pub fn dismiss_classify_report(&mut self)
        ensures
            *final(self) == (App { classify_report: None, ..*old(self) }),
    {
        self.classify_report = None;
    }

    /// The state after [`Self::finish_reindex`].
    pub open spec fn finish_reindex_leads_to(
        self,
        result: Result<usize, String>,
        next: App,
    ) -> bool {
        match result {
            Ok(count) => next == (App {
                active_job: None,
                similarity_stale: true,
                agenda: next.agenda,
                ..self
            }) && scheduled(
                self,
                next,
                refresh_tasks() + seq![last_word(next.agenda@)],
            ) && reports(
                last_word(next.agenda@),
                "Reindexed "@ + decimal(count as nat) + " transactions"@,
            ),
            Err(e) => next == (App {
                active_job: None,
                error_message: next.error_message,
                ..self
            }) && says(
                next.error_message,
                failure("reindex full-text search"@, e@),
            ),
        }
    }

    /// A reindexing ended: reload and report on success, show the failure
    /// else.
    pub fn finish_reindex(&mut self, result: Result<usize, String>)
        ensures
            old(self).finish_reindex_leads_to(result, *final(self)),
    {
        self.active_job = None;
        match result {
            Ok(count) => {
                let mut m = "Reindexed ".to_owned();
                m.append(&decimal_string(count));
                m.append(" transactions");
                let last = Task::Status { message: m };
                self.report_after_refresh(last);
            },
            Err(e) => {
                self.error_message = Some(failure_message("reindex full-text search", &e));
            },
        }
    }
}

/// What comes after a refresh on the agenda.
pub open spec fn last_word(agenda: Seq<Task>) -> Task {
    agenda[refresh_tasks().len() as int]
}

/// The task shows the text as an error.
pub open spec fn complains(task: Task, text: Seq<char>) -> bool {
    task matches Task::ShowError { message } && message@ == text
}

/// The task shows the text in the status area.
pub open spec fn reports(task: Task, text: Seq<char>) -> bool {
    task matches Task::Status { message } && message@ == text
}

/// What a refresh did, in one line.
pub open spec fn refreshed_text(report: RefreshReport) -> Seq<char> {
    "Refreshed — added: "@ + decimal(report.transactions_added as nat) + (
    if report.transactions_updated > 0 {
        ", updated: "@ + decimal(report.transactions_updated as nat)
    } else {
        ""@
    }) + ", skipped: "@ + decimal(report.transactions_skipped as nat) + ", files: "@ + decimal(
        report.files_processed as nat,
    )
}

} // verus!
