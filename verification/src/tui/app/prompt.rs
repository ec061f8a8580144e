//! Answering the text prompt.

use vstd::prelude::*;
use vstd::string::*;

use super::tabs::Tab;
use super::tasks::Task;
use super::{scheduled, App, InputMode, TextPromptTarget};
use crate::text::{trim, trimmed};

verus! {

/// The task that carries out what the prompt was for.
pub open spec fn task_of(target: TextPromptTarget, value: String, return_mode: InputMode) -> Task {
    match target {
        TextPromptTarget::CategoryRename(category) => Task::RenameCategory {
            category,
            new_path: value,
        },
        TextPromptTarget::AccountRename(account) => Task::RenameAccount {
            account,
            new_path: value,
        },
        TextPromptTarget::FilterCreate => Task::CreateFilter { name: value },
        TextPromptTarget::FilterCreateFromQuery(query) => Task::CreateFilterFromQuery {
            name: value,
            query,
            return_mode,
        },
        TextPromptTarget::FilterRename(id) => Task::RenameFilter { id, name: value },
    }
}

impl App {
    /// The value leaves things as they are: it is empty, or unchanged, or the
    /// tab it was for is no longer there.
    pub open spec fn declines(self, target: TextPromptTarget, value: Seq<char>) -> bool {
        ||| value.len() == 0
        ||| match target {
            TextPromptTarget::CategoryRename(c) => value == c.path@,
            TextPromptTarget::AccountRename(a) => value == a.path@,
            TextPromptTarget::FilterCreate => self.current_tab != Tab::Filters,
            TextPromptTarget::FilterCreateFromQuery(_) => self.current_tab != Tab::Transactions,
            TextPromptTarget::FilterRename(id) => self.current_tab != Tab::Filters
                || self.has_filter_named(id, value),
        }
    }

    /// The state after Enter in the prompt.
    pub open spec fn prompt_answered(
        self,
        target: TextPromptTarget,
        value: Seq<char>,
        mode: InputMode,
        next: App,
    ) -> bool {
        if self.declines(target, value) {
            if target is FilterCreateFromQuery {
                next == (App { input_mode: mode, ..self })
            } else {
                self.cancelled(next)
            }
        } else {
            &&& next == (App { agenda: next.agenda, ..self })
            &&& exists|answer: String|
                answer@ == value && scheduled(
                    self,
                    next,
                    seq![#[trigger] task_of(target, answer, mode)],
                )
        }
    }

    /// The state after [`Self::confirm_text_prompt`].
    pub open spec fn confirm_text_prompt_leads_to(self, next: App) -> bool {
        match self.text_prompt {
            Some(prompt) => (App { text_prompt: None, ..self }).prompt_answered(
                prompt.target,
                trimmed(prompt.input.text()),
                prompt.return_mode,
                next,
            ),
            None => self.cancelled(next),
        }
    }

    /// Enter in the text prompt: its trimmed text is the answer.
    pub fn confirm_text_prompt(&mut self)
        ensures
            old(self).confirm_text_prompt_leads_to(*final(self)),
    {
        let prompt = match self.text_prompt.take() {
            Some(prompt) => prompt,
            None => {
                self.cancel_input();
                return;
            },
        };
        let value = trim(prompt.input.value()).to_owned();
        self.answer_prompt(prompt.target, value, prompt.return_mode);
    }

    fn answer_prompt(&mut self, target: TextPromptTarget, value: String, return_mode: InputMode)
        ensures
            old(self).prompt_answered(target, value@, return_mode, *final(self)),
    {
        let ghost task = task_of(target, value, return_mode);
        match target {
            TextPromptTarget::CategoryRename(category) => self.confirm_category_rename(
                category,
                value,
            ),
            TextPromptTarget::AccountRename(account) => self.confirm_account_rename(
                account,
                value,
            ),
            TextPromptTarget::FilterCreate => self.confirm_filter_create(value),
            TextPromptTarget::FilterCreateFromQuery(query) => self.confirm_filter_from_query(
                value,
                query,
                return_mode,
            ),
            TextPromptTarget::FilterRename(id) => self.confirm_filter_rename(id, value),
        }
        assert(!old(self).declines(target, value@) ==> scheduled(*old(self), *self, seq![task]));
    }
}

} // verus!
