//! Key handling: what each key press does in each mode.

use vstd::prelude::*;

use super::app::tasks::BackgroundJob;
use super::app::{App, InputMode};
use super::input::{request_of, text_edit_request};
use super::key::{ascii_lower, eq_ignore_ascii_case, KeyCode, KeyEvent};
use super::keymap::{
    edit_action, filter_edit_ctrl_action, help_available, is_ctrl, normal_act, offers_help, Act,
    FilterEditCtrlAction, Trigger,
};
use super::search_bar::{completion, in_plain_text, wordless, ColonAnswer, SearchBar};
use crate::text::run_start;

verus! {

/// Enter or `y`.
pub open spec fn is_yes(key: KeyEvent) -> bool {
    key.code == KeyCode::Enter || (key.code matches KeyCode::Char(c) && ascii_lower(c)
        == ascii_lower('y'))
}

/// Esc or `n`.
pub open spec fn is_no(key: KeyEvent) -> bool {
    key.code == KeyCode::Esc || (key.code matches KeyCode::Char(c) && ascii_lower(c) == ascii_lower(
        'n',
    ))
}

fn yes(key: &KeyEvent) -> (b: bool)
    ensures
        b == is_yes(*key),
{
    match key.code {
        KeyCode::Enter => true,
        KeyCode::Char(c) => eq_ignore_ascii_case(c, 'y'),
        _ => false,
    }
}

fn no(key: &KeyEvent) -> (b: bool)
    ensures
        b == is_no(*key),
{
    match key.code {
        KeyCode::Esc => true,
        KeyCode::Char(c) => eq_ignore_ascii_case(c, 'n'),
        _ => false,
    }
}

/// Down, or `j` in a list.
pub open spec fn is_down(key: KeyEvent) -> bool {
    key.code == KeyCode::Down || key.code == KeyCode::Char('j')
}

/// Up, or `k` in a list.
pub open spec fn is_up(key: KeyEvent) -> bool {
    key.code == KeyCode::Up || key.code == KeyCode::Char('k')
}

/// Tab and its reverse leave for another tab; `Some` says whether for the next.
pub open spec fn switches(key: KeyEvent) -> Option<bool> {
    match key.code {
        KeyCode::Tab => Some(!key.modifiers.shift),
        KeyCode::BackTab => Some(false),
        _ => None,
    }
}

impl App {
    /// The state after going to the next tab, or the previous one.
    pub open spec fn tab_switched(self, forwards: bool, next: App) -> bool {
        if forwards {
            self.next_tab_leads_to(next)
        } else {
            self.previous_tab_leads_to(next)
        }
    }

    fn handle_tab_switch(&mut self, key: &KeyEvent) -> (handled: bool)
        requires
            old(self).editors_valid(),
        ensures
            final(self).editors_valid(),
            match switches(*key) {
                Some(forwards) => handled && old(self).tab_switched(forwards, *final(self)),
                None => !handled && *final(self) == *old(self),
            },
    {
        match key.code {
            KeyCode::Tab => {
                if key.modifiers.shift {
                    self.previous_tab();
                } else {
                    self.next_tab();
                }
                true
            },
            KeyCode::BackTab => {
                self.previous_tab();
                true
            },
            _ => false,
        }
    }

    // ==================== Normal ====================

    /// The state after moving about.
    pub open spec fn moved_by(self, act: Act, next: App) -> bool {
        match act {
            Act::NextItem => self.next_leads_to(next),
            Act::PrevItem => self.previous_leads_to(next),
            Act::NextTab => self.next_tab_leads_to(next),
            Act::PrevTab => self.previous_tab_leads_to(next),
            Act::NextSubtab => self.next_subtab_leads_to(next),
            Act::PrevSubtab => self.previous_subtab_leads_to(next),
            Act::DbSearch => self.start_db_search_leads_to(next),
            Act::FuzzySearch => self.start_fuzzy_search_leads_to(next),
            Act::ClearSearch => self.clear_search_leads_to(next),
            Act::ToggleDetails => next == (App { view_details: !self.view_details, ..self }),
            Act::Reindex => self.job_requested(BackgroundJob::Reindex, next),
            _ => next == (App { should_quit: true, ..self }),
        }
    }

    pub open spec fn moves(act: Act) -> bool {
        match act {
            Act::Quit
            | Act::NextItem
            | Act::PrevItem
            | Act::NextTab
            | Act::PrevTab
            | Act::NextSubtab
            | Act::PrevSubtab
            | Act::DbSearch
            | Act::FuzzySearch
            | Act::ClearSearch
            | Act::ToggleDetails
            | Act::Reindex => true,
            _ => false,
        }
    }

    fn run_move(&mut self, act: Act)
        requires
            old(self).editors_valid(),
            App::moves(act),
        ensures
            final(self).editors_valid(),
            old(self).moved_by(act, *final(self)),
    {
        match act {
            Act::NextItem => self.next(),
            Act::PrevItem => self.previous(),
            Act::NextTab => self.next_tab(),
            Act::PrevTab => self.previous_tab(),
            Act::NextSubtab => self.next_subtab(),
            Act::PrevSubtab => self.previous_subtab(),
            Act::DbSearch => self.start_db_search(),
            Act::FuzzySearch => self.start_fuzzy_search(),
            Act::ClearSearch => self.clear_search(),
            Act::ToggleDetails => self.toggle_view_details(),
            Act::Reindex => self.reindex_fts(),
            _ => {
                self.should_quit = true;
            },
        }
    }

    /// The state after an act on the filters.
    pub open spec fn filter_acted(self, act: Act, next: App) -> bool {
        match act {
            Act::CreateFilter => self.start_filter_create_leads_to(next),
            Act::ApplyFilters => self.apply_filter_categories_leads_to(next),
            Act::SaveSearchAsFilter => self.start_filter_from_search_leads_to(next),
            Act::RenameFilter => self.start_filter_rename_leads_to(next),
            Act::EditFilter => self.open_filter_edit_leads_to(next),
            Act::CycleFilterOverride => self.cycle_filter_override_leads_to(next),
            Act::ToggleFilterReview => self.toggle_filter_review_leads_to(next),
            _ => self.delete_filter_leads_to(next),
        }
    }

    pub open spec fn acts_on_filters(act: Act) -> bool {
        match act {
            Act::CreateFilter
            | Act::ApplyFilters
            | Act::SaveSearchAsFilter
            | Act::RenameFilter
            | Act::EditFilter
            | Act::CycleFilterOverride
            | Act::ToggleFilterReview
            | Act::DeleteFilter => true,
            _ => false,
        }
    }

    fn run_filter_act(&mut self, act: Act)
        requires
            old(self).editors_valid(),
            App::acts_on_filters(act),
        ensures
            final(self).editors_valid(),
            old(self).filter_acted(act, *final(self)),
    {
        match act {
            Act::CreateFilter => self.start_filter_create(),
            Act::ApplyFilters => self.apply_filter_categories(),
            Act::SaveSearchAsFilter => self.start_filter_from_search(),
            Act::RenameFilter => self.start_filter_rename(),
            Act::EditFilter => self.open_filter_edit(),
            Act::CycleFilterOverride => self.cycle_filter_override(),
            Act::ToggleFilterReview => self.toggle_filter_review(),
            _ => self.delete_filter(),
        }
    }

    /// The state after an act on the row under the cursor, or on the rows that
    /// match the search with it. Confirming accepts the category or the transfer
    /// under review.
    pub open spec fn row_acted(self, act: Act, next: App) -> bool {
        match act {
            Act::Categorise => self.start_category_edit_leads_to(next),
            Act::CategoriseMatching => self.start_bulk_categorise_matching_leads_to(next),
            Act::AcceptMatching => self.start_accept_matching_leads_to(next),
            Act::EditNote => self.start_note_edit_leads_to(next),
            Act::EditTags => self.start_tag_edit_leads_to(next),
            Act::RenameCategory => self.start_category_rename_leads_to(next),
            Act::MarkTransfer => self.start_transfer_mark_leads_to(next),
            Act::DeleteTransfer => self.delete_transfer_leads_to(next),
            Act::DeleteTxLink => self.delete_selected_tx_link_leads_to(next),
            Act::RemoveCategory => self.remove_ai_category_leads_to(next),
            _ => if self.reviewed_tx() is Some {
                self.confirm_ai_category_leads_to(next)
            } else {
                self.confirm_transfer_review_leads_to(next)
            },
        }
    }

    fn run_row_act(&mut self, act: Act)
        requires
            old(self).editors_valid(),
            !App::moves(act),
            !App::acts_on_filters(act),
        ensures
            final(self).editors_valid(),
            old(self).row_acted(act, *final(self)),
    {
        match act {
            Act::Categorise => self.start_category_edit(),
            Act::CategoriseMatching => self.start_bulk_categorise_matching(),
            Act::AcceptMatching => self.start_accept_matching(),
            Act::EditNote => self.start_note_edit(),
            Act::EditTags => self.start_tag_edit(),
            Act::RenameCategory => self.start_category_rename(),
            Act::MarkTransfer => self.start_transfer_mark(),
            Act::DeleteTransfer => self.delete_transfer(),
            Act::DeleteTxLink => self.delete_selected_tx_link(),
            Act::RemoveCategory => self.remove_ai_category(),
            _ => self.confirm_review(),
        }
    }

    fn confirm_review(&mut self)
        requires
            old(self).editors_valid(),
        ensures
            final(self).editors_valid(),
            if old(self).reviewed_tx() is Some {
                old(self).confirm_ai_category_leads_to(*final(self))
            } else {
                old(self).confirm_transfer_review_leads_to(*final(self))
            },
    {
        self.confirm_ai_category();
        self.confirm_transfer_review();
    }

    /// The state after an act of Normal mode.
    pub open spec fn acted(self, act: Act, next: App) -> bool {
        if App::moves(act) {
            self.moved_by(act, next)
        } else if App::acts_on_filters(act) {
            self.filter_acted(act, next)
        } else {
            self.row_acted(act, next)
        }
    }

    fn run_normal(&mut self, act: Act)
        requires
            old(self).editors_valid(),
        ensures
            final(self).editors_valid(),
            old(self).acted(act, *final(self)),
    {
        match act {
            Act::Quit
            | Act::NextItem
            | Act::PrevItem
            | Act::NextTab
            | Act::PrevTab
            | Act::NextSubtab
            | Act::PrevSubtab
            | Act::DbSearch
            | Act::FuzzySearch
            | Act::ClearSearch
            | Act::ToggleDetails
            | Act::Reindex => self.run_move(act),
            Act::CreateFilter
            | Act::ApplyFilters
            | Act::SaveSearchAsFilter
            | Act::RenameFilter
            | Act::EditFilter
            | Act::CycleFilterOverride
            | Act::ToggleFilterReview
            | Act::DeleteFilter => self.run_filter_act(act),
            _ => self.run_row_act(act),
        }
    }

    /// The state after a key in Normal mode: the act bound to it, if any.
    pub open spec fn normal_keyed(self, key: KeyEvent, next: App) -> bool {
        match self.bound(key) {
            Some(act) => self.acted(act, next),
            None => next == self,
        }
    }
}

/// Run the act bound to a key in Normal mode.
pub fn dispatch_normal(app: &mut App, key: KeyEvent)
    requires
        old(app).editors_valid(),
    ensures
        final(app).editors_valid(),
        old(app).normal_keyed(key, *final(app)),
{
    if let Some(act) = normal_act(app, &key) {
        app.run_normal(act);
    }
}

impl App {
    // ==================== Search modes ====================

    /// The state after a key in the search bar, with no popup in the way.
    pub open spec fn search_typed(
        self,
        key: KeyEvent,
        answer: Option<ColonAnswer>,
        next: App,
    ) -> bool {
        match key.code {
            KeyCode::Tab | KeyCode::BackTab => self.tab_switched(switches(key) == Some(true), next),
            KeyCode::Esc => self.clear_db_search_leads_to(next),
            KeyCode::Enter => self.confirm_db_search_leads_to(next),
            KeyCode::Down => self.next_leads_to(next),
            KeyCode::Up => self.previous_leads_to(next),
            _ => match request_of(key) {
                Some(req) => self.db_searched(req, answer, next),
                None => next == self,
            },
        }
    }

    fn search_type(&mut self, key: &KeyEvent, answer: Option<ColonAnswer>)
        requires
            old(self).editors_valid(),
        ensures
            final(self).editors_valid(),
            old(self).search_typed(*key, answer, *final(self)),
    {
        if self.handle_tab_switch(key) {
            return;
        }
        match key.code {
            KeyCode::Esc => self.clear_db_search(),
            KeyCode::Enter => self.confirm_db_search(),
            KeyCode::Down => self.next(),
            KeyCode::Up => self.previous(),
            _ => {
                if let Some(req) = text_edit_request(key) {
                    self.handle_db_search_input(req, answer);
                }
            },
        }
    }

    /// There is a completion to choose in the current tab's bar.
    pub open spec fn completes(self) -> bool {
        let bar = self.here().search_bar;
        completion(bar.text(), bar.query().parts@, bar.popup()) is Some
    }

    /// The state after a key while the popup is open: the arrows move in it, Tab
    /// and Enter choose from it and Esc closes it.
    pub open spec fn popup_keyed(
        self,
        key: KeyEvent,
        answer: Option<ColonAnswer>,
        next: App,
    ) -> bool {
        match key.code {
            KeyCode::Down => self.popup_moved(true, next),
            KeyCode::Up => self.popup_moved(false, next),
            KeyCode::Esc => self.filter_autocomplete_close_leads_to(next),
            KeyCode::Tab | KeyCode::Enter => self.completion_keyed(key, answer, next),
            _ => self.search_typed(key, answer, next),
        }
    }

    /// The state after Tab or Enter with the popup open: the completion is
    /// chosen, or where there is none, the popup closes and the key is typed.
    #[verifier::opaque]
    pub open spec fn completion_keyed(
        self,
        key: KeyEvent,
        answer: Option<ColonAnswer>,
        next: App,
    ) -> bool {
        if self.completes() {
            self.filter_autocomplete_select_leads_to(true, next)
        } else {
            exists|closed: App|
                self.filter_autocomplete_select_leads_to(false, closed)
                    && #[trigger] closed.search_typed(key, answer, next)
        }
    }

    /// The state after a key in DB search.
    pub open spec fn db_search_keyed(
        self,
        key: KeyEvent,
        answer: Option<ColonAnswer>,
        next: App,
    ) -> bool {
        if Trigger::Ctrl('s').fires(key) {
            self.start_filter_from_search_leads_to(next)
        } else if self.here().search_bar.popup() is Some {
            self.popup_keyed(key, answer, next)
        } else {
            self.search_typed(key, answer, next)
        }
    }

    fn choose_or_type(&mut self, key: &KeyEvent, answer: Option<ColonAnswer>)
        requires
            old(self).editors_valid(),
        ensures
            final(self).editors_valid(),
            old(self).completion_keyed(*key, answer, *final(self)),
    {
        reveal(App::completion_keyed);
        if self.filter_autocomplete_select() {
            return;
        }
        let ghost closed = *self;
        self.search_type(key, answer);
        assert(closed.search_typed(*key, answer, *self));
    }

    fn handle_db_search_key(&mut self, key: &KeyEvent, answer: Option<ColonAnswer>)
        requires
            old(self).editors_valid(),
        ensures
            final(self).editors_valid(),
            old(self).db_search_keyed(*key, answer, *final(self)),
    {
        if is_ctrl(key, 's') {
            self.start_filter_from_search();
            return;
        }
        if self.filter_autocomplete_active() {
            self.handle_popup_key(key, answer);
        } else {
            self.search_type(key, answer);
        }
    }

    fn handle_popup_key(&mut self, key: &KeyEvent, answer: Option<ColonAnswer>)
        requires
            old(self).editors_valid(),
        ensures
            final(self).editors_valid(),
            old(self).popup_keyed(*key, answer, *final(self)),
    {
        match key.code {
            KeyCode::Down => self.filter_autocomplete_next(),
            KeyCode::Up => self.filter_autocomplete_prev(),
            KeyCode::Esc => self.filter_autocomplete_close(),
            KeyCode::Tab | KeyCode::Enter => self.choose_or_type(key, answer),
            _ => self.search_type(key, answer),
        }
    }

    /// The state after a key in fuzzy search.
    pub open spec fn fuzzy_keyed(self, key: KeyEvent, next: App) -> bool {
        match key.code {
            KeyCode::Tab | KeyCode::BackTab => self.tab_switched(switches(key) == Some(true), next),
            KeyCode::Esc => self.clear_fuzzy_search_leads_to(next),
            KeyCode::Enter => next == (App { input_mode: InputMode::Normal, ..self }),
            KeyCode::Down => self.next_leads_to(next),
            KeyCode::Up => self.previous_leads_to(next),
            _ => match request_of(key) {
                Some(req) => self.handle_fuzzy_search_input_leads_to(req, next),
                None => next == self,
            },
        }
    }

    fn handle_fuzzy_key(&mut self, key: &KeyEvent)
        requires
            old(self).editors_valid(),
        ensures
            final(self).editors_valid(),
            old(self).fuzzy_keyed(*key, *final(self)),
    {
        if self.handle_tab_switch(key) {
            return;
        }
        match key.code {
            KeyCode::Esc => self.clear_fuzzy_search(),
            KeyCode::Enter => self.confirm_fuzzy_search(),
            KeyCode::Down => self.next(),
            KeyCode::Up => self.previous(),
            _ => {
                if let Some(req) = text_edit_request(key) {
                    self.handle_fuzzy_search_input(req);
                }
            },
        }
    }

    // ==================== Filter edit ====================

    /// The state after a key with Control on the filter edit screen.
    pub open spec fn edit_acted(self, action: FilterEditCtrlAction, next: App) -> bool {
        match action {
            FilterEditCtrlAction::Rename => self.start_filter_rename_leads_to(next),
            FilterEditCtrlAction::Category => self.start_category_edit_leads_to(next),
            FilterEditCtrlAction::CycleOverride => self.cycle_filter_override_leads_to(next),
            FilterEditCtrlAction::ToggleReview => self.toggle_filter_review_leads_to(next),
            FilterEditCtrlAction::Apply => self.apply_filter_categories_leads_to(next),
        }
    }

    fn handle_filter_edit_ctrl(&mut self, key: &KeyEvent) -> (handled: bool)
        requires
            old(self).editors_valid(),
        ensures
            final(self).editors_valid(),
            match edit_action(*key) {
                Some(action) => handled && old(self).edit_acted(action, *final(self)),
                None => !handled && *final(self) == *old(self),
            },
    {
        let action = match filter_edit_ctrl_action(key) {
            Some(action) => action,
            None => return false,
        };
        match action {
            FilterEditCtrlAction::Rename => self.start_filter_rename(),
            FilterEditCtrlAction::Category => self.start_category_edit(),
            FilterEditCtrlAction::CycleOverride => self.cycle_filter_override(),
            FilterEditCtrlAction::ToggleReview => self.toggle_filter_review(),
            FilterEditCtrlAction::Apply => self.apply_filter_categories(),
        }
        true
    }

    /// The state after a key on the filter edit screen, with no popup in the
    /// way.
    pub open spec fn edit_typed(
        self,
        key: KeyEvent,
        answer: Option<ColonAnswer>,
        next: App,
    ) -> bool {
        match key.code {
            KeyCode::Esc => self.request_exit_filter_edit_leads_to(next),
            KeyCode::Down => self.filter_edit_preview_next_leads_to(next),
            KeyCode::Up => self.filter_edit_preview_prev_leads_to(next),
            KeyCode::Enter => self.save_filter_edit_leads_to(next),
            _ => match request_of(key) {
                Some(req) => self.filter_edit_input_leads_to(req, answer, next),
                None => next == self,
            },
        }
    }

    fn edit_type(&mut self, key: &KeyEvent, answer: Option<ColonAnswer>)
        requires
            old(self).editors_valid(),
        ensures
            final(self).editors_valid(),
            old(self).edit_typed(*key, answer, *final(self)),
    {
        match key.code {
            KeyCode::Esc => self.request_exit_filter_edit(),
            KeyCode::Down => self.filter_edit_preview_next(),
            KeyCode::Up => self.filter_edit_preview_prev(),
            KeyCode::Enter => self.save_filter_edit(),
            _ => {
                if let Some(req) = text_edit_request(key) {
                    self.filter_edit_input(req, answer);
                }
            },
        }
    }

    /// The popup of the query under edit is open.
    pub open spec fn edit_popup(self) -> bool {
        self.filter_edit matches Some(edit) && edit.search_bar.popup() is Some
    }

    /// There is a completion to choose for the query under edit.
    pub open spec fn edit_completes(self) -> bool {
        self.filter_edit matches Some(edit) && completion(
            edit.search_bar.text(),
            edit.search_bar.query().parts@,
            edit.search_bar.popup(),
        ) is Some
    }

    /// The state after a key on the filter edit screen.
    pub open spec fn filter_edit_keyed(
        self,
        key: KeyEvent,
        answer: Option<ColonAnswer>,
        next: App,
    ) -> bool {
        match edit_action(key) {
            Some(action) => self.edit_acted(action, next),
            None => if self.edit_popup() {
                match key.code {
                    KeyCode::Down => self.filter_edit_autocomplete_next_leads_to(next),
                    KeyCode::Up => self.filter_edit_autocomplete_prev_leads_to(next),
                    KeyCode::Esc => self.filter_edit_autocomplete_close_leads_to(next),
                    KeyCode::Tab | KeyCode::Enter => if self.edit_completes() {
                        self.filter_edit_autocomplete_select_leads_to(true, next)
                    } else {
                        exists|closed: App|
                            self.filter_edit_autocomplete_select_leads_to(false, closed)
                                && #[trigger] closed.edit_typed(key, answer, next)
                    },
                    _ => self.edit_typed(key, answer, next),
                }
            } else {
                self.edit_typed(key, answer, next)
            },
        }
    }

    fn edit_choose_or_type(&mut self, key: &KeyEvent, answer: Option<ColonAnswer>)
        requires
            old(self).editors_valid(),
        ensures
            final(self).editors_valid(),
            if old(self).edit_completes() {
                old(self).filter_edit_autocomplete_select_leads_to(true, *final(self))
            } else {
                exists|closed: App|
                    old(self).filter_edit_autocomplete_select_leads_to(false, closed)
                        && #[trigger] closed.edit_typed(*key, answer, *final(self))
            },
    {
        if self.filter_edit_autocomplete_select() {
            return;
        }
        let ghost closed = *self;
        self.edit_type(key, answer);
        assert(closed.edit_typed(*key, answer, *self));
    }

    fn handle_filter_edit_key(&mut self, key: &KeyEvent, answer: Option<ColonAnswer>)
        requires
            old(self).editors_valid(),
        ensures
            final(self).editors_valid(),
            old(self).filter_edit_keyed(*key, answer, *final(self)),
    {
        if self.handle_filter_edit_ctrl(key) {
            return;
        }
        if self.filter_edit_autocomplete_active() {
            match key.code {
                KeyCode::Down => self.filter_edit_autocomplete_next(),
                KeyCode::Up => self.filter_edit_autocomplete_prev(),
                KeyCode::Esc => self.filter_edit_autocomplete_close(),
                KeyCode::Tab | KeyCode::Enter => self.edit_choose_or_type(key, answer),
                _ => self.edit_type(key, answer),
            }
        } else {
            self.edit_type(key, answer);
        }
    }

    // ==================== Popups ====================

    /// The state after a key in the category popup.
    pub open spec fn category_keyed(self, key: KeyEvent, next: App) -> bool {
        match key.code {
            KeyCode::Esc => self.cancelled(next),
            KeyCode::Enter => self.confirm_category_leads_to(next),
            KeyCode::Backspace => self.backspace_category_input_leads_to(next),
            KeyCode::Down => self.category_next_leads_to(next),
            KeyCode::Up => self.category_previous_leads_to(next),
            KeyCode::Char(c) => self.update_category_input_leads_to(c, next),
            _ => next == self,
        }
    }

    fn handle_category_key(&mut self, key: &KeyEvent)
        requires
            old(self).editors_valid(),
        ensures
            final(self).editors_valid(),
            old(self).category_keyed(*key, *final(self)),
    {
        match key.code {
            KeyCode::Esc => self.cancel_input(),
            KeyCode::Enter => self.confirm_category(),
            KeyCode::Backspace => self.backspace_category_input(),
            KeyCode::Down => self.category_next(),
            KeyCode::Up => self.category_previous(),
            KeyCode::Char(c) => self.update_category_input(c),
            _ => {},
        }
    }

    /// The state after a key in the bulk-apply popup.
    pub open spec fn bulk_keyed(self, key: KeyEvent, next: App) -> bool {
        match key.code {
            KeyCode::Esc => next == (App {
                bulk_apply: None,
                input_mode: InputMode::Normal,
                ..self
            }),
            KeyCode::Enter => self.bulk_apply_confirm_leads_to(next),
            KeyCode::Char(' ') => self.bulk_apply_toggle_leads_to(next),
            KeyCode::Char('a') => self.bulk_apply_toggle_all_leads_to(next),
            KeyCode::Char('j') | KeyCode::Down => self.bulk_apply_next_leads_to(next),
            KeyCode::Char('k') | KeyCode::Up => self.bulk_apply_prev_leads_to(next),
            _ => next == self,
        }
    }

    fn handle_bulk_key(&mut self, key: &KeyEvent)
        requires
            old(self).editors_valid(),
        ensures
            final(self).editors_valid(),
            old(self).bulk_keyed(*key, *final(self)),
    {
        match key.code {
            KeyCode::Esc => self.bulk_apply_cancel(),
            KeyCode::Enter => self.bulk_apply_confirm(),
            KeyCode::Char(' ') => self.bulk_apply_toggle(),
            KeyCode::Char('a') => self.bulk_apply_toggle_all(),
            KeyCode::Char('j') | KeyCode::Down => self.bulk_apply_next(),
            KeyCode::Char('k') | KeyCode::Up => self.bulk_apply_prev(),
            _ => {},
        }
    }

    /// The state after a key in the text prompt.
    pub open spec fn prompt_keyed(self, key: KeyEvent, next: App) -> bool {
        match key.code {
            KeyCode::Esc => self.cancelled(next),
            KeyCode::Enter => self.confirm_text_prompt_leads_to(next),
            _ => match request_of(key) {
                Some(req) => self.handle_text_prompt_input_leads_to(req, next),
                None => next == self,
            },
        }
    }

    fn handle_prompt_key(&mut self, key: &KeyEvent)
        requires
            old(self).editors_valid(),
        ensures
            final(self).editors_valid(),
            old(self).prompt_keyed(*key, *final(self)),
    {
        match key.code {
            KeyCode::Esc => self.cancel_input(),
            KeyCode::Enter => self.confirm_text_prompt(),
            _ => {
                if let Some(req) = text_edit_request(key) {
                    self.handle_text_prompt_input(req);
                }
            },
        }
    }

    /// The state after a key at a question.
    pub open spec fn confirm_keyed(self, key: KeyEvent, next: App) -> bool {
        if is_yes(key) {
            self.confirm_proceed_leads_to(next)
        } else if is_no(key) {
            self.cancelled(next)
        } else {
            next == self
        }
    }

    fn handle_confirm_key(&mut self, key: &KeyEvent)
        requires
            old(self).editors_valid(),
        ensures
            final(self).editors_valid(),
            old(self).confirm_keyed(*key, *final(self)),
    {
        if yes(key) {
            self.confirm_proceed();
        } else if no(key) {
            self.cancel_input();
        }
    }

    /// The state after a key in the list of what applying would change.
    pub open spec fn apply_keyed(self, key: KeyEvent, next: App) -> bool {
        if is_yes(key) {
            self.apply_filters_confirm_leads_to(next)
        } else if is_no(key) {
            self.cancelled(next)
        } else if is_down(key) {
            self.apply_filters_preview_next_leads_to(next)
        } else if is_up(key) {
            self.apply_filters_preview_prev_leads_to(next)
        } else {
            next == self
        }
    }

    fn handle_apply_key(&mut self, key: &KeyEvent)
        requires
            old(self).editors_valid(),
        ensures
            final(self).editors_valid(),
            old(self).apply_keyed(*key, *final(self)),
    {
        if yes(key) {
            self.apply_filters_confirm();
            return;
        }
        if no(key) {
            self.cancel_input();
            return;
        }
        match key.code {
            KeyCode::Char('j') | KeyCode::Down => self.apply_filters_preview_next(),
            KeyCode::Char('k') | KeyCode::Up => self.apply_filters_preview_prev(),
            _ => {},
        }
    }

    /// The state after a key while a transfer is being marked.
    pub open spec fn transfer_keyed(self, key: KeyEvent, next: App) -> bool {
        match key.code {
            KeyCode::Esc => self.cancelled(next),
            KeyCode::Char('t') => self.start_transfer_mark_leads_to(next),
            KeyCode::Char('T') | KeyCode::Enter => self.transfer_completed(next),
            KeyCode::Char('j') | KeyCode::Down => self.next_leads_to(next),
            KeyCode::Char('k') | KeyCode::Up => self.previous_leads_to(next),
            _ => next == self,
        }
    }

    fn finish_transfer(&mut self)
        requires
            old(self).editors_valid(),
        ensures
            final(self).editors_valid(),
            old(self).transfer_completed(*final(self)),
    {
        reveal(App::linking);
        self.complete_transfer();
    }

    fn handle_transfer_key(&mut self, key: &KeyEvent)
        requires
            old(self).editors_valid(),
        ensures
            final(self).editors_valid(),
            old(self).transfer_keyed(*key, *final(self)),
    {
        match key.code {
            KeyCode::Esc => self.cancel_input(),
            KeyCode::Char('t') => self.start_transfer_mark(),
            KeyCode::Char('T') | KeyCode::Enter => self.finish_transfer(),
            KeyCode::Char('j') | KeyCode::Down => self.next(),
            KeyCode::Char('k') | KeyCode::Up => self.previous(),
            _ => {},
        }
    }

    // ==================== All modes ====================

    /// The state after a key in the current mode.
    pub open spec fn mode_keyed(
        self,
        key: KeyEvent,
        answer: Option<ColonAnswer>,
        next: App,
    ) -> bool {
        match self.input_mode {
            InputMode::Normal => self.normal_keyed(key, next),
            InputMode::DbSearch => self.db_search_keyed(key, answer, next),
            InputMode::FuzzySearch => self.fuzzy_keyed(key, next),
            InputMode::FilterEdit => self.filter_edit_keyed(key, answer, next),
            InputMode::Category => self.category_keyed(key, next),
            InputMode::Note => self.note_keyed(key, next),
            InputMode::Tags => self.tags_keyed(key, next),
            InputMode::TextPrompt => self.prompt_keyed(key, next),
            InputMode::BulkApply => self.bulk_keyed(key, next),
            InputMode::Confirm => self.confirm_keyed(key, next),
            InputMode::ConfirmApplyFilters => self.apply_keyed(key, next),
            InputMode::TransferPending => self.transfer_keyed(key, next),
            InputMode::TransferNoMatch => if key.code == KeyCode::Esc {
                self.cancelled(next)
            } else {
                next == self
            },
        }
    }

    fn handle_mode_key(&mut self, key: &KeyEvent, answer: Option<ColonAnswer>)
        requires
            old(self).editors_valid(),
        ensures
            final(self).editors_valid(),
            old(self).mode_keyed(*key, answer, *final(self)),
    {
        match self.input_mode {
            InputMode::Normal => dispatch_normal(self, *key),
            InputMode::DbSearch => self.handle_db_search_key(key, answer),
            InputMode::FuzzySearch => self.handle_fuzzy_key(key),
            InputMode::FilterEdit => self.handle_filter_edit_key(key, answer),
            InputMode::Category => self.handle_category_key(key),
            InputMode::Note => self.handle_note_key(key),
            InputMode::Tags => self.handle_tag_key(key),
            InputMode::TextPrompt => self.handle_prompt_key(key),
            InputMode::BulkApply => self.handle_bulk_key(key),
            InputMode::Confirm => self.handle_confirm_key(key),
            InputMode::ConfirmApplyFilters => self.handle_apply_key(key),
            InputMode::TransferPending => self.handle_transfer_key(key),
            InputMode::TransferNoMatch => {
                if key.code == KeyCode::Esc {
                    self.cancel_input();
                }
            },
        }
    }

    /// The state after a key press. A report or the popover is closed first;
    /// Esc and Enter dismiss an error; Alt-? shows or hides the hints, and `?`
    /// opens the popover where the mode offers it.
    pub open spec fn keyed(self, key: KeyEvent, answer: Option<ColonAnswer>, next: App) -> bool {
        let leaves = key.code == KeyCode::Esc || key.code == KeyCode::Enter;
        let asks = key.code == KeyCode::Char('?');
        if self.classify_report is Some {
            next == (App {
                classify_report: if leaves {
                    None
                } else {
                    self.classify_report
                },
                ..self
            })
        } else if self.keybind_help_open {
            next == (App { keybind_help_open: !leaves && !asks, ..self })
        } else if self.error_message is Some && leaves {
            next == (App { error_message: None, ..self })
        } else if asks && key.modifiers.alt {
            next == (App { hints_visible: !self.hints_visible, ..self })
        } else if asks && !key.modifiers.control && offers_help(self.input_mode) {
            next == (App { keybind_help_open: true, ..self })
        } else {
            self.mode_keyed(key, answer, next)
        }
    }

    /// Handle a key press. `answer` is the answer to [`Self::colon_question`].
    pub fn handle_key(&mut self, key: &KeyEvent, answer: Option<ColonAnswer>)
        requires
            old(self).editors_valid(),
        ensures
            final(self).editors_valid(),
            old(self).keyed(*key, answer, *final(self)),
    {
        let leaves = key.code == KeyCode::Esc || key.code == KeyCode::Enter;
        let asks = key.code == KeyCode::Char('?');
        if self.classify_report.is_some() {
            if leaves {
                self.dismiss_classify_report();
            }
            return;
        }
        if self.keybind_help_open {
            if leaves || asks {
                self.keybind_help_open = false;
            }
            return;
        }
        if leaves && self.dismiss_error() {
            return;
        }
        if asks && key.modifiers.alt {
            self.hints_visible = !self.hints_visible;
            return;
        }
        if asks && !key.modifiers.control && !key.modifiers.alt && help_available(self.input_mode) {
            self.keybind_help_open = true;
            return;
        }
        self.handle_mode_key(key, answer);
    }

    /// The bar a key is typed into.
    pub open spec fn typed_into(self) -> Option<SearchBar> {
        match self.input_mode {
            InputMode::DbSearch => Some(self.here().search_bar),
            InputMode::FilterEdit => match self.filter_edit {
                Some(edit) => Some(edit.search_bar),
                None => None,
            },
            _ => None,
        }
    }

    /// What has to be known before a key: a `:` asks what the word before the
    /// cursor stands for, and for the parse of the text without it.
    pub fn colon_question(&self, key: &KeyEvent) -> (question: Option<(String, String)>)
        ensures
            match self.typed_into() {
                Some(bar) => if key.code == KeyCode::Char(':') && in_plain_text(bar.in_context())
                    && run_start(bar.text(), bar.at()) < bar.at() {
                    question matches Some(q) && q.0@ == bar.text().subrange(
                        run_start(bar.text(), bar.at()),
                        bar.at(),
                    ) && q.1@ == wordless(bar.text(), bar.at())
                } else {
                    question is None
                },
                None => question is None,
            },
    {
        if key.code != KeyCode::Char(':') {
            return None;
        }
        let bar = match self.input_mode {
            InputMode::DbSearch => &self.search.get(self.current_tab_key()).search_bar,
            InputMode::FilterEdit => match &self.filter_edit {
                Some(edit) => &edit.search_bar,
                None => return None,
            },
            _ => return None,
        };
        match bar.colon_word() {
            Some(word) => Some((word, bar.without_word())),
            None => None,
        }
    }
}

} // verus!
