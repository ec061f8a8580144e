//! The filter edit screen: a saved filter's query with a preview of what it
//! matches, and the preview of what applying all filters would change.

use vstd::prelude::*;
use vstd::string::*;

use super::caches::{loaded, shown_after};
use super::search::{chosen, same_parse, same_text};
use super::tabs::Tab;
use super::tasks::{BarTarget, Task};
use super::{
    after, before, failure, failure_message, next_wrapping, prev_wrapping, says, scheduled, App,
    ApplyFiltersPreview, ConfirmAction, FilterEditState, InputMode,
};
use crate::model::{FilterOverride, Transaction};
use crate::text::same;
use crate::tui::input::{edited_cursor, edited_text, InputRequest};
use crate::tui::search_bar::{after_input, completion, moved, ColonAnswer, SearchBar};

verus! {

/// Maximum transactions shown in the filter-edit preview.
pub const FILTER_EDIT_PREVIEW_LIMIT: usize = 500;

/// A scroll position kept on a row.
pub open spec fn clamped(scroll: int, len: int) -> int {
    if len == 0 {
        0
    } else if scroll < len {
        scroll
    } else {
        len - 1
    }
}

fn clamp_preview_scroll(state: &mut FilterEditState)
    ensures
        *final(state) == (FilterEditState {
            preview_scroll: final(state).preview_scroll,
            ..*old(state)
        }),
        final(state).preview_scroll == clamped(
            old(state).preview_scroll as int,
            old(state).preview@.len() as int,
        ),
{
    if state.preview.len() == 0 {
        state.preview_scroll = 0;
    } else if state.preview_scroll >= state.preview.len() {
        state.preview_scroll = state.preview.len() - 1;
    }
}

/// The bar after typing into it, where `~` is an ordinary character.
pub open spec fn typed(
    was: SearchBar,
    req: InputRequest,
    answer: Option<ColonAnswer>,
    bar: SearchBar,
) -> bool {
    let plain = req == InputRequest::InsertChar('~');
    let r = after_input(
        was.text(),
        was.at(),
        was.query().parts@,
        was.in_context(),
        req,
        answer,
    );
    &&& same_parse(was, bar)
    &&& bar.text() == if plain {
        edited_text(was.text(), was.at(), req)
    } else {
        r.0
    }
    &&& bar.at() == if plain {
        edited_cursor(was.text(), was.at(), req)
    } else {
        r.1
    }
}

/// What is parsed and loaded after the query changed.
pub open spec fn preview_tasks() -> Seq<Task> {
    seq![Task::Parse { target: BarTarget::FilterEdit }, Task::LoadFilterPreview]
}

impl App {
    /// The state after [`Self::open_filter_edit`].
    pub open spec fn open_filter_edit_leads_to(self, next: App) -> bool {
        match self.chosen_filter() {
            Some(f) => {
                &&& next == (App {
                    filter_edit: next.filter_edit,
                    input_mode: InputMode::FilterEdit,
                    agenda: next.agenda,
                    ..self
                })
                &&& scheduled(self, next, preview_tasks())
                &&& next.filter_edit matches Some(edit)
                &&& edit.filter_id == f.id
                &&& edit.name == f.name
                &&& edit.search_bar.text() == f.query@
                &&& edit.search_bar.at() == f.query@.len()
                &&& edit.search_bar.popup() is None
                &&& edit.preview@.len() == 0
                &&& edit.preview_scroll == 0
            },
            None => next == self,
        }
    }

    /// Edit the selected filter's query.
    pub fn open_filter_edit(&mut self)
        ensures
            old(self).open_filter_edit_leads_to(*final(self)),
    {
        let filter = match self.selected_filter() {
            Some(filter) => filter.clone(),
            None => return,
        };
        let mut search_bar = SearchBar::new();
        search_bar.set_value(&filter.query);
        self.filter_edit = Some(
            FilterEditState {
                filter_id: filter.id,
                name: filter.name,
                search_bar,
                preview: Vec::new(),
                preview_scroll: 0,
            },
        );
        self.input_mode = InputMode::FilterEdit;
        self.recompute_filter_preview();
    }

    /// Parse the query under edit, then load what it matches.
    fn recompute_filter_preview(&mut self)
        ensures
            *final(self) == (App { agenda: final(self).agenda, ..*old(self) }),
            scheduled(*old(self), *final(self), preview_tasks()),
    {
        let tasks = vec![
            Task::Parse { target: BarTarget::FilterEdit },
            Task::LoadFilterPreview,
        ];
        assert(tasks@ =~= preview_tasks());
        self.schedule(tasks);
    }

    /// The state after [`Self::filter_edit_input`].
    pub open spec fn filter_edit_input_leads_to(
        self,
        req: InputRequest,
        answer: Option<ColonAnswer>,
        next: App,
    ) -> bool {
        match self.filter_edit {
            Some(was) => {
                &&& next == (App {
                    filter_edit: next.filter_edit,
                    agenda: next.agenda,
                    ..self
                })
                &&& next.filter_edit matches Some(edit)
                &&& edit == (FilterEditState {
                    search_bar: edit.search_bar,
                    preview_scroll: 0,
                    ..was
                })
                &&& typed(was.search_bar, req, answer, edit.search_bar)
                &&& scheduled(self, next, preview_tasks())
            },
            None => next == self,
        }
    }

    pub fn filter_edit_input(&mut self, req: InputRequest, answer: Option<ColonAnswer>)
        ensures
            old(self).filter_edit_input_leads_to(req, answer, *final(self)),
    {
        let mut state = match self.filter_edit.take() {
            Some(state) => state,
            None => return,
        };
        state.search_bar.handle_input_without_fuzzy_transition(req, answer);
        state.preview_scroll = 0;
        self.filter_edit = Some(state);
        self.recompute_filter_preview();
    }

    /// The state after [`Self::on_filter_preview`].
    pub open spec fn on_filter_preview_leads_to(
        self,
        result: Result<Vec<Transaction>, String>,
        next: App,
    ) -> bool {
        match self.filter_edit {
            Some(was) => {
                &&& next == (App {
                    filter_edit: next.filter_edit,
                    error_message: next.error_message,
                    ..self
                })
                &&& next.filter_edit matches Some(edit)
                &&& edit == (FilterEditState {
                    preview: edit.preview,
                    preview_scroll: edit.preview_scroll,
                    ..was
                })
                &&& edit.preview@ == loaded(result)
                &&& edit.preview_scroll == clamped(
                    was.preview_scroll as int,
                    loaded(result).len() as int,
                )
                &&& shown_after(
                    self.error_message,
                    next.error_message,
                    "load filter preview"@,
                    result,
                )
            },
            None => next == self,
        }
    }

    /// The transactions the query under edit matches.
    pub fn on_filter_preview(&mut self, result: Result<Vec<Transaction>, String>)
        ensures
            old(self).on_filter_preview_leads_to(result, *final(self)),
    {
        let mut state = match self.filter_edit.take() {
            Some(state) => state,
            None => return,
        };
        state.preview = self.load_or_show("load filter preview", result);
        clamp_preview_scroll(&mut state);
        self.filter_edit = Some(state);
    }

    /// The screen with another row of the preview under the cursor.
    pub open spec fn preview_moved(self, scroll: int, next: App) -> bool {
        &&& next.filter_edit matches Some(edit)
        &&& self.filter_edit matches Some(was)
        &&& edit == (FilterEditState { preview_scroll: scroll as usize, ..was })
        &&& next == (App { filter_edit: next.filter_edit, ..self })
    }

    /// The state after [`Self::filter_edit_preview_next`].
    pub open spec fn filter_edit_preview_next_leads_to(self, next: App) -> bool {
        match self.filter_edit {
            Some(was) => self.preview_moved(
                after(was.preview_scroll as int, was.preview@.len() as int),
                next,
            ),
            None => next == self,
        }
    }

    pub fn filter_edit_preview_next(&mut self)
        ensures
            old(self).filter_edit_preview_next_leads_to(*final(self)),
    {
        if let Some(mut state) = self.filter_edit.take() {
            state.preview_scroll = next_wrapping(state.preview_scroll, state.preview.len());
            self.filter_edit = Some(state);
        }
    }

    /// The state after [`Self::filter_edit_preview_prev`].
    pub open spec fn filter_edit_preview_prev_leads_to(self, next: App) -> bool {
        match self.filter_edit {
            Some(was) => self.preview_moved(
                before(was.preview_scroll as int, was.preview@.len() as int),
                next,
            ),
            None => next == self,
        }
    }

    pub fn filter_edit_preview_prev(&mut self)
        ensures
            old(self).filter_edit_preview_prev_leads_to(*final(self)),
    {
        if let Some(mut state) = self.filter_edit.take() {
            state.preview_scroll = prev_wrapping(state.preview_scroll, state.preview.len());
            self.filter_edit = Some(state);
        }
    }

    /// The state after [`Self::save_filter_edit`].
    pub open spec fn save_filter_edit_leads_to(self, next: App) -> bool {
        match self.filter_edit {
            Some(edit) => {
                &&& next == (App { agenda: next.agenda, ..self })
                &&& next.agenda@.len() > 0
                &&& next.agenda@[0] matches Task::SetFilterQuery { id, query }
                &&& id == edit.filter_id
                &&& query@ == edit.search_bar.text()
                &&& scheduled(self, next, seq![next.agenda@[0]])
            },
            None => next == self,
        }
    }

    /// Save the in-edit query, reapply filters, and return to the Filters list.
    pub fn save_filter_edit(&mut self)
        ensures
            old(self).save_filter_edit_leads_to(*final(self)),
    {
        let (id, query): (i64, String) = match &self.filter_edit {
            Some(state) => (state.filter_id, state.search_bar.value().to_owned()),
            None => return,
        };
        let task = Task::SetFilterQuery { id, query };
        self.schedule_one(task);
        assert(self.agenda@[0] == task);
    }

    /// The state after [`Self::on_filter_query_saved`].
    pub open spec fn on_filter_query_saved_leads_to(
        self,
        result: Result<(), String>,
        next: App,
    ) -> bool {
        match result {
            Ok(_) => next == (App {
                filter_edit: None,
                input_mode: InputMode::Normal,
                agenda: next.agenda,
                ..self
            }) && scheduled(self, next, seq![Task::ApplyFilters]),
            Err(e) => next == (App {
                error_message: next.error_message,
                ..self
            }) && says(next.error_message, failure("save filter query"@, e@)),
        }
    }

    /// Outcome of saving the query.
    pub fn on_filter_query_saved(&mut self, result: Result<(), String>)
        ensures
            old(self).on_filter_query_saved_leads_to(result, *final(self)),
    {
        match result {
            Ok(_) => {
                self.schedule_one(Task::ApplyFilters);
                self.exit_filter_edit();
            },
            Err(e) => {
                self.error_message = Some(failure_message("save filter query", &e));
            },
        }
    }

    // ==================== Applying ====================

    /// The state after [`Self::apply_filter_categories`].
    pub open spec fn apply_filter_categories_leads_to(self, next: App) -> bool {
        if self.current_tab == Tab::Filters || self.filter_edit is Some {
            next == (App { agenda: next.agenda, ..self }) && scheduled(
                self,
                next,
                seq![Task::PreviewFilters],
            )
        } else {
            next == self
        }
    }

    /// Open the Ctrl-A confirmation modal listing the transactions the current
    /// filter set would (re)categorise. Available on the Filters tab and the
    /// filter edit screen; confirming runs the real apply.
    pub fn apply_filter_categories(&mut self)
        ensures
            old(self).apply_filter_categories_leads_to(*final(self)),
    {
        if self.current_tab != Tab::Filters && self.filter_edit.is_none() {
            return;
        }
        self.schedule_one(Task::PreviewFilters);
    }

    /// The state after [`Self::on_apply_preview`].
    pub open spec fn on_apply_preview_leads_to(
        self,
        result: Result<Vec<Transaction>, String>,
        next: App,
    ) -> bool {
        match result {
            Ok(rows) => next == (App {
                apply_filters_preview: Some(ApplyFiltersPreview { rows, scroll: 0 }),
                input_mode: InputMode::ConfirmApplyFilters,
                ..self
            }),
            Err(e) => next == (App {
                error_message: next.error_message,
                ..self
            }) && says(next.error_message, failure("preview filters"@, e@)),
        }
    }

    /// What applying the filters would change.
    pub fn on_apply_preview(&mut self, result: Result<Vec<Transaction>, String>)
        ensures
            old(self).on_apply_preview_leads_to(result, *final(self)),
    {
        match result {
            Ok(rows) => {
                self.apply_filters_preview = Some(ApplyFiltersPreview { rows, scroll: 0 });
                self.input_mode = InputMode::ConfirmApplyFilters;
            },
            Err(e) => {
                self.error_message = Some(failure_message("preview filters", &e));
            },
        }
    }

    pub fn apply_filters_preview_rows(&self) -> (rows: &[Transaction])
        ensures
            rows@ == match self.apply_filters_preview {
                Some(p) => p.rows@,
                None => Seq::empty(),
            },
    {
        match &self.apply_filters_preview {
            Some(p) => p.rows.as_slice(),
            None => &[],
        }
    }

    pub fn apply_filters_preview_scroll(&self) -> (scroll: usize)
        ensures
            scroll == match self.apply_filters_preview {
                Some(p) => p.scroll,
                None => 0,
            },
    {
        match &self.apply_filters_preview {
            Some(p) => p.scroll,
            None => 0,
        }
    }

    /// The state after [`Self::apply_filters_preview_next`].
    pub open spec fn apply_filters_preview_next_leads_to(self, next: App) -> bool {
        next == (App {
            apply_filters_preview: match self.apply_filters_preview {
                Some(p) => Some(
                    ApplyFiltersPreview {
                        scroll: if p.rows@.len() == 0 {
                            p.scroll
                        } else {
                            after(p.scroll as int, p.rows@.len() as int) as usize
                        },
                        ..p
                    },
                ),
                None => None,
            },
            ..self
        })
    }

    pub fn apply_filters_preview_next(&mut self)
        ensures
            old(self).apply_filters_preview_next_leads_to(*final(self)),
    {
        if let Some(mut p) = self.apply_filters_preview.take() {
            if p.rows.len() > 0 {
                p.scroll = next_wrapping(p.scroll, p.rows.len());
            }
            self.apply_filters_preview = Some(p);
        }
    }

    /// The state after [`Self::apply_filters_preview_prev`].
    pub open spec fn apply_filters_preview_prev_leads_to(self, next: App) -> bool {
        next == (App {
            apply_filters_preview: match self.apply_filters_preview {
                Some(p) => Some(
                    ApplyFiltersPreview {
                        scroll: if p.rows@.len() == 0 {
                            p.scroll
                        } else {
                            before(p.scroll as int, p.rows@.len() as int) as usize
                        },
                        ..p
                    },
                ),
                None => None,
            },
            ..self
        })
    }

    pub fn apply_filters_preview_prev(&mut self)
        ensures
            old(self).apply_filters_preview_prev_leads_to(*final(self)),
    {
        if let Some(mut p) = self.apply_filters_preview.take() {
            if p.rows.len() > 0 {
                p.scroll = prev_wrapping(p.scroll, p.rows.len());
            }
            self.apply_filters_preview = Some(p);
        }
    }

    /// The state after [`Self::apply_filters_confirm`].
    pub open spec fn apply_filters_confirm_leads_to(self, next: App) -> bool {
        &&& next == (App {
            apply_filters_preview: None,
            input_mode: self.behind_prompt(),
            agenda: next.agenda,
            ..self
        })
        &&& scheduled(self, next, seq![Task::ApplyFilters])
    }

    /// Confirm the Ctrl-A modal: run the real apply, then return to the screen
    /// the modal was opened from.
    pub fn apply_filters_confirm(&mut self)
        ensures
            old(self).apply_filters_confirm_leads_to(*final(self)),
    {
        self.apply_filters_preview = None;
        self.schedule_one(Task::ApplyFilters);
        self.input_mode = if self.filter_edit.is_some() {
            InputMode::FilterEdit
        } else {
            InputMode::Normal
        };
    }

    // ==================== Leaving ====================

    /// The in-edit query differs from the saved filter's.
    pub open spec fn edit_is_dirty(self) -> bool {
        match self.filter_edit {
            Some(edit) => match self.edited_filter() {
                Some(f) => f.query@ != edit.search_bar.text(),
                None => true,
            },
            None => false,
        }
    }

    /// Whether the in-edit query differs from the saved filter's query.
    pub fn filter_edit_dirty(&self) -> (dirty: bool)
        ensures
            dirty == self.edit_is_dirty(),
    {
        match &self.filter_edit {
            Some(state) => match self.filter_edit_filter() {
                Some(filter) => !same(&filter.query, state.search_bar.value()),
                None => true,
            },
            None => false,
        }
    }

    /// The state after [`Self::request_exit_filter_edit`].
    pub open spec fn request_exit_filter_edit_leads_to(self, next: App) -> bool {
        if self.edit_is_dirty() {
            says(next.confirm_message, "Discard unsaved changes?"@) && next == (
            App {
                confirm_message: next.confirm_message,
                confirm_action: Some(ConfirmAction::DiscardFilterEdit),
                input_mode: InputMode::Confirm,
                ..self
            })
        } else {
            next == (App {
                filter_edit: None,
                input_mode: InputMode::Normal,
                ..self
            })
        }
    }

    /// Esc on the edit screen: prompt before discarding unsaved query edits,
    /// otherwise exit straight away.
    pub fn request_exit_filter_edit(&mut self)
        ensures
            old(self).request_exit_filter_edit_leads_to(*final(self)),
    {
        if self.filter_edit_dirty() {
            self.confirm(
                "Discard unsaved changes?".to_owned(),
                ConfirmAction::DiscardFilterEdit,
            );
        } else {
            self.exit_filter_edit();
        }
    }

    /// The state after [`Self::restore_after_filter_modal`].
    pub open spec fn restore_after_filter_modal_leads_to(self, id: i64, next: App) -> bool {
        match self.filter_edit {
            Some(was) => if was.filter_id == id {
                &&& next == (App {
                    filter_edit: next.filter_edit,
                    input_mode: InputMode::FilterEdit,
                    agenda: next.agenda,
                    ..self
                })
                &&& scheduled(self, next, seq![Task::LoadFilterPreview])
                &&& next.filter_edit matches Some(edit)
                &&& edit == match self.edited_filter() {
                    Some(f) => FilterEditState {
                        name: f.name,
                        preview_scroll: clamped(
                            was.preview_scroll as int,
                            was.preview@.len() as int,
                        ) as usize,
                        ..was
                    },
                    None => was,
                }
            } else {
                next == (App { input_mode: InputMode::Normal, ..self })
            },
            None => next == (App { input_mode: InputMode::Normal, ..self }),
        }
    }

    /// Back from a popup over the filters: to the edit screen, refreshed, where
    /// it is up on that filter; else to Normal.
    pub fn restore_after_filter_modal(&mut self, id: i64)
        ensures
            old(self).restore_after_filter_modal_leads_to(id, *final(self)),
    {
        let editing = match &self.filter_edit {
            Some(state) => state.filter_id == id,
            None => false,
        };
        if editing {
            self.refresh_filter_edit();
            self.schedule_one(Task::LoadFilterPreview);
            self.input_mode = InputMode::FilterEdit;
        } else {
            self.input_mode = InputMode::Normal;
        }
    }

    fn refresh_filter_edit(&mut self)
        ensures
            *final(self) == (App {
                filter_edit: match (old(self).filter_edit, old(self).edited_filter()) {
                    (Some(was), Some(f)) => Some(
                        FilterEditState {
                            name: f.name,
                            preview_scroll: clamped(
                                was.preview_scroll as int,
                                was.preview@.len() as int,
                            ) as usize,
                            ..was
                        },
                    ),
                    _ => old(self).filter_edit,
                },
                ..*old(self)
            }),
    {
        let filter = match self.filter_edit_filter() {
            Some(filter) => filter.clone(),
            None => return,
        };
        if let Some(mut state) = self.filter_edit.take() {
            state.name = filter.name;
            clamp_preview_scroll(&mut state);
            self.filter_edit = Some(state);
        }
    }

    // ==================== On screen ====================

    pub fn filter_edit_visible(&self) -> (visible: bool)
        ensures
            visible == (self.filter_edit is Some),
    {
        self.filter_edit.is_some()
    }

    pub fn filter_edit_name(&self) -> (name: &str)
        ensures
            name@ == match self.filter_edit {
                Some(edit) => edit.name@,
                None => ""@,
            },
    {
        match &self.filter_edit {
            Some(state) => state.name.as_str(),
            None => "",
        }
    }

    pub fn filter_edit_category_path(&self) -> (path: Option<&String>)
        ensures
            match (match self.edited_filter() {
                Some(f) => match f.category_id {
                    Some(id) => self.path_of(id),
                    None => None,
                },
                None => None,
            }) {
                Some(p) => path matches Some(q) && q@ == p,
                None => path is None,
            },
    {
        match self.filter_edit_filter() {
            Some(filter) => match filter.category_id {
                Some(id) => self.category_path(id),
                None => None,
            },
            None => None,
        }
    }

    /// Override label for the in-edit filter, only when a category is set.
    pub fn filter_edit_override_label(&self) -> (label: Option<&'static str>)
        ensures
            match self.edited_filter() {
                Some(f) => if f.category_id is Some {
                    label matches Some(l) && l@ == override_label(f.override_mode)
                } else {
                    label is None
                },
                None => label is None,
            },
    {
        match self.filter_edit_filter() {
            Some(filter) => if filter.category_id.is_some() {
                Some(
                    match filter.override_mode {
                        FilterOverride::Uncategorised => "new",
                        FilterOverride::Ai => "+ai",
                        FilterOverride::All => "all",
                    },
                )
            } else {
                None
            },
            None => None,
        }
    }

    /// Review-required flag for the in-edit filter, only when a category is set.
    pub fn filter_edit_review_required(&self) -> (required: Option<bool>)
        ensures
            required == match self.edited_filter() {
                Some(f) => if f.category_id is Some {
                    Some(f.review_required)
                } else {
                    None
                },
                None => None,
            },
    {
        match self.filter_edit_filter() {
            Some(filter) => if filter.category_id.is_some() {
                Some(filter.review_required)
            } else {
                None
            },
            None => None,
        }
    }

    pub fn filter_edit_search_bar(&self) -> (bar: Option<&SearchBar>)
        ensures
            bar == match self.filter_edit {
                Some(edit) => Some(&edit.search_bar),
                None => None,
            },
    {
        match &self.filter_edit {
            Some(state) => Some(&state.search_bar),
            None => None,
        }
    }

    pub fn filter_edit_preview(&self) -> (rows: &[Transaction])
        ensures
            rows@ == match self.filter_edit {
                Some(state) => state.preview@,
                None => Seq::empty(),
            },
    {
        match &self.filter_edit {
            Some(state) => state.preview.as_slice(),
            None => &[],
        }
    }

    pub fn filter_edit_preview_scroll(&self) -> (scroll: usize)
        ensures
            scroll == match self.filter_edit {
                Some(edit) => edit.preview_scroll,
                None => 0,
            },
    {
        match &self.filter_edit {
            Some(state) => state.preview_scroll,
            None => 0,
        }
    }

    // ==================== Autocomplete ====================

    pub fn filter_edit_autocomplete_active(&self) -> (active: bool)
        ensures
            active == (self.filter_edit matches Some(edit) && edit.search_bar.popup() is Some),
    {
        match &self.filter_edit {
            Some(state) => state.search_bar.autocomplete_active(),
            None => false,
        }
    }

    /// The screen with another bar.
    pub open spec fn edit_bar(self, next: App) -> bool {
        match self.filter_edit {
            Some(was) => {
                &&& next.filter_edit matches Some(edit)
                &&& edit == (FilterEditState { search_bar: edit.search_bar, ..was })
                &&& next == (App { filter_edit: next.filter_edit, ..self })
            },
            None => next == self,
        }
    }

    /// The state after [`Self::filter_edit_autocomplete_next`].
    pub open spec fn filter_edit_autocomplete_next_leads_to(self, next: App) -> bool {
        &&& self.edit_bar(next)
        &&& self.filter_edit matches Some(was) ==> (next.filter_edit matches Some(edit)
            && moved(was.search_bar.popup(), edit.search_bar.popup(), true) && same_text(
            was.search_bar,
            edit.search_bar,
        ))
    }

    pub fn filter_edit_autocomplete_next(&mut self)
        ensures
            old(self).filter_edit_autocomplete_next_leads_to(*final(self)),
    {
        if let Some(mut state) = self.filter_edit.take() {
            state.search_bar.autocomplete_next();
            self.filter_edit = Some(state);
        }
    }

    /// The state after [`Self::filter_edit_autocomplete_prev`].
    pub open spec fn filter_edit_autocomplete_prev_leads_to(self, next: App) -> bool {
        &&& self.edit_bar(next)
        &&& self.filter_edit matches Some(was) ==> (next.filter_edit matches Some(edit)
            && moved(was.search_bar.popup(), edit.search_bar.popup(), false) && same_text(
            was.search_bar,
            edit.search_bar,
        ))
    }

    pub fn filter_edit_autocomplete_prev(&mut self)
        ensures
            old(self).filter_edit_autocomplete_prev_leads_to(*final(self)),
    {
        if let Some(mut state) = self.filter_edit.take() {
            state.search_bar.autocomplete_prev();
            self.filter_edit = Some(state);
        }
    }

    /// The screen after choosing the highlighted completion; `selected` says
    /// whether there was one.
    pub open spec fn edit_completed(self, selected: bool, next: Option<FilterEditState>) -> bool {
        match self.filter_edit {
            Some(was) => {
                &&& selected == (completion(
                    was.search_bar.text(),
                    was.search_bar.query().parts@,
                    was.search_bar.popup(),
                ) is Some)
                &&& next matches Some(edit)
                &&& edit == (FilterEditState {
                    search_bar: edit.search_bar,
                    preview_scroll: if selected {
                        0
                    } else {
                        was.preview_scroll
                    },
                    ..was
                })
                &&& chosen(was.search_bar, edit.search_bar)
            },
            None => !selected && next is None,
        }
    }

    fn choose_in_edit(&mut self) -> (selected: bool)
        ensures
            *final(self) == (App { filter_edit: final(self).filter_edit, ..*old(self) }),
            old(self).edit_completed(selected, final(self).filter_edit),
    {
        let mut state = match self.filter_edit.take() {
            Some(state) => state,
            None => return false,
        };
        let selected = state.search_bar.autocomplete_select();
        if selected {
            state.preview_scroll = 0;
        }
        self.filter_edit = Some(state);
        selected
    }

    /// The state after [`Self::filter_edit_autocomplete_select`].
    pub open spec fn filter_edit_autocomplete_select_leads_to(
        self,
        selected: bool,
        next: App,
    ) -> bool {
        &&& next == (App {
            filter_edit: next.filter_edit,
            agenda: next.agenda,
            ..self
        })
        &&& self.edit_completed(selected, next.filter_edit)
        &&& if selected {
            scheduled(self, next, completed_tasks())
        } else {
            next.agenda == self.agenda
        }
    }

    pub fn filter_edit_autocomplete_select(&mut self) -> (selected: bool)
        ensures
            old(self).filter_edit_autocomplete_select_leads_to(selected, *final(self)),
    {
        let selected = self.choose_in_edit();
        if selected {
            let tasks = vec![
                Task::ParseOnly { target: BarTarget::FilterEdit },
                Task::LoadFilterPreview,
            ];
            assert(tasks@ =~= completed_tasks());
            self.schedule(tasks);
        }
        selected
    }

    /// The state after [`Self::filter_edit_autocomplete_close`].
    pub open spec fn filter_edit_autocomplete_close_leads_to(self, next: App) -> bool {
        &&& self.edit_bar(next)
        &&& self.filter_edit matches Some(was) ==> (next.filter_edit matches Some(edit)
            && edit.search_bar.popup() is None && same_text(was.search_bar, edit.search_bar))
    }

    pub fn filter_edit_autocomplete_close(&mut self)
        ensures
            old(self).filter_edit_autocomplete_close_leads_to(*final(self)),
    {
        if let Some(mut state) = self.filter_edit.take() {
            state.search_bar.autocomplete_close();
            self.filter_edit = Some(state);
        }
    }
}

/// What is parsed and loaded after a completion.
pub open spec fn completed_tasks() -> Seq<Task> {
    seq![Task::ParseOnly { target: BarTarget::FilterEdit }, Task::LoadFilterPreview]
}

/// What an override mode is called on the edit screen.
pub open spec fn override_label(mode: FilterOverride) -> Seq<char> {
    match mode {
        FilterOverride::Uncategorised => "new"@,
        FilterOverride::Ai => "+ai"@,
        FilterOverride::All => "all"@,
    }
}

} // verus!
