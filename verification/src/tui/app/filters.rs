//! Saved-search filter actions for the Filters tab.

use vstd::prelude::*;
use vstd::string::*;

use super::caches::{loaded, shown_after};
use super::confirm::popup_cleared;
use super::search_state::TabSearchState;
use super::tabs::{shows_all, Tab, TabLists};
use super::tasks::{filter_tasks, filters, Task};
use super::{
    failure, failure_message, says, scheduled, App, CategoryTarget, ConfirmAction, InputMode,
    TextPromptTarget,
};
use crate::find::{first_index, lemma_first_index_none, lemma_first_index_some};
use crate::model::{Filter, FilterOverride};
use crate::text::{same, trim, trimmed};

verus! {

impl App {
    /// The filter under edit, as last loaded.
    pub open spec fn edited_filter(self) -> Option<Filter> {
        match self.filter_edit {
            Some(edit) => {
                let all = self.lists.filters.all();
                match first_index(all, |f: Filter| f.id == edit.filter_id) {
                    Some(i) => Some(all[i]),
                    None => None,
                }
            },
            None => None,
        }
    }

    /// The filter under edit, or on the Filters tab the one under the cursor.
    pub open spec fn chosen_filter(self) -> Option<Filter> {
        let rows = self.lists.filters.rows();
        if self.edited_filter() is Some {
            self.edited_filter()
        } else if self.current_tab == Tab::Filters && self.selected_index < rows.len() {
            Some(rows[self.selected_index as int])
        } else {
            None
        }
    }

    pub(crate) fn filter_edit_filter(&self) -> (filter: Option<&Filter>)
        ensures
            match filter {
                Some(f) => self.edited_filter() == Some(*f),
                None => self.edited_filter() is None,
            },
    {
        let id: i64 = match &self.filter_edit {
            Some(edit) => edit.filter_id,
            None => return None,
        };
        let rows = self.lists.filters.items();
        let ghost wanted = |f: Filter| f.id == id;
        let mut i: usize = 0;
        while i < rows.len()
            invariant
                i <= rows@.len(),
                rows@ == self.lists.filters.all(),
                self.filter_edit matches Some(edit) && edit.filter_id == id,
                wanted == (|f: Filter| f.id == id),
                forall|j: int| 0 <= j < i ==> !wanted(#[trigger] rows@[j]),
            decreases rows@.len() - i,
        {
            if rows[i].id == id {
                proof {
                    lemma_first_index_some(rows@, wanted, i as int);
                }
                return Some(&rows[i]);
            }
            i += 1;
        }
        proof {
            lemma_first_index_none(rows@, wanted);
        }
        None
    }

    pub fn selected_filter(&self) -> (filter: Option<&Filter>)
        ensures
            match filter {
                Some(f) => self.chosen_filter() == Some(*f),
                None => self.chosen_filter() is None,
            },
    {
        if let Some(filter) = self.filter_edit_filter() {
            return Some(filter);
        }
        if self.current_tab == Tab::Filters {
            self.lists.filters.get(self.selected_index)
        } else {
            None
        }
    }

    /// The filter with the id has a category.
    pub open spec fn filter_has_category(self, filter_id: i64) -> bool {
        let all = self.lists.filters.all();
        match first_index(all, |f: Filter| f.id == filter_id) {
            Some(i) => all[i].category_id is Some,
            None => false,
        }
    }

    /// The state after confirming a category for a filter: an empty input takes
    /// the filter's category away, else the chosen path becomes it.
    pub open spec fn filter_category_confirmed(self, filter_id: i64, next: App) -> bool {
        if trimmed(self.category_input@).len() == 0 && self.filter_has_category(filter_id) {
            &&& next == (App { agenda: next.agenda, ..self })
            &&& scheduled(
                self,
                next,
                seq![Task::SetFilterCategory { filter_id, assigned: None }],
            )
        } else {
            match self.chosen_path() {
                Some(path) => {
                    &&& next == (App { agenda: next.agenda, ..self })
                    &&& scheduled(
                        self,
                        next,
                        seq![Task::SetFilterCategory { filter_id, assigned: Some(path) }],
                    )
                },
                None => self.cancelled(next),
            }
        }
    }

    fn has_category(&self, filter_id: i64) -> (yes: bool)
        ensures
            yes == self.filter_has_category(filter_id),
    {
        let rows = self.lists.filters.items();
        let ghost wanted = |f: Filter| f.id == filter_id;
        let mut i: usize = 0;
        while i < rows.len()
            invariant
                i <= rows@.len(),
                rows@ == self.lists.filters.all(),
                wanted == (|f: Filter| f.id == filter_id),
                forall|j: int| 0 <= j < i ==> !wanted(#[trigger] rows@[j]),
            decreases rows@.len() - i,
        {
            if rows[i].id == filter_id {
                proof {
                    lemma_first_index_some(rows@, wanted, i as int);
                }
                return rows[i].category_id.is_some();
            }
            i += 1;
        }
        proof {
            lemma_first_index_none(rows@, wanted);
        }
        false
    }

    pub(crate) fn confirm_filter_category(&mut self, filter_id: i64)
        ensures
            old(self).filter_category_confirmed(filter_id, *final(self)),
    {
        if trim(&self.category_input).is_empty() && self.has_category(filter_id) {
            self.schedule_one(Task::SetFilterCategory { filter_id, assigned: None });
            return;
        }
        match self.selected_category_path() {
            Some(path) => self.schedule_one(
                Task::SetFilterCategory { filter_id, assigned: Some(path) },
            ),
            None => self.cancel_input(),
        }
    }

    /// The state after [`Self::on_filter_category_set`].
    pub open spec fn on_filter_category_set_leads_to(
        self,
        filter_id: i64,
        assigned: &Option<String>,
        result: Result<(), String>,
        next: App,
    ) -> bool {
        match result {
            Ok(_) => popup_cleared(next) && next == (App {
                category_input: next.category_input,
                category_suggestions: next.category_suggestions,
                category_selected: 0,
                category_target: CategoryTarget::Transaction,
                agenda: next.agenda,
                ..self
            }) && scheduled(
                self,
                next,
                seq![Task::ApplyFilters, Task::RestoreFilterModal { id: filter_id }],
            ),
            Err(e) => next == (App {
                error_message: next.error_message,
                ..self
            }) && says(
                next.error_message,
                failure(
                    if assigned is Some {
                        "set filter category"@
                    } else {
                        "clear filter category"@
                    },
                    e@,
                ),
            ),
        }
    }

    /// Outcome of setting a filter's category: the filters are applied anew.
    pub fn on_filter_category_set(
        &mut self,
        filter_id: i64,
        assigned: &Option<String>,
        result: Result<(), String>,
    )
        ensures
            old(self).on_filter_category_set_leads_to(filter_id, assigned, result, *final(self)),
    {
        match result {
            Ok(_) => {
                self.clear_category_popup();
                self.schedule(
                    vec![Task::ApplyFilters, Task::RestoreFilterModal { id: filter_id }],
                );
            },
            Err(e) => {
                let what = if assigned.is_some() {
                    "set filter category"
                } else {
                    "clear filter category"
                };
                self.error_message = Some(failure_message(what, &e));
            },
        }
    }

    // ==================== Prompts ====================

    /// The state after [`Self::start_filter_create`].
    pub open spec fn start_filter_create_leads_to(self, next: App) -> bool {
        if self.current_tab == Tab::Filters {
            self.prompts(
                next,
                "New filter"@,
                Seq::empty(),
                TextPromptTarget::FilterCreate,
                self.input_mode,
            )
        } else {
            next == self
        }
    }

    pub fn start_filter_create(&mut self)
        ensures
            old(self).start_filter_create_leads_to(*final(self)),
    {
        if self.current_tab == Tab::Filters {
            let empty = String::new();
            assert(empty@ =~= Seq::empty());
            self.open_text_prompt("New filter", empty, TextPromptTarget::FilterCreate);
        }
    }

    /// The state after [`Self::start_filter_from_search`].
    pub open spec fn start_filter_from_search_leads_to(self, next: App) -> bool {
        if self.current_tab == Tab::Transactions && self.here().db_search_active
            && self.here().search_bar.text().len() > 0 {
            &&& next.text_prompt matches Some(p)
            &&& p.target matches TextPromptTarget::FilterCreateFromQuery(query)
            &&& query@ == self.here().search_bar.text()
            &&& self.prompts(
                next,
                "Save filter"@,
                Seq::empty(),
                p.target,
                self.input_mode,
            )
        } else {
            next == self
        }
    }

    /// Save the Transactions tab's query as a filter.
    pub fn start_filter_from_search(&mut self)
        ensures
            old(self).start_filter_from_search_leads_to(*final(self)),
    {
        if self.current_tab != Tab::Transactions || !self.db_search_active() {
            return;
        }
        let query = self.db_search_value().to_owned();
        if query.as_str().is_empty() {
            return;
        }
        let empty = String::new();
        assert(empty@ =~= Seq::empty());
        self.open_text_prompt(
            "Save filter",
            empty,
            TextPromptTarget::FilterCreateFromQuery(query),
        );
    }

    /// The state after [`Self::start_filter_rename`].
    pub open spec fn start_filter_rename_leads_to(self, next: App) -> bool {
        match self.chosen_filter() {
            Some(f) => self.prompts(
                next,
                "Rename filter"@,
                f.name@,
                TextPromptTarget::FilterRename(f.id),
                self.input_mode,
            ),
            None => next == self,
        }
    }

    pub fn start_filter_rename(&mut self)
        ensures
            old(self).start_filter_rename_leads_to(*final(self)),
    {
        let filter = match self.selected_filter() {
            Some(filter) => filter.clone(),
            None => return,
        };
        self.open_text_prompt(
            "Rename filter",
            filter.name,
            TextPromptTarget::FilterRename(filter.id),
        );
    }

    /// Enter in the prompt for a new filter's name.
    pub fn confirm_filter_create(&mut self, name: String)
        ensures
            if old(self).current_tab != Tab::Filters || name@.len() == 0 {
                old(self).cancelled(*final(self))
            } else {
                *final(self) == (App { agenda: final(self).agenda, ..*old(self) }) && scheduled(
                    *old(self),
                    *final(self),
                    seq![Task::CreateFilter { name }],
                )
            },
    {
        if self.current_tab != Tab::Filters || name.as_str().is_empty() {
            self.cancel_input();
            return;
        }
        self.schedule_one(Task::CreateFilter { name });
    }

    /// The state after [`Self::on_filter_created`].
    pub open spec fn on_filter_created_leads_to(
        self,
        name: String,
        result: Result<i64, String>,
        next: App,
    ) -> bool {
        match result {
            Ok(id) => next == (App {
                text_prompt: None,
                input_mode: InputMode::Normal,
                agenda: next.agenda,
                ..self
            }) && scheduled(
                self,
                next,
                filter_tasks() + seq![Task::FocusFilter { id }],
            ),
            Err(e) => says(next.error_message, failure("create filter"@, e@)) && (App {
                error_message: next.error_message,
                ..self
            }).prompts(
                next,
                "New filter"@,
                name@,
                TextPromptTarget::FilterCreate,
                self.behind_prompt(),
            ),
        }
    }

    /// Outcome of creating a filter: its id.
    pub fn on_filter_created(&mut self, name: String, result: Result<i64, String>)
        ensures
            old(self).on_filter_created_leads_to(name, result, *final(self)),
    {
        match result {
            Ok(id) => {
                self.clear_text_prompt();
                self.input_mode = InputMode::Normal;
                let mut tasks = filters();
                tasks.push(Task::FocusFilter { id });
                assert(tasks@ =~= filter_tasks() + seq![Task::FocusFilter { id }]);
                self.schedule(tasks);
            },
            Err(e) => {
                self.error_message = Some(failure_message("create filter", &e));
                self.restore_text_prompt("New filter", name, TextPromptTarget::FilterCreate);
            },
        }
    }

    /// Enter in the prompt for the name of a filter made from a query.
    pub fn confirm_filter_from_query(
        &mut self,
        name: String,
        query: String,
        return_mode: InputMode,
    )
        ensures
            if old(self).current_tab != Tab::Transactions || name@.len() == 0 {
                *final(self) == (App { input_mode: return_mode, ..*old(self) })
            } else {
                *final(self) == (App { agenda: final(self).agenda, ..*old(self) }) && scheduled(
                    *old(self),
                    *final(self),
                    seq![Task::CreateFilterFromQuery { name, query, return_mode }],
                )
            },
    {
        if self.current_tab != Tab::Transactions || name.as_str().is_empty() {
            self.input_mode = return_mode;
            return;
        }
        self.schedule_one(Task::CreateFilterFromQuery { name, query, return_mode });
    }

    /// The state after [`Self::on_filter_created_from_query`].
    pub open spec fn on_filter_created_from_query_leads_to(
        self,
        name: String,
        query: String,
        return_mode: InputMode,
        result: Result<i64, String>,
        next: App,
    ) -> bool {
        match result {
            Ok(id) => next == (App {
                text_prompt: None,
                agenda: next.agenda,
                ..self.with_here(self.left_here(return_mode))
            }) && scheduled(
                self,
                next,
                filter_tasks() + seq![
                    Task::EnterFilters,
                    Task::FocusFilter { id },
                    Task::OpenFilterEdit,
                ],
            ),
            Err(e) => says(next.error_message, failure("create filter"@, e@)) && (App {
                error_message: next.error_message,
                ..self
            }).prompts(
                next,
                "Save filter"@,
                name@,
                TextPromptTarget::FilterCreateFromQuery(query),
                return_mode,
            ),
        }
    }

    /// Outcome of making a filter from a query: it is opened for editing on the
    /// Filters tab, and the search it came from is taken up again when its tab
    /// is.
    pub fn on_filter_created_from_query(
        &mut self,
        name: String,
        query: String,
        return_mode: InputMode,
        result: Result<i64, String>,
    )
        ensures
            old(self).on_filter_created_from_query_leads_to(
                name,
                query,
                return_mode,
                result,
                *final(self),
            ),
    {
        match result {
            Ok(id) => {
                self.clear_text_prompt();
                self.save_current_tab_state_as(return_mode);
                let mut tasks = filters();
                tasks.push(Task::EnterFilters);
                tasks.push(Task::FocusFilter { id });
                tasks.push(Task::OpenFilterEdit);
                assert(tasks@ =~= filter_tasks() + seq![
                    Task::EnterFilters,
                    Task::FocusFilter { id },
                    Task::OpenFilterEdit,
                ]);
                self.schedule(tasks);
            },
            Err(e) => {
                self.error_message = Some(failure_message("create filter", &e));
                self.open_text_prompt_with_return(
                    "Save filter",
                    name,
                    TextPromptTarget::FilterCreateFromQuery(query),
                    return_mode,
                );
            },
        }
    }

    /// The current tab's search state as it is left in `mode`.
    pub open spec fn left_here(self, mode: InputMode) -> TabSearchState {
        TabSearchState {
            selected_index: self.selected_index,
            editing_db_search: mode == InputMode::DbSearch,
            editing_fuzzy_search: mode == InputMode::FuzzySearch,
            ..self.here()
        }
    }

    fn save_current_tab_state_as(&mut self, return_mode: InputMode)
        ensures
            *final(self) == old(self).with_here(old(self).left_here(return_mode)),
    {
        let selected_index: usize = self.selected_index;
        let state = self.current_search_state_mut();
        state.selected_index = selected_index;
        state.editing_db_search = return_mode == InputMode::DbSearch;
        state.editing_fuzzy_search = return_mode == InputMode::FuzzySearch;
    }

    /// The state after [`Self::enter_filters`].
    pub open spec fn enter_filters_leads_to(self, next: App) -> bool {
        next == (App { current_tab: Tab::Filters, ..self })
    }

    /// Go to the Filters tab as it is.
    pub fn enter_filters(&mut self)
        ensures
            old(self).enter_filters_leads_to(*final(self)),
    {
        self.current_tab = Tab::Filters;
    }

    /// A filter has the id and the name.
    pub open spec fn has_filter_named(self, id: i64, name: Seq<char>) -> bool {
        exists|i: int|
            0 <= i < self.lists.filters.all().len() && {
                let f = #[trigger] self.lists.filters.all()[i];
                f.id == id && f.name@ == name
            }
    }

    fn is_filter_named(&self, id: i64, name: &str) -> (yes: bool)
        ensures
            yes == self.has_filter_named(id, name@),
    {
        let rows = self.lists.filters.items();
        let mut i: usize = 0;
        while i < rows.len()
            invariant
                i <= rows@.len(),
                rows@ == self.lists.filters.all(),
                forall|j: int| 0 <= j < i ==> !({
                    let f = #[trigger] rows@[j];
                    f.id == id && f.name@ == name@
                }),
            decreases rows@.len() - i,
        {
            if rows[i].id == id && same(&rows[i].name, name) {
                assert(self.lists.filters.all()[i as int].id == id);
                return true;
            }
            i += 1;
        }
        false
    }

    /// Enter in the prompt for a filter's new name: an empty or unchanged name
    /// cancels.
    pub fn confirm_filter_rename(&mut self, id: i64, name: String)
        ensures
            if old(self).current_tab != Tab::Filters || name@.len() == 0 || old(
                self).has_filter_named(id, name@) {
                old(self).cancelled(*final(self))
            } else {
                *final(self) == (App { agenda: final(self).agenda, ..*old(self) }) && scheduled(
                    *old(self),
                    *final(self),
                    seq![Task::RenameFilter { id, name }],
                )
            },
    {
        if self.current_tab != Tab::Filters || name.as_str().is_empty() || self.is_filter_named(
            id,
            &name,
        ) {
            self.cancel_input();
            return;
        }
        self.schedule_one(Task::RenameFilter { id, name });
    }

    /// The state after [`Self::on_filter_renamed`].
    pub open spec fn on_filter_renamed_leads_to(
        self,
        id: i64,
        name: String,
        result: Result<(), String>,
        next: App,
    ) -> bool {
        match result {
            Ok(_) => next == (App {
                text_prompt: None,
                agenda: next.agenda,
                ..self
            }) && scheduled(
                self,
                next,
                filter_tasks() + seq![
                    Task::FocusFilter { id },
                    Task::RestoreFilterModal { id },
                ],
            ),
            Err(e) => says(next.error_message, failure("rename filter"@, e@)) && (App {
                error_message: next.error_message,
                ..self
            }).prompts(
                next,
                "Rename filter"@,
                name@,
                TextPromptTarget::FilterRename(id),
                self.behind_prompt(),
            ),
        }
    }

    /// Outcome of renaming a filter.
    pub fn on_filter_renamed(&mut self, id: i64, name: String, result: Result<(), String>)
        ensures
            old(self).on_filter_renamed_leads_to(id, name, result, *final(self)),
    {
        match result {
            Ok(_) => {
                self.clear_text_prompt();
                let mut tasks = filters();
                tasks.push(Task::FocusFilter { id });
                tasks.push(Task::RestoreFilterModal { id });
                assert(tasks@ =~= filter_tasks() + seq![
                    Task::FocusFilter { id },
                    Task::RestoreFilterModal { id },
                ]);
                self.schedule(tasks);
            },
            Err(e) => {
                self.error_message = Some(failure_message("rename filter", &e));
                self.restore_text_prompt(
                    "Rename filter",
                    name,
                    TextPromptTarget::FilterRename(id),
                );
            },
        }
    }

    // ==================== Settings ====================

    /// The state after [`Self::cycle_filter_override`].
    pub open spec fn cycle_filter_override_leads_to(self, next: App) -> bool {
        match self.chosen_filter() {
            Some(f) => if f.category_id is Some {
                next == (App { agenda: next.agenda, ..self })
                    && scheduled(
                    self,
                    next,
                    seq![
                        Task::SetFilterOverride { id: f.id, mode: next_override(
                            f.override_mode,
                        ) },
                    ],
                )
            } else {
                next == self
            },
            None => next == self,
        }
    }

    /// Go on to the next override mode. A setting change must not apply
    /// categories on its own — that would bypass the `a` / Ctrl-A confirmation
    /// summary (and, for `all`, silently overwrite existing categories). Just
    /// persist the mode and refresh the display; the user applies explicitly.
    pub fn cycle_filter_override(&mut self)
        ensures
            old(self).cycle_filter_override_leads_to(*final(self)),
    {
        let (id, mode): (i64, FilterOverride) = match self.selected_filter() {
            Some(filter) => if filter.category_id.is_some() {
                (
                    filter.id,
                    match filter.override_mode {
                        FilterOverride::Uncategorised => FilterOverride::Ai,
                        FilterOverride::Ai => FilterOverride::All,
                        FilterOverride::All => FilterOverride::Uncategorised,
                    },
                )
            } else {
                return;
            },
            None => return,
        };
        self.schedule_one(Task::SetFilterOverride { id, mode });
    }

    /// The state after [`Self::toggle_filter_review`].
    pub open spec fn toggle_filter_review_leads_to(self, next: App) -> bool {
        match self.chosen_filter() {
            Some(f) => if f.category_id is Some {
                next == (App { agenda: next.agenda, ..self })
                    && scheduled(
                    self,
                    next,
                    seq![Task::SetFilterReview { id: f.id, review: !f.review_required }],
                )
            } else {
                next == self
            },
            None => next == self,
        }
    }

    /// Turn the review of a filter's categories on or off. As with the override
    /// mode: persist the setting and refresh the display, but leave applying to
    /// the explicit `a` / Ctrl-A flow.
    pub fn toggle_filter_review(&mut self)
        ensures
            old(self).toggle_filter_review_leads_to(*final(self)),
    {
        let (id, review): (i64, bool) = match self.selected_filter() {
            Some(filter) => if filter.category_id.is_some() {
                (filter.id, !filter.review_required)
            } else {
                return;
            },
            None => return,
        };
        self.schedule_one(Task::SetFilterReview { id, review });
    }

    /// The state after [`Self::on_filter_setting`].
    pub open spec fn on_filter_setting_leads_to(
        self,
        setting: FilterSetting,
        result: Result<(), String>,
        next: App,
    ) -> bool {
        match result {
            Ok(_) => next == (App { agenda: next.agenda, ..self })
                && scheduled(self, next, filter_tasks()),
            Err(e) => next == (App {
                error_message: next.error_message,
                ..self
            }) && says(next.error_message, failure(setting.label(), e@)),
        }
    }

    /// Outcome of storing a setting.
    pub fn on_filter_setting(&mut self, setting: FilterSetting, result: Result<(), String>)
        ensures
            old(self).on_filter_setting_leads_to(setting, result, *final(self)),
    {
        match result {
            Ok(_) => {
                let tasks = filters();
                self.schedule(tasks);
            },
            Err(e) => {
                let what = match setting {
                    FilterSetting::Override => "set filter override",
                    FilterSetting::Review => "set filter review",
                };
                self.error_message = Some(failure_message(what, &e));
            },
        }
    }

    /// The state after [`Self::delete_filter`].
    pub open spec fn delete_filter_leads_to(self, next: App) -> bool {
        match self.chosen_filter() {
            Some(f) => next == (App {
                confirm_message: next.confirm_message,
                confirm_action: Some(ConfirmAction::DeleteFilter(f.id)),
                input_mode: InputMode::Confirm,
                ..self
            }) && says(next.confirm_message, "Delete filter '"@ + f.name@ + "'?"@),
            None => next == self,
        }
    }

    /// Prompt before deleting the selected filter; the delete itself comes with
    /// [`App::confirm_proceed`].
    pub fn delete_filter(&mut self)
        ensures
            old(self).delete_filter_leads_to(*final(self)),
    {
        let mut m = "Delete filter '".to_owned();
        let id: i64 = match self.selected_filter() {
            Some(filter) => {
                m.append(&filter.name);
                filter.id
            },
            None => return,
        };
        m.append("'?");
        self.confirm(m, ConfirmAction::DeleteFilter(id));
    }

    /// The state after [`Self::on_filters`].
    pub open spec fn on_filters_leads_to(
        self,
        result: Result<Vec<Filter>, String>,
        next: App,
    ) -> bool {
        &&& next == (App {
            lists: next.lists,
            error_message: next.error_message,
            ..self
        })
        &&& next.lists == (TabLists {
            filters: next.lists.filters,
            ..self.lists
        })
        &&& shows_all(next.lists.filters, loaded(result))
        &&& shown_after(
            self.error_message,
            next.error_message,
            "load filters"@,
            result,
        )
    }

    /// All saved filters.
    pub fn on_filters(&mut self, result: Result<Vec<Filter>, String>)
        ensures
            old(self).on_filters_leads_to(result, *final(self)),
    {
        let rows = self.load_or_show("load filters", result);
        self.lists.filters.set_items(rows);
    }

    /// The state after [`Self::focus_filter`].
    pub open spec fn focus_filter_leads_to(self, id: i64, next: App) -> bool {
        &&& next == (App { selected_index: next.selected_index, ..self })
        &&& next.selected_index == match first_index(
            self.lists.filters.rows(),
            |f: Filter| f.id == id,
        ) {
            Some(i) => i,
            None => self.selected_index as int,
        }
    }

    /// Move the cursor to the filter with the id, if it is visible.
    pub fn focus_filter(&mut self, id: i64)
        ensures
            old(self).focus_filter_leads_to(id, *final(self)),
    {
        let wanted = |f: &Filter| -> (b: bool)
            ensures
                b == (f.id == id),
        {
            f.id == id
        };
        let found = self.lists.filters.position_where(wanted, Ghost(|f: Filter| f.id == id));
        if let Some(pos) = found {
            self.selected_index = pos;
        }
    }
}

/// A setting of a filter.
#[derive(Debug, Clone, Copy, PartialEq, Eq, Structural)]
pub enum FilterSetting {
    Override,
    Review,
}

impl FilterSetting {
    pub open spec fn label(self) -> Seq<char> {
        match self {
            FilterSetting::Override => "set filter override"@,
            FilterSetting::Review => "set filter review"@,
        }
    }
}

/// The override mode after `mode`.
pub open spec fn next_override(mode: FilterOverride) -> FilterOverride {
    match mode {
        FilterOverride::Uncategorised => FilterOverride::Ai,
        FilterOverride::Ai => FilterOverride::All,
        FilterOverride::All => FilterOverride::Uncategorised,
    }
}

} // verus!
