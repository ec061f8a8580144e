//! What holds of the application over several steps.

use vstd::prelude::*;

use super::search_state::{SearchStates, TabSearchState};
use super::tabs::{key_of, Tab, TodoSubTab};
use super::tasks::{BackgroundJob, Task};
use super::transfers::already_linked;
use super::{after, before, scheduled, App, ConfirmAction, InputMode};

verus! {

/// Putting a state to one tab leaves the others' alone.
pub proof fn other_states_stay(
    states: SearchStates,
    tab: Tab,
    subtab: TodoSubTab,
    state: TabSearchState,
    other: Tab,
    other_subtab: TodoSubTab,
)
    requires
        key_of(tab, subtab) != key_of(other, other_subtab),
    ensures
        states.with(key_of(tab, subtab), state).of(key_of(other, other_subtab)) == states.of(
            key_of(other, other_subtab),
        ),
{
    reveal(SearchStates::of);
    reveal(SearchStates::with);
}

/// Going to the next tab and back again ends on the same tab and row, in the
/// same search mode.
pub proof fn switching_back_restores_the_tab(app: App, there: App, back: App)
    requires
        app.input_mode == InputMode::Normal || app.input_mode == InputMode::DbSearch
            || app.input_mode == InputMode::FuzzySearch,
        app.next_tab_leads_to(there),
        there.previous_tab_leads_to(back),
    ensures
        back.current_tab == app.current_tab,
        back.todo_subtab == app.todo_subtab,
        back.selected_index == app.selected_index,
        back.input_mode == app.input_mode,
        back.lists == app.lists,
{
    let i = app.current_tab.place();
    let n = after(i, 6);
    assert(before(n, 6) == i);
    assert(Tab::order()[n].place() == n);
    assert(Tab::order()[i] == app.current_tab);
    let here = app.key();
    let saved = TabSearchState {
        selected_index: app.selected_index,
        editing_db_search: app.input_mode == InputMode::DbSearch,
        editing_fuzzy_search: app.input_mode == InputMode::FuzzySearch,
        ..app.search.of(here)
    };
    let states = app.search.with(here, saved);
    super::search_state::put_state_is_there(app.search, here, saved);
    assert(there.search == states);
    assert(there.current_tab == Tab::order()[n]);
    let left = TabSearchState {
        selected_index: there.selected_index,
        editing_db_search: there.input_mode == InputMode::DbSearch,
        editing_fuzzy_search: there.input_mode == InputMode::FuzzySearch,
        ..states.of(there.key())
    };
    other_states_stay(
        states,
        there.current_tab,
        app.todo_subtab,
        left,
        app.current_tab,
        app.todo_subtab,
    );
}

/// A confirmed action always lands in Normal mode, with the question gone.
pub proof fn confirming_lands_in_normal(app: App, next: App)
    requires
        app.confirm_action is Some,
        app.confirm_proceed_leads_to(next),
    ensures
        next.input_mode == InputMode::Normal,
        next.confirm_action is None,
        next.confirm_message is None,
{
}

/// Declining to discard a note puts the user back in the editor with their text
/// intact.
pub proof fn declining_keeps_the_note(app: App, next: App)
    requires
        app.input_mode == InputMode::Confirm,
        app.confirm_action == Some(ConfirmAction::DiscardNoteEdit),
        app.note_editor is Some,
        app.text_prompt is None,
        app.cancelled(next),
    ensures
        next.input_mode == InputMode::Note,
        next.note_editor == app.note_editor,
        next.confirm_action is None,
{
}

/// Declining a merge puts the user back in the rename prompt with what they
/// typed.
pub proof fn declining_a_merge_keeps_the_prompt(app: App, next: App)
    requires
        app.input_mode == InputMode::Confirm,
        app.text_prompt is Some,
        app.cancelled(next),
    ensures
        next.input_mode == InputMode::TextPrompt,
        next.text_prompt == app.text_prompt,
        next.confirm_action is None,
{
}

/// While a background job runs, asking for another starts nothing.
pub proof fn one_job_at_a_time(app: App, job: BackgroundJob, next: App)
    requires
        app.active_job is Some,
        app.job_requested(job, next),
    ensures
        next.active_job == app.active_job,
        next.agenda == app.agenda,
{
}

/// Marking a transfer that exists is a no-op: no question, no step.
pub proof fn marking_a_transfer_again_changes_nothing(app: App, next: App)
    requires
        app.pending_transfer_tx matches Some(from) && app.selected_tx() matches Some(to)
            && from.amount_cents == -to.amount_cents && {
            let sides = super::transfers::directed(from, to);
            already_linked(app.transfer_by_tx_id@, sides.0, sides.1)
        },
        app.transfer_completed(next),
    ensures
        next.agenda == app.agenda,
        next.confirm_action == app.confirm_action,
        next.transfer_by_tx_id == app.transfer_by_tx_id,
        next.error_message == app.error_message,
{
    reveal(App::linking);
}

/// What is put on the agenda is carried out before what was there, in order.
pub proof fn tasks_run_in_order(was: App, now: App, tasks: Seq<Task>, i: int)
    requires
        scheduled(was, now, tasks),
        0 <= i < now.agenda@.len(),
    ensures
        now.agenda@[i] == if i < tasks.len() {
            tasks[i]
        } else {
            was.agenda@[i - tasks.len()]
        },
{
}

} // verus!
