//! What the edit screens and prompts show, ask and store.

use vstd::arithmetic::div_mod::lemma_small_mod;
use vstd::prelude::*;
use vstd::string::*;

use super::action_laws::{gained, tx_at};
use super::category_tab::Renamed;
use super::tabs::{Tab, TodoSubTab};
use super::tasks::{BarTarget, Task};
use super::transfers::{already_linked, links};
use super::{App, CategoryTarget, ConfirmAction, InputMode, TextPromptTarget};
use crate::find::lemma_first_index;
use crate::model::{AccountWithBank, Category, Filter, Timestamp, Transaction, Transfer};
use crate::tag::{canonical, usable};
use crate::text::{texts, tokens, views};
use crate::tui::input::InputRequest;
use crate::tui::key::{KeyCode, KeyEvent};
use crate::tui::search_bar::ColonAnswer;
use crate::tui::tag_editor::tag_set_is_complete;

verus! {

/// The filter is the one that the keys are about: the one being edited, and else the one
/// on the selected row of the Filters tab.
pub open spec fn at_hand(app: App, f: Filter) -> bool {
    match app.filter_edit {
        Some(edit) => f.id == edit.filter_id && app.lists.filters.all().contains(f) && forall|
            i: int,
        |
            #![trigger app.lists.filters.all()[i]]
            0 <= i < app.lists.filters.all().len() && app.lists.filters.all()[i].id == f.id
                ==> app.lists.filters.all()[i] == f,
        None => app.current_tab == Tab::Filters && app.selected_index
            < app.lists.filters.rows().len() && f == app.lists.filters.rows()[
        app.selected_index as int],
    }
}

proof fn lemma_at_hand(app: App, f: Filter)
    requires
        at_hand(app, f),
    ensures
        app.chosen_filter() == Some(f),
        app.filter_edit is Some ==> app.edited_filter() == Some(f),
{
    if let Some(edit) = app.filter_edit {
        let all = app.lists.filters.all();
        lemma_first_index(all, |x: Filter| x.id == edit.filter_id);
        let k = choose|k: int| 0 <= k < all.len() && all[k] == f;
        assert(all[k].id == edit.filter_id);
    }
}

/// The edit screen opens on the filter at hand, with its query in the bar and the cursor
/// behind it; the query is parsed and then previewed.
pub proof fn the_edit_screen_shows_the_query(app: App, f: Filter, next: App)
    requires
        at_hand(app, f),
        app.open_filter_edit_leads_to(next),
    ensures
        next.input_mode == InputMode::FilterEdit,
        next.filter_edit is Some,
        next.filter_edit->0.filter_id == f.id,
        next.filter_edit->0.name == f.name,
        next.filter_edit->0.search_bar.text() == f.query@,
        next.filter_edit->0.search_bar.at() == f.query@.len(),
        gained(
            app,
            next,
            seq![Task::Parse { target: BarTarget::FilterEdit }, Task::LoadFilterPreview],
        ),
{
    lemma_at_hand(app, f);
}

/// Saving stores what stands in the bar as the query of the filter being edited. Once it
/// is stored the screen closes and the filters are applied; where that failed, the screen
/// stays and the error is shown.
pub proof fn saving_stores_the_query(app: App, next: App, stored: App, failed: App, error: String)
    requires
        app.filter_edit is Some,
        app.save_filter_edit_leads_to(next),
        app.on_filter_query_saved_leads_to(Ok(()), stored),
        app.on_filter_query_saved_leads_to(Err(error), failed),
    ensures
        gained(app, next, seq![next.agenda@[0]]),
        next.agenda@[0] is SetFilterQuery,
        next.agenda@[0]->SetFilterQuery_id == app.filter_edit->0.filter_id,
        next.agenda@[0]->SetFilterQuery_query@ == app.filter_edit->0.search_bar.text(),
        next.filter_edit == app.filter_edit && next.input_mode == app.input_mode,
        stored.filter_edit is None && stored.input_mode == InputMode::Normal,
        gained(app, stored, seq![Task::ApplyFilters]),
        failed.filter_edit == app.filter_edit && failed.input_mode == app.input_mode,
        failed.agenda == app.agenda && failed.error_message is Some,
{
}

/// Leaving the edit screen asks where the bar holds another query than the filter, and
/// leaves at once where it holds the same.
pub proof fn leaving_asks_where_the_query_changed(app: App, f: Filter, next: App)
    requires
        app.filter_edit is Some,
        at_hand(app, f),
        app.request_exit_filter_edit_leads_to(next),
    ensures
        f.query@ == app.filter_edit->0.search_bar.text() ==> next.filter_edit is None
            && next.input_mode == InputMode::Normal && next.confirm_action == app.confirm_action,
        f.query@ != app.filter_edit->0.search_bar.text() ==> next.filter_edit == app.filter_edit
            && next.input_mode == InputMode::Confirm && next.confirm_action == Some(
            ConfirmAction::DiscardFilterEdit,
        ),
        next.agenda == app.agenda,
{
    lemma_at_hand(app, f);
}

/// On the edit screen a tilde is a character like others: it goes in at the cursor. What
/// is typed is parsed and previewed from its first row on.
pub proof fn a_tilde_is_typed_on_the_edit_screen(
    app: App,
    req: InputRequest,
    answer: Option<ColonAnswer>,
    next: App,
)
    requires
        app.filter_edit is Some,
        app.filter_edit_input_leads_to(req, answer, next),
    ensures
        next.filter_edit is Some,
        next.filter_edit->0.preview_scroll == 0,
        next.filter_edit->0.filter_id == app.filter_edit->0.filter_id,
        next.input_mode == app.input_mode,
        gained(
            app,
            next,
            seq![Task::Parse { target: BarTarget::FilterEdit }, Task::LoadFilterPreview],
        ),
        req == InputRequest::InsertChar('~') ==> {
            let (was, bar) = (app.filter_edit->0.search_bar, next.filter_edit->0.search_bar);
            &&& 0 <= was.at() <= was.text().len() ==> bar.text() == (was.text().take(was.at())
                + seq!['~']) + was.text().skip(was.at())
            &&& bar.at() == was.at() + 1
        },
{
    let was = app.filter_edit->0.search_bar;
    if 0 <= was.at() <= was.text().len() {
        assert(was.text().insert(was.at(), '~') =~= (was.text().take(was.at()) + seq!['~'])
            + was.text().skip(was.at()));
    }
}

proof fn lemma_round(i: int, len: int)
    requires
        0 <= i < len,
    ensures
        super::after(i, len) == (if i == len - 1 { 0 } else { i + 1 }),
        super::before(i, len) == (if i == 0 { len - 1 } else { i - 1 }),
{
    if i < len - 1 {
        lemma_small_mod((i + 1) as nat, len as nat);
    } else {
        vstd::arithmetic::div_mod::lemma_mod_self_0(len);
    }
    if i > 0 {
        vstd::arithmetic::div_mod::lemma_mod_add_multiples_vanish(i - 1, len);
        lemma_small_mod((i - 1) as nat, len as nat);
    } else {
        lemma_small_mod((len - 1) as nat, len as nat);
    }
}

/// The previews are gone through by one row, and round at either end.
pub proof fn previews_are_gone_through_in_order(
    app: App,
    next: App,
    prev: App,
    after: App,
    before: App,
)
    requires
        app.filter_edit_preview_next_leads_to(next),
        app.filter_edit_preview_prev_leads_to(prev),
        app.apply_filters_preview_next_leads_to(after),
        app.apply_filters_preview_prev_leads_to(before),
    ensures
        app.filter_edit is Some && app.filter_edit->0.preview_scroll
            < app.filter_edit->0.preview@.len() ==> {
            let (i, n) = (
                app.filter_edit->0.preview_scroll as int,
                app.filter_edit->0.preview@.len() as int,
            );
            &&& next.filter_edit is Some && next.filter_edit->0.preview
                == app.filter_edit->0.preview
            &&& prev.filter_edit is Some && prev.filter_edit->0.preview
                == app.filter_edit->0.preview
            &&& next.filter_edit->0.preview_scroll == if i == n - 1 { 0 } else { i + 1 }
            &&& prev.filter_edit->0.preview_scroll == if i == 0 { n - 1 } else { i - 1 }
        },
        app.apply_filters_preview is Some && app.apply_filters_preview->0.scroll
            < app.apply_filters_preview->0.rows@.len() ==> {
            let (i, n) = (
                app.apply_filters_preview->0.scroll as int,
                app.apply_filters_preview->0.rows@.len() as int,
            );
            &&& after.apply_filters_preview is Some && after.apply_filters_preview->0.rows
                == app.apply_filters_preview->0.rows
            &&& before.apply_filters_preview is Some && before.apply_filters_preview->0.rows
                == app.apply_filters_preview->0.rows
            &&& after.apply_filters_preview->0.scroll == if i == n - 1 { 0 } else { i + 1 }
            &&& before.apply_filters_preview->0.scroll == if i == 0 { n - 1 } else { i - 1 }
        },
{
    if app.filter_edit is Some && app.filter_edit->0.preview_scroll
        < app.filter_edit->0.preview@.len() {
        assert(app.filter_edit->0.preview.len() <= usize::MAX);
        lemma_round(
            app.filter_edit->0.preview_scroll as int,
            app.filter_edit->0.preview@.len() as int,
        );
    }
    if app.apply_filters_preview is Some && app.apply_filters_preview->0.scroll
        < app.apply_filters_preview->0.rows@.len() {
        assert(app.apply_filters_preview->0.rows.len() <= usize::MAX);
        lemma_round(
            app.apply_filters_preview->0.scroll as int,
            app.apply_filters_preview->0.rows@.len() as int,
        );
    }
}

/// The filters are applied only after their effect was shown and confirmed: asking loads
/// what would change, and the answer applies them.
pub proof fn filters_are_applied_once_confirmed(
    app: App,
    asked: App,
    rows: Vec<Transaction>,
    shown: App,
    applied: App,
)
    requires
        app.current_tab == Tab::Filters || app.filter_edit is Some,
        app.apply_filter_categories_leads_to(asked),
        app.on_apply_preview_leads_to(Ok(rows), shown),
        app.apply_filters_confirm_leads_to(applied),
    ensures
        gained(app, asked, seq![Task::PreviewFilters]),
        asked.input_mode == app.input_mode,
        shown.input_mode == InputMode::ConfirmApplyFilters,
        shown.apply_filters_preview is Some,
        shown.apply_filters_preview->0.rows == rows,
        shown.apply_filters_preview->0.scroll == 0,
        shown.agenda == app.agenda,
        gained(app, applied, seq![Task::ApplyFilters]),
        applied.apply_filters_preview is None,
        applied.input_mode == (if app.filter_edit is Some {
            InputMode::FilterEdit
        } else {
            InputMode::Normal
        }),
{
}

/// A prompt to rename opens with the name at hand, and one to save a search as a filter
/// keeps the text of the search. Deleting a filter asks first.
pub proof fn prompts_open_on_what_is_at_hand(
    app: App,
    f: Filter,
    renaming: App,
    deleting: App,
    saving: App,
    creating: App,
)
    requires
        at_hand(app, f),
        app.start_filter_rename_leads_to(renaming),
        app.delete_filter_leads_to(deleting),
        app.start_filter_from_search_leads_to(saving),
        app.start_filter_create_leads_to(creating),
    ensures
        renaming.text_prompt is Some && renaming.text_prompt->0.target
            == TextPromptTarget::FilterRename(f.id) && renaming.text_prompt->0.input.text()
            == f.name@ && renaming.input_mode == InputMode::TextPrompt,
        deleting.input_mode == InputMode::Confirm && deleting.confirm_action == Some(
            ConfirmAction::DeleteFilter(f.id),
        ) && deleting.agenda == app.agenda,
        app.current_tab == Tab::Transactions && app.here().db_search_active
            && app.here().search_bar.text().len() > 0 ==> saving.text_prompt is Some
            && saving.text_prompt->0.target is FilterCreateFromQuery
            && saving.text_prompt->0.target->FilterCreateFromQuery_0@
            == app.here().search_bar.text() && saving.text_prompt->0.input.text().len() == 0,
        app.current_tab != Tab::Transactions ==> saving == app,
        app.current_tab == Tab::Filters ==> creating.text_prompt is Some
            && creating.text_prompt->0.target == TextPromptTarget::FilterCreate
            && creating.text_prompt->0.input.text().len() == 0,
        app.current_tab != Tab::Filters ==> creating == app,
{
    lemma_at_hand(app, f);
}

/// A new or renamed filter is selected once the filters were loaded anew, and a path that
/// was given to a category or an account is too.
pub proof fn what_changed_is_selected(
    app: App,
    name: String,
    id: i64,
    created: App,
    renamed: App,
    category: Category,
    path: String,
    moved: App,
    account: AccountWithBank,
    gone: App,
)
    requires
        app.on_filter_created_leads_to(name, Ok(id), created),
        app.on_filter_renamed_leads_to(id, name, Ok(()), renamed),
        app.on_category_renamed_leads_to(category, path, Renamed::Done, moved),
        app.on_account_renamed_leads_to(account, path, Ok(()), gone),
    ensures
        created.agenda@.len() > app.agenda@.len(),
        created.agenda@[created.agenda@.len() - app.agenda@.len() - 1] == (Task::FocusFilter {
            id,
        }),
        created.text_prompt is None && created.input_mode == InputMode::Normal,
        renamed.agenda@.contains(Task::FocusFilter { id }),
        renamed.text_prompt is None,
        moved.agenda@.len() > app.agenda@.len(),
        moved.agenda@[moved.agenda@.len() - app.agenda@.len() - 1] == (Task::FocusCategory {
            path,
        }),
        moved.text_prompt is None && moved.input_mode == InputMode::Normal,
        gone.agenda@.len() > app.agenda@.len(),
        gone.agenda@[gone.agenda@.len() - app.agenda@.len() - 1] == (Task::FocusAccount { path }),
        gone.text_prompt is None && gone.input_mode == InputMode::Normal,
{
    let n = renamed.agenda@.len() - app.agenda@.len() - 2;
    assert(renamed.agenda@[n] == (Task::FocusFilter { id }));
}

/// Selecting by id or by path selects the first row that has it, and leaves the selection
/// where no row has it.
pub proof fn the_named_row_is_selected(
    app: App,
    id: i64,
    filter: App,
    path: &str,
    category: App,
    account: App,
    i: int,
)
    requires
        app.focus_filter_leads_to(id, filter),
        app.focus_category_leads_to(path, category),
        app.focus_account_leads_to(path, account),
        app.lists.filters.rows().len() <= usize::MAX,
        app.lists.categories.rows().len() <= usize::MAX,
        app.lists.accounts.rows().len() <= usize::MAX,
    ensures
        0 <= i < app.lists.filters.rows().len() && app.lists.filters.rows()[i].id == id
            ==> filter.selected_index <= i && app.lists.filters.rows()[
        filter.selected_index as int].id == id,
        0 <= i < app.lists.categories.rows().len() && app.lists.categories.rows()[i].path@ == path@
            ==> category.selected_index <= i && app.lists.categories.rows()[
        category.selected_index as int].path@ == path@,
        0 <= i < app.lists.accounts.rows().len() && app.lists.accounts.rows()[i].path@ == path@
            ==> account.selected_index <= i && app.lists.accounts.rows()[
        account.selected_index as int].path@ == path@,
        (forall|k: int|
            0 <= k < app.lists.filters.rows().len() ==> (#[trigger] app.lists.filters.rows()[k]).id
                != id) ==> filter.selected_index == app.selected_index,
        (forall|k: int|
            0 <= k < app.lists.categories.rows().len() ==> (
            #[trigger] app.lists.categories.rows()[k]).path@ != path@) ==> category.selected_index
            == app.selected_index,
        (forall|k: int|
            0 <= k < app.lists.accounts.rows().len() ==> (#[trigger] app.lists.accounts.rows()[k]).path@
                != path@) ==> account.selected_index == app.selected_index,
{
    lemma_first_index(app.lists.filters.rows(), |f: Filter| f.id == id);
    lemma_first_index(app.lists.categories.rows(), |c: Category| c.path@ == path@);
    lemma_first_index(app.lists.accounts.rows(), |a: AccountWithBank| a.path@ == path@);
}

/// Renaming a category to a path that another one has asks whether to merge into that
/// one, and the prompt stays behind with what was typed; another failure shows the error
/// in its place.
pub proof fn a_taken_path_asks_for_a_merge(
    app: App,
    category: Category,
    path: String,
    outcome: Renamed,
    next: App,
)
    requires
        app.on_category_renamed_leads_to(category, path, outcome, next),
        !(outcome is Done),
    ensures
        next.text_prompt is Some,
        next.text_prompt->0.input.text() == path@,
        next.text_prompt->0.target == TextPromptTarget::CategoryRename(category),
        next.agenda == app.agenda,
        outcome is Taken && outcome->merge is Some ==> next.input_mode == InputMode::Confirm
            && next.confirm_action == Some(
            ConfirmAction::MergeCategory {
                source_id: category.id,
                target_id: (outcome->merge->0).0,
            },
        ),
        !(outcome is Taken && outcome->merge is Some) ==> next.input_mode == InputMode::TextPrompt
            && next.error_message is Some && next.confirm_action == app.confirm_action,
{
}

/// The note editor opens on the note of the selected transaction, with the cursor behind
/// it; nothing is in it where there is none.
pub proof fn the_note_editor_shows_the_note(app: App, tx: Transaction, next: App)
    requires
        tx_at(app, app.selected_index as int) == Some(tx),
        app.start_note_edit_leads_to(next),
    ensures
        next.input_mode == InputMode::Note,
        next.note_editor is Some,
        next.note_editor->0.owner() == tx.id,
        next.note_editor->0@.text() == (if app.note_by_tx_id@.contains_key(tx.id) {
            app.note_by_tx_id@[tx.id]@
        } else {
            Seq::empty()
        }),
        next.note_editor->0@.row == next.note_editor->0@.lines.len() - 1,
        next.note_editor->0@.col == next.note_editor->0@.lines.last().len(),
{
}

/// Saving a note stores its text for its transaction. Leaving asks where the text is
/// another than it was, and leaves at once where it is the same.
pub proof fn a_note_is_saved_or_asked_about(app: App, key: KeyEvent, next: App)
    requires
        app.note_editor is Some,
        app.note_keyed(key, next),
    ensures
        ({
            let editor = app.note_editor->0;
            &&& key.modifiers.control && key.code == KeyCode::Char('s') ==> {
                &&& gained(app, next, seq![next.agenda@[0]])
                &&& next.agenda@[0] is SaveNote
                &&& next.agenda@[0]->SaveNote_tx_id == editor.owner()
                &&& next.agenda@[0]->SaveNote_text@ == editor@.text()
            }
            &&& key.code == KeyCode::Esc && editor@.text() == editor.opened_with()
                ==> next.note_editor is None && next.input_mode == InputMode::Normal
            &&& key.code == KeyCode::Esc && editor@.text() != editor.opened_with()
                ==> next.note_editor is Some && next.note_editor->0@ == editor@ && next.input_mode
                == InputMode::Confirm && next.confirm_action == Some(
                ConfirmAction::DiscardNoteEdit,
            )
            &&& !(key.modifiers.control && key.code == KeyCode::Char('s')) ==> next.agenda
                == app.agenda
        }),
{
}

/// The tag editor opens on the tags of the selected transaction, with the cursor behind
/// them; saving stores for its transaction the usable spelling of each word, and leaving
/// stores nothing.
pub proof fn the_tag_editor_stores_the_words(
    app: App,
    tx: Transaction,
    opened: App,
    key: KeyEvent,
    next: App,
    tag: Seq<char>,
)
    requires
        tx_at(app, app.selected_index as int) == Some(tx),
        app.start_tag_edit_leads_to(opened),
        app.tag_editor is Some,
        app.tags_keyed(key, next),
    ensures
        opened.input_mode == InputMode::Tags,
        opened.tag_editor is Some,
        opened.tag_editor->0.owner() == tx.id,
        opened.tag_editor->0@.cursor == opened.tag_editor->0@.input.len(),
        !app.tags_by_tx_id@.contains_key(tx.id) ==> opened.tag_editor->0@.input.len() == 0,
        key.code == KeyCode::Enter ==> {
            let line = app.tag_editor->0@.input;
            &&& gained(app, next, seq![next.agenda@[0]])
            &&& next.agenda@[0] is SaveTags
            &&& next.agenda@[0]->SaveTags_tx_id == app.tag_editor->0.owner()
            &&& views(next.agenda@[0]->SaveTags_tags@).contains(tag) == (usable(tag) && exists|
                i: int,
            |
                0 <= i < tokens(line).len() && canonical(#[trigger] texts(line, tokens(line))[i])
                    == tag)
        },
        key.code == KeyCode::Esc ==> next.tag_editor is None && next.input_mode
            == InputMode::Normal && next.agenda == app.agenda,
{
    let line = app.tag_editor->0@.input;
    tag_set_is_complete(texts(line, tokens(line)), tag);
}

/// A character typed in the category popup goes behind what is typed, and backspace takes
/// the last one; suggestions for it are loaded either way, and the first is highlighted.
pub proof fn typing_a_category(
    app: App,
    c: char,
    typed: App,
    erased: App,
    found: Result<Vec<Category>, String>,
    now: Timestamp,
    offered: App,
)
    requires
        app.update_category_input_leads_to(c, typed),
        app.backspace_category_input_leads_to(erased),
        app.on_suggestions_leads_to(found, now, offered),
    ensures
        typed.category_input@ == app.category_input@ + seq![c],
        gained(app, typed, seq![Task::LoadSuggestions]),
        app.category_input@.len() > 0 ==> erased.category_input@ == app.category_input@.take(
            app.category_input@.len() - 1,
        ),
        app.category_input@.len() == 0 ==> erased.category_input@.len() == 0,
        gained(app, erased, seq![Task::LoadSuggestions]),
        offered.category_selected == 0,
        offered.category_input == app.category_input && offered.agenda == app.agenda,
        found is Err ==> offered.error_message is Some,
{
    assert(app.category_input@.push(c) =~= app.category_input@ + seq![c]);
    if app.category_input@.len() > 0 {
        assert(app.category_input@.drop_last() =~= app.category_input@.take(
            app.category_input@.len() - 1,
        ));
    }
}

/// On the reviews the keys confirm or remove the category of the selected suggestion, and
/// confirm the selected transfer.
pub proof fn the_selected_review_is_decided(
    app: App,
    confirmed: App,
    removed: App,
    linked: App,
)
    requires
        app.current_tab == Tab::Todo,
        app.confirm_ai_category_leads_to(confirmed),
        app.remove_ai_category_leads_to(removed),
        app.confirm_transfer_review_leads_to(linked),
    ensures
        app.todo_subtab == TodoSubTab::AiReview && app.selected_index
            < app.lists.ai_reviews.rows().len() ==> {
            let tx_id = app.lists.ai_reviews.rows()[app.selected_index as int].transaction.id;
            &&& gained(app, confirmed, seq![Task::ConfirmCategory { tx_id }])
            &&& gained(app, removed, seq![Task::RemoveCategory { tx_id }])
        },
        app.todo_subtab == TodoSubTab::TransferReview && app.selected_index
            < app.lists.transfer_reviews.rows().len() ==> gained(
            app,
            linked,
            seq![
                Task::ConfirmTransfer {
                    id: app.lists.transfer_reviews.rows()[app.selected_index as int].id,
                },
            ],
        ),
        app.todo_subtab != TodoSubTab::AiReview ==> confirmed == app && removed == app,
        app.todo_subtab != TodoSubTab::TransferReview ==> linked == app,
{
}

/// The category popup opens for the filter at hand, with the path of its category typed
/// already, or for the selected transaction with nothing typed; it offers suggestions
/// first thing.
pub proof fn the_category_popup_opens_for_what_is_at_hand(
    app: App,
    f: Filter,
    c: Category,
    tx: Transaction,
    next: App,
)
    requires
        app.start_category_edit_leads_to(next),
        app.lists.categories.all().contains(c),
        forall|i: int|
            0 <= i < app.lists.categories.all().len() && (
            #[trigger] app.lists.categories.all()[i]).id == c.id ==> app.lists.categories.all()[i]
                == c,
    ensures
        at_hand(app, f) && (app.filter_edit is Some ==> app.input_mode == InputMode::FilterEdit)
            ==> {
            &&& next.input_mode == InputMode::Category
            &&& next.category_target == CategoryTarget::Filter(f.id)
            &&& f.category_id == Some(c.id) ==> next.category_input@ == c.path@
            &&& f.category_id is None ==> next.category_input@.len() == 0
            &&& gained(app, next, seq![Task::LoadSuggestions])
        },
        app.input_mode != InputMode::FilterEdit && tx_at(app, app.selected_index as int) == Some(tx)
            ==> {
            &&& next.input_mode == InputMode::Category
            &&& next.category_target == CategoryTarget::Transaction
            &&& next.category_input@.len() == 0
            &&& gained(app, next, seq![Task::LoadSuggestions])
        },
{
    if at_hand(app, f) {
        lemma_at_hand(app, f);
    }
    let all = app.lists.categories.all();
    lemma_first_index(all, |x: Category| x.id == c.id);
    let k = choose|k: int| 0 <= k < all.len() && all[k] == c;
    assert(all[k].id == c.id);
    if f.category_id is Some && f.category_id->0 == c.id {
        assert(app.path_of(c.id) == Some(c.path@));
    }
}

/// A category for all that a search found is asked for on the Transactions tab and on the
/// suggestions, while a row is selected; the popup opens with nothing typed.
pub proof fn a_category_for_all_found_is_asked_for(app: App, next: App)
    requires
        app.start_bulk_categorise_matching_leads_to(next),
    ensures
        ({
            let fits = tx_at(app, app.selected_index as int) is Some && !(app.current_tab
                == Tab::Todo && app.todo_subtab == TodoSubTab::Uncategorised);
            &&& fits ==> next.input_mode == InputMode::Category && next.category_target
                == CategoryTarget::MatchingTransactions && next.category_input@.len() == 0
                && gained(app, next, seq![Task::LoadSuggestions])
            &&& !fits ==> next == app
        }),
{
}

/// Two transactions are linked already where a transfer that is known of either goes from
/// one of them to the other, whichever way.
pub proof fn a_link_is_known_either_way_round(m: Map<i64, Transfer>, a: i64, b: i64)
    ensures
        already_linked(m, a, b) <==> exists|k: i64|
            {
                &&& k == a || k == b
                &&& #[trigger] m.contains_key(k)
                &&& (m[k].from_transaction_id == a && m[k].to_transaction_id == b) || (
                m[k].from_transaction_id == b && m[k].to_transaction_id == a)
            },
        already_linked(m, a, b) == already_linked(m, b, a),
{
    if already_linked(m, a, b) {
        if m.contains_key(a) && links(m[a], a, b) {
            assert(m.contains_key(a));
        } else {
            assert(m.contains_key(b));
        }
    }
}

/// While the edit screen offers completions, the arrows go through them and Escape closes
/// them, and the screen stays with its text; else the arrows go through the preview,
/// Escape leaves and Enter saves.
pub proof fn keys_on_the_edit_screen(
    app: App,
    key: KeyEvent,
    answer: Option<ColonAnswer>,
    next: App,
)
    requires
        app.filter_edit is Some,
        !key.modifiers.control,
        app.filter_edit_keyed(key, answer, next),
    ensures
        app.filter_edit->0.search_bar.popup() is Some ==> {
            &&& key.code == KeyCode::Esc ==> next.filter_edit is Some
                && next.filter_edit->0.search_bar.popup() is None
                && next.filter_edit->0.search_bar.text() == app.filter_edit->0.search_bar.text()
                && next.input_mode == app.input_mode
            &&& key.code == KeyCode::Down || key.code == KeyCode::Up ==> next.filter_edit is Some
                && next.filter_edit->0.search_bar.text() == app.filter_edit->0.search_bar.text()
                && next.filter_edit->0.preview_scroll == app.filter_edit->0.preview_scroll
        },
        app.filter_edit->0.search_bar.popup() is None ==> {
            &&& key.code == KeyCode::Esc ==> app.request_exit_filter_edit_leads_to(next)
            &&& key.code == KeyCode::Down ==> app.filter_edit_preview_next_leads_to(next)
            &&& key.code == KeyCode::Up ==> app.filter_edit_preview_prev_leads_to(next)
            &&& key.code == KeyCode::Enter ==> app.save_filter_edit_leads_to(next)
        },
{
}

/// With Control, on the edit screen E renames the filter, C asks for its category, O goes
/// to its next mode, V turns its review on or off and A asks to apply the filters.
pub proof fn control_keys_on_the_edit_screen(
    app: App,
    key: KeyEvent,
    answer: Option<ColonAnswer>,
    next: App,
)
    requires
        key.modifiers.control && !key.modifiers.alt && !key.modifiers.shift,
        app.filter_edit_keyed(key, answer, next),
    ensures
        key.code == KeyCode::Char('e') ==> app.start_filter_rename_leads_to(next),
        key.code == KeyCode::Char('c') ==> app.start_category_edit_leads_to(next),
        key.code == KeyCode::Char('o') ==> app.cycle_filter_override_leads_to(next),
        key.code == KeyCode::Char('v') ==> app.toggle_filter_review_leads_to(next),
        key.code == KeyCode::Char('a') ==> app.apply_filter_categories_leads_to(next),
{
}

} // verus!
