//! Key bindings and key-hint text for the TUI.
//!
//! Normal mode is table-driven here: dispatch, the footer, and the keybind
//! popover all derive from `normal_binds`. Modal modes keep their handlers in
//! `keys`; update their curated hint arms here whenever those handlers change.

use vstd::prelude::*;
use vstd::string::*;

use super::app::caches::lookup;
use super::app::tabs::{Tab, TodoSubTab};
use super::app::{App, InputMode};
use super::key::{ascii_lower, eq_ignore_ascii_case, KeyCode, KeyEvent};
use crate::find::first_index;

verus! {

#[derive(Debug, Clone, Copy, PartialEq, Eq, Structural)]
pub enum Trigger {
    Char(char),
    Ctrl(char),
    Code(KeyCode),
}

impl Trigger {
    /// The key is one this trigger stands for.
    pub open spec fn fires(self, key: KeyEvent) -> bool {
        match self {
            Trigger::Char(c) => key.code == KeyCode::Char(c) && !key.modifiers.control
                && !key.modifiers.alt,
            Trigger::Ctrl(
                c) => key.code matches KeyCode::Char(k) && ascii_lower(k) == ascii_lower(c,
            )
                && key.modifiers.control && !key.modifiers.alt,
            Trigger::Code(code) => key.code == code,
        }
    }

    pub fn matches(self, key: &KeyEvent) -> (yes: bool)
        ensures
            yes == self.fires(*key),
    {
        match self {
            Trigger::Char(c) => key.code == KeyCode::Char(c) && !key.modifiers.control
                && !key.modifiers.alt,
            Trigger::Ctrl(c) => match key.code {
                KeyCode::Char(k) => eq_ignore_ascii_case(k, c) && key.modifiers.control
                    && !key.modifiers.alt,
                _ => false,
            },
            Trigger::Code(code) => key.code == code,
        }
    }
}

/// Whether the key is `c` with Control.
pub fn is_ctrl(key: &KeyEvent, c: char) -> (yes: bool)
    ensures
        yes == Trigger::Ctrl(c).fires(*key),
{
    Trigger::Ctrl(c).matches(key)
}

/// The modes in which `?` opens the keybind popover: those whose footer offers
/// it.
pub fn help_available(mode: InputMode) -> (yes: bool)
    ensures
        yes == offers_help(mode),
{
    mode == InputMode::Normal || mode == InputMode::TransferPending
}

pub open spec fn offers_help(mode: InputMode) -> bool {
    mode == InputMode::Normal || mode == InputMode::TransferPending
}

/// What Control does on the filter edit screen.
#[derive(Debug, Clone, Copy, PartialEq, Eq, Structural)]
pub enum FilterEditCtrlAction {
    Rename,
    Category,
    CycleOverride,
    ToggleReview,
    Apply,
}

/// The action of a key on the filter edit screen.
pub open spec fn edit_action(key: KeyEvent) -> Option<FilterEditCtrlAction> {
    if Trigger::Ctrl('e').fires(key) {
        Some(FilterEditCtrlAction::Rename)
    } else if Trigger::Ctrl('c').fires(key) {
        Some(FilterEditCtrlAction::Category)
    } else if Trigger::Ctrl('o').fires(key) {
        Some(FilterEditCtrlAction::CycleOverride)
    } else if Trigger::Ctrl('v').fires(key) {
        Some(FilterEditCtrlAction::ToggleReview)
    } else if Trigger::Ctrl('a').fires(key) {
        Some(FilterEditCtrlAction::Apply)
    } else {
        None
    }
}

pub fn filter_edit_ctrl_action(key: &KeyEvent) -> (action: Option<FilterEditCtrlAction>)
    ensures
        action == edit_action(*key),
{
    if is_ctrl(key, 'e') {
        Some(FilterEditCtrlAction::Rename)
    } else if is_ctrl(key, 'c') {
        Some(FilterEditCtrlAction::Category)
    } else if is_ctrl(key, 'o') {
        Some(FilterEditCtrlAction::CycleOverride)
    } else if is_ctrl(key, 'v') {
        Some(FilterEditCtrlAction::ToggleReview)
    } else if is_ctrl(key, 'a') {
        Some(FilterEditCtrlAction::Apply)
    } else {
        None
    }
}

#[derive(Debug, Clone, Copy, PartialEq, Eq, Structural)]
pub enum Act {
    Quit,
    NextItem,
    PrevItem,
    NextTab,
    PrevTab,
    NextSubtab,
    PrevSubtab,
    DbSearch,
    FuzzySearch,
    Categorise,
    CategoriseMatching,
    AcceptMatching,
    EditNote,
    EditTags,
    RenameCategory,
    CreateFilter,
    ApplyFilters,
    SaveSearchAsFilter,
    RenameFilter,
    EditFilter,
    CycleFilterOverride,
    ToggleFilterReview,
    DeleteFilter,
    MarkTransfer,
    DeleteTransfer,
    DeleteTxLink,
    RemoveCategory,
    Confirm,
    ClearSearch,
    ToggleDetails,
    Reindex,
}

/// A row of the table: what fires it, how it is shown, and what it does.
#[derive(Debug)]
pub struct Bind {
    pub triggers: Vec<Trigger>,
    pub label: &'static str,
    pub desc: &'static str,
    pub footer: bool,
    pub help: bool,
    pub act: Act,
}

/// A row of the table as a value.
pub struct Binding {
    pub triggers: Seq<Trigger>,
    pub label: Seq<char>,
    pub desc: Seq<char>,
    pub footer: bool,
    pub help: bool,
    pub act: Act,
}

impl View for Bind {
    type V = Binding;

    open spec fn view(&self) -> Binding {
        Binding {
            triggers: self.triggers@,
            label: self.label@,
            desc: self.desc@,
            footer: self.footer,
            help: self.help,
            act: self.act,
        }
    }
}

pub open spec fn bindings(binds: Seq<Bind>) -> Seq<Binding> {
    binds.map_values(|b: Bind| b@)
}

/// A row fired by one trigger, shown everywhere.
pub open spec fn row(trigger: Trigger, label: Seq<char>, desc: Seq<char>, act: Act) -> Binding {
    Binding { triggers: seq![trigger], label, desc, footer: true, help: true, act }
}

/// A row shown in the popover alone.
pub open spec fn help_row(
    trigger: Trigger,
    label: Seq<char>,
    desc: Seq<char>,
    act: Act,
) -> Binding {
    Binding { footer: false, ..row(trigger, label, desc, act) }
}

/// The row with a second trigger.
pub open spec fn or(b: Binding, trigger: Trigger) -> Binding {
    Binding { triggers: b.triggers.push(trigger), ..b }
}

fn push(
    out: &mut Vec<Bind>,
    trigger: Trigger,
    label: &'static str,
    desc: &'static str,
    act: Act,
)
    ensures
        bindings(final(out)@) == bindings(old(out)@).push(row(trigger, label@, desc@, act)),
{
    push_bind(out, trigger, None, label, desc, (true, true), act);
}

fn push_help(
    out: &mut Vec<Bind>,
    trigger: Trigger,
    other: Option<Trigger>,
    label: &'static str,
    desc: &'static str,
    act: Act,
)
    ensures
        bindings(final(out)@) == bindings(old(out)@).push(
            match other {
                Some(o) => or(help_row(trigger, label@, desc@, act), o),
                None => help_row(trigger, label@, desc@, act),
            },
        ),
{
    push_bind(out, trigger, other, label, desc, (false, true), act);
}

/// A row with its places: footer and popover.
fn push_bind(
    out: &mut Vec<Bind>,
    trigger: Trigger,
    other: Option<Trigger>,
    label: &'static str,
    desc: &'static str,
    shown: (bool, bool),
    act: Act,
)
    ensures
        bindings(final(out)@) == bindings(old(out)@).push(
            (Binding {
                triggers: match other {
                    Some(o) => seq![trigger].push(o),
                    None => seq![trigger],
                },
                label: label@,
                desc: desc@,
                footer: shown.0,
                help: shown.1,
                act,
            }),
        ),
{
    let mut triggers: Vec<Trigger> = Vec::new();
    triggers.push(trigger);
    if let Some(o) = other {
        triggers.push(o);
    }
    assert(triggers@ =~= match other {
        Some(o) => seq![trigger].push(o),
        None => seq![trigger],
    });
    out.push(Bind { triggers, label, desc, footer: shown.0, help: shown.1, act });
    assert(bindings(out@) =~= bindings(old(out)@).push(out@.last()@));
}

impl App {
    pub open spec fn searching(self) -> bool {
        self.here().db_search_active || self.here().fuzzy_search_active
    }

    /// The Transactions tab has a query to save.
    pub open spec fn savable(self) -> bool {
        self.current_tab == Tab::Transactions && self.here().db_search_active
            && self.here().search_bar.text().len() > 0
    }

    /// The views whose rows are plain transactions with the expandable detail
    /// panel (Transactions tab and the Todo → Uncategorised subtab).
    pub open spec fn plain_view(self) -> bool {
        self.current_tab == Tab::Transactions || (self.current_tab == Tab::Todo && self.todo_subtab
            == TodoSubTab::Uncategorised)
    }

    /// The selected transaction has a note.
    pub open spec fn has_note(self) -> bool {
        self.selected_tx() matches Some(tx) && lookup(self.note_by_tx_id@, tx.id) is Some
    }

    pub open spec fn search_binds(self) -> Seq<Binding> {
        if self.searching() {
            seq![row(Trigger::Code(KeyCode::Esc), "Esc"@, "clear search"@, Act::ClearSearch)]
        } else {
            Seq::empty()
        }
    }

    pub open spec fn transaction_binds(self) -> Seq<Binding> {
        if self.selected_tx() is Some {
            seq![
                row(Trigger::Char('c'), "c"@, "categorise"@, Act::Categorise),
                row(Trigger::Char('t'), "t"@, "mark transfer"@, Act::MarkTransfer),
                row(
                    Trigger::Char('n'),
                    "n"@,
                    if self.has_note() {
                        "edit note"@
                    } else {
                        "note"@
                    },
                    Act::EditNote,
                ),
                row(Trigger::Char('#'), "#"@, "tags"@, Act::EditTags),
            ]
        } else {
            Seq::empty()
        }
    }

    pub open spec fn categorise_matching_binds(self) -> Seq<Binding> {
        if self.can_categorise_matching() {
            seq![
                row(
                    Trigger::Char('C'),
                    "C"@,
                    "categorise matching"@,
                    Act::CategoriseMatching,
                ),
            ]
        } else {
            Seq::empty()
        }
    }

    pub open spec fn accept_matching_binds(self) -> Seq<Binding> {
        if self.can_accept_matching() {
            seq![row(Trigger::Char('A'), "A"@, "accept matching"@, Act::AcceptMatching)]
        } else {
            Seq::empty()
        }
    }

    pub open spec fn category_binds(self) -> Seq<Binding> {
        if self.chosen_category() is Some {
            seq![row(Trigger::Char('e'), "e"@, "rename"@, Act::RenameCategory)]
        } else {
            Seq::empty()
        }
    }

    pub open spec fn filters_binds(self) -> Seq<Binding> {
        if self.current_tab == Tab::Filters {
            seq![
                row(Trigger::Char('n'), "n"@, "new"@, Act::CreateFilter),
                row(Trigger::Char('a'), "a"@, "apply"@, Act::ApplyFilters),
            ]
        } else {
            Seq::empty()
        }
    }

    pub open spec fn filter_binds(self) -> Seq<Binding> {
        if self.current_tab == Tab::Filters && self.chosen_filter() is Some {
            seq![
                row(Trigger::Code(KeyCode::Enter), "Enter"@, "edit"@, Act::EditFilter),
                row(Trigger::Char('r'), "r"@, "rename"@, Act::RenameFilter),
                row(Trigger::Char('c'), "c"@, "category"@, Act::Categorise),
                row(Trigger::Char('o'), "o"@, "override"@, Act::CycleFilterOverride),
                row(Trigger::Char('v'), "v"@, "review"@, Act::ToggleFilterReview),
                or(
                    row(Trigger::Char('d'), "d"@, "delete"@, Act::DeleteFilter),
                    Trigger::Code(KeyCode::Delete),
                ),
            ]
        } else {
            Seq::empty()
        }
    }

    pub open spec fn save_binds(self) -> Seq<Binding> {
        if self.savable() {
            seq![row(Trigger::Ctrl('s'), "Ctrl-S"@, "save filter"@, Act::SaveSearchAsFilter)]
        } else {
            Seq::empty()
        }
    }

    pub open spec fn link_binds(self) -> Seq<Binding> {
        if self.current_tab == Tab::Transactions && self.selected_tx() is Some {
            seq![
                or(
                    row(Trigger::Code(KeyCode::Delete), "Del"@, "remove link"@, Act::DeleteTxLink),
                    Trigger::Char('u'),
                ),
            ]
        } else {
            Seq::empty()
        }
    }

    pub open spec fn detail_binds(self) -> Seq<Binding> {
        if self.plain_view() && self.selected_tx() is Some {
            seq![row(Trigger::Char('M'), "M"@, "details"@, Act::ToggleDetails)]
        } else {
            Seq::empty()
        }
    }

    pub open spec fn transfer_binds(self) -> Seq<Binding> {
        if self.chosen_transfer() is Some {
            seq![
                if self.current_tab == Tab::Transfers {
                    or(
                        row(Trigger::Char('d'), "d"@, "delete transfer"@, Act::DeleteTransfer),
                        Trigger::Code(KeyCode::Delete),
                    )
                } else {
                    row(
                        Trigger::Code(KeyCode::Delete),
                        "Del"@,
                        "remove transfer"@,
                        Act::DeleteTransfer,
                    )
                },
            ]
        } else {
            Seq::empty()
        }
    }

    pub open spec fn review_binds(self) -> Seq<Binding> {
        if self.reviewed_tx() is Some {
            seq![
                row(
                    Trigger::Code(KeyCode::Delete),
                    "Del"@,
                    "remove category"@,
                    Act::RemoveCategory,
                ),
            ]
        } else {
            Seq::empty()
        }
    }

    pub open spec fn confirm_binds(self) -> Seq<Binding> {
        if self.reviewed_tx() is Some {
            seq![row(Trigger::Code(KeyCode::Enter), "Enter"@, "confirm category"@, Act::Confirm)]
        } else if self.reviewed_transfer() is Some {
            seq![row(Trigger::Code(KeyCode::Enter), "Enter"@, "confirm transfer"@, Act::Confirm)]
        } else {
            Seq::empty()
        }
    }

    pub open spec fn subtab_binds(self) -> Seq<Binding> {
        if self.current_tab == Tab::Todo {
            seq![
                row(Trigger::Char(']'), "[ ]"@, "subtab"@, Act::NextSubtab),
                Binding {
                    help: false,
                    ..help_row(Trigger::Char('['), "["@, "prev subtab"@, Act::PrevSubtab)
                },
            ]
        } else {
            Seq::empty()
        }
    }

    pub open spec fn common_binds() -> Seq<Binding> {
        seq![
            help_row(Trigger::Char('/'), "/"@, "search"@, Act::DbSearch),
            help_row(Trigger::Char('~'), "~"@, "fuzzy search"@, Act::FuzzySearch),
            help_row(Trigger::Code(KeyCode::Tab), "Tab"@, "next tab"@, Act::NextTab),
            help_row(Trigger::Code(KeyCode::BackTab), "S-Tab"@, "prev tab"@, Act::PrevTab),
            or(
                help_row(Trigger::Char('j'), "j/↓"@, "down"@, Act::NextItem),
                Trigger::Code(KeyCode::Down),
            ),
            or(
                help_row(Trigger::Char('k'), "k/↑"@, "up"@, Act::PrevItem),
                Trigger::Code(KeyCode::Up),
            ),
            help_row(Trigger::Ctrl('g'), "Ctrl-G"@, "reindex"@, Act::Reindex),
            help_row(Trigger::Char('q'), "q"@, "quit"@, Act::Quit),
        ]
    }

    /// The bindings of Normal mode: those that do something here, and the ones
    /// that always do.
    pub open spec fn keymap(self) -> Seq<Binding> {
        self.search_binds() + self.transaction_binds() + self.categorise_matching_binds()
            + self.category_binds() + self.filters_binds() + self.filter_binds()
            + self.save_binds() + self.link_binds() + self.detail_binds() + self.transfer_binds()
            + self.review_binds() + self.confirm_binds() + self.accept_matching_binds()
            + self.subtab_binds() + App::common_binds()
    }
}

fn add_search(app: &App, out: &mut Vec<Bind>)
    ensures
        bindings(final(out)@) == bindings(old(out)@) + app.search_binds(),
{
    if app.db_search_active() || app.fuzzy_search_active() {
        push(out, Trigger::Code(KeyCode::Esc), "Esc", "clear search", Act::ClearSearch);
    }
    assert(bindings(out@) =~= bindings(old(out)@) + app.search_binds());
}

fn add_transaction(app: &App, out: &mut Vec<Bind>)
    ensures
        bindings(final(out)@) == bindings(old(out)@) + app.transaction_binds(),
{
    if let Some(tx) = app.selected_transaction() {
        push(out, Trigger::Char('c'), "c", "categorise", Act::Categorise);
        push(out, Trigger::Char('t'), "t", "mark transfer", Act::MarkTransfer);
        let note = if app.get_cached_note(tx.id).is_some() {
            "edit note"
        } else {
            "note"
        };
        push(out, Trigger::Char('n'), "n", note, Act::EditNote);
        push(out, Trigger::Char('#'), "#", "tags", Act::EditTags);
    }
    assert(bindings(out@) =~= bindings(old(out)@) + app.transaction_binds());
}

fn add_categorise_matching(app: &App, out: &mut Vec<Bind>)
    ensures
        bindings(final(out)@) == bindings(old(out)@) + app.categorise_matching_binds(),
{
    if app.categorises_matching() {
        push(out, Trigger::Char('C'), "C", "categorise matching", Act::CategoriseMatching);
    }
    assert(bindings(out@) =~= bindings(old(out)@) + app.categorise_matching_binds());
}

fn add_accept_matching(app: &App, out: &mut Vec<Bind>)
    ensures
        bindings(final(out)@) == bindings(old(out)@) + app.accept_matching_binds(),
{
    if app.accepts_matching() {
        push(out, Trigger::Char('A'), "A", "accept matching", Act::AcceptMatching);
    }
    assert(bindings(out@) =~= bindings(old(out)@) + app.accept_matching_binds());
}

fn add_category(app: &App, out: &mut Vec<Bind>)
    ensures
        bindings(final(out)@) == bindings(old(out)@) + app.category_binds(),
{
    if app.selected_category().is_some() {
        push(out, Trigger::Char('e'), "e", "rename", Act::RenameCategory);
    }
    assert(bindings(out@) =~= bindings(old(out)@) + app.category_binds());
}

fn add_filters(app: &App, out: &mut Vec<Bind>)
    ensures
        bindings(final(out)@) == bindings(old(out)@) + app.filters_binds(),
{
    if app.current_tab == Tab::Filters {
        push(out, Trigger::Char('n'), "n", "new", Act::CreateFilter);
        push(out, Trigger::Char('a'), "a", "apply", Act::ApplyFilters);
    }
    assert(bindings(out@) =~= bindings(old(out)@) + app.filters_binds());
}

fn add_filter(app: &App, out: &mut Vec<Bind>)
    ensures
        bindings(final(out)@) == bindings(old(out)@) + app.filter_binds(),
{
    if app.current_tab == Tab::Filters && app.selected_filter().is_some() {
        push(out, Trigger::Code(KeyCode::Enter), "Enter", "edit", Act::EditFilter);
        push(out, Trigger::Char('r'), "r", "rename", Act::RenameFilter);
        push(out, Trigger::Char('c'), "c", "category", Act::Categorise);
        push(out, Trigger::Char('o'), "o", "override", Act::CycleFilterOverride);
        push(out, Trigger::Char('v'), "v", "review", Act::ToggleFilterReview);
        push_bind(
            out,
            Trigger::Char('d'),
            Some(Trigger::Code(KeyCode::Delete)),
            "d",
            "delete",
            (true, true),
            Act::DeleteFilter,
        );
    }
    assert(bindings(out@) =~= bindings(old(out)@) + app.filter_binds());
}

fn can_save_search_as_filter(app: &App) -> (yes: bool)
    ensures
        yes == app.savable(),
{
    app.current_tab == Tab::Transactions && app.db_search_active()
        && !app.db_search_value().is_empty()
}

fn add_save(app: &App, out: &mut Vec<Bind>)
    ensures
        bindings(final(out)@) == bindings(old(out)@) + app.save_binds(),
{
    if can_save_search_as_filter(app) {
        push(out, Trigger::Ctrl('s'), "Ctrl-S", "save filter", Act::SaveSearchAsFilter);
    }
    assert(bindings(out@) =~= bindings(old(out)@) + app.save_binds());
}

fn add_link(app: &App, out: &mut Vec<Bind>)
    ensures
        bindings(final(out)@) == bindings(old(out)@) + app.link_binds(),
{
    if app.current_tab == Tab::Transactions && app.selected_transaction().is_some() {
        push_bind(
            out,
            Trigger::Code(KeyCode::Delete),
            Some(Trigger::Char('u')),
            "Del",
            "remove link",
            (true, true),
            Act::DeleteTxLink,
        );
    }
    assert(bindings(out@) =~= bindings(old(out)@) + app.link_binds());
}

fn is_transaction_view(app: &App) -> (yes: bool)
    ensures
        yes == app.plain_view(),
{
    app.current_tab == Tab::Transactions || (app.current_tab == Tab::Todo && app.todo_subtab
        == TodoSubTab::Uncategorised)
}

fn add_detail(app: &App, out: &mut Vec<Bind>)
    ensures
        bindings(final(out)@) == bindings(old(out)@) + app.detail_binds(),
{
    if is_transaction_view(app) && app.selected_transaction().is_some() {
        push(out, Trigger::Char('M'), "M", "details", Act::ToggleDetails);
    }
    assert(bindings(out@) =~= bindings(old(out)@) + app.detail_binds());
}

fn add_transfer(app: &App, out: &mut Vec<Bind>)
    ensures
        bindings(final(out)@) == bindings(old(out)@) + app.transfer_binds(),
{
    if app.selected_transfer_id().is_some() {
        if app.current_tab == Tab::Transfers {
            push_bind(
                out,
                Trigger::Char('d'),
                Some(Trigger::Code(KeyCode::Delete)),
                "d",
                "delete transfer",
                (true, true),
                Act::DeleteTransfer,
            );
        } else {
            push(
                out,
                Trigger::Code(KeyCode::Delete),
                "Del",
                "remove transfer",
                Act::DeleteTransfer,
            );
        }
    }
    assert(bindings(out@) =~= bindings(old(out)@) + app.transfer_binds());
}

fn add_review(app: &App, out: &mut Vec<Bind>)
    ensures
        bindings(final(out)@) == bindings(old(out)@) + app.review_binds(),
{
    if app.review_id().is_some() {
        push(
            out,
            Trigger::Code(KeyCode::Delete),
            "Del",
            "remove category",
            Act::RemoveCategory,
        );
    }
    assert(bindings(out@) =~= bindings(old(out)@) + app.review_binds());
}

fn confirm_desc(app: &App) -> (desc: Option<&'static str>)
    ensures
        match desc {
            Some(d) => d@ == if app.reviewed_tx() is Some {
                "confirm category"@
            } else {
                "confirm transfer"@
            } && (app.reviewed_tx() is Some || app.reviewed_transfer() is Some),
            None => app.reviewed_tx() is None && app.reviewed_transfer() is None,
        },
{
    if app.review_id().is_some() {
        Some("confirm category")
    } else if app.transfer_under_review().is_some() {
        Some("confirm transfer")
    } else {
        None
    }
}

fn add_confirm(app: &App, out: &mut Vec<Bind>)
    ensures
        bindings(final(out)@) == bindings(old(out)@) + app.confirm_binds(),
{
    if let Some(desc) = confirm_desc(app) {
        push(out, Trigger::Code(KeyCode::Enter), "Enter", desc, Act::Confirm);
    }
    assert(bindings(out@) =~= bindings(old(out)@) + app.confirm_binds());
}

fn add_subtab(app: &App, out: &mut Vec<Bind>)
    ensures
        bindings(final(out)@) == bindings(old(out)@) + app.subtab_binds(),
{
    if app.current_tab == Tab::Todo {
        push(out, Trigger::Char(']'), "[ ]", "subtab", Act::NextSubtab);
        push_bind(
            out,
            Trigger::Char('['),
            None,
            "[",
            "prev subtab",
            (false, false),
            Act::PrevSubtab,
        );
    }
    assert(bindings(out@) =~= bindings(old(out)@) + app.subtab_binds());
}

fn add_common(out: &mut Vec<Bind>)
    ensures
        bindings(final(out)@) == bindings(old(out)@) + App::common_binds(),
{
    push_help(out, Trigger::Char('/'), None, "/", "search", Act::DbSearch);
    push_help(out, Trigger::Char('~'), None, "~", "fuzzy search", Act::FuzzySearch);
    push_help(out, Trigger::Code(KeyCode::Tab), None, "Tab", "next tab", Act::NextTab);
    push_help(out, Trigger::Code(KeyCode::BackTab), None, "S-Tab", "prev tab", Act::PrevTab);
    push_help(
        out,
        Trigger::Char('j'),
        Some(Trigger::Code(KeyCode::Down)),
        "j/↓",
        "down",
        Act::NextItem,
    );
    push_help(
        out,
        Trigger::Char('k'),
        Some(Trigger::Code(KeyCode::Up)),
        "k/↑",
        "up",
        Act::PrevItem,
    );
    push_help(out, Trigger::Ctrl('g'), None, "Ctrl-G", "reindex", Act::Reindex);
    push_help(out, Trigger::Char('q'), None, "q", "quit", Act::Quit);
    assert(bindings(out@) =~= bindings(old(out)@) + App::common_binds());
}

/// The bindings of Normal mode in the application's state.
pub fn normal_binds(app: &App) -> (binds: Vec<Bind>)
    ensures
        bindings(binds@) == app.keymap(),
{
    let mut out: Vec<Bind> = Vec::new();
    assert(bindings(out@) =~= Seq::empty());
    add_search(app, &mut out);
    assert(bindings(out@) =~= app.search_binds());
    add_transaction(app, &mut out);
    add_categorise_matching(app, &mut out);
    add_category(app, &mut out);
    add_filters(app, &mut out);
    add_filter(app, &mut out);
    add_save(app, &mut out);
    add_link(app, &mut out);
    add_detail(app, &mut out);
    add_transfer(app, &mut out);
    add_review(app, &mut out);
    add_confirm(app, &mut out);
    add_accept_matching(app, &mut out);
    add_subtab(app, &mut out);
    add_common(&mut out);
    out
}

/// The binding reacts to the key.
pub open spec fn reacts(b: Binding, key: KeyEvent) -> bool {
    exists|k: int| 0 <= k < b.triggers.len() && (#[trigger] b.triggers[k]).fires(key)
}

impl App {
    /// What a key does in Normal mode.
    pub open spec fn bound(self, key: KeyEvent) -> Option<Act> {
        if key.code == KeyCode::Tab && key.modifiers.shift {
            Some(Act::PrevTab)
        } else {
            match first_index(self.keymap(), |b: Binding| reacts(b, key)) {
                Some(i) => Some(self.keymap()[i].act),
                None => None,
            }
        }
    }
}

fn bind_reacts(bind: &Bind, key: &KeyEvent) -> (yes: bool)
    ensures
        yes == reacts(bind@, *key),
{
    let mut i: usize = 0;
    while i < bind.triggers.len()
        invariant
            i <= bind.triggers@.len(),
            forall|j: int| 0 <= j < i ==> !(#[trigger] bind.triggers@[j]).fires(*key),
        decreases bind.triggers@.len() - i,
    {
        if bind.triggers[i].matches(key) {
            assert(bind@.triggers[i as int].fires(*key));
            return true;
        }
        i += 1;
    }
    false
}

/// What a key does in Normal mode.
pub fn normal_act(app: &App, key: &KeyEvent) -> (act: Option<Act>)
    ensures
        act == app.bound(*key),
{
    if key.code == KeyCode::Tab && key.modifiers.shift {
        return Some(Act::PrevTab);
    }
    let binds = normal_binds(app);
    let ghost table = app.keymap();
    let ghost hit = |b: Binding| reacts(b, *key);
    let mut i: usize = 0;
    while i < binds.len()
        invariant
            i <= binds@.len(),
            bindings(binds@) == table,
            table == app.keymap(),
            hit == (|b: Binding| reacts(b, *key)),
            !(key.code == KeyCode::Tab && key.modifiers.shift),
            forall|j: int| 0 <= j < i ==> !hit(#[trigger] table[j]),
        decreases binds@.len() - i,
    {
        assert(table[i as int] == binds@[i as int]@);
        if bind_reacts(&binds[i], key) {
            proof {
                crate::find::lemma_first_index_some(table, hit, i as int);
            }
            return Some(binds[i].act);
        }
        i += 1;
    }
    proof {
        crate::find::lemma_first_index_none(table, hit);
    }
    None
}

// ==================== Footer ====================

/// A key and what it does.
pub type Hint = (&'static str, &'static str);

pub open spec fn hint_views(hints: Seq<Hint>) -> Seq<(Seq<char>, Seq<char>)> {
    hints.map_values(|h: Hint| (h.0@, h.1@))
}

/// The key and the description of the rows, as far as they are shown.
pub open spec fn footer_of(binds: Seq<Binding>) -> Seq<(Seq<char>, Seq<char>)>
    decreases binds.len(),
{
    if binds.len() == 0 {
        Seq::empty()
    } else {
        let before = footer_of(binds.drop_last());
        if binds.last().footer {
            before.push((binds.last().label, binds.last().desc))
        } else {
            before
        }
    }
}

impl App {
    /// The offer to save the search, where there is one.
    pub open spec fn save_hint(self) -> Seq<(Seq<char>, Seq<char>)> {
        if self.savable() {
            seq![("Ctrl-S"@, "save filter"@)]
        } else {
            Seq::empty()
        }
    }

    /// The hints in the footer.
    pub open spec fn hints(self) -> Seq<(Seq<char>, Seq<char>)> {
        match self.input_mode {
            InputMode::Normal => footer_of(self.keymap()).push(("?"@, "keys"@)),
            InputMode::DbSearch => if self.here().search_bar.popup() is Some {
                seq![("↑/↓"@, "select"@), ("Tab/Enter"@, "accept"@), ("Esc"@, "close"@)]
                    + self.save_hint()
            } else {
                seq![("Enter"@, "apply"@), ("Esc"@, "clear & exit"@)] + self.save_hint()
            },
            InputMode::FuzzySearch => seq![
                ("Enter"@, "keep filter"@),
                ("Esc"@, "clear & exit"@),
            ],
            InputMode::FilterEdit => seq![
                ("Enter"@, "save"@),
                ("Ctrl-E"@, "rename"@),
                ("Ctrl-C"@, "category"@),
                ("Ctrl-O"@, "override?"@),
                ("Ctrl-V"@, "review?"@),
                ("Ctrl-A"@, "apply"@),
                ("Esc"@, "back"@),
            ],
            InputMode::Category => seq![
                ("↑/↓"@, "select"@),
                ("Enter"@, "assign"@),
                ("Esc"@, "cancel"@),
            ],
            InputMode::Note => seq![
                ("Ctrl-S"@, "save"@),
                ("Esc"@, "cancel"@),
            ],
            InputMode::Tags => seq![
                ("Tab"@, "accept"@),
                ("Enter"@, "save"@),
                ("Esc"@, "cancel"@),
            ],
            InputMode::TextPrompt => seq![
                ("Enter"@, "save"@),
                ("Esc"@, "cancel"@),
            ],
            InputMode::BulkApply => seq![
                ("↑/↓"@, "select"@),
                ("Space"@, "toggle"@),
                ("a"@, "all"@),
                ("Enter"@, "apply"@),
                ("Esc"@, "cancel"@),
            ],
            InputMode::Confirm => seq![
                ("y"@, "confirm"@),
                ("n"@, "cancel"@),
            ],
            InputMode::ConfirmApplyFilters => seq![
                ("↑/↓"@, "scroll"@),
                ("y/Enter"@, "apply"@),
                ("Esc"@, "cancel"@),
            ],
            InputMode::TransferPending => seq![
                ("↑/↓"@, "select"@),
                ("T/Enter"@, "link"@),
                ("t"@, "re-search"@),
                ("Esc"@, "cancel"@),
                ("?"@, "keys"@),
            ],
            InputMode::TransferNoMatch => seq![
                ("Esc"@, "dismiss"@),
            ],
        }
    }
}

fn footer_hints_of(binds: &Vec<Bind>) -> (hints: Vec<Hint>)
    ensures
        hint_views(hints@) == footer_of(bindings(binds@)),
{
    let ghost table = bindings(binds@);
    let mut out: Vec<Hint> = Vec::new();
    let mut i: usize = 0;
    assert(table.take(0) =~= Seq::empty());
    assert(hint_views(out@) =~= Seq::empty());
    while i < binds.len()
        invariant
            i <= binds@.len(),
            table == bindings(binds@),
            hint_views(out@) == footer_of(table.take(i as int)),
        decreases binds@.len() - i,
    {
        assert(table.take(i + 1).drop_last() =~= table.take(i as int));
        assert(table[i as int] == binds@[i as int]@);
        let ghost before = out@;
        if binds[i].footer {
            out.push((binds[i].label, binds[i].desc));
            assert(hint_views(out@) =~= hint_views(before).push(
                (binds@[i as int].label@, binds@[i as int].desc@),
            ));
        }
        i += 1;
    }
    assert(table.take(i as int) =~= table);
    out
}

fn with_save_hint(app: &App, hints: Vec<Hint>) -> (all: Vec<Hint>)
    ensures
        hint_views(all@) == hint_views(hints@) + app.save_hint(),
{
    let mut all = hints;
    if can_save_search_as_filter(app) {
        all.push(("Ctrl-S", "save filter"));
    }
    assert(hint_views(all@) =~= hint_views(hints@) + app.save_hint());
    all
}

pub fn footer_hints(app: &App) -> (hints: Vec<Hint>)
    ensures
        hint_views(hints@) == app.hints(),
{
    let hints: Vec<Hint> = match app.input_mode {
        InputMode::Normal => {
            let binds = normal_binds(app);
            let mut out = footer_hints_of(&binds);
            let ghost before = out@;
            out.push(("?", "keys"));
            assert(hint_views(out@) =~= hint_views(before).push(("?"@, "keys"@)));
            out
        },
        InputMode::DbSearch => if app.filter_autocomplete_active() {
            let base: Vec<Hint> = vec![
                ("↑/↓", "select"),
                ("Tab/Enter", "accept"),
                ("Esc", "close"),
            ];
            assert(hint_views(base@) =~= seq![
                ("↑/↓"@, "select"@),
                ("Tab/Enter"@, "accept"@),
                ("Esc"@, "close"@),
            ]);
            with_save_hint(app, base)
        } else {
            let base: Vec<Hint> = vec![("Enter", "apply"), ("Esc", "clear & exit")];
            assert(hint_views(base@) =~= seq![("Enter"@, "apply"@), ("Esc"@, "clear & exit"@)]);
            with_save_hint(app, base)
        },
        mode => mode_hints(mode),
    };
    hints
}

/// The hints of the modes whose hints are fixed.
fn mode_hints(mode: InputMode) -> (hints: Vec<Hint>)
    requires
        mode != InputMode::Normal,
        mode != InputMode::DbSearch,
    ensures
        forall|app: App| app.input_mode == mode ==> hint_views(hints@) == #[trigger] app.hints(),
{
    let hints: Vec<Hint> = match mode {
        InputMode::FuzzySearch => vec![
            ("Enter", "keep filter"),
            ("Esc", "clear & exit"),
        ],
        InputMode::FilterEdit => vec![
            ("Enter", "save"),
            ("Ctrl-E", "rename"),
            ("Ctrl-C", "category"),
            ("Ctrl-O", "override?"),
            ("Ctrl-V", "review?"),
            ("Ctrl-A", "apply"),
            ("Esc", "back"),
        ],
        InputMode::Category => vec![
            ("↑/↓", "select"),
            ("Enter", "assign"),
            ("Esc", "cancel"),
        ],
        InputMode::Note => vec![
            ("Ctrl-S", "save"),
            ("Esc", "cancel"),
        ],
        InputMode::Tags => vec![
            ("Tab", "accept"),
            ("Enter", "save"),
            ("Esc", "cancel"),
        ],
        InputMode::TextPrompt => vec![
            ("Enter", "save"),
            ("Esc", "cancel"),
        ],
        InputMode::BulkApply => vec![
            ("↑/↓", "select"),
            ("Space", "toggle"),
            ("a", "all"),
            ("Enter", "apply"),
            ("Esc", "cancel"),
        ],
        InputMode::Confirm => vec![
            ("y", "confirm"),
            ("n", "cancel"),
        ],
        InputMode::ConfirmApplyFilters => vec![
            ("↑/↓", "scroll"),
            ("y/Enter", "apply"),
            ("Esc", "cancel"),
        ],
        InputMode::TransferPending => vec![
            ("↑/↓", "select"),
            ("T/Enter", "link"),
            ("t", "re-search"),
            ("Esc", "cancel"),
            ("?", "keys"),
        ],
        InputMode::TransferNoMatch => vec![
            ("Esc", "dismiss"),
        ],
        _ => Vec::new(),
    };
    assert forall|app: App| app.input_mode == mode implies hint_views(hints@)
        == #[trigger] app.hints() by {
        assert(hint_views(hints@) =~= app.hints());
    }
    hints
}

// ==================== Popover ====================

#[derive(Debug, Clone, Copy, PartialEq, Eq)]
pub enum HelpLine {
    Group(&'static str),
    Bind(&'static str, &'static str),
    Blank,
}

/// A line of the popover as a value.
pub enum HelpText {
    Group(Seq<char>),
    Bind(Seq<char>, Seq<char>),
    Blank,
}

impl View for HelpLine {
    type V = HelpText;

    open spec fn view(&self) -> HelpText {
        match self {
            HelpLine::Group(title) => HelpText::Group(title@),
            HelpLine::Bind(key, desc) => HelpText::Bind(key@, desc@),
            HelpLine::Blank => HelpText::Blank,
        }
    }
}

pub open spec fn help_views(lines: Seq<HelpLine>) -> Seq<HelpText> {
    lines.map_values(|l: HelpLine| l@)
}

/// The lines with a group's title behind them.
pub open spec fn grouped(lines: Seq<HelpText>, title: Seq<char>) -> Seq<HelpText> {
    (if lines.len() > 0 {
        lines.push(HelpText::Blank)
    } else {
        lines
    }).push(HelpText::Group(title))
}

/// The rows of the table shown in the popover.
pub open spec fn help_of(binds: Seq<Binding>) -> Seq<HelpText>
    decreases binds.len(),
{
    if binds.len() == 0 {
        Seq::empty()
    } else {
        let before = help_of(binds.drop_last());
        if binds.last().help {
            before.push(HelpText::Bind(binds.last().label, binds.last().desc))
        } else {
            before
        }
    }
}

impl App {
    pub open spec fn db_search_help(self) -> Seq<HelpText> {
        let popup = if self.here().search_bar.popup() is Some {
            seq![
                HelpText::Group("Autocomplete"@),
                HelpText::Bind("↑/↓"@, "select suggestion"@),
                HelpText::Bind("Tab/Enter"@, "accept suggestion"@),
                HelpText::Bind("Esc"@, "close suggestions"@),
            ]
        } else {
            Seq::empty()
        };
        let typing = grouped(popup, "Search"@) + seq![
            HelpText::Bind("Type"@, "edit query"@),
            HelpText::Bind("Backspace/Delete"@, "delete text"@),
            HelpText::Bind("Arrows/Home/End"@, "move cursor"@),
            HelpText::Bind("Enter"@, "apply"@),
        ];
        (if self.savable() {
            typing.push(HelpText::Bind("Ctrl-S"@, "save current search as filter"@))
        } else {
            typing
        }) + seq![
            HelpText::Bind("Esc"@, "clear & exit"@),
            HelpText::Bind("Tab/S-Tab"@, "switch tab"@),
        ]
    }

    pub open spec fn text_prompt_help(self) -> Seq<HelpText> {
        seq![
            HelpText::Group(
                match self.text_prompt {
                    Some(p) => p.title@,
                    None => ""@,
                },
            ),
            HelpText::Bind("Type"@, "edit text"@),
            HelpText::Bind("Arrows/Home/End"@, "move cursor"@),
            HelpText::Bind("Backspace/Delete"@, "delete text"@),
            HelpText::Bind("Enter"@, "save"@),
            HelpText::Bind("Esc"@, "cancel"@),
        ]
    }

    /// The keybind popover.
    pub open spec fn help(self) -> Seq<HelpText> {
        match self.input_mode {
            InputMode::Normal => seq![HelpText::Group("Keys"@)] + help_of(self.keymap()),
            InputMode::DbSearch => self.db_search_help(),
            InputMode::TextPrompt => self.text_prompt_help(),
            mode => mode_help(mode),
        }
    }
}

/// The popover of the modes in which it is fixed.
pub open spec fn mode_help(mode: InputMode) -> Seq<HelpText> {
    match mode {
        InputMode::FuzzySearch => seq![
            HelpText::Group("Fuzzy Search"@),
            HelpText::Bind("Type"@, "edit filter"@),
            HelpText::Bind("Backspace/Delete"@, "delete text"@),
            HelpText::Bind("Arrows/Home/End"@, "move cursor"@),
            HelpText::Bind("↑/↓"@, "move selection"@),
            HelpText::Bind("Enter"@, "keep filter"@),
            HelpText::Bind("Esc"@, "clear & exit"@),
            HelpText::Bind("Tab/S-Tab"@, "switch tab"@),
        ],
        InputMode::FilterEdit => seq![
            HelpText::Group("Filter Edit"@),
            HelpText::Bind("Type"@, "edit DB query"@),
            HelpText::Bind("Enter"@, "save query & return"@),
            HelpText::Bind("Ctrl-E"@, "rename filter"@),
            HelpText::Bind("Ctrl-C"@, "set category"@),
            HelpText::Bind("Ctrl-O"@, "cycle override"@),
            HelpText::Bind("Ctrl-V"@, "toggle review"@),
            HelpText::Bind("Ctrl-A"@, "apply filters"@),
            HelpText::Bind("Tab/Enter"@, "accept autocomplete"@),
            HelpText::Bind("Esc"@, "back"@),
        ],
        InputMode::Category => seq![
            HelpText::Group("Category"@),
            HelpText::Bind("Type"@, "filter or create category"@),
            HelpText::Bind("Backspace"@, "delete text"@),
            HelpText::Bind("↑/↓"@, "select suggestion"@),
            HelpText::Bind("Enter"@, "assign"@),
            HelpText::Bind("Esc"@, "cancel"@),
        ],
        InputMode::Note => seq![
            HelpText::Group("Note"@),
            HelpText::Bind("Type"@, "edit text"@),
            HelpText::Bind("Enter"@, "new line"@),
            HelpText::Bind("Arrows/Home/End"@, "move cursor"@),
            HelpText::Bind("Backspace/Delete"@, "delete text"@),
            HelpText::Bind("Ctrl-S"@, "save"@),
            HelpText::Bind("Esc"@, "cancel"@),
        ],
        InputMode::Tags => seq![
            HelpText::Group("Tags"@),
            HelpText::Bind("Type"@, "edit tags"@),
            HelpText::Bind("↑/↓"@, "select suggestion"@),
            HelpText::Bind("Tab"@, "accept suggestion"@),
            HelpText::Bind("Ctrl-W"@, "delete word"@),
            HelpText::Bind("Enter"@, "save"@),
            HelpText::Bind("Esc"@, "cancel"@),
        ],
        InputMode::BulkApply => seq![
            HelpText::Group("Bulk Apply"@),
            HelpText::Bind("↑/↓ or j/k"@, "select row"@),
            HelpText::Bind("Space"@, "toggle row"@),
            HelpText::Bind("a"@, "toggle all"@),
            HelpText::Bind("Enter"@, "apply selected"@),
            HelpText::Bind("Esc"@, "cancel"@),
        ],
        InputMode::Confirm => seq![
            HelpText::Group("Confirm"@),
            HelpText::Bind("y/Enter"@, "confirm"@),
            HelpText::Bind("n/Esc"@, "cancel"@),
        ],
        InputMode::ConfirmApplyFilters => seq![
            HelpText::Group("Apply Filters"@),
            HelpText::Bind("↑/↓ or j/k"@, "scroll list"@),
            HelpText::Bind("y/Enter"@, "apply"@),
            HelpText::Bind("n/Esc"@, "cancel"@),
        ],
        InputMode::TransferPending => seq![
            HelpText::Group("Transfer"@),
            HelpText::Bind("↑/↓ or j/k"@, "select candidate"@),
            HelpText::Bind("T/Enter"@, "link"@),
            HelpText::Bind("t"@, "re-search"@),
            HelpText::Bind("Esc"@, "cancel"@),
        ],
        InputMode::TransferNoMatch => seq![
            HelpText::Group("Transfer"@),
            HelpText::Bind("Esc"@, "dismiss"@),
        ],
        _ => Seq::empty(),
    }
}

fn group(lines: &mut Vec<HelpLine>, title: &'static str)
    ensures
        help_views(final(lines)@) == grouped(help_views(old(lines)@), title@),
{
    let ghost before = lines@;
    if lines.len() > 0 {
        lines.push(HelpLine::Blank);
    }
    lines.push(HelpLine::Group(title));
    assert(help_views(lines@) =~= grouped(help_views(before), title@));
}

fn bind_line(lines: &mut Vec<HelpLine>, key: &'static str, desc: &'static str)
    ensures
        help_views(final(lines)@) == help_views(old(lines)@).push(HelpText::Bind(key@, desc@)),
{
    let ghost before = lines@;
    lines.push(HelpLine::Bind(key, desc));
    assert(help_views(lines@) =~= help_views(before).push(HelpText::Bind(key@, desc@)));
}

fn normal_lines(app: &App) -> (lines: Vec<HelpLine>)
    ensures
        help_views(lines@) == seq![HelpText::Group("Keys"@)] + help_of(app.keymap()),
{
    let binds = normal_binds(app);
    let ghost table = app.keymap();
    let mut lines: Vec<HelpLine> = Vec::new();
    group(&mut lines, "Keys");
    let ghost start = seq![HelpText::Group("Keys"@)];
    let mut i: usize = 0;
    assert(table.take(0) =~= Seq::empty());
    assert(help_views(lines@) =~= start + help_of(table.take(0)));
    while i < binds.len()
        invariant
            i <= binds@.len(),
            table == bindings(binds@),
            help_views(lines@) == start + help_of(table.take(i as int)),
        decreases binds@.len() - i,
    {
        assert(table.take(i + 1).drop_last() =~= table.take(i as int));
        assert(table[i as int] == binds@[i as int]@);
        if binds[i].help {
            bind_line(&mut lines, binds[i].label, binds[i].desc);
        }
        assert(help_views(lines@) =~= start + help_of(table.take(i + 1)));
        i += 1;
    }
    assert(table.take(i as int) =~= table);
    lines
}

fn db_search_lines(app: &App) -> (lines: Vec<HelpLine>)
    ensures
        help_views(lines@) == app.db_search_help(),
{
    let mut lines: Vec<HelpLine> = Vec::new();
    assert(help_views(lines@) =~= Seq::empty());
    if app.filter_autocomplete_active() {
        group(&mut lines, "Autocomplete");
        bind_line(&mut lines, "↑/↓", "select suggestion");
        bind_line(&mut lines, "Tab/Enter", "accept suggestion");
        bind_line(&mut lines, "Esc", "close suggestions");
        assert(help_views(lines@) =~= seq![
            HelpText::Group("Autocomplete"@),
            HelpText::Bind("↑/↓"@, "select suggestion"@),
            HelpText::Bind("Tab/Enter"@, "accept suggestion"@),
            HelpText::Bind("Esc"@, "close suggestions"@),
        ]);
    }
    group(&mut lines, "Search");
    bind_line(&mut lines, "Type", "edit query");
    bind_line(&mut lines, "Backspace/Delete", "delete text");
    bind_line(&mut lines, "Arrows/Home/End", "move cursor");
    bind_line(&mut lines, "Enter", "apply");
    if can_save_search_as_filter(app) {
        bind_line(&mut lines, "Ctrl-S", "save current search as filter");
    }
    bind_line(&mut lines, "Esc", "clear & exit");
    bind_line(&mut lines, "Tab/S-Tab", "switch tab");
    assert(help_views(lines@) =~= app.db_search_help());
    lines
}

fn text_prompt_lines(app: &App) -> (lines: Vec<HelpLine>)
    ensures
        help_views(lines@) == app.text_prompt_help(),
{
    let mut lines: Vec<HelpLine> = Vec::new();
    assert(help_views(lines@) =~= Seq::empty());
    group(&mut lines, app.text_prompt_title());
    bind_line(&mut lines, "Type", "edit text");
    bind_line(&mut lines, "Arrows/Home/End", "move cursor");
    bind_line(&mut lines, "Backspace/Delete", "delete text");
    bind_line(&mut lines, "Enter", "save");
    bind_line(&mut lines, "Esc", "cancel");
    assert(help_views(lines@) =~= app.text_prompt_help());
    lines
}

fn fuzzy_search_lines() -> (lines: Vec<HelpLine>)
    ensures
        help_views(lines@) == mode_help(InputMode::FuzzySearch),
{
    let mut lines: Vec<HelpLine> = Vec::new();
    assert(help_views(lines@) =~= Seq::empty());
    group(&mut lines, "Fuzzy Search");
    bind_line(&mut lines, "Type", "edit filter");
    bind_line(&mut lines, "Backspace/Delete", "delete text");
    bind_line(&mut lines, "Arrows/Home/End", "move cursor");
    bind_line(&mut lines, "↑/↓", "move selection");
    bind_line(&mut lines, "Enter", "keep filter");
    bind_line(&mut lines, "Esc", "clear & exit");
    bind_line(&mut lines, "Tab/S-Tab", "switch tab");
    assert(help_views(lines@) =~= mode_help(InputMode::FuzzySearch));
    lines
}

fn filter_edit_lines() -> (lines: Vec<HelpLine>)
    ensures
        help_views(lines@) == mode_help(InputMode::FilterEdit),
{
    let mut lines: Vec<HelpLine> = Vec::new();
    assert(help_views(lines@) =~= Seq::empty());
    group(&mut lines, "Filter Edit");
    bind_line(&mut lines, "Type", "edit DB query");
    bind_line(&mut lines, "Enter", "save query & return");
    bind_line(&mut lines, "Ctrl-E", "rename filter");
    bind_line(&mut lines, "Ctrl-C", "set category");
    bind_line(&mut lines, "Ctrl-O", "cycle override");
    bind_line(&mut lines, "Ctrl-V", "toggle review");
    bind_line(&mut lines, "Ctrl-A", "apply filters");
    bind_line(&mut lines, "Tab/Enter", "accept autocomplete");
    bind_line(&mut lines, "Esc", "back");
    assert(help_views(lines@) =~= mode_help(InputMode::FilterEdit));
    lines
}

fn category_lines() -> (lines: Vec<HelpLine>)
    ensures
        help_views(lines@) == mode_help(InputMode::Category),
{
    let mut lines: Vec<HelpLine> = Vec::new();
    assert(help_views(lines@) =~= Seq::empty());
    group(&mut lines, "Category");
    bind_line(&mut lines, "Type", "filter or create category");
    bind_line(&mut lines, "Backspace", "delete text");
    bind_line(&mut lines, "↑/↓", "select suggestion");
    bind_line(&mut lines, "Enter", "assign");
    bind_line(&mut lines, "Esc", "cancel");
    assert(help_views(lines@) =~= mode_help(InputMode::Category));
    lines
}

fn note_lines() -> (lines: Vec<HelpLine>)
    ensures
        help_views(lines@) == mode_help(InputMode::Note),
{
    let mut lines: Vec<HelpLine> = Vec::new();
    assert(help_views(lines@) =~= Seq::empty());
    group(&mut lines, "Note");
    bind_line(&mut lines, "Type", "edit text");
    bind_line(&mut lines, "Enter", "new line");
    bind_line(&mut lines, "Arrows/Home/End", "move cursor");
    bind_line(&mut lines, "Backspace/Delete", "delete text");
    bind_line(&mut lines, "Ctrl-S", "save");
    bind_line(&mut lines, "Esc", "cancel");
    assert(help_views(lines@) =~= mode_help(InputMode::Note));
    lines
}

fn tag_lines() -> (lines: Vec<HelpLine>)
    ensures
        help_views(lines@) == mode_help(InputMode::Tags),
{
    let mut lines: Vec<HelpLine> = Vec::new();
    assert(help_views(lines@) =~= Seq::empty());
    group(&mut lines, "Tags");
    bind_line(&mut lines, "Type", "edit tags");
    bind_line(&mut lines, "↑/↓", "select suggestion");
    bind_line(&mut lines, "Tab", "accept suggestion");
    bind_line(&mut lines, "Ctrl-W", "delete word");
    bind_line(&mut lines, "Enter", "save");
    bind_line(&mut lines, "Esc", "cancel");
    assert(help_views(lines@) =~= mode_help(InputMode::Tags));
    lines
}

fn bulk_apply_lines() -> (lines: Vec<HelpLine>)
    ensures
        help_views(lines@) == mode_help(InputMode::BulkApply),
{
    let mut lines: Vec<HelpLine> = Vec::new();
    assert(help_views(lines@) =~= Seq::empty());
    group(&mut lines, "Bulk Apply");
    bind_line(&mut lines, "↑/↓ or j/k", "select row");
    bind_line(&mut lines, "Space", "toggle row");
    bind_line(&mut lines, "a", "toggle all");
    bind_line(&mut lines, "Enter", "apply selected");
    bind_line(&mut lines, "Esc", "cancel");
    assert(help_views(lines@) =~= mode_help(InputMode::BulkApply));
    lines
}

fn confirm_lines() -> (lines: Vec<HelpLine>)
    ensures
        help_views(lines@) == mode_help(InputMode::Confirm),
{
    let mut lines: Vec<HelpLine> = Vec::new();
    assert(help_views(lines@) =~= Seq::empty());
    group(&mut lines, "Confirm");
    bind_line(&mut lines, "y/Enter", "confirm");
    bind_line(&mut lines, "n/Esc", "cancel");
    assert(help_views(lines@) =~= mode_help(InputMode::Confirm));
    lines
}

fn apply_filters_lines() -> (lines: Vec<HelpLine>)
    ensures
        help_views(lines@) == mode_help(InputMode::ConfirmApplyFilters),
{
    let mut lines: Vec<HelpLine> = Vec::new();
    assert(help_views(lines@) =~= Seq::empty());
    group(&mut lines, "Apply Filters");
    bind_line(&mut lines, "↑/↓ or j/k", "scroll list");
    bind_line(&mut lines, "y/Enter", "apply");
    bind_line(&mut lines, "n/Esc", "cancel");
    assert(help_views(lines@) =~= mode_help(InputMode::ConfirmApplyFilters));
    lines
}

fn transfer_pending_lines() -> (lines: Vec<HelpLine>)
    ensures
        help_views(lines@) == mode_help(InputMode::TransferPending),
{
    let mut lines: Vec<HelpLine> = Vec::new();
    assert(help_views(lines@) =~= Seq::empty());
    group(&mut lines, "Transfer");
    bind_line(&mut lines, "↑/↓ or j/k", "select candidate");
    bind_line(&mut lines, "T/Enter", "link");
    bind_line(&mut lines, "t", "re-search");
    bind_line(&mut lines, "Esc", "cancel");
    assert(help_views(lines@) =~= mode_help(InputMode::TransferPending));
    lines
}

fn transfer_no_match_lines() -> (lines: Vec<HelpLine>)
    ensures
        help_views(lines@) == mode_help(InputMode::TransferNoMatch),
{
    let mut lines: Vec<HelpLine> = Vec::new();
    assert(help_views(lines@) =~= Seq::empty());
    group(&mut lines, "Transfer");
    bind_line(&mut lines, "Esc", "dismiss");
    assert(help_views(lines@) =~= mode_help(InputMode::TransferNoMatch));
    lines
}

/// The lines of the keybind popover.
pub fn help_lines(app: &App) -> (lines: Vec<HelpLine>)
    ensures
        help_views(lines@) == app.help(),
{
    match app.input_mode {
        InputMode::Normal => normal_lines(app),
        InputMode::DbSearch => db_search_lines(app),
        InputMode::TextPrompt => text_prompt_lines(app),
        InputMode::FuzzySearch => fuzzy_search_lines(),
        InputMode::FilterEdit => filter_edit_lines(),
        InputMode::Category => category_lines(),
        InputMode::Note => note_lines(),
        InputMode::Tags => tag_lines(),
        InputMode::BulkApply => bulk_apply_lines(),
        InputMode::Confirm => confirm_lines(),
        InputMode::ConfirmApplyFilters => apply_filters_lines(),
        InputMode::TransferPending => transfer_pending_lines(),
        InputMode::TransferNoMatch => transfer_no_match_lines(),
    }
}

} // verus!
