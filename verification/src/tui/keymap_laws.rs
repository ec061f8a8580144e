//! What holds of the key bindings in every state.

use vstd::prelude::*;

use super::app::tabs::{Tab, TodoSubTab};
use super::app::{App, InputMode};
use super::key::{ascii_lower, KeyCode, KeyEvent, KeyModifiers};
use super::keymap::{footer_of, reacts, Act, Binding, Trigger};
use super::search_bar::ColonAnswer;
use crate::find::{first_index, lemma_first_index};

verus! {

/// The act a key can have on a tab.
spec fn owner(tab: Tab, subtab: TodoSubTab, key: KeyEvent) -> Act {
    match key.code {
        KeyCode::Esc => Act::ClearSearch,
        KeyCode::Tab => Act::NextTab,
        KeyCode::BackTab => Act::PrevTab,
        KeyCode::Down => Act::NextItem,
        KeyCode::Up => Act::PrevItem,
        KeyCode::Enter => if tab == Tab::Filters {
            Act::EditFilter
        } else {
            Act::Confirm
        },
        KeyCode::Delete => if tab == Tab::Filters {
            Act::DeleteFilter
        } else if tab == Tab::Transactions {
            Act::DeleteTxLink
        } else if tab == Tab::Todo && subtab == TodoSubTab::AiReview {
            Act::RemoveCategory
        } else {
            Act::DeleteTransfer
        },
        KeyCode::Char(c) => if key.modifiers.control {
            if ascii_lower(c) == 'g' {
                Act::Reindex
            } else {
                Act::SaveSearchAsFilter
            }
        } else if c == 'c' {
            Act::Categorise
        } else if c == 'C' {
            Act::CategoriseMatching
        } else if c == 'A' {
            Act::AcceptMatching
        } else if c == 't' {
            Act::MarkTransfer
        } else if c == 'n' {
            if tab == Tab::Filters {
                Act::CreateFilter
            } else {
                Act::EditNote
            }
        } else if c == '#' {
            Act::EditTags
        } else if c == 'e' {
            Act::RenameCategory
        } else if c == 'a' {
            Act::ApplyFilters
        } else if c == 'r' {
            Act::RenameFilter
        } else if c == 'o' {
            Act::CycleFilterOverride
        } else if c == 'v' {
            Act::ToggleFilterReview
        } else if c == 'd' {
            if tab == Tab::Filters {
                Act::DeleteFilter
            } else {
                Act::DeleteTransfer
            }
        } else if c == 'u' {
            Act::DeleteTxLink
        } else if c == 'M' {
            Act::ToggleDetails
        } else if c == ']' {
            Act::NextSubtab
        } else if c == '[' {
            Act::PrevSubtab
        } else if c == '/' {
            Act::DbSearch
        } else if c == '~' {
            Act::FuzzySearch
        } else if c == 'j' {
            Act::NextItem
        } else if c == 'k' {
            Act::PrevItem
        } else {
            Act::Quit
        },
        _ => Act::Quit,
    }
}

/// Where an act stands in the table of a tab.
spec fn place(tab: Tab, act: Act) -> int {
    match act {
        Act::ClearSearch => 0,
        Act::Categorise => if tab == Tab::Filters {
            11
        } else {
            1
        },
        Act::MarkTransfer => 2,
        Act::EditNote => 3,
        Act::EditTags => 4,
        Act::CategoriseMatching => 5,
        Act::RenameCategory => 6,
        Act::CreateFilter => 7,
        Act::ApplyFilters => 8,
        Act::EditFilter => 9,
        Act::RenameFilter => 10,
        Act::CycleFilterOverride => 12,
        Act::ToggleFilterReview => 13,
        Act::DeleteFilter => 14,
        Act::SaveSearchAsFilter => 15,
        Act::DeleteTxLink => 16,
        Act::ToggleDetails => 17,
        Act::DeleteTransfer => 18,
        Act::RemoveCategory => 19,
        Act::Confirm => 20,
        Act::AcceptMatching => 21,
        Act::NextSubtab => 22,
        Act::PrevSubtab => 23,
        Act::DbSearch => 24,
        Act::FuzzySearch => 25,
        Act::NextTab => 26,
        Act::PrevTab => 27,
        Act::NextItem => 28,
        Act::PrevItem => 29,
        Act::Reindex => 30,
        Act::Quit => 31,
    }
}

/// The binding reacts to keys of its own act alone, each by one trigger.
spec fn wired(tab: Tab, subtab: TodoSubTab, b: Binding) -> bool {
    &&& forall|key: KeyEvent| #[trigger] reacts(b, key) ==> owner(tab, subtab, key) == b.act
    &&& b.triggers.no_duplicates()
}

/// The bindings are wired, and in the order of their places.
spec fn in_place(tab: Tab, subtab: TodoSubTab, binds: Seq<Binding>, from: int, to: int) -> bool {
    &&& forall|i: int|
        0 <= i < binds.len() ==> wired(tab, subtab, #[trigger] binds[i]) && from <= place(
            tab,
            binds[i].act,
        ) < to
    &&& forall|i: int, j: int|
        0 <= i < j < binds.len() ==> place(tab, (#[trigger] binds[i]).act) < place(
            tab,
            (#[trigger] binds[j]).act,
        )
}

proof fn lemma_appended(
    tab: Tab,
    subtab: TodoSubTab,
    a: Seq<Binding>,
    b: Seq<Binding>,
    from: int,
    mid: int,
    to: int,
)
    requires
        in_place(tab, subtab, a, from, mid),
        in_place(tab, subtab, b, mid, to),
        from <= mid <= to,
    ensures
        in_place(tab, subtab, a + b, from, to),
{
    let ab = a + b;
    assert forall|i: int| 0 <= i < ab.len() implies wired(tab, subtab, #[trigger] ab[i]) && from
        <= place(tab, ab[i].act) < to by {
        if i < a.len() {
            assert(ab[i] == a[i]);
        } else {
            assert(ab[i] == b[i - a.len()]);
        }
    }
    assert forall|i: int, j: int| 0 <= i < j < ab.len() implies place(tab, (#[trigger] ab[i]).act)
        < place(tab, (#[trigger] ab[j]).act) by {
        if j < a.len() {
            assert(ab[i] == a[i] && ab[j] == a[j]);
        } else if i >= a.len() {
            assert(ab[i] == b[i - a.len()] && ab[j] == b[j - a.len()]);
        } else {
            assert(ab[i] == a[i] && ab[j] == b[j - a.len()]);
        }
    }
}

/// A one-trigger binding is wired where the trigger's keys belong to its act.
proof fn lemma_row(tab: Tab, subtab: TodoSubTab, b: Binding, t: Trigger)
    requires
        b.triggers == seq![t],
        forall|key: KeyEvent| #[trigger] t.fires(key) ==> owner(tab, subtab, key) == b.act,
    ensures
        wired(tab, subtab, b),
{
    assert forall|key: KeyEvent| #[trigger] reacts(b, key) implies owner(tab, subtab, key)
        == b.act by {
        let k = choose|k: int| 0 <= k < b.triggers.len() && (#[trigger] b.triggers[k]).fires(key);
        assert(b.triggers[k] == t);
    }
}

/// The same of a binding with two triggers.
proof fn lemma_two(tab: Tab, subtab: TodoSubTab, b: Binding, t: Trigger, u: Trigger)
    requires
        b.triggers == seq![t].push(u),
        t != u,
        forall|key: KeyEvent| #[trigger] t.fires(key) ==> owner(tab, subtab, key) == b.act,
        forall|key: KeyEvent| #[trigger] u.fires(key) ==> owner(tab, subtab, key) == b.act,
    ensures
        wired(tab, subtab, b),
{
    assert forall|key: KeyEvent| #[trigger] reacts(b, key) implies owner(tab, subtab, key)
        == b.act by {
        let k = choose|k: int| 0 <= k < b.triggers.len() && (#[trigger] b.triggers[k]).fires(key);
        assert(b.triggers[k] == t || b.triggers[k] == u);
    }
}

proof fn lemma_filter_binds(app: App)
    ensures
        in_place(app.current_tab, app.todo_subtab, app.filter_binds(), 9, 15),
{
    let (tab, sub) = (app.current_tab, app.todo_subtab);
    let s = app.filter_binds();
    if s.len() > 0 {
        lemma_row(tab, sub, s[0], Trigger::Code(KeyCode::Enter));
        lemma_row(tab, sub, s[1], Trigger::Char('r'));
        lemma_row(tab, sub, s[2], Trigger::Char('c'));
        lemma_row(tab, sub, s[3], Trigger::Char('o'));
        lemma_row(tab, sub, s[4], Trigger::Char('v'));
        lemma_two(tab, sub, s[5], Trigger::Char('d'), Trigger::Code(KeyCode::Delete));
    }
}

proof fn lemma_transaction_binds(app: App)
    ensures
        in_place(app.current_tab, app.todo_subtab, app.transaction_binds(), 1, 5),
{
    let (tab, sub) = (app.current_tab, app.todo_subtab);
    let s = app.transaction_binds();
    if s.len() > 0 {
        lemma_row(tab, sub, s[0], Trigger::Char('c'));
        lemma_row(tab, sub, s[1], Trigger::Char('t'));
        lemma_row(tab, sub, s[2], Trigger::Char('n'));
        lemma_row(tab, sub, s[3], Trigger::Char('#'));
    }
}

proof fn lemma_common_binds(tab: Tab, sub: TodoSubTab)
    ensures
        in_place(tab, sub, App::common_binds(), 24, 32),
{
    let s = App::common_binds();
    lemma_row(tab, sub, s[0], Trigger::Char('/'));
    lemma_row(tab, sub, s[1], Trigger::Char('~'));
    lemma_row(tab, sub, s[2], Trigger::Code(KeyCode::Tab));
    lemma_row(tab, sub, s[3], Trigger::Code(KeyCode::BackTab));
    lemma_two(tab, sub, s[4], Trigger::Char('j'), Trigger::Code(KeyCode::Down));
    lemma_two(tab, sub, s[5], Trigger::Char('k'), Trigger::Code(KeyCode::Up));
    lemma_row(tab, sub, s[6], Trigger::Ctrl('g'));
    lemma_row(tab, sub, s[7], Trigger::Char('q'));
}

proof fn lemma_first_binds(app: App)
    ensures
        in_place(
            app.current_tab,
            app.todo_subtab,
            app.search_binds() + app.transaction_binds() + app.categorise_matching_binds()
                + app.category_binds()
                + app.filters_binds() + app.filter_binds() + app.save_binds(),
            0,
            16,
        ),
{
    let (tab, sub) = (app.current_tab, app.todo_subtab);
    if app.search_binds().len() > 0 {
        lemma_row(tab, sub, app.search_binds()[0], Trigger::Code(KeyCode::Esc));
    }
    if app.categorise_matching_binds().len() > 0 {
        lemma_row(tab, sub, app.categorise_matching_binds()[0], Trigger::Char('C'));
    }
    if app.category_binds().len() > 0 {
        lemma_row(tab, sub, app.category_binds()[0], Trigger::Char('e'));
    }
    if app.filters_binds().len() > 0 {
        lemma_row(tab, sub, app.filters_binds()[0], Trigger::Char('n'));
        lemma_row(tab, sub, app.filters_binds()[1], Trigger::Char('a'));
    }
    if app.save_binds().len() > 0 {
        lemma_row(tab, sub, app.save_binds()[0], Trigger::Ctrl('s'));
    }
    lemma_transaction_binds(app);
    lemma_filter_binds(app);
    let s = app.search_binds();
    lemma_appended(tab, sub, s, app.transaction_binds(), 0, 1, 5);
    let s = s + app.transaction_binds();
    lemma_appended(tab, sub, s, app.categorise_matching_binds(), 0, 5, 6);
    let s = s + app.categorise_matching_binds();
    lemma_appended(tab, sub, s, app.category_binds(), 0, 6, 7);
    let s = s + app.category_binds();
    lemma_appended(tab, sub, s, app.filters_binds(), 0, 7, 9);
    let s = s + app.filters_binds();
    lemma_appended(tab, sub, s, app.filter_binds(), 0, 9, 15);
    let s = s + app.filter_binds();
    lemma_appended(tab, sub, s, app.save_binds(), 0, 15, 16);
}

proof fn lemma_keymap(app: App)
    ensures
        in_place(app.current_tab, app.todo_subtab, app.keymap(), 0, 32),
{
    let (tab, sub) = (app.current_tab, app.todo_subtab);
    if app.link_binds().len() > 0 {
        lemma_two(
            tab,
            sub,
            app.link_binds()[0],
            Trigger::Code(KeyCode::Delete),
            Trigger::Char('u'),
        );
    }
    if app.detail_binds().len() > 0 {
        lemma_row(tab, sub, app.detail_binds()[0], Trigger::Char('M'));
    }
    if app.transfer_binds().len() > 0 {
        if tab == Tab::Transfers {
            lemma_two(
                tab,
                sub,
                app.transfer_binds()[0],
                Trigger::Char('d'),
                Trigger::Code(KeyCode::Delete),
            );
        } else {
            lemma_row(tab, sub, app.transfer_binds()[0], Trigger::Code(KeyCode::Delete));
        }
    }
    if app.review_binds().len() > 0 {
        lemma_row(tab, sub, app.review_binds()[0], Trigger::Code(KeyCode::Delete));
    }
    if app.confirm_binds().len() > 0 {
        lemma_row(tab, sub, app.confirm_binds()[0], Trigger::Code(KeyCode::Enter));
    }
    if app.accept_matching_binds().len() > 0 {
        lemma_row(tab, sub, app.accept_matching_binds()[0], Trigger::Char('A'));
    }
    if app.subtab_binds().len() > 0 {
        lemma_row(tab, sub, app.subtab_binds()[0], Trigger::Char(']'));
        lemma_row(tab, sub, app.subtab_binds()[1], Trigger::Char('['));
    }
    lemma_first_binds(app);
    lemma_common_binds(tab, sub);
    let s = app.search_binds() + app.transaction_binds() + app.categorise_matching_binds()
                + app.category_binds()
        + app.filters_binds() + app.filter_binds() + app.save_binds();
    lemma_appended(tab, sub, s, app.link_binds(), 0, 16, 17);
    let s = s + app.link_binds();
    lemma_appended(tab, sub, s, app.detail_binds(), 0, 17, 18);
    let s = s + app.detail_binds();
    lemma_appended(tab, sub, s, app.transfer_binds(), 0, 18, 19);
    let s = s + app.transfer_binds();
    lemma_appended(tab, sub, s, app.review_binds(), 0, 19, 20);
    let s = s + app.review_binds();
    lemma_appended(tab, sub, s, app.confirm_binds(), 0, 20, 21);
    let s = s + app.confirm_binds();
    lemma_appended(tab, sub, s, app.accept_matching_binds(), 0, 21, 22);
    let s = s + app.accept_matching_binds();
    lemma_appended(tab, sub, s, app.subtab_binds(), 0, 22, 24);
    let s = s + app.subtab_binds();
    lemma_appended(tab, sub, s, App::common_binds(), 0, 24, 32);
}

/// A key that fires the trigger.
spec fn key_for(t: Trigger) -> KeyEvent {
    match t {
        Trigger::Char(c) => KeyEvent {
            code: KeyCode::Char(c),
            modifiers: KeyModifiers { control: false, alt: false, shift: false },
        },
        Trigger::Ctrl(c) => KeyEvent {
            code: KeyCode::Char(c),
            modifiers: KeyModifiers { control: true, alt: false, shift: false },
        },
        Trigger::Code(code) => KeyEvent {
            code,
            modifiers: KeyModifiers { control: false, alt: false, shift: false },
        },
    }
}

/// In no state does a key have two bindings: what it does does not depend on
/// their order.
pub proof fn one_binding_per_key(app: App, key: KeyEvent, i: int, j: int)
    requires
        0 <= i < app.keymap().len(),
        0 <= j < app.keymap().len(),
        reacts(app.keymap()[i], key),
        reacts(app.keymap()[j], key),
    ensures
        i == j,
{
    lemma_keymap(app);
    let binds = app.keymap();
    assert(wired(app.current_tab, app.todo_subtab, binds[i]));
    assert(wired(app.current_tab, app.todo_subtab, binds[j]));
    assert(binds[i].act == binds[j].act);
}

/// In no state is a trigger listed twice.
pub proof fn no_trigger_is_bound_twice(app: App, i: int, k: int, j: int, l: int)
    requires
        0 <= i < app.keymap().len(),
        0 <= k < app.keymap()[i].triggers.len(),
        0 <= j < app.keymap().len(),
        0 <= l < app.keymap()[j].triggers.len(),
        app.keymap()[i].triggers[k] == app.keymap()[j].triggers[l],
    ensures
        i == j,
        k == l,
{
    lemma_keymap(app);
    let binds = app.keymap();
    let key = key_for(binds[i].triggers[k]);
    assert(binds[i].triggers[k].fires(key));
    assert(binds[j].triggers[l].fires(key));
    one_binding_per_key(app, key, i, j);
    assert(wired(app.current_tab, app.todo_subtab, binds[i]));
}

/// The binding is shown in the footer with the hint's texts.
pub open spec fn shows(b: Binding, hint: (Seq<char>, Seq<char>)) -> bool {
    b.footer && (b.label, b.desc) == hint
}

proof fn lemma_footer(binds: Seq<Binding>, i: int)
    requires
        0 <= i < footer_of(binds).len(),
    ensures
        exists|j: int|
            0 <= j < binds.len() && shows(#[trigger] binds[j], footer_of(binds)[i]),
    decreases binds.len(),
{
    let before = footer_of(binds.drop_last());
    if i < before.len() {
        lemma_footer(binds.drop_last(), i);
        let j = choose|j: int|
            0 <= j < binds.drop_last().len() && shows(#[trigger] binds.drop_last()[j], before[i]);
        assert(shows(binds[j], footer_of(binds)[i]));
    } else {
        assert(shows(binds[binds.len() - 1], footer_of(binds)[i]));
    }
}

/// Every hint of Normal mode's footer but the last, which is for the popover, is
/// of a binding that reacts here.
pub proof fn footer_hints_are_bound(app: App, i: int)
    requires
        app.input_mode == InputMode::Normal,
        0 <= i < app.hints().len() - 1,
    ensures
        exists|j: int|
            0 <= j < app.keymap().len() && shows(#[trigger] app.keymap()[j], app.hints()[i]),
{
    lemma_footer(app.keymap(), i);
}

proof fn lemma_cat(a: Seq<Binding>, b: Seq<Binding>, x: Binding)
    requires
        a.contains(x) || b.contains(x),
    ensures
        (a + b).contains(x),
{
    if a.contains(x) {
        let i = choose|i: int| 0 <= i < a.len() && a[i] == x;
        assert((a + b)[i] == x);
    } else {
        let i = choose|i: int| 0 <= i < b.len() && b[i] == x;
        assert((a + b)[a.len() + i] == x);
    }
}

/// The rows of the table that an application's state has, section by section.
spec fn has_row(app: App, b: Binding) -> bool {
    ||| app.search_binds().contains(b)
    ||| app.transaction_binds().contains(b)
    ||| app.categorise_matching_binds().contains(b)
    ||| app.category_binds().contains(b)
    ||| app.filters_binds().contains(b)
    ||| app.filter_binds().contains(b)
    ||| app.save_binds().contains(b)
    ||| app.link_binds().contains(b)
    ||| app.detail_binds().contains(b)
    ||| app.transfer_binds().contains(b)
    ||| app.review_binds().contains(b)
    ||| app.confirm_binds().contains(b)
    ||| app.accept_matching_binds().contains(b)
    ||| app.subtab_binds().contains(b)
    ||| App::common_binds().contains(b)
}

proof fn lemma_has_row(app: App, b: Binding)
    requires
        has_row(app, b),
    ensures
        app.keymap().contains(b),
{
    let s = app.search_binds();
    let t = s + app.transaction_binds();
    if s.contains(b) || app.transaction_binds().contains(b) {
        lemma_cat(s, app.transaction_binds(), b);
    }
    let u = t + app.categorise_matching_binds();
    if t.contains(b) || app.categorise_matching_binds().contains(b) {
        lemma_cat(t, app.categorise_matching_binds(), b);
    }
    let s = u + app.category_binds();
    if u.contains(b) || app.category_binds().contains(b) {
        lemma_cat(u, app.category_binds(), b);
    }
    let t = s + app.filters_binds();
    if s.contains(b) || app.filters_binds().contains(b) {
        lemma_cat(s, app.filters_binds(), b);
    }
    let u = t + app.filter_binds();
    if t.contains(b) || app.filter_binds().contains(b) {
        lemma_cat(t, app.filter_binds(), b);
    }
    let s = u + app.save_binds();
    if u.contains(b) || app.save_binds().contains(b) {
        lemma_cat(u, app.save_binds(), b);
    }
    let t = s + app.link_binds();
    if s.contains(b) || app.link_binds().contains(b) {
        lemma_cat(s, app.link_binds(), b);
    }
    let u = t + app.detail_binds();
    if t.contains(b) || app.detail_binds().contains(b) {
        lemma_cat(t, app.detail_binds(), b);
    }
    let s = u + app.transfer_binds();
    if u.contains(b) || app.transfer_binds().contains(b) {
        lemma_cat(u, app.transfer_binds(), b);
    }
    let t = s + app.review_binds();
    if s.contains(b) || app.review_binds().contains(b) {
        lemma_cat(s, app.review_binds(), b);
    }
    let u = t + app.confirm_binds();
    if t.contains(b) || app.confirm_binds().contains(b) {
        lemma_cat(t, app.confirm_binds(), b);
    }
    let s = u + app.accept_matching_binds();
    if u.contains(b) || app.accept_matching_binds().contains(b) {
        lemma_cat(u, app.accept_matching_binds(), b);
    }
    let t = s + app.subtab_binds();
    if s.contains(b) || app.subtab_binds().contains(b) {
        lemma_cat(s, app.subtab_binds(), b);
    }
    if t.contains(b) || App::common_binds().contains(b) {
        lemma_cat(t, App::common_binds(), b);
    }
}

/// A key does what its row says.
proof fn lemma_bound(app: App, b: Binding, k: int, key: KeyEvent)
    requires
        has_row(app, b),
        0 <= k < b.triggers.len(),
        b.triggers[k].fires(key),
        !(key.code == KeyCode::Tab && key.modifiers.shift),
    ensures
        app.bound(key) == Some(b.act),
{
    lemma_has_row(app, b);
    let binds = app.keymap();
    let hit = |b: Binding| reacts(b, key);
    let i = choose|i: int| 0 <= i < binds.len() && binds[i] == b;
    assert(reacts(binds[i], key));
    lemma_first_index(binds, hit);
    assert(hit(binds[i]));
    let f = first_index(binds, hit)->0;
    one_binding_per_key(app, key, f, i);
}

/// The key is the character alone, or with Shift.
pub open spec fn is_plain(key: KeyEvent, c: char) -> bool {
    key.code == KeyCode::Char(c) && !key.modifiers.control && !key.modifiers.alt
}

/// On a transaction, `c` sets its category, `t` marks it for a transfer, `n` edits its
/// note and `#` its tags; `u` and Delete take its link away on the Transactions tab.
/// `C` and `A` categorise and accept all that match, where they can.
pub proof fn keys_on_a_transaction(app: App, key: KeyEvent, next: App)
    requires
        app.normal_keyed(key, next),
        app.selected_tx() is Some,
    ensures
        is_plain(key, 'c') && app.current_tab != Tab::Filters ==> app.start_category_edit_leads_to(
            next,
        ),
        is_plain(key, 't') ==> app.start_transfer_mark_leads_to(next),
        is_plain(key, 'n') ==> app.start_note_edit_leads_to(next),
        is_plain(key, '#') ==> app.start_tag_edit_leads_to(next),
        app.current_tab == Tab::Transactions && (is_plain(key, 'u') || key.code == KeyCode::Delete)
            ==> app.delete_selected_tx_link_leads_to(next),
        app.plain_view() && is_plain(key, 'M') ==> next == (App {
            view_details: !app.view_details,
            ..app
        }),
        app.can_categorise_matching() && is_plain(key, 'C')
            ==> app.start_bulk_categorise_matching_leads_to(next),
{
    let s = app.transaction_binds();
    if is_plain(key, 'c') {
        assert(s.contains(s[0]));
        lemma_bound(app, s[0], 0, key);
    }
    if is_plain(key, 't') {
        assert(s.contains(s[1]));
        lemma_bound(app, s[1], 0, key);
    }
    if is_plain(key, 'n') {
        assert(s.contains(s[2]));
        lemma_bound(app, s[2], 0, key);
    }
    if is_plain(key, '#') {
        assert(s.contains(s[3]));
        lemma_bound(app, s[3], 0, key);
    }
    if app.current_tab == Tab::Transactions {
        let l = app.link_binds();
        assert(l.contains(l[0]));
        if is_plain(key, 'u') {
            lemma_bound(app, l[0], 1, key);
        }
        if key.code == KeyCode::Delete {
            lemma_bound(app, l[0], 0, key);
        }
    }
    if app.plain_view() && is_plain(key, 'M') {
        let d = app.detail_binds();
        assert(d.contains(d[0]));
        lemma_bound(app, d[0], 0, key);
    }
    if app.can_categorise_matching() && is_plain(key, 'C') {
        let m = app.categorise_matching_binds();
        assert(m.contains(m[0]));
        lemma_bound(app, m[0], 0, key);
    }
}

/// On the Filters tab, `n` makes a filter and `a` previews applying them. On a filter
/// Enter edits it, `r` renames it, `c` sets its category, `o` its mode, `v` its review,
/// and `d` and Delete delete it.
pub proof fn keys_on_the_filters(app: App, key: KeyEvent, next: App)
    requires
        app.normal_keyed(key, next),
        app.current_tab == Tab::Filters,
    ensures
        is_plain(key, 'n') ==> app.start_filter_create_leads_to(next),
        is_plain(key, 'a') ==> app.apply_filter_categories_leads_to(next),
        app.chosen_filter() is Some ==> {
            &&& key.code == KeyCode::Enter ==> app.open_filter_edit_leads_to(next)
            &&& is_plain(key, 'r') ==> app.start_filter_rename_leads_to(next)
            &&& is_plain(key, 'c') ==> app.start_category_edit_leads_to(next)
            &&& is_plain(key, 'o') ==> app.cycle_filter_override_leads_to(next)
            &&& is_plain(key, 'v') ==> app.toggle_filter_review_leads_to(next)
            &&& is_plain(key, 'd') || key.code == KeyCode::Delete ==> app.delete_filter_leads_to(
                next,
            )
        },
{
    let s = app.filters_binds();
    assert(s.contains(s[0]) && s.contains(s[1]));
    if is_plain(key, 'n') {
        lemma_bound(app, s[0], 0, key);
    }
    if is_plain(key, 'a') {
        lemma_bound(app, s[1], 0, key);
    }
    if app.chosen_filter() is Some {
        let f = app.filter_binds();
        assert(f.contains(f[0]) && f.contains(f[1]) && f.contains(f[2]) && f.contains(f[3])
            && f.contains(f[4]) && f.contains(f[5]));
        if key.code == KeyCode::Enter {
            lemma_bound(app, f[0], 0, key);
        }
        if is_plain(key, 'r') {
            lemma_bound(app, f[1], 0, key);
        }
        if is_plain(key, 'c') {
            lemma_bound(app, f[2], 0, key);
        }
        if is_plain(key, 'o') {
            lemma_bound(app, f[3], 0, key);
        }
        if is_plain(key, 'v') {
            lemma_bound(app, f[4], 0, key);
        }
        if is_plain(key, 'd') {
            lemma_bound(app, f[5], 0, key);
        }
        if key.code == KeyCode::Delete {
            lemma_bound(app, f[5], 1, key);
        }
    }
}

/// Under review, Enter confirms the category or the transfer, Delete takes it away, and
/// `A` accepts all. On the Transfers tab `d` and Delete delete the transfer, and on the
/// Categories tab `e` renames the category.
pub proof fn keys_on_what_is_reviewed(app: App, key: KeyEvent, next: App)
    requires
        app.normal_keyed(key, next),
    ensures
        app.reviewed_tx() is Some && key.code == KeyCode::Enter ==> app.confirm_ai_category_leads_to(
            next,
        ),
        app.reviewed_tx() is Some && key.code == KeyCode::Delete ==> app.remove_ai_category_leads_to(
            next,
        ),
        app.reviewed_transfer() is Some && key.code == KeyCode::Enter
            ==> app.confirm_transfer_review_leads_to(next),
        app.chosen_transfer() is Some && key.code == KeyCode::Delete ==> app.delete_transfer_leads_to(
            next,
        ),
        app.chosen_transfer() is Some && app.current_tab == Tab::Transfers && is_plain(key, 'd')
            ==> app.delete_transfer_leads_to(next),
        app.can_accept_matching() && is_plain(key, 'A') ==> app.start_accept_matching_leads_to(
            next,
        ),
        app.chosen_category() is Some && is_plain(key, 'e') ==> app.start_category_rename_leads_to(
            next,
        ),
{
    if app.reviewed_tx() is Some || app.reviewed_transfer() is Some {
        let c = app.confirm_binds();
        assert(c.contains(c[0]));
        if key.code == KeyCode::Enter {
            lemma_bound(app, c[0], 0, key);
        }
    }
    if app.reviewed_tx() is Some && key.code == KeyCode::Delete {
        let r = app.review_binds();
        assert(r.contains(r[0]));
        lemma_bound(app, r[0], 0, key);
    }
    if app.chosen_transfer() is Some {
        let t = app.transfer_binds();
        assert(t.contains(t[0]));
        if app.current_tab == Tab::Transfers {
            if is_plain(key, 'd') {
                lemma_bound(app, t[0], 0, key);
            }
            if key.code == KeyCode::Delete {
                lemma_bound(app, t[0], 1, key);
            }
        } else if key.code == KeyCode::Delete {
            lemma_bound(app, t[0], 0, key);
        }
    }
    if app.can_accept_matching() && is_plain(key, 'A') {
        let a = app.accept_matching_binds();
        assert(a.contains(a[0]));
        lemma_bound(app, a[0], 0, key);
    }
    if app.chosen_category() is Some && is_plain(key, 'e') {
        let e = app.category_binds();
        assert(e.contains(e[0]));
        lemma_bound(app, e[0], 0, key);
    }
}

/// Everywhere, `/` and `~` search, Tab and its reverse switch tabs, `j` and Down, `k` and
/// Up step through the rows, Ctrl-G indexes anew and `q` quits. On Todo the brackets
/// switch subtabs; Esc clears an active search, and Ctrl-S saves it.
pub proof fn keys_everywhere(app: App, key: KeyEvent, next: App)
    requires
        app.normal_keyed(key, next),
    ensures
        is_plain(key, '/') ==> app.start_db_search_leads_to(next),
        is_plain(key, '~') ==> app.start_fuzzy_search_leads_to(next),
        key.code == KeyCode::Tab && !key.modifiers.shift ==> app.next_tab_leads_to(next),
        key.code == KeyCode::BackTab || (key.code == KeyCode::Tab && key.modifiers.shift)
            ==> app.previous_tab_leads_to(next),
        is_plain(key, 'j') || key.code == KeyCode::Down ==> app.next_leads_to(next),
        is_plain(key, 'k') || key.code == KeyCode::Up ==> app.previous_leads_to(next),
        key.code == KeyCode::Char('g') && key.modifiers.control && !key.modifiers.alt
            ==> app.job_requested(super::app::tasks::BackgroundJob::Reindex, next),
        is_plain(key, 'q') ==> next == (App { should_quit: true, ..app }),
        app.current_tab == Tab::Todo && is_plain(key, ']') ==> app.next_subtab_leads_to(next),
        app.current_tab == Tab::Todo && is_plain(key, '[') ==> app.previous_subtab_leads_to(next),
        app.searching() && key.code == KeyCode::Esc ==> app.clear_search_leads_to(next),
        app.savable() && key.code == KeyCode::Char('s') && key.modifiers.control
            && !key.modifiers.alt ==> app.start_filter_from_search_leads_to(next),
{
    let s = App::common_binds();
    assert(s.contains(s[0]) && s.contains(s[1]) && s.contains(s[2]) && s.contains(s[3])
        && s.contains(s[4]) && s.contains(s[5]) && s.contains(s[6]) && s.contains(s[7]));
    if is_plain(key, '/') {
        lemma_bound(app, s[0], 0, key);
    }
    if is_plain(key, '~') {
        lemma_bound(app, s[1], 0, key);
    }
    if key.code == KeyCode::Tab && !key.modifiers.shift {
        lemma_bound(app, s[2], 0, key);
    }
    if key.code == KeyCode::BackTab {
        lemma_bound(app, s[3], 0, key);
    }
    if is_plain(key, 'j') {
        lemma_bound(app, s[4], 0, key);
    }
    if key.code == KeyCode::Down {
        lemma_bound(app, s[4], 1, key);
    }
    if is_plain(key, 'k') {
        lemma_bound(app, s[5], 0, key);
    }
    if key.code == KeyCode::Up {
        lemma_bound(app, s[5], 1, key);
    }
    if key.code == KeyCode::Char('g') && key.modifiers.control && !key.modifiers.alt {
        lemma_bound(app, s[6], 0, key);
    }
    if is_plain(key, 'q') {
        lemma_bound(app, s[7], 0, key);
    }
    if app.current_tab == Tab::Todo {
        let t = app.subtab_binds();
        assert(t.contains(t[0]) && t.contains(t[1]));
        if is_plain(key, ']') {
            lemma_bound(app, t[0], 0, key);
        }
        if is_plain(key, '[') {
            lemma_bound(app, t[1], 0, key);
        }
    }
    if app.searching() && key.code == KeyCode::Esc {
        let e = app.search_binds();
        assert(e.contains(e[0]));
        lemma_bound(app, e[0], 0, key);
    }
    if app.savable() && key.code == KeyCode::Char('s') && key.modifiers.control
        && !key.modifiers.alt {
        let w = app.save_binds();
        assert(w.contains(w[0]));
        lemma_bound(app, w[0], 0, key);
    }
}

/// Keys in the other modes: yes is `y` or Enter and no is `n` or Esc, in either case of
/// the letter; Esc cancels and Enter confirms in the popups.
pub proof fn keys_in_the_popups(app: App, key: KeyEvent, answer: Option<ColonAnswer>, next: App)
    requires
        app.keyed(key, answer, next),
        app.classify_report is None,
        !app.keybind_help_open,
        app.error_message is None,
        key.code != KeyCode::Char('?'),
    ensures
        ({
            let yes = key.code == KeyCode::Enter || key.code == KeyCode::Char('y') || key.code
                == KeyCode::Char('Y');
            let no = key.code == KeyCode::Esc || key.code == KeyCode::Char('n') || key.code
                == KeyCode::Char('N');
            &&& app.input_mode == InputMode::Confirm && yes ==> app.confirm_proceed_leads_to(next)
            &&& app.input_mode == InputMode::Confirm && no ==> app.cancelled(next)
            &&& app.input_mode == InputMode::Confirm && !yes && !no ==> next == app
            &&& app.input_mode == InputMode::ConfirmApplyFilters && yes
                ==> app.apply_filters_confirm_leads_to(next)
            &&& app.input_mode == InputMode::ConfirmApplyFilters && no ==> app.cancelled(next)
        }),
        app.input_mode == InputMode::Category && key.code == KeyCode::Esc ==> app.cancelled(next),
        app.input_mode == InputMode::Category && key.code == KeyCode::Enter
            ==> app.confirm_category_leads_to(next),
        app.input_mode == InputMode::Category && key.code == KeyCode::Backspace
            ==> app.backspace_category_input_leads_to(next),
        app.input_mode == InputMode::Category ==> (key.code matches KeyCode::Char(c)
            ==> app.update_category_input_leads_to(c, next)),
        app.input_mode == InputMode::BulkApply && key.code == KeyCode::Esc ==> next == (App {
            bulk_apply: None,
            input_mode: InputMode::Normal,
            ..app
        }),
        app.input_mode == InputMode::BulkApply && key.code == KeyCode::Enter
            ==> app.bulk_apply_confirm_leads_to(next),
        app.input_mode == InputMode::BulkApply && key.code == KeyCode::Char(' ')
            ==> app.bulk_apply_toggle_leads_to(next),
        app.input_mode == InputMode::BulkApply && key.code == KeyCode::Char('a')
            ==> app.bulk_apply_toggle_all_leads_to(next),
        app.input_mode == InputMode::TextPrompt && key.code == KeyCode::Esc ==> app.cancelled(next),
        app.input_mode == InputMode::TextPrompt && key.code == KeyCode::Enter
            ==> app.confirm_text_prompt_leads_to(next),
        app.input_mode == InputMode::TransferPending && (key.code == KeyCode::Enter || key.code
            == KeyCode::Char('T')) ==> app.transfer_completed(next),
        app.input_mode == InputMode::TransferPending && key.code == KeyCode::Esc ==> app.cancelled(
            next,
        ),
        app.input_mode == InputMode::TransferPending && key.code == KeyCode::Char('t')
            ==> app.start_transfer_mark_leads_to(next),
        app.input_mode == InputMode::TransferNoMatch ==> if key.code == KeyCode::Esc {
            app.cancelled(next)
        } else {
            next == app
        },
        app.input_mode == InputMode::FuzzySearch && key.code == KeyCode::Enter ==> next == (App {
            input_mode: InputMode::Normal,
            ..app
        }),
        app.input_mode == InputMode::FuzzySearch && key.code == KeyCode::Esc
            ==> app.clear_fuzzy_search_leads_to(next),
        app.input_mode == InputMode::DbSearch && key.code == KeyCode::Esc
            && app.here().search_bar.popup() is None ==> app.clear_db_search_leads_to(next),
        app.input_mode == InputMode::DbSearch && key.code == KeyCode::Enter
            && app.here().search_bar.popup() is None ==> next == (App {
            input_mode: InputMode::Normal,
            ..app
        }),
        app.input_mode == InputMode::FilterEdit && key.code == KeyCode::Enter && !app.edit_popup()
            ==> app.save_filter_edit_leads_to(next),
        app.input_mode == InputMode::FilterEdit && key.code == KeyCode::Esc && !app.edit_popup()
            ==> app.request_exit_filter_edit_leads_to(next),
{
    if let KeyCode::Char(c) = key.code {
        lemma_letters(c);
    }
}

proof fn lemma_letters(c: char)
    ensures
        ascii_lower(c) == ascii_lower('y') <==> c == 'y' || c == 'Y',
        ascii_lower(c) == ascii_lower('n') <==> c == 'n' || c == 'N',
{
}

/// A report, then the popover, then an error take Esc and Enter before anything else
/// does, and each goes by one such key. Alt-? turns the hints over, and `?` opens the
/// popover in Normal mode and while a transfer is marked.
pub proof fn what_is_on_top_goes_first(
    app: App,
    key: KeyEvent,
    answer: Option<ColonAnswer>,
    next: App,
)
    requires
        app.keyed(key, answer, next),
    ensures
        ({
            let leaves = key.code == KeyCode::Esc || key.code == KeyCode::Enter;
            let asks = key.code == KeyCode::Char('?');
            &&& app.classify_report is Some ==> next == (App {
                classify_report: if leaves {
                    None
                } else {
                    app.classify_report
                },
                ..app
            })
            &&& app.classify_report is None && app.keybind_help_open ==> next == (App {
                keybind_help_open: !(leaves || asks),
                ..app
            })
            &&& app.classify_report is None && !app.keybind_help_open && app.error_message is Some
                && leaves ==> next == (App { error_message: None, ..app })
            &&& app.classify_report is None && !app.keybind_help_open && asks && key.modifiers.alt
                ==> next == (App { hints_visible: !app.hints_visible, ..app })
            &&& app.classify_report is None && !app.keybind_help_open && asks
                && !key.modifiers.alt && !key.modifiers.control && (app.input_mode
                == InputMode::Normal || app.input_mode == InputMode::TransferPending) ==> next == (
            App { keybind_help_open: true, ..app })
        }),
{
}

} // verus!
