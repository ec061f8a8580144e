//! Tag editor.
//!
//! The whole tag set is one space-separated text line, with autocomplete over
//! the token under the cursor. That buys ordinary text editing for free —
//! backspace fixes a typo mid-tag, `Ctrl-Left/Right` moves tag by tag — with no
//! chip model and no separate deletion mode.
//!
//! Key semantics, chosen so nothing is ever committed by surprise:
//!
//! - `Space` commits the token **exactly as typed**. It never takes the
//!   highlighted suggestion: typing `coffee` with `coffee-shop` highlighted
//!   must not silently give you `coffee-shop`, and a new tag that is a prefix
//!   of an existing one has to be typeable.
//! - `Tab` takes the highlighted suggestion and leaves the cursor after a
//!   space, ready for the next tag.
//! - `Enter` and `Ctrl-S` always save. Enter is never "accept the suggestion",
//!   because a mode where it sometimes saves and sometimes completes fails
//!   silently — you press it meaning save and persist a completion you did not
//!   want.

use vstd::prelude::*;
use vstd::string::*;

use super::key::{KeyCode, KeyEvent};
use crate::fuzzy::{fuzzy_score, score_of};
use crate::tag::{canonical, normalise_tag, tag_set, usable, validate_tag};
use crate::text::{
    char_len, contains, find_non_white, find_run_start, find_white, find_white_start, insert_char,
    int_ranges, is_white, is_whitespace, join, joined, lemma_lex_total, lemma_lex_transitive,
    lemma_run_end, lemma_skip_white, lex_le, lex_leq, remove_char, replace_range, run_end,
    run_start, skip_white, skip_white_back, texts, to_chars, token_ranges, tokens, tokens_from,
    views, within,
};

verus! {

/// What the caller should do after a key.
#[derive(Debug, Clone, Copy, PartialEq, Eq, Structural)]
pub enum TagEditorAction {
    /// Keep editing.
    Continue,
    /// Persist [`TagEditor::tags`].
    Save,
    /// Leave without saving.
    Cancel,
}

/// One suggestion row, with whether that tag is already on the transaction.
pub struct TagSuggestion {
    pub name: String,
    pub applied: bool,
}

/// A line of text with a cursor between two of its characters.
#[verifier::ext_equal]
pub struct TagLine {
    pub input: Seq<char>,
    pub cursor: int,
}

impl TagLine {
    pub open spec fn valid(self) -> bool {
        0 <= self.cursor <= self.input.len()
    }

    /// The token under the cursor; empty where the cursor touches none.
    pub open spec fn token(self) -> Seq<char> {
        self.input.subrange(run_start(self.input, self.cursor), run_end(self.input, self.cursor))
    }

    pub open spec fn inserted(self, text: Seq<char>) -> TagLine {
        TagLine {
            input: self.input.take(self.cursor) + text + self.input.skip(self.cursor),
            cursor: self.cursor + text.len(),
        }
    }

    /// A character typed at the cursor: whitespace becomes one space, and is
    /// dropped where it would only make an empty token.
    pub open spec fn typed(self, c: char) -> TagLine {
        if !is_white(c) {
            self.inserted(seq![c])
        } else if self.token().len() == 0 {
            self
        } else {
            self.inserted(seq![' '])
        }
    }

    pub open spec fn backspaced(self) -> TagLine {
        if self.cursor > 0 {
            TagLine { input: self.input.remove(self.cursor - 1), cursor: self.cursor - 1 }
        } else {
            self
        }
    }

    pub open spec fn deleted(self) -> TagLine {
        if self.cursor < self.input.len() {
            TagLine { input: self.input.remove(self.cursor), cursor: self.cursor }
        } else {
            self
        }
    }

    /// Start of the token under or before the cursor.
    pub open spec fn word_before(self) -> int {
        run_start(self.input, skip_white_back(self.input, self.cursor))
    }

    /// Start of the token after the cursor's, or the end.
    pub open spec fn word_after(self) -> int {
        skip_white(self.input, run_end(self.input, self.cursor))
    }

    pub open spec fn without_word(self) -> TagLine {
        TagLine {
            input: self.input.take(self.word_before()) + self.input.skip(self.cursor),
            cursor: self.word_before(),
        }
    }

    pub open spec fn at(self, cursor: int) -> TagLine {
        TagLine { input: self.input, cursor }
    }

    /// `name` in place of the token under the cursor, and the cursor after the
    /// space that follows it.
    pub open spec fn completed(self, name: Seq<char>) -> TagLine {
        let start = run_start(self.input, self.cursor);
        let end = run_end(self.input, self.cursor);
        let spaced = end < self.input.len() && self.input[end] == ' ';
        TagLine {
            input: self.input.take(start) + (if spaced {
                name
            } else {
                name.push(' ')
            }) + self.input.skip(end),
            cursor: start + name.len() + 1,
        }
    }

    /// Canonical spellings of the tokens other than the one under the cursor.
    pub open spec fn others(self) -> Seq<Seq<char>> {
        let start = run_start(self.input, self.cursor);
        texts(self.input, tokens(self.input).filter(|r: (int, int)| r.0 != start)).map_values(
            |t: Seq<char>| canonical(t),
        )
    }

    /// The known tags that no other token uses.
    pub open spec fn candidates(self, known: Seq<Seq<char>>) -> Seq<Seq<char>> {
        let others = self.others();
        known.filter(|name: Seq<char>| !others.contains(name))
    }

    /// Whether `shown` is what the editor offers: every candidate while nothing
    /// is typed, else the candidates that match what is typed, best first.
    pub open spec fn offers(self, known: Seq<Seq<char>>, shown: Seq<Seq<char>>) -> bool {
        let needle = canonical(self.token());
        let candidates = self.candidates(known);
        if needle.len() == 0 {
            shown == candidates
        } else {
            ranking(candidates, needle, shown)
        }
    }
}

/// The candidates that match `needle`, each with its score.
pub open spec fn scored(candidates: Seq<Seq<char>>, needle: Seq<char>) -> Seq<(u32, Seq<char>)>
    decreases candidates.len(),
{
    if candidates.len() == 0 {
        Seq::empty()
    } else {
        let before = scored(candidates.drop_last(), needle);
        match score_of(needle, candidates.last()) {
            Some(score) => before.push((score, candidates.last())),
            None => before,
        }
    }
}

/// Higher scores first, equal scores by name.
pub open spec fn ranks_before(a: (u32, Seq<char>), b: (u32, Seq<char>)) -> bool {
    a.0 > b.0 || (a.0 == b.0 && lex_le(a.1, b.1))
}

pub open spec fn in_rank_order(order: Seq<(u32, Seq<char>)>) -> bool {
    forall|i: int, j: int|
        0 <= i < j < order.len() ==> ranks_before(#[trigger] order[i], #[trigger] order[j])
}

/// Whether `shown` names the matching candidates in rank order.
pub open spec fn ranking(
    candidates: Seq<Seq<char>>,
    needle: Seq<char>,
    shown: Seq<Seq<char>>,
) -> bool {
    exists|order: Seq<(u32, Seq<char>)>|
        {
            &&& #[trigger] in_rank_order(order)
            &&& order.to_multiset() == scored(candidates, needle).to_multiset()
            &&& shown == order.map_values(|p: (u32, Seq<char>)| p.1)
        }
}

proof fn lemma_ranks_transitive(a: (u32, Seq<char>), b: (u32, Seq<char>), c: (u32, Seq<char>))
    requires
        ranks_before(a, b),
        ranks_before(b, c),
    ensures
        ranks_before(a, c),
{
    if a.0 == b.0 && b.0 == c.0 {
        lemma_lex_transitive(a.1, b.1, c.1);
    }
}

spec fn scored_views(order: Seq<(u32, String)>) -> Seq<(u32, Seq<char>)> {
    order.map_values(|p: (u32, String)| (p.0, p.1@))
}

/// Put a scored name into its place.
fn insert_ranked(order: &mut Vec<(u32, String)>, score: u32, name: String)
    requires
        in_rank_order(scored_views(old(order)@)),
    ensures
        in_rank_order(scored_views(final(order)@)),
        scored_views(final(order)@).to_multiset() == scored_views(old(order)@).to_multiset().insert(
            (score, name@),
        ),
{
    let ghost before = scored_views(order@);
    let ghost item = (score, name@);
    let mut at: usize = 0;
    while at < order.len() && (order[at].0 > score || (order[at].0 == score && lex_leq(
        &order[at].1,
        &name,
    )))
        invariant
            at <= order@.len(),
            before == scored_views(order@),
            item == (score, name@),
            forall|j: int| 0 <= j < at ==> ranks_before(#[trigger] before[j], item),
        decreases order@.len() - at,
    {
        assert(before[at as int] == (order@[at as int].0, order@[at as int].1@));
        at += 1;
    }
    proof {
        if at < order@.len() {
            assert(before[at as int] == (order@[at as int].0, order@[at as int].1@));
            lemma_lex_total(before[at as int].1, item.1);
            assert(ranks_before(item, before[at as int]));
            assert forall|j: int| at <= j < before.len() implies ranks_before(
                item,
                #[trigger] before[j],
            ) by {
                if j > at {
                    lemma_ranks_transitive(item, before[at as int], before[j]);
                }
            }
        }
    }
    order.insert(at, (score, name));
    proof {
        let after = scored_views(order@);
        assert(after =~= before.insert(at as int, item));
        before.to_multiset_ensures();
        vstd::seq_lib::to_multiset_insert(before, at as int, item);
    }
}

fn rank(candidates: &Vec<String>, needle: &str) -> (names: Vec<String>)
    ensures
        ranking(views(candidates@), needle@, views(names@)),
{
    let mut order: Vec<(u32, String)> = Vec::new();
    let mut i: usize = 0;
    let ghost all = views(candidates@);
    assert(all.take(0) =~= Seq::empty());
    assert(scored_views(order@) =~= scored(all.take(0), needle@));
    while i < candidates.len()
        invariant
            i <= candidates@.len(),
            all == views(candidates@),
            in_rank_order(scored_views(order@)),
            scored_views(order@).to_multiset() == scored(
                all.take(i as int),
                needle@,
            ).to_multiset(),
        decreases candidates@.len() - i,
    {
        proof {
            assert(all.take(i + 1).drop_last() =~= all.take(i as int));
            assert(all.take(i + 1).last() == candidates@[i as int]@);
            scored(all.take(i as int), needle@).to_multiset_ensures();
        }
        if let Some(score) = fuzzy_score(needle, &candidates[i]) {
            insert_ranked(&mut order, score, candidates[i].clone());
        }
        i += 1;
    }
    assert(all.take(i as int) =~= all);
    let mut names: Vec<String> = Vec::new();
    let mut k: usize = 0;
    while k < order.len()
        invariant
            k <= order@.len(),
            views(names@) == scored_views(order@).take(k as int).map_values(
                |p: (u32, Seq<char>)| p.1,
            ),
        decreases order@.len() - k,
    {
        let ghost before = views(names@);
        names.push(order[k].1.clone());
        assert(views(names@) =~= before.push(order@[k as int].1@));
        assert(views(names@) =~= scored_views(order@).take(k + 1).map_values(
            |p: (u32, Seq<char>)| p.1,
        ));
        k += 1;
    }
    assert(scored_views(order@).take(k as int) =~= scored_views(order@));
    names
}

pub struct TagEditor {
    pub(crate) tx_id: i64,
    /// The raw text line; tags are its whitespace-separated tokens.
    input: String,
    /// Cursor position, in characters.
    cursor: usize,
    /// Every known tag, most-used first.
    known: Vec<String>,
    suggestions: Vec<String>,
    selected: usize,
}

impl View for TagEditor {
    type V = TagLine;

    closed spec fn view(&self) -> TagLine {
        TagLine { input: self.input@, cursor: self.cursor as int }
    }
}

/// What a key asks of the caller.
pub open spec fn tag_action(key: KeyEvent) -> TagEditorAction {
    if key.code == KeyCode::Esc {
        TagEditorAction::Cancel
    } else if key.code == KeyCode::Enter || (key.modifiers.control && key.code == KeyCode::Char(
        's',
    )) {
        TagEditorAction::Save
    } else {
        TagEditorAction::Continue
    }
}

/// The line after a key that neither saves nor cancels; `highlighted` is the
/// suggestion that Tab takes.
pub open spec fn line_after(
    line: TagLine,
    key: KeyEvent,
    highlighted: Option<Seq<char>>,
) -> TagLine {
    let ctrl = key.modifiers.control;
    match key.code {
        KeyCode::Char(c) => if ctrl && c == 'w' {
            line.without_word()
        } else {
            line.typed(c)
        },
        KeyCode::Tab => match highlighted {
            Some(name) => line.completed(name),
            None => line,
        },
        KeyCode::Left => if ctrl {
            line.at(line.word_before())
        } else if line.cursor > 0 {
            line.at(line.cursor - 1)
        } else {
            line
        },
        KeyCode::Right => if ctrl {
            line.at(line.word_after())
        } else if line.cursor < line.input.len() {
            line.at(line.cursor + 1)
        } else {
            line
        },
        KeyCode::Home => line.at(0),
        KeyCode::End => line.at(line.input.len() as int),
        KeyCode::Backspace => line.backspaced(),
        KeyCode::Delete => line.deleted(),
        _ => line,
    }
}

/// Whether a key rebuilds the suggestions: every key that changes the line or moves
/// the cursor.
pub open spec fn rebuilds(line: TagLine, key: KeyEvent, highlighted: Option<Seq<char>>) -> bool {
    let ctrl = key.modifiers.control;
    match key.code {
        KeyCode::Char(c) => if ctrl && c == 'w' {
            line.word_before() != line.cursor
        } else {
            !(is_white(c) && line.token().len() == 0)
        },
        KeyCode::Tab => highlighted is Some,
        KeyCode::Left => true,
        KeyCode::Right => true,
        KeyCode::Home => true,
        KeyCode::End => true,
        KeyCode::Backspace => line.cursor > 0,
        KeyCode::Delete => line.cursor < line.input.len(),
        _ => false,
    }
}

/// The highlighted row after a key that leaves `len` suggestions in place.
pub open spec fn row_after(selected: int, len: int, code: KeyCode) -> int {
    if len == 0 {
        selected
    } else if code == KeyCode::Down {
        if selected + 1 == len {
            0
        } else {
            selected + 1
        }
    } else if code == KeyCode::Up {
        if selected == 0 {
            len - 1
        } else {
            selected - 1
        }
    } else {
        selected
    }
}

impl TagEditor {
    /// The transaction the tags belong to.
    pub closed spec fn owner(&self) -> i64 {
        self.tx_id
    }

    /// Every known tag.
    pub closed spec fn known(&self) -> Seq<Seq<char>> {
        views(self.known@)
    }

    /// The suggestions on offer.
    pub closed spec fn offered(&self) -> Seq<Seq<char>> {
        views(self.suggestions@)
    }

    /// The highlighted row.
    pub closed spec fn row(&self) -> int {
        self.selected as int
    }

    /// The highlighted suggestion.
    pub open spec fn highlighted(&self) -> Option<Seq<char>> {
        if self.row() < self.offered().len() {
            Some(self.offered()[self.row()])
        } else {
            None
        }
    }

    /// The cursor stands in the line, the suggestions are those for the token
    /// under it, and the highlight, where there is anything to highlight, is on one
    /// of them.
    pub open spec fn valid(&self) -> bool {
        &&& self@.valid()
        &&& self@.offers(self.known(), self.offered())
        &&& 0 <= self.row()
        &&& self.row() < self.offered().len() || self.row() == 0
    }

    pub fn new(tx_id: i64, tags: &[String], known: Vec<String>) -> (editor: Self)
        ensures
            editor.valid(),
            editor.owner() == tx_id,
            editor.known() == views(known@),
            editor@.input == if tags@.len() == 0 {
                Seq::empty()
            } else {
                joined(views(tags@), seq![' ']).push(' ')
            },
            editor@.cursor == editor@.input.len(),
            editor@.offers(editor.known(), editor.offered()),
            editor.row() == 0,
    {
        // Trailing space so the first keystroke starts a new tag rather than
        // extending the last existing one.
        let mut input = String::new();
        if tags.len() > 0 {
            proof {
                reveal_strlit(" ");
                assert(" "@ =~= seq![' ']);
            }
            input = join(tags, " ");
            input.push(' ');
        }
        let cursor: usize = char_len(&input);
        let mut editor = Self {
            tx_id,
            input,
            cursor,
            known,
            suggestions: Vec::new(),
            selected: 0,
        };
        editor.refresh_suggestions();
        editor
    }

    pub fn tx_id(&self) -> (id: i64)
        ensures
            id == self.owner(),
    {
        self.tx_id
    }

    /// The canonicalised, deduplicated tag set as currently typed. Invalid
    /// tokens are dropped — [`Self::invalid_tokens`] is what surfaces them to
    /// the user while typing.
    pub fn tags(&self) -> (tags: Vec<String>)
        ensures
            views(tags@) == tag_set(texts(self@.input, tokens(self@.input))),
    {
        let chars = to_chars(&self.input);
        let ranges = token_ranges(&chars);
        let ghost words = texts(chars@, tokens(chars@));
        let mut tags: Vec<String> = Vec::new();
        let mut i: usize = 0;
        assert(words.take(0) =~= Seq::empty());
        assert(views(tags@) =~= tag_set(words.take(0)));
        while i < ranges.len()
            invariant
                i <= ranges@.len(),
                chars@ == self.input@,
                int_ranges(ranges@) == tokens(chars@),
                within(ranges@, chars@.len() as int),
                words == texts(chars@, tokens(chars@)),
                views(tags@) == tag_set(words.take(i as int)),
            decreases ranges@.len() - i,
        {
            let token = self.input.as_str().substring_char(ranges[i].0, ranges[i].1);
            proof {
                assert(int_ranges(ranges@)[i as int] == (
                    ranges@[i as int].0 as int,
                    ranges@[i as int].1 as int,
                ));
                assert(words[i as int] == token@);
                assert(words.take(i + 1).drop_last() =~= words.take(i as int));
                assert(words.take(i + 1).last() == token@);
            }
            if let Some(tag) = validate_tag(token) {
                if !contains(&tags, &tag) {
                    let ghost before = views(tags@);
                    tags.push(tag);
                    assert(views(tags@) =~= before.push(tag@));
                }
            }
            i += 1;
        }
        assert(words.take(i as int) =~= words);
        tags
    }

    /// Tokens that aren't usable tags, so the view can render them red.
    pub fn invalid_tokens(&self) -> (words: Vec<&str>)
        ensures
            words@.map_values(|w: &str| w@) == texts(self@.input, tokens(self@.input)).filter(
                |t: Seq<char>| !usable(canonical(t)),
            ),
    {
        let chars = to_chars(&self.input);
        let ranges = token_ranges(&chars);
        let ghost all = texts(chars@, tokens(chars@));
        let ghost bad = |t: Seq<char>| !usable(canonical(t));
        let mut words: Vec<&str> = Vec::new();
        let mut i: usize = 0;
        reveal(Seq::filter);
        assert(words@.map_values(|w: &str| w@) =~= all.take(0).filter(bad));
        while i < ranges.len()
            invariant
                i <= ranges@.len(),
                chars@ == self.input@,
                int_ranges(ranges@) == tokens(chars@),
                within(ranges@, chars@.len() as int),
                all == texts(chars@, tokens(chars@)),
                bad == (|t: Seq<char>| !usable(canonical(t))),
                words@.map_values(|w: &str| w@) == all.take(i as int).filter(bad),
            decreases ranges@.len() - i,
        {
            let token = self.input.as_str().substring_char(ranges[i].0, ranges[i].1);
            proof {
                reveal(Seq::filter);
                assert(int_ranges(ranges@)[i as int] == (
                    ranges@[i as int].0 as int,
                    ranges@[i as int].1 as int,
                ));
                assert(all[i as int] == token@);
                assert(all.take(i + 1).drop_last() =~= all.take(i as int));
                assert(all.take(i + 1).last() == token@);
            }
            let ghost before = words@.map_values(|w: &str| w@);
            if validate_tag(token).is_none() {
                words.push(token);
                assert(words@.map_values(|w: &str| w@) =~= before.push(token@));
            }
            i += 1;
        }
        assert(all.take(i as int) =~= all);
        words
    }

    pub fn input(&self) -> (input: &str)
        ensures
            input@ == self@.input,
    {
        &self.input
    }

    pub fn cursor(&self) -> (cursor: usize)
        ensures
            cursor == self@.cursor,
    {
        self.cursor
    }

    pub fn selected(&self) -> (selected: usize)
        ensures
            selected == self.row(),
    {
        self.selected
    }

    /// The suggestion list for the token under the cursor, each flagged with
    /// whether it is already applied. With an empty token this is every known
    /// tag, so the editor doubles as the tag browser.
    pub fn suggestions(&self) -> (rows: Vec<TagSuggestion>)
        ensures
            rows@.len() == self.offered().len(),
            forall|i: int|
                0 <= i < rows@.len() ==> {
                    &&& (#[trigger] rows@[i]).name@ == self.offered()[i]
                    &&& rows@[i].applied == tag_set(
                        texts(self@.input, tokens(self@.input)),
                    ).contains(self.offered()[i])
                },
    {
        let applied = self.tags();
        let mut rows: Vec<TagSuggestion> = Vec::new();
        let mut i: usize = 0;
        while i < self.suggestions.len()
            invariant
                i <= self.suggestions@.len(),
                rows@.len() == i,
                views(applied@) == tag_set(texts(self@.input, tokens(self@.input))),
                forall|k: int|
                    0 <= k < i ==> {
                        &&& (#[trigger] rows@[k]).name@ == self.offered()[k]
                        &&& rows@[k].applied == tag_set(
                            texts(self@.input, tokens(self@.input)),
                        ).contains(self.offered()[k])
                    },
            decreases self.suggestions@.len() - i,
        {
            let name = self.suggestions[i].clone();
            let used = contains(&applied, &name);
            rows.push(TagSuggestion { name, applied: used });
            i += 1;
        }
        rows
    }

    pub fn handle_key(&mut self, key: &KeyEvent) -> (action: TagEditorAction)
        requires
            old(self).valid(),
        ensures
            action == tag_action(*key),
            action != TagEditorAction::Continue ==> *final(self) == *old(self),
            action == TagEditorAction::Continue ==> {
                let before = old(self)@;
                let chosen = old(self).highlighted();
                &&& final(self)@ == line_after(before, *key, chosen)
                &&& if rebuilds(before, *key, chosen) {
                    final(self)@.offers(final(self).known(), final(self).offered())
                        && final(self).row() == 0
                } else {
                    final(self).offered() == old(self).offered() && final(self).row() == row_after(
                        old(self).row(),
                        old(self).offered().len() as int,
                        key.code,
                    )
                }
            },
            final(self).valid(),
            final(self).owner() == old(self).owner(),
            final(self).known() == old(self).known(),
    {
        let ctrl = key.modifiers.control;
        match key.code {
            KeyCode::Esc => return TagEditorAction::Cancel,
            KeyCode::Enter => return TagEditorAction::Save,
            KeyCode::Char('s') if ctrl => return TagEditorAction::Save,
            KeyCode::Char('w') if ctrl => self.delete_word(),
            KeyCode::Tab => self.accept_suggestion(),
            KeyCode::Down => self.select_next(),
            KeyCode::Up => self.select_prev(),
            KeyCode::Left if ctrl => {
                let at: usize = self.prev_word_boundary();
                self.cursor = at;
                self.refresh_suggestions();
            },
            KeyCode::Right if ctrl => {
                let at: usize = self.next_word_boundary();
                self.cursor = at;
                self.refresh_suggestions();
            },
            KeyCode::Left => {
                if self.cursor > 0 {
                    self.cursor -= 1;
                }
                self.refresh_suggestions();
            },
            KeyCode::Right => {
                if self.cursor < self.len() {
                    self.cursor += 1;
                }
                self.refresh_suggestions();
            },
            KeyCode::Home => {
                self.cursor = 0;
                self.refresh_suggestions();
            },
            KeyCode::End => {
                let end: usize = self.len();
                self.cursor = end;
                self.refresh_suggestions();
            },
            KeyCode::Backspace => self.backspace(),
            KeyCode::Delete => self.delete(),
            KeyCode::Char(c) => self.insert_char(c),
            _ => {},
        }
        TagEditorAction::Continue
    }

    fn len(&self) -> (n: usize)
        ensures
            n == self@.input.len(),
    {
        char_len(&self.input)
    }

    /// Character range of the whitespace-separated token containing the cursor.
    /// A cursor sitting on whitespace yields an empty range at that point — a
    /// new, empty token.
    fn token_range(&self) -> (range: (usize, usize))
        requires
            self@.valid(),
        ensures
            range.0 == run_start(self@.input, self@.cursor),
            range.1 == run_end(self@.input, self@.cursor),
            range.0 <= self@.cursor <= range.1 <= self@.input.len(),
    {
        let chars = to_chars(&self.input);
        (find_run_start(&chars, self.cursor), find_white(&chars, self.cursor))
    }

    fn token(&self) -> (token: String)
        requires
            self@.valid(),
        ensures
            token@ == self@.token(),
    {
        let (start, end): (usize, usize) = self.token_range();
        self.input.as_str().substring_char(start, end).to_owned()
    }

    fn insert_char(&mut self, c: char)
        requires
            old(self).valid(),
        ensures
            final(self).valid(),
            final(self)@ == old(self)@.typed(c),
            is_white(c) && old(self)@.token().len() == 0 ==> *final(self) == *old(self),
            !(is_white(c) && old(self)@.token().len() == 0) ==> final(self)@.offers(
                final(self).known(),
                final(self).offered(),
            ) && final(self).row() == 0,
            final(self).owner() == old(self).owner(),
            final(self).known() == old(self).known(),
    {
        // Collapse a run of spaces: two adjacent separators would just be an
        // empty token.
        if is_whitespace(c) {
            if self.token().as_str().is_empty() {
                return;
            }
            self.insert_one(' ');
        } else {
            self.insert_one(c);
        }
        self.refresh_suggestions();
    }

    fn insert_one(&mut self, c: char)
        requires
            old(self).valid(),
        ensures
            final(self)@.valid(),
            final(self)@ == old(self)@.inserted(seq![c]),
            final(self).owner() == old(self).owner(),
            final(self).known() == old(self).known(),
            final(self).offered() == old(self).offered(),
            final(self).row() == old(self).row(),
    {
        let input = insert_char(&self.input, self.cursor, c);
        let n: usize = char_len(&input);
        assert(self.cursor < n);
        assert(input@ =~= self.input@.take(self.cursor as int) + seq![c] + self.input@.skip(
            self.cursor as int,
        ));
        self.input = input;
        self.cursor += 1;
    }

    fn backspace(&mut self)
        requires
            old(self).valid(),
        ensures
            final(self).valid(),
            final(self)@ == old(self)@.backspaced(),
            old(self)@.cursor == 0 ==> *final(self) == *old(self),
            old(self)@.cursor > 0 ==> final(self)@.offers(
                final(self).known(),
                final(self).offered(),
            ) && final(self).row() == 0,
            final(self).owner() == old(self).owner(),
            final(self).known() == old(self).known(),
    {
        if self.cursor == 0 {
            return;
        }
        self.input = remove_char(&self.input, self.cursor - 1);
        self.cursor -= 1;
        self.refresh_suggestions();
    }

    fn delete(&mut self)
        requires
            old(self).valid(),
        ensures
            final(self).valid(),
            final(self)@ == old(self)@.deleted(),
            old(self)@.cursor >= old(self)@.input.len() ==> *final(self) == *old(self),
            old(self)@.cursor < old(self)@.input.len() ==> final(self)@.offers(
                final(self).known(),
                final(self).offered(),
            ) && final(self).row() == 0,
            final(self).owner() == old(self).owner(),
            final(self).known() == old(self).known(),
    {
        if self.cursor >= self.len() {
            return;
        }
        self.input = remove_char(&self.input, self.cursor);
        self.refresh_suggestions();
    }

    /// Delete back to the start of the current (or previous) token — the quick
    /// way to drop a whole tag.
    fn delete_word(&mut self)
        requires
            old(self).valid(),
        ensures
            final(self).valid(),
            final(self)@ == old(self)@.without_word(),
            old(self)@.word_before() == old(self)@.cursor ==> *final(self) == *old(self),
            old(self)@.word_before() != old(self)@.cursor ==> final(self)@.offers(
                final(self).known(),
                final(self).offered(),
            ) && final(self).row() == 0,
            final(self).owner() == old(self).owner(),
            final(self).known() == old(self).known(),
    {
        let start: usize = self.prev_word_boundary();
        if start == self.cursor {
            assert(self@ =~= self@.without_word());
            return;
        }
        proof {
            reveal_strlit("");
        }
        let ghost kept = self.input@.take(start as int) + self.input@.skip(self.cursor as int);
        self.input = replace_range(&self.input, start, self.cursor, "");
        assert(self.input@ =~= kept);
        self.cursor = start;
        self.refresh_suggestions();
    }

    fn prev_word_boundary(&self) -> (at: usize)
        requires
            self@.valid(),
        ensures
            at == self@.word_before(),
            at <= self@.cursor,
    {
        let chars = to_chars(&self.input);
        let end: usize = find_white_start(&chars, self.cursor);
        find_run_start(&chars, end)
    }

    fn next_word_boundary(&self) -> (at: usize)
        requires
            self@.valid(),
        ensures
            at == self@.word_after(),
            at <= self@.input.len(),
    {
        let chars = to_chars(&self.input);
        let end: usize = find_white(&chars, self.cursor);
        find_non_white(&chars, end)
    }

    /// Replace the token under the cursor with the highlighted suggestion and
    /// leave the cursor after a following space, ready for the next tag.
    fn accept_suggestion(&mut self)
        requires
            old(self).valid(),
        ensures
            final(self).valid(),
            old(self).highlighted() is None ==> *final(self) == *old(self),
            old(self).highlighted() matches Some(name) ==> final(self)@ == old(self)@.completed(
                name,
            ) && final(self)@.offers(final(self).known(), final(self).offered())
                        && final(self).row() == 0,
            final(self).owner() == old(self).owner(),
            final(self).known() == old(self).known(),
    {
        if self.selected >= self.suggestions.len() {
            return;
        }
        let mut name = self.suggestions[self.selected].clone();
        let ghost chosen = name@;
        let (start, end): (usize, usize) = self.token_range();
        let spaced = end < self.len() && self.input.as_str().get_char(end) == ' ';
        let named: usize = char_len(&name);
        if !spaced {
            name.push(' ');
        }
        let input = replace_range(&self.input, start, end, &name);
        let n: usize = char_len(&input);
        assert(start + named + 1 <= n);
        self.input = input;
        self.cursor = start + named + 1;
        self.refresh_suggestions();
    }

    fn select_next(&mut self)
        requires
            old(self).valid(),
        ensures
            final(self).valid(),
            final(self)@ == old(self)@,
            final(self).row() == row_after(
                old(self).row(),
                old(self).offered().len() as int,
                KeyCode::Down,
            ),
            final(self).offered() == old(self).offered(),
            final(self).owner() == old(self).owner(),
            final(self).known() == old(self).known(),
    {
        if self.suggestions.len() > 0 {
            self.selected = if self.selected == self.suggestions.len() - 1 {
                0
            } else {
                self.selected + 1
            };
        }
    }

    fn select_prev(&mut self)
        requires
            old(self).valid(),
        ensures
            final(self).valid(),
            final(self)@ == old(self)@,
            final(self).row() == row_after(
                old(self).row(),
                old(self).offered().len() as int,
                KeyCode::Up,
            ),
            final(self).offered() == old(self).offered(),
            final(self).owner() == old(self).owner(),
            final(self).known() == old(self).known(),
    {
        if self.suggestions.len() > 0 {
            self.selected = if self.selected == 0 {
                self.suggestions.len() - 1
            } else {
                self.selected - 1
            };
        }
    }

    /// Canonical spellings of the tokens other than the one under the cursor.
    fn other_tokens(&self) -> (others: Vec<String>)
        requires
            self@.valid(),
        ensures
            views(others@) == self@.others(),
    {
        let (start, _): (usize, usize) = self.token_range();
        let chars = to_chars(&self.input);
        let ranges = token_ranges(&chars);
        let ghost all = tokens(chars@);
        let ghost keep = |r: (int, int)| r.0 != start as int;
        let ghost spell = |t: Seq<char>| canonical(t);
        let mut others: Vec<String> = Vec::new();
        let mut i: usize = 0;
        reveal(Seq::filter);
        assert(views(others@) =~= texts(chars@, all.take(0).filter(keep)).map_values(spell));
        while i < ranges.len()
            invariant
                i <= ranges@.len(),
                chars@ == self.input@,
                int_ranges(ranges@) == tokens(chars@),
                within(ranges@, chars@.len() as int),
                all == tokens(chars@),
                keep == (|r: (int, int)| r.0 != start as int),
                spell == (|t: Seq<char>| canonical(t)),
                views(others@) == texts(chars@, all.take(i as int).filter(keep)).map_values(spell),
            decreases ranges@.len() - i,
        {
            let token = self.input.as_str().substring_char(ranges[i].0, ranges[i].1);
            proof {
                reveal(Seq::filter);
                assert(int_ranges(ranges@)[i as int] == (
                    ranges@[i as int].0 as int,
                    ranges@[i as int].1 as int,
                ));
                assert(all.take(i + 1).drop_last() =~= all.take(i as int));
                assert(all.take(i + 1).last() == all[i as int]);
            }
            if ranges[i].0 != start {
                let ghost before = views(others@);
                others.push(normalise_tag(token));
                assert(views(others@) =~= before.push(canonical(token@)));
                assert(views(others@) =~= texts(chars@, all.take(i + 1).filter(keep)).map_values(
                    spell,
                ));
            }
            i += 1;
        }
        assert(all.take(i as int) =~= all);
        others
    }

    /// Rank known tags against the token under the cursor. Tags already used in
    /// *other* tokens are dropped, so the list never offers a duplicate; an
    /// empty token shows everything, in usage order.
    fn refresh_suggestions(&mut self)
        requires
            old(self)@.valid(),
        ensures
            final(self).valid(),
            final(self)@ == old(self)@,
            final(self)@.offers(final(self).known(), final(self).offered()),
            final(self).row() == 0,
            final(self).owner() == old(self).owner(),
            final(self).known() == old(self).known(),
    {
        let needle = normalise_tag(&self.token());
        let others = self.other_tokens();
        let ghost names = views(self.known@);
        let ghost keep = |name: Seq<char>| !views(others@).contains(name);
        let mut candidates: Vec<String> = Vec::new();
        let mut i: usize = 0;
        reveal(Seq::filter);
        assert(views(candidates@) =~= names.take(0).filter(keep));
        while i < self.known.len()
            invariant
                *self == *old(self),
                i <= self.known@.len(),
                names == views(self.known@),
                keep == (|name: Seq<char>| !views(others@).contains(name)),
                views(candidates@) == names.take(i as int).filter(keep),
            decreases self.known@.len() - i,
        {
            proof {
                reveal(Seq::filter);
                assert(names.take(i + 1).drop_last() =~= names.take(i as int));
                assert(names.take(i + 1).last() == self.known@[i as int]@);
            }
            if !contains(&others, &self.known[i]) {
                let ghost before = views(candidates@);
                candidates.push(self.known[i].clone());
                assert(views(candidates@) =~= before.push(self.known@[i as int]@));
            }
            i += 1;
        }
        assert(names.take(i as int) =~= names);
        assert(views(candidates@) == self@.candidates(names));
        self.suggestions = if needle.as_str().is_empty() {
            candidates
        } else {
            rank(&candidates, &needle)
        };
        self.selected = 0;
    }
}

/// The tag set holds usable tags only, and none twice.
pub proof fn tag_set_is_clean(words: Seq<Seq<char>>)
    ensures
        tag_set(words).no_duplicates(),
        forall|i: int| 0 <= i < tag_set(words).len() ==> usable(#[trigger] tag_set(words)[i]),
    decreases words.len(),
{
    if words.len() > 0 {
        let before = tag_set(words.drop_last());
        let tag = canonical(words.last());
        tag_set_is_clean(words.drop_last());
        if usable(tag) && !before.contains(tag) {
            let all = before.push(tag);
            assert forall|i: int, j: int|
                0 <= i < all.len() && 0 <= j < all.len() && i != j implies all[i] != all[j] by {
                if i < before.len() {
                    assert(before.contains(before[i]));
                }
                if j < before.len() {
                    assert(before.contains(before[j]));
                }
            }
        }
    }
}

/// A word spells a tag of the set exactly if its canonical spelling is usable.
pub proof fn tag_set_is_complete(words: Seq<Seq<char>>, tag: Seq<char>)
    ensures
        tag_set(words).contains(tag) == (usable(tag) && exists|i: int|
            0 <= i < words.len() && canonical(#[trigger] words[i]) == tag),
    decreases words.len(),
{
    if words.len() > 0 {
        let before = tag_set(words.drop_last());
        let last = canonical(words.last());
        tag_set_is_complete(words.drop_last(), tag);
        if usable(last) && !before.contains(last) {
            let all = before.push(last);
            if before.contains(tag) {
                let i = choose|i: int| 0 <= i < before.len() && before[i] == tag;
                assert(all[i] == tag);
            }
            assert(all.last() == last);
        }
        if exists|i: int| 0 <= i < words.len() && canonical(#[trigger] words[i]) == tag {
            let i = choose|i: int| 0 <= i < words.len() && canonical(#[trigger] words[i]) == tag;
            if i < words.len() - 1 {
                assert(words.drop_last()[i] == words[i]);
            }
        }
        if exists|i: int|
            0 <= i < words.len() - 1 && canonical(#[trigger] words.drop_last()[i]) == tag {
            let i = choose|i: int|
                0 <= i < words.len() - 1 && canonical(#[trigger] words.drop_last()[i]) == tag;
            assert(words[i] == words.drop_last()[i]);
        }
    }
}

proof fn lemma_scored_are_candidates(
    candidates: Seq<Seq<char>>,
    needle: Seq<char>,
    item: (u32, Seq<char>),
)
    requires
        scored(candidates, needle).contains(item),
    ensures
        candidates.contains(item.1),
        score_of(needle, item.1) == Some(item.0),
    decreases candidates.len(),
{
    let all = scored(candidates, needle);
    if candidates.len() > 0 {
        let rest = candidates.drop_last();
        let before = scored(rest, needle);
        let i = choose|i: int| 0 <= i < all.len() && all[i] == item;
        if i < before.len() {
            assert(before[i] == item);
            lemma_scored_are_candidates(rest, needle, item);
            let j = choose|j: int| 0 <= j < rest.len() && rest[j] == item.1;
            assert(candidates[j] == item.1);
        } else {
            assert(candidates[candidates.len() - 1] == item.1);
        }
    }
}

/// The editor offers known tags only, and none that another token already uses.
pub proof fn offers_no_used_tag(line: TagLine, known: Seq<Seq<char>>, shown: Seq<Seq<char>>, i: int)
    requires
        line.offers(known, shown),
        0 <= i < shown.len(),
    ensures
        known.contains(shown[i]),
        !line.others().contains(shown[i]),
{
    let needle = canonical(line.token());
    let others = line.others();
    let keep = |name: Seq<char>| !others.contains(name);
    let candidates = line.candidates(known);
    if needle.len() == 0 {
        assert(candidates.contains(shown[i]));
    } else {
        let order = choose|order: Seq<(u32, Seq<char>)>|
            {
                &&& #[trigger] in_rank_order(order)
                &&& order.to_multiset() == scored(candidates, needle).to_multiset()
                &&& shown == order.map_values(|p: (u32, Seq<char>)| p.1)
            };
        let all = scored(candidates, needle);
        vstd::seq_lib::to_multiset_contains(order, order[i]);
        vstd::seq_lib::to_multiset_contains(all, order[i]);
        lemma_scored_are_candidates(candidates, needle, order[i]);
    }
    known.lemma_filter_contains_rev(keep, shown[i]);
    let j = choose|j: int| 0 <= j < candidates.len() && candidates[j] == shown[i];
    known.lemma_filter_pred(keep, j);
}

proof fn lemma_tokens_of_padded(s: Seq<char>, at: int)
    requires
        0 <= at <= s.len(),
    ensures
        tokens_from(s.push(' '), at) == tokens_from(s, at),
    decreases s.len() - at,
{
    let padded = s.push(' ');
    lemma_skip_white_of_padded(s, at);
    let start = skip_white(s, at);
    lemma_skip_white(s, at);
    if start < s.len() {
        lemma_run_end_of_padded(s, start);
        lemma_run_end(s, start);
        lemma_tokens_of_padded(s, run_end(s, start));
    }
}

proof fn lemma_skip_white_of_padded(s: Seq<char>, at: int)
    requires
        0 <= at <= s.len(),
    ensures
        skip_white(s, at) < s.len() ==> skip_white(s.push(' '), at) == skip_white(s, at),
        skip_white(s, at) == s.len() ==> skip_white(s.push(' '), at) == s.len() + 1,
    decreases s.len() - at,
{
    let padded = s.push(' ');
    if at < s.len() && is_white(s[at]) {
        lemma_skip_white_of_padded(s, at + 1);
    } else if at == s.len() {
        assert(padded[at] == ' ');
        assert(skip_white(padded, at) == skip_white(padded, at + 1));
    }
}

proof fn lemma_run_end_of_padded(s: Seq<char>, at: int)
    requires
        0 <= at <= s.len(),
    ensures
        run_end(s.push(' '), at) == run_end(s, at),
    decreases s.len() - at,
{
    if at < s.len() && !is_white(s[at]) {
        lemma_run_end_of_padded(s, at + 1);
    }
}

/// A space at the end of the line commits what is typed exactly as typed: the
/// tokens stay the same.
pub proof fn space_commits_the_literal_token(line: TagLine)
    requires
        line.valid(),
        line.cursor == line.input.len(),
    ensures
        texts(line.typed(' ').input, tokens(line.typed(' ').input)) == texts(
            line.input,
            tokens(line.input),
        ),
{
    let next = line.typed(' ');
    let s = line.input;
    if next.input != s {
        assert(next.input =~= s.push(' '));
        lemma_tokens_of_padded(s, 0);
        lemma_tokens_within(s, 0);
        let ranges = tokens(s);
        assert forall|i: int| 0 <= i < ranges.len() implies s.push(' ').subrange(
            ranges[i].0,
            ranges[i].1,
        ) == s.subrange(ranges[i].0, ranges[i].1) by {
            assert(s.push(' ').subrange(ranges[i].0, ranges[i].1) =~= s.subrange(
                ranges[i].0,
                ranges[i].1,
            ));
        }
        assert(texts(next.input, ranges) =~= texts(s, ranges));
    }
}

proof fn lemma_tokens_within(s: Seq<char>, at: int)
    requires
        0 <= at <= s.len(),
    ensures
        forall|i: int|
            0 <= i < tokens_from(s, at).len() ==> 0 <= (#[trigger] tokens_from(s, at)[i]).0
                <= tokens_from(s, at)[i].1 <= s.len(),
    decreases s.len() - at,
{
    lemma_skip_white(s, at);
    let start = skip_white(s, at);
    if start < s.len() {
        lemma_run_end(s, start);
        let end = run_end(s, start);
        lemma_tokens_within(s, end);
        let all = tokens_from(s, at);
        let rest = tokens_from(s, end);
        assert forall|i: int| 0 <= i < all.len() implies 0 <= (#[trigger] all[i]).0 <= all[i].1
            <= s.len() by {
            if i > 0 {
                assert(all[i] == rest[i - 1]);
            }
        }
    }
}

} // verus!
