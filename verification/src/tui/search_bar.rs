//! The search bar: a text input whose keys depend on what the cursor is in.
//!
//! - `:` after a filter name or alias makes it a filter, moves it before the
//!   full-text terms, or jumps to the filter if the query already has it.
//! - `/` outside a filter opens a regex: `//` with the cursor between.
//! - Deleting a regex delimiter removes the whole regex.
//! - `~` at a word boundary leaves for fuzzy search.
//!
//! The bar edits text; parsing the text is up to its owner, who hands back the
//! parse ([`SearchBar::reparse`]) and the completions it asks for
//! ([`SearchBar::completion_request`], [`SearchBar::update_autocomplete`]).

use vstd::prelude::*;
use vstd::string::*;

use super::input::{edited_cursor, edited_text, InputRequest, TextInput};
use crate::find::{find_first, first_index};
use crate::search::{CursorContext, ParsedQuery, QueryPart, Span};
use crate::text::{
    char_len, is_white, is_whitespace, run_start, same, to_chars, find_run_start, trim_end,
    trim_start, trimmed_end, trimmed_start,
};

verus! {

/// State for filter autocomplete popup.
#[derive(Debug)]
pub struct AutocompleteState {
    /// Filter name that triggered autocomplete.
    pub filter_name: String,
    /// List of suggestions.
    pub suggestions: Vec<String>,
    /// Currently selected index.
    pub selected: usize,
    /// Character offset within the search input where popup should anchor.
    pub anchor_offset: usize,
}

/// Result of handling a key in the search bar.
#[derive(Debug, Clone, Copy, PartialEq, Eq, Structural)]
pub enum KeyResult {
    /// Key was handled, search bar consumed it.
    Handled,
    /// Key was not handled, pass to parent.
    NotHandled,
    /// Transition to fuzzy search triggered.
    TransitionToFuzzy,
}

/// A filter value to complete.
pub struct CompletionRequest {
    /// The filter.
    pub name: String,
    /// Its value as typed.
    pub value: String,
    /// Cursor offset in the value.
    pub offset: usize,
}

/// What a word before `:` stands for.
pub struct ColonAnswer {
    /// The canonical name of the filter.
    pub canonical: String,
    /// The parse of the text without the word, see
    /// [`SearchBar::without_word`].
    pub cleaned: ParsedQuery,
}

/// `i`, or `len` where that is less.
pub open spec fn at_most(i: int, len: int) -> int {
    if i <= len {
        i
    } else {
        len
    }
}

/// The characters up to position `i`.
pub open spec fn head(s: Seq<char>, i: int) -> Seq<char> {
    s.take(at_most(i, s.len() as int))
}

/// The characters from position `i` on.
pub open spec fn tail(s: Seq<char>, i: int) -> Seq<char> {
    s.skip(at_most(i, s.len() as int))
}

/// The two texts, with a space between them where neither is empty.
pub open spec fn spaced(a: Seq<char>, b: Seq<char>) -> Seq<char> {
    if a.len() == 0 {
        b
    } else if b.len() == 0 {
        a
    } else {
        a + seq![' '] + b
    }
}

/// The text without the word before the cursor and the whitespace around it.
pub open spec fn wordless(s: Seq<char>, cursor: int) -> Seq<char> {
    spaced(trimmed_end(s.take(run_start(s, cursor))), trimmed_start(s.skip(cursor)))
}

pub open spec fn is_filter(part: QueryPart, canonical: Seq<char>) -> bool {
    part matches QueryPart::Filter { name, .. } && name@ == canonical
}

pub open spec fn is_regex(part: QueryPart) -> bool {
    part is Regex
}

/// Position of the first filter with the name.
pub open spec fn filter_at(parts: Seq<QueryPart>, canonical: Seq<char>) -> Option<int> {
    first_index(parts, |p: QueryPart| is_filter(p, canonical))
}

/// Where the value of the first filter with the name ends; zero without one.
pub open spec fn value_end(parts: Seq<QueryPart>, canonical: Seq<char>) -> int {
    match filter_at(parts, canonical) {
        Some(i) => parts[i]->Filter_value_span.end as int,
        None => 0,
    }
}

/// Where the full-text terms begin.
pub open spec fn fts_start(parts: Seq<QueryPart>) -> Option<int> {
    match first_index(parts, |p: QueryPart| p is Fts) {
        Some(i) => Some(parts[i]->Fts_span.start as int),
        None => None,
    }
}

/// `canonical:` put into the text before its full-text terms, and the position
/// after the colon.
pub open spec fn filter_placed(
    cleaned: Seq<char>,
    canonical: Seq<char>,
    fts: Option<int>,
) -> (Seq<char>, int) {
    let filter = canonical.push(':');
    match fts {
        Some(pos) => {
            let prefix = trimmed_end(head(cleaned, pos));
            let suffix = trimmed_start(tail(cleaned, pos));
            if prefix.len() == 0 {
                (filter + seq![' '] + suffix, filter.len() as int)
            } else {
                (
                    prefix + seq![' '] + filter + seq![' '] + suffix,
                    (prefix.len() + 1 + filter.len()) as int,
                )
            }
        },
        None => if cleaned.len() == 0 {
            (filter, filter.len() as int)
        } else {
            (cleaned + seq![' '] + filter, (cleaned.len() + 1 + filter.len()) as int)
        },
    }
}

/// Whether `:` and `/` have their special meaning: outside filters and regexes.
pub open spec fn in_plain_text(context: CursorContext) -> bool {
    context is Fts || context is Whitespace
}

/// Whether a deletion at the cursor reaches into the regex.
pub open spec fn deletes_in(part: QueryPart, cursor: int, backwards: bool) -> bool {
    part matches QueryPart::Regex { span, .. } && if backwards {
        span.start < cursor <= span.end
    } else {
        span.start <= cursor < span.end
    }
}

/// Whether a deletion at the cursor hits a delimiter of the regex.
pub open spec fn deletes_delimiter(span: Span, cursor: int, backwards: bool) -> bool {
    if backwards {
        cursor == span.start + 1 || cursor == span.end
    } else {
        cursor == span.start || cursor == span.end - 1
    }
}

/// The text without a range, and one space where it separated two words.
pub open spec fn cut_out(s: Seq<char>, span: Span) -> Seq<char> {
    let before = head(s, span.start as int);
    let rest = tail(s, span.end as int);
    let after = if rest.len() > 0 && rest[0] == ' ' {
        rest.drop_first()
    } else {
        rest
    };
    if before.len() > 0 && after.len() > 0 && before.last() != ' ' {
        before.push(' ') + after
    } else {
        before + after
    }
}

/// Text, cursor and result after an input, where it has a special meaning.
#[verifier::opaque]
pub open spec fn special(
    s: Seq<char>,
    cursor: int,
    parts: Seq<QueryPart>,
    context: CursorContext,
    req: InputRequest,
    answer: Option<ColonAnswer>,
) -> Option<(Seq<char>, int, KeyResult)> {
    match req {
        InputRequest::InsertChar(':') => {
            if in_plain_text(context) && run_start(s, cursor) < cursor {
                match answer {
                    Some(a) => {
                        let cleaned = wordless(s, cursor);
                        if filter_at(parts, a.canonical@) is Some {
                            let end = value_end(a.cleaned.parts@, a.canonical@);
                            Some((cleaned, at_most(end, cleaned.len() as int), KeyResult::Handled))
                        } else {
                            let placed = filter_placed(
                                cleaned,
                                a.canonical@,
                                fts_start(a.cleaned.parts@),
                            );
                            Some((placed.0, placed.1, KeyResult::Handled))
                        }
                    },
                    None => None,
                }
            } else {
                None
            }
        },
        InputRequest::InsertChar('/') => {
            if !in_plain_text(context) {
                None
            } else if first_index(parts, |p: QueryPart| is_regex(p)) is Some {
                match first_index(
                    parts,
                    |p: QueryPart|
                        is_regex(p) && p.place().start <= cursor && cursor < p.place().end,
                ) {
                    Some(i) => Some(
                        (
                            s,
                            at_most(parts[i].place().end as int, s.len() as int),
                            KeyResult::Handled,
                        ),
                    ),
                    None => None,
                }
            } else {
                Some(
                    (
                        s.take(cursor) + seq!['/', '/'] + s.skip(cursor),
                        cursor + 1,
                        KeyResult::Handled,
                    ),
                )
            }
        },
        InputRequest::InsertChar('~') => {
            if cursor == 0 || is_white(s[cursor - 1]) {
                Some((s, cursor, KeyResult::TransitionToFuzzy))
            } else {
                None
            }
        },
        InputRequest::DeletePrevChar | InputRequest::DeleteNextChar => {
            let backwards = req == InputRequest::DeletePrevChar;
            match first_index(parts, |p: QueryPart| deletes_in(p, cursor, backwards)) {
                Some(i) => {
                    let span = parts[i].place();
                    if deletes_delimiter(span, cursor, backwards) {
                        let text = cut_out(s, span);
                        Some(
                            (
                                text,
                                at_most(span.start as int, text.len() as int),
                                KeyResult::Handled,
                            ),
                        )
                    } else {
                        None
                    }
                },
                None => None,
            }
        },
        _ => None,
    }
}

/// Text, cursor and result after an input.
pub open spec fn after_input(
    s: Seq<char>,
    cursor: int,
    parts: Seq<QueryPart>,
    context: CursorContext,
    req: InputRequest,
    answer: Option<ColonAnswer>,
) -> (Seq<char>, int, KeyResult) {
    match special(s, cursor, parts, context, req, answer) {
        Some(r) => r,
        None => (edited_text(s, cursor, req), edited_cursor(s, cursor, req), KeyResult::Handled),
    }
}

/// A search bar component with context-aware key handling.
pub struct SearchBar {
    /// The text input state.
    input: TextInput,
    /// The parsed query.
    parsed: ParsedQuery,
    /// Current cursor context.
    context: CursorContext,
    /// Autocomplete popup state.
    autocomplete: Option<AutocompleteState>,
}

impl SearchBar {
    pub closed spec fn text(&self) -> Seq<char> {
        self.input.text()
    }

    pub closed spec fn at(&self) -> int {
        self.input.at()
    }

    pub closed spec fn query(&self) -> ParsedQuery {
        self.parsed
    }

    pub closed spec fn in_context(&self) -> CursorContext {
        self.context
    }

    pub closed spec fn popup(&self) -> Option<AutocompleteState> {
        self.autocomplete
    }

    /// Create an empty search bar.
    pub fn new() -> (bar: Self)
        ensures
            bar.text() == Seq::<char>::empty(),
            bar.at() == 0,
            bar.query().parts@ == Seq::<QueryPart>::empty(),
            bar.in_context() is Whitespace,
            bar.popup() is None,
    {
        SearchBar {
            input: TextInput::default(),
            parsed: ParsedQuery::empty(),
            context: CursorContext::Whitespace,
            autocomplete: None,
        }
    }

    /// Get the current input value.
    pub fn value(&self) -> (value: &str)
        ensures
            value@ == self.text(),
    {
        self.input.value()
    }

    /// Get the current cursor position (character index).
    pub fn cursor(&self) -> (cursor: usize)
        ensures
            cursor == self.at(),
            cursor <= self.text().len(),
    {
        self.input.cursor()
    }

    /// Display column of the cursor.
    pub fn visual_cursor(&self) -> (column: usize)
        ensures
            column == super::input::display_column(self.text(), self.at()),
    {
        self.input.visual_cursor()
    }

    /// Get the parsed query.
    pub fn parsed(&self) -> (parsed: &ParsedQuery)
        ensures
            *parsed == self.query(),
    {
        &self.parsed
    }

    /// Get the current cursor context.
    pub fn context(&self) -> (context: &CursorContext)
        ensures
            *context == self.in_context(),
    {
        &self.context
    }

    /// First validation error relevant to the cursor (invalid filter or
    /// regex), prioritising the part containing the cursor and falling back
    /// to the leftmost invalid part. `None` when everything parses cleanly.
    pub fn error_message(&self) -> (message: Option<&String>)
        ensures
            message == match relevant_fault(self.query().parts@, self.at()) {
                Some(i) => Some(&(self.query().parts@[i].fault()->0)),
                None => None,
            },
    {
        let cursor: usize = self.input.cursor();
        let touching = |p: &QueryPart| -> (b: bool)
            ensures
                b == faulty_at(*p, cursor as int),
        { p.error().is_some() && p.span().start <= cursor && cursor <= p.span().end };
        let faulty = |p: &QueryPart| -> (b: bool)
            ensures
                b == (p.fault() is Some),
        { p.error().is_some() };
        let mut at = find_first(
            &self.parsed.parts,
            touching,
            Ghost(|p: QueryPart| faulty_at(p, cursor as int)),
        );
        if at.is_none() {
            at = find_first(&self.parsed.parts, faulty, Ghost(|p: QueryPart| p.fault() is Some));
        }
        match at {
            Some(i) => self.parsed.parts[i].error(),
            None => None,
        }
    }

    /// Get the autocomplete state if active.
    pub fn autocomplete(&self) -> (state: Option<&AutocompleteState>)
        ensures
            state == match self.popup() {
                Some(ac) => Some(&ac),
                None => None,
            },
    {
        self.autocomplete.as_ref()
    }

    /// Check if autocomplete popup is active.
    pub fn autocomplete_active(&self) -> (active: bool)
        ensures
            active == (self.popup() is Some),
    {
        self.autocomplete.is_some()
    }

    /// Set the input value. The cursor goes to its end.
    pub fn set_value(&mut self, value: &str)
        ensures
            final(self).text() == value@,
            final(self).at() == value@.len(),
            final(self).query() == old(self).query(),
            final(self).in_context() == old(self).in_context(),
            final(self).popup() == old(self).popup(),
    {
        self.input = TextInput::new(value.to_owned());
    }

    /// Set the input value and position cursor at the given character index.
    pub fn set_input(&mut self, value: String, cursor_pos: usize)
        ensures
            final(self).text() == value@,
            final(self).at() == at_most(cursor_pos as int, value@.len() as int),
            final(self).query() == old(self).query(),
            final(self).in_context() == old(self).in_context(),
            final(self).popup() == old(self).popup(),
    {
        self.input = TextInput::with_cursor(value, cursor_pos);
    }

    /// Reset the search bar to empty state.
    pub fn reset(&mut self)
        ensures
            final(self).text() == Seq::<char>::empty(),
            final(self).at() == 0,
            final(self).query().parts@ == Seq::<QueryPart>::empty(),
            final(self).in_context() is Whitespace,
            final(self).popup() is None,
    {
        *self = SearchBar::new();
    }

    /// The parse of the current text and what its cursor is in.
    pub fn reparse(&mut self, parsed: ParsedQuery, context: CursorContext)
        ensures
            final(self).query() == parsed,
            final(self).in_context() == context,
            final(self).text() == old(self).text(),
            final(self).at() == old(self).at(),
            final(self).popup() == old(self).popup(),
    {
        self.parsed = parsed;
        self.context = context;
    }

    /// The word that `:` would turn into a filter, if it names one.
    pub fn colon_word(&self) -> (word: Option<String>)
        ensures
            match word {
                Some(w) => in_plain_text(self.in_context()) && run_start(self.text(), self.at())
                    < self.at() && w@ == self.text().subrange(
                    run_start(self.text(), self.at()),
                    self.at(),
                ),
                None => !(in_plain_text(self.in_context()) && run_start(self.text(), self.at())
                    < self.at()),
            },
    {
        if !self.plain_text() {
            return None;
        }
        let cursor: usize = self.input.cursor();
        let start: usize = word_start_before_cursor(self.input.value(), cursor);
        if start == cursor {
            return None;
        }
        Some(self.input.value().substring_char(start, cursor).to_owned())
    }

    fn plain_text(&self) -> (plain: bool)
        ensures
            plain == in_plain_text(self.in_context()),
    {
        match self.context {
            CursorContext::Fts | CursorContext::Whitespace => true,
            _ => false,
        }
    }

    /// The text without the word before the cursor, trimming the whitespace
    /// around it.
    pub fn without_word(&self) -> (cleaned: String)
        ensures
            cleaned@ == wordless(self.text(), self.at()),
    {
        let value = self.input.value();
        let cursor: usize = self.input.cursor();
        let n: usize = char_len(value);
        let start: usize = word_start_before_cursor(value, cursor);
        let before = trim_end(value.substring_char(0, start));
        let after = trim_start(value.substring_char(cursor, n));
        assert(value@.subrange(0, start as int) =~= value@.take(start as int));
        assert(value@.subrange(cursor as int, n as int) =~= value@.skip(cursor as int));
        if before.is_empty() {
            after.to_owned()
        } else if after.is_empty() {
            before.to_owned()
        } else {
            let mut s = before.to_owned();
            s.push(' ');
            s.append(after);
            assert(s@ =~= before@ + seq![' '] + after@);
            s
        }
    }

    /// Handle an input request. `answer` says what the word before `:` stands
    /// for, if [`Self::colon_word`] names one that is a filter.
    pub fn handle_input(&mut self, req: InputRequest, answer: Option<ColonAnswer>) -> (result:
        KeyResult)
        ensures
            (final(self).text(), final(self).at(), result) == after_input(
                old(self).text(),
                old(self).at(),
                old(self).query().parts@,
                old(self).in_context(),
                req,
                answer,
            ),
            final(self).query() == old(self).query(),
            final(self).in_context() == old(self).in_context(),
            final(self).popup() == old(self).popup(),
    {
        match self.handle_special_input(req, answer) {
            KeyResult::NotHandled => {},
            res => return res,
        }
        self.input.handle(req);
        KeyResult::Handled
    }

    /// As [`Self::handle_input`], with `~` an ordinary character.
    pub fn handle_input_without_fuzzy_transition(
        &mut self,
        req: InputRequest,
        answer: Option<ColonAnswer>,
    )
        ensures
            final(self).text() == if req == InputRequest::InsertChar('~') {
                edited_text(old(self).text(), old(self).at(), req)
            } else {
                after_input(
                    old(self).text(),
                    old(self).at(),
                    old(self).query().parts@,
                    old(self).in_context(),
                    req,
                    answer,
                ).0
            },
            final(self).at() == if req == InputRequest::InsertChar('~') {
                edited_cursor(old(self).text(), old(self).at(), req)
            } else {
                after_input(
                    old(self).text(),
                    old(self).at(),
                    old(self).query().parts@,
                    old(self).in_context(),
                    req,
                    answer,
                ).1
            },
            final(self).query() == old(self).query(),
            final(self).in_context() == old(self).in_context(),
            final(self).popup() == old(self).popup(),
    {
        if req == InputRequest::InsertChar('~') {
            self.input.handle(req);
        } else {
            self.handle_input(req, answer);
        }
    }

    /// Handle special input cases based on context.
    fn handle_special_input(&mut self, req: InputRequest, answer: Option<ColonAnswer>) -> (result:
        KeyResult)
        ensures
            match special(
                old(self).text(),
                old(self).at(),
                old(self).query().parts@,
                old(self).in_context(),
                req,
                answer,
            ) {
                Some(r) => (final(self).text(), final(self).at(), result) == r && result
                    != KeyResult::NotHandled,
                None => result == KeyResult::NotHandled && final(self).text() == old(self).text()
                    && final(self).at() == old(self).at(),
            },
            final(self).query() == old(self).query(),
            final(self).in_context() == old(self).in_context(),
            final(self).popup() == old(self).popup(),
    {
        reveal(special);
        match req {
            InputRequest::InsertChar(':') => {
                if self.handle_colon_insert(answer) {
                    KeyResult::Handled
                } else {
                    KeyResult::NotHandled
                }
            },
            InputRequest::InsertChar('/') => {
                if self.handle_slash_insert() {
                    KeyResult::Handled
                } else {
                    KeyResult::NotHandled
                }
            },
            InputRequest::InsertChar('~') => {
                if self.handle_tilde_insert() {
                    KeyResult::TransitionToFuzzy
                } else {
                    KeyResult::NotHandled
                }
            },
            InputRequest::DeletePrevChar | InputRequest::DeleteNextChar => {
                if self.handle_delete_in_regex(req) {
                    KeyResult::Handled
                } else {
                    KeyResult::NotHandled
                }
            },
            _ => KeyResult::NotHandled,
        }
    }

    /// Handle `:` key - filter creation, deduplication, and reordering.
    ///
    /// When `:` is typed after a word in FTS/whitespace context and the word
    /// names a filter: if the query already has that filter, the word goes and
    /// the cursor jumps to the filter's value; else the filter is put before
    /// the full-text terms.
    fn handle_colon_insert(&mut self, answer: Option<ColonAnswer>) -> (handled: bool)
        ensures
            match special(
                old(self).text(),
                old(self).at(),
                old(self).query().parts@,
                old(self).in_context(),
                InputRequest::InsertChar(':'),
                answer,
            ) {
                Some(r) => handled && final(self).text() == r.0 && final(self).at() == r.1 && r.2
                    == KeyResult::Handled,
                None => !handled && final(self).text() == old(self).text() && final(self).at()
                    == old(self).at(),
            },
            final(self).query() == old(self).query(),
            final(self).in_context() == old(self).in_context(),
            final(self).popup() == old(self).popup(),
    {
        reveal(special);
        if !self.plain_text() {
            return false;
        }
        let cursor: usize = self.input.cursor();
        if word_start_before_cursor(self.input.value(), cursor) == cursor {
            return false;
        }
        let a = match answer {
            Some(a) => a,
            None => return false,
        };
        let cleaned = self.without_word();
        let canonical = a.canonical.clone();
        let named = |p: &QueryPart| -> (b: bool)
            ensures
                b == is_filter(*p, canonical@),
        {
            match p {
                QueryPart::Filter { name, .. } => same(name, &canonical),
                _ => false,
            }
        };
        let existing = find_first(
            &self.parsed.parts,
            named,
            Ghost(|p: QueryPart| is_filter(p, canonical@)),
        );
        if existing.is_some() {
            // Filter exists: jump cursor to end of its value
            let target: usize = match find_first(
                &a.cleaned.parts,
                named,
                Ghost(|p: QueryPart| is_filter(p, canonical@)),
            ) {
                Some(i) => match &a.cleaned.parts[i] {
                    QueryPart::Filter { value_span, .. } => value_span.end,
                    _ => 0,
                },
                None => 0,
            };
            self.set_input(cleaned, target);
        } else {
            // New filter: insert before FTS
            let fts = |p: &QueryPart| -> (b: bool)
                ensures
                    b == (*p is Fts),
            { matches!(p, QueryPart::Fts { .. }) };
            let start = match find_first(&a.cleaned.parts, fts, Ghost(|p: QueryPart| p is Fts)) {
                Some(i) => match &a.cleaned.parts[i] {
                    QueryPart::Fts { span } => Some(span.start),
                    _ => None,
                },
                None => None,
            };
            let (value, at): (String, usize) = place_filter(&cleaned, &canonical, start);
            self.set_input(value, at);
        }
        true
    }

    /// Handle `~` key - transition to fuzzy search if at word boundary.
    fn handle_tilde_insert(&self) -> (transition: bool)
        ensures
            transition == (self.at() == 0 || is_white(self.text()[self.at() - 1])),
    {
        reveal(special);
        let cursor: usize = self.input.cursor();
        cursor == 0 || is_whitespace(self.input.value().get_char(cursor - 1))
    }

    /// Handle `/` key - context-aware regex handling.
    fn handle_slash_insert(&mut self) -> (handled: bool)
        ensures
            match special(
                old(self).text(),
                old(self).at(),
                old(self).query().parts@,
                old(self).in_context(),
                InputRequest::InsertChar('/'),
                None,
            ) {
                Some(r) => handled && final(self).text() == r.0 && final(self).at() == r.1 && r.2
                    == KeyResult::Handled,
                None => !handled && final(self).text() == old(self).text() && final(self).at()
                    == old(self).at(),
            },
            final(self).query() == old(self).query(),
            final(self).in_context() == old(self).in_context(),
            final(self).popup() == old(self).popup(),
    {
        reveal(special);
        if !self.plain_text() {
            return false;
        }
        let cursor: usize = self.input.cursor();
        let regex = |p: &QueryPart| -> (b: bool)
            ensures
                b == is_regex(*p),
        { matches!(p, QueryPart::Regex { .. }) };
        if find_first(&self.parsed.parts, regex, Ghost(|p: QueryPart| is_regex(p))).is_some() {
            // If cursor is inside an existing regex, move to its end
            let around = |p: &QueryPart| -> (b: bool)
                ensures
                    b == (is_regex(*p) && p.place().start <= cursor && cursor < p.place().end),
            {
                matches!(p, QueryPart::Regex { .. }) && p.span().start <= cursor && cursor
                    < p.span().end
            };
            return match find_first(
                &self.parsed.parts,
                around,
                Ghost(
                    |p: QueryPart|
                        is_regex(p) && p.place().start <= cursor && cursor < p.place().end,
                ),
            ) {
                Some(i) => {
                    let end: usize = self.parsed.parts[i].span().end;
                    let value = self.input.value().to_owned();
                    self.set_input(value, end);
                    true
                },
                // Otherwise, just insert normally
                None => false,
            };
        }
        // No regex exists - insert `//` and place cursor between
        let value = self.input.value();
        let mut text = head_of(value, cursor).to_owned();
        text.push('/');
        text.push('/');
        text.append(tail_of(value, cursor));
        let n: usize = char_len(&text);
        assert(cursor + 1 <= n);
        assert(text@ =~= value@.take(cursor as int) + seq!['/', '/'] + value@.skip(cursor as int));
        self.set_input(text, cursor + 1);
        true
    }

    /// Handle delete in regex - delete entire regex when deleting a delimiter.
    fn handle_delete_in_regex(&mut self, req: InputRequest) -> (handled: bool)
        requires
            req == InputRequest::DeletePrevChar || req == InputRequest::DeleteNextChar,
        ensures
            match special(
                old(self).text(),
                old(self).at(),
                old(self).query().parts@,
                old(self).in_context(),
                req,
                None,
            ) {
                Some(r) => handled && final(self).text() == r.0 && final(self).at() == r.1 && r.2
                    == KeyResult::Handled,
                None => !handled && final(self).text() == old(self).text() && final(self).at()
                    == old(self).at(),
            },
            final(self).query() == old(self).query(),
            final(self).in_context() == old(self).in_context(),
            final(self).popup() == old(self).popup(),
    {
        reveal(special);
        let cursor: usize = self.input.cursor();
        let backwards = req == InputRequest::DeletePrevChar;
        // Find regex that cursor is in or adjacent to
        let reached = |p: &QueryPart| -> (b: bool)
            ensures
                b == deletes_in(*p, cursor as int, backwards),
        {
            match p {
                QueryPart::Regex { span, .. } => if backwards {
                    cursor > span.start && cursor <= span.end
                } else {
                    cursor >= span.start && cursor < span.end
                },
                _ => false,
            }
        };
        let i: usize = match find_first(
            &self.parsed.parts,
            reached,
            Ghost(|p: QueryPart| deletes_in(p, cursor as int, backwards)),
        ) {
            Some(i) => i,
            None => return false,
        };
        let span = self.parsed.parts[i].span();
        // Check if we're deleting the first or last slash
        let delimiter = if backwards {
            cursor - 1 == span.start || cursor == span.end
        } else {
            cursor == span.start || cursor == span.end - 1
        };
        if !delimiter {
            return false;
        }
        let text = cut(self.input.value(), span);
        self.set_input(text, span.start);
        true
    }

    /// Navigate to next autocomplete suggestion.
    pub fn autocomplete_next(&mut self)
        ensures
            moved(old(self).popup(), final(self).popup(), true),
            final(self).text() == old(self).text(),
            final(self).at() == old(self).at(),
            final(self).query() == old(self).query(),
            final(self).in_context() == old(self).in_context(),
    {
        if let Some(ac) = self.autocomplete.take() {
            let selected: usize = if ac.suggestions.len() == 0 {
                ac.selected
            } else {
                super::app::next_wrapping(ac.selected, ac.suggestions.len())
            };
            self.autocomplete = Some(AutocompleteState { selected, ..ac });
        }
    }

    /// Navigate to previous autocomplete suggestion.
    pub fn autocomplete_prev(&mut self)
        ensures
            moved(old(self).popup(), final(self).popup(), false),
            final(self).text() == old(self).text(),
            final(self).at() == old(self).at(),
            final(self).query() == old(self).query(),
            final(self).in_context() == old(self).in_context(),
    {
        if let Some(ac) = self.autocomplete.take() {
            let selected: usize = if ac.suggestions.len() == 0 {
                ac.selected
            } else {
                super::app::prev_wrapping(ac.selected, ac.suggestions.len())
            };
            self.autocomplete = Some(AutocompleteState { selected, ..ac });
        }
    }

    /// Select current autocomplete suggestion. The popup closes either way.
    pub fn autocomplete_select(&mut self) -> (selected: bool)
        ensures
            match completion(
                old(self).text(),
                old(self).query().parts@,
                old(self).popup(),
            ) {
                Some(r) => selected && final(self).text() == r.0 && final(self).at() == r.1,
                None => !selected && final(self).text() == old(self).text() && final(self).at()
                    == old(self).at(),
            },
            final(self).popup() is None,
            final(self).query() == old(self).query(),
            final(self).in_context() == old(self).in_context(),
    {
        reveal(completion);
        let ac = match self.autocomplete.take() {
            Some(ac) => ac,
            None => return false,
        };
        if ac.selected >= ac.suggestions.len() {
            return false;
        }
        let chosen = ac.suggestions[ac.selected].clone();
        // Find the filter part that corresponds to this autocomplete
        let filter_name = ac.filter_name.clone();
        let anchor: usize = ac.anchor_offset;
        let anchored = |p: &QueryPart| -> (b: bool)
            ensures
                b == is_anchored(*p, filter_name@, anchor as int),
        {
            match p {
                QueryPart::Filter { name, value_span, .. } => same(name, &filter_name) && anchor
                    >= value_span.start && anchor <= value_span.end,
                _ => false,
            }
        };
        let i: usize = match find_first(
            &self.parsed.parts,
            anchored,
            Ghost(|p: QueryPart| is_anchored(p, filter_name@, anchor as int)),
        ) {
            Some(i) => i,
            None => return false,
        };
        let (value, value_start): (&String, usize) = match &self.parsed.parts[i] {
            QueryPart::Filter { value, value_span, .. } => (value, value_span.start),
            _ => return false,
        };
        // The segment of the value that is replaced runs to the next `|`.
        let segment_end_in_value: usize = bar_from(value, anchor - value_start);
        let old_input = self.input.value();
        let n: usize = char_len(old_input);
        let segment_end: usize = capped_sum(value_start, segment_end_in_value, n);
        let mut text = head_of(old_input, anchor).to_owned();
        text.append(&chosen);
        text.append(tail_of(old_input, segment_end));
        let at: usize = capped_sum(anchor, char_len(&chosen), char_len(&text));
        self.set_input(text, at);
        true
    }

    /// Close autocomplete popup.
    pub fn autocomplete_close(&mut self)
        ensures
            final(self).popup() is None,
            final(self).text() == old(self).text(),
            final(self).at() == old(self).at(),
            final(self).query() == old(self).query(),
            final(self).in_context() == old(self).in_context(),
    {
        self.autocomplete = None;
    }

    fn cursor_filter(&self) -> (pos: Option<usize>)
        ensures
            match pos {
                Some(i) => filter_under_cursor(self.query().parts@, self.in_context(), self.at())
                    == Some(i as int) && i < self.query().parts@.len()
                    && self.query().parts@[i as int] is Filter,
                None => filter_under_cursor(self.query().parts@, self.in_context(), self.at())
                    == None::<int>,
            },
    {
        match &self.context {
            CursorContext::Filter { name, .. } => {
                let cursor: usize = self.input.cursor();
                let under = |p: &QueryPart| -> (b: bool)
                    ensures
                        b == is_anchored(*p, name@, cursor as int),
                {
                    match p {
                        QueryPart::Filter { name: n, value_span, .. } => same(n, name) && cursor
                            >= value_span.start && cursor <= value_span.end,
                        _ => false,
                    }
                };
                find_first(
                    &self.parsed.parts,
                    under,
                    Ghost(|p: QueryPart| is_anchored(p, name@, cursor as int)),
                )
            },
            _ => None,
        }
    }

    /// The filter value under the cursor, whose completions the popup shows.
    pub fn completion_request(&self) -> (request: Option<CompletionRequest>)
        ensures
            match filter_under_cursor(self.query().parts@, self.in_context(), self.at()) {
                Some(i) => request matches Some(r) && r.name == self.in_context()->Filter_name
                    && r.offset == self.in_context()->Filter_offset && r.value
                    == self.query().parts@[i]->Filter_value,
                None => request is None,
            },
    {
        let i: usize = match self.cursor_filter() {
            Some(i) => i,
            None => return None,
        };
        match (&self.context, &self.parsed.parts[i]) {
            (
                CursorContext::Filter { name, offset },
                QueryPart::Filter { value, .. },
            ) => Some(
                CompletionRequest { name: name.clone(), value: value.clone(), offset: *offset },
            ),
            _ => None,
        }
    }

    /// Show the completions for [`Self::completion_request`], each with the
    /// position in the value where it goes; close the popup where there are
    /// none.
    pub fn update_autocomplete(&mut self, completions: Option<(Vec<String>, usize)>)
        ensures
            final(self).text() == old(self).text(),
            final(self).at() == old(self).at(),
            final(self).query() == old(self).query(),
            final(self).in_context() == old(self).in_context(),
            match (
                filter_under_cursor(
                    old(self).query().parts@,
                    old(self).in_context(),
                    old(self).at(),
                ),
                completions,
            ) {
                (Some(i), Some(c)) => {
                    let start = old(self).query().parts@[i]->Filter_value_span.start;
                    if c.0@.len() == 0 {
                        final(self).popup() is None
                    } else {
                        &&& final(self).popup() matches Some(ac)
                        &&& ac.filter_name == old(self).in_context()->Filter_name
                        &&& ac.suggestions == c.0
                        &&& ac.anchor_offset == at_most(start + c.1, usize::MAX as int)
                        &&& ac.selected == kept_selection(
                            old(self).popup(),
                            old(self).in_context()->Filter_name@,
                            c.0@.len() as int,
                        )
                    }
                },
                _ => final(self).popup() is None,
            },
    {
        let before = self.autocomplete.take();
        let i: usize = match self.cursor_filter() {
            Some(i) => i,
            None => return,
        };
        let (suggestions, anchor_in_value): (Vec<String>, usize) = match completions {
            Some(c) => c,
            None => return,
        };
        if suggestions.len() == 0 {
            return;
        }
        let filter_name = match &self.context {
            CursorContext::Filter { name, .. } => name.clone(),
            _ => return,
        };
        let start: usize = match &self.parsed.parts[i] {
            QueryPart::Filter { value_span, .. } => value_span.start,
            _ => return,
        };
        // Preserve selection if we already had autocomplete state for the same filter
        let selected: usize = match before {
            Some(ac) => if same(&ac.filter_name, &filter_name) {
                if ac.selected < suggestions.len() {
                    ac.selected
                } else {
                    suggestions.len() - 1
                }
            } else {
                0
            },
            None => 0,
        };
        self.autocomplete = Some(
            AutocompleteState {
                filter_name,
                suggestions,
                selected,
                anchor_offset: capped_sum(start, anchor_in_value, usize::MAX),
            },
        );
    }
}

/// Whether the part is the named filter and the position lies in its value.
pub open spec fn is_anchored(part: QueryPart, filter: Seq<char>, at: int) -> bool {
    part matches QueryPart::Filter { name, value_span, .. } && name@ == filter && value_span.start
        <= at <= value_span.end
}

/// The filter whose value the cursor is in.
pub open spec fn filter_under_cursor(
    parts: Seq<QueryPart>,
    context: CursorContext,
    cursor: int,
) -> Option<int> {
    match context {
        CursorContext::Filter { name, .. } => first_index(
            parts,
            |p: QueryPart| is_anchored(p, name@, cursor),
        ),
        _ => None,
    }
}

/// The row highlighted in a new list of `len` suggestions: the one highlighted
/// before, while the filter is the same.
pub open spec fn kept_selection(
    before: Option<AutocompleteState>,
    filter: Seq<char>,
    len: int,
) -> int {
    match before {
        Some(ac) => if ac.filter_name@ == filter {
            at_most(ac.selected as int, len - 1)
        } else {
            0
        },
        None => 0,
    }
}

/// The popup with the highlight moved by one row, around either end.
pub open spec fn moved(
    before: Option<AutocompleteState>,
    after: Option<AutocompleteState>,
    forwards: bool,
) -> bool {
    match before {
        Some(ac) => {
            let len = ac.suggestions@.len() as int;
            after == Some(
                AutocompleteState {
                    selected: if len == 0 {
                        ac.selected
                    } else if forwards {
                        ((ac.selected + 1) % len) as usize
                    } else {
                        ((ac.selected + len - 1) % len) as usize
                    },
                    ..ac
                },
            )
        },
        None => after is None,
    }
}

/// First `|` of the value from `at` on, or its end.
pub open spec fn segment_end(value: Seq<char>, at: int) -> int
    decreases value.len() - at,
{
    if at < value.len() && value[at] != '|' {
        segment_end(value, at + 1)
    } else {
        at_most(at, value.len() as int)
    }
}

/// Text and cursor after taking the highlighted suggestion: it replaces the
/// segment of the filter's value at the anchor.
#[verifier::opaque]
pub open spec fn completion(
    s: Seq<char>,
    parts: Seq<QueryPart>,
    popup: Option<AutocompleteState>,
) -> Option<(Seq<char>, int)> {
    match popup {
        Some(ac) => {
            let anchor = ac.anchor_offset as int;
            match first_index(parts, |p: QueryPart| is_anchored(p, ac.filter_name@, anchor)) {
                Some(i) => if ac.selected < ac.suggestions@.len() {
                    let chosen = ac.suggestions@[ac.selected as int]@;
                    let start = parts[i]->Filter_value_span.start as int;
                    let value = parts[i]->Filter_value@;
                    let end = start + segment_end(value, anchor - start);
                    let text = head(s, anchor) + chosen + tail(s, end);
                    Some((text, at_most(anchor + chosen.len(), text.len() as int)))
                } else {
                    None
                },
                None => None,
            }
        },
        None => None,
    }
}

fn bar_from(value: &str, at: usize) -> (end: usize)
    ensures
        end == segment_end(value@, at as int),
{
    let n: usize = char_len(value);
    if at >= n {
        return n;
    }
    let mut i: usize = at;
    while i < n && value.get_char(i) != '|'
        invariant
            i <= n,
            n == value@.len(),
            segment_end(value@, at as int) == segment_end(value@, i as int),
        decreases n - i,
    {
        i += 1;
    }
    i
}

fn place_filter(cleaned: &str, canonical: &str, fts: Option<usize>) -> (r: (String, usize))
    ensures
        (r.0@, r.1 as int) == filter_placed(
            cleaned@,
            canonical@,
            match fts {
                Some(pos) => Some(pos as int),
                None => None,
            },
        ),
{
    let mut filter = canonical.to_owned();
    filter.push(':');
    let (mut text, suffix): (String, Option<&str>) = match fts {
        Some(pos) => {
            let prefix = trim_end(head_of(cleaned, pos));
            (prefix.to_owned(), Some(trim_start(tail_of(cleaned, pos))))
        },
        None => (cleaned.to_owned(), None),
    };
    let ghost prefix = text@;
    if !text.as_str().is_empty() {
        text.push(' ');
    }
    text.append(&filter);
    let at: usize = char_len(&text);
    assert(prefix.len() == 0 ==> text@ =~= filter@);
    assert(prefix.len() > 0 ==> text@ =~= prefix + seq![' '] + filter@);
    if let Some(rest) = suffix {
        let ghost before = text@;
        text.push(' ');
        text.append(rest);
        assert(text@ =~= before + seq![' '] + rest@);
    }
    (text, at)
}

fn cut(s: &str, span: Span) -> (text: String)
    ensures
        text@ == cut_out(s@, span),
{
    let mut text = head_of(s, span.start).to_owned();
    let rest = tail_of(s, span.end);
    let n: usize = char_len(rest);
    // Handle surrounding whitespace
    let after = if n > 0 && rest.get_char(0) == ' ' {
        let r = rest.substring_char(1, n);
        assert(r@ =~= rest@.drop_first());
        r
    } else {
        rest
    };
    let len: usize = char_len(&text);
    if len > 0 && !after.is_empty() && text.as_str().get_char(len - 1) != ' ' {
        text.push(' ');
    }
    text.append(after);
    text
}

/// Whether something is wrong with the part and the cursor touches it.
pub open spec fn faulty_at(part: QueryPart, cursor: int) -> bool {
    part.fault() is Some && part.place().start <= cursor <= part.place().end
}

/// The faulty part that the cursor touches, else the leftmost faulty one.
pub open spec fn relevant_fault(parts: Seq<QueryPart>, cursor: int) -> Option<int> {
    match first_index(parts, |p: QueryPart| faulty_at(p, cursor)) {
        Some(i) => Some(i),
        None => first_index(parts, |p: QueryPart| p.fault() is Some),
    }
}

/// Start of the word before the cursor.
pub fn word_start_before_cursor(s: &str, cursor: usize) -> (start: usize)
    ensures
        start == run_start(s@, at_most(cursor as int, s@.len() as int)),
        start <= cursor,
{
    let chars = to_chars(s);
    let at: usize = if cursor <= chars.len() {
        cursor
    } else {
        chars.len()
    };
    find_run_start(&chars, at)
}

/// `a + b`, or `limit` where that is less.
fn capped_sum(a: usize, b: usize, limit: usize) -> (sum: usize)
    ensures
        sum == at_most(a + b, limit as int),
{
    if a >= limit || b >= limit - a {
        limit
    } else {
        a + b
    }
}

/// The characters up to position `i`.
fn head_of(s: &str, i: usize) -> (r: &str)
    ensures
        r@ == head(s@, i as int),
{
    let n: usize = char_len(s);
    let end: usize = if i <= n {
        i
    } else {
        n
    };
    assert(s@.subrange(0, end as int) =~= s@.take(end as int));
    s.substring_char(0, end)
}

/// The characters from position `i` on.
fn tail_of(s: &str, i: usize) -> (r: &str)
    ensures
        r@ == tail(s@, i as int),
{
    let n: usize = char_len(s);
    let start: usize = if i <= n {
        i
    } else {
        n
    };
    assert(s@.subrange(start as int, n as int) =~= s@.skip(start as int));
    s.substring_char(start, n)
}

/// How a piece of the query text is coloured.
#[derive(Debug, Clone, Copy, PartialEq, Eq, Structural)]
pub enum PartColour {
    Reset,
    Yellow,
    Red,
    DarkGray,
    Magenta,
    Cyan,
}

/// The colour of a part: red where something is wrong with it, grey while the
/// cursor is elsewhere, else by kind.
pub open spec fn colour_of(part: QueryPart, active: bool) -> PartColour {
    if part is Whitespace {
        PartColour::Reset
    } else if part.fault() is Some {
        PartColour::Red
    } else if !active {
        PartColour::DarkGray
    } else {
        match part {
            QueryPart::Filter { .. } => PartColour::Yellow,
            QueryPart::Regex { .. } => PartColour::Magenta,
            _ => PartColour::Cyan,
        }
    }
}

fn color_for_part(part: &QueryPart, active: bool) -> (colour: PartColour)
    ensures
        colour == colour_of(*part, active),
{
    match part {
        QueryPart::Whitespace { .. } => PartColour::Reset,
        QueryPart::Filter { error, .. } => if error.is_some() {
            PartColour::Red
        } else if active {
            PartColour::Yellow
        } else {
            PartColour::DarkGray
        },
        QueryPart::Regex { error, .. } => if error.is_some() {
            PartColour::Red
        } else if active {
            PartColour::Magenta
        } else {
            PartColour::DarkGray
        },
        QueryPart::Fts { .. } => if active {
            PartColour::Cyan
        } else {
            PartColour::DarkGray
        },
    }
}

/// Whether part `i` is drawn as the one being edited: the first part the cursor
/// touches; while it is in the full-text terms, all of those.
pub open spec fn is_active(
    parts: Seq<QueryPart>,
    context: CursorContext,
    cursor: Option<usize>,
    i: int,
) -> bool {
    match cursor {
        Some(c) => {
            let touched = first_index(
                parts,
                |p: QueryPart| p.place().start <= c && c <= p.place().end,
            );
            if context is Fts || touched is None {
                parts[i] is Fts
            } else {
                touched == Some(i)
            }
        },
        None => false,
    }
}

/// The characters of a span, as far as the text has them.
pub open spec fn spanned(s: Seq<char>, span: Span) -> Seq<char> {
    if span.start <= span.end {
        head(tail(s, span.start as int), span.end - span.start)
    } else {
        Seq::empty()
    }
}

/// The coloured pieces of the query text: its parts, then what no part covers.
pub open spec fn coloured(
    s: Seq<char>,
    parts: Seq<QueryPart>,
    context: CursorContext,
    cursor: Option<usize>,
) -> Seq<(Seq<char>, PartColour)> {
    let pieces = Seq::new(
        parts.len(),
        |i: int|
            (
                spanned(s, parts[i].place()),
                colour_of(parts[i], is_active(parts, context, cursor, i)),
            ),
    );
    let covered = if parts.len() > 0 {
        parts.last().place().end as int
    } else {
        0
    };
    if covered < s.len() {
        pieces.push(
            (
                tail(s, covered),
                if cursor is Some {
                    PartColour::Cyan
                } else {
                    PartColour::DarkGray
                },
            ),
        )
    } else {
        pieces
    }
}

/// The coloured pieces with the characters of their texts.
pub open spec fn piece_views(pieces: Seq<(String, PartColour)>) -> Seq<(Seq<char>, PartColour)> {
    pieces.map_values(|p: (String, PartColour)| (p.0@, p.1))
}

impl SearchBar {
    /// Coloured pieces of the search bar content; `cursor` is `None` while the
    /// bar is not being edited.
    pub fn styled_spans(&self, cursor: Option<usize>) -> (pieces: Vec<(String, PartColour)>)
        ensures
            piece_views(pieces@) == coloured(
                self.text(),
                self.query().parts@,
                self.in_context(),
                cursor,
            ),
    {
        let value = self.input.value();
        let n: usize = char_len(value);
        let in_fts = matches!(self.context, CursorContext::Fts);
        let touched = match cursor {
            Some(c) => {
                let touches = |p: &QueryPart| -> (b: bool)
                    ensures
                        b == (p.place().start <= c && c <= p.place().end),
                { p.span().start <= c && c <= p.span().end };
                find_first(
                    &self.parsed.parts,
                    touches,
                    Ghost(|p: QueryPart| p.place().start <= c && c <= p.place().end),
                )
            },
            None => None,
        };
        let ghost parts = self.parsed.parts@;
        let ghost whole = Seq::new(
            parts.len(),
            |i: int|
                (
                    spanned(value@, parts[i].place()),
                    colour_of(parts[i], is_active(parts, self.context, cursor, i)),
                ),
        );
        let mut pieces: Vec<(String, PartColour)> = Vec::new();
        let mut i: usize = 0;
        assert(piece_views(pieces@) =~= whole.take(0));
        while i < self.parsed.parts.len()
            invariant
                i <= self.parsed.parts@.len(),
                parts == self.parsed.parts@,
                value@ == self.text(),
                in_fts == (self.context is Fts),
                match cursor {
                    Some(c) => match touched {
                        Some(t) => first_index(
                            parts,
                            |p: QueryPart| p.place().start <= c && c <= p.place().end,
                        ) == Some(t as int),
                        None => first_index(
                            parts,
                            |p: QueryPart| p.place().start <= c && c <= p.place().end,
                        ) == None::<int>,
                    },
                    None => touched is None,
                },
                whole == Seq::new(
                    parts.len(),
                    |i: int|
                        (
                            spanned(value@, parts[i].place()),
                            colour_of(parts[i], is_active(parts, self.context, cursor, i)),
                        ),
                ),
                piece_views(pieces@) == whole.take(i as int),
            decreases self.parsed.parts@.len() - i,
        {
            let part = &self.parsed.parts[i];
            let span = part.span();
            let text = if span.start <= span.end {
                head_of(tail_of(value, span.start), span.end - span.start)
            } else {
                head_of(value, 0)
            };
            let active = match touched {
                Some(t) if !in_fts => i == t,
                _ => cursor.is_some() && matches!(part, QueryPart::Fts { .. }),
            };
            let ghost before = piece_views(pieces@);
            pieces.push((text.to_owned(), color_for_part(part, active)));
            assert(active == is_active(parts, self.context, cursor, i as int));
            assert(text@ =~= spanned(value@, span));
            assert(piece_views(pieces@) =~= before.push(whole[i as int]));
            assert(piece_views(pieces@) =~= whole.take(i + 1));
            i += 1;
        }
        assert(whole.take(i as int) =~= whole);
        // Trailing content not covered by parts
        let covered: usize = if self.parsed.parts.len() > 0 {
            self.parsed.parts[self.parsed.parts.len() - 1].span().end
        } else {
            0
        };
        if covered < n {
            let colour = if cursor.is_some() {
                PartColour::Cyan
            } else {
                PartColour::DarkGray
            };
            let ghost before = piece_views(pieces@);
            let rest = tail_of(value, covered);
            pieces.push((rest.to_owned(), colour));
            assert(piece_views(pieces@) =~= before.push((rest@, colour)));
        }
        pieces
    }
}

} // verus!
