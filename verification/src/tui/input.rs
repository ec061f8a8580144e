//! Single-line text input.

use vstd::prelude::*;
use vstd::string::*;

use tui_input::Input;
use tui_input::InputRequest as Req;

use super::key::{KeyCode, KeyEvent};
use crate::tag::alphanumeric;
use crate::text::char_len;

verus! {

/// A change to a single-line input.
#[derive(Debug, Clone, Copy, PartialEq, Eq, Structural)]
pub enum InputRequest {
    InsertChar(char),
    GoToPrevChar,
    GoToNextChar,
    GoToPrevWord,
    GoToNextWord,
    GoToStart,
    GoToEnd,
    DeletePrevChar,
    DeleteNextChar,
}

/// Start of the run of letters and digits that ends before `at`.
pub open spec fn word_start(s: Seq<char>, at: int) -> int
    decreases at,
{
    if at > 0 && alphanumeric(s[at - 1]) {
        word_start(s, at - 1)
    } else {
        at
    }
}

/// End of the last letter or digit before `at`.
pub open spec fn word_end_before(s: Seq<char>, at: int) -> int
    decreases at,
{
    if at > 0 && !alphanumeric(s[at - 1]) {
        word_end_before(s, at - 1)
    } else {
        at
    }
}

/// End of the run of letters and digits that begins at `at`.
pub open spec fn word_end(s: Seq<char>, at: int) -> int
    decreases s.len() - at,
{
    if at < s.len() && alphanumeric(s[at]) {
        word_end(s, at + 1)
    } else {
        at
    }
}

/// Next letter or digit from `at` on, or the end.
pub open spec fn word_after(s: Seq<char>, at: int) -> int
    decreases s.len() - at,
{
    if at < s.len() && !alphanumeric(s[at]) {
        word_after(s, at + 1)
    } else {
        at
    }
}

/// The text after a request at position `at`.
pub open spec fn edited_text(s: Seq<char>, at: int, req: InputRequest) -> Seq<char> {
    match req {
        InputRequest::InsertChar(c) => s.insert(at, c),
        InputRequest::DeletePrevChar => if at > 0 {
            s.remove(at - 1)
        } else {
            s
        },
        InputRequest::DeleteNextChar => if at < s.len() {
            s.remove(at)
        } else {
            s
        },
        _ => s,
    }
}

/// The cursor after a request at position `at`.
pub open spec fn edited_cursor(s: Seq<char>, at: int, req: InputRequest) -> int {
    match req {
        InputRequest::InsertChar(_) => at + 1,
        InputRequest::DeletePrevChar | InputRequest::GoToPrevChar => if at > 0 {
            at - 1
        } else {
            0
        },
        InputRequest::GoToNextChar => if at < s.len() {
            at + 1
        } else {
            at
        },
        InputRequest::GoToPrevWord => word_start(s, word_end_before(s, at)),
        InputRequest::GoToNextWord => word_after(s, word_end(s, at)),
        InputRequest::GoToStart => 0,
        InputRequest::GoToEnd => s.len() as int,
        InputRequest::DeleteNextChar => at,
    }
}

/// The display column of the cursor, as `tui_input` measures it.
pub uninterp spec fn display_column(s: Seq<char>, at: int) -> usize;

/// The first display column to show so that the cursor fits `width` columns, as
/// `tui_input` finds it.
pub uninterp spec fn display_scroll(s: Seq<char>, at: int, width: usize) -> usize;

/// Calls `tui_input::Input::handle` on an input with the given text and cursor.
/// Characters are inserted and deleted at the cursor; the cursor moves by
/// characters, by runs of letters and digits, or to either end.
#[verifier::external_body]
fn handle_request(value: &str, cursor: usize, req: InputRequest) -> (r: (String, usize))
    requires
        cursor <= value@.len(),
    ensures
        r.0@ == edited_text(value@, cursor as int, req),
        r.1 == edited_cursor(value@, cursor as int, req),
{
    let req = match req {
        InputRequest::InsertChar(c) => Req::InsertChar(c),
        InputRequest::GoToPrevChar => Req::GoToPrevChar,
        InputRequest::GoToNextChar => Req::GoToNextChar,
        InputRequest::GoToPrevWord => Req::GoToPrevWord,
        InputRequest::GoToNextWord => Req::GoToNextWord,
        InputRequest::GoToStart => Req::GoToStart,
        InputRequest::GoToEnd => Req::GoToEnd,
        InputRequest::DeletePrevChar => Req::DeletePrevChar,
        InputRequest::DeleteNextChar => Req::DeleteNextChar,
    };
    let mut input = Input::new(value.to_owned()).with_cursor(cursor);
    input.handle(req);
    (input.value().to_owned(), input.cursor())
}

/// Calls `tui_input::Input::visual_cursor`: the column depends on the text and
/// the cursor alone.
#[verifier::external_body]
fn cursor_column(value: &str, cursor: usize) -> (column: usize)
    requires
        cursor <= value@.len(),
    ensures
        column == display_column(value@, cursor as int),
{
    Input::new(value.to_owned()).with_cursor(cursor).visual_cursor()
}

/// Calls `tui_input::Input::visual_scroll`: the column depends on the text, the
/// cursor and the width alone.
#[verifier::external_body]
fn scroll_column(value: &str, cursor: usize, width: usize) -> (column: usize)
    requires
        cursor <= value@.len(),
    ensures
        column == display_scroll(value@, cursor as int, width),
{
    Input::new(value.to_owned()).with_cursor(cursor).visual_scroll(width)
}

/// A line of text with a cursor, counted in characters.
pub struct TextInput {
    value: String,
    cursor: usize,
}

impl TextInput {
    #[verifier::type_invariant]
    spec fn inv(self) -> bool {
        self.cursor <= self.value@.len()
    }

    pub closed spec fn text(&self) -> Seq<char> {
        self.value@
    }

    pub closed spec fn at(&self) -> int {
        self.cursor as int
    }

    /// An input holding `value`, with the cursor at its end.
    pub fn new(value: String) -> (input: Self)
        ensures
            input.text() == value@,
            input.at() == value@.len(),
    {
        let cursor: usize = char_len(&value);
        TextInput { value, cursor }
    }

    /// An input holding `value`, with the cursor at `cursor` or, where the
    /// text is shorter, at its end.
    pub fn with_cursor(value: String, cursor: usize) -> (input: Self)
        ensures
            input.text() == value@,
            input.at() == if cursor <= value@.len() {
                cursor as int
            } else {
                value@.len() as int
            },
    {
        let n: usize = char_len(&value);
        let cursor: usize = if cursor <= n {
            cursor
        } else {
            n
        };
        TextInput { value, cursor }
    }

    pub fn value(&self) -> (value: &str)
        ensures
            value@ == self.text(),
    {
        &self.value
    }

    pub fn cursor(&self) -> (cursor: usize)
        ensures
            cursor == self.at(),
            cursor <= self.text().len(),
    {
        proof {
            use_type_invariant(self);
        }
        self.cursor
    }

    pub fn handle(&mut self, req: InputRequest)
        ensures
            final(self).text() == edited_text(old(self).text(), old(self).at(), req),
            final(self).at() == edited_cursor(old(self).text(), old(self).at(), req),
    {
        proof {
            use_type_invariant(&*self);
            lemma_cursor_stays_inside(self.value@, self.cursor as int, req);
        }
        let (value, cursor): (String, usize) = handle_request(&self.value, self.cursor, req);
        *self = TextInput { value, cursor };
    }

    pub fn visual_cursor(&self) -> (column: usize)
        ensures
            column == display_column(self.text(), self.at()),
    {
        proof {
            use_type_invariant(self);
        }
        cursor_column(&self.value, self.cursor)
    }

    pub fn visual_scroll(&self, width: usize) -> (column: usize)
        ensures
            column == display_scroll(self.text(), self.at(), width),
    {
        proof {
            use_type_invariant(self);
        }
        scroll_column(&self.value, self.cursor, width)
    }
}

impl Default for TextInput {
    fn default() -> (input: Self)
        ensures
            input.text() == Seq::<char>::empty(),
            input.at() == 0,
    {
        Self::new(String::new())
    }
}

proof fn lemma_words(s: Seq<char>, at: int)
    requires
        0 <= at <= s.len(),
    ensures
        0 <= word_start(s, at) <= at,
        0 <= word_end_before(s, at) <= at,
    decreases at,
{
    if at > 0 {
        lemma_words(s, at - 1);
    }
}

proof fn lemma_words_ahead(s: Seq<char>, at: int)
    requires
        0 <= at <= s.len(),
    ensures
        at <= word_end(s, at) <= s.len(),
        at <= word_after(s, at) <= s.len(),
    decreases s.len() - at,
{
    if at < s.len() {
        lemma_words_ahead(s, at + 1);
    }
}

/// Whatever the request, the cursor stays within the text.
pub proof fn lemma_cursor_stays_inside(s: Seq<char>, at: int, req: InputRequest)
    requires
        0 <= at <= s.len(),
    ensures
        0 <= edited_cursor(s, at, req) <= edited_text(s, at, req).len(),
{
    lemma_words(s, at);
    lemma_words(s, word_end_before(s, at));
    lemma_words_ahead(s, at);
    lemma_words_ahead(s, word_end(s, at));
}

/// The request a key stands for in every text-input mode.
pub open spec fn request_of(key: KeyEvent) -> Option<InputRequest> {
    let ctrl = key.modifiers.control;
    match key.code {
        KeyCode::Char(c) => Some(InputRequest::InsertChar(c)),
        KeyCode::Backspace => Some(InputRequest::DeletePrevChar),
        KeyCode::Delete => Some(InputRequest::DeleteNextChar),
        KeyCode::Left => Some(
            if ctrl {
                InputRequest::GoToPrevWord
            } else {
                InputRequest::GoToPrevChar
            },
        ),
        KeyCode::Right => Some(
            if ctrl {
                InputRequest::GoToNextWord
            } else {
                InputRequest::GoToNextChar
            },
        ),
        KeyCode::Home => Some(InputRequest::GoToStart),
        KeyCode::End => Some(InputRequest::GoToEnd),
        _ => None,
    }
}

/// Translate a key event into the text-editing request shared by every
/// text-input mode (DB search, fuzzy search, text prompt). Mode-specific
/// keys (Esc, Enter, Tab, arrows-as-navigation) are handled before falling
/// back to this.
pub fn text_edit_request(key: &KeyEvent) -> (req: Option<InputRequest>)
    ensures
        req == request_of(*key),
{
    let ctrl = key.modifiers.control;
    match key.code {
        KeyCode::Char(c) => Some(InputRequest::InsertChar(c)),
        KeyCode::Backspace => Some(InputRequest::DeletePrevChar),
        KeyCode::Delete => Some(InputRequest::DeleteNextChar),
        KeyCode::Left if ctrl => Some(InputRequest::GoToPrevWord),
        KeyCode::Left => Some(InputRequest::GoToPrevChar),
        KeyCode::Right if ctrl => Some(InputRequest::GoToNextWord),
        KeyCode::Right => Some(InputRequest::GoToNextChar),
        KeyCode::Home => Some(InputRequest::GoToStart),
        KeyCode::End => Some(InputRequest::GoToEnd),
        _ => None,
    }
}

} // verus!
