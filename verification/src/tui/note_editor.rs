//! Multi-line note editor.
//!
//! Self-contained: it owns the text buffer, the cursor, and its own key
//! handling, and reports back only "keep going / save / cancel".
//!
//! Vertical movement is by *source* line, not by wrapped display line. Notes
//! are short prose, so the simpler model costs little and keeps the cursor
//! mapping honest.

use vstd::prelude::*;
use vstd::string::*;

use super::key::{KeyCode, KeyEvent};
use crate::text::{
    char_len, from_chars, insert_char, join, joined, joining_the_pieces_restores_the_text, pieces,
    remove_char, split, to_chars, views,
};

verus! {

/// What the caller should do after a key.
#[derive(Debug, Clone, Copy, PartialEq, Eq, Structural)]
pub enum NoteEditorAction {
    /// Keep editing.
    Continue,
    /// Persist [`NoteEditor::text`].
    Save,
    /// Leave without saving (the caller confirms first when dirty).
    Cancel,
}

/// The editor's text laid out for a given width.
pub struct NoteLayout {
    /// Wrapped display lines.
    pub lines: Vec<String>,
    /// Cursor position within `lines`, as (column, row).
    pub cursor: (usize, usize),
}

/// The text under edit as lines of characters, with the cursor between two
/// characters of one of them.
#[verifier::ext_equal]
pub struct Note {
    pub lines: Seq<Seq<char>>,
    pub row: int,
    pub col: int,
}

impl Note {
    /// There is always a line, and the cursor stands in the text.
    pub open spec fn valid(self) -> bool {
        &&& 0 <= self.row < self.lines.len()
        &&& 0 <= self.col <= self.lines[self.row].len()
    }

    /// The lines joined by newlines.
    pub open spec fn text(self) -> Seq<char> {
        joined(self.lines, seq!['\n'])
    }

    /// Number of characters before the cursor, newlines included.
    pub open spec fn offset(self) -> int {
        before(self.lines, self.row).len() + self.col
    }

    pub open spec fn inserted(self, c: char) -> Note {
        Note {
            lines: self.lines.update(self.row, self.lines[self.row].insert(self.col, c)),
            row: self.row,
            col: self.col + 1,
        }
    }

    pub open spec fn broken(self) -> Note {
        let line = self.lines[self.row];
        Note {
            lines: self.lines.update(self.row, line.take(self.col)).insert(
                self.row + 1,
                line.skip(self.col),
            ),
            row: self.row + 1,
            col: 0,
        }
    }

    /// The line at `row` joined with the one after it.
    pub open spec fn joined_at(self, row: int) -> Seq<Seq<char>> {
        self.lines.update(row, self.lines[row] + self.lines[row + 1]).remove(row + 1)
    }

    pub open spec fn backspaced(self) -> Note {
        if self.col > 0 {
            Note {
                lines: self.lines.update(self.row, self.lines[self.row].remove(self.col - 1)),
                row: self.row,
                col: self.col - 1,
            }
        } else if self.row > 0 {
            Note {
                lines: self.joined_at(self.row - 1),
                row: self.row - 1,
                col: self.lines[self.row - 1].len() as int,
            }
        } else {
            self
        }
    }

    pub open spec fn deleted(self) -> Note {
        if self.col < self.lines[self.row].len() {
            Note {
                lines: self.lines.update(self.row, self.lines[self.row].remove(self.col)),
                row: self.row,
                col: self.col,
            }
        } else if self.row < self.lines.len() - 1 {
            Note { lines: self.joined_at(self.row), row: self.row, col: self.col }
        } else {
            self
        }
    }

    pub open spec fn left(self) -> Note {
        if self.col > 0 {
            Note { lines: self.lines, row: self.row, col: self.col - 1 }
        } else if self.row > 0 {
            Note {
                lines: self.lines,
                row: self.row - 1,
                col: self.lines[self.row - 1].len() as int,
            }
        } else {
            self
        }
    }

    pub open spec fn right(self) -> Note {
        if self.col < self.lines[self.row].len() {
            Note { lines: self.lines, row: self.row, col: self.col + 1 }
        } else if self.row < self.lines.len() - 1 {
            Note { lines: self.lines, row: self.row + 1, col: 0 }
        } else {
            self
        }
    }

    /// The cursor on `row`, in its column or at the end of a shorter line.
    pub open spec fn on_row(self, row: int) -> Note {
        let len = self.lines[row].len() as int;
        Note {
            lines: self.lines,
            row,
            col: if self.col < len {
                self.col
            } else {
                len
            },
        }
    }

    pub open spec fn at_start(self) -> Note {
        Note { lines: self.lines, row: self.row, col: 0 }
    }

    pub open spec fn at_end(self) -> Note {
        Note { lines: self.lines, row: self.row, col: self.lines[self.row].len() as int }
    }

    pub open spec fn up(self) -> Note {
        if self.row > 0 {
            self.on_row(self.row - 1)
        } else {
            self.at_start()
        }
    }

    pub open spec fn down(self) -> Note {
        if self.row < self.lines.len() - 1 {
            self.on_row(self.row + 1)
        } else {
            self.at_end()
        }
    }

    /// The note after a key that neither saves nor cancels.
    pub open spec fn after_key(self, code: KeyCode) -> Note {
        match code {
            KeyCode::Char(c) => self.inserted(c),
            KeyCode::Enter => self.broken(),
            KeyCode::Backspace => self.backspaced(),
            KeyCode::Delete => self.deleted(),
            KeyCode::Left => self.left(),
            KeyCode::Right => self.right(),
            KeyCode::Up => self.up(),
            KeyCode::Down => self.down(),
            KeyCode::Home => self.at_start(),
            KeyCode::End => self.at_end(),
            _ => self,
        }
    }
}

/// What a key asks of the caller.
pub open spec fn note_action(key: KeyEvent) -> NoteEditorAction {
    if key.modifiers.control && key.code == KeyCode::Char('s') {
        NoteEditorAction::Save
    } else if key.code == KeyCode::Esc {
        NoteEditorAction::Cancel
    } else {
        NoteEditorAction::Continue
    }
}

/// The lines above `row`, each with its newline.
pub open spec fn before(lines: Seq<Seq<char>>, row: int) -> Seq<char>
    decreases row,
{
    if row <= 0 {
        Seq::empty()
    } else {
        before(lines, row - 1) + lines[row - 1] + seq!['\n']
    }
}

/// The lines below `row`, each after its newline.
pub open spec fn below(lines: Seq<Seq<char>>, row: int) -> Seq<char>
    decreases lines.len() - row,
{
    if row + 1 >= lines.len() {
        Seq::empty()
    } else {
        seq!['\n'] + lines[row + 1] + below(lines, row + 1)
    }
}

pub struct NoteEditor {
    pub(crate) tx_id: i64,
    /// Source lines; never empty (an empty note is one empty line).
    lines: Vec<String>,
    /// Cursor line, and its character offset within that line.
    row: usize,
    col: usize,
    original: String,
}

impl View for NoteEditor {
    type V = Note;

    closed spec fn view(&self) -> Note {
        Note { lines: views(self.lines@), row: self.row as int, col: self.col as int }
    }
}

impl NoteEditor {
    /// The transaction the note belongs to.
    pub closed spec fn owner(&self) -> i64 {
        self.tx_id
    }

    /// The text the editor was opened with.
    pub closed spec fn opened_with(&self) -> Seq<char> {
        self.original@
    }

    pub fn new(tx_id: i64, note: &str) -> (editor: Self)
        ensures
            editor.owner() == tx_id,
            editor.opened_with() == note@,
            editor@.valid(),
            editor@.lines == pieces(note@, '\n'),
            editor@.row == editor@.lines.len() - 1,
            editor@.col == editor@.lines.last().len(),
            editor@.text() == note@,
    {
        proof {
            joining_the_pieces_restores_the_text(note@, '\n');
        }
        let lines = split(note, '\n');
        // Start at the end, so appending to an existing note needs no movement.
        let row: usize = lines.len() - 1;
        let col: usize = char_len(&lines[row]);
        Self { tx_id, lines, row, col, original: note.to_owned() }
    }

    pub fn tx_id(&self) -> (id: i64)
        ensures
            id == self.owner(),
    {
        self.tx_id
    }

    /// Cursor line and character offset within it.
    pub fn position(&self) -> (at: (usize, usize))
        ensures
            at.0 == self@.row,
            at.1 == self@.col,
    {
        (self.row, self.col)
    }

    pub fn text(&self) -> (text: String)
        ensures
            text@ == self@.text(),
    {
        proof {
            reveal_strlit("\n");
            assert("\n"@ =~= seq!['\n']);
        }
        join(&self.lines, "\n")
    }

    pub fn is_dirty(&self) -> (dirty: bool)
        ensures
            dirty == (self@.text() != self.opened_with()),
    {
        !(self.text() == self.original)
    }

    /// Handle one key. Ctrl-S saves, Esc cancels, Enter inserts a newline —
    /// Enter cannot mean "save" in a multi-line editor.
    pub fn handle_key(&mut self, key: &KeyEvent) -> (action: NoteEditorAction)
        requires
            old(self)@.valid(),
        ensures
            action == note_action(*key),
            action == NoteEditorAction::Continue ==> final(self)@ == old(self)@.after_key(key.code),
            action != NoteEditorAction::Continue ==> final(self)@ == old(self)@,
            final(self)@.valid(),
            final(self).owner() == old(self).owner(),
            final(self).opened_with() == old(self).opened_with(),
    {
        let ctrl = key.modifiers.control;
        match key.code {
            KeyCode::Char('s') if ctrl => return NoteEditorAction::Save,
            KeyCode::Esc => return NoteEditorAction::Cancel,
            KeyCode::Char(c) => self.insert_char(c),
            KeyCode::Enter => self.insert_newline(),
            KeyCode::Backspace => self.backspace(),
            KeyCode::Delete => self.delete(),
            KeyCode::Left => self.move_left(),
            KeyCode::Right => self.move_right(),
            KeyCode::Up => self.move_up(),
            KeyCode::Down => self.move_down(),
            KeyCode::Home => self.col = 0,
            KeyCode::End => {
                let end: usize = self.line_len(self.row);
                self.col = end;
            },
            _ => {},
        }
        NoteEditorAction::Continue
    }

    fn line_len(&self, row: usize) -> (len: usize)
        requires
            row < self@.lines.len(),
        ensures
            len == self@.lines[row as int].len(),
    {
        char_len(&self.lines[row])
    }

    pub fn insert_char(&mut self, c: char)
        requires
            old(self)@.valid(),
        ensures
            final(self)@.valid(),
            final(self)@ == old(self)@.inserted(c),
            final(self).owner() == old(self).owner(),
            final(self).opened_with() == old(self).opened_with(),
    {
        let line = insert_char(&self.lines[self.row], self.col, c);
        let len: usize = char_len(&line);
        assert(self.col < len);
        self.lines.set(self.row, line);
        self.col += 1;
        assert(self@ =~= old(self)@.inserted(c));
    }

    pub fn insert_newline(&mut self)
        requires
            old(self)@.valid(),
        ensures
            final(self)@.valid(),
            final(self)@ == old(self)@.broken(),
            final(self).owner() == old(self).owner(),
            final(self).opened_with() == old(self).opened_with(),
    {
        let col: usize = self.col;
        let len: usize = self.line_len(self.row);
        let head = self.lines[self.row].as_str().substring_char(0, col).to_owned();
        let tail = self.lines[self.row].as_str().substring_char(col, len).to_owned();
        self.lines.set(self.row, head);
        let count: usize = self.lines.len();
        assert(self.row < count);
        self.lines.insert(self.row + 1, tail);
        self.row += 1;
        self.col = 0;
        proof {
            let line = old(self)@.lines[old(self)@.row];
            assert(line.subrange(0, col as int) =~= line.take(col as int));
            assert(line.subrange(col as int, len as int) =~= line.skip(col as int));
            assert(self@.lines =~= old(self)@.broken().lines);
        }
    }

    /// Join the line after `row` onto its end.
    fn join_next(&mut self, row: usize)
        requires
            row + 1 < old(self)@.lines.len(),
            old(self)@.valid(),
            old(self)@.row <= row,
        ensures
            final(self)@.valid(),
            final(self)@.lines == old(self)@.joined_at(row as int),
            final(self)@.row == old(self)@.row,
            final(self)@.col == old(self)@.col,
            final(self).owner() == old(self).owner(),
            final(self).opened_with() == old(self).opened_with(),
    {
        let count: usize = self.lines.len();
        assert(row + 1 < count);
        let both = crate::text::concat(&self.lines[row], &self.lines[row + 1]);
        self.lines.set(row, both);
        self.lines.remove(row + 1);
        assert(self@.lines =~= old(self)@.joined_at(row as int));
    }

    pub fn backspace(&mut self)
        requires
            old(self)@.valid(),
        ensures
            final(self)@.valid(),
            final(self)@ == old(self)@.backspaced(),
            final(self).owner() == old(self).owner(),
            final(self).opened_with() == old(self).opened_with(),
    {
        if self.col > 0 {
            let line = remove_char(&self.lines[self.row], self.col - 1);
            self.col -= 1;
            self.lines.set(self.row, line);
            assert(self@ =~= old(self)@.backspaced());
        } else if self.row > 0 {
            let row: usize = self.row - 1;
            let end: usize = self.line_len(row);
            self.row = row;
            self.col = end;
            // Join this line onto the end of the previous one.
            self.join_next(row);
            assert(self@ =~= old(self)@.backspaced());
        }
    }

    pub fn delete(&mut self)
        requires
            old(self)@.valid(),
        ensures
            final(self)@.valid(),
            final(self)@ == old(self)@.deleted(),
            final(self).owner() == old(self).owner(),
            final(self).opened_with() == old(self).opened_with(),
    {
        if self.col < self.line_len(self.row) {
            let line = remove_char(&self.lines[self.row], self.col);
            self.lines.set(self.row, line);
            assert(self@ =~= old(self)@.deleted());
        } else if self.row < self.lines.len() - 1 {
            let row: usize = self.row;
            self.join_next(row);
        }
    }

    pub fn move_left(&mut self)
        requires
            old(self)@.valid(),
        ensures
            final(self)@.valid(),
            final(self)@ == old(self)@.left(),
            final(self).owner() == old(self).owner(),
            final(self).opened_with() == old(self).opened_with(),
    {
        if self.col > 0 {
            self.col -= 1;
        } else if self.row > 0 {
            let end: usize = self.line_len(self.row - 1);
            self.row -= 1;
            self.col = end;
        }
    }

    pub fn move_right(&mut self)
        requires
            old(self)@.valid(),
        ensures
            final(self)@.valid(),
            final(self)@ == old(self)@.right(),
            final(self).owner() == old(self).owner(),
            final(self).opened_with() == old(self).opened_with(),
    {
        if self.col < self.line_len(self.row) {
            self.col += 1;
        } else if self.row < self.lines.len() - 1 {
            self.col = 0;
            self.row += 1;
        }
    }

    pub fn move_up(&mut self)
        requires
            old(self)@.valid(),
        ensures
            final(self)@.valid(),
            final(self)@ == old(self)@.up(),
            final(self).owner() == old(self).owner(),
            final(self).opened_with() == old(self).opened_with(),
    {
        if self.row > 0 {
            let row: usize = self.row - 1;
            self.move_to_row(row);
        } else {
            self.col = 0;
        }
    }

    pub fn move_down(&mut self)
        requires
            old(self)@.valid(),
        ensures
            final(self)@.valid(),
            final(self)@ == old(self)@.down(),
            final(self).owner() == old(self).owner(),
            final(self).opened_with() == old(self).opened_with(),
    {
        if self.row < self.lines.len() - 1 {
            let row: usize = self.row + 1;
            self.move_to_row(row);
        } else {
            let end: usize = self.line_len(self.row);
            self.col = end;
        }
    }

    fn move_to_row(&mut self, row: usize)
        requires
            old(self)@.valid(),
            row < old(self)@.lines.len(),
        ensures
            final(self)@.valid(),
            final(self)@ == old(self)@.on_row(row as int),
            final(self).owner() == old(self).owner(),
            final(self).opened_with() == old(self).opened_with(),
    {
        let len: usize = self.line_len(row);
        let col: usize = if self.col < len {
            self.col
        } else {
            len
        };
        self.col = 0;
        self.row = row;
        self.col = col;
    }

    /// Wrap the buffer to `width` and locate the cursor within the result.
    pub fn layout(&self, width: usize) -> (layout: NoteLayout)
        requires
            self@.valid(),
        ensures
            views(layout.lines@) == wrapped_lines(self@.lines, at_least_one(width as int)),
            cursor_cell(self@, at_least_one(width as int), layout.cursor),
            forall|i: int|
                0 <= i < layout.lines@.len() ==> (#[trigger] layout.lines@[i])@.len()
                    <= at_least_one(width as int),
            layout.cursor.1 < layout.lines@.len(),
            layout.cursor.0 <= layout.lines@[layout.cursor.1 as int]@.len(),
    {
        let width: usize = if width < 1 {
            1
        } else {
            width
        };
        let ghost all = self@.lines;
        let mut lines: Vec<String> = Vec::new();
        let mut cursor: (usize, usize) = (0, 0);
        let mut row: usize = 0;
        assert(all.take(0) =~= Seq::empty());
        assert(views(lines@) =~= wrapped_lines(all.take(0), width as int));
        while row < self.lines.len()
            invariant
                row <= self.lines@.len(),
                width >= 1,
                all == self@.lines,
                self@.valid(),
                views(lines@) == wrapped_lines(all.take(row as int), width as int),
                row > self.row ==> cursor_cell(self@, width as int, cursor),
            decreases self.lines@.len() - row,
        {
            let chars = to_chars(&self.lines[row]);
            let segments = wrap_segments(&chars, width);
            let ghost segs = wrapped(chars@, width as int);
            let ghost done = views(lines@);
            proof {
                segments_tile_the_line(chars@, width as int);
            }
            let mut index: usize = 0;
            assert(segs.take(0) =~= Seq::empty());
            assert(done =~= done + cut(chars@, segs.take(0)));
            while index < segments.len()
                invariant
                    index <= segments@.len(),
                    row < self.lines@.len(),
                    chars@ == all[row as int],
                    all == self@.lines,
                    self@.valid(),
                    segs == wrapped(chars@, width as int),
                    as_ints(segments@) == segs,
                    segs.len() > 0,
                    segs[0].0 == 0,
                    tiles(segs, chars@.len() as int),
                    done == wrapped_lines(all.take(row as int), width as int),
                    views(lines@) == done + cut(chars@, segs.take(index as int)),
                    row > self.row ==> cursor_cell(self@, width as int, cursor),
                    row == self.row ==> {
                        ||| index < segs.len() && segs[index as int].0 <= self@.col
                        ||| cursor_cell(self@, width as int, cursor)
                    },
                decreases segments@.len() - index,
            {
                let start: usize = segments[index].0;
                let end: usize = segments[index].1;
                assert(segs[index as int] == (start as int, end as int));
                if row == self.row {
                    // The cursor belongs to the segment containing its offset;
                    // at a segment boundary it belongs to the earlier one only
                    // when that is the last segment (end of line).
                    let last = index == segments.len() - 1;
                    let here = (self.col >= start && self.col < end) || (last && self.col >= end);
                    if here {
                        proof {
                            lemma_cut_len(chars@, segs.take(index as int));
                        }
                        cursor = (self.col - start, lines.len());
                        assert(cursor_segment(segs, self@.col, index as int));
                    } else {
                        assert(!last ==> segs[index as int].1 == segs[index + 1].0);
                    }
                }
                let ghost shown = views(lines@);
                lines.push(from_chars(&chars, start, end));
                proof {
                    let next = segs.take(index + 1);
                    assert(next.drop_last() =~= segs.take(index as int));
                    assert(views(lines@) =~= shown.push(
                        chars@.subrange(start as int, end as int),
                    ));
                    assert(views(lines@) =~= done + cut(chars@, next));
                }
                index += 1;
            }
            assert(segs.take(index as int) =~= segs);
            proof {
                let next = all.take(row + 1);
                assert(next.drop_last() =~= all.take(row as int));
                assert(next.last() == chars@);
            }
            row += 1;
        }
        assert(all.take(row as int) =~= all);
        proof {
            the_cursor_is_drawn_in_the_text(self@, width as int, cursor);
            assert(views(lines@)[cursor.1 as int] == lines@[cursor.1 as int]@);
            assert forall|i: int| 0 <= i < lines@.len() implies (#[trigger] lines@[i])@.len()
                <= width by {
                no_line_is_too_wide(all, width as int, i);
                assert(views(lines@)[i] == lines@[i]@);
            }
        }
        NoteLayout { lines, cursor }
    }
}

/// `width`, or one where it is zero.
pub open spec fn at_least_one(width: int) -> int {
    if width < 1 {
        1
    } else {
        width
    }
}

/// Position after the last space among `chars[start..limit]`, or `limit` where
/// there is none.
pub open spec fn after_last_space(chars: Seq<char>, start: int, limit: int, hard: int) -> int
    decreases limit - start,
{
    if limit <= start {
        hard
    } else if chars[limit - 1] == ' ' {
        limit
    } else {
        after_last_space(chars, start, limit - 1, hard)
    }
}

/// Where the display line that begins at `start` ends: at the end of the text
/// if the rest fits, else after the last space that fits, else after `width`
/// characters.
pub open spec fn line_end(chars: Seq<char>, start: int, width: int) -> int {
    if chars.len() - start <= width {
        chars.len() as int
    } else {
        after_last_space(chars, start, start + width, start + width)
    }
}

/// The display lines of the text from `start` on, as ranges.
pub open spec fn wrapped_from(chars: Seq<char>, start: int, width: int) -> Seq<(int, int)>
    decreases chars.len() - start,
{
    if start < chars.len() && start < line_end(chars, start, width) <= chars.len() {
        seq![(start, line_end(chars, start, width))] + wrapped_from(
            chars,
            line_end(chars, start, width),
            width,
        )
    } else {
        Seq::empty()
    }
}

/// The display lines of one source line, as ranges; one empty range for an
/// empty line.
pub open spec fn wrapped(chars: Seq<char>, width: int) -> Seq<(int, int)> {
    if chars.len() == 0 {
        seq![(0int, 0int)]
    } else {
        wrapped_from(chars, 0, width)
    }
}

/// The characters of each range.
pub open spec fn cut(chars: Seq<char>, ranges: Seq<(int, int)>) -> Seq<Seq<char>>
    decreases ranges.len(),
{
    if ranges.len() == 0 {
        Seq::empty()
    } else {
        cut(chars, ranges.drop_last()).push(chars.subrange(ranges.last().0, ranges.last().1))
    }
}

/// The display lines of a text.
pub open spec fn wrapped_lines(lines: Seq<Seq<char>>, width: int) -> Seq<Seq<char>>
    decreases lines.len(),
{
    if lines.len() == 0 {
        Seq::empty()
    } else {
        wrapped_lines(lines.drop_last(), width) + cut(lines.last(), wrapped(lines.last(), width))
    }
}

/// Whether `cursor` is the (column, row) at which the note's cursor is drawn.
pub open spec fn cursor_cell(note: Note, width: int, cursor: (usize, usize)) -> bool {
    let segs = wrapped(note.lines[note.row], width);
    exists|k: int|
        #[trigger] cursor_segment(segs, note.col, k) && cursor.0 == note.col - segs[k].0
            && cursor.1 == wrapped_lines(note.lines.take(note.row), width).len() + k
}

/// Whether the cursor at `col` is drawn in display line `k`.
pub open spec fn cursor_segment(segs: Seq<(int, int)>, col: int, k: int) -> bool {
    &&& 0 <= k < segs.len()
    &&& segs[k].0 <= col < segs[k].1 || (k == segs.len() - 1 && col >= segs[k].1)
}

/// The ranges as mathematical integers.
pub open spec fn as_ints(segments: Seq<(usize, usize)>) -> Seq<(int, int)> {
    segments.map_values(|p: (usize, usize)| (p.0 as int, p.1 as int))
}

/// Ranges that follow each other without gap up to `end`.
pub open spec fn tiles(segs: Seq<(int, int)>, end: int) -> bool {
    &&& forall|i: int| 0 <= i < segs.len() ==> 0 <= (#[trigger] segs[i]).0 <= segs[i].1 <= end
    &&& forall|i: int, j: int|
        0 <= i && j == i + 1 && j < segs.len() ==> (#[trigger] segs[i]).1 == (#[trigger] segs[j]).0
    &&& segs.len() > 0 ==> segs.last().1 == end
}

/// Greedy word-wrap `chars` to `width`, as (start, end) character ranges.
/// Always returns at least one (possibly empty) range so an empty line still
/// occupies a row.
pub fn wrap_segments(chars: &Vec<char>, width: usize) -> (segments: Vec<(usize, usize)>)
    requires
        width >= 1,
    ensures
        as_ints(segments@) == wrapped(chars@, width as int),
{
    let mut segments: Vec<(usize, usize)> = Vec::new();
    if chars.len() == 0 {
        segments.push((0, 0));
        assert(as_ints(segments@) =~= wrapped(chars@, width as int));
        return segments;
    }
    let mut start: usize = 0;
    assert(as_ints(segments@) + wrapped_from(chars@, 0, width as int) =~= wrapped(
        chars@,
        width as int,
    ));
    while start < chars.len()
        invariant
            width >= 1,
            start <= chars@.len(),
            chars@.len() > 0,
            as_ints(segments@) + wrapped_from(chars@, start as int, width as int) == wrapped(
                chars@,
                width as int,
            ),
        decreases chars@.len() - start,
    {
        let remaining: usize = chars.len() - start;
        // Break at the last space that fits; fall back to a hard break for a
        // token longer than the whole width.
        let mut split: usize = chars.len();
        if remaining > width {
            let limit: usize = start + width;
            split = limit;
            while split > start && chars[split - 1] != ' '
                invariant
                    start <= split <= limit < chars@.len(),
                    after_last_space(chars@, start as int, limit as int, limit as int)
                        == after_last_space(chars@, start as int, split as int, limit as int),
                decreases split,
            {
                split -= 1;
            }
            if split == start {
                split = limit;
            }
        }
        proof {
            lemma_line_end(chars@, start as int, width as int);
            assert(split == line_end(chars@, start as int, width as int));
            let before = as_ints(segments@);
            let rest = wrapped_from(chars@, split as int, width as int);
            assert(before.push((start as int, split as int)) + rest =~= before + (seq![
                (start as int, split as int),
            ] + rest));
        }
        let ghost before = as_ints(segments@);
        segments.push((start, split));
        assert(as_ints(segments@) =~= before.push((start as int, split as int)));
        start = split;
    }
    assert(as_ints(segments@) =~= as_ints(segments@) + wrapped_from(
        chars@,
        start as int,
        width as int,
    ));
    segments
}

proof fn lemma_cut_len(chars: Seq<char>, ranges: Seq<(int, int)>)
    ensures
        cut(chars, ranges).len() == ranges.len(),
    decreases ranges.len(),
{
    if ranges.len() > 0 {
        lemma_cut_len(chars, ranges.drop_last());
    }
}

proof fn lemma_after_last_space(chars: Seq<char>, start: int, limit: int, hard: int)
    requires
        start < hard,
        limit <= hard,
    ensures
        start < after_last_space(chars, start, limit, hard) <= hard,
    decreases limit - start,
{
    if limit > start && chars[limit - 1] != ' ' {
        lemma_after_last_space(chars, start, limit - 1, hard);
    }
}

proof fn lemma_line_end(chars: Seq<char>, start: int, width: int)
    requires
        width >= 1,
        0 <= start < chars.len(),
    ensures
        start < line_end(chars, start, width) <= chars.len(),
        line_end(chars, start, width) - start <= width,
{
    if chars.len() - start > width {
        lemma_after_last_space(chars, start, start + width, start + width);
    }
}

/// The ranges of `segs` joined, for ranges of one text.
pub open spec fn rejoined(chars: Seq<char>, segs: Seq<(int, int)>) -> Seq<char>
    decreases segs.len(),
{
    if segs.len() == 0 {
        Seq::empty()
    } else {
        chars.subrange(segs[0].0, segs[0].1) + rejoined(chars, segs.drop_first())
    }
}

proof fn lemma_wrapped_from(chars: Seq<char>, start: int, width: int)
    requires
        width >= 1,
        0 <= start < chars.len(),
    ensures
        ({
            let segs = wrapped_from(chars, start, width);
            &&& segs.len() > 0
            &&& segs[0].0 == start
            &&& tiles(segs, chars.len() as int)
            &&& forall|i: int|
                0 <= i < segs.len() ==> 0 < (#[trigger] segs[i]).1 - segs[i].0 <= width
            &&& rejoined(chars, segs) == chars.skip(start)
        }),
    decreases chars.len() - start,
{
    let end = line_end(chars, start, width);
    lemma_line_end(chars, start, width);
    let segs = wrapped_from(chars, start, width);
    let rest = wrapped_from(chars, end, width);
    assert(segs.drop_first() =~= rest);
    if end < chars.len() {
        lemma_wrapped_from(chars, end, width);
        assert forall|i: int, j: int| 0 <= i && j == i + 1 && j < segs.len() implies (
        #[trigger] segs[i]).1 == (#[trigger] segs[j]).0 by {
            if i > 0 {
                assert(segs[i] == rest[i - 1] && segs[j] == rest[j - 1]);
            } else {
                assert(segs[j] == rest[0]);
            }
        }
        assert forall|i: int| 0 <= i < segs.len() implies {
            &&& 0 <= (#[trigger] segs[i]).0 <= segs[i].1 <= chars.len()
            &&& 0 < segs[i].1 - segs[i].0 <= width
        } by {
            if i > 0 {
                assert(segs[i] == rest[i - 1]);
            }
        }
        assert(segs.last() == rest.last());
    } else {
        assert(rest =~= Seq::empty());
        assert(rejoined(chars, rest) =~= chars.skip(end));
    }
    assert(chars.subrange(start, end) + chars.skip(end) =~= chars.skip(start));
}

/// The display lines of a source line follow each other without gap or overlap
/// from its first character to its last, and none is wider than `width`.
pub proof fn segments_tile_the_line(chars: Seq<char>, width: int)
    requires
        width >= 1,
    ensures
        wrapped(chars, width).len() > 0,
        wrapped(chars, width)[0].0 == 0,
        tiles(wrapped(chars, width), chars.len() as int),
        forall|i: int|
            0 <= i < wrapped(chars, width).len() ==> (#[trigger] wrapped(chars, width)[i]).1
                - wrapped(chars, width)[i].0 <= width,
        rejoined(chars, wrapped(chars, width)) == chars,
{
    if chars.len() > 0 {
        lemma_wrapped_from(chars, 0, width);
        assert(chars.skip(0) =~= chars);
    } else {
        let rest = wrapped(chars, width).drop_first();
        assert(rest =~= Seq::<(int, int)>::empty());
        assert(rejoined(chars, rest) =~= chars);
        assert(chars.subrange(0, 0) + chars =~= chars);
        assert(rejoined(chars, wrapped(chars, width)) =~= chars);
    }
}

proof fn lemma_cut_at(chars: Seq<char>, ranges: Seq<(int, int)>, i: int)
    requires
        0 <= i < ranges.len(),
    ensures
        cut(chars, ranges).len() == ranges.len(),
        cut(chars, ranges)[i] == chars.subrange(ranges[i].0, ranges[i].1),
    decreases ranges.len(),
{
    lemma_cut_len(chars, ranges);
    lemma_cut_len(chars, ranges.drop_last());
    if i < ranges.len() - 1 {
        lemma_cut_at(chars, ranges.drop_last(), i);
    }
}

/// Where the display lines of a source line begin.
pub open spec fn display_start(lines: Seq<Seq<char>>, width: int, row: int) -> int {
    wrapped_lines(lines.take(row), width).len() as int
}

/// The display lines of a source line.
pub open spec fn display_lines(lines: Seq<Seq<char>>, width: int, row: int) -> Seq<Seq<char>> {
    cut(lines[row], wrapped(lines[row], width))
}

proof fn lemma_displayed(lines: Seq<Seq<char>>, width: int, row: int)
    requires
        0 <= row < lines.len(),
    ensures
        ({
            let (start, own) = (display_start(lines, width, row), display_lines(lines, width, row));
            let all = wrapped_lines(lines, width);
            &&& start + own.len() <= all.len()
            &&& all.subrange(start, start + own.len()) == own
        }),
    decreases lines.len(),
{
    let rest = lines.drop_last();
    let (start, own) = (display_start(lines, width, row), display_lines(lines, width, row));
    let all = wrapped_lines(lines, width);
    if row < lines.len() - 1 {
        lemma_displayed(rest, width, row);
        assert(rest.take(row) =~= lines.take(row));
        assert(all.subrange(start, start + own.len()) =~= wrapped_lines(rest, width).subrange(
            start,
            start + own.len(),
        ));
    } else {
        assert(lines.take(row) =~= rest);
        assert(all.subrange(start, start + own.len()) =~= own);
    }
}

/// The texts one after the other.
pub open spec fn glued(parts: Seq<Seq<char>>) -> Seq<char>
    decreases parts.len(),
{
    if parts.len() == 0 {
        Seq::empty()
    } else {
        glued(parts.drop_last()) + parts.last()
    }
}

proof fn lemma_glued(chars: Seq<char>, segs: Seq<(int, int)>, n: int)
    requires
        tiles(segs, chars.len() as int),
        0 < n <= segs.len(),
        segs[0].0 == 0,
    ensures
        glued(cut(chars, segs.take(n))) == chars.take(segs[n - 1].1),
    decreases n,
{
    let some = segs.take(n);
    assert(some.drop_last() =~= segs.take(n - 1));
    assert(cut(chars, some).drop_last() =~= cut(chars, segs.take(n - 1)));
    assert(some.last() == segs[n - 1]);
    if n > 1 {
        lemma_glued(chars, segs, n - 1);
        assert(segs[n - 2].1 == segs[n - 1].0);
        assert(chars.take(segs[n - 2].1) + chars.subrange(segs[n - 1].0, segs[n - 1].1)
            =~= chars.take(segs[n - 1].1));
    } else {
        assert(segs.take(0) =~= Seq::empty());
        assert(glued(cut(chars, segs.take(0))) =~= Seq::empty());
        assert(chars.subrange(0, segs[0].1) =~= chars.take(segs[0].1));
    }
}

/// Each source line is shown whole, in one or more display lines of its own: no
/// character is lost, added or trimmed.
pub proof fn each_line_is_shown_whole(lines: Seq<Seq<char>>, width: int, row: int)
    requires
        width >= 1,
        0 <= row < lines.len(),
    ensures
        ({
            let (start, own) = (display_start(lines, width, row), display_lines(lines, width, row));
            let all = wrapped_lines(lines, width);
            &&& own.len() > 0
            &&& start + own.len() <= all.len()
            &&& all.subrange(start, start + own.len()) == own
            &&& start + own.len() == display_start(lines, width, row + 1)
            &&& glued(own) == lines[row]
        }),
{
    let chars = lines[row];
    let segs = wrapped(chars, width);
    segments_tile_the_line(chars, width);
    lemma_displayed(lines, width, row);
    lemma_cut_len(chars, segs);
    lemma_glued(chars, segs, segs.len() as int);
    assert(segs.take(segs.len() as int) =~= segs);
    assert(chars.take(chars.len() as int) =~= chars);
    assert(lines.take(row + 1).drop_last() =~= lines.take(row));
    assert(lines.take(row + 1).last() == chars);
}

/// No display line is wider than the width.
pub proof fn no_line_is_too_wide(lines: Seq<Seq<char>>, width: int, i: int)
    requires
        width >= 1,
        0 <= i < wrapped_lines(lines, width).len(),
    ensures
        wrapped_lines(lines, width)[i].len() <= width,
    decreases lines.len(),
{
    let rest = wrapped_lines(lines.drop_last(), width);
    if i < rest.len() {
        no_line_is_too_wide(lines.drop_last(), width, i);
    } else {
        let chars = lines.last();
        let segs = wrapped(chars, width);
        segments_tile_the_line(chars, width);
        lemma_cut_len(chars, segs);
        lemma_cut_at(chars, segs, i - rest.len());
        assert(segs[i - rest.len()].1 - segs[i - rest.len()].0 <= width);
    }
}

/// The cursor is drawn in a display line of its source line, at a character of it or
/// behind the last. Behind the last it stands only at the end of the source line: at
/// an inner break it is at the start of the later display line.
pub proof fn the_cursor_is_drawn_in_the_text(note: Note, width: int, cursor: (usize, usize))
    requires
        note.valid(),
        width >= 1,
        cursor_cell(note, width, cursor),
    ensures
        ({
            let all = wrapped_lines(note.lines, width);
            let start = display_start(note.lines, width, note.row);
            &&& start <= cursor.1 < display_start(note.lines, width, note.row + 1)
            &&& cursor.1 < all.len()
            &&& cursor.0 <= all[cursor.1 as int].len()
            &&& cursor.0 == all[cursor.1 as int].len() ==> note.col == note.lines[note.row].len()
            &&& glued(all.subrange(start, cursor.1 as int)).len() + cursor.0 == note.col
        }),
{
    let chars = note.lines[note.row];
    let segs = wrapped(chars, width);
    let all = wrapped_lines(note.lines, width);
    let start = display_start(note.lines, width, note.row);
    let own = display_lines(note.lines, width, note.row);
    segments_tile_the_line(chars, width);
    each_line_is_shown_whole(note.lines, width, note.row);
    lemma_cut_len(chars, segs);
    let k = choose|k: int|
        #[trigger] cursor_segment(segs, note.col, k) && cursor.0 == note.col - segs[k].0
            && cursor.1 == wrapped_lines(note.lines.take(note.row), width).len() + k;
    lemma_cut_at(chars, segs, k);
    assert(all.subrange(start, start + own.len())[k] == all[start + k]);
    assert(all[cursor.1 as int] == chars.subrange(segs[k].0, segs[k].1));
    let shown = all.subrange(start, start + k);
    assert(shown =~= own.take(k));
    lemma_cut_taken(chars, segs, k);
    if k > 0 {
        lemma_glued(chars, segs, k);
        assert(segs[k - 1].1 == segs[k].0);
    } else {
        assert(shown =~= Seq::empty());
    }
}

proof fn lemma_cut_taken(chars: Seq<char>, ranges: Seq<(int, int)>, n: int)
    requires
        0 <= n <= ranges.len(),
    ensures
        cut(chars, ranges).take(n) == cut(chars, ranges.take(n)),
    decreases ranges.len() - n,
{
    lemma_cut_len(chars, ranges);
    lemma_cut_len(chars, ranges.take(n));
    if n == ranges.len() {
        assert(ranges.take(n) =~= ranges);
        assert(cut(chars, ranges).take(n) =~= cut(chars, ranges));
    } else {
        lemma_cut_taken(chars, ranges, n + 1);
        lemma_cut_len(chars, ranges.take(n + 1));
        assert(ranges.take(n + 1).drop_last() =~= ranges.take(n));
        assert(cut(chars, ranges).take(n) =~= cut(chars, ranges).take(n + 1).take(n));
        assert(cut(chars, ranges.take(n + 1)).take(n) =~= cut(chars, ranges.take(n)));
    }
}

proof fn lemma_before_frame(a: Seq<Seq<char>>, b: Seq<Seq<char>>, row: int)
    requires
        0 <= row <= a.len(),
        row <= b.len(),
        a.take(row) == b.take(row),
    ensures
        before(a, row) == before(b, row),
    decreases row,
{
    if row > 0 {
        assert(a.take(row - 1) =~= a.take(row).take(row - 1));
        assert(b.take(row - 1) =~= b.take(row).take(row - 1));
        lemma_before_frame(a, b, row - 1);
        assert(a[row - 1] == a.take(row)[row - 1]);
        assert(b[row - 1] == b.take(row)[row - 1]);
    }
}

proof fn lemma_below_frame(a: Seq<Seq<char>>, i: int, b: Seq<Seq<char>>, j: int)
    requires
        0 <= i < a.len(),
        0 <= j < b.len(),
        a.skip(i + 1) == b.skip(j + 1),
    ensures
        below(a, i) == below(b, j),
    decreases a.len() - i,
{
    let (x, y) = (a.skip(i + 1), b.skip(j + 1));
    assert(x.len() == a.len() - i - 1);
    assert(y.len() == b.len() - j - 1);
    if i + 1 < a.len() {
        assert(a[i + 1] == x[0]);
        assert(b[j + 1] == y[0]);
        assert(a.skip(i + 2) =~= x.drop_first());
        assert(b.skip(j + 2) =~= y.drop_first());
        lemma_below_frame(a, i + 1, b, j + 1);
    }
}

proof fn lemma_joined_before(lines: Seq<Seq<char>>, row: int)
    requires
        0 <= row < lines.len(),
    ensures
        joined(lines.take(row + 1), seq!['\n']) == before(lines, row) + lines[row],
    decreases row,
{
    let part = lines.take(row + 1);
    if row == 0 {
        assert(before(lines, 0) + lines[0] =~= part[0]);
    } else {
        lemma_joined_before(lines, row - 1);
        assert(part.drop_last() =~= lines.take(row));
        assert(part.last() == lines[row]);
        assert(joined(part, seq!['\n']) == joined(lines.take(row), seq!['\n']) + seq!['\n']
            + lines[row]);
    }
}

/// The text is what stands above the cursor's line, the line, and what stands
/// below it.
proof fn lemma_text_around(lines: Seq<Seq<char>>, row: int)
    requires
        0 <= row < lines.len(),
    ensures
        joined(lines, seq!['\n']) == before(lines, row) + lines[row] + below(lines, row),
    decreases lines.len() - row,
{
    if row == lines.len() - 1 {
        lemma_joined_before(lines, row);
        assert(lines.take(row + 1) =~= lines);
        assert(before(lines, row) + lines[row] =~= before(lines, row) + lines[row] + below(
            lines,
            row,
        ));
    } else {
        lemma_text_around(lines, row + 1);
        assert(before(lines, row + 1) + lines[row + 1] + below(lines, row + 1) =~= before(
            lines,
            row,
        ) + lines[row] + below(lines, row));
    }
}

/// Typing a character puts it into the text at the cursor and moves past it.
pub proof fn typing_inserts_at_the_cursor(note: Note, c: char)
    requires
        note.valid(),
    ensures
        note.inserted(c).valid(),
        note.inserted(c).text() == note.text().insert(note.offset(), c),
        note.inserted(c).offset() == note.offset() + 1,
{
    let next = note.inserted(c);
    let r = note.row;
    lemma_text_around(note.lines, r);
    lemma_text_around(next.lines, r);
    assert(next.lines.take(r) =~= note.lines.take(r));
    lemma_before_frame(note.lines, next.lines, r);
    assert(next.lines.skip(r + 1) =~= note.lines.skip(r + 1));
    lemma_below_frame(note.lines, r, next.lines, r);
    assert(next.text() =~= note.text().insert(note.offset(), c));
}

/// Enter puts a newline into the text at the cursor and moves past it.
pub proof fn enter_inserts_a_newline(note: Note)
    requires
        note.valid(),
    ensures
        note.broken().valid(),
        note.broken().text() == note.text().insert(note.offset(), '\n'),
        note.broken().offset() == note.offset() + 1,
{
    let next = note.broken();
    let r = note.row;
    let line = note.lines[r];
    lemma_text_around(note.lines, r);
    lemma_text_around(next.lines, r + 1);
    assert(next.lines.take(r) =~= note.lines.take(r));
    lemma_before_frame(note.lines, next.lines, r);
    assert(next.lines.skip(r + 2) =~= note.lines.skip(r + 1));
    lemma_below_frame(note.lines, r, next.lines, r + 1);
    assert(next.lines[r] == line.take(note.col));
    assert(next.lines[r + 1] == line.skip(note.col));
    assert(before(next.lines, r + 1) =~= before(note.lines, r) + line.take(note.col) + seq!['\n']);
    assert(next.text() =~= note.text().insert(note.offset(), '\n'));
}

proof fn lemma_joined_at(note: Note, row: int)
    requires
        0 <= row,
        row + 1 < note.lines.len(),
    ensures
        ({
            let at = before(note.lines, row).len() + note.lines[row].len();
            let lines = note.joined_at(row);
            &&& joined(lines, seq!['\n']) == note.text().remove(at as int)
            &&& lines.len() == note.lines.len() - 1
            &&& lines[row] == note.lines[row] + note.lines[row + 1]
            &&& before(lines, row) == before(note.lines, row)
            &&& 0 <= at < note.text().len()
        }),
{
    let lines = note.joined_at(row);
    lemma_text_around(note.lines, row + 1);
    lemma_text_around(lines, row);
    assert(lines.take(row) =~= note.lines.take(row));
    lemma_before_frame(note.lines, lines, row);
    assert(lines.skip(row + 1) =~= note.lines.skip(row + 2));
    lemma_below_frame(lines, row, note.lines, row + 1);
    let at = before(note.lines, row).len() + note.lines[row].len();
    assert(joined(lines, seq!['\n']) =~= note.text().remove(at as int));
}

/// Backspace takes the character before the cursor out of the text, a newline
/// like any other, and does nothing at its start.
pub proof fn backspace_removes_before_the_cursor(note: Note)
    requires
        note.valid(),
    ensures
        note.backspaced().valid(),
        note.offset() > 0 ==> note.backspaced().text() == note.text().remove(note.offset() - 1)
            && note.backspaced().offset() == note.offset() - 1,
        note.offset() == 0 ==> note.backspaced() == note,
{
    let next = note.backspaced();
    let r = note.row;
    if note.col > 0 {
        lemma_text_around(note.lines, r);
        lemma_text_around(next.lines, r);
        assert(next.lines.take(r) =~= note.lines.take(r));
        lemma_before_frame(note.lines, next.lines, r);
        assert(next.lines.skip(r + 1) =~= note.lines.skip(r + 1));
        lemma_below_frame(note.lines, r, next.lines, r);
        assert(next.text() =~= note.text().remove(note.offset() - 1));
    } else if r > 0 {
        lemma_joined_at(note, r - 1);
        assert(before(note.lines, r).len() == before(note.lines, r - 1).len() + note.lines[r
            - 1].len() + 1);
    }
}

/// Delete takes the character after the cursor out of the text and leaves the
/// cursor where it is; it does nothing at the end of the text.
pub proof fn delete_removes_after_the_cursor(note: Note)
    requires
        note.valid(),
    ensures
        note.deleted().valid(),
        note.offset() < note.text().len() ==> note.deleted().text() == note.text().remove(
            note.offset(),
        ) && note.deleted().offset() == note.offset(),
        note.offset() == note.text().len() ==> note.deleted() == note,
        note.offset() <= note.text().len(),
{
    let next = note.deleted();
    let r = note.row;
    lemma_text_around(note.lines, r);
    if note.col < note.lines[r].len() {
        lemma_text_around(next.lines, r);
        assert(next.lines.take(r) =~= note.lines.take(r));
        lemma_before_frame(note.lines, next.lines, r);
        assert(next.lines.skip(r + 1) =~= note.lines.skip(r + 1));
        lemma_below_frame(note.lines, r, next.lines, r);
        assert(next.text() =~= note.text().remove(note.offset()));
    } else if r + 1 < note.lines.len() {
        lemma_joined_at(note, r);
    }
}

/// Left and Right step over one character of the text, newlines included, and
/// stop at its ends.
pub proof fn left_and_right_step_by_one(note: Note)
    requires
        note.valid(),
    ensures
        note.left().valid(),
        note.right().valid(),
        note.left().text() == note.text(),
        note.right().text() == note.text(),
        note.left().offset() == if note.offset() > 0 {
            note.offset() - 1
        } else {
            0
        },
        note.right().offset() == if note.offset() < note.text().len() {
            note.offset() + 1
        } else {
            note.offset()
        },
{
    let r = note.row;
    lemma_text_around(note.lines, r);
    if r > 0 {
        assert(before(note.lines, r).len() == before(note.lines, r - 1).len() + note.lines[r
            - 1].len() + 1);
    }
    if r + 1 < note.lines.len() {
        assert(before(note.lines, r + 1).len() == before(note.lines, r).len()
            + note.lines[r].len() + 1);
    }
}

/// Backspace undoes a typed character and an Enter alike.
pub proof fn backspace_undoes_typing(note: Note, c: char)
    requires
        note.valid(),
    ensures
        note.inserted(c).backspaced() == note,
        note.broken().backspaced() == note,
{
    let typed = note.inserted(c).backspaced();
    assert(note.lines[note.row].insert(note.col, c).remove(note.col) =~= note.lines[note.row]);
    assert(typed.lines =~= note.lines);
    let split = note.broken().backspaced();
    let line = note.lines[note.row];
    assert(line.take(note.col) + line.skip(note.col) =~= line);
    assert(split.lines =~= note.lines);
}

/// Delete is a step right and a Backspace, where the cursor is not at the end of the
/// text; there it does nothing.
pub proof fn deleting_is_a_step_right_and_a_backspace(note: Note)
    requires
        note.valid(),
    ensures
        note.offset() < note.text().len() ==> note.deleted() == note.right().backspaced(),
        note.offset() == note.text().len() ==> note.deleted() == note,
{
    let r = note.row;
    delete_removes_after_the_cursor(note);
    lemma_text_around(note.lines, r);
    if note.col < note.lines[r].len() || r + 1 < note.lines.len() {
        assert(note.deleted() =~= note.right().backspaced());
    }
}

} // verus!
