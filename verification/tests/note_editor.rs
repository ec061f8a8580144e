use tally::tui::key::{KeyCode, KeyEvent};
use tally::tui::note_editor::{NoteEditor, NoteEditorAction};

fn key(code: KeyCode) -> KeyEvent {
    KeyEvent::plain(code)
}

fn ctrl(c: char) -> KeyEvent {
    KeyEvent::ctrl(c)
}

fn typed(editor: &mut NoteEditor, text: &str) {
    for c in text.chars() {
        editor.handle_key(&key(KeyCode::Char(c)));
    }
}

#[test]
fn starts_at_the_end_of_an_existing_note() {
    let editor = NoteEditor::new(1, "first\nsecond");
    assert_eq!(editor.position(), (1, 6));
    assert!(!editor.is_dirty());
}

#[test]
fn enter_splits_the_line_and_backspace_rejoins_it() {
    let mut editor = NoteEditor::new(1, "");
    typed(&mut editor, "abcd");
    editor.handle_key(&key(KeyCode::Left));
    editor.handle_key(&key(KeyCode::Enter));
    assert_eq!(editor.text(), "abc\nd");
    assert_eq!(editor.position(), (1, 0));

    editor.handle_key(&key(KeyCode::Backspace));
    assert_eq!(editor.text(), "abcd");
    assert_eq!(editor.position(), (0, 3));
}

#[test]
fn delete_at_end_of_line_pulls_up_the_next() {
    let mut editor = NoteEditor::new(1, "ab\ncd");
    editor.handle_key(&key(KeyCode::Up));
    editor.handle_key(&key(KeyCode::End));
    editor.handle_key(&key(KeyCode::Delete));
    assert_eq!(editor.text(), "abcd");
}

#[test]
fn vertical_movement_clamps_to_the_shorter_line() {
    let mut editor = NoteEditor::new(1, "long line here\nab");
    editor.handle_key(&key(KeyCode::Up));
    assert_eq!(editor.position().1, 2);
    editor.handle_key(&key(KeyCode::End));
    assert_eq!(editor.position().1, 14);
}

#[test]
fn ctrl_s_saves_esc_cancels_and_enter_never_saves() {
    let mut editor = NoteEditor::new(1, "");
    assert_eq!(
        editor.handle_key(&key(KeyCode::Enter)),
        NoteEditorAction::Continue
    );
    assert_eq!(editor.handle_key(&ctrl('s')), NoteEditorAction::Save);
    assert_eq!(
        editor.handle_key(&key(KeyCode::Esc)),
        NoteEditorAction::Cancel
    );
}

#[test]
fn dirty_tracks_the_original_text() {
    let mut editor = NoteEditor::new(1, "note");
    assert!(!editor.is_dirty());
    typed(&mut editor, "!");
    assert!(editor.is_dirty());
    editor.handle_key(&key(KeyCode::Backspace));
    assert!(!editor.is_dirty());
}

#[test]
fn layout_wraps_on_word_boundaries_and_places_the_cursor() {
    let editor = NoteEditor::new(1, "alpha beta gamma");
    let layout = editor.layout(11);
    assert_eq!(layout.lines, vec!["alpha beta ", "gamma"]);
    // The cursor sits at end-of-text, on the last visual row.
    assert_eq!(layout.cursor, (5, 1));
}

#[test]
fn layout_hard_breaks_a_token_longer_than_the_width() {
    let editor = NoteEditor::new(1, "aaaaaaaa");
    let layout = editor.layout(3);
    assert_eq!(layout.lines, vec!["aaa", "aaa", "aa"]);
    assert_eq!(layout.cursor, (2, 2));
}

#[test]
fn layout_keeps_blank_lines_as_rows() {
    let editor = NoteEditor::new(1, "a\n\nb");
    let layout = editor.layout(10);
    assert_eq!(layout.lines, vec!["a", "", "b"]);
    assert_eq!(layout.cursor, (1, 2));
}

#[test]
fn multibyte_text_edits_by_character_not_byte() {
    let mut editor = NoteEditor::new(1, "café");
    editor.handle_key(&key(KeyCode::Backspace));
    assert_eq!(editor.text(), "caf");
    typed(&mut editor, "é!");
    assert_eq!(editor.text(), "café!");
    editor.handle_key(&key(KeyCode::Left));
    editor.handle_key(&key(KeyCode::Backspace));
    assert_eq!(editor.text(), "caf!");
}

#[test]
fn backspace_takes_back_what_was_typed() {
    let mut editor = NoteEditor::new(1, "ab\ncd");
    editor.move_left();
    editor.insert_char('x');
    assert_eq!(editor.text(), "ab\ncxd");
    editor.backspace();
    assert_eq!(editor.text(), "ab\ncd");
    assert_eq!(editor.position(), (1, 1));

    editor.insert_newline();
    assert_eq!(editor.text(), "ab\nc\nd");
    editor.backspace();
    assert_eq!(editor.text(), "ab\ncd");
    assert_eq!(editor.position(), (1, 1));
}

#[test]
fn delete_is_a_step_right_and_a_backspace() {
    // Within a line, at its end, and at the end of the note.
    for steps in 0..6 {
        let mut one = NoteEditor::new(1, "ab\ncd");
        for _ in 0..steps {
            one.move_left();
        }
        let mut other = NoteEditor::new(1, "ab\ncd");
        for _ in 0..steps {
            other.move_left();
        }
        one.delete();
        if steps > 0 {
            other.move_right();
            other.backspace();
        }
        assert_eq!(one.text(), other.text());
        assert_eq!(one.position(), other.position());
    }
}

#[test]
fn a_layout_shows_every_line_whole_and_the_cursor_in_it() {
    let note = "a longer line of words\n\nunbreakablyLongWord and more";
    for width in 0..30 {
        let mut editor = NoteEditor::new(1, note);
        for _ in 0..=note.chars().count() {
            let layout = editor.layout(width);
            assert!(layout.lines.iter().all(|l| l.chars().count() <= width.max(1)));
            assert_eq!(layout.lines.concat(), note.replace('\n', ""));
            let (col, row) = layout.cursor;
            assert!(col <= layout.lines[row].chars().count());
            editor.move_left();
        }
    }
}
