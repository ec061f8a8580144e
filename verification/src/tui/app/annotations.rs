//! Note and tag actions: opening the editors and persisting what they return.
//!
//! Both editors are self-contained widgets ([`crate::tui::note_editor`],
//! [`crate::tui::tag_editor`]) that own their state and key handling. This file
//! is only the seam: open, hand keys over, and act on the returned action.

use vstd::prelude::*;
use vstd::string::*;

use super::caches::{copy_strings, lookup};
use super::tasks::{refresh_tasks, Task};
use super::{expiry, failure, failure_message, says, scheduled, App, ConfirmAction, InputMode};
use crate::tag::tag_set;
use crate::text::{join, joined, pieces, texts, tokens, views};
use crate::tui::key::KeyEvent;
use crate::tui::note_editor::{note_action, NoteEditor, NoteEditorAction};
use crate::tui::tag_editor::{
    line_after, rebuilds, row_after, tag_action, TagEditor, TagEditorAction,
};

verus! {

pub open spec fn note_valid(editor: Option<NoteEditor>) -> bool {
    editor matches Some(e) ==> e@.valid()
}

pub open spec fn tags_valid(editor: Option<TagEditor>) -> bool {
    editor matches Some(e) ==> e.valid()
}

/// A fresh editor on a note: its text, with the cursor at the end.
pub open spec fn opens_note(editor: NoteEditor, tx_id: i64, note: Seq<char>) -> bool {
    &&& editor.owner() == tx_id
    &&& editor.opened_with() == note
    &&& editor@.valid()
    &&& editor@.lines == pieces(note, '\n')
    &&& editor@.row == editor@.lines.len() - 1
    &&& editor@.col == editor@.lines.last().len()
    &&& editor@.text() == note
}

/// A fresh editor on tags: each as a word, with the cursor behind them.
pub open spec fn opens_tags(
    editor: TagEditor,
    tx_id: i64,
    tags: Seq<Seq<char>>,
    known: Seq<Seq<char>>,
) -> bool {
    &&& editor.valid()
    &&& editor.owner() == tx_id
    &&& editor.known() == known
    &&& editor@.input == if tags.len() == 0 {
        Seq::empty()
    } else {
        joined(tags, seq![' ']).push(' ')
    }
    &&& editor@.cursor == editor@.input.len()
    &&& editor@.offers(editor.known(), editor.offered())
    &&& editor.row() == 0
}

/// What the status says of stored tags.
pub open spec fn tagged_text(stored: Seq<Seq<char>>) -> Seq<char> {
    if stored.len() == 0 {
        "Tags cleared"@
    } else {
        "Tagged #"@ + joined(stored, " #"@)
    }
}

impl App {
    /// The open editors are in a valid state.
    pub open spec fn editors_valid(self) -> bool {
        note_valid(self.note_editor) && tags_valid(self.tag_editor)
    }

    // ==================== Notes ====================

    /// The state after [`Self::start_note_edit`].
    pub open spec fn start_note_edit_leads_to(self, next: App) -> bool {
        match self.selected_tx() {
            Some(tx) => {
                &&& next == (App {
                    note_editor: next.note_editor,
                    input_mode: InputMode::Note,
                    ..self
                })
                &&& next.note_editor matches Some(editor)
                &&& opens_note(
                    editor,
                    tx.id,
                    match lookup(self.note_by_tx_id@, tx.id) {
                        Some(note) => note@,
                        None => Seq::empty(),
                    },
                )
            },
            None => next == self,
        }
    }

    /// Open the note editor for the selected transaction (`n`). A no-op on
    /// tabs whose rows aren't transactions.
    pub fn start_note_edit(&mut self)
        ensures
            old(self).start_note_edit_leads_to(*final(self)),
    {
        let tx_id: i64 = match self.selected_transaction() {
            Some(tx) => tx.id,
            None => return,
        };
        let note = match self.get_cached_note(tx_id) {
            Some(note) => note.clone(),
            None => String::new(),
        };
        assert(lookup(self.note_by_tx_id@, tx_id) is None ==> note@ =~= Seq::empty());
        self.note_editor = Some(NoteEditor::new(tx_id, &note));
        self.input_mode = InputMode::Note;
    }

    /// The same editor state in `next`, with the rest as in `self`.
    pub open spec fn note_kept(self, editor: NoteEditor, next: Option<NoteEditor>) -> bool {
        &&& next matches Some(e)
        &&& e@ == editor@
        &&& e.owner() == editor.owner()
        &&& e.opened_with() == editor.opened_with()
    }

    pub open spec fn note_keyed(self, key: KeyEvent, next: App) -> bool {
        match self.note_editor {
            Some(editor) => match note_action(key) {
                NoteEditorAction::Continue => {
                    &&& next == (App { note_editor: next.note_editor, ..self })
                    &&& next.note_editor matches Some(e)
                    &&& e@ == editor@.after_key(key.code)
                    &&& e.owner() == editor.owner()
                    &&& e.opened_with() == editor.opened_with()
                },
                NoteEditorAction::Save => {
                    &&& next == (App {
                        note_editor: next.note_editor,
                        agenda: next.agenda,
                        ..self
                    })
                    &&& self.note_kept(editor, next.note_editor)
                    &&& next.agenda@.len() > 0
                    &&& next.agenda@[0] matches Task::SaveNote { tx_id, text }
                    &&& tx_id == editor.owner()
                    &&& text@ == editor@.text()
                    &&& scheduled(self, next, seq![next.agenda@[0]])
                },
                NoteEditorAction::Cancel => if editor@.text() != editor.opened_with() {
                    &&& next == (App {
                        note_editor: next.note_editor,
                        confirm_message: next.confirm_message,
                        confirm_action: Some(ConfirmAction::DiscardNoteEdit),
                        input_mode: InputMode::Confirm,
                        ..self
                    })
                    &&& self.note_kept(editor, next.note_editor)
                    &&& says(next.confirm_message, "Discard unsaved changes to this note?"@)
                } else {
                    next == (App { note_editor: None, input_mode: InputMode::Normal, ..self })
                },
            },
            None => next == self,
        }
    }

    pub fn handle_note_key(&mut self, key: &KeyEvent)
        requires
            old(self).editors_valid(),
        ensures
            final(self).editors_valid(),
            old(self).note_keyed(*key, *final(self)),
    {
        let mut editor = match self.note_editor.take() {
            Some(editor) => editor,
            None => return,
        };
        let action = editor.handle_key(key);
        self.note_editor = Some(editor);
        match action {
            NoteEditorAction::Continue => {},
            NoteEditorAction::Save => self.save_note(),
            NoteEditorAction::Cancel => self.request_exit_note_edit(),
        }
    }

    fn save_note(&mut self)
        ensures
            match old(self).note_editor {
                Some(editor) => {
                    &&& *final(self) == (App { agenda: final(self).agenda, ..*old(self) })
                    &&& final(self).agenda@.len() > 0
                    &&& final(self).agenda@[0] matches Task::SaveNote { tx_id, text }
                    &&& tx_id == editor.owner()
                    &&& text@ == editor@.text()
                    &&& scheduled(*old(self), *final(self), seq![final(self).agenda@[0]])
                },
                None => *final(self) == *old(self),
            },
    {
        let (tx_id, text): (i64, String) = match &self.note_editor {
            Some(editor) => (editor.tx_id(), editor.text()),
            None => return,
        };
        let task = Task::SaveNote { tx_id, text };
        self.schedule_one(task);
        assert(self.agenda@[0] == task);
    }

    /// The state after [`Self::on_note_saved`].
    pub open spec fn on_note_saved_leads_to(self, result: Result<bool, String>, next: App) -> bool {
        match result {
            Ok(kept) => next == (App {
                note_editor: None,
                input_mode: InputMode::Normal,
                similarity_stale: true,
                status: next.status,
                agenda: next.agenda,
                ..self
            }) && scheduled(self, next, refresh_tasks()) && (next.status matches Some(s) && s.1
                == expiry(self.clock) && s.0@
                == if kept {
                "Note saved"@
            } else {
                "Note cleared"@
            }),
            Err(e) => next == (App {
                error_message: next.error_message,
                ..self
            }) && says(next.error_message, failure("save note"@, e@)),
        }
    }

    /// Outcome of saving a note; `true` where one was kept.
    pub fn on_note_saved(&mut self, result: Result<bool, String>)
        ensures
            old(self).on_note_saved_leads_to(result, *final(self)),
    {
        match result {
            Ok(kept) => {
                self.close_note_editor();
                self.refresh_data();
                let message = if kept {
                    "Note saved".to_owned()
                } else {
                    "Note cleared".to_owned()
                };
                self.show_status(message);
            },
            Err(e) => {
                self.error_message = Some(failure_message("save note", &e));
            },
        }
    }

    /// Esc out of the note editor, confirming first when there are unsaved
    /// edits — the same guard the filter-edit screen uses.
    pub fn request_exit_note_edit(&mut self)
        ensures
            if old(self).note_editor matches Some(editor) && editor@.text()
                != editor.opened_with() {
                says(final(self).confirm_message, "Discard unsaved changes to this note?"@)
                    && *final(self) == (App {
                    confirm_message: final(self).confirm_message,
                    confirm_action: Some(ConfirmAction::DiscardNoteEdit),
                    input_mode: InputMode::Confirm,
                    ..*old(self)
                })
            } else {
                *final(self) == (App {
                    note_editor: None,
                    input_mode: InputMode::Normal,
                    ..*old(self)
                })
            },
    {
        let dirty = match &self.note_editor {
            Some(editor) => editor.is_dirty(),
            None => false,
        };
        if dirty {
            self.confirm(
                "Discard unsaved changes to this note?".to_owned(),
                ConfirmAction::DiscardNoteEdit,
            );
        } else {
            self.close_note_editor();
        }
    }

    // ==================== Tags ====================

    /// The state after [`Self::start_tag_edit`].
    pub open spec fn start_tag_edit_leads_to(self, next: App) -> bool {
        match self.selected_tx() {
            Some(tx) => {
                &&& next == (App {
                    tag_editor: next.tag_editor,
                    input_mode: InputMode::Tags,
                    ..self
                })
                &&& next.tag_editor matches Some(editor)
                &&& opens_tags(
                    editor,
                    tx.id,
                    match lookup(self.tags_by_tx_id@, tx.id) {
                        Some(tags) => views(tags@),
                        None => Seq::empty(),
                    },
                    views(self.tag_options@),
                )
            },
            None => next == self,
        }
    }

    /// Open the tag editor for the selected transaction (`#`). A no-op on tabs
    /// whose rows aren't transactions.
    pub fn start_tag_edit(&mut self)
        ensures
            old(self).start_tag_edit_leads_to(*final(self)),
    {
        let tx_id: i64 = match self.selected_transaction() {
            Some(tx) => tx.id,
            None => return,
        };
        let tags = self.get_cached_tags(tx_id);
        let known = copy_strings(self.tag_options());
        self.tag_editor = Some(TagEditor::new(tx_id, tags, known));
        self.input_mode = InputMode::Tags;
    }

    pub open spec fn tags_keyed(self, key: KeyEvent, next: App) -> bool {
        match self.tag_editor {
            Some(editor) => match tag_action(key) {
                TagEditorAction::Continue => {
                    &&& next == (App { tag_editor: next.tag_editor, ..self })
                    &&& next.tag_editor matches Some(e)
                    &&& tag_editor_keyed(editor, key, e)
                },
                TagEditorAction::Save => {
                    &&& next == (App { agenda: next.agenda, ..self })
                    &&& next.agenda@.len() > 0
                    &&& next.agenda@[0] matches Task::SaveTags { tx_id, tags }
                    &&& tx_id == editor.owner()
                    &&& views(tags@) == tag_set(texts(editor@.input, tokens(editor@.input)))
                    &&& scheduled(self, next, seq![next.agenda@[0]])
                },
                TagEditorAction::Cancel => next == (App {
                    tag_editor: None,
                    input_mode: InputMode::Normal,
                    ..self
                }),
            },
            None => next == self,
        }
    }

    pub fn handle_tag_key(&mut self, key: &KeyEvent)
        requires
            old(self).editors_valid(),
        ensures
            final(self).editors_valid(),
            old(self).tags_keyed(*key, *final(self)),
    {
        let mut editor = match self.tag_editor.take() {
            Some(editor) => editor,
            None => return,
        };
        let action = editor.handle_key(key);
        self.tag_editor = Some(editor);
        match action {
            TagEditorAction::Continue => {},
            TagEditorAction::Save => self.save_tags(),
            TagEditorAction::Cancel => self.close_tag_editor(),
        }
    }

    fn save_tags(&mut self)
        ensures
            match old(self).tag_editor {
                Some(editor) => {
                    &&& *final(self) == (App { agenda: final(self).agenda, ..*old(self) })
                    &&& final(self).agenda@.len() > 0
                    &&& final(self).agenda@[0] matches Task::SaveTags { tx_id, tags }
                    &&& tx_id == editor.owner()
                    &&& views(tags@) == tag_set(texts(editor@.input, tokens(editor@.input)))
                    &&& scheduled(*old(self), *final(self), seq![final(self).agenda@[0]])
                },
                None => *final(self) == *old(self),
            },
    {
        let (tx_id, tags): (i64, Vec<String>) = match &self.tag_editor {
            Some(editor) => (editor.tx_id(), editor.tags()),
            None => return,
        };
        let task = Task::SaveTags { tx_id, tags };
        self.schedule_one(task);
        assert(self.agenda@[0] == task);
    }

    /// The state after [`Self::on_tags_saved`].
    pub open spec fn on_tags_saved_leads_to(
        self,
        result: Result<Vec<String>, String>,
        next: App,
    ) -> bool {
        match result {
            Ok(stored) => next == (App {
                tag_editor: None,
                input_mode: InputMode::Normal,
                similarity_stale: true,
                status: next.status,
                agenda: next.agenda,
                ..self
            }) && scheduled(self, next, refresh_tasks()) && (next.status matches Some(s) && s.1
                == expiry(self.clock) && s.0@
                == tagged_text(views(stored@))),
            Err(e) => next == (App {
                error_message: next.error_message,
                ..self
            }) && says(next.error_message, failure("save tags"@, e@)),
        }
    }

    /// Outcome of saving tags: those that are stored. Everything is reloaded,
    /// and with it `tag:` autocomplete — a tag created or dropped here must
    /// show up immediately.
    pub fn on_tags_saved(&mut self, result: Result<Vec<String>, String>)
        ensures
            old(self).on_tags_saved_leads_to(result, *final(self)),
    {
        match result {
            Ok(stored) => {
                self.close_tag_editor();
                self.refresh_data();
                let message = if stored.len() == 0 {
                    "Tags cleared".to_owned()
                } else {
                    let mut m = "Tagged #".to_owned();
                    m.append(&join(&stored, " #"));
                    m
                };
                self.show_status(message);
            },
            Err(e) => {
                self.error_message = Some(failure_message("save tags", &e));
            },
        }
    }

    pub fn close_tag_editor(&mut self)
        ensures
            *final(self) == (App {
                tag_editor: None,
                input_mode: InputMode::Normal,
                ..*old(self)
            }),
    {
        self.tag_editor = None;
        self.input_mode = InputMode::Normal;
    }
}

/// The tag editor after a key that neither saves nor cancels.
pub open spec fn tag_editor_keyed(was: TagEditor, key: KeyEvent, now: TagEditor) -> bool {
    let chosen = was.highlighted();
    &&& now.owner() == was.owner()
    &&& now.known() == was.known()
    &&& now@ == line_after(was@, key, chosen)
    &&& if rebuilds(was@, key, chosen) {
        now@.offers(now.known(), now.offered()) && now.row() == 0
    } else {
        now.offered() == was.offered() && now.row() == row_after(
            was.row(),
            was.offered().len() as int,
            key.code,
        )
    }
}

} // verus!
