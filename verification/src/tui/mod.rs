//! The terminal interface: widgets, application state and key handling.

pub mod app;
pub mod editor_laws;
pub mod filtered_list;
pub mod input;
pub mod input_laws;
pub mod key;
pub mod keymap;
pub mod keymap_laws;
pub mod keys;
pub mod modal;
pub mod note_editor;
pub mod search_bar;
pub mod search_bar_laws;
pub mod session;
pub mod session_laws;
pub mod table;
pub mod tag_editor;
