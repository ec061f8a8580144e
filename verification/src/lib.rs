//! Tally: the decisions behind a personal transaction aggregator.
//!
//! The `store` modules hold the ledger of bank transactions and every operation
//! on it; the `tui` modules hold the state machine of its terminal interface.
//! Both are free of I/O: a program around this crate follows the store's journal
//! in its database, reads the keys and draws the screen.

pub mod find;
pub mod fuzzy;
pub mod json;
pub mod model;
pub mod search;
pub mod sort;
pub mod store;
pub mod tag;
pub mod text;
pub mod text_laws;
pub mod time;
pub mod tui;
