//! A keyboard-driven, modal plain-text editor core for a vault of linked
//! notes.
//!
//! The crate is organised around a small number of plain data types:
//!
//! * [`document::Document`] — one editable text buffer: lines of characters,
//!   a cursor, an optional selection anchor, a yank register, an undo/redo
//!   history of snapshots, a backing path and a search pattern.
//! * [`vim::Vim`] — the modal input interpreter: a finite state machine over
//!   `(mode, pending key)` that turns one key event into cursor motions, text
//!   edits, mode transitions and higher-level commands.
//! * [`editor::Editor`] — one tab: an ordered list of documents sharing a
//!   visual slot, with a current index.
//! * [`vault::Vault`] — the session: the tabs, the current-tab index, the
//!   registry of known note paths and the run flag.
//!
//! Rendering, raw input decoding, the filesystem and the clock live outside
//! the crate; they hand plain values in and take plain values back.

pub mod command;
pub mod date;
pub mod document;
pub mod editor;
pub mod fuzzy;
pub mod homepage;
pub mod input;
pub mod laws;
pub mod link;
pub mod text;
pub mod vault;
pub mod vim;
