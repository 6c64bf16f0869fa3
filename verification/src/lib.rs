//! Pika: the verified core of a keyboard-driven terminal editor.
//!
//! The crate holds the editing model (cursor, selections, undo history, the
//! rope-backed document and the buffer that edits it), the state machines of
//! the overlays (tab bar, dialogs, popups, search panels), the file-tree
//! model and the LSP message framing.

pub mod app;
pub mod app_history;
pub mod config;
pub mod editor;
pub mod events;
pub mod files;
pub mod input;
pub mod lsp;
pub mod path;
pub mod text;
pub mod ui;
