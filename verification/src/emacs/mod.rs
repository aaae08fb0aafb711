//! The Emacs layer: chords and keymaps, the command table, read-only text buffers, incremental
//! search, the minibuffer and the kill and mark rings.

pub mod commands;
pub mod dispatch;
pub mod isearch;
pub mod key_laws;
pub mod keymap;
pub mod minibuffer;
pub mod open_target;
pub mod render;
pub mod rings;
pub mod state;
pub mod text_mode;
