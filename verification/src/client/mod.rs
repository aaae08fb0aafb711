//! The thin client: what it sends, what it shows, and which server it talks to.

pub mod attach;
pub mod encoding;
pub mod error;
pub mod graphics;
pub mod handshake;
pub mod image_preview;
pub mod input_laws;
pub mod notify;
pub mod overlay;
pub mod paste;
pub mod runtime;
pub mod session_laws;
pub mod switching;
pub mod terminal;
pub mod typed;
pub mod waiting_laws;
