//! What the server does for its clients.

pub mod image_preview;
