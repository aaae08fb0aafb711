//! The verified core of the herdr terminal multiplexer.

pub mod agent_archive;
pub mod agent_reopen;
pub mod cli;
pub mod client;
pub mod emacs;
pub mod event_hub;
pub mod federation;
pub mod input;
pub mod order;
pub mod runtime_identity;
pub mod schema;
pub mod search;
pub mod server;
pub mod session;
pub mod sexp;
pub mod text;
pub mod text_field_laws;
pub mod text_input;
pub mod workspace_creation;
