//! Federation: sessions of other machines, watched over SSH.
//!
//! Every endpoint stays the authority for its own session. This side holds qualified references, a
//! snapshot of each endpoint, and applies the endpoint's events to it.

pub mod bridge;
pub mod directory;
pub mod endpoint;
pub mod projection;
pub mod snapshot_laws;
pub mod watch;
