//! Media over QUIC networking: the rules of the moq-lite protocol and the
//! broadcast / track / group / frame model that it carries.
//!
//! Nothing here performs I/O or awaits. Wire messages are read from and written to
//! byte buffers, and every long-running activity of a session (announcing, serving a
//! track, feeding a subscription) is a state machine: the caller hands it an event
//! and performs the actions that come back. The async transport around it lives in
//! the companion crate under `app/`.

mod bytes;
pub mod client;
pub mod coding;
pub mod error;
pub mod keyed;
pub mod lite;
pub mod model;
pub mod path;
pub mod poll;
mod random;
pub mod text;
