//! A track is a collection of semi-reliable and semi-ordered streams.
//!
//! A producer creates groups with a sequence number. The groups are cached for a limited
//! time, and each subscriber is a cursor into that cache: it may not receive all groups in
//! order or at all. A consumer names a track that can be subscribed to, any number of
//! times.

pub mod demand;
pub mod info;
pub mod laws;
pub mod model;
pub mod producer;
pub mod state;
pub mod store;
pub mod subscriber;

pub use info::Info;
pub use producer::{Demand, Dynamic, GroupRequest, Producer, Request};
pub use state::TrackState;
pub use subscriber::{Consumer, Fetch, InfoQuery, Subscribe, Subscriber};
