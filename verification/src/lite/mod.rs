//! The moq-lite protocol.

pub mod announce;
pub mod announce_feed;
pub mod announce_intake;
pub mod connecting;
pub mod datagram;
pub mod fetch;
pub mod frames;
pub mod laws;
pub mod parameters;
pub mod probe;
pub mod serve;
pub mod session;
pub mod setup;
pub mod stream;
pub mod subscribe;
pub mod subscriptions;
pub mod track;
pub mod track_serve;
pub mod version;

pub use announce::{restart_supported, AnnounceBroadcast, AnnounceInit, AnnounceOk, AnnounceRequest};
pub use datagram::Datagram;
pub use fetch::Fetch;
pub use parameters::Parameters;
pub use setup::{PeerSetup, ProbeLevel, Role, Setup};
pub use subscribe::{
    Subscribe, SubscribeDrop, SubscribeEnd, SubscribeOk, SubscribeResponse, SubscribeStart, SubscribeUpdate,
};
pub use track::{Track, TrackInfo};
pub use version::Version;
