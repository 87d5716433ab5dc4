//! The model that sessions carry: origins hold broadcasts, broadcasts hold tracks,
//! tracks hold groups, groups hold frames.

pub mod announce;
pub mod bandwidth;
pub mod broadcast;
pub mod cache;
pub mod channels;
pub mod compression;
pub mod datagram;
pub mod dynamic;
pub mod frame;
pub mod group;
pub mod handles;
pub mod origin;
pub mod registry;
pub mod requests;
pub mod route;
pub mod route_key;
pub mod scope;
pub mod subscription;
pub mod time;
pub mod track;
pub mod tree;
pub mod weak_cache;

pub use compression::Compression;
pub use datagram::{Datagram, MAX_DATAGRAM_PAYLOAD};
pub use origin::{InvalidOrigin, Origin, OriginList, TooManyOrigins};
pub use subscription::Subscription;
pub use time::{Clock, Duration, Instant, TimeOverflow, Timescale, Timestamp};
