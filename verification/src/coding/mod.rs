//! The byte-level coding shared by every message.

pub mod decode;
pub mod encode;
pub mod list;
pub mod message;
pub mod varint;

pub use decode::{Decode, DecodeError, Wire};
pub use encode::{Encode, EncodeError};
pub use message::Message;
pub use varint::{BoundsExceeded, VarInt};
