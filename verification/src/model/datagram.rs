//! Best-effort payloads that travel beside a track's groups.

use vstd::prelude::*;

use crate::bytes::copy_of;
use crate::model::time::Timestamp;

verus! {

/// The largest payload of a datagram, in bytes: one that fits a single QUIC datagram on
/// any path.
pub const MAX_DATAGRAM_PAYLOAD: usize = 1200;

/// A single best-effort payload, with a sequence number out of the same namespace as the
/// track's groups.
#[derive(Debug)]
pub struct Datagram {
    /// The sequence number.
    pub sequence: u64,
    /// Presentation timestamp.
    pub timestamp: Timestamp,
    /// The payload.
    pub payload: Vec<u8>,
}

/// What a [`Datagram`] stands for.
pub struct DatagramModel {
    pub sequence: u64,
    pub timestamp: Timestamp,
    pub payload: Seq<u8>,
}

impl View for Datagram {
    type V = DatagramModel;

    open spec fn view(&self) -> DatagramModel {
        DatagramModel {
            sequence: self.sequence,
            timestamp: self.timestamp,
            payload: self.payload@,
        }
    }
}

impl Clone for Datagram {
    fn clone(&self) -> (r: Datagram)
        ensures
            r@ == self@,
    {
        Datagram {
            sequence: self.sequence,
            timestamp: self.timestamp,
            payload: copy_of(self.payload.as_slice()),
        }
    }
}

} // verus!
