//! The versions of the lite protocol and what each of them carries.

use vstd::prelude::*;

verus! {

/// A lite protocol version.
#[derive(Debug, Clone, Copy, PartialEq, Eq, Structural, Hash)]
pub enum Version {
    Lite01,
    Lite02,
    Lite03,
    Lite04,
    /// lite-05. Adds the TRACK stream (immutable per-track properties incl.
    /// timescale), zigzag-delta timestamps in per-frame headers, and drops
    /// SUBSCRIBE_OK/FETCH_OK.
    Lite05,
    /// lite-06, work in progress. Announcements are retracted by id and carry the
    /// cost of their route.
    Lite06Wip,
}

impl Version {
    /// The position of this version in the history of the protocol.
    pub open spec fn rank(self) -> int {
        match self {
            Version::Lite01 => 1,
            Version::Lite02 => 2,
            Version::Lite03 => 3,
            Version::Lite04 => 4,
            Version::Lite05 => 5,
            Version::Lite06Wip => 6,
        }
    }

    /// Whether the version has lite-05's dedicated TRACK stream and related stream
    /// layout changes.
    ///
    /// This is the common feature boundary for TRACK_INFO, FETCH streams,
    /// SUBSCRIBE_START/END, and per-frame timestamp prefixes.
    pub fn has_track_stream(self) -> (r: bool)
        ensures
            r == (self.rank() >= 5),
    {
        match self {
            Version::Lite01 | Version::Lite02 | Version::Lite03 | Version::Lite04 => false,
            _ => true,
        }
    }

    /// Whether the session opens a unidirectional Setup Stream carrying a single SETUP
    /// message (capabilities + optional Path). Added in lite-05; the older bidirectional
    /// setup exchange (Lite01/02) and the no-setup drafts (Lite03/04) don't use it.
    pub fn has_setup_stream(self) -> (r: bool)
        ensures
            r == (self.rank() >= 5),
    {
        match self {
            Version::Lite01 | Version::Lite02 | Version::Lite03 | Version::Lite04 => false,
            _ => true,
        }
    }

    /// Whether the session may deliver groups over unreliable QUIC datagrams. A datagram
    /// carries one single-frame group's `subscribe | sequence | timestamp | payload` and
    /// is routed over the existing subscription. Added in lite-05.
    pub fn has_datagrams(self) -> (r: bool)
        ensures
            r == (self.rank() >= 5),
    {
        match self {
            Version::Lite01 | Version::Lite02 | Version::Lite03 | Version::Lite04 => false,
            _ => true,
        }
    }

    /// Whether announce streams begin with ANNOUNCE_OK and omit the sender's origin
    /// from each announcement's hop chain. Added in lite-05.
    pub fn has_announce_ok(self) -> (r: bool)
        ensures
            r == (self.rank() >= 5),
    {
        match self {
            Version::Lite01 | Version::Lite02 | Version::Lite03 | Version::Lite04 => false,
            _ => true,
        }
    }

    /// Whether announcements are typed messages that retract and restart by id. Added in
    /// lite-06.
    pub fn has_announce_id(self) -> (r: bool)
        ensures
            r == (self.rank() >= 6),
    {
        match self {
            Version::Lite01 | Version::Lite02 | Version::Lite03 | Version::Lite04
            | Version::Lite05 => false,
            _ => true,
        }
    }

    /// Whether announcements carry the cost of their route. Added in lite-06.
    pub fn has_route_cost(self) -> (r: bool)
        ensures
            r == (self.rank() >= 6),
    {
        match self {
            Version::Lite01 | Version::Lite02 | Version::Lite03 | Version::Lite04
            | Version::Lite05 => false,
            _ => true,
        }
    }

    /// The name of the version.
    pub open spec fn spec_name(self) -> Seq<char> {
        match self {
            Version::Lite01 => "moq-lite-01"@,
            Version::Lite02 => "moq-lite-02"@,
            Version::Lite03 => "moq-lite-03"@,
            Version::Lite04 => "moq-lite-04"@,
            Version::Lite05 => "moq-lite-05"@,
            Version::Lite06Wip => "moq-lite-06-wip"@,
        }
    }

    /// The name of the version.
    pub fn name(self) -> (r: &'static str)
        ensures
            r@ == self.spec_name(),
    {
        match self {
            Version::Lite01 => "moq-lite-01",
            Version::Lite02 => "moq-lite-02",
            Version::Lite03 => "moq-lite-03",
            Version::Lite04 => "moq-lite-04",
            Version::Lite05 => "moq-lite-05",
            Version::Lite06Wip => "moq-lite-06-wip",
        }
    }
}

} // verus!
