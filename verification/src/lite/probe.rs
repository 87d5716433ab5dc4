//! Probing the available bandwidth: the publisher reports its estimate, and the subscriber
//! listens while somebody is interested.

use vstd::prelude::*;

use crate::error::Error;
use crate::lite::setup::{PeerSetup, ProbeLevel};
use crate::lite::Version;
use crate::model::time::{Duration, Instant};
use crate::poll::Poll;

verus! {

/// How often the estimate is looked at, in milliseconds.
pub const PROBE_INTERVAL_MILLIS: u64 = 100;

/// After how many seconds any estimate is worth a report.
pub const PROBE_MAX_AGE_SECS: u64 = 10;

/// The reports of the estimated send rate.
#[derive(Clone, Copy, Debug)]
pub struct ProbeReports {
    /// The bitrate that was reported last, and when.
    pub last_sent: Option<(u64, Instant)>,
}

/// The age of a report, as far as it counts: at least the interval and at most the maximum.
pub open spec fn report_age(now: Instant, at: Instant) -> Duration {
    let age = now.since(at).nanos;
    Duration {
        nanos: if age < 100_000_000 {
            100_000_000
        } else if age > 10_000_000_000 {
            10_000_000_000
        } else {
            age
        },
    }
}

impl ProbeReports {
    /// Nothing was reported yet.
    pub fn new() -> (r: ProbeReports)
        ensures
            r.last_sent is None,
    {
        ProbeReports { last_sent: None }
    }

    /// The report to compare a new estimate with: its bitrate and its age. `None` where no
    /// comparison is needed: without a report, or after one of zero.
    pub fn baseline(&self, now: Instant) -> (r: Option<(u64, Duration)>)
        ensures
            r == match self.last_sent {
                Some((prev, at)) => if prev == 0 {
                    None
                } else {
                    Some((prev, report_age(now, at)))
                },
                None => None,
            },
    {
        match self.last_sent {
            Some((prev, at)) => {
                if prev == 0 {
                    return None;
                }
                let age: u128 = now.since(at).nanos;
                let nanos: u128 = if age < 100_000_000 {
                    100_000_000
                } else if age > 10_000_000_000 {
                    10_000_000_000
                } else {
                    age
                };
                Some((prev, Duration { nanos }))
            },
            None => None,
        }
    }

    /// The interval ticked. The answer is the bitrate to report, if any: the first estimate,
    /// the first above zero after a report of zero, and otherwise one that differs enough from
    /// the baseline, which `significant` tells.
    pub fn on_tick(&mut self, estimate: Option<u64>, significant: bool, now: Instant) -> (r: Option<
        u64,
    >)
        ensures
            r == match estimate {
                None => None,
                Some(bitrate) => if match old(self).last_sent {
                    None => true,
                    Some((prev, _)) => if prev == 0 {
                        bitrate > 0
                    } else {
                        significant
                    },
                } {
                    Some(bitrate)
                } else {
                    None
                },
            },
            final(self).last_sent == match r {
                Some(bitrate) => Some((bitrate, now)),
                None => old(self).last_sent,
            },
    {
        let bitrate: u64 = match estimate {
            Some(bitrate) => bitrate,
            None => {
                return None;
            },
        };
        let should_send: bool = match self.last_sent {
            None => true,
            Some((prev, _)) => if prev == 0 {
                bitrate > 0
            } else {
                significant
            },
        };
        if !should_send {
            return None;
        }
        self.last_sent = Some((bitrate, now));
        Some(bitrate)
    }
}

/// Whether to open a PROBE stream, once that is known: before lite-05 there is no SETUP, so
/// probing is always available; after, the peer has to advertise it.
pub fn wants_probe(version: Version, peer: &PeerSetup, closed: bool) -> (r: Poll<bool>)
    ensures
        r == if version.rank() < 5 {
            Poll::Ready(true)
        } else {
            match peer.setup {
                Some(setup) => Poll::Ready(setup.probe != ProbeLevel::Nothing),
                None => if closed {
                    Poll::Ready(false)
                } else {
                    Poll::Pending
                },
            }
        },
{
    if !version.has_setup_stream() {
        return Poll::Ready(true);
    }
    match peer.probe_level(closed) {
        Poll::Ready(level) => Poll::Ready(level.at_least(ProbeLevel::Report)),
        Poll::Pending => Poll::Pending,
    }
}

/// Where the watch over the peer's bandwidth estimates stands.
#[derive(Clone, Copy, Debug, PartialEq, Eq, Structural)]
pub enum ProbeWatch {
    /// Nobody is interested.
    Waiting,
    /// A PROBE stream is open.
    Probing,
    /// Given up for the rest of the session.
    Stopped,
}

impl ProbeWatch {
    /// What happens next: a PROBE stream is open while a consumer is interested. One that ends
    /// is not opened again, so as not to hammer an uncooperative peer; and without a producer
    /// there is nobody left to tell.
    pub fn step(self, interested: Poll<Result<(), Error>>, gone: Poll<Result<(), Error>>, ended: bool) -> (r:
        ProbeWatch)
        ensures
            r == match self {
                ProbeWatch::Waiting => match interested {
                    Poll::Ready(Ok(_)) => ProbeWatch::Probing,
                    Poll::Ready(Err(_)) => ProbeWatch::Stopped,
                    Poll::Pending => ProbeWatch::Waiting,
                },
                ProbeWatch::Probing => match gone {
                    Poll::Ready(Ok(_)) => ProbeWatch::Waiting,
                    Poll::Ready(Err(_)) => ProbeWatch::Stopped,
                    Poll::Pending => if ended {
                        ProbeWatch::Stopped
                    } else {
                        ProbeWatch::Probing
                    },
                },
                ProbeWatch::Stopped => ProbeWatch::Stopped,
            },
    {
        match self {
            ProbeWatch::Waiting => match interested {
                Poll::Ready(Ok(_)) => ProbeWatch::Probing,
                Poll::Ready(Err(_)) => ProbeWatch::Stopped,
                Poll::Pending => ProbeWatch::Waiting,
            },
            ProbeWatch::Probing => match gone {
                Poll::Ready(Ok(_)) => ProbeWatch::Waiting,
                Poll::Ready(Err(_)) => ProbeWatch::Stopped,
                Poll::Pending => if ended {
                    ProbeWatch::Stopped
                } else {
                    ProbeWatch::Probing
                },
            },
            ProbeWatch::Stopped => ProbeWatch::Stopped,
        }
    }
}

/// The age of a report counts as it is, but never as less than the interval or more than the
/// maximum.
pub proof fn report_age_is_clamped(now: Instant, at: Instant)
    ensures
        ({
            let age = report_age(now, at).nanos;
            &&& 100_000_000 <= age <= 10_000_000_000
            &&& at.nanos <= now.nanos && 100_000_000 <= now.nanos - at.nanos <= 10_000_000_000
                ==> age == now.nanos - at.nanos
            &&& now.nanos < at.nanos + 100_000_000 ==> age == 100_000_000
            &&& now.nanos > at.nanos + 10_000_000_000 ==> age == 10_000_000_000
        }),
{
}

} // verus!
