//! How a session is started and closed.

use vstd::prelude::*;

use crate::error::Error;
use crate::lite::connecting::Connecting;
use crate::lite::setup::{PeerSetup, Setup};
use crate::lite::stream::DataType;
use crate::lite::Version;
use crate::model::bandwidth;
use crate::model::handles::{Consumer, Producer};
use crate::model::origin::Origin;

verus! {

/// What a session is made of.
pub struct Start {
    /// Receives the peer's bandwidth estimates (lite-03+).
    pub recv_bandwidth: Option<bandwidth::Producer>,
    /// Reads the peer's bandwidth estimates (lite-03+).
    pub estimates: Option<bandwidth::Consumer>,
    /// Where local broadcasts are published from. An unset half gets an empty origin: it
    /// announces nothing, and answers the peer's announce-interest with an empty set.
    pub publish: Consumer,
    /// Where remote broadcasts are inserted. An unset half gets an empty origin: it asks for
    /// no announcements.
    pub subscribe: Producer,
    /// The peer's SETUP, when it was already read.
    pub peer_setup: PeerSetup,
    /// Our SETUP, if it is to be sent on a Setup Stream (lite-05+).
    pub send_setup: Option<Setup>,
    /// The steps to wait for: one for versions with an initial-set boundary (lite-01, lite-02
    /// and lite-05+), else none.
    pub connecting: Connecting,
}

/// Put a session together. `publish_as` and `subscribe_as` identify us where no origin is
/// attached.
pub fn start(
    publish: Option<Consumer>,
    subscribe: Option<Producer>,
    publish_as: Origin,
    subscribe_as: Origin,
    version: Version,
    our_setup: Setup,
    peer_setup: Option<Setup>,
) -> (r: Start)
    ensures
        r.recv_bandwidth is Some <==> version.rank() >= 3,
        r.recv_bandwidth matches Some(producer) ==> producer.bitrate is None && producer.abort is None
            && !producer.closed && producer.consumers == 1,
        r.estimates is Some <==> version.rank() >= 3,
        r.estimates matches Some(consumer) ==> consumer.last is None,
        match publish {
            Some(consumer) => r.publish == consumer,
            None => r.publish.info == publish_as && r.publish.reach.root@ == Seq::<
                Seq<char>,
            >::empty() && r.publish.reach.scope@ == Seq::<Seq<Seq<char>>>::empty(),
        },
        match subscribe {
            Some(producer) => r.subscribe == producer,
            None => r.subscribe.info == subscribe_as && r.subscribe.reach.root@ == Seq::<
                Seq<char>,
            >::empty() && r.subscribe.reach.scope@ == Seq::<Seq<Seq<char>>>::empty()
                && r.subscribe.pool.capacity is None,
        },
        r.peer_setup.setup == peer_setup,
        r.send_setup == if version.rank() >= 5 {
            Some(our_setup)
        } else {
            None
        },
        r.connecting.steps == if version.rank() <= 2 || version.rank() >= 5 {
            1u64
        } else {
            0
        },
{
    let mut producer: bandwidth::Producer = bandwidth::Producer::new();
    let (recv_bandwidth, estimates): (
        Option<bandwidth::Producer>,
        Option<bandwidth::Consumer>,
    ) = match version {
        Version::Lite01 | Version::Lite02 => (None, None),
        _ => {
            let consumer: bandwidth::Consumer = producer.consume();
            (Some(producer), Some(consumer))
        },
    };
    let mut connecting: Connecting = Connecting::new();
    match version {
        Version::Lite03 | Version::Lite04 => connecting.finish_step(),
        _ => {},
    }
    let publish: Consumer = match publish {
        Some(consumer) => consumer,
        None => Producer::empty(publish_as).consume(),
    };
    let subscribe: Producer = match subscribe {
        Some(producer) => producer,
        None => Producer::empty(subscribe_as),
    };
    let send_setup: Option<Setup> = if version.has_setup_stream() {
        Some(our_setup)
    } else {
        None
    };
    let mut slot: PeerSetup = PeerSetup::default();
    match peer_setup {
        Some(setup) => slot.set(setup),
        None => {},
    }
    Start {
        recv_bandwidth,
        estimates,
        publish,
        subscribe,
        peer_setup: slot,
        send_setup,
        connecting,
    }
}

/// How to close the transport, by what ended the session: the code, and whether to give the
/// error as the reason. A transport that failed is beyond explaining.
pub fn close_code(outcome: &Result<(), Error>) -> (r: (u32, bool))
    ensures
        r == match *outcome {
            Err(Error::Transport(_)) => (1u32, false),
            Err(err) => (err.to_code(), true),
            Ok(_) => (0u32, false),
        },
{
    match outcome {
        Err(err) => match err {
            Error::Transport(_) => (1, false),
            _ => (err.to_code(), true),
        },
        Ok(_) => (0, false),
    }
}

/// What the end of the session stream means, if there was one: the session is cancelled.
pub fn session_stream_ended(opened: bool) -> (r: Result<(), Error>)
    ensures
        r == if opened {
            Err::<(), Error>(Error::Cancel)
        } else {
            Ok(())
        },
{
    if opened {
        Err(Error::Cancel)
    } else {
        Ok(())
    }
}

/// Whether a unidirectional stream is the Setup Stream that a server waits for. Any other
/// that races ahead of it is rejected with the error, and skipped.
pub fn expect_setup(kind: DataType) -> (r: Result<(), Error>)
    ensures
        r == if kind == DataType::Setup {
            Ok::<(), Error>(())
        } else {
            Err(Error::UnexpectedStream)
        },
{
    match kind {
        DataType::Setup => Ok(()),
        DataType::Group => Err(Error::UnexpectedStream),
    }
}

} // verus!
