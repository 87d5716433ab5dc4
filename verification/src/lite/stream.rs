//! The streams of a session.

use vstd::prelude::*;

use crate::error::Error;
use crate::lite::Version;

verus! {

/// What a bidirectional stream is for.
#[derive(Clone, Copy, Debug, PartialEq, Eq, Structural)]
pub enum ControlType {
    Session,
    Announce,
    Subscribe,
    Fetch,
    Probe,
    Goaway,
    Track,
}

/// What a unidirectional stream carries.
#[derive(Clone, Copy, Debug, PartialEq, Eq, Structural)]
pub enum DataType {
    Group,
    Setup,
}

/// Whether a publisher serves a control stream that the peer opened. A session stream is
/// never opened by a peer, and the Track and Fetch streams exist from lite-05 on.
pub fn accept_control(kind: ControlType, version: Version) -> (r: Result<(), Error>)
    ensures
        r == if kind == ControlType::Session || (kind == ControlType::Track || kind
            == ControlType::Fetch) && version.rank() < 5 {
            Err::<(), Error>(Error::UnexpectedStream)
        } else {
            Ok(())
        },
{
    match kind {
        ControlType::Session => Err(Error::UnexpectedStream),
        ControlType::Track | ControlType::Fetch => if version.has_track_stream() {
            Ok(())
        } else {
            Err(Error::UnexpectedStream)
        },
        _ => Ok(()),
    }
}

/// Whether a subscriber reads a data stream that the peer opened: the Setup Stream exists
/// from lite-05 on.
pub fn accept_data(kind: DataType, version: Version) -> (r: Result<(), Error>)
    ensures
        r == if kind == DataType::Setup && version.rank() < 5 {
            Err::<(), Error>(Error::UnexpectedStream)
        } else {
            Ok(())
        },
{
    match kind {
        DataType::Group => Ok(()),
        DataType::Setup => if version.has_setup_stream() {
            Ok(())
        } else {
            Err(Error::UnexpectedStream)
        },
    }
}

} // verus!
