//! The lite-05 SETUP message: each endpoint advertises its capabilities once, as
//! the sole message on a unidirectional Setup Stream, then closes it.

use vstd::prelude::*;
use vstd::utf8::{decode_utf8, encode_utf8, encode_utf8_decode_utf8, encode_utf8_valid_utf8, valid_utf8};

use crate::bytes::copy_of;
use crate::coding::decode::{tail_of_self, tail_of_tail, text_of, Decode, DecodeError, Wire};
use crate::coding::encode::{Encode, EncodeError, RoundTrip};
use crate::coding::message::Message;
use crate::coding::varint::{varint_bytes, varint_round_trip};
use crate::lite::parameters::{
    distinct_params, param, param_of_with_param, param_varint, with_param, Entries, Parameters,
};
use crate::lite::Version;
use crate::poll::Poll;

verus! {

broadcast use {tail_of_self, tail_of_tail};

/// Setup Parameter id for the Probe capability level.
pub const PARAM_PROBE: u64 = 0x1;

/// Setup Parameter id for the request Path (client-only, URI-less transports).
pub const PARAM_PATH: u64 = 0x2;

/// Setup Parameter id for the client's intended [`Role`] (client-only).
pub const PARAM_ROLE: u64 = 0x3;

/// The probe capability an endpoint advertises in SETUP.
///
/// Monotonic: a higher level implies every lower one. An unknown (future) value
/// decodes as the highest level we understand, so a peer that gains a new level is
/// treated as at least [`Increase`](Self::Increase).
#[derive(Debug, Clone, Copy, PartialEq, Eq, Structural)]
pub enum ProbeLevel {
    /// No probing. Equivalent to omitting the parameter.
    Nothing,
    /// The publisher can measure and periodically report its estimated bitrate.
    Report,
    /// The publisher can additionally pad the connection (or send redundant data).
    Increase,
}

impl Default for ProbeLevel {
    fn default() -> (r: ProbeLevel)
        ensures
            r == ProbeLevel::Nothing,
    {
        ProbeLevel::Nothing
    }
}

impl ProbeLevel {
    /// The level that a wire value stands for.
    pub open spec fn of_code(code: u64) -> ProbeLevel {
        if code == 0 {
            ProbeLevel::Nothing
        } else if code == 1 {
            ProbeLevel::Report
        } else {
            ProbeLevel::Increase
        }
    }

    /// The wire value for this level.
    pub open spec fn spec_code(self) -> u64 {
        match self {
            ProbeLevel::Nothing => 0,
            ProbeLevel::Report => 1,
            ProbeLevel::Increase => 2,
        }
    }

    /// Map the wire value to a level, saturating unknown values to
    /// [`Increase`](Self::Increase).
    pub fn from_code(code: u64) -> (r: ProbeLevel)
        ensures
            r == ProbeLevel::of_code(code),
    {
        match code {
            0 => ProbeLevel::Nothing,
            1 => ProbeLevel::Report,
            _ => ProbeLevel::Increase,
        }
    }

    /// The wire value for this level.
    #[verifier::when_used_as_spec(spec_code)]
    pub fn to_code(self) -> (r: u64)
        ensures
            r == self.to_code(),
    {
        match self {
            ProbeLevel::Nothing => 0,
            ProbeLevel::Report => 1,
            ProbeLevel::Increase => 2,
        }
    }

    /// Whether this level implies `other`.
    pub fn at_least(self, other: ProbeLevel) -> (r: bool)
        ensures
            r == (self.to_code() >= other.to_code()),
    {
        self.to_code() >= other.to_code()
    }
}

/// The direction a client intends to use the session for.
///
/// A client advertises this in its SETUP so the server can reject a token that lacks
/// the matching scope during the handshake, instead of accepting a connection that
/// then silently carries no media (a subscribe-only token used to publish, or vice
/// versa). It only ever narrows what the server grants, so it is not a security
/// boundary: the server still enforces the token's scope regardless.
#[derive(Debug, Clone, Copy, PartialEq, Eq, Structural)]
pub enum Role {
    /// The client will publish tracks (ingest); the server must consume.
    Publisher,
    /// The client will subscribe to tracks (egress); the server must publish.
    Subscriber,
    /// The client may do either, or declined to say. The default, and the behavior of
    /// clients that predate this parameter (they omit it, and it decodes back to this).
    Both,
}

impl Default for Role {
    fn default() -> (r: Role)
        ensures
            r == Role::Both,
    {
        Role::Both
    }
}

impl Role {
    /// The role that a wire value stands for.
    pub open spec fn of_code(code: u64) -> Role {
        if code == 1 {
            Role::Publisher
        } else if code == 2 {
            Role::Subscriber
        } else {
            Role::Both
        }
    }

    /// The wire value for a directional role.
    pub open spec fn spec_code(self) -> Option<u64> {
        match self {
            Role::Publisher => Some(1),
            Role::Subscriber => Some(2),
            Role::Both => None,
        }
    }

    /// Map the wire value to a role. `0` and any unrecognized future value fall back to
    /// [`Both`](Role::Both), so a newer client can't break an older server (it just loses
    /// the early reject and defers fully to the token's scope).
    pub fn from_code(code: u64) -> (r: Role)
        ensures
            r == Role::of_code(code),
    {
        match code {
            1 => Role::Publisher,
            2 => Role::Subscriber,
            _ => Role::Both,
        }
    }

    /// The wire value for a directional role, or `None` for [`Role::Both`], which is the
    /// absence of the parameter and so is never encoded.
    #[verifier::when_used_as_spec(spec_code)]
    pub fn to_code(self) -> (r: Option<u64>)
        ensures
            r == self.to_code(),
    {
        match self {
            Role::Publisher => Some(1),
            Role::Subscriber => Some(2),
            Role::Both => None,
        }
    }

    /// Derive the advertised role from which origins a client wired up: publish-only is
    /// a [`Publisher`](Role::Publisher), consume-only a [`Subscriber`](Role::Subscriber),
    /// and both (or neither) stays [`Both`](Role::Both). This keeps the advertised role
    /// from drifting away from what the session actually does.
    pub fn from_origins(publishes: bool, consumes: bool) -> (r: Role)
        ensures
            r == if publishes && !consumes {
                Role::Publisher
            } else if consumes && !publishes {
                Role::Subscriber
            } else {
                Role::Both
            },
    {
        match (publishes, consumes) {
            (true, false) => Role::Publisher,
            (false, true) => Role::Subscriber,
            _ => Role::Both,
        }
    }
}

/// The SETUP message, sent once per endpoint on the unidirectional Setup Stream.
///
/// lite-05+ only. The two endpoints' SETUP messages are independent: neither side
/// blocks on the peer's before opening other streams, but a stream whose encoding
/// depends on a negotiated capability (e.g. PROBE) must wait for it.
#[derive(Debug, PartialEq, Eq)]
pub struct Setup {
    /// The probe capability this endpoint supports. [`ProbeLevel::Nothing`] when absent.
    pub probe: ProbeLevel,
    /// The request path, for transports that carry no request URI (native QUIC,
    /// qmux over TCP/TLS). Sent only by the client; a server never sends one and a
    /// relay never forwards it. `None` on URI-carrying bindings.
    pub path: Option<String>,
    /// The client's intended [`Role`]. `Both` (the default) is sent as the absence of
    /// the parameter, so an old client that never sets it decodes back to `Both`.
    pub role: Role,
}

/// What a [`Setup`] stands for.
pub struct SetupModel {
    pub probe: ProbeLevel,
    pub path: Option<Seq<char>>,
    pub role: Role,
}

impl Default for Setup {
    fn default() -> (r: Setup)
        ensures
            r.probe == ProbeLevel::Nothing,
            r.path is None,
            r.role == Role::Both,
    {
        Setup { probe: ProbeLevel::Nothing, path: None, role: Role::Both }
    }
}

impl Wire for Setup {
    type Model = SetupModel;

    open spec fn model(&self) -> SetupModel {
        SetupModel {
            probe: self.probe,
            path: match self.path {
                Some(path) => Some(path@),
                None => None,
            },
            role: self.role,
        }
    }
}

/// The parameters of a SETUP. The defaults are sent as the absence of a parameter.
pub open spec fn setup_params(model: SetupModel) -> Entries {
    let none: Entries = seq![];
    let probe = if model.probe == ProbeLevel::Nothing {
        none
    } else {
        with_param(none, PARAM_PROBE, varint_bytes(model.probe.to_code()))
    };
    let path = match model.path {
        Some(path) => with_param(probe, PARAM_PATH, encode_utf8(path)),
        None => probe,
    };
    match model.role.to_code() {
        Some(code) => with_param(path, PARAM_ROLE, varint_bytes(code)),
        None => path,
    }
}

/// The request path among the parameters: UTF-8, and not empty.
pub open spec fn setup_path(entries: Entries) -> Result<Option<Seq<char>>, DecodeError> {
    match param(entries, PARAM_PATH) {
        None => Ok(None),
        Some(bytes) => if !valid_utf8(bytes) || decode_utf8(bytes).len() == 0 {
            Err(DecodeError::InvalidValue)
        } else {
            Ok(Some(decode_utf8(bytes)))
        },
    }
}

/// The SETUP that parameters stand for; unknown ones are ignored.
pub open spec fn setup_of(entries: Entries) -> Result<SetupModel, DecodeError> {
    match param_varint(entries, PARAM_PROBE) {
        Err(e) => Err(e),
        Ok(probe) => match setup_path(entries) {
            Err(e) => Err(e),
            Ok(path) => match param_varint(entries, PARAM_ROLE) {
                Err(e) => Err(e),
                Ok(role) => Ok(
                    (SetupModel {
                        probe: match probe {
                            Some(code) => ProbeLevel::of_code(code),
                            None => ProbeLevel::Nothing,
                        },
                        path,
                        role: match role {
                            Some(code) => Role::of_code(code),
                            None => Role::Both,
                        },
                    }),
                ),
            },
        },
    }
}

impl Message for Setup {
    open spec fn parse_msg(bytes: Seq<u8>, version: Version) -> (
        Result<SetupModel, DecodeError>,
        Seq<u8>,
    ) {
        if version.rank() < 5 {
            (Err(DecodeError::Version), bytes)
        } else {
            match Parameters::parse(bytes, version) {
                (Err(e), rest) => (Err(e), rest),
                (Ok(entries), rest) => (setup_of(entries), rest),
            }
        }
    }

    fn decode_msg(buf: &mut &[u8], version: Version) -> (r: Result<Setup, DecodeError>) {
        if !version.has_setup_stream() {
            return Err(DecodeError::Version);
        }
        let params: Parameters = Parameters::decode(buf, version)?;
        let probe: ProbeLevel = match params.get_varint(PARAM_PROBE)? {
            Some(code) => ProbeLevel::from_code(code),
            None => ProbeLevel::Nothing,
        };
        let path: Option<String> = match params.get_bytes(PARAM_PATH) {
            Some(bytes) => match text_of(copy_of(bytes)) {
                None => {
                    return Err(DecodeError::InvalidValue);
                },
                Some(text) => {
                    if text.as_str().unicode_len() == 0 {
                        return Err(DecodeError::InvalidValue);
                    }
                    Some(text)
                },
            },
            None => None,
        };
        let role: Role = match params.get_varint(PARAM_ROLE)? {
            Some(code) => Role::from_code(code),
            None => Role::Both,
        };
        Ok(Setup { probe, path, role })
    }

    open spec fn print_msg(model: SetupModel, version: Version) -> Result<Seq<u8>, EncodeError> {
        if version.rank() < 5 {
            Err(EncodeError::Version)
        } else {
            Parameters::print(setup_params(model), version)
        }
    }

    fn encode_msg(&self, buf: &mut Vec<u8>, version: Version) -> (r: Result<(), EncodeError>) {
        if !version.has_setup_stream() {
            return Err(EncodeError::Version);
        }
        let mut params: Parameters = Parameters::default();
        match self.probe {
            ProbeLevel::Nothing => {},
            probe => params.set_varint(PARAM_PROBE, probe.to_code()),
        }
        match &self.path {
            Some(path) => params.set_bytes(PARAM_PATH, copy_of(path.as_str().as_bytes())),
            None => {},
        }
        match self.role.to_code() {
            Some(code) => params.set_varint(PARAM_ROLE, code),
            None => {},
        }
        params.encode(buf, version)
    }

    /// An empty path is written but not read back.
    open spec fn legal_msg(model: SetupModel) -> bool {
        model.path matches Some(path) ==> path.len() > 0
    }

    open spec fn carried_msg(model: SetupModel, version: Version) -> SetupModel {
        model
    }

    proof fn msg_round_trip(model: SetupModel, version: Version) {
        let entries = setup_params(model);
        setup_params_distinct(model);
        let bytes = Parameters::print(entries, version)->Ok_0;
        Parameters::round_trip(entries, version, seq![]);
        assert(bytes + Seq::<u8>::empty() =~= bytes);
        setup_params_read_back(model);
    }
}

proof fn setup_params_distinct(model: SetupModel)
    ensures
        distinct_params(setup_params(model)),
{
}

proof fn setup_params_read_back(model: SetupModel)
    requires
        Setup::legal_msg(model),
    ensures
        setup_of(setup_params(model)) == Ok::<SetupModel, DecodeError>(model),
{
    let none: Entries = seq![];
    let probe_bytes = varint_bytes(model.probe.to_code());
    let probe = if model.probe == ProbeLevel::Nothing {
        none
    } else {
        with_param(none, PARAM_PROBE, probe_bytes)
    };
    varint_round_trip(model.probe.to_code(), seq![]);
    assert(probe_bytes + Seq::<u8>::empty() =~= probe_bytes);
    param_of_with_param(none, PARAM_PROBE, probe_bytes, PARAM_PROBE);
    param_of_with_param(none, PARAM_PROBE, probe_bytes, PARAM_PATH);
    param_of_with_param(none, PARAM_PROBE, probe_bytes, PARAM_ROLE);
    let path = match model.path {
        Some(path) => with_param(probe, PARAM_PATH, encode_utf8(path)),
        None => probe,
    };
    match model.path {
        Some(text) => {
            encode_utf8_valid_utf8(text);
            encode_utf8_decode_utf8(text);
            param_of_with_param(probe, PARAM_PATH, encode_utf8(text), PARAM_PROBE);
            param_of_with_param(probe, PARAM_PATH, encode_utf8(text), PARAM_PATH);
            param_of_with_param(probe, PARAM_PATH, encode_utf8(text), PARAM_ROLE);
        },
        None => {},
    }
    match model.role.to_code() {
        Some(code) => {
            let role_bytes = varint_bytes(code);
            varint_round_trip(code, seq![]);
            assert(role_bytes + Seq::<u8>::empty() =~= role_bytes);
            param_of_with_param(path, PARAM_ROLE, role_bytes, PARAM_PROBE);
            param_of_with_param(path, PARAM_ROLE, role_bytes, PARAM_PATH);
            param_of_with_param(path, PARAM_ROLE, role_bytes, PARAM_ROLE);
        },
        None => {},
    }
}

/// Slot for the peer's SETUP, written once when its Setup stream is read.
///
/// Streams whose encoding depends on a negotiated capability (e.g. the PROBE
/// stream) wait on this before deciding what to do.
pub struct PeerSetup {
    pub setup: Option<Setup>,
}

impl Default for PeerSetup {
    fn default() -> (r: PeerSetup)
        ensures
            r.setup is None,
    {
        PeerSetup { setup: None }
    }
}

impl PeerSetup {
    /// Record the peer's SETUP.
    pub fn set(&mut self, setup: Setup)
        ensures
            final(self).setup == Some(setup),
    {
        self.setup = Some(setup);
    }

    /// The peer's advertised probe level, pending until its SETUP arrives. `closed` says
    /// that it never will: no probe support.
    pub fn probe_level(&self, closed: bool) -> (r: Poll<ProbeLevel>)
        ensures
            r == match self.setup {
                Some(setup) => Poll::Ready(setup.probe),
                None => if closed {
                    Poll::Ready(ProbeLevel::Nothing)
                } else {
                    Poll::Pending
                },
            },
    {
        match &self.setup {
            Some(setup) => Poll::Ready(setup.probe),
            None => if closed {
                Poll::Ready(ProbeLevel::Nothing)
            } else {
                Poll::Pending
            },
        }
    }
}

/// What a SETUP says stands in its parameters: the probe level, unless there is none, the path, if
/// there is one, and the role, unless it is both. A role or level from the future is taken for the
/// nearest known one.
pub proof fn setup_is_in_its_parameters(model: SetupModel)
    ensures
        ({
            let entries = setup_params(model);
            &&& param(entries, 1) == match model.probe {
                ProbeLevel::Nothing => None,
                ProbeLevel::Report => Some(varint_bytes(1)),
                ProbeLevel::Increase => Some(varint_bytes(2)),
            }
            &&& param(entries, 2) == match model.path {
                Some(path) => Some(encode_utf8(path)),
                None => None,
            }
            &&& param(entries, 3) == match model.role {
                Role::Publisher => Some(varint_bytes(1)),
                Role::Subscriber => Some(varint_bytes(2)),
                Role::Both => None,
            }
        }),
        forall|code: u64| code > 1 ==> #[trigger] ProbeLevel::of_code(code) == ProbeLevel::Increase,
        forall|code: u64|
            code != 1 && code != 2 ==> #[trigger] Role::of_code(code) == Role::Both,
{
    let none: Entries = seq![];
    let probe = if model.probe == ProbeLevel::Nothing {
        none
    } else {
        with_param(none, PARAM_PROBE, varint_bytes(model.probe.to_code()))
    };
    let path = match model.path {
        Some(path) => with_param(probe, PARAM_PATH, encode_utf8(path)),
        None => probe,
    };
    param_of_with_param(none, PARAM_PROBE, varint_bytes(model.probe.to_code()), 1);
    param_of_with_param(none, PARAM_PROBE, varint_bytes(model.probe.to_code()), 2);
    param_of_with_param(none, PARAM_PROBE, varint_bytes(model.probe.to_code()), 3);
    if let Some(text) = model.path {
        param_of_with_param(probe, PARAM_PATH, encode_utf8(text), 1);
        param_of_with_param(probe, PARAM_PATH, encode_utf8(text), 2);
        param_of_with_param(probe, PARAM_PATH, encode_utf8(text), 3);
    }
    if let Some(code) = model.role.to_code() {
        param_of_with_param(path, PARAM_ROLE, varint_bytes(code), 1);
        param_of_with_param(path, PARAM_ROLE, varint_bytes(code), 2);
        param_of_with_param(path, PARAM_ROLE, varint_bytes(code), 3);
    }
}

} // verus!
