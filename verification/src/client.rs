//! Setting up a session as a client.

use vstd::prelude::*;

use crate::error::Error;
use crate::lite;
use crate::lite::setup::{ProbeLevel, Role, Setup};
use crate::model::handles::{Consume, Consumer, Producer};

verus! {

/// A draft of moq-transport.
#[derive(Clone, Copy, Debug, PartialEq, Eq, Structural, Hash)]
pub enum IetfVersion {
    Draft14,
    Draft15,
    Draft16,
    Draft17,
    Draft18,
    Draft19,
}

/// A protocol version.
#[derive(Clone, Copy, Debug, PartialEq, Eq, Structural, Hash)]
pub enum Version {
    Ietf(IetfVersion),
    Lite(lite::Version),
}

/// A set of versions, in preference order.
#[derive(Debug)]
pub struct Versions {
    pub list: Vec<Version>,
}

impl View for Versions {
    type V = Seq<Version>;

    open spec fn view(&self) -> Seq<Version> {
        self.list@
    }
}

/// Every version there is, the newest first.
pub open spec fn all_versions() -> Seq<Version> {
    seq![
        Version::Lite(lite::Version::Lite06Wip),
        Version::Lite(lite::Version::Lite05),
        Version::Lite(lite::Version::Lite04),
        Version::Lite(lite::Version::Lite03),
        Version::Lite(lite::Version::Lite02),
        Version::Lite(lite::Version::Lite01),
        Version::Ietf(IetfVersion::Draft19),
        Version::Ietf(IetfVersion::Draft18),
        Version::Ietf(IetfVersion::Draft17),
        Version::Ietf(IetfVersion::Draft16),
        Version::Ietf(IetfVersion::Draft15),
        Version::Ietf(IetfVersion::Draft14),
    ]
}

/// The versions that are negotiated by exchanging SETUP messages on the first stream.
pub open spec fn negotiated_versions() -> Seq<Version> {
    seq![
        Version::Lite(lite::Version::Lite02),
        Version::Lite(lite::Version::Lite01),
        Version::Ietf(IetfVersion::Draft14),
    ]
}

/// The versions of `mine` that are also in `theirs`, in the order of `mine`.
pub open spec fn common_versions(mine: Seq<Version>, theirs: Seq<Version>) -> Seq<Version> {
    mine.filter(|version: Version| theirs.contains(version))
}

impl Versions {
    /// The given versions.
    pub fn new(list: Vec<Version>) -> (r: Versions)
        ensures
            r@ == list@,
    {
        Versions { list }
    }

    /// Every version there is, the newest first.
    pub fn all() -> (r: Versions)
        ensures
            r@ == all_versions(),
    {
        let list: Vec<Version> = vec![
            Version::Lite(lite::Version::Lite06Wip),
            Version::Lite(lite::Version::Lite05),
            Version::Lite(lite::Version::Lite04),
            Version::Lite(lite::Version::Lite03),
            Version::Lite(lite::Version::Lite02),
            Version::Lite(lite::Version::Lite01),
            Version::Ietf(IetfVersion::Draft19),
            Version::Ietf(IetfVersion::Draft18),
            Version::Ietf(IetfVersion::Draft17),
            Version::Ietf(IetfVersion::Draft16),
            Version::Ietf(IetfVersion::Draft15),
            Version::Ietf(IetfVersion::Draft14),
        ];
        assert(list@ =~= all_versions());
        Versions { list }
    }

    /// The versions that are negotiated by exchanging SETUP messages on the first stream.
    pub fn negotiated() -> (r: Versions)
        ensures
            r@ == negotiated_versions(),
    {
        let list: Vec<Version> = vec![
            Version::Lite(lite::Version::Lite02),
            Version::Lite(lite::Version::Lite01),
            Version::Ietf(IetfVersion::Draft14),
        ];
        assert(list@ =~= negotiated_versions());
        Versions { list }
    }

    /// Whether the version is in the set.
    pub fn contains(&self, version: Version) -> (r: bool)
        ensures
            r == self@.contains(version),
    {
        let mut i: usize = 0;
        while i < self.list.len()
            invariant
                i <= self.list@.len(),
                forall|j: int| 0 <= j < i ==> self.list@[j] != version,
            decreases self.list@.len() - i,
        {
            if self.list[i] == version {
                return true;
            }
            i += 1;
        }
        false
    }

    /// The version, if it is in the set.
    pub fn select(&self, version: Version) -> (r: Option<Version>)
        ensures
            r == if self@.contains(version) {
                Some(version)
            } else {
                None
            },
    {
        if self.contains(version) {
            Some(version)
        } else {
            None
        }
    }

    /// The versions that are also in `other`, in the order of preference. `None` if there are
    /// none.
    pub fn filter(&self, other: &Versions) -> (r: Option<Versions>)
        ensures
            match r {
                Some(versions) => versions@ == common_versions(self@, other@) && versions@.len() > 0,
                None => common_versions(self@, other@).len() == 0,
            },
    {
        let mut list: Vec<Version> = Vec::new();
        let mut i: usize = 0;
        proof {
            reveal(Seq::filter);
            assert(self@.take(0) =~= seq![]);
        }
        while i < self.list.len()
            invariant
                i <= self.list@.len(),
                list@ == common_versions(self@.take(i as int), other@),
            decreases self.list@.len() - i,
        {
            proof {
                reveal(Seq::filter);
                assert(self@.take(i + 1).drop_last() =~= self@.take(i as int));
            }
            if other.contains(self.list[i]) {
                list.push(self.list[i]);
            }
            i += 1;
        }
        assert(self@.take(i as int) =~= self@);
        if list.len() == 0 {
            None
        } else {
            Some(Versions { list })
        }
    }
}

impl Clone for Versions {
    fn clone(&self) -> (r: Versions)
        ensures
            r@ == self@,
    {
        let mut list: Vec<Version> = Vec::new();
        let mut i: usize = 0;
        while i < self.list.len()
            invariant
                i <= self.list@.len(),
                list@ == self@.take(i as int),
            decreases self.list@.len() - i,
        {
            list.push(self.list[i]);
            i += 1;
            assert(list@ =~= self@.take(i as int));
        }
        assert(list@ =~= self@);
        Versions { list }
    }
}

/// What the transport negotiated for us.
#[derive(Debug)]
pub enum Alpn {
    /// A draft of moq-transport.
    Draft(IetfVersion),
    /// moq-lite, of a version that is negotiated later.
    Lite,
    Lite03,
    Lite04,
    Lite05,
    Lite06Wip,
    /// Something else.
    Unknown(String),
}

/// How a session is set up.
pub enum Handshake {
    /// moq-transport from draft 17 on: the session exchanges SETUP, with the request path.
    Ietf { draft: IetfVersion, path: Option<String> },
    /// moq-lite from draft 03 on: the session starts right away, with this SETUP.
    Lite { version: lite::Version, setup: Setup },
    /// SETUP messages are exchanged first, in the framing of this draft, to agree on one of
    /// these versions.
    Negotiate { encoding: IetfVersion, supported: Versions },
}

/// A MoQ client session builder.
pub struct Client {
    /// Where local broadcasts are read from.
    pub publish: Option<Consumer>,
    /// Where remote broadcasts are written to.
    pub subscribe: Option<Producer>,
    /// The versions to offer, in preference order.
    pub versions: Versions,
    /// The request path to advertise.
    pub setup_path: Option<String>,
}

impl Client {
    /// A client that neither publishes nor subscribes until configured.
    pub fn new() -> (r: Client)
        ensures
            r.publish is None,
            r.subscribe is None,
            r.versions@ == all_versions(),
            r.setup_path is None,
    {
        Client { publish: None, subscribe: None, versions: Versions::all(), setup_path: None }
    }

    /// Publish local broadcasts to the remote: the session reads from the given origin (a
    /// producer or a consumer) and forwards its announcements. Omit to publish nothing.
    pub fn with_publisher<C: Consume<Consumer>>(self, publish: &C) -> (r: Client)
        ensures
            r.publish matches Some(view) && publish.gives(view),
            r == (Client { publish: r.publish, ..self }),
    {
        Client { publish: Some(publish.consume()), ..self }
    }

    /// Subscribe to remote broadcasts: the session writes the broadcasts the remote announces
    /// into this origin. Omit to subscribe to nothing.
    pub fn with_subscriber(self, subscribe: Producer) -> (r: Client)
        ensures
            r == (Client { subscribe: Some(subscribe), ..self }),
    {
        Client { subscribe: Some(subscribe), ..self }
    }

    /// Set both publish and subscribe from one shared origin.
    pub fn with_origin(self, origin: Producer) -> (r: Client)
        ensures
            r.subscribe == Some(origin),
            r.publish matches Some(consumer) && consumer.info == origin.info
                && consumer.reach.root@ == origin.reach.root@ && consumer.reach.scope@
                == origin.reach.scope@,
            r.versions == self.versions,
            r.setup_path == self.setup_path,
    {
        self.with_publisher(&origin).with_subscriber(origin)
    }

    /// Restrict which protocol versions to offer, in preference order. Defaults to every
    /// version there is.
    pub fn with_versions(self, versions: Versions) -> (r: Client)
        ensures
            r == (Client { versions, ..self }),
    {
        Client { versions, ..self }
    }

    /// Set the request path to advertise in the SETUP.
    ///
    /// Only for transports that carry no request URI of their own, so the server learns which
    /// path the client wants. An empty path is equivalent to omitting it. Ignored by versions
    /// with no in-band request path (lite 01-04).
    pub fn with_path(self, path: String) -> (r: Client)
        ensures
            r.publish == self.publish,
            r.subscribe == self.subscribe,
            r.versions == self.versions,
            r.setup_path == if path@.len() == 0 {
                None
            } else {
                Some(path)
            },
    {
        let setup_path: Option<String> = if path.as_str().unicode_len() == 0 {
            None
        } else {
            Some(path)
        };
        Client { setup_path, ..self }
    }

    /// Our SETUP: we report the send bitrate, but don't pad; and the direction we intend to
    /// use, so the server can reject a token that lacks the matching scope during the
    /// handshake instead of silently carrying no media.
    pub fn our_setup(&self) -> (r: Setup)
        ensures
            r.probe == ProbeLevel::Report,
            r.path == self.setup_path,
            r.role == if self.publish is Some && self.subscribe is None {
                Role::Publisher
            } else if self.publish is None && self.subscribe is Some {
                Role::Subscriber
            } else {
                Role::Both
            },
    {
        let path: Option<String> = match &self.setup_path {
            Some(path) => Some(path.clone()),
            None => None,
        };
        Setup {
            probe: ProbeLevel::Report,
            path,
            role: Role::from_origins(self.publish.is_some(), self.subscribe.is_some()),
        }
    }

    /// The lite version that a protocol stands for.
    pub open spec fn lite_version(alpn: Alpn) -> Option<lite::Version> {
        match alpn {
            Alpn::Lite03 => Some(lite::Version::Lite03),
            Alpn::Lite04 => Some(lite::Version::Lite04),
            Alpn::Lite05 => Some(lite::Version::Lite05),
            Alpn::Lite06Wip => Some(lite::Version::Lite06Wip),
            _ => None,
        }
    }

    /// How to set the session up, by the protocol that the transport negotiated. Without one,
    /// SETUP messages are exchanged in the framing of draft 14.
    ///
    /// Fails with [`Error::Version`] if the version is not among those to offer, and with
    /// [`Error::UnknownAlpn`] if the protocol is not known.
    pub fn negotiate(&self, alpn: Option<Alpn>) -> (r: Result<Handshake, Error>)
        ensures
            match alpn {
                Some(Alpn::Unknown(name)) => r matches Err(err) && err == Error::UnknownAlpn(name),
                None | Some(Alpn::Lite) => {
                    let supported = common_versions(self.versions@, negotiated_versions());
                    if supported.len() == 0 {
                        r matches Err(err) && err == Error::Version
                    } else {
                        r matches Ok(Handshake::Negotiate { encoding, supported: versions })
                            && encoding == IetfVersion::Draft14 && versions@ == supported
                    }
                },
                Some(Alpn::Draft(version)) => if !self.versions@.contains(Version::Ietf(version)) {
                    r matches Err(err) && err == Error::Version
                } else if version == IetfVersion::Draft14 || version == IetfVersion::Draft15
                    || version == IetfVersion::Draft16 {
                    r matches Ok(Handshake::Negotiate { encoding, supported }) && encoding
                        == version && supported@ == seq![Version::Ietf(version)]
                } else {
                    r matches Ok(Handshake::Ietf { draft, path }) && draft == version
                        && path == self.setup_path
                },
                Some(other) => {
                    let version = Client::lite_version(other)->Some_0;
                    if !self.versions@.contains(Version::Lite(version)) {
                        r matches Err(err) && err == Error::Version
                    } else {
                        r matches Ok(Handshake::Lite { version: chosen, setup }) && chosen
                            == version && if version.rank() >= 5 {
                            setup.probe == ProbeLevel::Report && setup.path == self.setup_path
                                && setup.role == if self.publish is Some && self.subscribe is None {
                                Role::Publisher
                            } else if self.publish is None && self.subscribe is Some {
                                Role::Subscriber
                            } else {
                                Role::Both
                            }
                        } else {
                            setup.probe == ProbeLevel::Nothing && setup.path is None && setup.role
                                == Role::Both
                        }
                    }
                },
            },
    {
        match alpn {
            Some(Alpn::Unknown(name)) => Err(Error::UnknownAlpn(name)),
            None => self.negotiate_later(),
            Some(Alpn::Lite) => self.negotiate_later(),
            Some(Alpn::Draft(version)) => {
                if !self.versions.contains(Version::Ietf(version)) {
                    return Err(Error::Version);
                }
                match version {
                    IetfVersion::Draft14 | IetfVersion::Draft15 | IetfVersion::Draft16 => {
                        let list: Vec<Version> = vec![Version::Ietf(version)];
                        assert(list@ =~= seq![Version::Ietf(version)]);
                        Ok(
                            Handshake::Negotiate {
                                encoding: version,
                                supported: Versions { list },
                            },
                        )
                    },
                    _ => {
                        let path: Option<String> = match &self.setup_path {
                            Some(path) => Some(path.clone()),
                            None => None,
                        };
                        Ok(Handshake::Ietf { draft: version, path })
                    },
                }
            },
            Some(Alpn::Lite03) => self.start_lite(lite::Version::Lite03),
            Some(Alpn::Lite04) => self.start_lite(lite::Version::Lite04),
            Some(Alpn::Lite05) => self.start_lite(lite::Version::Lite05),
            Some(Alpn::Lite06Wip) => self.start_lite(lite::Version::Lite06Wip),
        }
    }

    fn negotiate_later(&self) -> (r: Result<Handshake, Error>)
        ensures
            ({
                let supported = common_versions(self.versions@, negotiated_versions());
                if supported.len() == 0 {
                    r matches Err(err) && err == Error::Version
                } else {
                    r matches Ok(Handshake::Negotiate { encoding, supported: versions })
                        && encoding == IetfVersion::Draft14 && versions@ == supported
                }
            }),
    {
        match self.versions.filter(&Versions::negotiated()) {
            Some(supported) => Ok(
                Handshake::Negotiate { encoding: IetfVersion::Draft14, supported },
            ),
            None => Err(Error::Version),
        }
    }

    fn start_lite(&self, version: lite::Version) -> (r: Result<Handshake, Error>)
        ensures
            if !self.versions@.contains(Version::Lite(version)) {
                r matches Err(err) && err == Error::Version
            } else {
                r matches Ok(Handshake::Lite { version: chosen, setup }) && chosen == version
                    && if version.rank() >= 5 {
                    setup.probe == ProbeLevel::Report && setup.path == self.setup_path && setup.role
                        == if self.publish is Some && self.subscribe is None {
                        Role::Publisher
                    } else if self.publish is None && self.subscribe is Some {
                        Role::Subscriber
                    } else {
                        Role::Both
                    }
                } else {
                    setup.probe == ProbeLevel::Nothing && setup.path is None && setup.role
                        == Role::Both
                }
            },
    {
        if !self.versions.contains(Version::Lite(version)) {
            return Err(Error::Version);
        }
        let setup: Setup = if version.has_setup_stream() {
            self.our_setup()
        } else {
            Setup::default()
        };
        Ok(Handshake::Lite { version, setup })
    }
}

/// The version that the server chose among those that were offered.
pub fn agree(supported: &Versions, chosen: Version) -> (r: Result<Version, Error>)
    ensures
        r == if supported@.contains(chosen) {
            Ok::<Version, Error>(chosen)
        } else {
            Err(Error::Version)
        },
{
    match supported.select(chosen) {
        Some(version) => Ok(version),
        None => Err(Error::Version),
    }
}

/// How to go on once a version was agreed on by exchanging SETUP messages: neither the Setup
/// Stream nor the request path is used again.
pub fn after_setup(version: Version) -> (r: Handshake)
    ensures
        match version {
            Version::Lite(version) => r matches Handshake::Lite { version: chosen, setup }
                && chosen == version && setup.probe == ProbeLevel::Nothing && setup.path is None
                && setup.role == Role::Both,
            Version::Ietf(version) => r matches Handshake::Ietf { draft, path }
                && draft == version && path is None,
        },
{
    match version {
        Version::Lite(version) => Handshake::Lite { version, setup: Setup::default() },
        Version::Ietf(version) => Handshake::Ietf { draft: version, path: None },
    }
}

/// A client never ends up with a version that it did not offer.
pub proof fn negotiation_stays_within_offer(mine: Seq<Version>, chosen: Version)
    requires
        common_versions(mine, negotiated_versions()).contains(chosen),
    ensures
        mine.contains(chosen),
        negotiated_versions().contains(chosen),
    decreases mine.len(),
{
    reveal(Seq::filter);
    let theirs = negotiated_versions();
    let all = common_versions(mine, theirs);
    let k = all.index_of(chosen);
    assert(all[k] == chosen);
    if mine.len() > 0 {
        let rest = common_versions(mine.drop_last(), theirs);
        if k < rest.len() {
            assert(rest[k] == chosen);
            negotiation_stays_within_offer(mine.drop_last(), chosen);
            let j = mine.drop_last().index_of(chosen);
            assert(mine[j] == chosen);
        } else {
            assert(mine[mine.len() - 1] == chosen);
        }
    }
}

/// What both sides support is what I list and they list, in my order of preference.
pub proof fn common_versions_are_listed_by_both(
    mine: Seq<Version>,
    theirs: Seq<Version>,
    version: Version,
)
    ensures
        common_versions(mine, theirs).contains(version) <==> mine.contains(version)
            && theirs.contains(version),
        common_versions(mine.push(version), theirs) == if theirs.contains(version) {
            common_versions(mine, theirs).push(version)
        } else {
            common_versions(mine, theirs)
        },
        common_versions(Seq::empty(), theirs).len() == 0,
    decreases mine.len(),
{
    reveal(Seq::filter);
    assert(mine.push(version).drop_last() =~= mine);
    if mine.len() > 0 {
        let less = mine.drop_last();
        let last = mine.last();
        common_versions_are_listed_by_both(less, theirs, version);
        let before = common_versions(less, theirs);
        let all = common_versions(mine, theirs);
        assert(mine =~= less.push(last));
        if mine.contains(version) {
            let k = mine.index_of(version);
            if k < less.len() {
                assert(less[k] == version);
            }
        }
        if less.contains(version) {
            assert(mine[less.index_of(version)] == version);
        }
        assert(mine[mine.len() - 1] == last);
        if theirs.contains(last) {
            assert(all == before.push(last));
            assert(all[before.len() as int] == last);
            if before.contains(version) {
                assert(all[before.index_of(version)] == version);
            }
            if all.contains(version) {
                let k = all.index_of(version);
                if k < before.len() {
                    assert(before[k] == version);
                }
            }
        }
    }
}

/// Only the versions without a name of their own are negotiated in the SETUP, and a name stands
/// for the version of that name.
pub proof fn versions_are_named(version: Version)
    ensures
        all_versions().contains(version),
        negotiated_versions().contains(version) <==> match version {
            Version::Lite(version) => version.rank() <= 2,
            Version::Ietf(draft) => draft == IetfVersion::Draft14,
        },
        Client::lite_version(Alpn::Lite03) matches Some(version) && version.rank() == 3,
        Client::lite_version(Alpn::Lite04) matches Some(version) && version.rank() == 4,
        Client::lite_version(Alpn::Lite05) matches Some(version) && version.rank() == 5,
        Client::lite_version(Alpn::Lite06Wip) matches Some(version) && version.rank() == 6,
{
    let all = all_versions();
    match version {
        Version::Lite(lite::Version::Lite06Wip) => assert(all[0] == version),
        Version::Lite(lite::Version::Lite05) => assert(all[1] == version),
        Version::Lite(lite::Version::Lite04) => assert(all[2] == version),
        Version::Lite(lite::Version::Lite03) => assert(all[3] == version),
        Version::Lite(lite::Version::Lite02) => assert(all[4] == version),
        Version::Lite(lite::Version::Lite01) => assert(all[5] == version),
        Version::Ietf(IetfVersion::Draft19) => assert(all[6] == version),
        Version::Ietf(IetfVersion::Draft18) => assert(all[7] == version),
        Version::Ietf(IetfVersion::Draft17) => assert(all[8] == version),
        Version::Ietf(IetfVersion::Draft16) => assert(all[9] == version),
        Version::Ietf(IetfVersion::Draft15) => assert(all[10] == version),
        Version::Ietf(IetfVersion::Draft14) => assert(all[11] == version),
    }
    let some = negotiated_versions();
    assert(some[0] == Version::Lite(lite::Version::Lite02));
    assert(some[1] == Version::Lite(lite::Version::Lite01));
    assert(some[2] == Version::Ietf(IetfVersion::Draft14));
}

} // verus!
