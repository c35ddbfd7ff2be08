//! Paths through the Tor network, and building paths to an exit relay.
use vstd::prelude::*;
use crate::ed25519::Ed25519Identity;
use crate::error::Error;
use crate::relay::{
    DirInfo, FallbackDir, NetDir, PortPolicy, Relay, TargetPort, WeightRole, eligible,
    same_family, supports_all,
};

verus! {

/// A list of Tor relays through the network.
pub enum TorPath<'a> {
    /// A single-hop path for use with a directory cache, when a relay is
    /// known.
    OneHop(&'a Relay),
    /// A single-hop path for use with a directory cache, when we don't have
    /// a consensus.
    FallbackOneHop(&'a FallbackDir),
    /// A multi-hop path, containing one or more relays.
    Path(Vec<&'a Relay>),
}

/// The first hop of a path, to which a channel is opened.
pub enum FirstHop<'a> {
    Relay(&'a Relay),
    Fallback(&'a FallbackDir),
}

/// One handshake of circuit construction.
pub enum HandshakeStep<'a> {
    /// The lightweight first-hop handshake of one-hop directory paths.
    CreateFast,
    /// The authenticated first-hop handshake with this relay.
    CreateNtor(&'a Relay),
    /// Extend the circuit to this relay.
    ExtendNtor(&'a Relay),
}

/// A hop of a path that does not borrow from the directory.
#[derive(Clone, Copy, Debug)]
pub struct OwnedHop {
    pub ed_identity: Ed25519Identity,
}

/// A path that does not borrow from the directory, for handing to
/// long-lived tasks.
pub enum OwnedPath {
    /// A path used only to open a channel to one relay.
    ChannelOnly(OwnedHop),
    /// A path of one or more hops for a circuit.
    Normal(Vec<OwnedHop>),
}

impl OwnedPath {
    /// The first hop of this path; fails on an empty path.
    pub fn first_hop(&self) -> (r: Result<OwnedHop, Error>)
        ensures
            match self {
                OwnedPath::ChannelOnly(h) => r == Ok::<OwnedHop, Error>(*h),
                OwnedPath::Normal(v) => if v@.len() == 0 {
                    r == Err::<OwnedHop, Error>(Error::NoRelays("Path with no entries!"))
                } else {
                    r == Ok::<OwnedHop, Error>(v@[0])
                },
            },
    {
        match self {
            OwnedPath::ChannelOnly(h) => Ok(*h),
            OwnedPath::Normal(v) => {
                if v.len() == 0 {
                    Err(Error::NoRelays("Path with no entries!"))
                } else {
                    Ok(v[0])
                }
            },
        }
    }

    /// Number of hops of this path.
    pub fn len(&self) -> (r: usize)
        ensures
            match self {
                OwnedPath::ChannelOnly(_) => r == 1,
                OwnedPath::Normal(v) => r == v@.len(),
            },
    {
        match self {
            OwnedPath::ChannelOnly(_) => 1,
            OwnedPath::Normal(v) => v.len(),
        }
    }
}

impl<'a> TorPath<'a> {
    /// A multi-hop path through `relays`, in order.
    pub fn new_multihop(relays: Vec<&'a Relay>) -> (r: TorPath<'a>)
        ensures
            r == TorPath::Path(relays),
    {
        TorPath::Path(relays)
    }

    /// The first hop of this path, to which a channel is opened.
    pub fn first_hop(&self) -> (r: Result<FirstHop<'a>, Error>)
        ensures
            match self {
                TorPath::OneHop(x) => r == Ok::<FirstHop<'a>, Error>(FirstHop::Relay(*x)),
                TorPath::FallbackOneHop(f) => r == Ok::<FirstHop<'a>, Error>(FirstHop::Fallback(*f)),
                TorPath::Path(p) => if p@.len() == 0 {
                    r == Err::<FirstHop<'a>, Error>(Error::NoRelays("Path with no entries!"))
                } else {
                    r == Ok::<FirstHop<'a>, Error>(FirstHop::Relay(p@[0]))
                },
            },
    {
        match self {
            TorPath::OneHop(x) => Ok(FirstHop::Relay(*x)),
            TorPath::FallbackOneHop(f) => Ok(FirstHop::Fallback(*f)),
            TorPath::Path(p) => {
                if p.len() == 0 {
                    Err(Error::NoRelays("Path with no entries!"))
                } else {
                    Ok(FirstHop::Relay(p[0]))
                }
            },
        }
    }

    /// Number of hops of this path.
    pub fn len(&self) -> (r: usize)
        ensures
            match self {
                TorPath::Path(p) => r == p@.len(),
                _ => r == 1,
            },
    {
        match self {
            TorPath::Path(p) => p.len(),
            _ => 1,
        }
    }

    /// The last relay of this path, if it has one.
    pub fn exit_relay(&self) -> (r: Option<&'a Relay>)
        ensures
            match self {
                TorPath::OneHop(x) => r == Some(*x),
                TorPath::FallbackOneHop(_) => r is None,
                TorPath::Path(p) => if p@.len() == 0 {
                    r is None
                } else {
                    r == Some(p@.last())
                },
            },
    {
        match self {
            TorPath::OneHop(x) => Some(*x),
            TorPath::FallbackOneHop(_) => None,
            TorPath::Path(p) => {
                if p.len() == 0 {
                    None
                } else {
                    Some(p[p.len() - 1])
                }
            },
        }
    }

    /// The IPv4 exit policy of the last relay of this path, if it has one.
    pub fn exit_policy(&self) -> (r: Option<&'a PortPolicy>)
        ensures
            r is Some <==> self.exit_relay_spec() is Some,
            r matches Some(pol) ==> *pol == self.exit_relay_spec()->Some_0.ipv4_policy,
    {
        match self.exit_relay() {
            Some(x) => Some(&x.ipv4_policy),
            None => None,
        }
    }

    /// The last relay of this path, if it has one.
    pub open spec fn exit_relay_spec(&self) -> Option<&'a Relay> {
        match self {
            TorPath::OneHop(x) => Some(*x),
            TorPath::FallbackOneHop(_) => None,
            TorPath::Path(p) => if p@.len() == 0 {
                None
            } else {
                Some(p@.last())
            },
        }
    }

    /// A copy of this path that does not borrow from the directory; fails
    /// on an empty path.
    pub fn to_owned(&self) -> (r: Result<OwnedPath, Error>)
        ensures
            match self {
                TorPath::OneHop(x) => r matches Ok(OwnedPath::ChannelOnly(h)) && h.ed_identity@
                    == x.id@,
                TorPath::FallbackOneHop(f) => r matches Ok(OwnedPath::ChannelOnly(h))
                    && h.ed_identity@ == f.ed_identity@,
                TorPath::Path(p) => if p@.len() == 0 {
                    r == Err::<OwnedPath, Error>(Error::NoRelays("Path with no entries!"))
                } else {
                    r matches Ok(OwnedPath::Normal(v)) && v@.len() == p@.len() && forall|i: int|
                        0 <= i < p@.len() ==> (#[trigger] v@[i]).ed_identity@ == p@[i].id@
                },
            },
    {
        match self {
            TorPath::OneHop(x) => Ok(OwnedPath::ChannelOnly(OwnedHop { ed_identity: x.id })),
            TorPath::FallbackOneHop(f) => Ok(
                OwnedPath::ChannelOnly(OwnedHop { ed_identity: f.ed_identity }),
            ),
            TorPath::Path(p) => {
                if p.len() == 0 {
                    return Err(Error::NoRelays("Path with no entries!"));
                }
                let mut v: Vec<OwnedHop> = Vec::new();
                let mut i: usize = 0;
                while i < p.len()
                    invariant
                        i <= p@.len(),
                        v@.len() == i,
                        forall|j: int| 0 <= j < i ==> (#[trigger] v@[j]).ed_identity@ == p@[j].id@,
                    decreases p@.len() - i,
                {
                    v.push(OwnedHop { ed_identity: p[i].id });
                    i = i + 1;
                }
                Ok(OwnedPath::Normal(v))
            },
        }
    }

    /// The handshakes that build a circuit along this path, in order: the
    /// fast handshake alone for one-hop paths; otherwise an ntor handshake
    /// with the first relay and one extension to each later relay.
    pub fn handshake_plan(&self) -> (r: Result<Vec<HandshakeStep<'a>>, Error>)
        ensures
            match self {
                TorPath::Path(p) => if p@.len() == 0 {
                    r == Err::<Vec<HandshakeStep<'a>>, Error>(
                        Error::NoRelays("Path with no entries!"),
                    )
                } else {
                    r matches Ok(steps) && steps@.len() == p@.len() && steps@[0]
                        == HandshakeStep::CreateNtor(p@[0]) && forall|i: int|
                        1 <= i < p@.len() ==> #[trigger] steps@[i] == HandshakeStep::ExtendNtor(
                            p@[i],
                        )
                },
                _ => r matches Ok(steps) && steps@ == seq![HandshakeStep::<'a>::CreateFast],
            },
    {
        match self {
            TorPath::Path(p) => {
                if p.len() == 0 {
                    return Err(Error::NoRelays("Path with no entries!"));
                }
                let mut steps: Vec<HandshakeStep<'a>> = Vec::new();
                steps.push(HandshakeStep::CreateNtor(p[0]));
                let mut i: usize = 1;
                while i < p.len()
                    invariant
                        1 <= i <= p@.len(),
                        steps@.len() == i,
                        steps@[0] == HandshakeStep::CreateNtor(p@[0]),
                        forall|j: int| 1 <= j < i ==> #[trigger] steps@[j] == HandshakeStep::ExtendNtor(p@[j]),
                    decreases p@.len() - i,
                {
                    steps.push(HandshakeStep::ExtendNtor(p[i]));
                    i = i + 1;
                }
                Ok(steps)
            },
            _ => {
                let mut steps: Vec<HandshakeStep<'a>> = Vec::new();
                steps.push(HandshakeStep::CreateFast);
                assert(steps@ =~= seq![HandshakeStep::<'a>::CreateFast]);
                Ok(steps)
            },
        }
    }
}

/// Internal representation of an exit path builder.
enum ExitPathBuilderInner<'a> {
    /// Request a path that allows exit to the given ports.
    WantsPorts(Vec<TargetPort>),
    /// Request a path that uses a given relay as exit.
    ChosenExit(&'a Relay),
}

/// Builds three-hop paths to an exit relay that supports a given set of
/// ports, or to a chosen exit relay.
pub struct ExitPathBuilder<'a> {
    inner: ExitPathBuilderInner<'a>,
}

/// Whether relays `a` and `b` may stand on one path together (a symmetric
/// relation).
pub open spec fn apart(a: Relay, b: Relay) -> bool {
    !same_family(a, b) && a.id@ != b.id@
}

/// Being apart is symmetric, so a path that keeps each pair of its hops
/// apart in one order keeps them apart in the other.
pub proof fn lemma_apart_symmetric(a: Relay, b: Relay)
    ensures
        apart(a, b) == apart(b, a),
{
}

impl<'a> ExitPathBuilder<'a> {
    /// Whether `r` meets this builder's requirement on the exit relay.
    pub closed spec fn exit_ok(&self, r: Relay) -> bool {
        match self.inner {
            ExitPathBuilderInner::WantsPorts(ports) => supports_all(r, ports@),
            ExitPathBuilderInner::ChosenExit(x) => r == *x,
        }
    }

    /// Whether this builder picks its exit from the directory, and if so,
    /// the ports that the exit must support.
    pub closed spec fn wanted_ports(&self) -> Option<Seq<TargetPort>> {
        match self.inner {
            ExitPathBuilderInner::WantsPorts(ports) => Some(ports@),
            ExitPathBuilderInner::ChosenExit(_) => None,
        }
    }

    /// Whether `path` is a path this builder may return from `dir`: three
    /// relays, guard and middle from the directory, an exit meeting the
    /// builder's requirement, and no two of them in one family.
    pub open spec fn path_ok(&self, dir: NetDir, path: TorPath<'a>) -> bool {
        match path {
            TorPath::Path(p) => {
                &&& p@.len() == 3
                &&& self.exit_ok(*p@[2])
                &&& exists|i: int| 0 <= i < dir.relays@.len() && dir.relays@[i] == *p@[0]
                &&& exists|i: int| 0 <= i < dir.relays@.len() && dir.relays@[i] == *p@[1]
                &&& apart(*p@[0], *p@[1])
                &&& apart(*p@[0], *p@[2])
                &&& apart(*p@[1], *p@[2])
            },
            _ => false,
        }
    }

    /// A builder whose exit must allow every port of `wantports`.
    pub fn from_target_ports(wantports: Vec<TargetPort>) -> (r: Self)
        ensures
            r.wanted_ports() == Some(wantports@),
            forall|x: Relay| r.exit_ok(x) == supports_all(x, wantports@),
    {
        ExitPathBuilder { inner: ExitPathBuilderInner::WantsPorts(wantports) }
    }

    /// A builder whose exit is `exit_relay`.
    pub fn from_chosen_exit(exit_relay: &'a Relay) -> (r: Self)
        ensures
            r.wanted_ports() is None,
            forall|x: Relay| r.exit_ok(x) == (x == *exit_relay),
    {
        ExitPathBuilder { inner: ExitPathBuilderInner::ChosenExit(exit_relay) }
    }

    /// Find the exit: the chosen one, or one drawn by exit weight among the
    /// relays that support every wanted port.
    fn pick_exit(&self, netdir: &'a NetDir) -> (r: Result<&'a Relay, Error>)
        requires
            netdir.wf(),
        ensures
            r matches Ok(x) ==> self.exit_ok(*x),
            self.wanted_ports() matches Some(ports) ==> (r is Err <==> netdir.total_spec(
                WeightRole::Exit,
                ports,
                Seq::empty(),
            ) == 0),
            self.wanted_ports() is None ==> r is Ok,
            r is Err ==> r == Err::<&'a Relay, Error>(Error::NoRelays("No exit relay found")),
    {
        match &self.inner {
            ExitPathBuilderInner::WantsPorts(wantports) => {
                let avoid: Vec<&Relay> = Vec::new();
                proof {
                    assert(avoid@ =~= Seq::<&Relay>::empty());
                }
                match netdir.pick_relay(WeightRole::Exit, wantports.as_slice(), avoid.as_slice()) {
                    Some(x) => Ok(x),
                    None => Err(Error::NoRelays("No exit relay found")),
                }
            },
            ExitPathBuilderInner::ChosenExit(x) => Ok(*x),
        }
    }

    /// Pick a three-hop path: guard, middle, exit.  Fails with
    /// `NeedConsensus` when only fallback caches are known, and with
    /// `NoRelays` when no relay is left for some position.
    pub fn pick_path(&self, netdir: DirInfo<'a>) -> (r: Result<TorPath<'a>, Error>)
        requires
            netdir matches DirInfo::Directory(d) ==> d.wf(),
        ensures
            netdir is Fallbacks ==> r == Err::<TorPath<'a>, Error>(Error::NeedConsensus),
            netdir matches DirInfo::Directory(d) ==> match r {
                Ok(path) => self.path_ok(*d, path),
                Err(e) => e is NoRelays,
            },
            netdir matches DirInfo::Directory(d) ==> (self.wanted_ports() matches Some(ports)
                && d.total_spec(WeightRole::Exit, ports, Seq::empty()) == 0 ==> r
                == Err::<TorPath<'a>, Error>(Error::NoRelays("No exit relay found"))),
            netdir matches DirInfo::Directory(d) ==> (r matches Err(Error::NoRelays(_)) ==> (
            (self.wanted_ports() matches Some(ports) && d.total_spec(
                WeightRole::Exit,
                ports,
                Seq::empty(),
            ) == 0) || (exists|x: &'a Relay|
                self.exit_ok(*x) && d.total_spec(WeightRole::Middle, Seq::empty(), seq![x]) == 0)
                || (exists|x: &'a Relay, y: &'a Relay|
                self.exit_ok(*x) && !same_family(*y, *x) && d.total_spec(
                    WeightRole::Guard,
                    Seq::empty(),
                    seq![y, x],
                ) == 0))),
    {
        let netdir = match netdir {
            DirInfo::Fallbacks(_) => return Err(Error::NeedConsensus),
            DirInfo::Directory(d) => d,
        };
        let exit = match self.pick_exit(netdir) {
            Ok(x) => x,
            Err(e) => return Err(e),
        };
        let no_ports: Vec<TargetPort> = Vec::new();
        let mut avoid: Vec<&Relay> = Vec::new();
        avoid.push(exit);
        proof {
            assert(no_ports@ =~= Seq::<TargetPort>::empty());
            assert(avoid@ =~= seq![exit]);
        }
        let middle = match netdir.pick_relay(WeightRole::Middle, no_ports.as_slice(), avoid.as_slice()) {
            Some(x) => x,
            None => return Err(Error::NoRelays("No middle relay found")),
        };
        proof {
            assert(eligible(*middle, no_ports@, avoid@));
            assert(avoid@[0] == exit);
        }
        let mut avoid2: Vec<&Relay> = Vec::new();
        avoid2.push(middle);
        avoid2.push(exit);
        proof {
            assert(avoid2@ =~= seq![middle, exit]);
        }
        let entry = match netdir.pick_relay(WeightRole::Guard, no_ports.as_slice(), avoid2.as_slice()) {
            Some(x) => x,
            None => return Err(Error::NoRelays("No entry relay found")),
        };
        proof {
            assert(eligible(*entry, no_ports@, avoid2@));
            assert(avoid2@[0] == middle);
            assert(avoid2@[1] == exit);
        }
        let mut hops: Vec<&'a Relay> = Vec::new();
        hops.push(entry);
        hops.push(middle);
        hops.push(exit);
        Ok(TorPath::new_multihop(hops))
    }
}

} // verus!
