//! What path selection reads of the network directory: relays with their
//! identities, declared families, exit port policies and per-role
//! bandwidth weights, and weighted random selection among them.
use vstd::prelude::*;
use crate::ed25519::{Ed25519Identity, RsaIdentity};
use rand::Rng;

verus! {

/// Relies on rand's `Rng::gen_range` on a thread-local generator: the
/// result lies in `0..n`.
#[verifier::external_body]
fn random_below(n: u64) -> (r: u64)
    requires
        n > 0,
    ensures
        r < n,
{
    rand::thread_rng().gen_range(0..n)
}

/// An inclusive range of ports.
#[derive(Clone, Copy, Debug, PartialEq, Eq)]
pub struct PortRange {
    pub lo: u16,
    pub hi: u16,
}

/// An exit policy: the ports to which a relay allows exit.
#[derive(Clone, Debug)]
pub struct PortPolicy {
    pub allowed: Vec<PortRange>,
}

/// Whether `policy` allows exit to `port`.
pub open spec fn policy_allows(policy: PortPolicy, port: u16) -> bool {
    exists|i: int|
        0 <= i < policy.allowed@.len() && (#[trigger] policy.allowed@[i]).lo <= port
            <= policy.allowed@[i].hi
}

impl PortPolicy {
    /// Whether this policy allows exit to `port`.
    pub fn allows_port(&self, port: u16) -> (r: bool)
        ensures
            r == policy_allows(*self, port),
    {
        let mut i: usize = 0;
        while i < self.allowed.len()
            invariant
                i <= self.allowed@.len(),
                forall|j: int|
                    0 <= j < i ==> !((#[trigger] self.allowed@[j]).lo <= port
                        <= self.allowed@[j].hi),
            decreases self.allowed@.len() - i,
        {
            let rg = self.allowed[i];
            if rg.lo <= port && port <= rg.hi {
                return true;
            }
            i = i + 1;
        }
        false
    }
}

/// The role for which a relay is weighted during selection.
#[derive(Clone, Copy, Debug, PartialEq, Eq)]
pub enum WeightRole {
    Guard,
    Middle,
    Exit,
}

/// A relay, as path selection sees it.
#[derive(Debug)]
pub struct Relay {
    /// The relay's Ed25519 identity.
    pub id: Ed25519Identity,
    /// Identities of the relays that this relay declares as its family.
    pub family: Vec<Ed25519Identity>,
    /// Ports to which the relay allows exit over IPv4.
    pub ipv4_policy: PortPolicy,
    /// Ports to which the relay allows exit over IPv6.
    pub ipv6_policy: PortPolicy,
    /// Bandwidth weight as a guard.
    pub guard_weight: u32,
    /// Bandwidth weight as a middle.
    pub middle_weight: u32,
    /// Bandwidth weight as an exit.
    pub exit_weight: u32,
}

/// Whether relay `a` lists `id` in its declared family.
pub open spec fn lists_in_family(a: Relay, id: Seq<u8>) -> bool {
    exists|i: int| 0 <= i < a.family@.len() && (#[trigger] a.family@[i])@ == id
}

/// Whether `a` and `b` are the same relay or belong to one family: each
/// lists the other.
pub open spec fn same_family(a: Relay, b: Relay) -> bool {
    a.id@ == b.id@ || (lists_in_family(a, b.id@) && lists_in_family(b, a.id@))
}

/// The weight of `r` in `role`.
pub open spec fn role_weight(r: Relay, role: WeightRole) -> nat {
    match role {
        WeightRole::Guard => r.guard_weight as nat,
        WeightRole::Middle => r.middle_weight as nat,
        WeightRole::Exit => r.exit_weight as nat,
    }
}

impl Relay {
    /// This relay's Ed25519 identity.
    pub fn ed_identity(&self) -> (r: &Ed25519Identity)
        ensures
            r@ == self.id@,
    {
        &self.id
    }

    /// Whether `id` is listed in this relay's declared family.
    fn lists(&self, id: &Ed25519Identity) -> (r: bool)
        ensures
            r == lists_in_family(*self, id@),
    {
        let mut i: usize = 0;
        while i < self.family.len()
            invariant
                i <= self.family@.len(),
                forall|j: int| 0 <= j < i ==> (#[trigger] self.family@[j])@ != id@,
            decreases self.family@.len() - i,
        {
            if self.family[i] == *id {
                assert(self.family@[i as int]@ == id@);
                return true;
            }
            i = i + 1;
        }
        false
    }

    /// Whether this relay and `other` are the same relay or in one family.
    pub fn in_same_family(&self, other: &Relay) -> (r: bool)
        ensures
            r == same_family(*self, *other),
    {
        if self.id == other.id {
            return true;
        }
        self.lists(&other.id) && other.lists(&self.id)
    }

    /// This relay's weight in `role`.
    pub fn weight(&self, role: WeightRole) -> (r: u32)
        ensures
            r == role_weight(*self, role),
    {
        match role {
            WeightRole::Guard => self.guard_weight,
            WeightRole::Middle => self.middle_weight,
            WeightRole::Exit => self.exit_weight,
        }
    }
}

/// A port to which a circuit should allow exit.
#[derive(Clone, Copy, Debug, PartialEq, Eq)]
pub struct TargetPort {
    /// Whether the exit is over IPv6.
    pub ipv6: bool,
    /// The port.
    pub port: u16,
}

/// Whether `r` allows exit to `t`.
pub open spec fn supports_port(r: Relay, t: TargetPort) -> bool {
    if t.ipv6 {
        policy_allows(r.ipv6_policy, t.port)
    } else {
        policy_allows(r.ipv4_policy, t.port)
    }
}

/// Whether `r` allows exit to every port of `ports`.
pub open spec fn supports_all(r: Relay, ports: Seq<TargetPort>) -> bool {
    forall|i: int| 0 <= i < ports.len() ==> supports_port(r, #[trigger] ports[i])
}

impl TargetPort {
    /// A request for exit to `port` over IPv4.
    pub fn ipv4(port: u16) -> (r: TargetPort)
        ensures
            r == (TargetPort { ipv6: false, port }),
    {
        TargetPort { ipv6: false, port }
    }

    /// A request for exit to `port` over IPv6.
    pub fn ipv6(port: u16) -> (r: TargetPort)
        ensures
            r == (TargetPort { ipv6: true, port }),
    {
        TargetPort { ipv6: true, port }
    }

    /// Whether relay `r` allows exit to this port.
    pub fn is_supported_by(&self, r: &Relay) -> (b: bool)
        ensures
            b == supports_port(*r, *self),
    {
        if self.ipv6 {
            r.ipv6_policy.allows_port(self.port)
        } else {
            r.ipv4_policy.allows_port(self.port)
        }
    }
}

/// A constraint on the relay to select: it must allow exit to every port
/// of `ports` and share a family with none of `avoid`.
pub open spec fn eligible(r: Relay, ports: Seq<TargetPort>, avoid: Seq<&Relay>) -> bool {
    &&& supports_all(r, ports)
    &&& forall|j: int| 0 <= j < avoid.len() ==> !same_family(r, *#[trigger] avoid[j])
}

/// The weight with which `r` is drawn: its weight in `role` if it is
/// eligible, and zero otherwise.
pub open spec fn draw_weight(r: Relay, role: WeightRole, ports: Seq<TargetPort>, avoid: Seq<&Relay>) -> nat {
    if eligible(r, ports, avoid) {
        role_weight(r, role)
    } else {
        0
    }
}

/// The sum of the draw weights of the first `n` relays of `rs`.
pub open spec fn prefix_weight(
    rs: Seq<Relay>,
    n: int,
    role: WeightRole,
    ports: Seq<TargetPort>,
    avoid: Seq<&Relay>,
) -> nat
    decreases n,
{
    if n <= 0 {
        0
    } else {
        prefix_weight(rs, n - 1, role, ports, avoid) + draw_weight(rs[n - 1], role, ports, avoid)
    }
}

/// A snapshot of the network directory.
pub struct NetDir {
    pub relays: Vec<Relay>,
}

impl NetDir {
    /// The directory is small enough for its weights to sum in 64 bits.
    pub open spec fn wf(&self) -> bool {
        self.relays@.len() <= u32::MAX
    }

    /// The total draw weight of the directory's relays.
    pub open spec fn total_spec(&self, role: WeightRole, ports: Seq<TargetPort>, avoid: Seq<&Relay>) -> nat {
        prefix_weight(self.relays@, self.relays@.len() as int, role, ports, avoid)
    }

    /// The relay with identity `id`, if any.
    pub fn by_id(&self, id: &Ed25519Identity) -> (r: Option<&Relay>)
        ensures
            r matches Some(x) ==> x.id@ == id@ && exists|i: int|
                0 <= i < self.relays@.len() && self.relays@[i] == *x,
            r is None ==> forall|i: int| 0 <= i < self.relays@.len() ==> self.relays@[i].id@ != id@,
    {
        let mut i: usize = 0;
        while i < self.relays.len()
            invariant
                i <= self.relays@.len(),
                forall|j: int| 0 <= j < i ==> self.relays@[j].id@ != id@,
            decreases self.relays@.len() - i,
        {
            if self.relays[i].id == *id {
                return Some(&self.relays[i]);
            }
            i = i + 1;
        }
        None
    }
}

/// Whether `r` meets the constraint.
fn is_eligible(r: &Relay, ports: &[TargetPort], avoid: &[&Relay]) -> (b: bool)
    ensures
        b == eligible(*r, ports@, avoid@),
{
    let mut i: usize = 0;
    while i < ports.len()
        invariant
            i <= ports@.len(),
            forall|j: int| 0 <= j < i ==> supports_port(*r, #[trigger] ports@[j]),
        decreases ports@.len() - i,
    {
        if !ports[i].is_supported_by(r) {
            return false;
        }
        i = i + 1;
    }
    let mut k: usize = 0;
    while k < avoid.len()
        invariant
            k <= avoid@.len(),
            supports_all(*r, ports@),
            forall|j: int| 0 <= j < k ==> !same_family(*r, *#[trigger] avoid@[j]),
        decreases avoid@.len() - k,
    {
        if r.in_same_family(avoid[k]) {
            return false;
        }
        k = k + 1;
    }
    true
}

/// The weight with which `r` is drawn.
fn relay_draw_weight(r: &Relay, role: WeightRole, ports: &[TargetPort], avoid: &[&Relay]) -> (w: u32)
    ensures
        w == draw_weight(*r, role, ports@, avoid@),
{
    if is_eligible(r, ports, avoid) {
        r.weight(role)
    } else {
        0
    }
}

proof fn lemma_prefix_bound(
    rs: Seq<Relay>,
    n: int,
    role: WeightRole,
    ports: Seq<TargetPort>,
    avoid: Seq<&Relay>,
)
    requires
        0 <= n,
    ensures
        prefix_weight(rs, n, role, ports, avoid) <= n * (u32::MAX as int),
    decreases n,
{
    if n > 0 {
        lemma_prefix_bound(rs, n - 1, role, ports, avoid);
    }
}

proof fn lemma_prefix_mono(
    rs: Seq<Relay>,
    a: int,
    b: int,
    role: WeightRole,
    ports: Seq<TargetPort>,
    avoid: Seq<&Relay>,
)
    requires
        0 <= a <= b,
    ensures
        prefix_weight(rs, a, role, ports, avoid) <= prefix_weight(rs, b, role, ports, avoid),
    decreases b,
{
    if a < b {
        lemma_prefix_mono(rs, a, b - 1, role, ports, avoid);
    }
}

impl NetDir {
    /// The total draw weight of the directory's relays.
    pub fn total_weight(&self, role: WeightRole, ports: &[TargetPort], avoid: &[&Relay]) -> (t: u64)
        requires
            self.wf(),
        ensures
            t == self.total_spec(role, ports@, avoid@),
    {
        let mut total: u64 = 0;
        let mut i: usize = 0;
        while i < self.relays.len()
            invariant
                self.wf(),
                i <= self.relays@.len(),
                total == prefix_weight(self.relays@, i as int, role, ports@, avoid@),
            decreases self.relays@.len() - i,
        {
            proof {
                lemma_prefix_bound(self.relays@, i + 1, role, ports@, avoid@);
                assert((i + 1) * (u32::MAX as int) <= u64::MAX) by (nonlinear_arith)
                    requires i + 1 <= u32::MAX;
            }
            total = total + relay_draw_weight(&self.relays[i], role, ports, avoid) as u64;
            i = i + 1;
        }
        total
    }

    /// The index of the relay whose share of the cumulative draw weight
    /// holds `x`: the `i` with `prefix(i) <= x < prefix(i + 1)`.  `None`
    /// when `x` is not below the total weight.
    pub fn select_weighted(
        &self,
        role: WeightRole,
        ports: &[TargetPort],
        avoid: &[&Relay],
        x: u64,
    ) -> (r: Option<usize>)
        requires
            self.wf(),
        ensures
            r matches Some(i) ==> i < self.relays@.len() && prefix_weight(
                self.relays@,
                i as int,
                role,
                ports@,
                avoid@,
            ) <= x < prefix_weight(self.relays@, i + 1, role, ports@, avoid@),
            r is None <==> x >= self.total_spec(role, ports@, avoid@),
    {
        let mut acc: u64 = 0;
        let mut i: usize = 0;
        while i < self.relays.len()
            invariant
                self.wf(),
                i <= self.relays@.len(),
                acc == prefix_weight(self.relays@, i as int, role, ports@, avoid@),
                acc <= x,
            decreases self.relays@.len() - i,
        {
            proof {
                lemma_prefix_bound(self.relays@, i + 1, role, ports@, avoid@);
                assert((i + 1) * (u32::MAX as int) <= u64::MAX) by (nonlinear_arith)
                    requires i + 1 <= u32::MAX;
            }
            let next = acc + relay_draw_weight(&self.relays[i], role, ports, avoid) as u64;
            if x < next {
                proof {
                    lemma_prefix_mono(
                        self.relays@,
                        i + 1,
                        self.relays@.len() as int,
                        role,
                        ports@,
                        avoid@,
                    );
                }
                return Some(i);
            }
            acc = next;
            i = i + 1;
        }
        None
    }

    /// Draw a relay at random, with probability proportional to its draw
    /// weight.  `None` exactly when every draw weight is zero.
    pub fn pick_relay(&self, role: WeightRole, ports: &[TargetPort], avoid: &[&Relay]) -> (r: Option<&Relay>)
        requires
            self.wf(),
        ensures
            r is Some <==> self.total_spec(role, ports@, avoid@) > 0,
            r matches Some(x) ==> eligible(*x, ports@, avoid@) && role_weight(*x, role) > 0
                && exists|i: int| 0 <= i < self.relays@.len() && self.relays@[i] == *x,
    {
        let total = self.total_weight(role, ports, avoid);
        if total == 0 {
            return None;
        }
        let x = random_below(total);
        match self.select_weighted(role, ports, avoid, x) {
            Some(i) => Some(&self.relays[i]),
            None => None,
        }
    }
}

/// A fallback directory cache, used before a consensus is available.
#[derive(Clone, Copy, Debug)]
pub struct FallbackDir {
    pub ed_identity: Ed25519Identity,
    pub rsa_identity: RsaIdentity,
}

/// The directory information that path selection works from.
pub enum DirInfo<'a> {
    /// Only fallback caches: no consensus yet.
    Fallbacks(&'a [FallbackDir]),
    /// A consensus directory.
    Directory(&'a NetDir),
}

} // verus!
