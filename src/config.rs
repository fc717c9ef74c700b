//! Addresses, protocols and port-forward descriptions.
use vstd::prelude::*;

verus! {

/// The transport protocol of a forward or a virtual port.
#[derive(Clone, Copy, Debug, PartialEq, Eq, Structural, Hash)]
pub enum PortProtocol {
    Tcp,
    Udp,
}

/// What `str::to_uppercase` gives for a string.
pub uninterp spec fn upper_of(s: Seq<char>) -> Seq<char>;

/// Relies on `str::to_uppercase`: the upper-case form of `s`, which depends
/// on its characters alone.
#[verifier::external_body]
fn uppercase(s: &str) -> (r: String)
    ensures
        r@ == upper_of(s@),
{
    s.to_uppercase()
}

/// The protocol that an upper-case name denotes.
pub open spec fn protocol_named(u: Seq<char>) -> Option<PortProtocol> {
    if u == "TCP"@ {
        Some(PortProtocol::Tcp)
    } else if u == "UDP"@ {
        Some(PortProtocol::Udp)
    } else {
        None
    }
}

impl PortProtocol {
    /// The protocol that an upper-case name, `TCP` or `UDP`, denotes.
    pub fn from_upper(u: &String) -> (r: Option<PortProtocol>)
        ensures
            r == protocol_named(u@),
    {
        let tcp = String::from_str("TCP");
        let udp = String::from_str("UDP");
        if *u == tcp {
            Some(PortProtocol::Tcp)
        } else if *u == udp {
            Some(PortProtocol::Udp)
        } else {
            None
        }
    }

    /// The protocol named by `s` in any case: `tcp` or `udp`.
    pub fn parse(s: &str) -> (r: Option<PortProtocol>)
        ensures
            r == protocol_named(upper_of(s@)),
    {
        let u = uppercase(s);
        Self::from_upper(&u)
    }
}

/// An IP address: a version 4 address as its 32-bit big-endian value, a
/// version 6 address as its 128-bit big-endian value.
#[derive(Clone, Copy, Debug, PartialEq, Eq, Structural, Hash)]
pub enum IpAddress {
    V4(u32),
    V6(u128),
}

impl IpAddress {
    /// Width in bits of an address of this family.
    pub open spec fn spec_width(self) -> u8 {
        match self {
            IpAddress::V4(_) => 32,
            IpAddress::V6(_) => 128,
        }
    }

    /// Width in bits of an address of this family: the prefix length that
    /// designates this single host.
    pub fn width(&self) -> (r: u8)
        ensures
            r == self.spec_width(),
    {
        match self {
            IpAddress::V4(_) => 32,
            IpAddress::V6(_) => 128,
        }
    }
}

/// An IP address and a port.
#[derive(Clone, Copy, Debug, PartialEq, Eq, Structural, Hash)]
pub struct SocketAddress {
    pub ip: IpAddress,
    pub port: u16,
}

/// A configured mapping from a listening endpoint to a peer-side destination
/// for one protocol. A remote forward is initiated by the peer: its source is
/// the virtual address that the peer targets.
#[derive(Clone, Copy, Debug, PartialEq, Eq, Structural, Hash)]
pub struct PortForwardConfig {
    pub source: SocketAddress,
    pub destination: SocketAddress,
    pub protocol: PortProtocol,
    pub remote: bool,
}

impl PortForwardConfig {
    /// A locally initiated forward from `source` to `destination`.
    pub fn new(source: SocketAddress, destination: SocketAddress, protocol: PortProtocol) -> (r:
        Self)
        ensures
            r.source == source,
            r.destination == destination,
            r.protocol == protocol,
            !r.remote,
    {
        PortForwardConfig { source, destination, protocol, remote: false }
    }
}

/// The forwards of `s` that carry `protocol`, in order.
pub open spec fn forwards_of(s: Seq<PortForwardConfig>, protocol: PortProtocol) -> Seq<
    PortForwardConfig,
> {
    s.filter(|f: PortForwardConfig| f.protocol == protocol)
}

/// Some forward of `s` carries `protocol`.
pub open spec fn carries(s: Seq<PortForwardConfig>, protocol: PortProtocol) -> bool {
    exists|i: int| 0 <= i < s.len() && s[i].protocol == protocol
}

/// Keeps the forwards that carry `protocol`, in order.
pub fn select_protocol(forwards: Vec<PortForwardConfig>, protocol: PortProtocol) -> (r: Vec<
    PortForwardConfig,
>)
    ensures
        r@ == forwards_of(forwards@, protocol),
{
    let mut r: Vec<PortForwardConfig> = Vec::new();
    let mut i: usize = 0;
    proof {
        reveal(Seq::filter);
        assert(forwards@.subrange(0, 0) =~= Seq::<PortForwardConfig>::empty());
    }
    while i < forwards.len()
        invariant
            0 <= i <= forwards.len(),
            r@ == forwards_of(forwards@.subrange(0, i as int), protocol),
        decreases forwards.len() - i,
    {
        let f = forwards[i];
        proof {
            reveal(Seq::filter);
            assert(forwards@.subrange(0, i + 1).drop_last() =~= forwards@.subrange(0, i as int));
            assert(forwards@.subrange(0, i + 1).last() == f);
        }
        if f.protocol == protocol {
            r.push(f);
        }
        i = i + 1;
    }
    assert(forwards@.subrange(0, forwards@.len() as int) =~= forwards@);
    r
}

/// Whether some forward carries `protocol`.
pub fn any_carries(forwards: &Vec<PortForwardConfig>, protocol: PortProtocol) -> (r: bool)
    ensures
        r == carries(forwards@, protocol),
{
    let mut i: usize = 0;
    while i < forwards.len()
        invariant
            0 <= i <= forwards.len(),
            forall|j: int| 0 <= j < i ==> forwards@[j].protocol != protocol,
        decreases forwards.len() - i,
    {
        if forwards[i].protocol == protocol {
            return true;
        }
        i = i + 1;
    }
    false
}

} // verus!
