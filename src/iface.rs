//! What the TCP and UDP virtual interfaces share: the host addresses that
//! their embedded IP stack answers for.
use vstd::prelude::*;

use crate::config::{IpAddress, PortForwardConfig};
use crate::events::{Event, VirtualPort};

verus! {

/// An address block: an address and the length of its network prefix.
#[derive(Clone, Copy, Debug, PartialEq, Eq, Structural, Hash)]
pub struct IpCidr {
    pub address: IpAddress,
    pub prefix_len: u8,
}

/// The block that holds exactly one host address: /32 or /128.
pub open spec fn host_cidr(a: IpAddress) -> IpCidr {
    IpCidr { address: a, prefix_len: a.spec_width() }
}

/// The addresses of a list of blocks, in order.
pub open spec fn cidr_addresses(s: Seq<IpCidr>) -> Seq<IpAddress> {
    s.map_values(|c: IpCidr| c.address)
}

/// Every block of `s` is a single host, and no address comes twice.
pub open spec fn distinct_hosts(s: Seq<IpCidr>) -> bool {
    &&& forall|i: int| 0 <= i < s.len() ==> s[i] == host_cidr(#[trigger] s[i].address)
    &&& cidr_addresses(s).no_duplicates()
}

/// `a` is the source peer address, the destination address of a local
/// forward, or the source address of a remote forward (the virtual address
/// that the peer targets).
pub open spec fn is_host_address(
    source_peer_ip: IpAddress,
    forwards: Seq<PortForwardConfig>,
    remotes: Seq<PortForwardConfig>,
    a: IpAddress,
) -> bool {
    ||| a == source_peer_ip
    ||| exists|i: int| 0 <= i < forwards.len() && forwards[i].destination.ip == a
    ||| exists|i: int| 0 <= i < remotes.len() && remotes[i].source.ip == a
}

/// Appends the host block of `a` unless `a` is there already.
fn insert_host(v: &mut Vec<IpCidr>, a: IpAddress)
    requires
        distinct_hosts(old(v)@),
    ensures
        distinct_hosts(final(v)@),
        forall|b: IpAddress|
            cidr_addresses(final(v)@).contains(b) <==> (cidr_addresses(old(v)@).contains(b) || b
                == a),
{
    let mut i: usize = 0;
    while i < v.len()
        invariant
            0 <= i <= v.len(),
            v@ == old(v)@,
            distinct_hosts(v@),
            forall|j: int| 0 <= j < i ==> v@[j].address != a,
        decreases v.len() - i,
    {
        if v[i].address == a {
            assert(cidr_addresses(v@)[i as int] == a);
            return;
        }
        i = i + 1;
    }
    let ghost before = v@;
    let w = a.width();
    v.push(IpCidr { address: a, prefix_len: w });
    assert(cidr_addresses(v@) == cidr_addresses(before).push(a));
    assert(!cidr_addresses(before).contains(a));
    assert forall|b: IpAddress|
        cidr_addresses(v@).contains(b) <==> (cidr_addresses(before).contains(b) || b == a) by {
        if cidr_addresses(before).contains(b) {
            let k = choose|k: int| 0 <= k < before.len() && cidr_addresses(before)[k] == b;
            assert(cidr_addresses(v@)[k] == b);
        }
        if cidr_addresses(v@).contains(b) && b != a {
            let k = choose|k: int| 0 <= k < v@.len() && cidr_addresses(v@)[k] == b;
            assert(cidr_addresses(before)[k] == b);
        }
        if b == a {
            assert(cidr_addresses(v@)[before.len() as int] == a);
        }
    }
}

/// The host blocks of the source peer address, of each local forward's
/// destination address and of each remote forward's source address, each
/// address once.
pub fn host_addresses(
    source_peer_ip: IpAddress,
    forwards: &Vec<PortForwardConfig>,
    remotes: &Vec<PortForwardConfig>,
) -> (r: Vec<IpCidr>)
    ensures
        distinct_hosts(r@),
        forall|a: IpAddress|
            cidr_addresses(r@).contains(a) <==> is_host_address(
                source_peer_ip,
                forwards@,
                remotes@,
                a,
            ),
{
    let mut r: Vec<IpCidr> = Vec::new();
    assert(cidr_addresses(r@) =~= Seq::<IpAddress>::empty());
    insert_host(&mut r, source_peer_ip);
    let mut i: usize = 0;
    while i < forwards.len()
        invariant
            0 <= i <= forwards.len(),
            distinct_hosts(r@),
            forall|a: IpAddress|
                cidr_addresses(r@).contains(a) <==> (a == source_peer_ip || exists|j: int|
                    0 <= j < i && forwards@[j].destination.ip == a),
        decreases forwards.len() - i,
    {
        insert_host(&mut r, forwards[i].destination.ip);
        assert forall|a: IpAddress|
            cidr_addresses(r@).contains(a) <==> (a == source_peer_ip || exists|j: int|
                0 <= j < i + 1 && forwards@[j].destination.ip == a) by {
            if exists|j: int| 0 <= j < i + 1 && forwards@[j].destination.ip == a {
                let j = choose|j: int| 0 <= j < i + 1 && forwards@[j].destination.ip == a;
                if j < i {
                    assert(exists|k: int| 0 <= k < i && forwards@[k].destination.ip == a);
                }
            }
        }
        i = i + 1;
    }
    let mut k: usize = 0;
    while k < remotes.len()
        invariant
            0 <= k <= remotes.len(),
            distinct_hosts(r@),
            forall|a: IpAddress|
                cidr_addresses(r@).contains(a) <==> (a == source_peer_ip || (exists|j: int|
                    0 <= j < forwards@.len() && forwards@[j].destination.ip == a) || exists|j: int|
                    0 <= j < k && remotes@[j].source.ip == a),
        decreases remotes.len() - k,
    {
        insert_host(&mut r, remotes[k].source.ip);
        assert forall|a: IpAddress|
            cidr_addresses(r@).contains(a) <==> (a == source_peer_ip || (exists|j: int|
                0 <= j < forwards@.len() && forwards@[j].destination.ip == a) || exists|j: int|
                0 <= j < k + 1 && remotes@[j].source.ip == a) by {
            if exists|j: int| 0 <= j < k + 1 && remotes@[j].source.ip == a {
                let j = choose|j: int| 0 <= j < k + 1 && remotes@[j].source.ip == a;
                if j < k {
                    assert(exists|m: int| 0 <= m < k && remotes@[m].source.ip == a);
                }
            }
        }
        k = k + 1;
    }
    r
}

/// The event that carries bytes read from the virtual socket of `port`;
/// an empty read gives none.
pub fn remote_data(port: VirtualPort, data: Vec<u8>) -> (r: Option<Event>)
    ensures
        data@.len() == 0 ==> r is None,
        data@.len() > 0 ==> (r matches Some(Event::RemoteData(p, d)) && p == port && d@ == data@),
{
    if data.len() == 0 {
        None
    } else {
        Some(Event::RemoteData(port, data))
    }
}

/// When the poll loop next wakes to poll the stack.
#[derive(Clone, Copy, Debug, PartialEq, Eq, Structural)]
pub enum Wake {
    /// At once.
    Now,
    /// At this instant, in milliseconds.
    At(u64),
    /// Only on a bus event or shutdown.
    Never,
}

/// The instant of the next poll, from the delay that the stack asks for
/// after a poll started at `now`: a zero delay, or none, means at once
/// (`None`); an instant past the clock's range is its last instant.
pub fn next_poll_at(now: u64, delay: Option<u64>) -> (r: Option<u64>)
    ensures
        match delay {
            None => r is None,
            Some(d) => if d == 0 {
                r is None
            } else if now + d <= u64::MAX {
                r == Some((now + d) as u64)
            } else {
                r == Some(u64::MAX)
            },
        },
{
    match delay {
        None => None,
        Some(d) => {
            if d == 0 {
                None
            } else if d <= u64::MAX - now {
                Some(now + d)
            } else {
                Some(u64::MAX)
            }
        },
    }
}

/// How long the poll loop waits: until the scheduled instant if there is
/// one; else at once when work is `pending`, and for an event otherwise.
pub fn wake_choice(next_poll: Option<u64>, pending: bool) -> (r: Wake)
    ensures
        match next_poll {
            Some(t) => r == Wake::At(t),
            None => r == if pending {
                Wake::Now
            } else {
                Wake::Never
            },
        },
{
    match next_poll {
        Some(t) => Wake::At(t),
        None => if pending {
            Wake::Now
        } else {
            Wake::Never
        },
    }
}

} // verus!
