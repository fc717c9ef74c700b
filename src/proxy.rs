//! The proxy servers' decisions: which virtual port a local flow gets, what
//! is published for what it reads, and where the replies go.
use vstd::prelude::*;

use crate::config::{PortForwardConfig, PortProtocol, SocketAddress};
use crate::events::{Event, VirtualPort};
use crate::pool::{first_usable, usable, PoolError, PortPool, EPHEMERAL_MIN};

verus! {

/// Which proxy server a forward runs.
#[derive(Clone, Copy, Debug, PartialEq, Eq, Structural)]
pub enum ProxyKind {
    /// Accepts TCP connections on the forward's source.
    Tcp,
    /// Receives UDP datagrams on the forward's source.
    Udp,
}

/// Why a forward cannot be run.
#[derive(Clone, Copy, Debug, PartialEq, Eq, Structural)]
pub enum ForwardError {
    /// The peer cannot initiate TCP flows.
    RemoteTcpUnsupported,
}

/// The proxy server of a locally initiated forward: the one of its protocol.
pub fn port_forward(forward: &PortForwardConfig) -> (r: ProxyKind)
    ensures
        r == match forward.protocol {
            PortProtocol::Tcp => ProxyKind::Tcp,
            PortProtocol::Udp => ProxyKind::Udp,
        },
{
    match forward.protocol {
        PortProtocol::Tcp => ProxyKind::Tcp,
        PortProtocol::Udp => ProxyKind::Udp,
    }
}

/// The proxy server of a remote forward: UDP only; a TCP one is refused.
pub fn remote_port_forward(forward: &PortForwardConfig) -> (r: Result<ProxyKind, ForwardError>)
    ensures
        r == match forward.protocol {
            PortProtocol::Tcp => Err(ForwardError::RemoteTcpUnsupported),
            PortProtocol::Udp => Ok(ProxyKind::Udp),
        },
{
    match forward.protocol {
        PortProtocol::Tcp => Err(ForwardError::RemoteTcpUnsupported),
        PortProtocol::Udp => Ok(ProxyKind::Udp),
    }
}

/// Gives an accepted TCP connection from `client` a virtual port, drawn from
/// `candidates`, and the event that announces it.
pub fn tcp_accept(
    pool: &mut PortPool,
    forward: PortForwardConfig,
    client: SocketAddress,
    candidates: &Vec<u16>,
    now: u64,
) -> (r: Result<(VirtualPort, Event), PoolError>)
    requires
        old(pool).wf(),
    ensures
        final(pool).wf(),
        final(pool).spec_protocol() == old(pool).spec_protocol(),
        match r {
            Ok((v, e)) => {
                &&& v.protocol == old(pool).spec_protocol()
                &&& exists|k: int| first_usable(old(pool)@, candidates@, k) && candidates@[k] == v.num
                &&& final(pool)@ == old(pool)@.insert(v.num, client)
                &&& final(pool).last_use() == old(pool).last_use().insert(v.num, now)
                &&& e matches Event::ClientConnectionInitiated(f, p) && f == forward && p == v
            },
            Err(e) => {
                &&& e == PoolError::NoFreePorts
                &&& forall|k: int|
                    0 <= k < candidates@.len() ==> !usable(old(pool)@, #[trigger] candidates@[k])
                &&& final(pool)@ == old(pool)@
                &&& final(pool).last_use() == old(pool).last_use()
            },
        },
{
    match pool.allocate(candidates, client, now) {
        Ok(v) => Ok((v, Event::ClientConnectionInitiated(forward, v))),
        Err(e) => Err(e),
    }
}

/// The event for what one read of a local TCP connection gave: its bytes,
/// or, on end of stream (an empty read), the end of the flow.
pub fn tcp_local_read(forward: PortForwardConfig, port: VirtualPort, data: Vec<u8>) -> (r: Event)
    ensures
        data@.len() == 0 ==> (r matches Event::ClientConnectionDropped(p) && p == port),
        data@.len() > 0 ==> (r matches Event::LocalData(f, p, d) && f == forward && p == port && d@
            == data@),
{
    if data.len() == 0 {
        Event::ClientConnectionDropped(port)
    } else {
        Event::LocalData(forward, port, data)
    }
}

/// What the writing half of a TCP flow does with a bus event.
#[derive(Clone, Debug)]
pub enum PumpStep {
    /// Write these bytes to the local connection.
    Write(Vec<u8>),
    /// The flow ended: shut the local connection's writing half down.
    Shutdown,
    /// The event is for someone else.
    Skip,
}

/// Replies for `port` are written out; the end of its flow shuts the writing
/// half down; anything else is skipped.
pub fn tcp_remote_event(port: VirtualPort, event: Event) -> (r: PumpStep)
    ensures
        match event {
            Event::RemoteData(p, d) => if p == port {
                r matches PumpStep::Write(w) && w@ == d@
            } else {
                r is Skip
            },
            Event::ClientConnectionDropped(p) => if p == port {
                r is Shutdown
            } else {
                r is Skip
            },
            _ => r is Skip,
        },
{
    match event {
        Event::RemoteData(p, d) => if p == port {
            PumpStep::Write(d)
        } else {
            PumpStep::Skip
        },
        Event::ClientConnectionDropped(p) => if p == port {
            PumpStep::Shutdown
        } else {
            PumpStep::Skip
        },
        _ => PumpStep::Skip,
    }
}

/// How a datagram from `peer` finds its virtual port: the one already
/// allocated to `peer`, with the pool unchanged; or, only when `peer` holds
/// none, a usable number newly allocated to it.
pub open spec fn assigned(
    before: Map<u16, SocketAddress>,
    after: Map<u16, SocketAddress>,
    peer: SocketAddress,
    num: u16,
) -> bool {
    ||| before.contains_key(num) && before[num] == peer && after == before
    ||| usable(before, num) && after == before.insert(num, peer) && forall|n: u16|
        #[trigger] before.contains_key(n) ==> before[n] != peer
}

/// Where a reply for virtual port `v` goes: the endpoint it is allocated to,
/// in a pool for the same protocol.
pub open spec fn reply_target(
    taken: Map<u16, SocketAddress>,
    protocol: PortProtocol,
    v: VirtualPort,
) -> Option<SocketAddress> {
    if v.protocol == protocol && taken.contains_key(v.num) {
        Some(taken[v.num])
    } else {
        None
    }
}

/// Publishes a datagram received at `now` from `peer`: once, as local data
/// on the virtual port of `peer`, allocated from `candidates` if it had none.
/// The port counts as used at `now`.
pub fn udp_datagram(
    pool: &mut PortPool,
    forward: PortForwardConfig,
    peer: SocketAddress,
    data: Vec<u8>,
    candidates: &Vec<u16>,
    now: u64,
) -> (r: Result<Event, PoolError>)
    requires
        old(pool).wf(),
    ensures
        final(pool).wf(),
        final(pool).spec_protocol() == old(pool).spec_protocol(),
        match r {
            Ok(e) => e matches Event::LocalData(f, v, d) && f == forward && d@ == data@
                && v.protocol == old(pool).spec_protocol() && assigned(
                old(pool)@,
                final(pool)@,
                peer,
                v.num,
            ) && final(pool).last_use() == old(pool).last_use().insert(v.num, now),
            Err(e) => {
                &&& e == PoolError::NoFreePorts
                &&& forall|n: u16| #[trigger] old(pool)@.contains_key(n) ==> old(pool)@[n] != peer
                &&& forall|k: int|
                    0 <= k < candidates@.len() ==> !usable(old(pool)@, #[trigger] candidates@[k])
                &&& final(pool)@ == old(pool)@
                &&& final(pool).last_use() == old(pool).last_use()
            },
        },
{
    match pool.port_of(peer) {
        Some(v) => {
            pool.touch(v.num, now);
            Ok(Event::LocalData(forward, v, data))
        },
        None => match pool.allocate(candidates, peer, now) {
            Ok(v) => Ok(Event::LocalData(forward, v, data)),
            Err(e) => Err(e),
        },
    }
}

/// Where a reply goes: for remote data on a port of this pool, the endpoint
/// that the port is allocated to, with the bytes; nothing for other events.
pub fn udp_reply(pool: &PortPool, event: Event) -> (r: Option<(SocketAddress, Vec<u8>)>)
    requires
        pool.wf(),
    ensures
        match event {
            Event::RemoteData(v, d) => match reply_target(pool@, pool.spec_protocol(), v) {
                Some(p) => r matches Some((q, w)) && q == p && w@ == d@,
                None => r is None,
            },
            _ => r is None,
        },
{
    match event {
        Event::RemoteData(v, d) => {
            if v.protocol != pool.protocol() {
                return None;
            }
            match pool.origin_of(v.num) {
                Some(p) => Some((p, d)),
                None => None,
            }
        },
        _ => None,
    }
}

/// Replies reach the sender: once a datagram from `peer` was published on
/// virtual port `v` of a pool, a reply on `v` goes to `peer`, and it goes
/// nowhere once `v` is released. A port held by another endpoint is never
/// given to `peer`, and a port `peer` held is kept.
pub proof fn lemma_reply_reaches_sender(
    before: Map<u16, SocketAddress>,
    after: Map<u16, SocketAddress>,
    protocol: PortProtocol,
    peer: SocketAddress,
    v: VirtualPort,
)
    requires
        v.protocol == protocol,
        assigned(before, after, peer, v.num),
    ensures
        reply_target(after, protocol, v) == Some(peer),
        reply_target(after.remove(v.num), protocol, v) is None,
        forall|n: u16| #[trigger] before.contains_key(n) && before[n] != peer ==> n != v.num,
        forall|n: u16| #[trigger] before.contains_key(n) && before[n] == peer ==> n == v.num || (
        after.contains_key(n) && after[n] == peer),
        after.dom().subset_of(before.dom().insert(v.num)),
{
}

/// Concurrent flows get distinct virtual ports: a number allocated while
/// another flow holds its own differs from it; once both are released the
/// pool is as it was before either allocation.
pub proof fn lemma_distinct_ports(
    taken: Map<u16, SocketAddress>,
    a: u16,
    origin_a: SocketAddress,
    b: u16,
    origin_b: SocketAddress,
)
    requires
        usable(taken, a),
        usable(taken.insert(a, origin_a), b),
    ensures
        a != b,
        a >= EPHEMERAL_MIN && b >= EPHEMERAL_MIN,
        taken.insert(a, origin_a).insert(b, origin_b).contains_key(a),
        taken.insert(a, origin_a).insert(b, origin_b).contains_key(b),
        taken.insert(a, origin_a).insert(b, origin_b).remove(a).remove(b) == taken,
        taken.insert(a, origin_a).insert(b, origin_b).remove(b).remove(a) == taken,
{
    assert(taken.insert(a, origin_a).insert(b, origin_b).remove(a).remove(b) =~= taken);
    assert(taken.insert(a, origin_a).insert(b, origin_b).remove(b).remove(a) =~= taken);
}

} // verus!
