//! The TCP virtual interface: which sockets its embedded stack holds, what is
//! queued on each, and what each bus event or socket state calls for.
use vstd::prelude::*;

use crate::config::{forwards_of, select_protocol, IpAddress, PortForwardConfig, PortProtocol, SocketAddress};
use crate::events::{Event, VirtualPort};
use crate::flows::FlowTable;
use crate::iface::{cidr_addresses, distinct_hosts, host_addresses, is_host_address, IpCidr};

verus! {

/// The byte chunks of a queue of buffers.
pub open spec fn chunks(q: Seq<Vec<u8>>) -> Seq<Seq<u8>> {
    q.map_values(|c: Vec<u8>| c@)
}

/// The bytes of a queue of chunks, oldest first.
pub open spec fn flatten(q: Seq<Seq<u8>>) -> Seq<u8>
    decreases q.len(),
{
    if q.len() == 0 {
        Seq::empty()
    } else {
        q[0] + flatten(q.drop_first())
    }
}

/// Accepting a chunk appends its bytes to what is pending.
pub proof fn lemma_accept_appends(q: Seq<Seq<u8>>, b: Seq<u8>)
    ensures
        flatten(q.push(b)) == flatten(q) + b,
    decreases q.len(),
{
    if q.len() == 0 {
        assert(q.push(b).drop_first() =~= Seq::<Seq<u8>>::empty());
        assert(flatten(q.push(b).drop_first()) == Seq::<u8>::empty());
        assert(q.push(b)[0] == b);
        assert(flatten(q.push(b)) =~= b);
    } else {
        assert(q.push(b).drop_first() =~= q.drop_first().push(b));
        lemma_accept_appends(q.drop_first(), b);
        assert(flatten(q.push(b)) =~= flatten(q) + b);
    }
}

/// The bytes of chunks accepted one after another are the bytes of the
/// earlier chunks followed by those of the later ones: a flow's stream is the
/// concatenation, in publication order, of its local data.
pub proof fn lemma_flatten_concat(a: Seq<Seq<u8>>, b: Seq<Seq<u8>>)
    ensures
        flatten(a + b) == flatten(a) + flatten(b),
    decreases a.len(),
{
    if a.len() == 0 {
        assert(a + b =~= b);
        assert(flatten(a) =~= Seq::<u8>::empty());
        assert(flatten(a) + flatten(b) =~= flatten(b));
    } else {
        assert((a + b).drop_first() =~= a.drop_first() + b);
        lemma_flatten_concat(a.drop_first(), b);
        assert((a + b)[0] == a[0]);
        assert(flatten(a + b) =~= flatten(a) + flatten(b));
    }
}

/// Sending neither loses, repeats nor reorders bytes. `send_step` takes the
/// first chunk off the queue `before`, leaving `rest`; the socket takes
/// `sent` bytes of it; `settle_send` puts what it did not take back first,
/// giving `after`. The bytes the socket took, followed by those still
/// pending, are the bytes that were pending before.
pub proof fn lemma_send_keeps_order(
    before: Seq<Seq<u8>>,
    rest: Seq<Seq<u8>>,
    after: Seq<Seq<u8>>,
    sent: int,
)
    requires
        before.len() > 0,
        rest == before.drop_first(),
        0 <= sent <= before[0].len(),
        after == if sent < before[0].len() {
            seq![before[0].subrange(sent, before[0].len() as int)] + rest
        } else {
            rest
        },
    ensures
        before[0].subrange(0, sent) + flatten(after) == flatten(before),
{
    let c = before[0];
    if sent < c.len() {
        assert(after.drop_first() =~= rest);
        assert(c.subrange(0, sent) + c.subrange(sent, c.len() as int) =~= c);
        assert(flatten(after) == c.subrange(sent, c.len() as int) + flatten(rest));
        assert(c.subrange(0, sent) + flatten(after) =~= flatten(before));
    } else {
        assert(c.subrange(0, sent) =~= c);
    }
}

/// The delivery invariant of a flow: the bytes its socket has taken so far
/// (`sent`), followed by the bytes still pending (`queue`), are the bytes of
/// all local data accepted for it (`accepted`), in publication order. It
/// holds of a new flow (all empty), and every accepted chunk and every send,
/// partial or whole, keeps it: the rest of a partly sent chunk goes out
/// before any later chunk.
pub open spec fn delivered_in_order(sent: Seq<u8>, queue: Seq<Seq<u8>>, accepted: Seq<Seq<u8>>) -> bool {
    sent + flatten(queue) == flatten(accepted)
}

/// Accepting local data `b` keeps the delivery invariant.
pub proof fn lemma_accept_keeps_delivery(
    sent: Seq<u8>,
    queue: Seq<Seq<u8>>,
    accepted: Seq<Seq<u8>>,
    b: Seq<u8>,
)
    requires
        delivered_in_order(sent, queue, accepted),
    ensures
        delivered_in_order(sent, queue.push(b), accepted.push(b)),
{
    lemma_accept_appends(queue, b);
    lemma_accept_appends(accepted, b);
    assert(sent + flatten(queue.push(b)) =~= (sent + flatten(queue)) + b);
}

/// A send of `n` bytes of the first pending chunk, followed by putting the
/// rest back first, keeps the delivery invariant.
pub proof fn lemma_send_keeps_delivery(
    sent: Seq<u8>,
    queue: Seq<Seq<u8>>,
    accepted: Seq<Seq<u8>>,
    after: Seq<Seq<u8>>,
    n: int,
)
    requires
        delivered_in_order(sent, queue, accepted),
        queue.len() > 0,
        0 <= n <= queue[0].len(),
        after == if n < queue[0].len() {
            seq![queue[0].subrange(n, queue[0].len() as int)] + queue.drop_first()
        } else {
            queue.drop_first()
        },
    ensures
        delivered_in_order(sent + queue[0].subrange(0, n), after, accepted),
{
    lemma_send_keeps_order(queue, queue.drop_first(), after, n);
    assert(sent + queue[0].subrange(0, n) + flatten(after) =~= sent + (queue[0].subrange(0, n)
        + flatten(after)));
}

/// The pending sends of the live TCP flows of an interface.
pub struct TcpFlows {
    table: FlowTable<Vec<u8>>,
}

impl View for TcpFlows {
    type V = Map<VirtualPort, Seq<Seq<u8>>>;

    closed spec fn view(&self) -> Map<VirtualPort, Seq<Seq<u8>>> {
        self.table.view().map_values(|q: Seq<Vec<u8>>| chunks(q))
    }
}

impl TcpFlows {
    /// At most one flow record per virtual port.
    pub closed spec fn wf(&self) -> bool {
        self.table.wf()
    }

    /// No live flow.
    pub fn new() -> (r: Self)
        ensures
            r.wf(),
            r@ == Map::<VirtualPort, Seq<Seq<u8>>>::empty(),
    {
        let r = TcpFlows { table: FlowTable::new() };
        assert(r@ =~= Map::<VirtualPort, Seq<Seq<u8>>>::empty());
        r
    }

    /// The number of live flows.
    pub fn len(&self) -> (r: usize)
        requires
            self.wf(),
        ensures
            r == self@.len(),
    {
        assert(self@.dom() =~= self.table.view().dom());
        self.table.len()
    }

    /// The live virtual ports, each once.
    pub fn live_ports(&self) -> (r: Vec<VirtualPort>)
        requires
            self.wf(),
        ensures
            r@.no_duplicates(),
            r@.to_set() == self@.dom(),
    {
        assert(self@.dom() =~= self.table.view().dom());
        self.table.live_ports()
    }
    /// Ends the flow of a socket that the stack reports closed, and gives
    /// the event that tells the proxy server its virtual port is free.
    pub fn reap_closed(&mut self, port: VirtualPort) -> (r: Option<Event>)
        requires
            old(self).wf(),
        ensures
            final(self).wf(),
            final(self)@ == old(self)@.remove(port),
            old(self)@.contains_key(port) ==> (r matches Some(Event::ClientConnectionDropped(p)) && p
                == port),
            !old(self)@.contains_key(port) ==> r is None,
    {
        let live = self.table.contains(port);
        self.table.close_flow(port);
        assert(self@ =~= old(self)@.remove(port));
        if live {
            Some(Event::ClientConnectionDropped(port))
        } else {
            None
        }
    }

    /// Decides what a client socket that can send does: transmit the oldest
    /// pending chunk, close when nothing is pending and the far end has
    /// half-closed (`close_wait`), or nothing.
    pub fn send_step(&mut self, port: VirtualPort, close_wait: bool) -> (r: TcpSendStep)
        requires
            old(self).wf(),
        ensures
            final(self).wf(),
            !old(self)@.contains_key(port) ==> final(self)@ == old(self)@ && r is Idle,
            old(self)@.contains_key(port) && old(self)@[port].len() > 0 ==> {
                &&& final(self)@ == old(self)@.insert(port, old(self)@[port].drop_first())
                &&& match r {
                    TcpSendStep::Transmit(c) => c@ == old(self)@[port][0],
                    _ => false,
                }
            },
            old(self)@.contains_key(port) && old(self)@[port].len() == 0 ==> {
                &&& final(self)@ == old(self)@
                &&& if close_wait {
                    r is Close
                } else {
                    r is Idle
                }
            },
    {
        if !self.table.contains(port) {
            return TcpSendStep::Idle;
        }
        match self.table.pop_front(port) {
            Some(c) => {
                let ghost t = old(self).table.view();
                assert(chunks(t[port].drop_first()) =~= chunks(t[port]).drop_first());
                assert(self@ =~= old(self)@.insert(port, old(self)@[port].drop_first()));
                TcpSendStep::Transmit(c)
            },
            None => {
                if close_wait {
                    TcpSendStep::Close
                } else {
                    TcpSendStep::Idle
                }
            },
        }
    }

    /// Records that the socket of `port` took `sent` bytes of `chunk`, the
    /// chunk that `send_step` handed out: the rest goes back to the front of
    /// the queue.
    pub fn settle_send(&mut self, port: VirtualPort, chunk: Vec<u8>, sent: usize)
        requires
            old(self).wf(),
            sent <= chunk@.len(),
        ensures
            final(self).wf(),
            old(self)@.contains_key(port) && sent < chunk@.len() ==> final(self)@ == old(
                self,
            )@.insert(port, seq![chunk@.subrange(sent as int, chunk@.len() as int)] + old(self)@[port]),
            !(old(self)@.contains_key(port) && sent < chunk@.len()) ==> final(self)@ == old(self)@,
    {
        if sent < chunk.len() {
            let mut head = chunk;
            let rest = head.split_off(sent);
            let ghost t = self.table.view();
            let ghost rv = rest;
            if self.table.push_front(port, rest) {
                assert(chunks(seq![rv] + t[port]) =~= seq![rv@] + chunks(t[port]));
                assert(self@ =~= old(self)@.insert(port, seq![rv@] + old(self)@[port]));
            }
        }
    }
}

/// What the poll loop does after a bus event.
#[derive(Clone, Copy, Debug, PartialEq, Eq, Structural)]
pub enum TcpAction {
    /// Add a client socket for `port`, connect it from `local` to `remote`,
    /// and poll at once.
    Connect { port: VirtualPort, remote: SocketAddress, local: SocketAddress },
    /// Close the client socket of the port, and poll at once.
    Close(VirtualPort),
    /// Poll at once.
    PollNow,
    /// Nothing.
    Ignore,
}

/// What to do with a client socket that can send.
#[derive(Clone, Debug)]
pub enum TcpSendStep {
    /// Hand these bytes to the socket, then report how many it took.
    Transmit(Vec<u8>),
    /// Nothing is pending and the far end has half-closed: close the socket.
    Close,
    /// Nothing.
    Idle,
}

/// Holds what the TCP virtual interface needs from the configuration.
pub struct TcpVirtualInterface {
    pub source_peer_ip: IpAddress,
    pub port_forwards: Vec<PortForwardConfig>,
}

impl TcpVirtualInterface {
    /// Keeps the TCP forwards of `port_forwards`.
    pub fn new(port_forwards: Vec<PortForwardConfig>, source_peer_ip: IpAddress) -> (r: Self)
        ensures
            r.source_peer_ip == source_peer_ip,
            r.port_forwards@ == forwards_of(port_forwards@, PortProtocol::Tcp),
    {
        let port_forwards = select_protocol(port_forwards, PortProtocol::Tcp);
        TcpVirtualInterface { source_peer_ip, port_forwards }
    }

    /// The host addresses of the embedded stack: the source peer address and
    /// each forward's destination address, once each.
    pub fn addresses(&self) -> (r: Vec<IpCidr>)
        ensures
            distinct_hosts(r@),
            forall|a: IpAddress|
                cidr_addresses(r@).contains(a) <==> is_host_address(
                    self.source_peer_ip,
                    self.port_forwards@,
                    Seq::empty(),
                    a,
                ),
    {
        let no_remotes: Vec<PortForwardConfig> = Vec::new();
        host_addresses(self.source_peer_ip, &self.port_forwards, &no_remotes)
    }

    /// Applies a bus event to the flows and says what the poll loop does.
    /// A connection initiated on a port opens its flow with nothing pending
    /// and asks for a client socket connected from the source peer address
    /// at that port to the forward's destination. A dropped connection with
    /// a live flow asks for its socket to be closed. Local data for a live
    /// flow is queued after what is pending; for another port it is ignored.
    /// A wake-up from the TCP device asks for a poll.
    pub fn on_event(&self, flows: &mut TcpFlows, event: Event) -> (r: TcpAction)
        requires
            old(flows).wf(),
        ensures
            final(flows).wf(),
            match event {
                Event::ClientConnectionInitiated(forward, port) => {
                    &&& final(flows)@ == old(flows)@.insert(port, Seq::empty())
                    &&& r == (TcpAction::Connect {
                        port,
                        remote: forward.destination,
                        local: SocketAddress { ip: self.source_peer_ip, port: port.num },
                    })
                },
                Event::ClientConnectionDropped(port) => {
                    &&& final(flows)@ == old(flows)@
                    &&& r == if old(flows)@.contains_key(port) {
                        TcpAction::Close(port)
                    } else {
                        TcpAction::Ignore
                    }
                },
                Event::LocalData(_, port, data) => if old(flows)@.contains_key(port) {
                    &&& final(flows)@ == old(flows)@.insert(port, old(flows)@[port].push(data@))
                    &&& r == TcpAction::PollNow
                } else {
                    &&& final(flows)@ == old(flows)@
                    &&& r == TcpAction::Ignore
                },
                Event::VirtualDeviceFed(PortProtocol::Tcp) => {
                    &&& final(flows)@ == old(flows)@
                    &&& r == TcpAction::PollNow
                },
                _ => {
                    &&& final(flows)@ == old(flows)@
                    &&& r == TcpAction::Ignore
                },
            },
    {
        match event {
            Event::ClientConnectionInitiated(forward, port) => {
                flows.table.open_flow(port);
                assert(chunks(Seq::<Vec<u8>>::empty()) =~= Seq::<Seq<u8>>::empty());
                assert(flows@ =~= old(flows)@.insert(port, Seq::empty()));
                TcpAction::Connect {
                    port,
                    remote: forward.destination,
                    local: SocketAddress { ip: self.source_peer_ip, port: port.num },
                }
            },
            Event::ClientConnectionDropped(port) => {
                if flows.table.contains(port) {
                    TcpAction::Close(port)
                } else {
                    TcpAction::Ignore
                }
            },
            Event::LocalData(_, port, data) => {
                let ghost t = flows.table.view();
                let ghost d = data;
                if flows.table.push_back(port, data) {
                    assert(chunks(t[port].push(d)) =~= chunks(t[port]).push(d@));
                    assert(flows@ =~= old(flows)@.insert(port, old(flows)@[port].push(d@)));
                    TcpAction::PollNow
                } else {
                    TcpAction::Ignore
                }
            },
            Event::VirtualDeviceFed(PortProtocol::Tcp) => TcpAction::PollNow,
            _ => TcpAction::Ignore,
        }
    }

    /// Where the listen-only server sockets listen: each forward's
    /// destination, so that the stack owns the connections made to it.
    pub fn server_endpoints(&self) -> (r: Vec<SocketAddress>)
        ensures
            r@ == self.port_forwards@.map_values(|f: PortForwardConfig| f.destination),
    {
        let mut r: Vec<SocketAddress> = Vec::new();
        let mut i: usize = 0;
        while i < self.port_forwards.len()
            invariant
                0 <= i <= self.port_forwards@.len(),
                r@ == self.port_forwards@.subrange(0, i as int).map_values(
                    |f: PortForwardConfig| f.destination,
                ),
            decreases self.port_forwards@.len() - i,
        {
            r.push(self.port_forwards[i].destination);
            assert(r@ =~= self.port_forwards@.subrange(0, i + 1).map_values(
                |f: PortForwardConfig| f.destination,
            ));
            i = i + 1;
        }
        assert(self.port_forwards@.subrange(0, i as int) =~= self.port_forwards@);
        r
    }
}

} // verus!
