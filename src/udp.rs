//! The UDP virtual interface: its bound sockets, the datagrams queued on
//! each, and what each bus event calls for.
use vstd::prelude::*;

use crate::config::{forwards_of, select_protocol, IpAddress, PortForwardConfig, PortProtocol, SocketAddress};
use crate::events::{Event, VirtualPort};
use crate::flows::FlowTable;
use crate::iface::{cidr_addresses, distinct_hosts, host_addresses, is_host_address, IpCidr};

verus! {

/// The destinations and bytes of a queue of datagrams.
pub open spec fn datagrams(q: Seq<(SocketAddress, Vec<u8>)>) -> Seq<(SocketAddress, Seq<u8>)> {
    q.map_values(|d: (SocketAddress, Vec<u8>)| (d.0, d.1@))
}

/// The datagrams a socket has sent so far, followed by those still waiting,
/// are the datagrams accepted for it, each whole and in publication order.
pub open spec fn datagrams_in_order(
    sent: Seq<(SocketAddress, Seq<u8>)>,
    queue: Seq<(SocketAddress, Seq<u8>)>,
    accepted: Seq<(SocketAddress, Seq<u8>)>,
) -> bool {
    sent + queue == accepted
}

/// Accepting a datagram keeps the order invariant.
pub proof fn lemma_accept_keeps_datagrams(
    sent: Seq<(SocketAddress, Seq<u8>)>,
    queue: Seq<(SocketAddress, Seq<u8>)>,
    accepted: Seq<(SocketAddress, Seq<u8>)>,
    d: (SocketAddress, Seq<u8>),
)
    requires
        datagrams_in_order(sent, queue, accepted),
    ensures
        datagrams_in_order(sent, queue.push(d), accepted.push(d)),
{
    assert(sent + queue.push(d) =~= (sent + queue).push(d));
}

/// Sending the oldest waiting datagram keeps the order invariant.
pub proof fn lemma_send_keeps_datagrams(
    sent: Seq<(SocketAddress, Seq<u8>)>,
    queue: Seq<(SocketAddress, Seq<u8>)>,
    accepted: Seq<(SocketAddress, Seq<u8>)>,
)
    requires
        datagrams_in_order(sent, queue, accepted),
        queue.len() > 0,
    ensures
        datagrams_in_order(sent.push(queue[0]), queue.drop_first(), accepted),
{
    assert(sent.push(queue[0]) + queue.drop_first() =~= sent + queue);
}

/// The datagrams waiting on each bound UDP socket of an interface.
pub struct UdpFlows {
    table: FlowTable<(SocketAddress, Vec<u8>)>,
}

impl View for UdpFlows {
    type V = Map<VirtualPort, Seq<(SocketAddress, Seq<u8>)>>;

    closed spec fn view(&self) -> Map<VirtualPort, Seq<(SocketAddress, Seq<u8>)>> {
        self.table.view().map_values(|q: Seq<(SocketAddress, Vec<u8>)>| datagrams(q))
    }
}

impl UdpFlows {
    /// At most one socket per virtual port.
    pub closed spec fn wf(&self) -> bool {
        self.table.wf()
    }

    /// No socket.
    pub fn new() -> (r: Self)
        ensures
            r.wf(),
            r@ == Map::<VirtualPort, Seq<(SocketAddress, Seq<u8>)>>::empty(),
    {
        let r = UdpFlows { table: FlowTable::new() };
        assert(r@ =~= Map::<VirtualPort, Seq<(SocketAddress, Seq<u8>)>>::empty());
        r
    }

    /// The number of bound sockets.
    pub fn len(&self) -> (r: usize)
        requires
            self.wf(),
        ensures
            r == self@.len(),
    {
        assert(self@.dom() =~= self.table.view().dom());
        self.table.len()
    }

    /// The virtual ports with a socket, each once.
    pub fn live_ports(&self) -> (r: Vec<VirtualPort>)
        requires
            self.wf(),
        ensures
            r@.no_duplicates(),
            r@.to_set() == self@.dom(),
    {
        assert(self@.dom() =~= self.table.view().dom());
        self.table.live_ports()
    }

    /// Takes the oldest datagram waiting on the socket of `port`, for a
    /// socket that can send.
    pub fn send_step(&mut self, port: VirtualPort) -> (r: Option<(SocketAddress, Vec<u8>)>)
        requires
            old(self).wf(),
        ensures
            final(self).wf(),
            match r {
                Some(d) => {
                    &&& old(self)@.contains_key(port)
                    &&& old(self)@[port].len() > 0
                    &&& (d.0, d.1@) == old(self)@[port][0]
                    &&& final(self)@ == old(self)@.insert(port, old(self)@[port].drop_first())
                },
                None => {
                    &&& (old(self)@.contains_key(port) ==> old(self)@[port].len() == 0)
                    &&& final(self)@ == old(self)@
                },
            },
    {
        let ghost t = self.table.view();
        let r = self.table.pop_front(port);
        if r.is_some() {
            assert(datagrams(t[port].drop_first()) =~= datagrams(t[port]).drop_first());
            assert(self@ =~= old(self)@.insert(port, old(self)@[port].drop_first()));
        }
        r
    }
}

/// What the poll loop does after a bus event.
#[derive(Clone, Copy, Debug, PartialEq, Eq, Structural)]
pub enum UdpAction {
    /// Add a client socket for `port` bound to `local`, and poll at once.
    Bind { port: VirtualPort, local: SocketAddress },
    /// Poll at once.
    PollNow,
    /// Nothing.
    Ignore,
}

/// Holds what the UDP virtual interface needs from the configuration.
pub struct UdpVirtualInterface {
    pub source_peer_ip: IpAddress,
    pub port_forwards: Vec<PortForwardConfig>,
    pub remote_port_forwards: Vec<PortForwardConfig>,
}

impl UdpVirtualInterface {
    /// Keeps the UDP forwards of both lists.
    pub fn new(
        port_forwards: Vec<PortForwardConfig>,
        remote_port_forwards: Vec<PortForwardConfig>,
        source_peer_ip: IpAddress,
    ) -> (r: Self)
        ensures
            r.source_peer_ip == source_peer_ip,
            r.port_forwards@ == forwards_of(port_forwards@, PortProtocol::Udp),
            r.remote_port_forwards@ == forwards_of(remote_port_forwards@, PortProtocol::Udp),
    {
        let port_forwards = select_protocol(port_forwards, PortProtocol::Udp);
        let remote_port_forwards = select_protocol(remote_port_forwards, PortProtocol::Udp);
        UdpVirtualInterface { source_peer_ip, port_forwards, remote_port_forwards }
    }

    /// The host addresses of the embedded stack: the source peer address,
    /// each local forward's destination address and each remote forward's
    /// source address, once each.
    pub fn addresses(&self) -> (r: Vec<IpCidr>)
        ensures
            distinct_hosts(r@),
            forall|a: IpAddress|
                cidr_addresses(r@).contains(a) <==> is_host_address(
                    self.source_peer_ip,
                    self.port_forwards@,
                    self.remote_port_forwards@,
                    a,
                ),
    {
        host_addresses(self.source_peer_ip, &self.port_forwards, &self.remote_port_forwards)
    }

    /// Opens a socket record for each remote forward, at the virtual port of
    /// its source, and says where each socket binds: the source itself, the
    /// address that the peer targets.
    pub fn open_remote_sockets(&self, flows: &mut UdpFlows) -> (r: Vec<UdpAction>)
        requires
            old(flows).wf(),
        ensures
            final(flows).wf(),
            r@.len() == self.remote_port_forwards@.len(),
            forall|i: int|
                0 <= i < r@.len() ==> #[trigger] r@[i] == (UdpAction::Bind {
                    port: VirtualPort {
                        num: self.remote_port_forwards@[i].source.port,
                        protocol: PortProtocol::Udp,
                    },
                    local: self.remote_port_forwards@[i].source,
                }),
            final(flows)@.dom() == old(flows)@.dom().union(
                Set::new(
                    |p: VirtualPort|
                        exists|i: int|
                            0 <= i < self.remote_port_forwards@.len() && p == (VirtualPort {
                                num: #[trigger] self.remote_port_forwards@[i].source.port,
                                protocol: PortProtocol::Udp,
                            }),
                ),
            ),
    {
        let mut r: Vec<UdpAction> = Vec::new();
        let mut i: usize = 0;
        while i < self.remote_port_forwards.len()
            invariant
                0 <= i <= self.remote_port_forwards@.len(),
                flows.wf(),
                r@.len() == i,
                forall|j: int|
                    0 <= j < i ==> #[trigger] r@[j] == (UdpAction::Bind {
                        port: VirtualPort {
                            num: self.remote_port_forwards@[j].source.port,
                            protocol: PortProtocol::Udp,
                        },
                        local: self.remote_port_forwards@[j].source,
                    }),
                forall|p: VirtualPort|
                    flows@.contains_key(p) <==> (old(flows)@.contains_key(p) || exists|j: int|
                        0 <= j < i && p == (VirtualPort {
                            num: #[trigger] self.remote_port_forwards@[j].source.port,
                            protocol: PortProtocol::Udp,
                        })),
            decreases self.remote_port_forwards@.len() - i,
        {
            let source = self.remote_port_forwards[i].source;
            let port = VirtualPort::new(source.port, PortProtocol::Udp);
            let ghost before = flows@;
            flows.table.open_flow(port);
            assert(flows@.dom() =~= before.dom().insert(port));
            r.push(UdpAction::Bind { port, local: source });
            assert forall|p: VirtualPort|
                flows@.contains_key(p) <==> (old(flows)@.contains_key(p) || exists|j: int|
                    0 <= j < i + 1 && p == (VirtualPort {
                        num: #[trigger] self.remote_port_forwards@[j].source.port,
                        protocol: PortProtocol::Udp,
                    })) by {
                if p == port {
                    assert(self.remote_port_forwards@[i as int].source.port == port.num);
                }
                if exists|j: int|
                    0 <= j < i + 1 && p == (VirtualPort {
                        num: #[trigger] self.remote_port_forwards@[j].source.port,
                        protocol: PortProtocol::Udp,
                    }) {
                    let j = choose|j: int|
                        0 <= j < i + 1 && p == (VirtualPort {
                            num: #[trigger] self.remote_port_forwards@[j].source.port,
                            protocol: PortProtocol::Udp,
                        });
                    if j < i {
                        assert(exists|k: int|
                            0 <= k < i && p == (VirtualPort {
                                num: #[trigger] self.remote_port_forwards@[k].source.port,
                                protocol: PortProtocol::Udp,
                            }));
                    }
                }
            }
            i = i + 1;
        }
        assert(flows@.dom() =~= old(flows)@.dom().union(
            Set::new(
                |p: VirtualPort|
                    exists|i: int|
                        0 <= i < self.remote_port_forwards@.len() && p == (VirtualPort {
                            num: #[trigger] self.remote_port_forwards@[i].source.port,
                            protocol: PortProtocol::Udp,
                        }),
            ),
        ));
        r
    }

    /// Applies a bus event to the sockets and says what the poll loop does.
    /// Local data of a virtual port that is not UDP belongs to another
    /// interface and is ignored. Local data of a UDP port is queued, with the forward's destination, after what waits
    /// on the socket of its virtual port; a port without a socket gets one,
    /// bound to the source peer address at that port, with just this datagram
    /// queued. A wake-up from the UDP device asks for a poll.
    pub fn on_event(&self, flows: &mut UdpFlows, event: Event) -> (r: UdpAction)
        requires
            old(flows).wf(),
        ensures
            final(flows).wf(),
            match event {
                Event::LocalData(forward, port, data) => if port.protocol != PortProtocol::Udp {
                    &&& final(flows)@ == old(flows)@
                    &&& r == UdpAction::Ignore
                } else if old(flows)@.contains_key(port) {
                    &&& final(flows)@ == old(flows)@.insert(
                        port,
                        old(flows)@[port].push((forward.destination, data@)),
                    )
                    &&& r == UdpAction::PollNow
                } else {
                    &&& final(flows)@ == old(flows)@.insert(
                        port,
                        seq![(forward.destination, data@)],
                    )
                    &&& r == (UdpAction::Bind {
                        port,
                        local: SocketAddress { ip: self.source_peer_ip, port: port.num },
                    })
                },
                Event::VirtualDeviceFed(PortProtocol::Udp) => {
                    &&& final(flows)@ == old(flows)@
                    &&& r == UdpAction::PollNow
                },
                _ => {
                    &&& final(flows)@ == old(flows)@
                    &&& r == UdpAction::Ignore
                },
            },
    {
        match event {
            Event::LocalData(forward, port, data) => {
                if port.protocol != PortProtocol::Udp {
                    return UdpAction::Ignore;
                }
                let ghost t = flows.table.view();
                let item = (forward.destination, data);
                let ghost it = item;
                if flows.table.contains(port) {
                    let _ = flows.table.push_back(port, item);
                    assert(datagrams(t[port].push(it)) =~= datagrams(t[port]).push(
                        (it.0, it.1@),
                    ));
                    assert(flows@ =~= old(flows)@.insert(
                        port,
                        old(flows)@[port].push((forward.destination, it.1@)),
                    ));
                    UdpAction::PollNow
                } else {
                    flows.table.open_flow(port);
                    let _ = flows.table.push_back(port, item);
                    assert(datagrams(Seq::empty().push(it)) =~= seq![(it.0, it.1@)]);
                    assert(flows@ =~= old(flows)@.insert(port, seq![(forward.destination, it.1@)]));
                    UdpAction::Bind {
                        port,
                        local: SocketAddress { ip: self.source_peer_ip, port: port.num },
                    }
                }
            },
            Event::VirtualDeviceFed(PortProtocol::Udp) => UdpAction::PollNow,
            _ => UdpAction::Ignore,
        }
    }
}

/// The remote forward that owns virtual port `v`: the first UDP one whose
/// source port is `v`'s number.
pub open spec fn owner_of_port(remotes: Seq<PortForwardConfig>, v: VirtualPort, k: int) -> bool {
    &&& v.protocol == PortProtocol::Udp
    &&& 0 <= k < remotes.len()
    &&& remotes[k].source.port == v.num
    &&& forall|j: int| 0 <= j < k ==> #[trigger] remotes[j].source.port != v.num
}

/// Where bytes that the peer sent to a remote forward's virtual address go:
/// for remote data on a UDP virtual port opened for a remote forward, the
/// local endpoint that the forward names, with the bytes; nothing otherwise.
pub fn remote_delivery(remotes: &Vec<PortForwardConfig>, event: Event) -> (r: Option<
    (SocketAddress, Vec<u8>),
>)
    ensures
        match event {
            Event::RemoteData(v, d) => if v.protocol == PortProtocol::Udp && exists|k: int|
                0 <= k < remotes@.len() && #[trigger] remotes@[k].source.port == v.num {
                r matches Some((q, w)) && w@ == d@ && exists|k: int|
                    owner_of_port(remotes@, v, k) && q == remotes@[k].destination
            } else {
                r is None
            },
            _ => r is None,
        },
{
    match event {
        Event::RemoteData(v, d) => {
            if v.protocol != PortProtocol::Udp {
                return None;
            }
            match first_with_source_port(remotes, v.num) {
                Some(k) => {
                    let dest = remotes[k].destination;
                    assert(owner_of_port(remotes@, v, k as int));
                    Some((dest, d))
                },
                None => None,
            }
        },
        _ => None,
    }
}

/// The index of the first forward whose source port is `num`.
fn first_with_source_port(remotes: &Vec<PortForwardConfig>, num: u16) -> (r: Option<usize>)
    ensures
        match r {
            Some(k) => k < remotes@.len() && remotes@[k as int].source.port == num && forall|j: int|
                0 <= j < k ==> #[trigger] remotes@[j].source.port != num,
            None => forall|j: int| 0 <= j < remotes@.len() ==> #[trigger] remotes@[j].source.port != num,
        },
{
    let mut k: usize = 0;
    while k < remotes.len()
        invariant
            0 <= k <= remotes@.len(),
            forall|j: int| 0 <= j < k ==> #[trigger] remotes@[j].source.port != num,
        decreases remotes@.len() - k,
    {
        if remotes[k].source.port == num {
            return Some(k);
        }
        k = k + 1;
    }
    None
}

} // verus!
