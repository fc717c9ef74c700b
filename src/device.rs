//! The virtual IP device between the embedded IP stack and the bus: a
//! bounded queue of inbound packets for one protocol.
use vstd::prelude::*;

use crate::config::PortProtocol;
use crate::events::Event;
use crate::tcp::chunks;

verus! {

/// How many inbound packets a device holds by default.
pub const DEFAULT_QUEUE_CAPACITY: usize = 128;

/// The queue after `x` arrives at a queue that holds at most `capacity`
/// packets: when it is full, the oldest packet makes room.
pub open spec fn bounded_push(q: Seq<Seq<u8>>, x: Seq<u8>, capacity: nat) -> Seq<Seq<u8>> {
    if q.len() < capacity {
        q.push(x)
    } else {
        q.drop_first().push(x)
    }
}

/// The inbound queue stays within its bound, keeps the packet that arrived
/// last, and drops only the oldest packet, and only on overflow.
pub proof fn lemma_queue_bounded(q: Seq<Seq<u8>>, x: Seq<u8>, capacity: nat)
    requires
        0 < capacity,
        q.len() <= capacity,
    ensures
        bounded_push(q, x, capacity).len() <= capacity,
        bounded_push(q, x, capacity).last() == x,
        q.len() < capacity ==> bounded_push(q, x, capacity).drop_last() == q,
        q.len() == capacity ==> bounded_push(q, x, capacity).drop_last() == q.drop_first(),
{
    assert(q.push(x).drop_last() =~= q);
    if q.len() > 0 {
        assert(q.drop_first().push(x).drop_last() =~= q.drop_first());
    }
}

/// A device for one protocol: what the stack may send in one packet, and the
/// inbound packets waiting for the stack, oldest first.
pub struct VirtualIpDevice {
    protocol: PortProtocol,
    max_transmission_unit: usize,
    capacity: usize,
    inbound: std::collections::VecDeque<Vec<u8>>,
}

impl View for VirtualIpDevice {
    type V = Seq<Seq<u8>>;

    closed spec fn view(&self) -> Seq<Seq<u8>> {
        chunks(self.inbound@)
    }
}

impl VirtualIpDevice {
    /// A well-formed device holds at most its bound of inbound packets.
    pub proof fn lemma_bounded(&self)
        requires
            self.wf(),
        ensures
            self@.len() <= self.spec_capacity(),
            0 < self.spec_capacity(),
    {
    }

    /// The queue is within its bound, and the bound is not zero.
    pub closed spec fn wf(&self) -> bool {
        0 < self.capacity && self.inbound@.len() <= self.capacity
    }

    pub closed spec fn spec_protocol(&self) -> PortProtocol {
        self.protocol
    }

    pub closed spec fn spec_capacity(&self) -> nat {
        self.capacity as nat
    }

    pub closed spec fn spec_max_transmission_unit(&self) -> usize {
        self.max_transmission_unit
    }

    /// A device with an empty queue of the default bound.
    pub fn new(protocol: PortProtocol, max_transmission_unit: usize) -> (r: Self)
        ensures
            r.wf(),
            r.spec_protocol() == protocol,
            r.spec_max_transmission_unit() == max_transmission_unit,
            r.spec_capacity() == DEFAULT_QUEUE_CAPACITY,
            r@.len() <= r.spec_capacity(),
            r@ == Seq::<Seq<u8>>::empty(),
    {
        Self::with_capacity(protocol, max_transmission_unit, DEFAULT_QUEUE_CAPACITY)
    }

    /// A device with an empty queue of at most `capacity` packets.
    pub fn with_capacity(protocol: PortProtocol, max_transmission_unit: usize, capacity: usize) -> (r:
        Self)
        requires
            0 < capacity,
        ensures
            r.wf(),
            r.spec_protocol() == protocol,
            r.spec_max_transmission_unit() == max_transmission_unit,
            r.spec_capacity() == capacity,
            r@.len() <= r.spec_capacity(),
            r@ == Seq::<Seq<u8>>::empty(),
    {
        let r = VirtualIpDevice {
            protocol,
            max_transmission_unit,
            capacity,
            inbound: std::collections::VecDeque::new(),
        };
        assert(r@ =~= Seq::<Seq<u8>>::empty());
        r
    }

    /// The largest packet the stack may hand over.
    pub fn max_transmission_unit(&self) -> (r: usize)
        ensures
            r == self.spec_max_transmission_unit(),
    {
        self.max_transmission_unit
    }

    /// The number of inbound packets waiting.
    pub fn queued(&self) -> (r: usize)
        ensures
            r == self@.len(),
    {
        self.inbound.len()
    }

    /// Takes an inbound packet of this device's protocol off the bus into the
    /// queue, and gives the wake-up hint to publish. Other events are ignored.
    pub fn on_event(&mut self, event: Event) -> (r: Option<Event>)
        requires
            old(self).wf(),
        ensures
            final(self).wf(),
            final(self).spec_protocol() == old(self).spec_protocol(),
            final(self).spec_capacity() == old(self).spec_capacity(),
            final(self).spec_max_transmission_unit() == old(self).spec_max_transmission_unit(),
            final(self)@.len() <= final(self).spec_capacity(),
            match event {
                Event::InboundInternetPacket(p, bytes) => if p == old(self).spec_protocol() {
                    &&& final(self)@ == bounded_push(old(self)@, bytes@, old(self).spec_capacity())
                    &&& r == Some(Event::VirtualDeviceFed(p))
                } else {
                    &&& final(self)@ == old(self)@
                    &&& r is None
                },
                _ => {
                    &&& final(self)@ == old(self)@
                    &&& r is None
                },
            },
    {
        match event {
            Event::InboundInternetPacket(p, bytes) => {
                if p != self.protocol {
                    return None;
                }
                let ghost q = self.inbound@;
                let ghost b = bytes;
                if self.inbound.len() >= self.capacity {
                    let _ = self.inbound.pop_front();
                    assert(chunks(q.subrange(1, q.len() as int)) =~= chunks(q).drop_first());
                }
                self.inbound.push_back(bytes);
                proof {
                    if q.len() < self.capacity {
                        assert(chunks(q.push(b)) =~= chunks(q).push(b@));
                    } else {
                        assert(chunks(q.subrange(1, q.len() as int).push(b)) =~= chunks(
                            q.subrange(1, q.len() as int),
                        ).push(b@));
                    }
                }
                Some(Event::VirtualDeviceFed(p))
            },
            _ => None,
        }
    }

    /// The next inbound packet for the stack to take in, oldest first.
    pub fn receive(&mut self) -> (r: Option<Vec<u8>>)
        requires
            old(self).wf(),
        ensures
            final(self).wf(),
            final(self).spec_protocol() == old(self).spec_protocol(),
            final(self).spec_capacity() == old(self).spec_capacity(),
            final(self).spec_max_transmission_unit() == old(self).spec_max_transmission_unit(),
            final(self)@.len() <= final(self).spec_capacity(),
            match r {
                Some(x) => old(self)@.len() > 0 && x@ == old(self)@[0] && final(self)@ == old(
                    self,
                )@.drop_first(),
                None => old(self)@.len() == 0 && final(self)@ == old(self)@,
            },
    {
        let ghost q = self.inbound@;
        let r = self.inbound.pop_front();
        if r.is_some() {
            assert(chunks(q.subrange(1, q.len() as int)) =~= chunks(q).drop_first());
        }
        r
    }

    /// The event that publishes a packet the stack sends.
    pub fn transmit(&self, packet: Vec<u8>) -> (r: Event)
        ensures
            r matches Event::OutboundInternetPacket(p, b) && p == self.spec_protocol() && b@
                == packet@,
    {
        Event::OutboundInternetPacket(self.protocol, packet)
    }
}

} // verus!
