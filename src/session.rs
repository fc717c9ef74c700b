//! What the tunnel session's tasks do with what the session state machine
//! returns: which inner packets go to which virtual interface, and what is
//! written back to the peer.
use vstd::prelude::*;

use crate::config::PortProtocol;
use crate::events::Event;

verus! {

/// The IP protocol number of TCP.
pub const IP_PROTOCOL_TCP: u8 = 6;

/// The IP protocol number of UDP.
pub const IP_PROTOCOL_UDP: u8 = 17;

/// The transport protocol named by an IP protocol number, if it is one the
/// interfaces carry.
pub open spec fn protocol_of_number(n: u8) -> Option<PortProtocol> {
    if n == IP_PROTOCOL_TCP {
        Some(PortProtocol::Tcp)
    } else if n == IP_PROTOCOL_UDP {
        Some(PortProtocol::Udp)
    } else {
        None
    }
}

/// The virtual interface an inner packet is for: an IPv4 packet (version 4,
/// at least the 20-byte header) by its protocol field, an IPv6 packet
/// (version 6, at least the 40-byte header) by its next-header field.
pub open spec fn packet_protocol(p: Seq<u8>) -> Option<PortProtocol> {
    if p.len() >= 20 && p[0] / 16 == 4 {
        protocol_of_number(p[9])
    } else if p.len() >= 40 && p[0] / 16 == 6 {
        protocol_of_number(p[6])
    } else {
        None
    }
}

/// The virtual interface an inner packet is for, if any.
pub fn inbound_protocol(packet: &Vec<u8>) -> (r: Option<PortProtocol>)
    ensures
        r == packet_protocol(packet@),
{
    let n = packet.len();
    if n == 0 {
        return None;
    }
    let version = packet[0] / 16;
    let number = if n >= 20 && version == 4 {
        packet[9]
    } else if n >= 40 && version == 6 {
        packet[6]
    } else {
        return None;
    };
    if number == IP_PROTOCOL_TCP {
        Some(PortProtocol::Tcp)
    } else if number == IP_PROTOCOL_UDP {
        Some(PortProtocol::Udp)
    } else {
        None
    }
}

/// What the session state machine returned for one datagram from the peer.
#[derive(Clone, Debug)]
pub enum SessionOutput {
    /// Nothing to do.
    Done,
    /// The datagram could not be decrypted or was malformed or replayed.
    Failed,
    /// A control packet to send back to the peer at once.
    WriteToNetwork(Vec<u8>),
    /// A decrypted inner IP packet.
    WriteToTunnel(Vec<u8>),
}

/// What the consume task does next.
#[derive(Clone, Debug)]
pub enum ConsumeAction {
    /// Write these bytes to the outer socket.
    Send(Vec<u8>),
    /// Publish this event on the bus.
    Publish(Event),
    /// Nothing.
    Skip,
}

/// The count of datagrams from the peer that failed to decrypt.
pub struct SessionStats {
    pub decrypt_failures: u64,
}

impl SessionStats {
    pub fn new() -> (r: Self)
        ensures
            r.decrypt_failures == 0,
    {
        SessionStats { decrypt_failures: 0 }
    }

    /// Handles what the session returned: a control packet goes back to the
    /// peer; an inner packet is published for the interface of its protocol,
    /// or dropped when it is for none; a failure is counted (the count stops
    /// at its largest value) and otherwise ignored.
    pub fn consume(&mut self, output: SessionOutput) -> (r: ConsumeAction)
        ensures
            match output {
                SessionOutput::Failed => final(self).decrypt_failures == if old(self).decrypt_failures
                    < u64::MAX {
                    (old(self).decrypt_failures + 1) as u64
                } else {
                    u64::MAX
                },
                _ => final(self).decrypt_failures == old(self).decrypt_failures,
            },
            match output {
                SessionOutput::Done => r is Skip,
                SessionOutput::Failed => r is Skip,
                SessionOutput::WriteToNetwork(b) => r matches ConsumeAction::Send(s) && s@ == b@,
                SessionOutput::WriteToTunnel(b) => match packet_protocol(b@) {
                    Some(p) => r matches ConsumeAction::Publish(Event::InboundInternetPacket(q, c))
                        && q == p && c@ == b@,
                    None => r is Skip,
                },
            },
    {
        match output {
            SessionOutput::Done => ConsumeAction::Skip,
            SessionOutput::Failed => {
                if self.decrypt_failures < u64::MAX {
                    self.decrypt_failures = self.decrypt_failures + 1;
                }
                ConsumeAction::Skip
            },
            SessionOutput::WriteToNetwork(b) => ConsumeAction::Send(b),
            SessionOutput::WriteToTunnel(b) => match inbound_protocol(&b) {
                Some(p) => ConsumeAction::Publish(Event::InboundInternetPacket(p, b)),
                None => ConsumeAction::Skip,
            },
        }
    }
}

/// The produce task sends an outbound packet only once the session is
/// established; before that the packet is dropped, and TCP retransmits it.
pub fn produce(established: bool, event: Event) -> (r: Option<Vec<u8>>)
    ensures
        match event {
            Event::OutboundInternetPacket(_, b) => if established {
                r matches Some(s) && s@ == b@
            } else {
                r is None
            },
            _ => r is None,
        },
{
    match event {
        Event::OutboundInternetPacket(_, b) => if established {
            Some(b)
        } else {
            None
        },
        _ => None,
    }
}

} // verus!
