//! The events carried between the components over the broadcast bus.
use vstd::prelude::*;

use crate::config::{PortForwardConfig, PortProtocol};

verus! {

/// A virtual source port: the number that tells flows on one virtual address
/// apart, and its protocol.
#[derive(Clone, Copy, Debug, PartialEq, Eq, Structural, Hash)]
pub struct VirtualPort {
    pub num: u16,
    pub protocol: PortProtocol,
}

impl VirtualPort {
    pub fn new(num: u16, protocol: PortProtocol) -> (r: Self)
        ensures
            r.num == num,
            r.protocol == protocol,
    {
        VirtualPort { num, protocol }
    }

    pub fn num(&self) -> (r: u16)
        ensures
            r == self.num,
    {
        self.num
    }

    pub fn proto(&self) -> (r: PortProtocol)
        ensures
            r == self.protocol,
    {
        self.protocol
    }
}

/// A value published on the bus. Consumers filter on the variant.
#[derive(Clone, Debug)]
pub enum Event {
    /// A proxy server accepted a TCP connection and allocated a virtual port.
    ClientConnectionInitiated(PortForwardConfig, VirtualPort),
    /// A flow ended; its virtual port may be released.
    ClientConnectionDropped(VirtualPort),
    /// Bytes read from a local OS flow, to be sent through the tunnel.
    LocalData(PortForwardConfig, VirtualPort, Vec<u8>),
    /// Bytes received on a virtual socket, to be written to the local OS flow.
    RemoteData(VirtualPort, Vec<u8>),
    /// An IP packet produced by the embedded stack, to be encrypted and sent.
    OutboundInternetPacket(PortProtocol, Vec<u8>),
    /// An IP packet decrypted from the tunnel, to be fed to the embedded stack.
    InboundInternetPacket(PortProtocol, Vec<u8>),
    /// The virtual device of a protocol has queued a packet: a wake-up hint.
    VirtualDeviceFed(PortProtocol),
}

} // verus!
