//! The session configuration, which tasks a session starts, and the
//! single-shot shutdown signal.
use vstd::prelude::*;

use crate::config::{any_carries, carries, IpAddress, PortForwardConfig, PortProtocol, SocketAddress};

verus! {

/// The largest packet the tunnel carries when none is configured.
pub const DEFAULT_MAX_TRANSMISSION_UNIT: usize = 1420;

/// The least packet size a configuration may give.
pub const MIN_MAX_TRANSMISSION_UNIT: usize = 576;

/// The largest packet size a configuration may give.
pub const MAX_MAX_TRANSMISSION_UNIT: usize = 65535;

/// Seconds between keepalives when none is configured.
pub const DEFAULT_KEEPALIVE_SECONDS: u16 = 25;

/// The length of a key of the tunnel's curve.
pub const KEY_LEN: usize = 32;

/// Why a configuration is refused.
#[derive(Clone, Copy, Debug, PartialEq, Eq, Structural)]
pub enum ConfigError {
    /// No port-forward at all.
    NoPortForwards,
    /// A remote forward asks for TCP, which the peer cannot initiate.
    RemoteTcpForward,
    /// The private key is not 32 bytes.
    BadPrivateKey,
    /// The peer's public key is not 32 bytes.
    BadPeerPublicKey,
    /// The maximum transmission unit is outside 576..=65535.
    BadMaxTransmissionUnit,
}

/// The settings of one session, once checked.
pub struct Config {
    pub port_forwards: Vec<PortForwardConfig>,
    pub remote_port_forwards: Vec<PortForwardConfig>,
    pub private_key: Vec<u8>,
    pub peer_public_key: Vec<u8>,
    pub endpoint: SocketAddress,
    pub source_peer_ip: IpAddress,
    pub keepalive_seconds: u16,
    pub max_transmission_unit: usize,
    pub log: String,
    pub pcap_file: Option<String>,
}

/// The first thing wrong with a configuration made of these values, if any.
pub open spec fn config_error(
    port_forwards: Seq<PortForwardConfig>,
    remote_port_forwards: Seq<PortForwardConfig>,
    private_key: Seq<u8>,
    peer_public_key: Seq<u8>,
    max_transmission_unit: usize,
) -> Option<ConfigError> {
    if port_forwards.len() == 0 && remote_port_forwards.len() == 0 {
        Some(ConfigError::NoPortForwards)
    } else if carries(remote_port_forwards, PortProtocol::Tcp) {
        Some(ConfigError::RemoteTcpForward)
    } else if private_key.len() != KEY_LEN {
        Some(ConfigError::BadPrivateKey)
    } else if peer_public_key.len() != KEY_LEN {
        Some(ConfigError::BadPeerPublicKey)
    } else if max_transmission_unit < MIN_MAX_TRANSMISSION_UNIT || max_transmission_unit
        > MAX_MAX_TRANSMISSION_UNIT {
        Some(ConfigError::BadMaxTransmissionUnit)
    } else {
        None
    }
}

impl Config {
    /// Checks and assembles a configuration. Keys are given decoded. The
    /// keepalive defaults to 25 seconds, the transmission unit to 1420 bytes,
    /// the log filter to `info`.
    pub fn new(
        port_forwards: Vec<PortForwardConfig>,
        remote_port_forwards: Vec<PortForwardConfig>,
        peer_public_key: Vec<u8>,
        private_key: Vec<u8>,
        endpoint: SocketAddress,
        source_peer_ip: IpAddress,
        keepalive_seconds: Option<u16>,
        max_transmission_unit: Option<usize>,
        log: Option<String>,
        pcap_file: Option<String>,
    ) -> (r: Result<Config, ConfigError>)
        ensures
            ({
                let mtu = match max_transmission_unit {
                    Some(m) => m,
                    None => DEFAULT_MAX_TRANSMISSION_UNIT,
                };
                match config_error(
                    port_forwards@,
                    remote_port_forwards@,
                    private_key@,
                    peer_public_key@,
                    mtu,
                ) {
                    Some(e) => r == Err::<Config, ConfigError>(e),
                    None => r matches Ok(c) && c.port_forwards@ == port_forwards@
                        && c.remote_port_forwards@ == remote_port_forwards@ && c.private_key@
                        == private_key@ && c.peer_public_key@ == peer_public_key@ && c.endpoint
                        == endpoint && c.source_peer_ip == source_peer_ip && c.keepalive_seconds
                        == match keepalive_seconds {
                        Some(k) => k,
                        None => DEFAULT_KEEPALIVE_SECONDS,
                    } && c.max_transmission_unit == mtu && c.log@ == match log {
                        Some(l) => l@,
                        None => "info"@,
                    } && c.pcap_file == pcap_file,
                }
            }),
    {
        let mtu = match max_transmission_unit {
            Some(m) => m,
            None => DEFAULT_MAX_TRANSMISSION_UNIT,
        };
        if port_forwards.len() == 0 && remote_port_forwards.len() == 0 {
            return Err(ConfigError::NoPortForwards);
        }
        if any_carries(&remote_port_forwards, PortProtocol::Tcp) {
            return Err(ConfigError::RemoteTcpForward);
        }
        if private_key.len() != KEY_LEN {
            return Err(ConfigError::BadPrivateKey);
        }
        if peer_public_key.len() != KEY_LEN {
            return Err(ConfigError::BadPeerPublicKey);
        }
        if mtu < MIN_MAX_TRANSMISSION_UNIT || mtu > MAX_MAX_TRANSMISSION_UNIT {
            return Err(ConfigError::BadMaxTransmissionUnit);
        }
        let keepalive_seconds = match keepalive_seconds {
            Some(k) => k,
            None => DEFAULT_KEEPALIVE_SECONDS,
        };
        let log = match log {
            Some(l) => l,
            None => String::from_str("info"),
        };
        Ok(Config {
            port_forwards,
            remote_port_forwards,
            private_key,
            peer_public_key,
            endpoint,
            source_peer_ip,
            keepalive_seconds,
            max_transmission_unit: mtu,
            log,
            pcap_file,
        })
    }
}

/// Which virtual interfaces a session runs.
#[derive(Clone, Copy, Debug, PartialEq, Eq, Structural)]
pub struct StartPlan {
    /// A TCP interface, for the local TCP forwards.
    pub tcp_interface: bool,
    /// A UDP interface, for the local and remote UDP forwards.
    pub udp_interface: bool,
}

/// A TCP interface runs when some local forward is TCP; a UDP interface when
/// some local or remote forward is UDP.
pub fn plan_start(port_forwards: &Vec<PortForwardConfig>, remote_port_forwards: &Vec<PortForwardConfig>) -> (r: StartPlan)
    ensures
        r.tcp_interface == carries(port_forwards@, PortProtocol::Tcp),
        r.udp_interface == (carries(port_forwards@, PortProtocol::Udp) || carries(
            remote_port_forwards@,
            PortProtocol::Udp,
        )),
{
    let tcp_interface = any_carries(port_forwards, PortProtocol::Tcp);
    let udp_interface = any_carries(port_forwards, PortProtocol::Udp) || any_carries(
        remote_port_forwards,
        PortProtocol::Udp,
    );
    StartPlan { tcp_interface, udp_interface }
}

/// The single-shot shutdown signal of a session.
pub struct KillSwitch {
    fired: bool,
}

impl KillSwitch {
    /// Whether shutdown was requested.
    pub closed spec fn spec_fired(&self) -> bool {
        self.fired
    }

    /// A signal not yet given.
    pub fn new() -> (r: Self)
        ensures
            !r.spec_fired(),
    {
        KillSwitch { fired: false }
    }

    /// Requests shutdown. Returns whether the signal is to be broadcast now:
    /// on the first request only, so that a second one does nothing.
    pub fn kill(&mut self) -> (r: bool)
        ensures
            final(self).spec_fired(),
            r == !old(self).spec_fired(),
    {
        let r = !self.fired;
        self.fired = true;
        r
    }

    /// Whether shutdown was requested.
    pub fn is_killed(&self) -> (r: bool)
        ensures
            r == self.spec_fired(),
    {
        self.fired
    }
}

} // verus!
