use onetun::config::{IpAddress, PortForwardConfig, PortProtocol, SocketAddress};
use onetun::device::{VirtualIpDevice, DEFAULT_QUEUE_CAPACITY};
use onetun::events::Event;
use onetun::lifecycle::{plan_start, Config, ConfigError, KillSwitch, StartPlan};

fn v4(a: u8, b: u8, c: u8, d: u8) -> IpAddress {
    IpAddress::V4(u32::from_be_bytes([a, b, c, d]))
}

fn sock(ip: IpAddress, port: u16) -> SocketAddress {
    SocketAddress { ip, port }
}

fn fwd(protocol: PortProtocol) -> PortForwardConfig {
    PortForwardConfig::new(sock(v4(127, 0, 0, 1), 8080), sock(v4(10, 0, 0, 2), 80), protocol)
}

fn remote(protocol: PortProtocol) -> PortForwardConfig {
    PortForwardConfig {
        source: sock(v4(192, 168, 4, 2), 7000),
        destination: sock(v4(127, 0, 0, 1), 7000),
        protocol,
        remote: true,
    }
}

fn make(
    fs: Vec<PortForwardConfig>,
    rs: Vec<PortForwardConfig>,
    public: usize,
    private: usize,
    mtu: Option<usize>,
) -> Result<Config, ConfigError> {
    Config::new(
        fs,
        rs,
        vec![1; public],
        vec![2; private],
        sock(v4(203, 0, 113, 1), 51820),
        v4(192, 168, 4, 2),
        None,
        mtu,
        None,
        None,
    )
}

#[test]
fn device_queue_drops_oldest() {
    let mut d = VirtualIpDevice::with_capacity(PortProtocol::Tcp, 1420, 2);
    for i in 0..3u8 {
        let hint = d.on_event(Event::InboundInternetPacket(PortProtocol::Tcp, vec![i]));
        assert!(matches!(hint, Some(Event::VirtualDeviceFed(PortProtocol::Tcp))));
    }
    assert_eq!(d.queued(), 2);
    assert_eq!(d.receive(), Some(vec![1]));
    assert_eq!(d.receive(), Some(vec![2]));
    assert_eq!(d.receive(), None);
}

#[test]
fn device_default_bound() {
    let mut d = VirtualIpDevice::new(PortProtocol::Udp, 1420);
    assert_eq!(d.max_transmission_unit(), 1420);
    for i in 0..200u32 {
        d.on_event(Event::InboundInternetPacket(PortProtocol::Udp, i.to_be_bytes().to_vec()));
    }
    assert_eq!(d.queued(), DEFAULT_QUEUE_CAPACITY);
    assert_eq!(d.receive(), Some(72u32.to_be_bytes().to_vec()));
}

#[test]
fn device_ignores_other_protocol_and_events() {
    let mut d = VirtualIpDevice::new(PortProtocol::Udp, 1420);
    assert!(d.on_event(Event::InboundInternetPacket(PortProtocol::Tcp, vec![1])).is_none());
    assert!(d.on_event(Event::OutboundInternetPacket(PortProtocol::Udp, vec![1])).is_none());
    assert_eq!(d.queued(), 0);
    assert!(matches!(d.transmit(vec![4, 5]), Event::OutboundInternetPacket(PortProtocol::Udp, p) if p == vec![4, 5]));
}

#[test]
fn config_defaults() {
    let c = make(vec![fwd(PortProtocol::Tcp)], vec![], 32, 32, None).unwrap();
    assert_eq!(c.max_transmission_unit, 1420);
    assert_eq!(c.keepalive_seconds, 25);
    assert_eq!(c.log, "info");
    assert_eq!(c.pcap_file, None);
    assert_eq!(c.port_forwards, vec![fwd(PortProtocol::Tcp)]);
}

#[test]
fn config_errors() {
    assert_eq!(make(vec![], vec![], 32, 32, None).err(), Some(ConfigError::NoPortForwards));
    assert_eq!(
        make(vec![], vec![remote(PortProtocol::Tcp)], 32, 32, None).err(),
        Some(ConfigError::RemoteTcpForward)
    );
    assert_eq!(make(vec![fwd(PortProtocol::Tcp)], vec![], 32, 31, None).err(), Some(ConfigError::BadPrivateKey));
    assert_eq!(make(vec![fwd(PortProtocol::Tcp)], vec![], 33, 32, None).err(), Some(ConfigError::BadPeerPublicKey));
    assert_eq!(
        make(vec![fwd(PortProtocol::Tcp)], vec![], 32, 32, Some(575)).err(),
        Some(ConfigError::BadMaxTransmissionUnit)
    );
    assert_eq!(
        make(vec![fwd(PortProtocol::Tcp)], vec![], 32, 32, Some(65536)).err(),
        Some(ConfigError::BadMaxTransmissionUnit)
    );
    assert!(make(vec![fwd(PortProtocol::Tcp)], vec![], 32, 32, Some(576)).is_ok());
    assert!(make(vec![fwd(PortProtocol::Tcp)], vec![], 32, 32, Some(65535)).is_ok());
    assert!(make(vec![], vec![remote(PortProtocol::Udp)], 32, 32, None).is_ok());
}

#[test]
fn start_plan_per_protocol() {
    assert_eq!(
        plan_start(&vec![fwd(PortProtocol::Tcp)], &vec![]),
        StartPlan { tcp_interface: true, udp_interface: false }
    );
    assert_eq!(
        plan_start(&vec![fwd(PortProtocol::Tcp), fwd(PortProtocol::Udp)], &vec![]),
        StartPlan { tcp_interface: true, udp_interface: true }
    );
    assert_eq!(
        plan_start(&vec![], &vec![remote(PortProtocol::Udp)]),
        StartPlan { tcp_interface: false, udp_interface: true }
    );
}

#[test]
fn second_kill_is_noop() {
    let mut k = KillSwitch::new();
    assert!(!k.is_killed());
    assert!(k.kill());
    assert!(k.is_killed());
    assert!(!k.kill());
    assert!(k.is_killed());
}
