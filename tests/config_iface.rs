use onetun::config::{
    any_carries, select_protocol, IpAddress, PortForwardConfig, PortProtocol, SocketAddress,
};
use onetun::iface::{host_addresses, next_poll_at, remote_data, wake_choice, IpCidr, Wake};
use onetun::events::{Event, VirtualPort};

fn v4(a: u8, b: u8, c: u8, d: u8) -> IpAddress {
    IpAddress::V4(u32::from_be_bytes([a, b, c, d]))
}

fn sock(ip: IpAddress, port: u16) -> SocketAddress {
    SocketAddress { ip, port }
}

fn forward(dst: IpAddress, port: u16, protocol: PortProtocol) -> PortForwardConfig {
    PortForwardConfig::new(sock(v4(127, 0, 0, 1), 8080), sock(dst, port), protocol)
}

#[test]
fn forward_new_is_local() {
    let f = forward(v4(10, 0, 0, 2), 80, PortProtocol::Tcp);
    assert!(!f.remote);
    assert_eq!(f.destination.port, 80);
    assert_eq!(f.source.port, 8080);
    assert_eq!(f.protocol, PortProtocol::Tcp);
}

#[test]
fn select_protocol_keeps_order() {
    let a = forward(v4(10, 0, 0, 2), 80, PortProtocol::Tcp);
    let b = forward(v4(10, 0, 0, 3), 53, PortProtocol::Udp);
    let c = forward(v4(10, 0, 0, 4), 22, PortProtocol::Tcp);
    let tcp = select_protocol(vec![a, b, c], PortProtocol::Tcp);
    assert_eq!(tcp, vec![a, c]);
    let udp = select_protocol(vec![a, b, c], PortProtocol::Udp);
    assert_eq!(udp, vec![b]);
    assert!(select_protocol(vec![], PortProtocol::Udp).is_empty());
}

#[test]
fn any_carries_finds_protocol() {
    let a = forward(v4(10, 0, 0, 2), 80, PortProtocol::Tcp);
    assert!(any_carries(&vec![a], PortProtocol::Tcp));
    assert!(!any_carries(&vec![a], PortProtocol::Udp));
    assert!(!any_carries(&vec![], PortProtocol::Tcp));
}

#[test]
fn protocol_names_in_any_case() {
    assert_eq!(PortProtocol::parse("tcp"), Some(PortProtocol::Tcp));
    assert_eq!(PortProtocol::parse("Udp"), Some(PortProtocol::Udp));
    assert_eq!(PortProtocol::parse("UDP"), Some(PortProtocol::Udp));
    assert_eq!(PortProtocol::parse("sctp"), None);
    assert_eq!(PortProtocol::parse(""), None);
    assert_eq!(PortProtocol::from_upper(&"TCP".to_string()), Some(PortProtocol::Tcp));
    assert_eq!(PortProtocol::from_upper(&"tcp".to_string()), None);
}

#[test]
fn host_addresses_once_each() {
    let peer = v4(192, 168, 4, 2);
    let dst = v4(10, 0, 0, 2);
    let fs = vec![
        forward(dst, 80, PortProtocol::Tcp),
        forward(dst, 443, PortProtocol::Tcp),
        forward(peer, 22, PortProtocol::Tcp),
    ];
    let r = host_addresses(peer, &fs, &vec![]);
    assert_eq!(
        r,
        vec![
            IpCidr { address: peer, prefix_len: 32 },
            IpCidr { address: dst, prefix_len: 32 },
        ]
    );
}

#[test]
fn host_addresses_v6_is_single_host() {
    let peer = IpAddress::V6(1);
    let r = host_addresses(peer, &vec![], &vec![]);
    assert_eq!(r, vec![IpCidr { address: peer, prefix_len: 128 }]);
    assert_eq!(IpAddress::V6(7).width(), 128);
    assert_eq!(v4(1, 2, 3, 4).width(), 32);
}

#[test]
fn next_poll_from_delay() {
    assert_eq!(next_poll_at(1000, None), None);
    assert_eq!(next_poll_at(1000, Some(0)), None);
    assert_eq!(next_poll_at(1000, Some(250)), Some(1250));
    assert_eq!(next_poll_at(u64::MAX - 1, Some(5)), Some(u64::MAX));
}

#[test]
fn wake_choice_cases() {
    assert_eq!(wake_choice(Some(5), false), Wake::At(5));
    assert_eq!(wake_choice(Some(5), true), Wake::At(5));
    assert_eq!(wake_choice(None, true), Wake::Now);
    assert_eq!(wake_choice(None, false), Wake::Never);
}

#[test]
fn empty_reads_publish_nothing() {
    let p = VirtualPort::new(40000, PortProtocol::Tcp);
    assert!(remote_data(p, vec![]).is_none());
    match remote_data(p, vec![1, 2, 3]) {
        Some(Event::RemoteData(q, d)) => {
            assert_eq!(q, p);
            assert_eq!(d, vec![1, 2, 3]);
        }
        other => panic!("unexpected {:?}", other),
    }
    assert_eq!(p.num(), 40000);
    assert_eq!(p.proto(), PortProtocol::Tcp);
}
