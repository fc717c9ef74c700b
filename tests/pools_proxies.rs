use onetun::config::{IpAddress, PortForwardConfig, PortProtocol, SocketAddress};
use onetun::events::{Event, VirtualPort};
use onetun::pool::{PoolError, PortPool, EPHEMERAL_MIN, UDP_IDLE_TIMEOUT_MS};
use onetun::proxy::{
    port_forward, remote_port_forward, tcp_accept, tcp_local_read, tcp_remote_event, udp_datagram,
    udp_reply, ForwardError, ProxyKind, PumpStep,
};

fn v4(a: u8, b: u8, c: u8, d: u8) -> IpAddress {
    IpAddress::V4(u32::from_be_bytes([a, b, c, d]))
}

fn sock(ip: IpAddress, port: u16) -> SocketAddress {
    SocketAddress { ip, port }
}

fn client(port: u16) -> SocketAddress {
    sock(v4(127, 0, 0, 1), port)
}

fn tcp_forward() -> PortForwardConfig {
    PortForwardConfig::new(client(8080), sock(v4(10, 0, 0, 2), 80), PortProtocol::Tcp)
}

fn udp_forward() -> PortForwardConfig {
    PortForwardConfig::new(client(5353), sock(v4(10, 0, 0, 2), 53), PortProtocol::Udp)
}

#[test]
fn pool_allocates_first_usable_candidate() {
    let mut pool = PortPool::new(PortProtocol::Tcp);
    assert_eq!(pool.protocol(), PortProtocol::Tcp);
    let v = pool.allocate(&vec![80, 40000, 40001], client(5000), 0).unwrap();
    assert_eq!(v, VirtualPort::new(40000, PortProtocol::Tcp));
    let w = pool.allocate(&vec![40000, 32767, 40001], client(5001), 0).unwrap();
    assert_eq!(w.num, 40001);
    assert_eq!(pool.len(), 2);
    assert_eq!(pool.origin_of(40000), Some(client(5000)));
    assert_eq!(pool.origin_of(40001), Some(client(5001)));
    assert_eq!(pool.origin_of(40002), None);
    assert_eq!(pool.port_of(client(5001)), Some(w));
    assert_eq!(pool.port_of(client(9)), None);
}

#[test]
fn pool_no_free_ports() {
    let mut pool = PortPool::new(PortProtocol::Udp);
    pool.allocate(&vec![EPHEMERAL_MIN], client(1), 0).unwrap();
    assert_eq!(pool.allocate(&vec![EPHEMERAL_MIN, 1024], client(2), 0), Err(PoolError::NoFreePorts));
    assert_eq!(pool.allocate(&vec![], client(2), 0), Err(PoolError::NoFreePorts));
    assert_eq!(pool.len(), 1);
}

#[test]
fn pool_release_frees_number() {
    let mut pool = PortPool::new(PortProtocol::Tcp);
    pool.allocate(&vec![50000], client(1), 0).unwrap();
    assert!(pool.is_allocated(50000));
    pool.release(50000);
    assert!(!pool.is_allocated(50000));
    pool.release(50000);
    assert_eq!(pool.len(), 0);
    assert_eq!(pool.allocate(&vec![50000], client(2), 0).unwrap().num, 50000);
}

#[test]
fn two_connections_distinct_ports_then_freed() {
    let mut pool = PortPool::new(PortProtocol::Tcp);
    let (a, ea) = tcp_accept(&mut pool, tcp_forward(), client(6000), &vec![41000, 41001], 0).unwrap();
    let (b, eb) = tcp_accept(&mut pool, tcp_forward(), client(6001), &vec![41000, 41001], 0).unwrap();
    assert_ne!(a, b);
    assert!(matches!(ea, Event::ClientConnectionInitiated(f, p) if f == tcp_forward() && p == a));
    assert!(matches!(eb, Event::ClientConnectionInitiated(f, p) if f == tcp_forward() && p == b));
    assert_eq!(pool.len(), 2);
    pool.release(a.num);
    pool.release(b.num);
    assert_eq!(pool.len(), 0);
}

#[test]
fn tcp_accept_without_free_port_fails() {
    let mut pool = PortPool::new(PortProtocol::Tcp);
    assert!(matches!(
        tcp_accept(&mut pool, tcp_forward(), client(6000), &vec![1, 2, 3], 0),
        Err(PoolError::NoFreePorts)
    ));
}

#[test]
fn tcp_reads_become_events() {
    let port = VirtualPort::new(42000, PortProtocol::Tcp);
    assert!(matches!(tcp_local_read(tcp_forward(), port, vec![]), Event::ClientConnectionDropped(p) if p == port));
    match tcp_local_read(tcp_forward(), port, vec![9, 8]) {
        Event::LocalData(f, p, d) => {
            assert_eq!(f, tcp_forward());
            assert_eq!(p, port);
            assert_eq!(d, vec![9, 8]);
        }
        other => panic!("unexpected {:?}", other),
    }
}

#[test]
fn tcp_pump_follows_own_port() {
    let port = VirtualPort::new(42001, PortProtocol::Tcp);
    let other = VirtualPort::new(42002, PortProtocol::Tcp);
    assert!(matches!(tcp_remote_event(port, Event::RemoteData(port, vec![1])), PumpStep::Write(d) if d == vec![1]));
    assert!(matches!(tcp_remote_event(port, Event::RemoteData(other, vec![1])), PumpStep::Skip));
    assert!(matches!(tcp_remote_event(port, Event::ClientConnectionDropped(port)), PumpStep::Shutdown));
    assert!(matches!(tcp_remote_event(port, Event::ClientConnectionDropped(other)), PumpStep::Skip));
    assert!(matches!(tcp_remote_event(port, Event::VirtualDeviceFed(PortProtocol::Tcp)), PumpStep::Skip));
}

#[test]
fn udp_replay_reaches_sender() {
    let mut pool = PortPool::new(PortProtocol::Udp);
    let peer = client(7001);
    let query = vec![0x12u8; 60];
    let e = udp_datagram(&mut pool, udp_forward(), peer, query.clone(), &vec![43000], 0).unwrap();
    let v = match e {
        Event::LocalData(f, v, d) => {
            assert_eq!(f, udp_forward());
            assert_eq!(d, query);
            v
        }
        other => panic!("unexpected {:?}", other),
    };
    assert_eq!(v, VirtualPort::new(43000, PortProtocol::Udp));
    let e2 = udp_datagram(&mut pool, udp_forward(), peer, vec![1], &vec![43001], 0).unwrap();
    assert!(matches!(e2, Event::LocalData(_, w, _) if w == v));
    assert_eq!(pool.len(), 1);
    let reply = vec![0x34u8; 72];
    assert_eq!(udp_reply(&pool, Event::RemoteData(v, reply.clone())), Some((peer, reply)));
    assert_eq!(udp_reply(&pool, Event::RemoteData(VirtualPort::new(43000, PortProtocol::Tcp), vec![1])), None);
    assert_eq!(udp_reply(&pool, Event::VirtualDeviceFed(PortProtocol::Udp)), None);
    pool.release(v.num);
    assert_eq!(udp_reply(&pool, Event::RemoteData(v, vec![1])), None);
}

#[test]
fn udp_datagram_without_free_port_fails() {
    let mut pool = PortPool::new(PortProtocol::Udp);
    assert_eq!(
        udp_datagram(&mut pool, udp_forward(), client(1), vec![1], &vec![], 0).map(|_| ()),
        Err(PoolError::NoFreePorts)
    );
}

#[test]
fn forward_dispatch() {
    assert_eq!(port_forward(&tcp_forward()), ProxyKind::Tcp);
    assert_eq!(port_forward(&udp_forward()), ProxyKind::Udp);
    assert_eq!(remote_port_forward(&udp_forward()), Ok(ProxyKind::Udp));
    assert_eq!(remote_port_forward(&tcp_forward()), Err(ForwardError::RemoteTcpUnsupported));
}

#[test]
fn idle_udp_ports_expire() {
    let mut pool = PortPool::new(PortProtocol::Udp);
    let a = client(7101);
    let b = client(7102);
    udp_datagram(&mut pool, udp_forward(), a, vec![1], &vec![44000], 1_000).unwrap();
    udp_datagram(&mut pool, udp_forward(), b, vec![1], &vec![44001], 2_000).unwrap();
    assert!(pool.idle_ports(60_999, UDP_IDLE_TIMEOUT_MS).is_empty());
    assert_eq!(pool.idle_ports(61_000, UDP_IDLE_TIMEOUT_MS), vec![44000]);
    udp_datagram(&mut pool, udp_forward(), a, vec![2], &vec![44002], 30_000).unwrap();
    assert_eq!(pool.len(), 2);
    assert_eq!(pool.idle_ports(62_000, UDP_IDLE_TIMEOUT_MS), vec![44001]);
    pool.touch(44001, 50_000);
    pool.touch(45555, 50_000);
    assert!(pool.idle_ports(62_000, UDP_IDLE_TIMEOUT_MS).is_empty());
    assert_eq!(pool.idle_ports(0, UDP_IDLE_TIMEOUT_MS), Vec::<u16>::new());
}
