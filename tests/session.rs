use onetun::config::PortProtocol;
use onetun::events::Event;
use onetun::session::{inbound_protocol, produce, ConsumeAction, SessionOutput, SessionStats};

fn ipv4(protocol: u8) -> Vec<u8> {
    let mut p = vec![0u8; 28];
    p[0] = 0x45;
    p[9] = protocol;
    p
}

fn ipv6(next: u8) -> Vec<u8> {
    let mut p = vec![0u8; 48];
    p[0] = 0x60;
    p[6] = next;
    p
}

#[test]
fn inner_packets_route_by_protocol() {
    assert_eq!(inbound_protocol(&ipv4(6)), Some(PortProtocol::Tcp));
    assert_eq!(inbound_protocol(&ipv4(17)), Some(PortProtocol::Udp));
    assert_eq!(inbound_protocol(&ipv4(1)), None);
    assert_eq!(inbound_protocol(&ipv6(6)), Some(PortProtocol::Tcp));
    assert_eq!(inbound_protocol(&ipv6(17)), Some(PortProtocol::Udp));
    assert_eq!(inbound_protocol(&ipv6(58)), None);
    assert_eq!(inbound_protocol(&vec![]), None);
    assert_eq!(inbound_protocol(&ipv4(6)[..19].to_vec()), None);
    let mut odd = ipv4(6);
    odd[0] = 0x55;
    assert_eq!(inbound_protocol(&odd), None);
}

#[test]
fn consume_actions() {
    let mut stats = SessionStats::new();
    assert!(matches!(stats.consume(SessionOutput::Done), ConsumeAction::Skip));
    assert!(matches!(stats.consume(SessionOutput::WriteToNetwork(vec![1, 2])), ConsumeAction::Send(b) if b == vec![1, 2]));
    match stats.consume(SessionOutput::WriteToTunnel(ipv4(17))) {
        ConsumeAction::Publish(Event::InboundInternetPacket(p, b)) => {
            assert_eq!(p, PortProtocol::Udp);
            assert_eq!(b, ipv4(17));
        }
        other => panic!("unexpected {:?}", other),
    }
    assert!(matches!(stats.consume(SessionOutput::WriteToTunnel(ipv4(1))), ConsumeAction::Skip));
    assert_eq!(stats.decrypt_failures, 0);
}

#[test]
fn decrypt_failures_are_counted() {
    let mut stats = SessionStats::new();
    assert!(matches!(stats.consume(SessionOutput::Failed), ConsumeAction::Skip));
    stats.consume(SessionOutput::Failed);
    assert_eq!(stats.decrypt_failures, 2);
    stats.decrypt_failures = u64::MAX;
    stats.consume(SessionOutput::Failed);
    assert_eq!(stats.decrypt_failures, u64::MAX);
}

#[test]
fn produce_waits_for_session() {
    let packet = Event::OutboundInternetPacket(PortProtocol::Tcp, vec![9]);
    assert_eq!(produce(false, packet.clone()), None);
    assert_eq!(produce(true, packet), Some(vec![9]));
    assert_eq!(produce(true, Event::VirtualDeviceFed(PortProtocol::Tcp)), None);
}
