use netbeam::address::{IpAddress, SocketAddress};
use netbeam::common::{Request, DEFAULT_TCP_PORT, DEFAULT_UDP_PORT};
use netbeam::packet::DiscoveryPacket;
use netbeam::protocol::{
    after_socket_operation, broadcast_datagrams, decode_acknowledgement, encode_acknowledgement,
    encode_info_reply, get_broadcast_addrs, is_socket_timeout, make_offer, offer_to,
    on_info_datagram, on_sender_datagram, LoopAction, SenderReply, SocketErrorKind,
};

fn v4(a: u8, b: u8, c: u8, d: u8) -> IpAddress {
    IpAddress::V4(u32::from_be_bytes([a, b, c, d]))
}

fn sender_addr() -> SocketAddress {
    SocketAddress::new(v4(192, 168, 1, 20), DEFAULT_UDP_PORT)
}

fn receiver_addr() -> SocketAddress {
    SocketAddress::new(v4(192, 168, 1, 30), DEFAULT_UDP_PORT)
}

#[test]
fn socket_timeout_kinds() {
    assert!(is_socket_timeout(SocketErrorKind::TimedOut));
    assert!(is_socket_timeout(SocketErrorKind::WouldBlock));
    assert!(!is_socket_timeout(SocketErrorKind::Other));
}

#[test]
fn loopback_addresses() {
    assert!(v4(127, 0, 0, 1).is_loopback());
    assert!(v4(127, 255, 0, 9).is_loopback());
    assert!(!v4(128, 0, 0, 1).is_loopback());
    assert!(!v4(192, 168, 1, 255).is_loopback());
    assert!(IpAddress::V6(1).is_loopback());
    assert!(!IpAddress::V6(0).is_loopback());
}

#[test]
fn broadcast_addrs_skip_loopback_and_missing() {
    let interfaces = vec![
        vec![Some(v4(127, 255, 255, 255)), None],
        vec![Some(v4(192, 168, 1, 255)), None, Some(v4(10, 0, 0, 255))],
        vec![],
        vec![Some(IpAddress::V6(1)), Some(IpAddress::V6(0xff02_0000_0000_0000_0000_0000_0000_0001))],
    ];
    let addrs = get_broadcast_addrs(&interfaces);
    assert_eq!(
        addrs,
        vec![
            v4(192, 168, 1, 255),
            v4(10, 0, 0, 255),
            IpAddress::V6(0xff02_0000_0000_0000_0000_0000_0000_0001)
        ]
    );
    assert!(get_broadcast_addrs(&vec![]).is_empty());
}

#[test]
fn broadcast_sends_conn_to_discovery_port() {
    let addrs = vec![v4(192, 168, 1, 255), v4(10, 0, 0, 255)];
    let datagrams = broadcast_datagrams(&addrs);
    assert_eq!(datagrams.len(), 2);
    for (datagram, ip) in datagrams.iter().zip(addrs.iter()) {
        assert_eq!(datagram.payload, b"CONN".to_vec());
        assert_eq!(datagram.destination, SocketAddress::new(*ip, 11665));
    }
}

#[test]
fn info_reply_layout() {
    let bytes = encode_info_reply(0x2b6a, 0x0102030405060708, "host");
    let mut expected = b"INFO".to_vec();
    expected.extend_from_slice(&[0x6a, 0x2b]);
    expected.extend_from_slice(&[8, 7, 6, 5, 4, 3, 2, 1]);
    expected.extend_from_slice(b"host");
    assert_eq!(bytes, expected);
}

#[test]
fn acknowledgement_layout_and_round_trip() {
    let bytes = encode_acknowledgement(0x0102030405060708);
    assert_eq!(bytes, vec![b'A', b'C', b'K', b'N', 8, 7, 6, 5, 4, 3, 2, 1]);
    assert_eq!(decode_acknowledgement(&bytes), Some(0x0102030405060708));
    assert_eq!(decode_acknowledgement(b"ACKN"), None);
    assert_eq!(decode_acknowledgement(b"ACKN1234567"), None);
    assert_eq!(decode_acknowledgement(b"CONN12345678"), None);
}

#[test]
fn sender_takes_in_info() {
    let offer = encode_info_reply(DEFAULT_TCP_PORT, 42, "laptop");
    let received = on_info_datagram(&offer, receiver_addr()).expect("INFO is taken in");
    assert_eq!(received.request_id, 42);
    assert_eq!(received.device.name, "laptop");
    assert_eq!(received.device.ip_address, v4(192, 168, 1, 30));
    assert_eq!(received.device.port, DEFAULT_TCP_PORT);
    assert_eq!(received.acknowledgement.payload, encode_acknowledgement(42));
    assert_eq!(received.acknowledgement.destination, receiver_addr());
}

#[test]
fn sender_takes_in_info_without_name() {
    let info = DiscoveryPacket::Info { port: 16420, request_id: 7 }.encode();
    let received = on_info_datagram(&info, receiver_addr()).expect("INFO is taken in");
    assert_eq!(received.device.name, "");
    assert_eq!(received.device.port, 16420);
    assert_eq!(received.request_id, 7);
}

#[test]
fn sender_replaces_invalid_utf8_in_name() {
    let mut info = DiscoveryPacket::Info { port: 1, request_id: 2 }.encode();
    info.extend_from_slice(&[b'a', 0xff, b'b']);
    let received = on_info_datagram(&info, receiver_addr()).expect("INFO is taken in");
    assert_eq!(received.device.name, "a\u{FFFD}b");
}

#[test]
fn sender_ignores_other_datagrams() {
    assert!(on_info_datagram(b"CONN", receiver_addr()).is_none());
    assert!(on_info_datagram(b"ACKN", receiver_addr()).is_none());
    assert!(on_info_datagram(b"INFO\x01", receiver_addr()).is_none());
    assert!(on_info_datagram(b"", receiver_addr()).is_none());
}

#[test]
fn receiver_asks_for_offer_on_conn() {
    assert_eq!(on_sender_datagram(b"CONN"), SenderReply::OfferRequested);
    assert_eq!(on_sender_datagram(b"CONNtrailing"), SenderReply::OfferRequested);
}

#[test]
fn receiver_offers_under_drawn_id() {
    let (reply, request) = offer_to(sender_addr(), "desk").expect("the system random source works");
    assert_eq!(request.port, DEFAULT_TCP_PORT);
    assert_eq!(request.socket_address, sender_addr());
    assert_eq!(reply.destination, sender_addr());
    assert_eq!(reply.payload, encode_info_reply(11666, request.request_id, "desk"));
}

#[test]
fn receiver_offer_with_given_id() {
    let (reply, request) = make_offer(sender_addr(), "desk", 5);
    assert_eq!(request, Request::new(5, 11666, sender_addr()));
    assert_eq!(reply.payload, encode_info_reply(11666, 5, "desk"));
    assert_eq!(reply.destination, sender_addr());
}

#[test]
fn receiver_ends_acknowledged_request() {
    let ack = encode_acknowledgement(77);
    assert_eq!(on_sender_datagram(&ack), SenderReply::Acknowledged(77));
    assert_eq!(on_sender_datagram(b"ACKN"), SenderReply::Ignore);
    let info = DiscoveryPacket::Info { port: 1, request_id: 2 }.encode();
    assert_eq!(on_sender_datagram(&info), SenderReply::Ignore);
    assert_eq!(on_sender_datagram(b"XY"), SenderReply::Ignore);
}

#[test]
fn loop_steps_after_socket_operations() {
    assert_eq!(after_socket_operation(Ok(())), LoopAction::Proceed);
    assert_eq!(after_socket_operation(Err(SocketErrorKind::TimedOut)), LoopAction::Retry);
    assert_eq!(after_socket_operation(Err(SocketErrorKind::WouldBlock)), LoopAction::Retry);
    assert_eq!(after_socket_operation(Err(SocketErrorKind::Other)), LoopAction::Stop);
}

#[test]
fn full_handshake() {
    assert_eq!(on_sender_datagram(b"CONN"), SenderReply::OfferRequested);
    let (offer, request) = offer_to(sender_addr(), "workstation").expect("an id is drawn");
    let received = on_info_datagram(&offer.payload, receiver_addr()).expect("the offer is understood");
    assert_eq!(received.request_id, request.request_id);
    assert_eq!(received.device.name, "workstation");
    assert_eq!(received.device.port, 11666);
    assert_eq!(
        on_sender_datagram(&received.acknowledgement.payload),
        SenderReply::Acknowledged(request.request_id)
    );
}
