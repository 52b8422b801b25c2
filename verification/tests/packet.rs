use netbeam::packet::DiscoveryPacket;

fn create_info_packet_buffer(port: u16, request_id: u64) -> Vec<u8> {
    let mut buf = Vec::<u8>::new();
    buf.extend_from_slice(b"INFO");
    buf.extend_from_slice(&port.to_le_bytes());
    buf.extend_from_slice(&request_id.to_le_bytes());
    buf
}

#[test]
fn decode_conn() {
    let buf = b"CONN";
    assert_eq!(DiscoveryPacket::decode(buf), Some(DiscoveryPacket::Conn));
}

#[test]
fn decode_ackn() {
    let buf = b"ACKN";
    assert_eq!(DiscoveryPacket::decode(buf), Some(DiscoveryPacket::Ackn));
}

#[test]
fn decode_info() {
    let buf = create_info_packet_buffer(16420, 16420);
    assert_eq!(
        DiscoveryPacket::decode(buf.as_slice()),
        Some(DiscoveryPacket::Info { port: 16420, request_id: 16420 })
    );
}

#[test]
fn encode_conn() {
    assert_eq!(DiscoveryPacket::Conn.encode(), b"CONN");
}

#[test]
fn encode_ackn() {
    assert_eq!(DiscoveryPacket::Ackn.encode(), b"ACKN");
}

#[test]
fn encode_info() {
    let buf = create_info_packet_buffer(16420, 16420);
    assert_eq!(DiscoveryPacket::Info { port: 16420, request_id: 16420 }.encode(), buf);
}

#[test]
fn round_trip_conn() {
    let packet = DiscoveryPacket::Conn.encode();
    let decoded_packet = DiscoveryPacket::decode(&packet);
    assert_eq!(decoded_packet, Some(DiscoveryPacket::Conn));
}

#[test]
fn round_trip_ackn() {
    let packet = DiscoveryPacket::Ackn.encode();
    let decoded_packet = DiscoveryPacket::decode(&packet);
    assert_eq!(decoded_packet, Some(DiscoveryPacket::Ackn));
}

#[test]
fn round_trip_info() {
    let packet = DiscoveryPacket::Info { port: 16420, request_id: 16420 }.encode();
    let deocded_packet = DiscoveryPacket::decode(&packet);
    assert_eq!(deocded_packet, Some(DiscoveryPacket::Info { port: 16420, request_id: 16420 }));
}

#[test]
fn decode_unknown() {
    assert_eq!(DiscoveryPacket::decode(b"ABCD"), None);
}

#[test]
fn decode_short_packet() {
    assert_eq!(DiscoveryPacket::decode(b"AB"), None);
}

#[test]
fn decode_truncated_info() {
    let mut buf = Vec::new();
    buf.extend_from_slice(b"INFO");
    buf.extend_from_slice(&16420u16.to_le_bytes());
    assert_eq!(DiscoveryPacket::decode(&buf), None);
}

#[test]
fn encode_info_exact_bytes() {
    let bytes = DiscoveryPacket::Info { port: 0x0102, request_id: 0x0807060504030201 }.encode();
    assert_eq!(bytes, vec![b'I', b'N', b'F', b'O', 0x02, 0x01, 1, 2, 3, 4, 5, 6, 7, 8]);
    assert_eq!(bytes.len(), 14);
}

#[test]
fn decode_ignores_trailing_bytes() {
    let mut buf = DiscoveryPacket::Info { port: 7, request_id: 99 }.encode();
    buf.extend_from_slice(b"trailing host name");
    assert_eq!(DiscoveryPacket::decode(&buf), Some(DiscoveryPacket::Info { port: 7, request_id: 99 }));
    assert_eq!(DiscoveryPacket::decode(b"CONNxyz"), Some(DiscoveryPacket::Conn));
}

#[test]
fn decode_empty_and_lowercase() {
    assert_eq!(DiscoveryPacket::decode(b""), None);
    assert_eq!(DiscoveryPacket::decode(b"conn"), None);
    assert_eq!(DiscoveryPacket::decode(b"INF"), None);
}

#[test]
fn round_trip_extreme_values() {
    for packet in [
        DiscoveryPacket::Info { port: 0, request_id: 0 },
        DiscoveryPacket::Info { port: u16::MAX, request_id: u64::MAX },
    ] {
        assert_eq!(DiscoveryPacket::decode(&packet.encode()), Some(packet));
    }
}
