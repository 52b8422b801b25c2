//! Wire format of the discovery packets.
//!
//! | Packet | Layout |
//! | ------ | ------ |
//! | `CONN` | the 4 bytes `CONN` |
//! | `INFO` | the 4 bytes `INFO`, the TCP port as little-endian `u16`, the request id as little-endian `u64` |
//! | `ACKN` | the 4 bytes `ACKN` |
//!
//! Decoding looks only at the bytes that the layout names; whatever follows them is ignored.
use vstd::bytes::{
    lemma_auto_spec_u16_to_from_le_bytes, lemma_auto_spec_u64_to_from_le_bytes,
    spec_u16_from_le_bytes, spec_u16_to_le_bytes, spec_u64_from_le_bytes, spec_u64_to_le_bytes,
    u16_from_le_bytes, u16_to_le_bytes, u64_from_le_bytes, u64_to_le_bytes,
};
use vstd::prelude::*;
use vstd::slice::slice_subrange;

verus! {

/// Length of the identifier that starts every packet.
pub const IDENTIFIER_LEN: usize = 4;

/// Length of an encoded `INFO` packet.
pub const INFO_PACKET_LEN: usize = 14;

/// The identifier `CONN`.
pub open spec fn conn_identifier() -> Seq<u8> {
    seq![67u8, 79u8, 78u8, 78u8]
}

/// The identifier `ACKN`.
pub open spec fn ackn_identifier() -> Seq<u8> {
    seq![65u8, 67u8, 75u8, 78u8]
}

/// The identifier `INFO`.
pub open spec fn info_identifier() -> Seq<u8> {
    seq![73u8, 78u8, 70u8, 79u8]
}

/// A packet of the UDP discovery handshake.
#[derive(Clone, Copy, PartialEq, Eq, Structural, Debug)]
pub enum DiscoveryPacket {
    /// Broadcast by a sender looking for receivers.
    Conn,
    /// A receiver's answer: the TCP port it listens on and the id of the pending request.
    Info { port: u16, request_id: u64 },
    /// A sender's acknowledgement of an `Info`.
    Ackn,
}

impl DiscoveryPacket {
    /// The bytes that encode this packet.
    pub open spec fn spec_encode(self) -> Seq<u8> {
        match self {
            DiscoveryPacket::Conn => conn_identifier(),
            DiscoveryPacket::Ackn => ackn_identifier(),
            DiscoveryPacket::Info { port, request_id } => info_identifier() + spec_u16_to_le_bytes(
                port,
            ) + spec_u64_to_le_bytes(request_id),
        }
    }

    /// The packet that `buf` holds, if any: its first four bytes name the kind, and an `INFO`
    /// packet needs its ten bytes of payload after them. Later bytes play no part.
    pub open spec fn spec_decode(buf: Seq<u8>) -> Option<DiscoveryPacket> {
        if buf.len() < IDENTIFIER_LEN {
            None
        } else if buf.take(4) == conn_identifier() {
            Some(DiscoveryPacket::Conn)
        } else if buf.take(4) == ackn_identifier() {
            Some(DiscoveryPacket::Ackn)
        } else if buf.take(4) == info_identifier() {
            if buf.len() < INFO_PACKET_LEN {
                None
            } else {
                Some(
                    DiscoveryPacket::Info {
                        port: spec_u16_from_le_bytes(buf.subrange(4, 6)),
                        request_id: spec_u64_from_le_bytes(buf.subrange(6, 14)),
                    },
                )
            }
        } else {
            None
        }
    }

    /// Encodes the packet in its wire format.
    pub fn encode(&self) -> (bytes: Vec<u8>)
        ensures
            bytes@ == self.spec_encode(),
    {
        match self {
            DiscoveryPacket::Conn => vec![67u8, 79u8, 78u8, 78u8],
            DiscoveryPacket::Ackn => vec![65u8, 67u8, 75u8, 78u8],
            DiscoveryPacket::Info { port, request_id } => {
                let mut info_packet: Vec<u8> = Vec::with_capacity(INFO_PACKET_LEN);
                info_packet.push(73u8);
                info_packet.push(78u8);
                info_packet.push(70u8);
                info_packet.push(79u8);
                let port_bytes = u16_to_le_bytes(*port);
                let id_bytes = u64_to_le_bytes(*request_id);
                let mut i: usize = 0;
                while i < 2
                    invariant
                        0 <= i <= 2,
                        port_bytes@.len() == 2,
                        info_packet@ == info_identifier() + port_bytes@.take(i as int),
                    decreases 2 - i,
                {
                    info_packet.push(port_bytes[i]);
                    assert(port_bytes@.take(i + 1) == port_bytes@.take(i as int).push(
                        port_bytes@[i as int],
                    ));
                    i = i + 1;
                }
                let mut j: usize = 0;
                while j < 8
                    invariant
                        0 <= j <= 8,
                        port_bytes@.len() == 2,
                        id_bytes@.len() == 8,
                        info_packet@ == info_identifier() + port_bytes@ + id_bytes@.take(j as int),
                    decreases 8 - j,
                {
                    info_packet.push(id_bytes[j]);
                    assert(id_bytes@.take(j + 1) == id_bytes@.take(j as int).push(
                        id_bytes@[j as int],
                    ));
                    j = j + 1;
                }
                assert(port_bytes@.take(2) == port_bytes@);
                assert(id_bytes@.take(8) == id_bytes@);
                info_packet
            },
        }
    }

    /// Decodes the packet at the start of `buf`.
    pub fn decode(buf: &[u8]) -> (packet: Option<Self>)
        ensures
            packet == Self::spec_decode(buf@),
    {
        if buf.len() < IDENTIFIER_LEN {
            return None;
        }
        let b0 = buf[0];
        let b1 = buf[1];
        let b2 = buf[2];
        let b3 = buf[3];
        let ghost head = buf@.take(4);
        proof {
            lemma_identifiers_distinct();
        }
        assert(head.len() == 4 && head[0] == b0 && head[1] == b1 && head[2] == b2 && head[3]
            == b3);
        if b0 == 67 && b1 == 79 && b2 == 78 && b3 == 78 {
            assert(head =~= conn_identifier());
            Some(DiscoveryPacket::Conn)
        } else if b0 == 65 && b1 == 67 && b2 == 75 && b3 == 78 {
            assert(head =~= ackn_identifier());
            Some(DiscoveryPacket::Ackn)
        } else if b0 == 73 && b1 == 78 && b2 == 70 && b3 == 79 {
            assert(head =~= info_identifier());
            if buf.len() < INFO_PACKET_LEN {
                return None;
            }
            let port = u16_from_le_bytes(slice_subrange(buf, 4, 6));
            let request_id = u64_from_le_bytes(slice_subrange(buf, 6, 14));
            Some(DiscoveryPacket::Info { port, request_id })
        } else {
            assert(head != conn_identifier()) by {
                if head == conn_identifier() {
                    assert(conn_identifier()[0] == 67 && conn_identifier()[1] == 79
                        && conn_identifier()[2] == 78 && conn_identifier()[3] == 78);
                }
            }
            assert(head != ackn_identifier()) by {
                if head == ackn_identifier() {
                    assert(ackn_identifier()[0] == 65 && ackn_identifier()[1] == 67
                        && ackn_identifier()[2] == 75 && ackn_identifier()[3] == 78);
                }
            }
            assert(head != info_identifier()) by {
                if head == info_identifier() {
                    assert(info_identifier()[0] == 73 && info_identifier()[1] == 78
                        && info_identifier()[2] == 70 && info_identifier()[3] == 79);
                }
            }
            None
        }
    }
}

/// The identifiers of the three kinds differ.
proof fn lemma_identifiers_distinct()
    ensures
        conn_identifier() != ackn_identifier(),
        conn_identifier() != info_identifier(),
        ackn_identifier() != info_identifier(),
{
    assert(conn_identifier()[0] != ackn_identifier()[0]);
    assert(conn_identifier()[0] != info_identifier()[0]);
    assert(ackn_identifier()[0] != info_identifier()[0]);
}

/// An encoded packet is 4 bytes long, or 14 for `INFO`.
pub proof fn lemma_encoded_length(packet: DiscoveryPacket)
    ensures
        packet.spec_encode().len() == (if packet is Info {
            INFO_PACKET_LEN
        } else {
            IDENTIFIER_LEN
        }),
{
    lemma_auto_spec_u16_to_from_le_bytes();
    lemma_auto_spec_u64_to_from_le_bytes();
}

/// Decoding what a packet encodes to gives the packet back.
pub proof fn lemma_decode_encode(packet: DiscoveryPacket)
    ensures
        DiscoveryPacket::spec_decode(packet.spec_encode()) == Some(packet),
{
    lemma_identifiers_distinct();
    lemma_auto_spec_u16_to_from_le_bytes();
    lemma_auto_spec_u64_to_from_le_bytes();
    let bytes = packet.spec_encode();
    match packet {
        DiscoveryPacket::Conn => {
            assert(bytes.take(4) =~= conn_identifier());
        },
        DiscoveryPacket::Ackn => {
            assert(bytes.take(4) =~= ackn_identifier());
        },
        DiscoveryPacket::Info { port, request_id } => {
            let p = spec_u16_to_le_bytes(port);
            let r = spec_u64_to_le_bytes(request_id);
            assert(bytes.take(4) =~= info_identifier());
            assert(bytes.subrange(4, 6) =~= p);
            assert(bytes.subrange(6, 14) =~= r);
        },
    }
}

/// Two packets with the same encoding are the same packet.
pub proof fn lemma_encode_injective(a: DiscoveryPacket, b: DiscoveryPacket)
    ensures
        a.spec_encode() == b.spec_encode() ==> a == b,
{
    lemma_decode_encode(a);
    lemma_decode_encode(b);
}

/// Bytes appended after a packet do not change what it decodes to.
pub proof fn lemma_decode_ignores_trailing_bytes(buf: Seq<u8>, trailing: Seq<u8>)
    ensures
        DiscoveryPacket::spec_decode(buf) is Some ==> DiscoveryPacket::spec_decode(buf + trailing)
            == DiscoveryPacket::spec_decode(buf),
{
    if DiscoveryPacket::spec_decode(buf) is Some {
        let whole = buf + trailing;
        assert(whole.take(4) =~= buf.take(4));
        if buf.len() >= INFO_PACKET_LEN {
            assert(whole.subrange(4, 6) =~= buf.subrange(4, 6));
            assert(whole.subrange(6, 14) =~= buf.subrange(6, 14));
        }
    }
}

/// A decoded packet's encoding is exactly the bytes it was decoded from, up to what follows.
pub proof fn lemma_decoded_packet_is_prefix(buf: Seq<u8>)
    ensures
        DiscoveryPacket::spec_decode(buf) matches Some(packet) ==> packet.spec_encode()
            =~= buf.take(packet.spec_encode().len() as int),
{
    lemma_auto_spec_u16_to_from_le_bytes();
    lemma_auto_spec_u64_to_from_le_bytes();
    if let Some(packet) = DiscoveryPacket::spec_decode(buf) {
        if let DiscoveryPacket::Info { port, request_id } = packet {
            let p = buf.subrange(4, 6);
            let r = buf.subrange(6, 14);
            assert(spec_u16_to_le_bytes(spec_u16_from_le_bytes(p)) == p);
            assert(spec_u64_to_le_bytes(spec_u64_from_le_bytes(r)) == r);
            assert(buf.take(14) =~= buf.take(4) + p + r);
        }
    }
}

} // verus!
