//! Decisions of the discovery handshake.
//!
//! ```text
//! SENDER                                      RECEIVER
//!   |----- CONN (UDP broadcast) ----------------->|
//!   |<---- INFO { TCP port, request ID } ---------|
//!   |----- ACKN { request ID } ------------------>|
//! ```
//!
//! The loops that read and write the sockets call the functions here with each datagram they
//! receive and carry out what these return. On the wire the `INFO` answer to a `CONN` carries
//! the receiver's host name in UTF-8 after the fourteen bytes of `DiscoveryPacket::Info`, and
//! an acknowledgement carries the request id, little-endian, after the four bytes of
//! `DiscoveryPacket::Ackn`.
use crate::address::{spec_is_loopback, IpAddress, SocketAddress};
use crate::common::{Request, DEFAULT_TCP_PORT, DEFAULT_UDP_PORT};
use crate::device::Device;
use crate::packet::{DiscoveryPacket, INFO_PACKET_LEN};
use rand::rngs::SysRng;
use rand::TryRng;
use vstd::bytes::{
    lemma_auto_spec_u64_to_from_le_bytes, spec_u64_from_le_bytes, spec_u64_to_le_bytes,
    u64_from_le_bytes, u64_to_le_bytes,
};
use vstd::prelude::*;
use vstd::slice::slice_subrange;
use vstd::string::StringSliceAdditionalSpecFns;
use vstd::utf8::{decode_utf8, encode_utf8, valid_utf8};

verus! {

/// Length of an acknowledgement that names its request.
pub const ACKNOWLEDGEMENT_LEN: usize = 12;

/// A payload and where to send it.
pub struct Datagram {
    pub payload: Vec<u8>,
    pub destination: SocketAddress,
}

impl View for Datagram {
    type V = (Seq<u8>, SocketAddress);

    open spec fn view(&self) -> (Seq<u8>, SocketAddress) {
        (self.payload@, self.destination)
    }
}

/// The kinds of socket error that the discovery loops tell apart.
#[derive(Clone, Copy, PartialEq, Eq, Structural, Debug)]
pub enum SocketErrorKind {
    TimedOut,
    WouldBlock,
    Other,
}

/// Whether a socket error only says that no datagram came in time; the loops then try again.
pub fn is_socket_timeout(kind: SocketErrorKind) -> (timeout: bool)
    ensures
        timeout == (kind == SocketErrorKind::TimedOut || kind == SocketErrorKind::WouldBlock),
{
    match kind {
        SocketErrorKind::TimedOut | SocketErrorKind::WouldBlock => true,
        SocketErrorKind::Other => false,
    }
}

// ---------------------------------------------------------------------------------------------
// Broadcasting CONN
/// The broadcast addresses among those of one interface that are worth a `CONN`: present and
/// not loopback, in their order.
pub open spec fn usable_broadcasts(broadcasts: Seq<Option<IpAddress>>) -> Seq<IpAddress>
    decreases broadcasts.len(),
{
    if broadcasts.len() == 0 {
        seq![]
    } else {
        let earlier = usable_broadcasts(broadcasts.drop_last());
        match broadcasts.last() {
            Some(ip) => if spec_is_loopback(ip) {
                earlier
            } else {
                earlier.push(ip)
            },
            None => earlier,
        }
    }
}

/// The usable broadcast addresses of all interfaces, interface after interface.
pub open spec fn all_usable_broadcasts(interfaces: Seq<Seq<Option<IpAddress>>>) -> Seq<IpAddress>
    decreases interfaces.len(),
{
    if interfaces.len() == 0 {
        seq![]
    } else {
        all_usable_broadcasts(interfaces.drop_last()) + usable_broadcasts(interfaces.last())
    }
}

/// Picks the addresses that a sender broadcasts `CONN` to. `interfaces` holds, for each
/// network interface, the broadcast address of each of its addresses (`None` where it has
/// none).
pub fn get_broadcast_addrs(interfaces: &Vec<Vec<Option<IpAddress>>>) -> (addrs: Vec<IpAddress>)
    ensures
        addrs@ == all_usable_broadcasts(interfaces@.map_values(|i: Vec<Option<IpAddress>>| i@)),
        forall|i: int, j: int|
            0 <= i < interfaces.len() && 0 <= j < interfaces[i].len() && (
            #[trigger] interfaces[i]@[j]) is Some && !spec_is_loopback(interfaces[i]@[j]->0)
                ==> addrs@.contains(interfaces[i]@[j]->0),
        forall|k: int|
            0 <= k < addrs.len() ==> !spec_is_loopback(#[trigger] addrs[k]) && exists|i: int, j: int|
                0 <= i < interfaces.len() && 0 <= j < interfaces[i].len() && interfaces[i]@[j]
                    == Some(addrs[k]),
{
    let ghost views = interfaces@.map_values(|i: Vec<Option<IpAddress>>| i@);
    proof {
        lemma_broadcast_addrs_are_complete(views);
        lemma_broadcast_addrs_are_usable(views);
    }
    let mut addrs: Vec<IpAddress> = Vec::new();
    let mut i: usize = 0;
    while i < interfaces.len()
        invariant
            0 <= i <= interfaces.len(),
            views == interfaces@.map_values(|i: Vec<Option<IpAddress>>| i@),
            addrs@ == all_usable_broadcasts(views.take(i as int)),
        decreases interfaces.len() - i,
    {
        let interface = &interfaces[i];
        let ghost before = addrs@;
        let mut j: usize = 0;
        while j < interface.len()
            invariant
                0 <= j <= interface.len(),
                addrs@ == before + usable_broadcasts(interface@.take(j as int)),
            decreases interface.len() - j,
        {
            assert(interface@.take(j + 1).drop_last() == interface@.take(j as int));
            if let Some(ip) = interface[j] {
                if !ip.is_loopback() {
                    addrs.push(ip);
                }
            }
            j = j + 1;
        }
        assert(interface@.take(interface.len() as int) == interface@);
        assert(views.take(i + 1).drop_last() == views.take(i as int));
        i = i + 1;
    }
    assert(views.take(interfaces.len() as int) == views);
    assert forall|i: int, j: int|
        0 <= i < interfaces.len() && 0 <= j < interfaces[i].len() && (
        #[trigger] interfaces[i]@[j]) is Some && !spec_is_loopback(interfaces[i]@[j]->0)
        implies addrs@.contains(interfaces[i]@[j]->0) by {
        assert(views[i] == interfaces[i]@);
        assert(views[i][j] == interfaces[i]@[j]);
    }
    addrs
}

/// The `CONN` datagram for one broadcast address.
pub open spec fn spec_conn_datagram(ip: IpAddress) -> (Seq<u8>, SocketAddress) {
    (DiscoveryPacket::Conn.spec_encode(), SocketAddress { ip, port: DEFAULT_UDP_PORT })
}

/// One round of broadcasting: a `CONN` to the discovery port at each broadcast address.
pub fn broadcast_datagrams(broadcast_addrs: &Vec<IpAddress>) -> (datagrams: Vec<Datagram>)
    ensures
        datagrams.len() == broadcast_addrs.len(),
        forall|k: int|
            0 <= k < datagrams.len() ==> #[trigger] datagrams[k]@ == spec_conn_datagram(
                broadcast_addrs[k],
            ),
{
    let mut datagrams: Vec<Datagram> = Vec::new();
    let mut i: usize = 0;
    while i < broadcast_addrs.len()
        invariant
            0 <= i <= broadcast_addrs.len(),
            datagrams.len() == i,
            forall|k: int|
                0 <= k < i ==> #[trigger] datagrams[k]@ == spec_conn_datagram(broadcast_addrs[k]),
        decreases broadcast_addrs.len() - i,
    {
        let destination = SocketAddress::new(broadcast_addrs[i], DEFAULT_UDP_PORT);
        datagrams.push(Datagram { payload: DiscoveryPacket::Conn.encode(), destination });
        i = i + 1;
    }
    datagrams
}

// ---------------------------------------------------------------------------------------------
// The wire form of the answers
/// The `INFO` answer to a `CONN`: the `INFO` packet, then the host name's bytes.
pub open spec fn spec_info_reply(port: u16, request_id: u64, hostname: Seq<u8>) -> Seq<u8> {
    DiscoveryPacket::Info { port, request_id }.spec_encode() + hostname
}

/// The acknowledgement of request `request_id`: the `ACKN` packet, then the id.
pub open spec fn spec_acknowledgement(request_id: u64) -> Seq<u8> {
    DiscoveryPacket::Ackn.spec_encode() + spec_u64_to_le_bytes(request_id)
}

/// The request that a datagram acknowledges: it decodes to `ACKN` and holds the eight bytes of
/// the id after the identifier.
pub open spec fn spec_acknowledged_request(datagram: Seq<u8>) -> Option<u64> {
    if DiscoveryPacket::spec_decode(datagram) == Some(DiscoveryPacket::Ackn) && datagram.len()
        >= ACKNOWLEDGEMENT_LEN {
        Some(spec_u64_from_le_bytes(datagram.subrange(4, 12)))
    } else {
        None
    }
}

/// Appends `tail` to `bytes`.
fn append_bytes(bytes: &mut Vec<u8>, tail: &[u8])
    ensures
        final(bytes)@ == old(bytes)@ + tail@,
{
    let mut i: usize = 0;
    while i < tail.len()
        invariant
            0 <= i <= tail.len(),
            bytes@ == old(bytes)@ + tail@.take(i as int),
        decreases tail.len() - i,
    {
        bytes.push(tail[i]);
        assert(tail@.take(i + 1) == tail@.take(i as int).push(tail@[i as int]));
        i = i + 1;
    }
    assert(tail@.take(tail.len() as int) == tail@);
}

/// Encodes the `INFO` answer that offers `port` under `request_id`, naming the host.
pub fn encode_info_reply(port: u16, request_id: u64, hostname: &str) -> (bytes: Vec<u8>)
    ensures
        bytes@ == spec_info_reply(port, request_id, hostname.spec_bytes()),
{
    let mut bytes = DiscoveryPacket::Info { port, request_id }.encode();
    append_bytes(&mut bytes, hostname.as_bytes());
    bytes
}

/// Encodes the acknowledgement of `request_id`.
pub fn encode_acknowledgement(request_id: u64) -> (bytes: Vec<u8>)
    ensures
        bytes@ == spec_acknowledgement(request_id),
{
    let mut bytes = DiscoveryPacket::Ackn.encode();
    let id_bytes = u64_to_le_bytes(request_id);
    append_bytes(&mut bytes, id_bytes.as_slice());
    bytes
}

/// The request that `datagram` acknowledges, if it is an acknowledgement that names one.
pub fn decode_acknowledgement(datagram: &[u8]) -> (request_id: Option<u64>)
    ensures
        request_id == spec_acknowledged_request(datagram@),
{
    match DiscoveryPacket::decode(datagram) {
        Some(DiscoveryPacket::Ackn) => {
            if datagram.len() >= ACKNOWLEDGEMENT_LEN {
                Some(u64_from_le_bytes(slice_subrange(datagram, 4, 12)))
            } else {
                None
            }
        },
        _ => None,
    }
}

// ---------------------------------------------------------------------------------------------
// Text from the wire
/// What `String::from_utf8_lossy` makes of `bytes`: the text they encode, each invalid
/// sequence replaced by U+FFFD.
pub uninterp spec fn utf8_lossy(bytes: Seq<u8>) -> Seq<char>;

/// Calls `String::from_utf8_lossy` and takes the text out. Its result is named `utf8_lossy`;
/// for valid UTF-8 the documentation says the text is the one the bytes encode, which is the
/// one fact stated beside the name.
#[verifier::external_body]
fn text_from_utf8_lossy(bytes: &[u8]) -> (text: String)
    ensures
        text@ == utf8_lossy(bytes@),
        valid_utf8(bytes@) ==> text@ == decode_utf8(bytes@),
{
    String::from_utf8_lossy(bytes).into_owned()
}

// ---------------------------------------------------------------------------------------------
// Sender: answering INFO
/// What a sender does with an `INFO` answer: record the device and acknowledge the request.
pub struct InfoReceived {
    pub request_id: u64,
    pub device: Device,
    pub acknowledgement: Datagram,
}

/// The host name that an `INFO` answer carries: the bytes after the packet.
pub open spec fn info_hostname(datagram: Seq<u8>) -> Seq<u8> {
    datagram.skip(INFO_PACKET_LEN as int)
}

/// A sender's decision on a datagram from `from`: an `INFO` answer yields the device found
/// (named by the host name the answer carries, at `from`'s address, offering the answer's
/// port) and the acknowledgement to send back to `from`; anything else is ignored.
pub fn on_info_datagram(datagram: &[u8], from: SocketAddress) -> (received: Option<InfoReceived>)
    ensures
        match DiscoveryPacket::spec_decode(datagram@) {
            Some(DiscoveryPacket::Info { port, request_id }) => {
                &&& received is Some
                &&& received->0.request_id == request_id
                &&& received->0.device.name@ == utf8_lossy(info_hostname(datagram@))
                &&& valid_utf8(info_hostname(datagram@)) ==> received->0.device.name@
                    == decode_utf8(info_hostname(datagram@))
                &&& received->0.device.ip_address == from.ip
                &&& received->0.device.port == port
                &&& received->0.acknowledgement@ == (spec_acknowledgement(request_id), from)
            },
            _ => received is None,
        },
{
    match DiscoveryPacket::decode(datagram) {
        Some(DiscoveryPacket::Info { port, request_id }) => {
            let hostname = text_from_utf8_lossy(
                slice_subrange(datagram, INFO_PACKET_LEN, datagram.len()),
            );
            assert(datagram@.subrange(INFO_PACKET_LEN as int, datagram@.len() as int)
                == info_hostname(datagram@));
            let device = Device::new(hostname, from.ip, port);
            let acknowledgement = Datagram {
                payload: encode_acknowledgement(request_id),
                destination: from,
            };
            Some(InfoReceived { request_id, device, acknowledgement })
        },
        _ => None,
    }
}

// ---------------------------------------------------------------------------------------------
// Receiver: answering CONN and ACKN
/// What a receiver makes of a datagram from a sender.
#[derive(Clone, Copy, PartialEq, Eq, Structural, Debug)]
pub enum SenderReply {
    /// Nothing: the datagram is no `CONN` and no acknowledgement that names a request.
    Ignore,
    /// A `CONN`: the sender waits for an offer.
    OfferRequested,
    /// The request with this id has been acknowledged.
    Acknowledged(u64),
}

/// What a receiver makes of `datagram`.
pub open spec fn spec_sender_reply(datagram: Seq<u8>) -> SenderReply {
    if DiscoveryPacket::spec_decode(datagram) == Some(DiscoveryPacket::Conn) {
        SenderReply::OfferRequested
    } else {
        match spec_acknowledged_request(datagram) {
            Some(id) => SenderReply::Acknowledged(id),
            None => SenderReply::Ignore,
        }
    }
}

/// A receiver decides on a datagram from a sender: a `CONN` asks for an offer (see
/// [`offer_to`]), an acknowledgement that names a request ends it, anything else is ignored.
pub fn on_sender_datagram(datagram: &[u8]) -> (reply: SenderReply)
    ensures
        reply == spec_sender_reply(datagram@),
{
    match DiscoveryPacket::decode(datagram) {
        Some(DiscoveryPacket::Conn) => SenderReply::OfferRequested,
        _ => {
            match decode_acknowledgement(datagram) {
                Some(request_id) => SenderReply::Acknowledged(request_id),
                None => SenderReply::Ignore,
            }
        },
    }
}

/// The offer of a receiver named `hostname` to the sender at `from`, under `request_id`.
pub open spec fn spec_offer(from: SocketAddress, hostname: Seq<u8>, request_id: u64) -> (
    (Seq<u8>, SocketAddress),
    Request,
) {
    (
        (spec_info_reply(DEFAULT_TCP_PORT, request_id, hostname), from),
        Request { request_id, port: DEFAULT_TCP_PORT, socket_address: from },
    )
}

/// Builds the offer: the `INFO` answer with the transfer port and host name, sent back to
/// `from`, and the request that stays pending until `from` acknowledges it.
pub fn make_offer(from: SocketAddress, hostname: &str, request_id: u64) -> (offer: (
    Datagram,
    Request,
))
    ensures
        (offer.0@, offer.1) == spec_offer(from, hostname.spec_bytes(), request_id),
        offer.0.payload@.len() == INFO_PACKET_LEN + hostname.spec_bytes().len(),
        info_hostname(offer.0.payload@) == hostname.spec_bytes(),
        DiscoveryPacket::spec_decode(offer.0.payload@) == Some(
            DiscoveryPacket::Info { port: DEFAULT_TCP_PORT, request_id },
        ),
        offer.0.destination == from,
        offer.1.request_id == request_id,
        offer.1.port == DEFAULT_TCP_PORT,
        offer.1.socket_address == from,
{
    proof {
        lemma_offer_carries_host_name(from, hostname.spec_bytes(), request_id);
    }
    let port = DEFAULT_TCP_PORT;
    let reply = Datagram {
        payload: encode_info_reply(port, request_id, hostname),
        destination: from,
    };
    (reply, Request::new(request_id, port, from))
}

/// Draws the id of a new request from the operating system's random source: calls
/// `try_next_u64` of `rand::rngs::SysRng`, which returns an error when the source fails.
/// `None` stands for that error; of a drawn value nothing is stated: it is chance.
#[verifier::external_body]
fn random_request_id() -> Option<u64> {
    SysRng.try_next_u64().ok()
}

/// The offer of a receiver named `hostname` to the sender at `from`, under a freshly drawn
/// request id. `None` when no id could be drawn: the `CONN` then goes unanswered, and the
/// sender broadcasts again.
pub fn offer_to(from: SocketAddress, hostname: &str) -> (offer: Option<(Datagram, Request)>)
    ensures
        offer matches Some((reply, request)) ==> (reply@, request) == spec_offer(
            from,
            hostname.spec_bytes(),
            request.request_id,
        ),
{
    match random_request_id() {
        Some(request_id) => Some(make_offer(from, hostname, request_id)),
        None => None,
    }
}

// ---------------------------------------------------------------------------------------------
// After a send or a receive
/// What a discovery loop does after a socket operation.
#[derive(Clone, Copy, PartialEq, Eq, Structural, Debug)]
pub enum LoopAction {
    /// It succeeded: go on with what it was for.
    Proceed,
    /// Nothing came or went in time: try again with the next datagram.
    Retry,
    /// Any other error: the loop ends with that error.
    Stop,
}

/// The loop's next step after a socket operation that succeeded (`Ok`) or failed with an error
/// of the given kind.
pub fn after_socket_operation(outcome: Result<(), SocketErrorKind>) -> (action: LoopAction)
    ensures
        action == match outcome {
            Ok(()) => LoopAction::Proceed,
            Err(kind) => if kind == SocketErrorKind::TimedOut || kind
                == SocketErrorKind::WouldBlock {
                LoopAction::Retry
            } else {
                LoopAction::Stop
            },
        },
{
    match outcome {
        Ok(()) => LoopAction::Proceed,
        Err(kind) => if is_socket_timeout(kind) {
            LoopAction::Retry
        } else {
            LoopAction::Stop
        },
    }
}

// ---------------------------------------------------------------------------------------------
// Laws of the handshake
/// An offer made under `request_id` with the transfer port, when the sender takes it in,
/// decodes to that request and port, and carries the receiver's host name intact.
pub proof fn lemma_offer_is_understood(request_id: u64, hostname: Seq<char>)
    ensures
        ({
            let offer = spec_info_reply(DEFAULT_TCP_PORT, request_id, encode_utf8(hostname));
            &&& DiscoveryPacket::spec_decode(offer) == Some(
                DiscoveryPacket::Info { port: DEFAULT_TCP_PORT, request_id },
            )
            &&& valid_utf8(info_hostname(offer))
            &&& decode_utf8(info_hostname(offer)) == hostname
        }),
{
    let packet = DiscoveryPacket::Info { port: DEFAULT_TCP_PORT, request_id };
    let name = encode_utf8(hostname);
    let offer = spec_info_reply(DEFAULT_TCP_PORT, request_id, name);
    crate::packet::lemma_decode_encode(packet);
    crate::packet::lemma_encoded_length(packet);
    crate::packet::lemma_decode_ignores_trailing_bytes(packet.spec_encode(), name);
    assert(info_hostname(offer) =~= name);
    vstd::utf8::encode_utf8_valid_utf8(hostname);
    vstd::utf8::encode_utf8_decode_utf8(hostname);
}

/// The acknowledgement a sender sends for a request names that request to the receiver.
pub proof fn lemma_acknowledgement_is_understood(request_id: u64)
    ensures
        spec_acknowledged_request(spec_acknowledgement(request_id)) == Some(request_id),
        spec_sender_reply(spec_acknowledgement(request_id)) == SenderReply::Acknowledged(
            request_id,
        ),
{
    lemma_auto_spec_u64_to_from_le_bytes();
    let ackn = DiscoveryPacket::Ackn.spec_encode();
    let id_bytes = spec_u64_to_le_bytes(request_id);
    crate::packet::lemma_decode_encode(DiscoveryPacket::Ackn);
    crate::packet::lemma_decode_ignores_trailing_bytes(ackn, id_bytes);
    assert((ackn + id_bytes).subrange(4, 12) =~= id_bytes);
}

/// Every address picked for broadcasting is a broadcast address of some interface, and none is
/// loopback.
pub proof fn lemma_broadcast_addrs_are_usable(interfaces: Seq<Seq<Option<IpAddress>>>)
    ensures
        forall|k: int|
            0 <= k < all_usable_broadcasts(interfaces).len() ==> {
                let ip = #[trigger] all_usable_broadcasts(interfaces)[k];
                &&& !spec_is_loopback(ip)
                &&& exists|i: int, j: int|
                    0 <= i < interfaces.len() && 0 <= j < interfaces[i].len() && interfaces[i][j]
                        == Some(ip)
            },
    decreases interfaces.len(),
{
    if interfaces.len() > 0 {
        let earlier = interfaces.drop_last();
        lemma_broadcast_addrs_are_usable(earlier);
        let last = interfaces.len() - 1;
        lemma_usable_broadcasts_of_one(interfaces.last());
        let all = all_usable_broadcasts(interfaces);
        let prefix = all_usable_broadcasts(earlier);
        assert forall|k: int| 0 <= k < all.len() implies {
            let ip = #[trigger] all[k];
            &&& !spec_is_loopback(ip)
            &&& exists|i: int, j: int|
                0 <= i < interfaces.len() && 0 <= j < interfaces[i].len() && interfaces[i][j]
                    == Some(ip)
        } by {
            if k < prefix.len() {
                assert(all[k] == prefix[k]);
                let (i, j) = choose|i: int, j: int|
                    0 <= i < earlier.len() && 0 <= j < earlier[i].len() && earlier[i][j] == Some(
                        prefix[k],
                    );
                assert(interfaces[i] == earlier[i]);
            } else {
                let ip = all[k];
                assert(ip == usable_broadcasts(interfaces.last())[k - prefix.len()]);
                let j = choose|j: int|
                    0 <= j < interfaces.last().len() && interfaces.last()[j] == Some(ip);
                assert(interfaces[last][j] == Some(ip));
            }
        }
    }
}

/// The addresses picked from one interface come from it and are not loopback.
proof fn lemma_usable_broadcasts_of_one(broadcasts: Seq<Option<IpAddress>>)
    ensures
        forall|k: int|
            0 <= k < usable_broadcasts(broadcasts).len() ==> {
                let ip = #[trigger] usable_broadcasts(broadcasts)[k];
                &&& !spec_is_loopback(ip)
                &&& exists|j: int| 0 <= j < broadcasts.len() && broadcasts[j] == Some(ip)
            },
    decreases broadcasts.len(),
{
    if broadcasts.len() > 0 {
        let earlier = broadcasts.drop_last();
        lemma_usable_broadcasts_of_one(earlier);
        let all = usable_broadcasts(broadcasts);
        let prefix = usable_broadcasts(earlier);
        assert forall|k: int| 0 <= k < all.len() implies {
            let ip = #[trigger] all[k];
            &&& !spec_is_loopback(ip)
            &&& exists|j: int| 0 <= j < broadcasts.len() && broadcasts[j] == Some(ip)
        } by {
            if k < prefix.len() {
                assert(all[k] == prefix[k]);
                let j = choose|j: int| 0 <= j < earlier.len() && earlier[j] == Some(prefix[k]);
                assert(broadcasts[j] == earlier[j]);
            } else {
                assert(broadcasts[broadcasts.len() - 1] == Some(all[k]));
            }
        }
    }
}

/// A retransmission of a pending offer, by the same receiver, repeats the offer exactly.
pub proof fn lemma_retransmission_repeats_offer(
    from: SocketAddress,
    hostname: Seq<u8>,
    request_id: u64,
)
    ensures
        ({
            let (reply, request) = spec_offer(from, hostname, request_id);
            crate::app::spec_retransmission(request, hostname) == reply
        }),
{
}

/// An `INFO` answer is the `INFO` packet for `port` and `request_id`, followed by the whole
/// host name: the packet decodes to that port and id, and what follows it is the host name.
pub proof fn lemma_info_reply_carries_host_name(port: u16, request_id: u64, hostname: Seq<u8>)
    ensures
        spec_info_reply(port, request_id, hostname).len() == INFO_PACKET_LEN + hostname.len(),
        info_hostname(spec_info_reply(port, request_id, hostname)) == hostname,
        DiscoveryPacket::spec_decode(spec_info_reply(port, request_id, hostname)) == Some(
            DiscoveryPacket::Info { port, request_id },
        ),
{
    let packet = DiscoveryPacket::Info { port, request_id };
    crate::packet::lemma_encoded_length(packet);
    crate::packet::lemma_decode_encode(packet);
    crate::packet::lemma_decode_ignores_trailing_bytes(packet.spec_encode(), hostname);
    assert(info_hostname(spec_info_reply(port, request_id, hostname)) =~= hostname);
}

/// A receiver's offer goes back to the sender that asked, offers the transfer port under the
/// given request id, and names the receiver by its whole host name; the pending request it
/// keeps holds that id, port and sender.
pub proof fn lemma_offer_carries_host_name(from: SocketAddress, hostname: Seq<u8>, request_id: u64)
    ensures
        ({
            let (reply, request) = spec_offer(from, hostname, request_id);
            &&& reply.0.len() == INFO_PACKET_LEN + hostname.len()
            &&& info_hostname(reply.0) == hostname
            &&& DiscoveryPacket::spec_decode(reply.0) == Some(
                DiscoveryPacket::Info { port: DEFAULT_TCP_PORT, request_id },
            )
            &&& reply.1 == from
            &&& request.request_id == request_id
            &&& request.port == DEFAULT_TCP_PORT
            &&& request.socket_address == from
        }),
{
    lemma_info_reply_carries_host_name(DEFAULT_TCP_PORT, request_id, hostname);
}

/// A retransmission of a pending request goes to the request's sender and repeats its port and
/// id, followed by the whole host name of the receiver.
pub proof fn lemma_retransmission_carries_host_name(request: Request, hostname: Seq<u8>)
    ensures
        ({
            let repeat = crate::app::spec_retransmission(request, hostname);
            &&& repeat.0.len() == INFO_PACKET_LEN + hostname.len()
            &&& info_hostname(repeat.0) == hostname
            &&& DiscoveryPacket::spec_decode(repeat.0) == Some(
                DiscoveryPacket::Info { port: request.port, request_id: request.request_id },
            )
            &&& repeat.1 == request.socket_address
        }),
{
    lemma_info_reply_carries_host_name(request.port, request.request_id, hostname);
}

/// Every present, non-loopback broadcast address of every interface is picked.
pub proof fn lemma_broadcast_addrs_are_complete(interfaces: Seq<Seq<Option<IpAddress>>>)
    ensures
        forall|i: int, j: int|
            0 <= i < interfaces.len() && 0 <= j < interfaces[i].len() && (
            #[trigger] interfaces[i][j]) is Some && !spec_is_loopback(interfaces[i][j]->0)
                ==> all_usable_broadcasts(interfaces).contains(interfaces[i][j]->0),
    decreases interfaces.len(),
{
    if interfaces.len() > 0 {
        let earlier = interfaces.drop_last();
        let last = interfaces.len() - 1;
        lemma_broadcast_addrs_are_complete(earlier);
        lemma_usable_broadcasts_complete(interfaces.last());
        let all = all_usable_broadcasts(interfaces);
        let prefix = all_usable_broadcasts(earlier);
        let tail = usable_broadcasts(interfaces.last());
        assert forall|i: int, j: int|
            0 <= i < interfaces.len() && 0 <= j < interfaces[i].len() && (
            #[trigger] interfaces[i][j]) is Some && !spec_is_loopback(interfaces[i][j]->0)
            implies all.contains(interfaces[i][j]->0) by {
            let ip = interfaces[i][j]->0;
            if i < last {
                assert(earlier[i][j] == interfaces[i][j]);
                let k = choose|k: int| 0 <= k < prefix.len() && prefix[k] == ip;
                assert(all[k] == ip);
            } else {
                assert(interfaces.last()[j] == interfaces[i][j]);
                let k = choose|k: int| 0 <= k < tail.len() && tail[k] == ip;
                assert(all[prefix.len() + k] == ip);
            }
        }
    }
}

/// Every present, non-loopback broadcast address of one interface is picked from it.
proof fn lemma_usable_broadcasts_complete(broadcasts: Seq<Option<IpAddress>>)
    ensures
        forall|j: int|
            0 <= j < broadcasts.len() && (#[trigger] broadcasts[j]) is Some && !spec_is_loopback(
                broadcasts[j]->0,
            ) ==> usable_broadcasts(broadcasts).contains(broadcasts[j]->0),
    decreases broadcasts.len(),
{
    if broadcasts.len() > 0 {
        let earlier = broadcasts.drop_last();
        lemma_usable_broadcasts_complete(earlier);
        let all = usable_broadcasts(broadcasts);
        let prefix = usable_broadcasts(earlier);
        assert forall|j: int|
            0 <= j < broadcasts.len() && (#[trigger] broadcasts[j]) is Some && !spec_is_loopback(
                broadcasts[j]->0,
            ) implies all.contains(broadcasts[j]->0) by {
            let ip = broadcasts[j]->0;
            if j < broadcasts.len() - 1 {
                assert(earlier[j] == broadcasts[j]);
                let k = choose|k: int| 0 <= k < prefix.len() && prefix[k] == ip;
                assert(all[k] == ip);
            } else {
                assert(all[prefix.len() as int] == ip);
            }
        }
    }
}

/// The picked addresses keep the order of the interfaces and of their addresses: picking from
/// one more interface appends what that interface offers, and picking from none gives nothing.
pub proof fn lemma_broadcast_addrs_in_order(
    interfaces: Seq<Seq<Option<IpAddress>>>,
    next: Seq<Option<IpAddress>>,
    broadcasts: Seq<Option<IpAddress>>,
    address: Option<IpAddress>,
)
    ensures
        all_usable_broadcasts(seq![]) == Seq::<IpAddress>::empty(),
        all_usable_broadcasts(interfaces.push(next)) == all_usable_broadcasts(interfaces)
            + usable_broadcasts(next),
        usable_broadcasts(seq![]) == Seq::<IpAddress>::empty(),
        usable_broadcasts(broadcasts.push(address)) == (match address {
            Some(ip) => if spec_is_loopback(ip) {
                usable_broadcasts(broadcasts)
            } else {
                usable_broadcasts(broadcasts).push(ip)
            },
            None => usable_broadcasts(broadcasts),
        }),
{
    assert(interfaces.push(next).drop_last() == interfaces);
    assert(broadcasts.push(address).drop_last() == broadcasts);
}

} // verus!
