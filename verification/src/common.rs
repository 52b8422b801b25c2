//! Shared constants and the pending-request record.
use crate::address::SocketAddress;
use vstd::prelude::*;

verus! {

/// Key of the entries of a registry.
pub type RegistryId = u64;

/// UDP port of the discovery handshake.
pub const DEFAULT_UDP_PORT: u16 = 11665;

/// TCP port that a receiver offers for transfers.
pub const DEFAULT_TCP_PORT: u16 = 11666;

/// Address that the discovery socket binds to.
pub const DEFAULT_UDP_IP: &'static str = "0.0.0.0";

/// Seconds between two retransmissions of the pending `INFO` packets.
pub const DEFAULT_RETRANSMIT_PERIOD: u64 = 5;

/// Command-line word that selects send mode.
pub const SEND_MODE_IDENTIFIER: &'static str = "send";

/// Command-line word that selects receive mode.
pub const RECEIVE_MODE_IDENTIFIER: &'static str = "receive";

/// A receiver's offer that has not been acknowledged yet.
#[derive(Clone, Copy, PartialEq, Eq, Structural, Debug)]
pub struct Request {
    pub request_id: RegistryId,
    pub port: u16,
    pub socket_address: SocketAddress,
}

impl Request {
    pub fn new(request_id: RegistryId, port: u16, socket_address: SocketAddress) -> (request:
        Request)
        ensures
            request.request_id == request_id,
            request.port == port,
            request.socket_address == socket_address,
    {
        Request { request_id, port, socket_address }
    }
}

} // verus!
