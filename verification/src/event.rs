//! What the workers report, and how the state takes it in.
use crate::app::{retransmits_each, AppState};
use crate::common::{RegistryId, Request};
use crate::device::Device;
use crate::protocol::Datagram;
use vstd::prelude::*;
use vstd::utf8::encode_utf8;

verus! {

/// An event that changes the state or asks for datagrams to be sent.
pub enum Events {
    /// A key was pressed.
    Key,
    /// A sender found a receiver through the request `request_id`.
    DeviceFound { request_id: RegistryId, device: Device },
    /// The device found through `request_id` is gone.
    DeviceLost(RegistryId),
    /// A receiver made an offer that now waits for its acknowledgement.
    AddRequest { request_id: RegistryId, request: Request },
    /// The offer `request_id` was acknowledged.
    RemoveRequest(RegistryId),
    /// Time to repeat the offers that wait for an acknowledgement, naming the receiver's host.
    RetransmitPendingPackets { hostname: String },
}

/// Handles a key press. Keys have no effect yet: the state stays as it is.
pub fn process_key_events(state: &mut AppState)
    ensures
        *final(state) == *old(state),
{
}

/// Takes `event` into `state` and returns the datagrams it asks to send: for a retransmission,
/// the `INFO` answer of every pending request to its sender; for the other events, none.
pub fn process_event(state: &mut AppState, event: Events) -> (outgoing: Vec<Datagram>)
    ensures
        match event {
            Events::Key => *final(state) == *old(state) && outgoing.len() == 0,
            Events::DeviceFound { request_id, device } => {
                &&& final(state).device_registry@ == old(state).device_registry@.insert(
                    request_id,
                    device,
                )
                &&& final(state).request_registry == old(state).request_registry
                &&& final(state).is_running == old(state).is_running
                &&& outgoing.len() == 0
            },
            Events::DeviceLost(request_id) => {
                &&& final(state).device_registry@ == old(state).device_registry@.remove(request_id)
                &&& final(state).request_registry == old(state).request_registry
                &&& final(state).is_running == old(state).is_running
                &&& outgoing.len() == 0
            },
            Events::AddRequest { request_id, request } => {
                &&& final(state).request_registry@ == old(state).request_registry@.insert(
                    request_id,
                    request,
                )
                &&& final(state).device_registry == old(state).device_registry
                &&& final(state).is_running == old(state).is_running
                &&& outgoing.len() == 0
            },
            Events::RemoveRequest(request_id) => {
                &&& final(state).request_registry@ == old(state).request_registry@.remove(
                    request_id,
                )
                &&& final(state).device_registry == old(state).device_registry
                &&& final(state).is_running == old(state).is_running
                &&& outgoing.len() == 0
            },
            Events::RetransmitPendingPackets { hostname } => {
                &&& *final(state) == *old(state)
                &&& retransmits_each(
                    outgoing@.map_values(|d: Datagram| d@),
                    old(state).request_registry@,
                    encode_utf8(hostname@),
                )
            },
        },
{
    match event {
        Events::Key => {
            process_key_events(state);
            Vec::new()
        },
        Events::DeviceFound { request_id, device } => {
            state.add_device(request_id, device);
            Vec::new()
        },
        Events::DeviceLost(request_id) => {
            state.remove_device(request_id);
            Vec::new()
        },
        Events::AddRequest { request_id, request } => {
            state.add_request(request_id, request);
            Vec::new()
        },
        Events::RemoveRequest(request_id) => {
            state.remove_request(request_id);
            Vec::new()
        },
        Events::RetransmitPendingPackets { hostname } => {
            state.pending_retransmissions(hostname.as_str())
        },
    }
}

} // verus!
