use netbeam::address::{IpAddress, SocketAddress};
use netbeam::app::{AppState, Mode};
use netbeam::common::Request;
use netbeam::device::Device;
use netbeam::event::{process_event, process_key_events, Events};
use netbeam::packet::DiscoveryPacket;
use netbeam::registry::Registry;
use netbeam::thread::ShutdownSignal;

fn args(words: &[&str]) -> Vec<String> {
    words.iter().map(|w| w.to_string()).collect()
}

fn addr(last: u8, port: u16) -> SocketAddress {
    SocketAddress::new(IpAddress::V4(u32::from_be_bytes([10, 0, 0, last])), port)
}

#[test]
fn mode_from_command_line() {
    assert_eq!(Mode::from_cmd_args(&args(&["netbeam", "send"])), Some(Mode::Send));
    assert_eq!(Mode::from_cmd_args(&args(&["netbeam", "receive"])), Some(Mode::Receive));
    assert_eq!(Mode::from_cmd_args(&args(&["netbeam"])), None);
    assert_eq!(Mode::from_cmd_args(&args(&["netbeam", "send", "file"])), None);
    assert_eq!(Mode::from_cmd_args(&args(&["netbeam", "Send"])), None);
    assert_eq!(Mode::from_cmd_args(&args(&[])), None);
}

#[test]
fn registry_add_replace_remove() {
    let mut registry: Registry<u32> = Registry::new();
    assert!(registry.0.is_empty());
    registry.add_entity(1, 10);
    registry.add_entity(2, 20);
    registry.add_entity(1, 11);
    assert_eq!(registry.0.len(), 2);
    assert_eq!(registry.0.get(&1), Some(&11));
    registry.remove_entity(1);
    registry.remove_entity(3);
    assert_eq!(registry.0.get(&1), None);
    assert_eq!(registry.0.get(&2), Some(&20));
}

#[test]
fn state_devices_and_requests() {
    let mut state = AppState::new();
    assert!(state.is_running);
    state.add_device(4, Device::new("a".to_string(), addr(4, 1).ip, 11666));
    state.add_request(9, Request::new(9, 11666, addr(5, 11665)));
    assert_eq!(state.device_registry.0.len(), 1);
    assert_eq!(state.request_registry.0.len(), 1);
    state.remove_device(4);
    state.remove_request(9);
    assert!(state.device_registry.0.is_empty());
    assert!(state.request_registry.0.is_empty());
    state.shutdown_app();
    assert!(!state.is_running);
}

#[test]
fn events_update_state() {
    let mut state = AppState::new();
    let out = process_event(
        &mut state,
        Events::DeviceFound { request_id: 3, device: Device::new("b".to_string(), addr(3, 0).ip, 11666) },
    );
    assert!(out.is_empty());
    assert_eq!(state.device_registry.0.get(&3).map(|d| d.name.clone()), Some("b".to_string()));
    process_event(&mut state, Events::AddRequest { request_id: 8, request: Request::new(8, 11666, addr(8, 11665)) });
    assert!(state.request_registry.0.contains_key(&8));
    process_event(&mut state, Events::RemoveRequest(8));
    assert!(state.request_registry.0.is_empty());
    process_event(&mut state, Events::DeviceLost(3));
    assert!(state.device_registry.0.is_empty());
    process_key_events(&mut state);
    assert!(process_event(&mut state, Events::Key).is_empty());
    assert!(state.is_running);
}

#[test]
fn retransmission_repeats_each_pending_request() {
    let mut state = AppState::new();
    let first = Request::new(1, 11666, addr(1, 11665));
    let second = Request::new(2, 11666, addr(2, 11665));
    process_event(&mut state, Events::AddRequest { request_id: 1, request: first });
    process_event(&mut state, Events::AddRequest { request_id: 2, request: second });
    let mut out = process_event(
        &mut state,
        Events::RetransmitPendingPackets { hostname: "desk".to_string() },
    );
    assert_eq!(out.len(), 2);
    out.sort_by_key(|d| d.payload.clone());
    let mut first_info = DiscoveryPacket::Info { port: 11666, request_id: 1 }.encode();
    first_info.extend_from_slice(b"desk");
    let mut second_info = DiscoveryPacket::Info { port: 11666, request_id: 2 }.encode();
    second_info.extend_from_slice(b"desk");
    assert_eq!(out[0].payload, first_info);
    assert_eq!(out[0].destination, addr(1, 11665));
    assert_eq!(out[1].payload, second_info);
    assert_eq!(out[1].destination, addr(2, 11665));
    process_event(&mut state, Events::RemoveRequest(1));
    let out = process_event(
        &mut state,
        Events::RetransmitPendingPackets { hostname: "desk".to_string() },
    );
    assert_eq!(out.len(), 1);
    assert_eq!(out[0].destination, addr(2, 11665));
    assert_eq!(state.request_registry.0.len(), 1);
}

#[test]
fn shutdown_signal_is_shared() {
    let signal = ShutdownSignal::new();
    let clone = signal.clone();
    assert!(!signal.is_shutdown());
    clone.shutdown();
    assert!(signal.is_shutdown());
    assert!(clone.is_shutdown());
}

#[test]
fn retransmission_repeats_the_offer_with_host_name() {
    let sender = addr(20, 11665);
    let (offer, request) = netbeam::protocol::make_offer(sender, "laptop", 31);
    let mut state = AppState::new();
    process_event(&mut state, Events::AddRequest { request_id: request.request_id, request });
    let out = process_event(
        &mut state,
        Events::RetransmitPendingPackets { hostname: "laptop".to_string() },
    );
    assert_eq!(out.len(), 1);
    assert_eq!(out[0].payload, offer.payload);
    assert_eq!(out[0].destination, offer.destination);
    let received = netbeam::protocol::on_info_datagram(&out[0].payload, addr(30, 11665))
        .expect("the retransmission is understood");
    assert_eq!(received.device.name, "laptop");
    assert_eq!(received.request_id, 31);
}
