//! The mode the program runs in and the state it keeps.
use crate::common::{RegistryId, Request, RECEIVE_MODE_IDENTIFIER, SEND_MODE_IDENTIFIER};
use crate::device::Device;
use crate::protocol::{encode_info_reply, spec_info_reply, Datagram};
use crate::registry::Registry;
use crate::address::SocketAddress;
use vstd::prelude::*;
use vstd::std_specs::iter::IteratorSpec;
use vstd::string::StringSliceAdditionalSpecFns;

verus! {

broadcast use vstd::std_specs::hash::group_hash_axioms;

/// Which side of the handshake the program plays.
#[derive(Clone, Copy, PartialEq, Eq, Structural, Debug)]
pub enum Mode {
    /// Look for receivers.
    Send,
    /// Answer senders.
    Receive,
}

/// The mode that the command line asks for: exactly one argument after the program's name,
/// `send` or `receive`.
pub open spec fn spec_mode_of(args: Seq<Seq<char>>) -> Option<Mode> {
    if args.len() != 2 {
        None
    } else if args[1] == SEND_MODE_IDENTIFIER@ {
        Some(Mode::Send)
    } else if args[1] == RECEIVE_MODE_IDENTIFIER@ {
        Some(Mode::Receive)
    } else {
        None
    }
}

/// The command line selects a mode only with exactly one word after the program's name:
/// `send` selects sending, `receive` receiving, and nothing else selects a mode.
pub proof fn lemma_mode_needs_exactly_one_word(args: Seq<Seq<char>>)
    ensures
        spec_mode_of(args) is Some ==> args.len() == 2,
        spec_mode_of(args) == Some(Mode::Send) <==> args.len() == 2 && args[1]
            == SEND_MODE_IDENTIFIER@,
        spec_mode_of(args) == Some(Mode::Receive) <==> args.len() == 2 && args[1]
            == RECEIVE_MODE_IDENTIFIER@,
{
    reveal_strlit("send");
    reveal_strlit("receive");
    assert(SEND_MODE_IDENTIFIER@.len() != RECEIVE_MODE_IDENTIFIER@.len());
}

impl Mode {
    /// Reads the mode from the command line `args`, the program's name first. `None` when the
    /// arguments are not valid.
    pub fn from_cmd_args(args: &Vec<String>) -> (mode: Option<Mode>)
        ensures
            mode == spec_mode_of(args@.map_values(|a: String| a@)),
            mode is Some ==> args.len() == 2,
            mode == Some(Mode::Send) <==> args.len() == 2 && args[1]@ == SEND_MODE_IDENTIFIER@,
            mode == Some(Mode::Receive) <==> args.len() == 2 && args[1]@
                == RECEIVE_MODE_IDENTIFIER@,
    {
        proof {
            lemma_mode_needs_exactly_one_word(args@.map_values(|a: String| a@));
        }
        broadcast use vstd::string::to_string_from_display_ensures_for_str;

        let ghost words = args@.map_values(|a: String| a@);
        if args.len() != 2 {
            return None;
        }
        let send = SEND_MODE_IDENTIFIER.to_string();
        let receive = RECEIVE_MODE_IDENTIFIER.to_string();
        assert(words[1] == args[1]@);
        if args[1] == send {
            Some(Mode::Send)
        } else if args[1] == receive {
            Some(Mode::Receive)
        } else {
            None
        }
    }
}

/// What the program keeps while it runs: whether it still runs, the devices it found and the
/// requests it waits to see acknowledged, each keyed by request id.
pub struct AppState {
    pub is_running: bool,
    pub device_registry: Registry<Device>,
    pub request_registry: Registry<Request>,
}

/// The `INFO` answer that repeats a pending request to its sender, naming the receiver's host.
pub open spec fn spec_retransmission(request: Request, hostname: Seq<u8>) -> (
    Seq<u8>,
    SocketAddress,
) {
    (spec_info_reply(request.port, request.request_id, hostname), request.socket_address)
}

/// `datagrams` repeats each request of `requests` once, in some order, naming the receiver's
/// host `hostname`.
pub open spec fn retransmits_each(
    datagrams: Seq<(Seq<u8>, SocketAddress)>,
    requests: Map<RegistryId, Request>,
    hostname: Seq<u8>,
) -> bool {
    exists|keys: Seq<RegistryId>|
        {
            &&& keys.len() == datagrams.len()
            &&& keys.no_duplicates()
            &&& keys.to_set() == requests.dom()
            &&& forall|i: int|
                0 <= i < keys.len() ==> #[trigger] datagrams[i] == spec_retransmission(
                    requests[keys[i]],
                    hostname,
                )
        }
}

impl AppState {
    /// A running state with no devices and no requests.
    pub fn new() -> (state: AppState)
        ensures
            state.is_running,
            state.device_registry@ == Map::<RegistryId, Device>::empty(),
            state.request_registry@ == Map::<RegistryId, Request>::empty(),
    {
        AppState { is_running: true, device_registry: Registry::new(), request_registry: Registry::new() }
    }

    /// Records `device` as found under `request_id`.
    pub fn add_device(&mut self, request_id: RegistryId, device: Device)
        ensures
            final(self).device_registry@ == old(self).device_registry@.insert(request_id, device),
            final(self).request_registry == old(self).request_registry,
            final(self).is_running == old(self).is_running,
    {
        self.device_registry.add_entity(request_id, device);
    }

    /// Forgets the device found under `request_id`.
    pub fn remove_device(&mut self, request_id: RegistryId)
        ensures
            final(self).device_registry@ == old(self).device_registry@.remove(request_id),
            final(self).request_registry == old(self).request_registry,
            final(self).is_running == old(self).is_running,
    {
        self.device_registry.remove_entity(request_id);
    }

    /// Keeps `request` pending under `request_id`.
    pub fn add_request(&mut self, request_id: RegistryId, request: Request)
        ensures
            final(self).request_registry@ == old(self).request_registry@.insert(
                request_id,
                request,
            ),
            final(self).device_registry == old(self).device_registry,
            final(self).is_running == old(self).is_running,
    {
        self.request_registry.add_entity(request_id, request);
    }

    /// Ends the request pending under `request_id`.
    pub fn remove_request(&mut self, request_id: RegistryId)
        ensures
            final(self).request_registry@ == old(self).request_registry@.remove(request_id),
            final(self).device_registry == old(self).device_registry,
            final(self).is_running == old(self).is_running,
    {
        self.request_registry.remove_entity(request_id);
    }

    /// Marks the program as stopping.
    pub fn shutdown_app(&mut self)
        ensures
            !final(self).is_running,
            final(self).device_registry == old(self).device_registry,
            final(self).request_registry == old(self).request_registry,
    {
        self.is_running = false;
    }

    /// The `INFO` answers that repeat every pending request to its sender, one per request,
    /// each naming the receiver's host `hostname`.
    pub fn pending_retransmissions(&self, hostname: &str) -> (datagrams: Vec<Datagram>)
        ensures
            retransmits_each(
                datagrams@.map_values(|d: Datagram| d@),
                self.request_registry@,
                hostname.spec_bytes(),
            ),
    {
        let ghost m = self.request_registry@;
        let ghost pairs = vstd::std_specs::hash::spec_hash_map_iter(&self.request_registry.0).remaining();
        let mut datagrams: Vec<Datagram> = Vec::new();
        for (key, request) in it: self.request_registry.0.iter()
            invariant
                it.seq() == pairs,
                datagrams.len() == it.index(),
                forall|i: int|
                    0 <= i < datagrams.len() ==> #[trigger] datagrams[i]@ == spec_retransmission(
                        *it.seq()[i].1,
                        hostname.spec_bytes(),
                    ),
        {
            let payload = encode_info_reply(request.port, request.request_id, hostname);
            datagrams.push(Datagram { payload, destination: request.socket_address });
        }
        proof {
            let keys = pairs.map_values(|p: (&RegistryId, &Request)| *p.0);
            let views = datagrams@.map_values(|d: Datagram| d@);
            assert(pairs.len() == m.dom().len());
            assert forall|i: int| 0 <= i < pairs.len() implies #[trigger] m.contains_key(keys[i])
                && m[keys[i]] == *pairs[i].1 by {
                assert(m.contains_key(*pairs[i].0) && m[*pairs[i].0] == *pairs[i].1);
            }
            assert(pairs.no_duplicates());
            assert forall|i: int, j: int|
                0 <= i < keys.len() && 0 <= j < keys.len() && i != j implies keys[i] != keys[j] by {
                if keys[i] == keys[j] {
                    assert(m.contains_key(keys[i]) && m.contains_key(keys[j]));
                    assert(pairs[i] == pairs[j]);
                }
            }
            assert forall|k: RegistryId| m.dom().contains(k) implies #[trigger] keys.contains(k) by {
                assert(m.contains_key(k));
                assert(pairs.contains((&k, &m[k])));
                let i = choose|i: int| 0 <= i < pairs.len() && pairs[i] == (&k, &m[k]);
                assert(keys[i] == k);
            }
            assert(keys.to_set() =~= m.dom());
            assert forall|i: int| 0 <= i < keys.len() implies #[trigger] views[i]
                == spec_retransmission(m[keys[i]], hostname.spec_bytes()) by {}
        }
        datagrams
    }
}

/// A request that is pending is repeated by every retransmission.
pub proof fn lemma_pending_request_is_retransmitted(
    requests: Map<RegistryId, Request>,
    request_id: RegistryId,
    request: Request,
    hostname: Seq<u8>,
    datagrams: Seq<(Seq<u8>, SocketAddress)>,
)
    requires
        retransmits_each(datagrams, requests.insert(request_id, request), hostname),
    ensures
        datagrams.contains(spec_retransmission(request, hostname)),
{
    let pending = requests.insert(request_id, request);
    let keys = choose|keys: Seq<RegistryId>|
        {
            &&& keys.len() == datagrams.len()
            &&& keys.no_duplicates()
            &&& keys.to_set() == pending.dom()
            &&& forall|i: int|
                0 <= i < keys.len() ==> #[trigger] datagrams[i] == spec_retransmission(
                    pending[keys[i]],
                    hostname,
                )
        };
    assert(pending.dom().contains(request_id));
    assert(keys.to_set().contains(request_id));
    let i = choose|i: int| 0 <= i < keys.len() && keys[i] == request_id;
    assert(datagrams[i] == spec_retransmission(request, hostname));
}

/// Taking in an offer and then its acknowledgement leaves the pending requests as they were,
/// without that request.
pub proof fn lemma_acknowledged_offer_leaves_no_trace(
    requests: Map<RegistryId, Request>,
    request_id: RegistryId,
    request: Request,
)
    ensures
        requests.insert(request_id, request).remove(request_id) == requests.remove(request_id),
{
    assert(requests.insert(request_id, request).remove(request_id) =~= requests.remove(
        request_id,
    ));
}

} // verus!
