//! Best-effort broadcast: one frame for every registered peer.
//!
//! A broadcast is computed first and performed after: each `broadcast_`
//! function returns the list of deliveries to make, and [`deliver`] hands them
//! one by one to whatever pushes a frame onto a delivery queue. A queue that
//! refuses its frame concerns that one delivery only.

use vstd::prelude::*;

use crate::protocol::{ChatMessage, MsgTypes, WebSocketMessage, WebSocketMessageView};
use crate::registry::{identities, Handle, PeerView, Registry};

verus! {

/// One frame for one delivery queue.
#[derive(Clone, Debug, PartialEq, Eq)]
pub struct Delivery {
    pub handle: Handle,
    pub frame: String,
}

/// The mathematical value of a [`Delivery`].
pub struct DeliveryView {
    pub handle: Handle,
    pub frame: Seq<char>,
}

impl View for Delivery {
    type V = DeliveryView;

    open spec fn view(&self) -> DeliveryView {
        DeliveryView { handle: self.handle, frame: self.frame@ }
    }
}

impl DeepView for Delivery {
    type V = DeliveryView;

    open spec fn deep_view(&self) -> DeliveryView {
        self@
    }
}

/// The deliveries of one frame to a registry: one for each entry, in
/// registration order, and no other.
pub open spec fn fan_out(s: Seq<PeerView>, frame: Seq<char>) -> Seq<DeliveryView> {
    s.map_values(|p: PeerView| DeliveryView { handle: p.handle, frame })
}

/// The frame that carries a membership snapshot: kind `users`, with the
/// identities as its `dataArray`.
pub open spec fn user_list_frame(ids: Seq<Seq<char>>) -> WebSocketMessageView {
    WebSocketMessageView { message_type: MsgTypes::Users, data: None, data_array: Some(ids) }
}

/// The membership snapshot of a registry, sent to all of it.
pub open spec fn user_list_broadcast(registry: Seq<PeerView>) -> Seq<DeliveryView> {
    fan_out(registry, user_list_frame(identities(registry)).encoded())
}

/// The deliveries that bring a frame, as it is, to every registered peer.
pub fn broadcast_message(registry: &Registry, message: &str) -> (out: Vec<Delivery>)
    ensures
        out.deep_view() == fan_out(registry@, message@),
{
    let address = |_id: &str, handle: Handle| -> (d: Delivery)
        ensures
            d@ == (DeliveryView { handle, frame: message@ }),
        { Delivery { handle, frame: message.to_owned() } };
    let out = registry.for_each_handle(address);
    assert(out.deep_view() =~= fan_out(registry@, message@));
    out
}

/// The deliveries that bring the membership snapshot to every registered
/// peer.
pub fn broadcast_user_list(registry: &Registry) -> (out: Vec<Delivery>)
    ensures
        out.deep_view() == user_list_broadcast(registry@),
{
    let users = WebSocketMessage {
        message_type: MsgTypes::Users,
        data: None,
        data_array: Some(registry.snapshot_identities()),
    };
    let frame = users.encode();
    broadcast_message(registry, frame.as_str())
}

/// The deliveries that bring a chat message to every registered peer.
pub fn broadcast_chat(registry: &Registry, message: &ChatMessage) -> (out: Vec<Delivery>)
    ensures
        out.deep_view() == fan_out(registry@, message@.frame().encoded()),
{
    let frame = message.frame().encode();
    broadcast_message(registry, frame.as_str())
}

/// `push` may be given the delivery `d`.
pub open spec fn takes<F: Fn(Handle, &str) -> bool>(push: F, d: DeliveryView) -> bool {
    forall|frame: &str| frame@ == d.frame ==> call_requires(push, (d.handle, frame))
}

/// `taken` is what `push` answered for the delivery `d`.
pub open spec fn pushed<F: Fn(Handle, &str) -> bool>(push: F, d: DeliveryView, taken: bool) -> bool {
    exists|frame: &str| frame@ == d.frame && call_ensures(push, (d.handle, frame), taken)
}

/// Makes the deliveries: hands each of them to `push`, in order, and returns
/// for each whether `push` took it. A delivery that is refused is skipped; it
/// keeps no other from being made.
pub fn deliver<F: Fn(Handle, &str) -> bool>(outbox: &Vec<Delivery>, push: F) -> (taken: Vec<bool>)
    requires
        forall|i: int| 0 <= i < outbox@.len() ==> takes(push, #[trigger] outbox@[i]@),
    ensures
        taken@.len() == outbox@.len(),
        forall|i: int| 0 <= i < outbox@.len() ==> pushed(push, outbox@[i]@, #[trigger] taken@[i]),
{
    let mut taken: Vec<bool> = Vec::new();
    let mut i: usize = 0;
    while i < outbox.len()
        invariant
            i <= outbox@.len(),
            taken@.len() == i,
            forall|i: int| 0 <= i < outbox@.len() ==> takes(push, #[trigger] outbox@[i]@),
            forall|k: int| 0 <= k < i ==> pushed(push, outbox@[k]@, #[trigger] taken@[k]),
        decreases outbox@.len() - i,
    {
        let handle = outbox[i].handle;
        let frame = outbox[i].frame.as_str();
        proof {
            assert(takes(push, outbox@[i as int]@));
            assert(frame@ == outbox@[i as int]@.frame);
        }
        let answer = push(handle, frame);
        proof {
            assert(call_ensures(push, (outbox@[i as int]@.handle, frame), answer));
            assert(pushed(push, outbox@[i as int]@, answer));
        }
        taken.push(answer);
        i += 1;
    }
    taken
}

} // verus!
