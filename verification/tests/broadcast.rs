use std::cell::RefCell;

use chat_relay::broadcast::{
    broadcast_chat, broadcast_message, broadcast_user_list, deliver, Delivery,
};
use chat_relay::protocol::{ChatMessage, ReplyData};
use chat_relay::registry::Registry;

fn s(text: &str) -> String {
    text.to_string()
}

fn delivery(handle: u64, frame: &str) -> Delivery {
    Delivery { handle, frame: s(frame) }
}

fn three() -> Registry {
    let mut registry = Registry::new();
    registry.upsert(s("alice"), 1);
    registry.upsert(s("bob"), 2);
    registry.upsert(s("carol"), 3);
    registry
}

#[test]
fn broadcast_to_an_empty_registry_reaches_nobody() {
    let registry = Registry::new();
    assert_eq!(broadcast_message(&registry, "frame"), vec![]);
    assert_eq!(broadcast_user_list(&registry), vec![]);
    let chat = ChatMessage { from: s("a"), message: s("b"), time: 1, reply_to: None };
    assert_eq!(broadcast_chat(&registry, &chat), vec![]);
}

#[test]
fn broadcast_message_reaches_exactly_the_live_set() {
    let registry = three();
    let out = broadcast_message(&registry, "frame");
    assert_eq!(out, vec![delivery(1, "frame"), delivery(2, "frame"), delivery(3, "frame")]);
    for handle in [1u64, 2, 3] {
        assert_eq!(out.iter().filter(|d| d.handle == handle).count(), 1);
    }
    assert_eq!(out.iter().filter(|d| d.handle == 4).count(), 0);
}

#[test]
fn broadcast_does_not_reach_a_removed_or_replaced_handle() {
    let mut registry = three();
    registry.remove("bob");
    registry.upsert(s("alice"), 11);
    let out = broadcast_message(&registry, "x");
    assert_eq!(out, vec![delivery(11, "x"), delivery(3, "x")]);
}

#[test]
fn broadcast_user_list_sends_the_snapshot_in_registration_order() {
    let registry = three();
    let frame = r#"{"messageType":"users","dataArray":["alice","bob","carol"]}"#;
    assert_eq!(
        broadcast_user_list(&registry),
        vec![delivery(1, frame), delivery(2, frame), delivery(3, frame)]
    );
}

#[test]
fn broadcast_chat_sends_one_frame_that_encodes_the_message() {
    let registry = three();
    let chat = ChatMessage {
        from: s("alice"),
        message: s("hello"),
        time: 1700000000000,
        reply_to: Some(ReplyData { id: 3, from: s("bob"), message: s("hi") }),
    };
    let frame = r#"{"messageType":"message","data":"{\"from\":\"alice\",\"message\":\"hello\",\"time\":1700000000000,\"reply_to\":{\"id\":3,\"from\":\"bob\",\"message\":\"hi\"}}"}"#;
    assert_eq!(
        broadcast_chat(&registry, &chat),
        vec![delivery(1, frame), delivery(2, frame), delivery(3, frame)]
    );
}

#[test]
fn a_handle_with_two_entries_gets_one_frame_for_each() {
    let mut registry = Registry::new();
    registry.upsert(s("alice"), 1);
    registry.upsert(s("alias"), 1);
    registry.upsert(s("bob"), 2);
    let out = broadcast_message(&registry, "f");
    assert_eq!(out, vec![delivery(1, "f"), delivery(1, "f"), delivery(2, "f")]);
}

#[test]
fn deliver_hands_every_delivery_to_push_in_order() {
    let outbox = vec![delivery(1, "a"), delivery(2, "b"), delivery(1, "c")];
    let seen = RefCell::new(Vec::new());
    let taken = deliver(&outbox, |handle, frame| {
        seen.borrow_mut().push((handle, frame.to_string()));
        true
    });
    assert_eq!(taken, vec![true, true, true]);
    assert_eq!(seen.into_inner(), vec![(1, s("a")), (2, s("b")), (1, s("c"))]);
}

#[test]
fn deliver_skips_a_refused_delivery_and_goes_on() {
    let registry = three();
    let outbox = broadcast_message(&registry, "frame");
    let reached = RefCell::new(Vec::new());
    let taken = deliver(&outbox, |handle, frame| {
        if handle == 2 {
            false
        } else {
            reached.borrow_mut().push((handle, frame.to_string()));
            true
        }
    });
    assert_eq!(taken, vec![true, false, true]);
    assert_eq!(reached.into_inner(), vec![(1, s("frame")), (3, s("frame"))]);
}

#[test]
fn deliver_of_nothing_pushes_nothing() {
    let taken = deliver(&vec![], |_, _| panic!("nothing to push"));
    assert_eq!(taken, Vec::<bool>::new());
}
