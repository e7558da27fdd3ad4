//! What holds of the relay as a whole, proved from the models of its parts.

use vstd::prelude::*;

use crate::broadcast::{fan_out, user_list_frame, DeliveryView};
use crate::json::{lemma_lookup_found, lemma_lookup_missing, texts};
use crate::protocol::{
    lemma_tags_differ, text_items, ChatMessageView, MessageDataView, MsgTypes, ReplyDataView,
    WebSocketMessageView,
};
use crate::registry::{
    cleared, distinct, entry, evicted, fresh, identities, lemma_position, live, position,
    registered, removed, stale, survivors, upserted, Handle, PeerView,
};
use crate::session::{
    composed, dispatched, ignored, received, registration, stepped, InboundView, Outcome,
    SessionView,
};

verus! {

/// Registering keeps the registry free of duplicates, makes the identity
/// registered, and gives it a fresh entry with the handle of the registration.
/// Every other entry keeps its place and its value.
pub proof fn law_upsert(s: Seq<PeerView>, id: Seq<char>, handle: Handle)
    requires
        distinct(s),
    ensures
        distinct(upserted(s, id, handle)),
        registered(upserted(s, id, handle), id),
        entry(upserted(s, id, handle), id) == fresh(id, handle),
        upserted(s, id, handle).len() == if registered(s, id) {
            s.len()
        } else {
            s.len() + 1
        },
        forall|i: int|
            0 <= i < upserted(s, id, handle).len() && (#[trigger] upserted(
                s,
                id,
                handle,
            )[i]).identity != id ==> i < s.len() && upserted(s, id, handle)[i] == s[i],
        forall|other: Seq<char>|
            other != id ==> registered(upserted(s, id, handle), other) == registered(s, other),
        forall|other: Seq<char>|
            other != id && registered(s, other) ==> entry(upserted(s, id, handle), other) == entry(
                s,
                other,
            ),
{
    let t = upserted(s, id, handle);
    if registered(s, id) {
        let i = position(s, id);
        assert(t[i].identity == id);
        assert forall|a: int, b: int| 0 <= a < b < t.len() implies t[a].identity
            != t[b].identity by {
            assert(s[a].identity != s[b].identity);
        }
        lemma_position(t, id, i);
    } else {
        assert forall|a: int, b: int| 0 <= a < b < t.len() implies t[a].identity
            != t[b].identity by {
            if b == s.len() {
                assert(s[a].identity != id);
            } else {
                assert(s[a].identity != s[b].identity);
            }
        }
        assert(t[s.len() as int].identity == id);
        lemma_position(t, id, s.len() as int);
    }
    assert forall|other: Seq<char>| other != id implies registered(t, other) == registered(
        s,
        other,
    ) by {
        if registered(s, other) {
            let k = position(s, other);
            assert(t[k].identity == other);
        }
        if registered(t, other) {
            let k = position(t, other);
            assert(s[k].identity == other);
        }
    }
    assert forall|other: Seq<char>| other != id && registered(s, other) implies entry(t, other)
        == entry(s, other) by {
        let k = position(s, other);
        assert(t[k].identity == other);
        lemma_position(t, other, k);
    }
}

/// Registration replaces, never duplicates: after two registrations under one
/// identity the snapshot holds that identity at exactly one place, the entry
/// there carries the second handle, and every delivery of a broadcast that is
/// made for that identity goes to the second handle. The first handle gets
/// nothing, unless it is the second or stands in an entry of another identity.
pub proof fn law_registration_replaces(
    s: Seq<PeerView>,
    id: Seq<char>,
    first: Handle,
    second: Handle,
    frame: Seq<char>,
)
    requires
        distinct(s),
    ensures
        ({
            let t = upserted(upserted(s, id, first), id, second);
            let at = position(t, id);
            &&& distinct(t)
            &&& t.len() == upserted(s, id, first).len()
            &&& 0 <= at < t.len()
            &&& forall|i: int| 0 <= i < t.len() ==> (#[trigger] identities(t)[i] == id <==> i == at)
            &&& t[at] == fresh(id, second)
            &&& fan_out(t, frame).len() == t.len()
            &&& forall|i: int|
                0 <= i < t.len() && #[trigger] t[i].identity == id ==> fan_out(t, frame)[i].handle
                    == second
            &&& first != second && (forall|k: int|
                0 <= k < s.len() && (#[trigger] s[k]).identity != id ==> s[k].handle != first)
                ==> forall|i: int|
                0 <= i < t.len() ==> (#[trigger] fan_out(t, frame)[i]).handle != first
        }),
{
    let m = upserted(s, id, first);
    law_upsert(s, id, first);
    let t = upserted(m, id, second);
    law_upsert(m, id, second);
    let at = position(t, id);
    assert forall|i: int| 0 <= i < t.len() implies (#[trigger] identities(t)[i] == id <==> i
        == at) by {
        if identities(t)[i] == id {
            lemma_position(t, id, i);
        }
    }
    if first != second && (forall|k: int|
        0 <= k < s.len() && (#[trigger] s[k]).identity != id ==> s[k].handle != first) {
        assert forall|i: int| 0 <= i < t.len() implies (#[trigger] fan_out(t, frame)[i]).handle
            != first by {
            if t[i].identity == id {
                lemma_position(t, id, i);
            } else {
                assert(t[i] == m[i]);
                assert(m[i] == s[i]);
            }
        }
    }
}

/// Broadcast reaches exactly the live set: a broadcast makes one delivery for
/// each entry of the registry, in order, each with the frame and to the handle
/// of its entry; so every delivery goes to a registered handle, and a handle
/// gets as many deliveries as it has entries.
pub proof fn law_broadcast_reaches_the_live_set(s: Seq<PeerView>, frame: Seq<char>, handle: Handle)
    ensures
        fan_out(s, frame).len() == s.len(),
        forall|i: int|
            0 <= i < s.len() ==> #[trigger] fan_out(s, frame)[i] == (DeliveryView {
                handle: s[i].handle,
                frame,
            }),
        fan_out(s, frame).filter(|d: DeliveryView| d.handle == handle).len() == s.filter(
            |p: PeerView| p.handle == handle,
        ).len(),
        (forall|i: int| 0 <= i < s.len() ==> (#[trigger] s[i]).handle != handle) ==> fan_out(
            s,
            frame,
        ).filter(|d: DeliveryView| d.handle == handle).len() == 0,
    decreases s.len(),
{
    let to = |d: DeliveryView| d.handle == handle;
    let of = |p: PeerView| p.handle == handle;
    if s.len() == 0 {
        reveal(Seq::filter);
        assert(fan_out(s, frame) =~= Seq::<DeliveryView>::empty());
    } else {
        let init = s.drop_last();
        let last = s.last();
        law_broadcast_reaches_the_live_set(init, frame, handle);
        assert(s =~= init.push(last));
        assert(fan_out(s, frame) =~= fan_out(init, frame).push(
            DeliveryView { handle: last.handle, frame },
        ));
        init.lemma_filter_push(last, of);
        fan_out(init, frame).lemma_filter_push(DeliveryView { handle: last.handle, frame }, to);
        if forall|i: int| 0 <= i < s.len() ==> (#[trigger] s[i]).handle != handle {
            assert forall|i: int| 0 <= i < init.len() implies (#[trigger] init[i]).handle
                != handle by {
                assert(init[i] == s[i]);
            }
            assert(s[s.len() - 1].handle != handle);
        }
    }
}

/// An entry whose flag is set survives the sweep, with the flag cleared, and
/// is not among the evicted.
pub proof fn law_live_entry_survives(s: Seq<PeerView>, id: Seq<char>)
    requires
        distinct(s),
        registered(s, id),
        entry(s, id).alive,
    ensures
        distinct(survivors(s)),
        registered(survivors(s), id),
        entry(survivors(s), id) == cleared(entry(s, id)),
        !evicted(s).contains(id),
{
    lemma_sweep_parts(s);
    let p = entry(s, id);
    assert(s.contains(p));
    assert(live(s).contains(p));
    let k = choose|k: int| 0 <= k < live(s).len() && live(s)[k] == p;
    assert(survivors(s)[k] == cleared(p));
    assert(survivors(s)[k].identity == id);
    lemma_position(survivors(s), id, k);
    if evicted(s).contains(id) {
        let e = choose|e: int| 0 <= e < evicted(s).len() && evicted(s)[e] == id;
        let q = stale(s)[e];
        let j = choose|j: int| 0 <= j < s.len() && s[j] == q;
        lemma_position(s, id, j);
    }
}

/// An entry whose flag is cleared leaves with the sweep and is among the
/// evicted.
pub proof fn law_stale_entry_is_evicted(s: Seq<PeerView>, id: Seq<char>)
    requires
        distinct(s),
        registered(s, id),
        !entry(s, id).alive,
    ensures
        distinct(survivors(s)),
        !registered(survivors(s), id),
        evicted(s).contains(id),
{
    lemma_sweep_parts(s);
    let p = entry(s, id);
    assert(s.contains(p));
    assert(stale(s).contains(p));
    let k = choose|k: int| 0 <= k < stale(s).len() && stale(s)[k] == p;
    assert(evicted(s)[k] == id);
    if registered(survivors(s), id) {
        let e = position(survivors(s), id);
        let q = live(s)[e];
        let j = choose|j: int| 0 <= j < s.len() && s[j] == q;
        lemma_position(s, id, j);
    }
}

/// What the two halves of a sweep hold: each entry of the registry is in the
/// half that its flag names, each half holds entries of the registry only,
/// and the survivors have no duplicates.
proof fn lemma_sweep_parts(s: Seq<PeerView>)
    requires
        distinct(s),
    ensures
        distinct(survivors(s)),
        forall|p: PeerView| s.contains(p) && p.alive ==> live(s).contains(p),
        forall|p: PeerView| s.contains(p) && !p.alive ==> stale(s).contains(p),
        forall|k: int|
            0 <= k < live(s).len() ==> (#[trigger] live(s)[k]).alive && s.contains(live(s)[k]),
        forall|k: int|
            0 <= k < stale(s).len() ==> !(#[trigger] stale(s)[k]).alive && s.contains(stale(s)[k]),
{
    let keep = |p: PeerView| p.alive;
    let go = |p: PeerView| !p.alive;
    s.filter_lemma(keep);
    s.filter_lemma(go);
    assert forall|k: int| 0 <= k < live(s).len() implies s.contains(#[trigger] live(s)[k]) by {
        assert(live(s).contains(live(s)[k]));
        s.lemma_filter_contains_rev(keep, live(s)[k]);
    }
    assert forall|k: int| 0 <= k < stale(s).len() implies s.contains(#[trigger] stale(s)[k]) by {
        assert(stale(s).contains(stale(s)[k]));
        s.lemma_filter_contains_rev(go, stale(s)[k]);
    }
    lemma_filter_keeps_distinct(s, keep);
    assert forall|a: int, b: int| 0 <= a < b < survivors(s).len() implies survivors(s)[a].identity
        != survivors(s)[b].identity by {
        assert(live(s)[a].identity != live(s)[b].identity);
    }
}

/// A filter of a registry without duplicates has none.
proof fn lemma_filter_keeps_distinct(s: Seq<PeerView>, keep: spec_fn(PeerView) -> bool)
    requires
        distinct(s),
    ensures
        distinct(s.filter(keep)),
    decreases s.len(),
{
    reveal(Seq::filter);
    if s.len() > 0 {
        let init = s.drop_last();
        assert forall|a: int, b: int| 0 <= a < b < init.len() implies init[a].identity
            != init[b].identity by {
            assert(s[a].identity != s[b].identity);
        }
        lemma_filter_keeps_distinct(init, keep);
        let kept = init.filter(keep);
        if keep(s.last()) {
            assert forall|a: int, b: int| 0 <= a < b < s.filter(keep).len() implies s.filter(
                keep,
            )[a].identity != s.filter(keep)[b].identity by {
                if b == kept.len() {
                    assert(kept.contains(kept[a]));
                    init.lemma_filter_contains_rev(keep, kept[a]);
                    let j = choose|j: int| 0 <= j < init.len() && init[j] == kept[a];
                    assert(s[j].identity != s[s.len() - 1].identity);
                } else {
                    assert(kept[a].identity != kept[b].identity);
                }
            }
        }
    }
}

/// The sweep grace window: an entry that registers and is not refreshed
/// survives the next sweep and is evicted by the one after it; an entry that
/// registers again between two sweeps survives the second too.
pub proof fn law_sweep_grace_window(s: Seq<PeerView>, id: Seq<char>, handle: Handle, again: Handle)
    requires
        distinct(s),
    ensures
        ({
            let start = upserted(s, id, handle);
            let once = survivors(start);
            let twice = survivors(once);
            let refreshed = survivors(upserted(once, id, again));
            &&& registered(once, id) && !evicted(start).contains(id)
            &&& !registered(twice, id) && evicted(once).contains(id)
            &&& registered(refreshed, id) && !evicted(upserted(once, id, again)).contains(id)
        }),
{
    let start = upserted(s, id, handle);
    law_upsert(s, id, handle);
    law_live_entry_survives(start, id);
    let once = survivors(start);
    law_stale_entry_is_evicted(once, id);
    law_upsert(once, id, again);
    law_live_entry_survives(upserted(once, id, again), id);
}

/// The registry after a number of sweep cycles in each of which `id`
/// registers before the sweep, with the handles in `handles` in turn.
pub open spec fn refreshed_cycles(
    s: Seq<PeerView>,
    id: Seq<char>,
    handles: Seq<Handle>,
) -> Seq<PeerView>
    decreases handles.len(),
{
    if handles.len() == 0 {
        s
    } else {
        survivors(upserted(refreshed_cycles(s, id, handles.drop_last()), id, handles.last()))
    }
}

/// An entry that is refreshed between the sweeps is never evicted: however
/// many cycles pass, no sweep evicts it and it is registered after each.
pub proof fn law_refreshed_entry_is_never_evicted(
    s: Seq<PeerView>,
    id: Seq<char>,
    handles: Seq<Handle>,
)
    requires
        distinct(s),
        handles.len() > 0,
    ensures
        distinct(refreshed_cycles(s, id, handles)),
        registered(refreshed_cycles(s, id, handles), id),
        !evicted(
            upserted(refreshed_cycles(s, id, handles.drop_last()), id, handles.last()),
        ).contains(id),
    decreases handles.len(),
{
    let before = refreshed_cycles(s, id, handles.drop_last());
    if handles.len() > 1 {
        law_refreshed_entry_is_never_evicted(s, id, handles.drop_last());
    }
    law_upsert(before, id, handles.last());
    law_live_entry_survives(upserted(before, id, handles.last()), id);
}

/// A malformed frame is a no-op: a text frame that does not decode leaves
/// the session and the registry as they are, sends nothing, and does not end
/// the session.
pub proof fn law_malformed_frame_is_ignored(
    session: SessionView,
    registry: Seq<PeerView>,
    frame: Seq<char>,
    now: u64,
)
    requires
        WebSocketMessageView::decoded(frame) is None,
    ensures
        received(session, registry, frame, now) == ignored(session, registry),
        stepped(session, registry, InboundView::Text(frame), now) == (Outcome {
            session: Some(session),
            registry,
            outbox: Seq::empty(),
        }),
{
}

/// Only the transport ends a session: whatever a frame holds, the session
/// goes on after it, under the same handle.
pub proof fn law_frames_do_not_end_the_session(
    session: SessionView,
    registry: Seq<PeerView>,
    event: InboundView,
    now: u64,
)
    ensures
        stepped(session, registry, event, now).session is None <==> event is Closed,
        stepped(session, registry, event, now).session matches Some(after) ==> after.handle
            == session.handle,
{
}

/// A frame that is no registration leaves the registry as it is.
pub proof fn law_only_registration_changes_the_registry(
    session: SessionView,
    registry: Seq<PeerView>,
    message: WebSocketMessageView,
    now: u64,
)
    requires
        !(message.message_type == MsgTypes::Register && message.data is Some),
    ensures
        dispatched(session, registry, message, now).registry == registry,
        dispatched(session, registry, message, now).session == session,
{
}

/// Two clients that register one after the other, under different names, in
/// an empty registry: each registration broadcasts one snapshot, the first to
/// the first client alone, the second to both, and the second snapshot holds
/// both identities in the order in which they registered.
pub proof fn law_two_registrations(a: SessionView, b: SessionView, first: Seq<char>, second: Seq<char>)
    requires
        first != second,
    ensures
        ({
            let one = registration(a, Seq::empty(), first);
            let two = registration(b, one.registry, second);
            &&& identities(one.registry) == seq![first]
            &&& one.outbox == seq![
                DeliveryView { handle: a.handle, frame: user_list_frame(seq![first]).encoded() },
            ]
            &&& identities(two.registry) == seq![first, second]
            &&& two.outbox == seq![
                DeliveryView {
                    handle: a.handle,
                    frame: user_list_frame(seq![first, second]).encoded(),
                },
                DeliveryView {
                    handle: b.handle,
                    frame: user_list_frame(seq![first, second]).encoded(),
                },
            ]
        }),
{
    let empty = Seq::<PeerView>::empty();
    let one = registration(a, empty, first);
    assert(!registered(empty, first));
    assert(one.registry =~= seq![fresh(first, a.handle)]);
    assert(identities(one.registry) =~= seq![first]);
    assert(one.outbox =~= seq![
        DeliveryView { handle: a.handle, frame: user_list_frame(seq![first]).encoded() },
    ]);
    let two = registration(b, one.registry, second);
    assert(!registered(one.registry, second)) by {
        if registered(one.registry, second) {
            let k = position(one.registry, second);
            assert(one.registry[k].identity == first);
        }
    }
    assert(two.registry =~= seq![fresh(first, a.handle), fresh(second, b.handle)]);
    assert(identities(two.registry) =~= seq![first, second]);
    assert(two.outbox =~= seq![
        DeliveryView { handle: a.handle, frame: user_list_frame(seq![first, second]).encoded() },
        DeliveryView { handle: b.handle, frame: user_list_frame(seq![first, second]).encoded() },
    ]);
}

/// Removing an identity keeps the registry free of duplicates, leaves the
/// identity unregistered and touches no other entry.
pub proof fn law_remove(s: Seq<PeerView>, id: Seq<char>)
    requires
        distinct(s),
    ensures
        distinct(removed(s, id)),
        !registered(removed(s, id), id),
        forall|other: Seq<char>|
            other != id ==> registered(removed(s, id), other) == registered(s, other),
        forall|other: Seq<char>|
            other != id && registered(s, other) ==> entry(removed(s, id), other) == entry(s, other),
{
    let t = removed(s, id);
    if registered(s, id) {
        let i = position(s, id);
        assert forall|a: int, b: int| 0 <= a < b < t.len() implies t[a].identity
            != t[b].identity by {
            let aa = if a < i { a } else { a + 1 };
            let bb = if b < i { b } else { b + 1 };
            assert(s[aa].identity != s[bb].identity);
        }
        if registered(t, id) {
            let k = position(t, id);
            let kk = if k < i { k } else { k + 1 };
            lemma_position(s, id, kk);
        }
        assert forall|other: Seq<char>| other != id implies registered(t, other) == registered(
            s,
            other,
        ) by {
            if registered(s, other) {
                let k = position(s, other);
                let kk = if k < i { k } else { k - 1 };
                assert(t[kk].identity == other);
            }
            if registered(t, other) {
                let k = position(t, other);
                let kk = if k < i { k } else { k + 1 };
                assert(s[kk].identity == other);
            }
        }
        assert forall|other: Seq<char>| other != id && registered(s, other) implies entry(
            t,
            other,
        ) == entry(s, other) by {
            let k = position(s, other);
            let kk = if k < i { k } else { k - 1 };
            assert(t[kk].identity == other);
            lemma_position(t, other, kk);
        }
    }
}

/// The names of the members are different words.
proof fn lemma_names_differ()
    ensures
        "messageType"@ != "data"@,
        "messageType"@ != "dataArray"@,
        "data"@ != "dataArray"@,
        "text"@ != "reply_to"@,
        "id"@ != "from"@,
        "id"@ != "message"@,
        "from"@ != "message"@,
        "from"@ != "time"@,
        "from"@ != "reply_to"@,
        "message"@ != "time"@,
        "message"@ != "reply_to"@,
        "time"@ != "reply_to"@,
{
    reveal_strlit("messageType");
    reveal_strlit("data");
    reveal_strlit("dataArray");
    reveal_strlit("text");
    reveal_strlit("reply_to");
    reveal_strlit("id");
    reveal_strlit("from");
    reveal_strlit("message");
    reveal_strlit("time");
    assert("messageType"@.len() == 11);
    assert("data"@.len() == 4);
    assert("dataArray"@.len() == 9);
    assert("text"@.len() == 4);
    assert("reply_to"@.len() == 8);
    assert("id"@.len() == 2);
    assert("from"@.len() == 4);
    assert("message"@.len() == 7);
    assert("time"@.len() == 4);
    assert("from"@[0] == 'f');
    assert("time"@[0] == 't');
}

/// Reading the document of a frame gives the frame back.
pub proof fn law_frame_round_trip(frame: WebSocketMessageView)
    ensures
        WebSocketMessageView::from_json(frame.to_json()) == Some(frame),
{
    lemma_names_differ();
    lemma_tags_differ(frame.message_type);
    let members = frame.to_json()->Object_0;
    lemma_lookup_found(members, "messageType"@, 0);
    match frame.data {
        Some(data) => {
            lemma_lookup_found(members, "data"@, 1);
        },
        None => {
            lemma_lookup_missing(members, "data"@);
        },
    }
    match frame.data_array {
        Some(list) => {
            lemma_lookup_found(members, "dataArray"@, members.len() - 1);
            assert(texts(text_items(list))->0 =~= list);
        },
        None => {
            lemma_lookup_missing(members, "dataArray"@);
        },
    }
}

/// Reading the document of a reply reference gives the reference back.
pub proof fn law_reply_round_trip(reply: ReplyDataView)
    ensures
        ReplyDataView::from_json(reply.to_json()) == Some(reply),
{
    lemma_names_differ();
    let members = reply.to_json()->Object_0;
    lemma_lookup_found(members, "id"@, 0);
    lemma_lookup_found(members, "from"@, 1);
    lemma_lookup_found(members, "message"@, 2);
}

/// Reading the document of a message body gives the body back.
pub proof fn law_body_round_trip(body: MessageDataView)
    ensures
        MessageDataView::from_json(body.to_json()) == Some(body),
{
    lemma_names_differ();
    let members = body.to_json()->Object_0;
    lemma_lookup_found(members, "text"@, 0);
    match body.reply_to {
        Some(reply) => {
            lemma_lookup_found(members, "reply_to"@, 1);
        },
        None => {
            lemma_lookup_missing(members, "reply_to"@);
        },
    }
}

/// Reading the document of a chat message gives the message back, reply
/// reference included.
pub proof fn law_chat_round_trip(chat: ChatMessageView)
    ensures
        ChatMessageView::from_json(chat.to_json()) == Some(chat),
{
    lemma_names_differ();
    let members = chat.to_json()->Object_0;
    lemma_lookup_found(members, "from"@, 0);
    lemma_lookup_found(members, "message"@, 1);
    lemma_lookup_found(members, "time"@, 2);
    match chat.reply_to {
        Some(reply) => {
            lemma_lookup_found(members, "reply_to"@, 3);
            law_reply_round_trip(reply);
        },
        None => {
            lemma_lookup_missing(members, "reply_to"@);
        },
    }
}

/// The reply reference is a snapshot: a message whose body refers to another
/// message by a triple of ordinal, sender and text goes out, to every
/// registered peer, as the chat message that carries exactly that triple,
/// whatever the registry holds and whatever became of the message referred
/// to. The document of that chat message reads back with the same triple.
pub proof fn law_reply_is_a_snapshot(
    session: SessionView,
    registry: Seq<PeerView>,
    data: Seq<char>,
    body: MessageDataView,
    reference: Seq<char>,
    triple: ReplyDataView,
    now: u64,
)
    requires
        MessageDataView::decoded(data) == Some(body),
        body.reply_to == Some(reference),
        ReplyDataView::decoded(reference) == Some(triple),
    ensures
        ({
            let inbound = WebSocketMessageView {
                message_type: MsgTypes::Message,
                data: Some(data),
                data_array: None,
            };
            let chat = ChatMessageView {
                from: session.sender(),
                message: body.text,
                time: now,
                reply_to: Some(triple),
            };
            &&& dispatched(session, registry, inbound, now).outbox == fan_out(
                registry,
                chat.frame().encoded(),
            )
            &&& ChatMessageView::from_json(chat.to_json()) == Some(chat)
        }),
{
    let chat = ChatMessageView {
        from: session.sender(),
        message: body.text,
        time: now,
        reply_to: Some(triple),
    };
    assert(composed(session.sender(), body, now) == chat);
    law_chat_round_trip(chat);
}

} // verus!
