//! One connection: what each event on its transport does to the session and
//! to the registry, and what goes out in answer.
//!
//! The transport stays outside. The caller reads from it, hands each event to
//! [`Session::step`] together with the time, delivers what comes back, and
//! goes on for as long as a session comes back too.

use vstd::prelude::*;

use crate::broadcast::{
    broadcast_chat, broadcast_user_list, fan_out, user_list_broadcast, Delivery, DeliveryView,
};
use crate::protocol::{
    ChatMessage, ChatMessageView, MessageData, MessageDataView, MsgTypes, ReplyData,
    ReplyDataView, WebSocketMessage, WebSocketMessageView,
};
use crate::registry::{removed, upserted, Handle, PeerView, Registry};

verus! {

/// The state of one connection.
#[derive(Debug, PartialEq, Eq)]
pub struct Session {
    handle: Handle,
    identity: Option<String>,
}

/// The mathematical value of a [`Session`].
pub struct SessionView {
    /// The delivery queue of the connection.
    pub handle: Handle,
    /// The identity of the last registration, if there was one.
    pub identity: Option<Seq<char>>,
}

impl SessionView {
    /// The sender of what the session says: its identity, or the empty name
    /// before it registered.
    pub open spec fn sender(self) -> Seq<char> {
        match self.identity {
            Some(id) => id,
            None => Seq::empty(),
        }
    }
}

/// What a frame leaves behind: the session, the registry, and the deliveries
/// to make.
pub struct Effect {
    pub session: SessionView,
    pub registry: Seq<PeerView>,
    pub outbox: Seq<DeliveryView>,
}

/// Nothing changes and nothing goes out.
pub open spec fn ignored(session: SessionView, registry: Seq<PeerView>) -> Effect {
    Effect { session, registry, outbox: Seq::empty() }
}

/// The chat message that a session makes of a message body at time `now`. A
/// reply reference that does not decode is left out; the message stays.
pub open spec fn composed(sender: Seq<char>, body: MessageDataView, now: u64) -> ChatMessageView {
    ChatMessageView {
        from: sender,
        message: body.text,
        time: now,
        reply_to: match body.reply_to {
            Some(reference) => ReplyDataView::decoded(reference),
            None => None,
        },
    }
}

/// A registration under `name`: the session takes the name, the registry
/// gets or replaces the entry, and everybody receives the new snapshot.
pub open spec fn registration(
    session: SessionView,
    registry: Seq<PeerView>,
    name: Seq<char>,
) -> Effect {
    let registry = upserted(registry, name, session.handle);
    Effect {
        session: SessionView { handle: session.handle, identity: Some(name) },
        registry,
        outbox: user_list_broadcast(registry),
    }
}

/// What a decoded frame does.
///
/// - `register` with a non-empty name is a registration.
/// - `message` whose data decodes as a message body broadcasts the composed
///   chat message.
/// - Everything else is ignored: `register` without a name or with an empty
///   one, `message` without data or with data that is no message body, and
///   `users`, which only the relay sends.
pub open spec fn dispatched(
    session: SessionView,
    registry: Seq<PeerView>,
    message: WebSocketMessageView,
    now: u64,
) -> Effect {
    match (message.message_type, message.data) {
        (MsgTypes::Register, Some(name)) => if name.len() > 0 {
            registration(session, registry, name)
        } else {
            ignored(session, registry)
        },
        (MsgTypes::Message, Some(data)) => match MessageDataView::decoded(data) {
            Some(body) => Effect {
                session,
                registry,
                outbox: fan_out(registry, composed(session.sender(), body, now).frame().encoded()),
            },
            None => ignored(session, registry),
        },
        _ => ignored(session, registry),
    }
}

/// What the text of an inbound frame does: what its frame does if it decodes,
/// nothing otherwise.
pub open spec fn received(
    session: SessionView,
    registry: Seq<PeerView>,
    frame: Seq<char>,
    now: u64,
) -> Effect {
    match WebSocketMessageView::decoded(frame) {
        Some(message) => dispatched(session, registry, message, now),
        None => ignored(session, registry),
    }
}

/// The registry after a session ended: without the entry under the session's
/// identity, if it had one.
pub open spec fn departed(session: SessionView, registry: Seq<PeerView>) -> Seq<PeerView> {
    match session.identity {
        Some(id) => removed(registry, id),
        None => registry,
    }
}

/// What the transport hands to a session.
#[derive(Clone, Debug, PartialEq, Eq)]
pub enum Inbound {
    /// A text frame.
    Text(String),
    /// A frame of any other kind: binary, ping, pong, close.
    Other,
    /// The transport closed or failed.
    Closed,
}

/// The mathematical value of an [`Inbound`].
pub enum InboundView {
    Text(Seq<char>),
    Other,
    Closed,
}

impl View for Inbound {
    type V = InboundView;

    open spec fn view(&self) -> InboundView {
        match self {
            Inbound::Text(text) => InboundView::Text(text@),
            Inbound::Other => InboundView::Other,
            Inbound::Closed => InboundView::Closed,
        }
    }
}

/// What one event on the transport leaves behind: the session if it goes on,
/// the registry, and the deliveries to make.
pub struct Outcome {
    pub session: Option<SessionView>,
    pub registry: Seq<PeerView>,
    pub outbox: Seq<DeliveryView>,
}

/// What an event on the transport does.
///
/// - A text frame does what [`received`] says, and the session goes on
///   whatever the text held.
/// - A frame of another kind is passed over.
/// - When the transport closes or fails the session ends: its entry leaves
///   the registry, if it has one, and whoever remains receives the snapshot.
pub open spec fn stepped(
    session: SessionView,
    registry: Seq<PeerView>,
    event: InboundView,
    now: u64,
) -> Outcome {
    match event {
        InboundView::Text(frame) => {
            let effect = received(session, registry, frame, now);
            Outcome {
                session: Some(effect.session),
                registry: effect.registry,
                outbox: effect.outbox,
            }
        },
        InboundView::Other => Outcome { session: Some(session), registry, outbox: Seq::empty() },
        InboundView::Closed => Outcome {
            session: None,
            registry: departed(session, registry),
            outbox: user_list_broadcast(departed(session, registry)),
        },
    }
}

/// What [`Session::step`] gives back.
#[derive(Debug, PartialEq, Eq)]
pub struct Reaction {
    /// The session, if it goes on.
    pub session: Option<Session>,
    /// The deliveries to make.
    pub outbox: Vec<Delivery>,
}

/// No deliveries.
fn nothing() -> (out: Vec<Delivery>)
    ensures
        out.deep_view() == Seq::<DeliveryView>::empty(),
{
    let out: Vec<Delivery> = Vec::new();
    assert(out.deep_view() =~= Seq::<DeliveryView>::empty());
    out
}

/// Makes a chat message of a message body: decodes the reply reference where
/// there is one and drops it where it does not decode.
pub fn compose(sender: &str, body: MessageData, now: u64) -> (r: ChatMessage)
    ensures
        r@ == composed(sender@, body@, now),
{
    let reply_to = match &body.reply_to {
        Some(reference) => ReplyData::decode(reference.as_str()),
        None => None,
    };
    ChatMessage { from: sender.to_owned(), message: body.text, time: now, reply_to }
}

impl View for Session {
    type V = SessionView;

    closed spec fn view(&self) -> SessionView {
        SessionView { handle: self.handle, identity: self.identity.deep_view() }
    }
}

impl DeepView for Session {
    type V = SessionView;

    open spec fn deep_view(&self) -> SessionView {
        self@
    }
}

impl Session {
    /// The session of a connection that was just accepted: not registered yet.
    pub fn open(handle: Handle) -> (r: Session)
        ensures
            r@ == (SessionView { handle, identity: None }),
    {
        Session { handle, identity: None }
    }

    /// The delivery queue of the connection.
    pub fn handle(&self) -> (r: Handle)
        ensures
            r == self@.handle,
    {
        self.handle
    }

    /// The identity of the last registration, if there was one.
    pub fn identity(&self) -> (r: Option<&str>)
        ensures
            r is Some <==> self@.identity is Some,
            r matches Some(id) ==> self@.identity == Some(id@),
    {
        match &self.identity {
            Some(id) => Some(id.as_str()),
            None => None,
        }
    }

    /// Takes a decoded frame at time `now`.
    pub fn dispatch(
        &mut self,
        registry: &mut Registry,
        message: WebSocketMessage,
        now: u64,
    ) -> (out: Vec<Delivery>)
        ensures
            final(self)@ == dispatched(old(self)@, old(registry)@, message@, now).session,
            final(registry)@ == dispatched(old(self)@, old(registry)@, message@, now).registry,
            out.deep_view() == dispatched(old(self)@, old(registry)@, message@, now).outbox,
    {
        match (message.message_type, message.data) {
            (MsgTypes::Register, Some(name)) => {
                if name.as_str().is_empty() {
                    return nothing();
                }
                registry.upsert(name.clone(), self.handle);
                self.identity = Some(name);
                broadcast_user_list(registry)
            },
            (MsgTypes::Message, Some(data)) => {
                match MessageData::decode(data.as_str()) {
                    Some(body) => {
                        let sender = match &self.identity {
                            Some(id) => id.as_str(),
                            None => "",
                        };
                        proof {
                            reveal_strlit("");
                            assert(""@ =~= Seq::<char>::empty());
                        }
                        let chat = compose(sender, body, now);
                        broadcast_chat(registry, &chat)
                    },
                    None => nothing(),
                }
            },
            _ => nothing(),
        }
    }

    /// Takes the text of an inbound frame at time `now`, in milliseconds since
    /// the epoch. A text that decodes to no frame changes nothing, sends
    /// nothing, and leaves the session as usable as before.
    pub fn receive(&mut self, registry: &mut Registry, frame: &str, now: u64) -> (out: Vec<Delivery>)
        ensures
            final(self)@ == received(old(self)@, old(registry)@, frame@, now).session,
            final(registry)@ == received(old(self)@, old(registry)@, frame@, now).registry,
            out.deep_view() == received(old(self)@, old(registry)@, frame@, now).outbox,
            WebSocketMessageView::decoded(frame@) is None ==> {
                &&& final(self)@ == old(self)@
                &&& final(registry)@ == old(registry)@
                &&& out@.len() == 0
            },
    {
        match WebSocketMessage::decode(frame) {
            Some(message) => self.dispatch(registry, message, now),
            None => {
                let out = nothing();
                assert(out.deep_view().len() == 0);
                out
            },
        }
    }

    /// Takes one event from the transport at time `now`, in milliseconds
    /// since the epoch, and gives back the session if it goes on.
    pub fn step(self, registry: &mut Registry, event: Inbound, now: u64) -> (r: Reaction)
        ensures
            r.session.deep_view() == stepped(self@, old(registry)@, event@, now).session,
            final(registry)@ == stepped(self@, old(registry)@, event@, now).registry,
            r.outbox.deep_view() == stepped(self@, old(registry)@, event@, now).outbox,
            r.session is None <==> event is Closed,
    {
        let mut session = self;
        match event {
            Inbound::Text(frame) => {
                let outbox = session.receive(registry, frame.as_str(), now);
                Reaction { session: Some(session), outbox }
            },
            Inbound::Other => Reaction { session: Some(session), outbox: nothing() },
            Inbound::Closed => {
                let outbox = session.close(registry);
                Reaction { session: None, outbox }
            },
        }
    }

    /// Ends the session: its entry leaves the registry, if it has one, and
    /// whoever remains receives the snapshot.
    pub fn close(self, registry: &mut Registry) -> (out: Vec<Delivery>)
        ensures
            final(registry)@ == departed(self@, old(registry)@),
            out.deep_view() == user_list_broadcast(departed(self@, old(registry)@)),
    {
        match &self.identity {
            Some(id) => {
                registry.remove(id.as_str());
            },
            None => {},
        }
        broadcast_user_list(registry)
    }
}

} // verus!
