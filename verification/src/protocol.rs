//! The wire protocol: the three kinds of frame and the payloads they carry.
//!
//! Every shape has a mathematical view, a reading from a JSON document and a
//! writing to one, both stated on views. A text is decoded by parsing it and
//! reading the document; a value is encoded by writing its document and
//! printing that.

use vstd::prelude::*;

use crate::json::{member_views, parse, parsed, print, printed, texts, Json, JsonView};
use crate::text::same_text;

verus! {

/// The kind of a frame.
#[derive(Clone, Copy, Debug, PartialEq, Eq)]
pub enum MsgTypes {
    /// Server to client: the membership snapshot.
    Users,
    /// Client to server: take this display name.
    Register,
    /// A chat message, in either direction.
    Message,
}

impl MsgTypes {
    /// The word that stands for the kind on the wire.
    pub open spec fn tag(self) -> Seq<char> {
        match self {
            MsgTypes::Users => "users"@,
            MsgTypes::Register => "register"@,
            MsgTypes::Message => "message"@,
        }
    }

    /// The kind that a word on the wire stands for.
    pub open spec fn of_tag(tag: Seq<char>) -> Option<MsgTypes> {
        if tag == "users"@ {
            Some(MsgTypes::Users)
        } else if tag == "register"@ {
            Some(MsgTypes::Register)
        } else if tag == "message"@ {
            Some(MsgTypes::Message)
        } else {
            None
        }
    }

    /// The word that stands for the kind on the wire.
    pub fn as_str(self) -> (r: &'static str)
        ensures
            r@ == self.tag(),
    {
        match self {
            MsgTypes::Users => "users",
            MsgTypes::Register => "register",
            MsgTypes::Message => "message",
        }
    }

    /// The kind that a word on the wire stands for, if it stands for one.
    pub fn from_tag(tag: &str) -> (r: Option<MsgTypes>)
        ensures
            r == MsgTypes::of_tag(tag@),
    {
        if same_text(tag, "users") {
            Some(MsgTypes::Users)
        } else if same_text(tag, "register") {
            Some(MsgTypes::Register)
        } else if same_text(tag, "message") {
            Some(MsgTypes::Message)
        } else {
            None
        }
    }
}

/// The three words are different, so each one stands for its own kind.
pub proof fn lemma_tags_differ(kind: MsgTypes)
    ensures
        MsgTypes::of_tag(kind.tag()) == Some(kind),
{
    reveal_strlit("users");
    reveal_strlit("register");
    reveal_strlit("message");
    assert("users"@.len() == 5);
    assert("register"@.len() == 8);
    assert("message"@.len() == 7);
}

/// A member slot of an object, as [`Json::get`] gives it.
pub open spec fn slot_view(slot: Option<&Json>) -> Option<JsonView> {
    match slot {
        Some(json) => Some(json@),
        None => None,
    }
}

/// Reads a member that must be a string.
pub open spec fn required_text(slot: Option<JsonView>) -> Option<Seq<char>> {
    match slot {
        Some(JsonView::Str(s)) => Some(s),
        _ => None,
    }
}

/// Reads a member that may be missing or `null` and is a string otherwise.
/// The outer option is `None` where the member holds anything else.
pub open spec fn optional_text(slot: Option<JsonView>) -> Option<Option<Seq<char>>> {
    match slot {
        None => Some(None),
        Some(JsonView::Null) => Some(None),
        Some(JsonView::Str(s)) => Some(Some(s)),
        Some(_) => None,
    }
}

/// Reads a member that may be missing or `null` and is an array of strings
/// otherwise. The outer option is `None` where the member holds anything else.
pub open spec fn optional_texts(slot: Option<JsonView>) -> Option<Option<Seq<Seq<char>>>> {
    match slot {
        None => Some(None),
        Some(JsonView::Null) => Some(None),
        Some(JsonView::Array(items)) => match texts(items) {
            Some(t) => Some(Some(t)),
            None => None,
        },
        Some(_) => None,
    }
}

/// The documents of a list of strings.
pub open spec fn text_items(list: Seq<Seq<char>>) -> Seq<JsonView> {
    list.map_values(|s: Seq<char>| JsonView::Str(s))
}

fn read_required_text(slot: Option<&Json>) -> (r: Option<String>)
    ensures
        r.deep_view() == required_text(slot_view(slot)),
{
    match slot {
        Some(json) => match json.as_str() {
            Some(s) => Some(s.to_owned()),
            None => None,
        },
        None => None,
    }
}

fn read_optional_text(slot: Option<&Json>) -> (r: Option<Option<String>>)
    ensures
        r.deep_view() == optional_text(slot_view(slot)),
{
    match slot {
        None => Some(None),
        Some(json) => {
            if json.is_null() {
                Some(None)
            } else {
                match json.as_str() {
                    Some(s) => Some(Some(s.to_owned())),
                    None => None,
                }
            }
        },
    }
}

fn read_texts(items: &Vec<Json>) -> (r: Option<Vec<String>>)
    ensures
        r.deep_view() == texts(Seq::new(items@.len(), |i: int| items@[i]@)),
{
    let ghost views = Seq::new(items@.len(), |i: int| items@[i]@);
    let mut out: Vec<String> = Vec::new();
    let mut i: usize = 0;
    while i < items.len()
        invariant
            i <= items@.len(),
            out@.len() == i,
            views == Seq::new(items@.len(), |i: int| items@[i]@),
            forall|k: int| 0 <= k < i ==> views[k] is Str && views[k]->Str_0 == out@[k]@,
        decreases items@.len() - i,
    {
        match items[i].as_str() {
            Some(s) => {
                out.push(s.to_owned());
            },
            None => {
                assert(!(views[i as int] is Str));
                return None;
            },
        }
        i += 1;
    }
    assert(out.deep_view() =~= texts(views)->0);
    Some(out)
}

fn read_optional_texts(slot: Option<&Json>) -> (r: Option<Option<Vec<String>>>)
    ensures
        r.deep_view() == optional_texts(slot_view(slot)),
{
    match slot {
        None => Some(None),
        Some(json) => {
            if json.is_null() {
                Some(None)
            } else {
                match json.as_array() {
                    Some(items) => {
                        assert(json@->Array_0 =~= Seq::new(items@.len(), |i: int| items@[i]@));
                        match read_texts(items) {
                            Some(list) => Some(Some(list)),
                            None => None,
                        }
                    },
                    None => None,
                }
            }
        },
    }
}

fn write_texts(list: &Vec<String>) -> (r: Json)
    ensures
        r@ == JsonView::Array(text_items(list.deep_view())),
{
    let mut items: Vec<Json> = Vec::new();
    let mut i: usize = 0;
    while i < list.len()
        invariant
            i <= list@.len(),
            items@.len() == i,
            forall|k: int| 0 <= k < i ==> items@[k]@ == JsonView::Str(list@[k]@),
        decreases list@.len() - i,
    {
        items.push(Json::Str(list[i].clone()));
        i += 1;
    }
    let r = Json::Array(items);
    assert(r@->Array_0 =~= text_items(list.deep_view()));
    r
}

/// One frame on the wire.
#[derive(Clone, Debug, PartialEq, Eq)]
pub struct WebSocketMessage {
    pub message_type: MsgTypes,
    pub data: Option<String>,
    pub data_array: Option<Vec<String>>,
}

/// The mathematical value of a [`WebSocketMessage`].
pub struct WebSocketMessageView {
    pub message_type: MsgTypes,
    pub data: Option<Seq<char>>,
    pub data_array: Option<Seq<Seq<char>>>,
}

impl View for WebSocketMessage {
    type V = WebSocketMessageView;

    open spec fn view(&self) -> WebSocketMessageView {
        WebSocketMessageView {
            message_type: self.message_type,
            data: self.data.deep_view(),
            data_array: self.data_array.deep_view(),
        }
    }
}

impl DeepView for WebSocketMessage {
    type V = WebSocketMessageView;

    open spec fn deep_view(&self) -> WebSocketMessageView {
        self@
    }
}

impl WebSocketMessageView {
    /// The document of a frame: `messageType`, then `data` and `dataArray`
    /// where they are present.
    pub open spec fn to_json(self) -> JsonView {
        JsonView::Object(
            seq![("messageType"@, JsonView::Str(self.message_type.tag()))] + match self.data {
                Some(data) => seq![("data"@, JsonView::Str(data))],
                None => seq![],
            } + match self.data_array {
                Some(list) => seq![("dataArray"@, JsonView::Array(text_items(list)))],
                None => seq![],
            },
        )
    }

    /// The frame that a document holds, if it holds one: an object whose
    /// `messageType` is one of the three words, whose `data` is a string where
    /// it is there, and whose `dataArray` is an array of strings where it is
    /// there. Other members are ignored.
    pub open spec fn from_json(json: JsonView) -> Option<WebSocketMessageView> {
        match required_text(json.member("messageType"@)) {
            Some(tag) => match (
                MsgTypes::of_tag(tag),
                optional_text(json.member("data"@)),
                optional_texts(json.member("dataArray"@)),
            ) {
                (Some(message_type), Some(data), Some(data_array)) => Some(
                    WebSocketMessageView { message_type, data, data_array },
                ),
                _ => None,
            },
            None => None,
        }
    }

    /// The frame that a text holds, if it is JSON and holds one.
    pub open spec fn decoded(text: Seq<char>) -> Option<WebSocketMessageView> {
        match parsed(text) {
            Some(json) => WebSocketMessageView::from_json(json),
            None => None,
        }
    }

    /// The text of a frame.
    pub open spec fn encoded(self) -> Seq<char> {
        printed(self.to_json())
    }
}

impl WebSocketMessage {
    /// Writes the frame as a document.
    pub fn to_json(&self) -> (r: Json)
        ensures
            r@ == self@.to_json(),
    {
        let mut members: Vec<(String, Json)> = Vec::new();
        members.push(("messageType".to_owned(), Json::Str(self.message_type.as_str().to_owned())));
        let ghost head = seq![("messageType"@, JsonView::Str(self.message_type.tag()))];
        assert(member_views(members@) =~= head);
        let ghost middle = match self@.data {
            Some(data) => seq![("data"@, JsonView::Str(data))],
            None => seq![],
        };
        match &self.data {
            Some(data) => {
                members.push(("data".to_owned(), Json::Str(data.clone())));
            },
            None => {},
        }
        assert(member_views(members@) =~= head + middle);
        let ghost tail = match self@.data_array {
            Some(list) => seq![("dataArray"@, JsonView::Array(text_items(list)))],
            None => seq![],
        };
        match &self.data_array {
            Some(list) => {
                members.push(("dataArray".to_owned(), write_texts(list)));
            },
            None => {},
        }
        assert(member_views(members@) =~= head + middle + tail);
        Json::Object(members)
    }

    /// Reads a frame from a document.
    pub fn from_json(json: &Json) -> (r: Option<WebSocketMessage>)
        ensures
            r.deep_view() == WebSocketMessageView::from_json(json@),
    {
        let tag = match read_required_text(json.get("messageType")) {
            Some(tag) => tag,
            None => {
                return None;
            },
        };
        let message_type = match MsgTypes::from_tag(tag.as_str()) {
            Some(kind) => kind,
            None => {
                return None;
            },
        };
        let data = match read_optional_text(json.get("data")) {
            Some(data) => data,
            None => {
                return None;
            },
        };
        let data_array = match read_optional_texts(json.get("dataArray")) {
            Some(list) => list,
            None => {
                return None;
            },
        };
        Some(WebSocketMessage { message_type, data, data_array })
    }

    /// Decodes a frame from its text. A text that is not JSON, or whose
    /// document holds no frame, gives `None`.
    pub fn decode(text: &str) -> (r: Option<WebSocketMessage>)
        ensures
            r.deep_view() == WebSocketMessageView::decoded(text@),
    {
        match parse(text) {
            Some(json) => WebSocketMessage::from_json(&json),
            None => None,
        }
    }

    /// Encodes the frame as text.
    pub fn encode(&self) -> (r: String)
        ensures
            r@ == self@.encoded(),
    {
        print(&self.to_json())
    }
}

/// Reads a member that must be a number that fits an index.
pub open spec fn required_index(slot: Option<JsonView>) -> Option<usize> {
    match slot {
        Some(JsonView::Number(n)) => if n <= usize::MAX {
            Some(n as usize)
        } else {
            None
        },
        _ => None,
    }
}

/// Reads a member that must be a number.
pub open spec fn required_number(slot: Option<JsonView>) -> Option<u64> {
    match slot {
        Some(JsonView::Number(n)) => Some(n),
        _ => None,
    }
}

fn read_required_index(slot: Option<&Json>) -> (r: Option<usize>)
    ensures
        r == required_index(slot_view(slot)),
{
    match slot {
        Some(json) => match json.as_u64() {
            Some(n) => if n <= usize::MAX as u64 {
                Some(n as usize)
            } else {
                None
            },
            None => None,
        },
        None => None,
    }
}

fn read_required_number(slot: Option<&Json>) -> (r: Option<u64>)
    ensures
        r == required_number(slot_view(slot)),
{
    match slot {
        Some(json) => json.as_u64(),
        None => None,
    }
}

/// What a reply refers to: a snapshot of the message that is answered, as the
/// sending client saw it. It is a copy, not a pointer: nothing that happens to
/// that message later changes it.
#[derive(Clone, Debug, PartialEq, Eq)]
pub struct ReplyData {
    /// The ordinal of the answered message in the sending client's own list.
    pub id: usize,
    pub from: String,
    pub message: String,
}

/// The mathematical value of a [`ReplyData`].
pub struct ReplyDataView {
    pub id: usize,
    pub from: Seq<char>,
    pub message: Seq<char>,
}

impl View for ReplyData {
    type V = ReplyDataView;

    open spec fn view(&self) -> ReplyDataView {
        ReplyDataView { id: self.id, from: self.from@, message: self.message@ }
    }
}

impl DeepView for ReplyData {
    type V = ReplyDataView;

    open spec fn deep_view(&self) -> ReplyDataView {
        self@
    }
}

impl ReplyDataView {
    /// The document of a reply reference: `id`, `from`, `message`.
    pub open spec fn to_json(self) -> JsonView {
        JsonView::Object(
            seq![
                ("id"@, JsonView::Number(self.id as u64)),
                ("from"@, JsonView::Str(self.from)),
                ("message"@, JsonView::Str(self.message)),
            ],
        )
    }

    /// The reply reference that a document holds, if it holds one: an object
    /// whose `id` is a number that fits an index and whose `from` and
    /// `message` are strings.
    pub open spec fn from_json(json: JsonView) -> Option<ReplyDataView> {
        match (
            required_index(json.member("id"@)),
            required_text(json.member("from"@)),
            required_text(json.member("message"@)),
        ) {
            (Some(id), Some(from), Some(message)) => Some(ReplyDataView { id, from, message }),
            _ => None,
        }
    }

    /// The reply reference that a text holds, if it is JSON and holds one.
    pub open spec fn decoded(text: Seq<char>) -> Option<ReplyDataView> {
        match parsed(text) {
            Some(json) => ReplyDataView::from_json(json),
            None => None,
        }
    }

    /// The text of a reply reference.
    pub open spec fn encoded(self) -> Seq<char> {
        printed(self.to_json())
    }
}

impl ReplyData {
    /// Writes the reference as a document.
    pub fn to_json(&self) -> (r: Json)
        ensures
            r@ == self@.to_json(),
    {
        let mut members: Vec<(String, Json)> = Vec::new();
        members.push(("id".to_owned(), Json::Number(self.id as u64)));
        members.push(("from".to_owned(), Json::Str(self.from.clone())));
        members.push(("message".to_owned(), Json::Str(self.message.clone())));
        assert(member_views(members@) =~= self@.to_json()->Object_0);
        Json::Object(members)
    }

    /// Reads a reference from a document.
    pub fn from_json(json: &Json) -> (r: Option<ReplyData>)
        ensures
            r.deep_view() == ReplyDataView::from_json(json@),
    {
        let id = match read_required_index(json.get("id")) {
            Some(id) => id,
            None => {
                return None;
            },
        };
        let from = match read_required_text(json.get("from")) {
            Some(from) => from,
            None => {
                return None;
            },
        };
        let message = match read_required_text(json.get("message")) {
            Some(message) => message,
            None => {
                return None;
            },
        };
        Some(ReplyData { id, from, message })
    }

    /// Decodes a reference from its text.
    pub fn decode(text: &str) -> (r: Option<ReplyData>)
        ensures
            r.deep_view() == ReplyDataView::decoded(text@),
    {
        match parse(text) {
            Some(json) => ReplyData::from_json(&json),
            None => None,
        }
    }

    /// Encodes the reference as text.
    pub fn encode(&self) -> (r: String)
        ensures
            r@ == self@.encoded(),
    {
        print(&self.to_json())
    }
}

/// What a client sends in the `data` of a message frame: the text, and the
/// encoded reply reference where the message answers another.
#[derive(Clone, Debug, PartialEq, Eq)]
pub struct MessageData {
    pub text: String,
    pub reply_to: Option<String>,
}

/// The mathematical value of a [`MessageData`].
pub struct MessageDataView {
    pub text: Seq<char>,
    pub reply_to: Option<Seq<char>>,
}

impl View for MessageData {
    type V = MessageDataView;

    open spec fn view(&self) -> MessageDataView {
        MessageDataView { text: self.text@, reply_to: self.reply_to.deep_view() }
    }
}

impl DeepView for MessageData {
    type V = MessageDataView;

    open spec fn deep_view(&self) -> MessageDataView {
        self@
    }
}

impl MessageDataView {
    /// The document of a message body: `text`, then `reply_to` where it is
    /// present.
    pub open spec fn to_json(self) -> JsonView {
        JsonView::Object(
            seq![("text"@, JsonView::Str(self.text))] + match self.reply_to {
                Some(reply) => seq![("reply_to"@, JsonView::Str(reply))],
                None => seq![],
            },
        )
    }

    /// The message body that a document holds, if it holds one: an object
    /// whose `text` is a string and whose `reply_to` is a string where it is
    /// there.
    pub open spec fn from_json(json: JsonView) -> Option<MessageDataView> {
        match (required_text(json.member("text"@)), optional_text(json.member("reply_to"@))) {
            (Some(text), Some(reply_to)) => Some(MessageDataView { text, reply_to }),
            _ => None,
        }
    }

    /// The message body that a text holds, if it is JSON and holds one.
    pub open spec fn decoded(text: Seq<char>) -> Option<MessageDataView> {
        match parsed(text) {
            Some(json) => MessageDataView::from_json(json),
            None => None,
        }
    }

    /// The text of a message body.
    pub open spec fn encoded(self) -> Seq<char> {
        printed(self.to_json())
    }
}

impl MessageData {
    /// Writes the body as a document.
    pub fn to_json(&self) -> (r: Json)
        ensures
            r@ == self@.to_json(),
    {
        let mut members: Vec<(String, Json)> = Vec::new();
        members.push(("text".to_owned(), Json::Str(self.text.clone())));
        let ghost head = seq![("text"@, JsonView::Str(self.text@))];
        assert(member_views(members@) =~= head);
        let ghost tail = match self@.reply_to {
            Some(reply) => seq![("reply_to"@, JsonView::Str(reply))],
            None => seq![],
        };
        match &self.reply_to {
            Some(reply) => {
                members.push(("reply_to".to_owned(), Json::Str(reply.clone())));
            },
            None => {},
        }
        assert(member_views(members@) =~= head + tail);
        Json::Object(members)
    }

    /// Reads a body from a document.
    pub fn from_json(json: &Json) -> (r: Option<MessageData>)
        ensures
            r.deep_view() == MessageDataView::from_json(json@),
    {
        let text = match read_required_text(json.get("text")) {
            Some(text) => text,
            None => {
                return None;
            },
        };
        let reply_to = match read_optional_text(json.get("reply_to")) {
            Some(reply_to) => reply_to,
            None => {
                return None;
            },
        };
        Some(MessageData { text, reply_to })
    }

    /// Decodes a body from its text.
    pub fn decode(text: &str) -> (r: Option<MessageData>)
        ensures
            r.deep_view() == MessageDataView::decoded(text@),
    {
        match parse(text) {
            Some(json) => MessageData::from_json(&json),
            None => None,
        }
    }

    /// Encodes the body as text.
    pub fn encode(&self) -> (r: String)
        ensures
            r@ == self@.encoded(),
    {
        print(&self.to_json())
    }
}

/// Reads a member that may be missing or `null` and is a reply reference
/// otherwise. The outer option is `None` where the member holds anything else.
pub open spec fn optional_reply(slot: Option<JsonView>) -> Option<Option<ReplyDataView>> {
    match slot {
        None => Some(None),
        Some(JsonView::Null) => Some(None),
        Some(json) => match ReplyDataView::from_json(json) {
            Some(reply) => Some(Some(reply)),
            None => None,
        },
    }
}

fn read_optional_reply(slot: Option<&Json>) -> (r: Option<Option<ReplyData>>)
    ensures
        r.deep_view() == optional_reply(slot_view(slot)),
{
    match slot {
        None => Some(None),
        Some(json) => {
            if json.is_null() {
                Some(None)
            } else {
                match ReplyData::from_json(json) {
                    Some(reply) => Some(Some(reply)),
                    None => None,
                }
            }
        },
    }
}

/// A chat message as the relay broadcasts it.
#[derive(Clone, Debug, PartialEq, Eq)]
pub struct ChatMessage {
    /// The identity of the sender.
    pub from: String,
    pub message: String,
    /// When the relay took the message, in milliseconds since the epoch.
    pub time: u64,
    pub reply_to: Option<ReplyData>,
}

/// The mathematical value of a [`ChatMessage`].
pub struct ChatMessageView {
    pub from: Seq<char>,
    pub message: Seq<char>,
    pub time: u64,
    pub reply_to: Option<ReplyDataView>,
}

impl View for ChatMessage {
    type V = ChatMessageView;

    open spec fn view(&self) -> ChatMessageView {
        ChatMessageView {
            from: self.from@,
            message: self.message@,
            time: self.time,
            reply_to: self.reply_to.deep_view(),
        }
    }
}

impl DeepView for ChatMessage {
    type V = ChatMessageView;

    open spec fn deep_view(&self) -> ChatMessageView {
        self@
    }
}

impl ChatMessageView {
    /// The document of a chat message: `from`, `message`, `time`, then
    /// `reply_to` where it is present.
    pub open spec fn to_json(self) -> JsonView {
        JsonView::Object(
            seq![
                ("from"@, JsonView::Str(self.from)),
                ("message"@, JsonView::Str(self.message)),
                ("time"@, JsonView::Number(self.time)),
            ] + match self.reply_to {
                Some(reply) => seq![("reply_to"@, reply.to_json())],
                None => seq![],
            },
        )
    }

    /// The chat message that a document holds, if it holds one: an object
    /// whose `from` and `message` are strings, whose `time` is a number, and
    /// whose `reply_to` is a reply reference where it is there.
    pub open spec fn from_json(json: JsonView) -> Option<ChatMessageView> {
        match (
            required_text(json.member("from"@)),
            required_text(json.member("message"@)),
            required_number(json.member("time"@)),
            optional_reply(json.member("reply_to"@)),
        ) {
            (Some(from), Some(message), Some(time), Some(reply_to)) => Some(
                ChatMessageView { from, message, time, reply_to },
            ),
            _ => None,
        }
    }

    /// The chat message that a text holds, if it is JSON and holds one.
    pub open spec fn decoded(text: Seq<char>) -> Option<ChatMessageView> {
        match parsed(text) {
            Some(json) => ChatMessageView::from_json(json),
            None => None,
        }
    }

    /// The text of a chat message.
    pub open spec fn encoded(self) -> Seq<char> {
        printed(self.to_json())
    }

    /// The frame that carries a chat message: kind `message`, with the text of
    /// the message as its `data`.
    pub open spec fn frame(self) -> WebSocketMessageView {
        WebSocketMessageView {
            message_type: MsgTypes::Message,
            data: Some(self.encoded()),
            data_array: None,
        }
    }
}

impl ChatMessage {
    /// Writes the message as a document.
    pub fn to_json(&self) -> (r: Json)
        ensures
            r@ == self@.to_json(),
    {
        let mut members: Vec<(String, Json)> = Vec::new();
        members.push(("from".to_owned(), Json::Str(self.from.clone())));
        members.push(("message".to_owned(), Json::Str(self.message.clone())));
        members.push(("time".to_owned(), Json::Number(self.time)));
        let ghost head = seq![
            ("from"@, JsonView::Str(self.from@)),
            ("message"@, JsonView::Str(self.message@)),
            ("time"@, JsonView::Number(self.time)),
        ];
        assert(member_views(members@) =~= head);
        let ghost tail = match self@.reply_to {
            Some(reply) => seq![("reply_to"@, reply.to_json())],
            None => seq![],
        };
        match &self.reply_to {
            Some(reply) => {
                members.push(("reply_to".to_owned(), reply.to_json()));
            },
            None => {},
        }
        assert(member_views(members@) =~= head + tail);
        Json::Object(members)
    }

    /// Reads a message from a document.
    pub fn from_json(json: &Json) -> (r: Option<ChatMessage>)
        ensures
            r.deep_view() == ChatMessageView::from_json(json@),
    {
        let from = match read_required_text(json.get("from")) {
            Some(from) => from,
            None => {
                return None;
            },
        };
        let message = match read_required_text(json.get("message")) {
            Some(message) => message,
            None => {
                return None;
            },
        };
        let time = match read_required_number(json.get("time")) {
            Some(time) => time,
            None => {
                return None;
            },
        };
        let reply_to = match read_optional_reply(json.get("reply_to")) {
            Some(reply_to) => reply_to,
            None => {
                return None;
            },
        };
        Some(ChatMessage { from, message, time, reply_to })
    }

    /// Decodes a message from its text.
    pub fn decode(text: &str) -> (r: Option<ChatMessage>)
        ensures
            r.deep_view() == ChatMessageView::decoded(text@),
    {
        match parse(text) {
            Some(json) => ChatMessage::from_json(&json),
            None => None,
        }
    }

    /// Encodes the message as text.
    pub fn encode(&self) -> (r: String)
        ensures
            r@ == self@.encoded(),
    {
        print(&self.to_json())
    }

    /// The frame that carries the message to the clients.
    pub fn frame(&self) -> (r: WebSocketMessage)
        ensures
            r@ == self@.frame(),
    {
        WebSocketMessage {
            message_type: MsgTypes::Message,
            data: Some(self.encode()),
            data_array: None,
        }
    }
}

} // verus!
