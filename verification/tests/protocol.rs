use chat_relay::json::{parse, Json};
use chat_relay::protocol::{ChatMessage, MessageData, MsgTypes, ReplyData, WebSocketMessage};

fn s(text: &str) -> String {
    text.to_string()
}

#[test]
fn tags_of_the_three_kinds() {
    assert_eq!(MsgTypes::Users.as_str(), "users");
    assert_eq!(MsgTypes::Register.as_str(), "register");
    assert_eq!(MsgTypes::Message.as_str(), "message");
    assert_eq!(MsgTypes::from_tag("users"), Some(MsgTypes::Users));
    assert_eq!(MsgTypes::from_tag("register"), Some(MsgTypes::Register));
    assert_eq!(MsgTypes::from_tag("message"), Some(MsgTypes::Message));
    assert_eq!(MsgTypes::from_tag("Register"), None);
    assert_eq!(MsgTypes::from_tag("userlist"), None);
    assert_eq!(MsgTypes::from_tag(""), None);
}

#[test]
fn tag_round_trip() {
    for kind in [MsgTypes::Users, MsgTypes::Register, MsgTypes::Message] {
        assert_eq!(MsgTypes::from_tag(kind.as_str()), Some(kind));
    }
}

#[test]
fn decode_register_frame() {
    assert_eq!(
        WebSocketMessage::decode(r#"{"messageType":"register","data":"alice"}"#),
        Some(WebSocketMessage { message_type: MsgTypes::Register, data: Some(s("alice")), data_array: None })
    );
}

#[test]
fn decode_users_frame() {
    assert_eq!(
        WebSocketMessage::decode(r#"{"messageType":"users","dataArray":["alice","bob"]}"#),
        Some(WebSocketMessage {
            message_type: MsgTypes::Users,
            data: None,
            data_array: Some(vec![s("alice"), s("bob")]),
        })
    );
    assert_eq!(
        WebSocketMessage::decode(r#"{"messageType":"users","dataArray":[]}"#),
        Some(WebSocketMessage { message_type: MsgTypes::Users, data: None, data_array: Some(vec![]) })
    );
}

#[test]
fn decode_treats_null_as_absent_and_skips_unknown_members() {
    assert_eq!(
        WebSocketMessage::decode(r#"{"extra":[1,2],"data":null,"messageType":"message","dataArray":null}"#),
        Some(WebSocketMessage { message_type: MsgTypes::Message, data: None, data_array: None })
    );
    assert_eq!(
        WebSocketMessage::decode(r#"{"messageType":"register"}"#),
        Some(WebSocketMessage { message_type: MsgTypes::Register, data: None, data_array: None })
    );
}

#[test]
fn decode_refuses_frames_that_do_not_conform() {
    let bad = [
        "",
        "not json",
        "[]",
        "\"register\"",
        "null",
        "{}",
        r#"{"data":"alice"}"#,
        r#"{"messageType":"login","data":"alice"}"#,
        r#"{"messageType":"REGISTER","data":"alice"}"#,
        r#"{"messageType":1,"data":"alice"}"#,
        r#"{"messageType":null,"data":"alice"}"#,
        r#"{"messageType":"register","data":5}"#,
        r#"{"messageType":"register","data":["alice"]}"#,
        r#"{"messageType":"register","data":{"name":"alice"}}"#,
        r#"{"messageType":"users","dataArray":"alice"}"#,
        r#"{"messageType":"users","dataArray":["alice",1]}"#,
        r#"{"messageType":"users","dataArray":[null]}"#,
        r#"{"messageType":"users","dataArray":{"0":"alice"}}"#,
        r#"{"messagetype":"register","data":"alice"}"#,
        r#"{"messageType":"register","data":"alice"} trailing"#,
    ];
    for text in bad {
        assert_eq!(WebSocketMessage::decode(text), None, "{:?}", text);
    }
}

#[test]
fn encode_frame_leaves_out_what_is_absent() {
    let register = WebSocketMessage { message_type: MsgTypes::Register, data: Some(s("alice")), data_array: None };
    assert_eq!(register.encode(), r#"{"messageType":"register","data":"alice"}"#);
    let users = WebSocketMessage { message_type: MsgTypes::Users, data: None, data_array: Some(vec![s("a"), s("b")]) };
    assert_eq!(users.encode(), r#"{"messageType":"users","dataArray":["a","b"]}"#);
    let bare = WebSocketMessage { message_type: MsgTypes::Message, data: None, data_array: None };
    assert_eq!(bare.encode(), r#"{"messageType":"message"}"#);
    let both = WebSocketMessage { message_type: MsgTypes::Message, data: Some(s("x")), data_array: Some(vec![]) };
    assert_eq!(both.encode(), r#"{"messageType":"message","data":"x","dataArray":[]}"#);
}

#[test]
fn frame_to_json_has_the_members_in_order() {
    let both = WebSocketMessage { message_type: MsgTypes::Users, data: Some(s("d")), data_array: Some(vec![s("a")]) };
    assert_eq!(
        both.to_json(),
        Json::Object(vec![
            (s("messageType"), Json::Str(s("users"))),
            (s("data"), Json::Str(s("d"))),
            (s("dataArray"), Json::Array(vec![Json::Str(s("a"))])),
        ])
    );
}

#[test]
fn frame_round_trip_through_text() {
    let frames = [
        WebSocketMessage { message_type: MsgTypes::Register, data: Some(s("al \"ice\"\n")), data_array: None },
        WebSocketMessage { message_type: MsgTypes::Users, data: None, data_array: Some(vec![s("a"), s(""), s("\u{e9}")]) },
        WebSocketMessage { message_type: MsgTypes::Message, data: None, data_array: None },
        WebSocketMessage { message_type: MsgTypes::Message, data: Some(s("")), data_array: Some(vec![]) },
    ];
    for frame in frames {
        assert_eq!(WebSocketMessage::decode(&frame.encode()), Some(frame));
    }
}

#[test]
fn decode_reply_reference() {
    assert_eq!(
        ReplyData::decode(r#"{"id":3,"from":"alice","message":"hi"}"#),
        Some(ReplyData { id: 3, from: s("alice"), message: s("hi") })
    );
    assert_eq!(
        ReplyData::decode(r#"{"message":"","from":"","id":0,"more":true}"#),
        Some(ReplyData { id: 0, from: s(""), message: s("") })
    );
}

#[test]
fn decode_refuses_reply_references_that_do_not_conform() {
    let bad = [
        "",
        "3",
        "[3,\"alice\",\"hi\"]",
        r#"{"from":"alice","message":"hi"}"#,
        r#"{"id":3,"message":"hi"}"#,
        r#"{"id":3,"from":"alice"}"#,
        r#"{"id":-3,"from":"alice","message":"hi"}"#,
        r#"{"id":3.0,"from":"alice","message":"hi"}"#,
        r#"{"id":"3","from":"alice","message":"hi"}"#,
        r#"{"id":null,"from":"alice","message":"hi"}"#,
        r#"{"id":18446744073709551616,"from":"alice","message":"hi"}"#,
        r#"{"id":3,"from":null,"message":"hi"}"#,
        r#"{"id":3,"from":"alice","message":7}"#,
    ];
    for text in bad {
        assert_eq!(ReplyData::decode(text), None, "{:?}", text);
    }
}

#[test]
fn encode_reply_reference() {
    let reply = ReplyData { id: 3, from: s("alice"), message: s("hi") };
    assert_eq!(reply.encode(), r#"{"id":3,"from":"alice","message":"hi"}"#);
    assert_eq!(ReplyData::decode(&reply.encode()), Some(reply));
}

#[test]
fn decode_message_body() {
    assert_eq!(
        MessageData::decode(r#"{"text":"hello"}"#),
        Some(MessageData { text: s("hello"), reply_to: None })
    );
    assert_eq!(
        MessageData::decode(r#"{"text":"hello","reply_to":null}"#),
        Some(MessageData { text: s("hello"), reply_to: None })
    );
    assert_eq!(
        MessageData::decode(r#"{"reply_to":"{\"id\":1}","text":""}"#),
        Some(MessageData { text: s(""), reply_to: Some(s("{\"id\":1}")) })
    );
}

#[test]
fn decode_refuses_message_bodies_that_do_not_conform() {
    let bad = [
        "",
        "hello",
        "\"hello\"",
        "{}",
        r#"{"reply_to":"x"}"#,
        r#"{"text":null}"#,
        r#"{"text":1}"#,
        r#"{"text":"hello","reply_to":{"id":1,"from":"a","message":"b"}}"#,
        r#"{"text":"hello","reply_to":3}"#,
        r#"{"Text":"hello"}"#,
    ];
    for text in bad {
        assert_eq!(MessageData::decode(text), None, "{:?}", text);
    }
}

#[test]
fn encode_message_body() {
    let plain = MessageData { text: s("hello"), reply_to: None };
    assert_eq!(plain.encode(), r#"{"text":"hello"}"#);
    let reply = MessageData { text: s("again"), reply_to: Some(s(r#"{"id":3,"from":"alice","message":"hi"}"#)) };
    assert_eq!(
        reply.encode(),
        r#"{"text":"again","reply_to":"{\"id\":3,\"from\":\"alice\",\"message\":\"hi\"}"}"#
    );
    assert_eq!(MessageData::decode(&plain.encode()), Some(plain));
    assert_eq!(MessageData::decode(&reply.encode()), Some(reply));
}

#[test]
fn encode_chat_message() {
    let plain = ChatMessage { from: s("alice"), message: s("hello"), time: 1700000000000, reply_to: None };
    assert_eq!(plain.encode(), r#"{"from":"alice","message":"hello","time":1700000000000}"#);
    let reply = ChatMessage {
        from: s("bob"),
        message: s("again"),
        time: 0,
        reply_to: Some(ReplyData { id: 3, from: s("alice"), message: s("hi") }),
    };
    assert_eq!(
        reply.encode(),
        r#"{"from":"bob","message":"again","time":0,"reply_to":{"id":3,"from":"alice","message":"hi"}}"#
    );
}

#[test]
fn decode_chat_message() {
    assert_eq!(
        ChatMessage::decode(r#"{"from":"alice","message":"hello","time":12}"#),
        Some(ChatMessage { from: s("alice"), message: s("hello"), time: 12, reply_to: None })
    );
    assert_eq!(
        ChatMessage::decode(r#"{"from":"alice","message":"hello","time":12,"reply_to":null}"#),
        Some(ChatMessage { from: s("alice"), message: s("hello"), time: 12, reply_to: None })
    );
    assert_eq!(
        ChatMessage::decode(
            r#"{"time":18446744073709551615,"reply_to":{"id":3,"from":"alice","message":"hi"},"message":"m","from":"f"}"#
        ),
        Some(ChatMessage {
            from: s("f"),
            message: s("m"),
            time: u64::MAX,
            reply_to: Some(ReplyData { id: 3, from: s("alice"), message: s("hi") }),
        })
    );
}

#[test]
fn decode_refuses_chat_messages_that_do_not_conform() {
    let bad = [
        "",
        "{}",
        r#"{"message":"hello","time":12}"#,
        r#"{"from":"alice","time":12}"#,
        r#"{"from":"alice","message":"hello"}"#,
        r#"{"from":"alice","message":"hello","time":-1}"#,
        r#"{"from":"alice","message":"hello","time":1.5}"#,
        r#"{"from":"alice","message":"hello","time":"12"}"#,
        r#"{"from":"alice","message":"hello","time":12,"reply_to":"x"}"#,
        r#"{"from":"alice","message":"hello","time":12,"reply_to":{"id":3}}"#,
        r#"{"from":1,"message":"hello","time":12}"#,
    ];
    for text in bad {
        assert_eq!(ChatMessage::decode(text), None, "{:?}", text);
    }
}

#[test]
fn chat_message_round_trip_through_text() {
    let chats = [
        ChatMessage { from: s(""), message: s(""), time: 0, reply_to: None },
        ChatMessage {
            from: s("al\"ice"),
            message: s("line\nbreak \\ \u{1f600}"),
            time: 1700000000123,
            reply_to: Some(ReplyData { id: usize::MAX, from: s("b\tb"), message: s("{\"x\":1}") }),
        },
    ];
    for chat in chats {
        assert_eq!(ChatMessage::decode(&chat.encode()), Some(chat));
    }
}

#[test]
fn chat_frame_carries_the_encoded_message_as_data() {
    let chat = ChatMessage { from: s("alice"), message: s("hello"), time: 5, reply_to: None };
    let frame = chat.frame();
    assert_eq!(
        frame,
        WebSocketMessage {
            message_type: MsgTypes::Message,
            data: Some(s(r#"{"from":"alice","message":"hello","time":5}"#)),
            data_array: None,
        }
    );
    assert_eq!(
        frame.encode(),
        r#"{"messageType":"message","data":"{\"from\":\"alice\",\"message\":\"hello\",\"time\":5}"}"#
    );
}

#[test]
fn from_json_reads_what_to_json_wrote() {
    let reply = ReplyData { id: 9, from: s("a"), message: s("b") };
    assert_eq!(ReplyData::from_json(&reply.to_json()), Some(reply.clone()));
    let chat = ChatMessage { from: s("x"), message: s("y"), time: 1, reply_to: Some(reply) };
    assert_eq!(ChatMessage::from_json(&chat.to_json()), Some(chat));
    let body = MessageData { text: s("t"), reply_to: Some(s("r")) };
    assert_eq!(MessageData::from_json(&body.to_json()), Some(body));
    let frame = WebSocketMessage { message_type: MsgTypes::Users, data: None, data_array: Some(vec![s("u")]) };
    assert_eq!(WebSocketMessage::from_json(&frame.to_json()), Some(frame));
}

#[test]
fn from_json_takes_the_first_of_two_members_with_one_name() {
    let json = Json::Object(vec![
        (s("messageType"), Json::Str(s("register"))),
        (s("data"), Json::Str(s("first"))),
        (s("data"), Json::Str(s("second"))),
    ]);
    assert_eq!(
        WebSocketMessage::from_json(&json),
        Some(WebSocketMessage { message_type: MsgTypes::Register, data: Some(s("first")), data_array: None })
    );
    assert_eq!(WebSocketMessage::from_json(&parse("[]").unwrap()), None);
}
