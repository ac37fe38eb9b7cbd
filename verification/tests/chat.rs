use rustc_serialize::json::Json;
use btce_trollbox::chat::{
    after_ping, build_subscription_message, decode_chat_message, deserealise_msg, channel_from_encoding, escape_json, react,
    read_chat_frame, string_or_empty_object_of, AttemptOutcome, Incoming, PingAction,
    PingOutcome, Reaction, PING_INTERVAL_MS, RETRY_PAUSE_MS,
};
use btce_trollbox::json::JsonShape;
use btce_trollbox::{BtceChatTransport, ChatFrame, ChatMessage};


const PAYLOAD: &str = "{\"uid\":\"42\",\"login\":\"bob\",\"msg\":\"alice, hi\",\"date\":\"2015-01-01\",\"usr_clr\":\"#000\"}";

/// A pusher event as the trollbox sends it: the message JSON, encoded as a
/// JSON string, encoded as a JSON string once more.
fn event() -> String {
    let inner = Json::String(String::from(PAYLOAD)).to_string();
    let data = Json::String(inner).to_string();
    String::from("{\"event\":\"msg\",\"channel\":\"chat_en\",\"data\":") + &data + "}"
}

#[test]
fn subscription_message_names_the_channel() {
    assert_eq!(
        build_subscription_message("chat_ru"),
        "{\"event\":\"pusher:subscribe\",\"data\":{\"channel\": \"chat_ru\"}}"
    );
    assert_eq!(
        build_subscription_message(""),
        "{\"event\":\"pusher:subscribe\",\"data\":{\"channel\": \"\"}}"
    );
}

#[test]
fn transport_subscribes_its_channel() {
    let t = BtceChatTransport::new("chat_en");
    assert_eq!(t.failures(), 0);
    assert_eq!(t.pause_before_attempt(), 0);
    assert_eq!(
        t.subscription_message(),
        "{\"event\":\"pusher:subscribe\",\"data\":{\"channel\": \"chat_en\"}}"
    );
}

#[test]
fn transport_counts_failures_and_pauses_after_them() {
    let mut t = BtceChatTransport::new("chat_en");
    assert!(!t.record_attempt(AttemptOutcome::ConnectFailed));
    assert_eq!(t.failures(), 1);
    assert_eq!(t.pause_before_attempt(), RETRY_PAUSE_MS);
    assert_eq!(RETRY_PAUSE_MS, 2000);
    assert!(!t.record_attempt(AttemptOutcome::HandshakeFailed));
    assert!(!t.record_attempt(AttemptOutcome::SubscribeFailed));
    assert_eq!(t.failures(), 3);
    assert!(t.record_attempt(AttemptOutcome::Subscribed));
    assert_eq!(t.failures(), 0);
    assert_eq!(t.pause_before_attempt(), 0);
}

#[test]
fn listener_reactions() {
    assert_eq!(react(Incoming::Text), Reaction::ReadChat);
    assert_eq!(react(Incoming::Ping), Reaction::AnswerPing);
    assert_eq!(react(Incoming::PongFailed), Reaction::CloseAndReconnect);
    assert_eq!(react(Incoming::Close), Reaction::Reconnect);
    assert_eq!(react(Incoming::ReadFailed), Reaction::Reconnect);
    assert_eq!(react(Incoming::Other), Reaction::Skip);
}

#[test]
fn chat_event_is_unwrapped() {
    let f = read_chat_frame(&event()).expect("a chat event");
    assert_eq!(f.payload, PAYLOAD);
    assert_eq!(f.channel, "en");
}

#[test]
fn chat_event_channel_loses_quotes_and_prefixes() {
    let ev = "{\"channel\":\"chat_chat_\\\"x\\\"\",\"data\":\"\\\"{}\\\"\"}";
    let f = read_chat_frame(ev).expect("a chat event");
    assert_eq!(f.channel, "\\x\\");
    assert_eq!(f.payload, "{}");
}

#[test]
fn chat_event_without_channel_has_empty_channel() {
    let ev = "{\"data\":\"\\\"{}\\\"\"}";
    let f = read_chat_frame(ev).expect("a chat event");
    assert_eq!(f.channel, "");
    assert_eq!(f.payload, "{}");
}

#[test]
fn chat_event_with_non_string_channel() {
    let ev = "{\"channel\":5,\"data\":\"\\\"{}\\\"\"}";
    let f = read_chat_frame(ev).expect("a chat event");
    assert_eq!(f.channel, "5");
}

#[test]
fn chat_event_data_not_a_string_gives_empty_object() {
    let ev = "{\"channel\":\"chat_en\",\"data\":3}";
    let f = read_chat_frame(ev).expect("a chat event");
    assert_eq!(f.payload, "{}");
    let ev = "{\"channel\":\"chat_en\",\"data\":\"3\"}";
    let f = read_chat_frame(ev).expect("a chat event");
    assert_eq!(f.payload, "{}");
}

#[test]
fn chat_event_rejections() {
    assert!(read_chat_frame("not json").is_none());
    assert!(read_chat_frame("[1,2]").is_none());
    assert!(read_chat_frame("\"text\"").is_none());
    // no data member: the empty string is not JSON
    assert!(read_chat_frame("{\"channel\":\"chat_en\"}").is_none());
    // data holds a string that is not JSON
    assert!(read_chat_frame("{\"channel\":\"chat_en\",\"data\":\"{\"}").is_none());
}

#[test]
fn frame_attaches_channel() {
    let f = ChatFrame { payload: String::from("{}"), channel: String::from("ru") };
    let m = ChatMessage {
        uid: String::from("1"),
        login: String::from("bob"),
        msg: String::from("hi"),
        date: String::from("d"),
        usr_clr: String::from("c"),
        channel: None,
    };
    let m = f.attach(m);
    assert_eq!(m.channel, Some(String::from("ru")));
    assert_eq!(m.login, "bob");
    assert_eq!(m.msg, "hi");
    assert_eq!(m.uid, "1");
    assert_eq!(m.date, "d");
    assert_eq!(m.usr_clr, "c");
}

#[test]
fn subscription_message_escapes_the_channel() {
    for ch in ["chat_en", "a\"b", "back\\slash", "line\nbreak", "\u{1}ctl", "ünï", ""] {
        let text = build_subscription_message(ch);
        let parsed = Json::from_str(&text).expect("the request is JSON");
        let data = parsed.find("data").expect("a data member");
        assert_eq!(data.find("channel").and_then(|c| c.as_string()), Some(ch), "{}", text);
        assert_eq!(parsed.find("event").and_then(|c| c.as_string()), Some("pusher:subscribe"));
    }
    assert_eq!(
        build_subscription_message("a\"b\\c"),
        "{\"event\":\"pusher:subscribe\",\"data\":{\"channel\": \"a\\\"b\\\\c\"}}"
    );
}

#[test]
fn json_escaping() {
    assert_eq!(escape_json("plain"), "plain");
    assert_eq!(escape_json("\""), "\\\"");
    assert_eq!(escape_json("\\"), "\\\\");
    assert_eq!(escape_json("\n"), "\\u000a");
    assert_eq!(escape_json("\u{1f}"), "\\u001f");
    assert_eq!(escape_json("\u{7f}é"), "\u{7f}é");
}

#[test]
fn frame_steps_on_plain_values() {
    assert_eq!(channel_from_encoding(Some(String::from("\"chat_en\""))), "en");
    assert_eq!(channel_from_encoding(None), "");
    assert_eq!(channel_from_encoding(Some(String::from("12"))), "12");
    assert_eq!(string_or_empty_object_of(None), None);
    assert_eq!(
        string_or_empty_object_of(Some(JsonShape::Text(String::from("x")))),
        Some(String::from("x"))
    );
    assert_eq!(string_or_empty_object_of(Some(JsonShape::Object)), Some(String::from("{}")));
    assert_eq!(string_or_empty_object_of(Some(JsonShape::Array(0))), Some(String::from("{}")));
}

#[test]
fn keep_alive_decisions() {
    assert_eq!(PING_INTERVAL_MS, 120_000);
    assert_eq!(after_ping(PingOutcome::Sent), PingAction::WaitThenPing);
    assert_eq!(after_ping(PingOutcome::SendFailed), PingAction::CloseAndStop);
    assert_eq!(after_ping(PingOutcome::SenderUnavailable), PingAction::Stop);
}

#[test]
fn listener_reads_text_until_connection_ends() {
    let events = vec![
        Incoming::Other,
        Incoming::Text,
        Incoming::Ping,
        Incoming::Text,
        Incoming::Other,
        Incoming::Close,
        Incoming::Text,
    ];
    let mut read = Vec::new();
    let mut ended_at = None;
    for (i, e) in events.iter().enumerate() {
        match react(*e) {
            Reaction::ReadChat => read.push(i),
            Reaction::Reconnect | Reaction::CloseAndReconnect => {
                ended_at = Some(i);
                break;
            }
            Reaction::AnswerPing | Reaction::Skip => {}
        }
    }
    assert_eq!(read, vec![1, 3]);
    assert_eq!(ended_at, Some(5));
    assert_eq!(react(Incoming::PongFailed), Reaction::CloseAndReconnect);
    assert_eq!(react(Incoming::ReadFailed), Reaction::Reconnect);
}

#[test]
fn frame_with_overlong_exponent_is_unreadable() {
    let ev = String::from("{\"event\":\"msg\",\"channel\":\"chat_en\",\"n\":1e99999999999999999999,\"data\":\"\\\"{}\\\"\"}");
    assert!(read_chat_frame(&ev).is_none());
}

fn message(uid: &str, login: &str, msg: &str, date: &str, usr_clr: &str, channel: Option<&str>) -> ChatMessage {
    ChatMessage {
        uid: uid.to_string(),
        login: login.to_string(),
        msg: msg.to_string(),
        date: date.to_string(),
        usr_clr: usr_clr.to_string(),
        channel: channel.map(|c| c.to_string()),
    }
}

fn same(a: &ChatMessage, b: &ChatMessage) -> bool {
    a.uid == b.uid
        && a.login == b.login
        && a.msg == b.msg
        && a.date == b.date
        && a.usr_clr == b.usr_clr
        && a.channel == b.channel
}

#[test]
fn payload_decoding() {
    let m = decode_chat_message(PAYLOAD).expect("a message");
    assert!(same(&m, &message("42", "bob", "alice, hi", "2015-01-01", "#000", None)));
    let with = "{\"uid\":\"1\",\"login\":\"a\",\"msg\":\"m\",\"date\":\"d\",\"usr_clr\":\"c\",\"channel\":\"ru\",\"extra\":[1,2]}";
    let m = decode_chat_message(with).expect("a message");
    assert!(same(&m, &message("1", "a", "m", "d", "c", Some("ru"))));
    let null = "{\"uid\":\"1\",\"login\":\"a\",\"msg\":\"m\",\"date\":\"d\",\"usr_clr\":\"c\",\"channel\":null}";
    assert!(same(&decode_chat_message(null).expect("a message"), &message("1", "a", "m", "d", "c", None)));
    // a channel that is neither a string nor null is refused
    let num = "{\"uid\":\"1\",\"login\":\"a\",\"msg\":\"m\",\"date\":\"d\",\"usr_clr\":\"c\",\"channel\":5}";
    assert!(decode_chat_message(num).is_none());
    // every other field must be a string and present
    assert!(decode_chat_message("{\"uid\":1,\"login\":\"a\",\"msg\":\"m\",\"date\":\"d\",\"usr_clr\":\"c\"}").is_none());
    assert!(decode_chat_message("{\"uid\":\"1\",\"login\":\"a\",\"msg\":\"m\",\"date\":\"d\"}").is_none());
    assert!(decode_chat_message("[\"1\"]").is_none());
    assert!(decode_chat_message("{}").is_none());
    assert!(decode_chat_message("not json").is_none());
}

#[test]
fn event_decoding() {
    let m = deserealise_msg(&event()).expect("a message");
    assert!(same(&m, &message("42", "bob", "alice, hi", "2015-01-01", "#000", Some("en"))));
    let empty = String::from("{\"event\":\"msg\",\"channel\":\"chat_en\",\"data\":\"\\\"{}\\\"\"}");
    assert!(deserealise_msg(&empty).is_none());
    assert!(deserealise_msg("[]").is_none());
}
