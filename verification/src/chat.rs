//! Chat messages of the btc-e trollbox: the subscription request, the
//! transport's reconnection decisions, the unwrapping of pusher events and the
//! decoding of the messages they carry.

use vstd::prelude::*;
use vstd::string::StringExecFns;

use crate::json::{
    JsonShape, JsonShapeView, JsonTree, PathStep, child_encoding, child_shape, json_kind,
    member_shape, read_json, parsed_tree,
    member_encoding, parsed_shape, parsed_shape_of, root, shape_view,
};
use crate::text::{chars_of, push_char, remove_all, without_occurrences};

verus! {

/// A chat message as the trollbox sends it; `channel` is the room it came
/// from, without its `chat_` prefix.
#[derive(Clone, Debug)]
pub struct ChatMessage {
    pub uid: String,
    pub login: String,
    pub msg: String,
    pub date: String,
    pub usr_clr: String,
    pub channel: Option<String>,
}

/// The hexadecimal digit of `d` (lower case).
pub open spec fn hex_digit(d: int) -> char {
    seq!['0', '1', '2', '3', '4', '5', '6', '7', '8', '9', 'a', 'b', 'c', 'd', 'e', 'f'][d]
}

/// A character as it stands inside a JSON string: `"` and `\` behind a
/// backslash, control characters as `\u00XX`, every other character as it is.
pub open spec fn escaped_char(c: char) -> Seq<char> {
    if c == '"' {
        seq!['\\', '"']
    } else if c == '\\' {
        seq!['\\', '\\']
    } else if (c as u32) < 0x20 {
        seq!['\\', 'u', '0', '0', hex_digit((c as u32) as int / 16), hex_digit((c as u32) as int % 16)]
    } else {
        seq![c]
    }
}

/// `s` escaped for use inside a JSON string.
pub open spec fn json_escaped(s: Seq<char>) -> Seq<char> {
    s.map_values(|c: char| escaped_char(c)).flatten()
}

/// The text of the request that subscribes to `channel`: a JSON object whose
/// `data.channel` member is the string `channel`.
pub open spec fn subscription_text(channel: Seq<char>) -> Seq<char> {
    "{\"event\":\"pusher:subscribe\",\"data\":{\"channel\": \""@ + json_escaped(channel)
        + "\"}}"@
}

fn push_escaped(out: &mut String, c: char)
    ensures
        final(out)@ == old(out)@ + escaped_char(c),
{
    let code = c as u32;
    if c == '"' {
        out.append("\\\"");
        proof {
            reveal_strlit("\\\"");
            assert("\\\""@ =~= seq!['\\', '"']);
        }
    } else if c == '\\' {
        out.append("\\\\");
        proof {
            reveal_strlit("\\\\");
            assert("\\\\"@ =~= seq!['\\', '\\']);
        }
    } else if code < 0x20 {
        let digits: [char; 16] = [
            '0', '1', '2', '3', '4', '5', '6', '7', '8', '9', 'a', 'b', 'c', 'd', 'e', 'f',
        ];
        assert(digits@ =~= seq![
            '0', '1', '2', '3', '4', '5', '6', '7', '8', '9', 'a', 'b', 'c', 'd', 'e', 'f',
        ]);
        out.append("\\u00");
        proof {
            reveal_strlit("\\u00");
            assert("\\u00"@ =~= seq!['\\', 'u', '0', '0']);
        }
        push_char(out, digits[(code / 16) as usize]);
        push_char(out, digits[(code % 16) as usize]);
    } else {
        push_char(out, c);
    }
}

/// Escapes `s` for use inside a JSON string.
pub fn escape_json(s: &str) -> (r: String)
    ensures
        r@ == json_escaped(s@),
{
    let chars = chars_of(s);
    let mut out = String::new();
    let mut i: usize = 0;
    while i < chars.len()
        invariant
            i <= chars.len(),
            chars@ == s@,
            out@ == json_escaped(chars@.take(i as int)),
        decreases chars.len() - i,
    {
        let ghost before = chars@.take(i as int).map_values(|c: char| escaped_char(c));
        push_escaped(&mut out, chars[i]);
        proof {
            before.lemma_flatten_push(escaped_char(chars@[i as int]));
            assert(chars@.take(i + 1).map_values(|c: char| escaped_char(c)) =~= before.push(
                escaped_char(chars@[i as int]),
            ));
        }
        i += 1;
    }
    assert(chars@.take(chars.len() as int) =~= chars@);
    out
}

/// Builds the JSON request that subscribes to `channel`.
pub fn build_subscription_message(channel: &str) -> (r: String)
    ensures
        r@ == subscription_text(channel@),
{
    let mut result = String::from_str("{\"event\":\"pusher:subscribe\",\"data\":{\"channel\": \"");
    let end = "\"}}";
    let escaped = escape_json(channel);
    result.append(escaped.as_str());
    result.append(end);
    result
}

/// How one attempt to open a subscribed connection ended.
#[derive(Clone, Copy, Debug, PartialEq, Eq, Structural)]
pub enum AttemptOutcome {
    /// The connection could not be opened.
    ConnectFailed,
    /// The server refused the handshake.
    HandshakeFailed,
    /// The subscription request could not be sent.
    SubscribeFailed,
    /// The connection is open and subscribed.
    Subscribed,
}

/// The pause before a reconnection attempt that follows a failed one.
pub const RETRY_PAUSE_MS: u32 = 2000;

/// Opens connections to the chat and subscribes them to one channel,
/// counting the failed attempts since the last success.
pub struct BtceChatTransport {
    channel: String,
    failures: u32,
}

/// The mathematical view of a [`BtceChatTransport`].
pub struct TransportView {
    pub channel: Seq<char>,
    pub failures: u32,
}

impl View for BtceChatTransport {
    type V = TransportView;

    closed spec fn view(&self) -> TransportView {
        TransportView { channel: self.channel@, failures: self.failures }
    }
}

/// The pause, in milliseconds, before the next attempt: `RETRY_PAUSE_MS`
/// after a failed attempt, none otherwise.
pub open spec fn retry_pause(t: TransportView) -> u32 {
    if t.failures > 0 {
        RETRY_PAUSE_MS
    } else {
        0
    }
}

/// The transport after an attempt: a success clears the failure count, a
/// failure adds one to it.
pub open spec fn after_attempt(t: TransportView, outcome: AttemptOutcome) -> TransportView {
    TransportView {
        channel: t.channel,
        failures: if outcome == AttemptOutcome::Subscribed {
            0
        } else {
            (t.failures + 1) as u32
        },
    }
}

impl BtceChatTransport {
    /// A transport for channel `ch`, with no failed attempt.
    pub fn new(ch: &str) -> (t: BtceChatTransport)
        ensures
            t@.channel == ch@,
            t@.failures == 0,
    {
        BtceChatTransport { channel: String::from_str(ch), failures: 0 }
    }

    /// The failed attempts since the last success.
    pub fn failures(&self) -> (r: u32)
        ensures
            r == self@.failures,
    {
        self.failures
    }

    /// The pause, in milliseconds, before the next attempt: `RETRY_PAUSE_MS`
    /// after a failed attempt, none otherwise.
    pub fn pause_before_attempt(&self) -> (r: u32)
        ensures
            r == retry_pause(self@),
    {
        if self.failures > 0 {
            RETRY_PAUSE_MS
        } else {
            0
        }
    }

    /// The subscription request for this transport's channel.
    pub fn subscription_message(&self) -> (r: String)
        ensures
            r@ == subscription_text(self@.channel),
    {
        build_subscription_message(self.channel.as_str())
    }

    /// Records how an attempt ended; returns whether the connection is to
    /// be handed out (`true`) or another attempt made (`false`).
    pub fn record_attempt(&mut self, outcome: AttemptOutcome) -> (deliver: bool)
        requires
            outcome != AttemptOutcome::Subscribed ==> old(self)@.failures < u32::MAX,
        ensures
            deliver == (outcome == AttemptOutcome::Subscribed),
            final(self)@ == after_attempt(old(self)@, outcome),
    {
        match outcome {
            AttemptOutcome::Subscribed => {
                self.failures = 0;
                true
            },
            _ => {
                self.failures = self.failures + 1;
                false
            },
        }
    }
}

/// A chat event unwrapped: the JSON text of the message it carries, and the
/// channel it came on.
pub struct ChatFrame {
    pub payload: String,
    pub channel: String,
}

/// The JSON encoding of the empty string, `""`, which stands in for an
/// absent member.
pub open spec fn empty_string_json() -> Seq<char> {
    seq!['"', '"']
}

/// The channel name of a pusher event from the encoding of its `channel`
/// member (that of an empty string when absent): without quotes, then
/// without `chat_`.
pub open spec fn channel_of_encoding(enc: Option<Seq<char>>) -> Seq<char> {
    let text = match enc {
        Some(t) => t,
        None => empty_string_json(),
    };
    without_occurrences(without_occurrences(text, "\""@), "chat_"@)
}

/// The channel name of a pusher event, from the encoding of its `channel`
/// member.
pub fn channel_from_encoding(enc: Option<String>) -> (r: String)
    ensures
        r@ == channel_of_encoding(match enc {
            Some(e) => Some(e@),
            None => None,
        }),
{
    proof {
        reveal_strlit("\"\"");
        assert("\"\""@ =~= empty_string_json());
    }
    let text = match enc {
        Some(t) => t,
        None => String::from_str("\"\""),
    };
    let unquoted = remove_all(text.as_str(), "\"");
    remove_all(unquoted.as_str(), "chat_")
}

/// A parsed text read as a string: its content when it is a string, the
/// empty object `{}` when it is other JSON, nothing when it is not JSON.
pub open spec fn string_or_empty_object(parsed: Option<JsonShapeView>) -> Option<Seq<char>> {
    match parsed {
        None => None,
        Some(JsonShapeView::Text(s)) => Some(s),
        Some(_) => Some("{}"@),
    }
}

/// Reads a parsed text as a string (its content when it is a string, `{}`
/// when it is other JSON, nothing when it was not JSON).
pub fn string_or_empty_object_of(parsed: Option<JsonShape>) -> (r: Option<String>)
    ensures
        r matches Some(s) ==> string_or_empty_object(shape_view(parsed)) == Some(s@),
        r is None ==> string_or_empty_object(shape_view(parsed)) is None,
{
    match parsed {
        None => None,
        Some(JsonShape::Text(s)) => Some(s),
        Some(_) => Some(String::from_str("{}")),
    }
}

/// What a pusher event carries: `None` unless it is a JSON object whose
/// `data` member is JSON holding (as a string) JSON text; then that text read
/// as a string once more, with the event's channel.
pub open spec fn chat_frame_of(event: Seq<char>) -> Option<(Seq<char>, Seq<char>)> {
    match parsed_tree(event) {
        Some(t) => if root(t).shape is Object {
            let data = match child_encoding(t, PathStep::Key("data"@)) {
                Some(e) => e,
                None => empty_string_json(),
            };
            match string_or_empty_object(parsed_shape_of(data)) {
                Some(inner) => match string_or_empty_object(parsed_shape_of(inner)) {
                    Some(payload) => Some(
                        (payload, channel_of_encoding(child_encoding(t, PathStep::Key("channel"@)))),
                    ),
                    None => None,
                },
                None => None,
            }
        } else {
            None
        },
        None => None,
    }
}

/// Unwraps a pusher chat event: the message's JSON text and its channel.
pub fn read_chat_frame(event: &str) -> (r: Option<ChatFrame>)
    ensures
        r matches Some(f) ==> chat_frame_of(event@) == Some((f.payload@, f.channel@)),
        r is None ==> chat_frame_of(event@) is None,
{
    proof {
        reveal_strlit("\"\"");
        assert("\"\""@ =~= empty_string_json());
    }
    let doc = match read_json(event) {
        Some(j) => j,
        None => return None,
    };
    match json_kind(&doc) {
        JsonShape::Object => {},
        _ => return None,
    }
    let channel = channel_from_encoding(member_encoding(&doc, "channel"));
    let data = match member_encoding(&doc, "data") {
        Some(e) => e,
        None => String::from_str("\"\""),
    };
    let inner = match string_or_empty_object_of(parsed_shape(data.as_str())) {
        Some(s) => s,
        None => return None,
    };
    let payload = match string_or_empty_object_of(parsed_shape(inner.as_str())) {
        Some(s) => s,
        None => return None,
    };
    Some(ChatFrame { payload, channel })
}

impl ChatFrame {
    /// The message decoded from the payload, placed in this frame's channel.
    pub fn attach(&self, msg: ChatMessage) -> (r: ChatMessage)
        ensures
            r.uid == msg.uid,
            r.login == msg.login,
            r.msg == msg.msg,
            r.date == msg.date,
            r.usr_clr == msg.usr_clr,
            r.channel matches Some(c) && c@ == self.channel@,
    {
        ChatMessage { channel: Some(self.channel.clone()), ..msg }
    }
}

/// The mathematical view of a [`ChatMessage`].
pub struct MessageView {
    pub uid: Seq<char>,
    pub login: Seq<char>,
    pub msg: Seq<char>,
    pub date: Seq<char>,
    pub usr_clr: Seq<char>,
    pub channel: Option<Seq<char>>,
}

/// The view of an optional string.
pub open spec fn string_view(s: Option<String>) -> Option<Seq<char>> {
    match s {
        Some(s) => Some(s@),
        None => None,
    }
}

impl View for ChatMessage {
    type V = MessageView;

    open spec fn view(&self) -> MessageView {
        MessageView {
            uid: self.uid@,
            login: self.login@,
            msg: self.msg@,
            date: self.date@,
            usr_clr: self.usr_clr@,
            channel: string_view(self.channel),
        }
    }
}

/// The string a node holds, if it is a string.
pub open spec fn text_of_shape(s: Option<JsonShapeView>) -> Option<Seq<char>> {
    match s {
        Some(JsonShapeView::Text(t)) => Some(t),
        _ => None,
    }
}

/// The string held by the member `key` of the root of `t`, if it is one.
pub open spec fn text_member(t: JsonTree, key: Seq<char>) -> Option<Seq<char>> {
    text_of_shape(child_shape(t, PathStep::Key(key)))
}

/// Whether a message's `channel` member is one the decoder takes: absent,
/// `null` or a string.
pub open spec fn channel_member_ok(s: Option<JsonShapeView>) -> bool {
    match s {
        None => true,
        Some(JsonShapeView::Null) => true,
        Some(JsonShapeView::Text(_)) => true,
        _ => false,
    }
}

/// The chat message a payload holds, as rustc_serialize decodes a
/// `ChatMessage`: a JSON object whose members `uid`, `login`, `msg`, `date`
/// and `usr_clr` are strings and whose `channel` is a string, `null` or
/// absent (`null` and absent give no channel); other members are ignored.
pub open spec fn chat_message_of(payload: Seq<char>) -> Option<MessageView> {
    match parsed_tree(payload) {
        Some(t) => {
            let channel = child_shape(t, PathStep::Key("channel"@));
            if root(t).shape is Object && text_member(t, "uid"@) is Some && text_member(
                t,
                "login"@,
            ) is Some && text_member(t, "msg"@) is Some && text_member(t, "date"@) is Some
                && text_member(t, "usr_clr"@) is Some && channel_member_ok(channel) {
                Some(
                    MessageView {
                        uid: text_member(t, "uid"@).unwrap(),
                        login: text_member(t, "login"@).unwrap(),
                        msg: text_member(t, "msg"@).unwrap(),
                        date: text_member(t, "date"@).unwrap(),
                        usr_clr: text_member(t, "usr_clr"@).unwrap(),
                        channel: text_of_shape(channel),
                    },
                )
            } else {
                None
            }
        },
        None => None,
    }
}

/// The string a node holds, if it is a string.
fn text_of(s: Option<JsonShape>) -> (r: Option<String>)
    ensures
        string_view(r) == text_of_shape(shape_view(s)),
{
    match s {
        Some(JsonShape::Text(t)) => Some(t),
        _ => None,
    }
}

/// Decodes a chat message from its JSON payload (see [`chat_message_of`]).
pub fn decode_chat_message(payload: &str) -> (r: Option<ChatMessage>)
    ensures
        r matches Some(m) ==> chat_message_of(payload@) == Some(m@),
        r is None ==> chat_message_of(payload@) is None,
{
    let doc = match read_json(payload) {
        Some(j) => j,
        None => return None,
    };
    match json_kind(&doc) {
        JsonShape::Object => {},
        _ => return None,
    }
    let uid = match text_of(member_shape(&doc, "uid")) {
        Some(s) => s,
        None => return None,
    };
    let login = match text_of(member_shape(&doc, "login")) {
        Some(s) => s,
        None => return None,
    };
    let msg = match text_of(member_shape(&doc, "msg")) {
        Some(s) => s,
        None => return None,
    };
    let date = match text_of(member_shape(&doc, "date")) {
        Some(s) => s,
        None => return None,
    };
    let usr_clr = match text_of(member_shape(&doc, "usr_clr")) {
        Some(s) => s,
        None => return None,
    };
    let channel = match member_shape(&doc, "channel") {
        None => None,
        Some(JsonShape::Null) => None,
        Some(JsonShape::Text(c)) => Some(c),
        Some(_) => return None,
    };
    Some(ChatMessage { uid, login, msg, date, usr_clr, channel })
}

/// The chat message a pusher event carries, placed in the event's channel.
pub open spec fn event_message_of(event: Seq<char>) -> Option<MessageView> {
    match chat_frame_of(event) {
        Some((payload, channel)) => match chat_message_of(payload) {
            Some(m) => Some(
                MessageView {
                    uid: m.uid,
                    login: m.login,
                    msg: m.msg,
                    date: m.date,
                    usr_clr: m.usr_clr,
                    channel: Some(channel),
                },
            ),
            None => None,
        },
        None => None,
    }
}

/// Reads the chat message a pusher event carries: unwraps the event, decodes
/// the message, and places it in the event's channel.
pub fn deserealise_msg(js: &str) -> (r: Option<ChatMessage>)
    ensures
        r matches Some(m) ==> event_message_of(js@) == Some(m@),
        r is None ==> event_message_of(js@) is None,
{
    let frame = match read_chat_frame(js) {
        Some(f) => f,
        None => return None,
    };
    let msg = match decode_chat_message(frame.payload.as_str()) {
        Some(m) => m,
        None => return None,
    };
    Some(frame.attach(msg))
}

/// What arrives on a subscribed connection.
#[derive(Clone, Copy, Debug, PartialEq, Eq, Structural)]
pub enum Incoming {
    /// A text frame.
    Text,
    /// A ping from the server.
    Ping,
    /// The server closes the connection.
    Close,
    /// Reading from the connection failed.
    ReadFailed,
    /// Answering a ping failed.
    PongFailed,
    /// Anything else (binary frames, pongs).
    Other,
}

/// What the listener does about what arrived.
#[derive(Clone, Copy, Debug, PartialEq, Eq, Structural)]
pub enum Reaction {
    /// Read a chat message from the text and show it (skip the text when it
    /// holds none).
    ReadChat,
    /// Answer with a pong carrying the ping's data.
    AnswerPing,
    /// Send a close frame, then open a new connection.
    CloseAndReconnect,
    /// Open a new connection.
    Reconnect,
    /// Wait for the next frame.
    Skip,
}

/// The listener's reaction to what arrives on its connection.
pub open spec fn reaction_to(event: Incoming) -> Reaction {
    match event {
        Incoming::Text => Reaction::ReadChat,
        Incoming::Ping => Reaction::AnswerPing,
        Incoming::PongFailed => Reaction::CloseAndReconnect,
        Incoming::Close | Incoming::ReadFailed => Reaction::Reconnect,
        Incoming::Other => Reaction::Skip,
    }
}

/// How the chat listener reacts to what arrives on its connection.
pub fn react(event: Incoming) -> (r: Reaction)
    ensures
        r == reaction_to(event),
{
    match event {
        Incoming::Text => Reaction::ReadChat,
        Incoming::Ping => Reaction::AnswerPing,
        Incoming::PongFailed => Reaction::CloseAndReconnect,
        Incoming::Close | Incoming::ReadFailed => Reaction::Reconnect,
        Incoming::Other => Reaction::Skip,
    }
}

/// How one keep-alive ping went.
#[derive(Clone, Copy, Debug, PartialEq, Eq, Structural)]
pub enum PingOutcome {
    /// The ping was sent.
    Sent,
    /// Sending the ping failed.
    SendFailed,
    /// The connection's sender could not be taken.
    SenderUnavailable,
}

/// What the keep-alive loop does after a ping.
#[derive(Clone, Copy, Debug, PartialEq, Eq, Structural)]
pub enum PingAction {
    /// Wait `PING_INTERVAL_MS`, then ping again.
    WaitThenPing,
    /// Report the error, send a close frame and stop pinging.
    CloseAndStop,
    /// Report the error and stop pinging.
    Stop,
}

/// The pause, in milliseconds, between keep-alive pings.
pub const PING_INTERVAL_MS: u64 = 120_000;

/// How the keep-alive loop goes on after a ping.
pub fn after_ping(outcome: PingOutcome) -> (r: PingAction)
    ensures
        r == (match outcome {
            PingOutcome::Sent => PingAction::WaitThenPing,
            PingOutcome::SendFailed => PingAction::CloseAndStop,
            PingOutcome::SenderUnavailable => PingAction::Stop,
        }),
{
    match outcome {
        PingOutcome::Sent => PingAction::WaitThenPing,
        PingOutcome::SendFailed => PingAction::CloseAndStop,
        PingOutcome::SenderUnavailable => PingAction::Stop,
    }
}

} // verus!
