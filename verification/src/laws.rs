//! Properties of the viewer that span several calls or functions.

use vstd::prelude::*;

use crate::chat::{
    AttemptOutcome, Incoming, Reaction, TransportView, after_attempt, reaction_to, channel_of_encoding, chat_frame_of,
    empty_string_json, escaped_char, hex_digit, json_escaped, retry_pause,
};
use crate::console::{
    Color, SegmentView, addressee_len, addressee_split, name_color, alert_layout, alert_lines, amount_segment, chat_layout,
    price_segment, text_segment,
};
use crate::console::sip_hash_of;
use crate::json::{JsonShapeView, PathStep, child_encoding, child_shape, parsed_tree, root};
use crate::monitor::{
    MonitorView, TICK_FETCH_DELAY_DELTA, TICK_FETCH_DELAY_LIMIT, TICK_FETCH_INIT_DELAY,
    after_reply,
};
use crate::text::without_occurrences;
use crate::tick::{Tick, reply_readable, reply_ticks, reply_trades, tick_of_tree, trade_record};

verus! {

/// Taking a one-character pattern out of a text leaves no such character.
pub proof fn lemma_single_char_removed(s: Seq<char>, c: char)
    ensures
        !without_occurrences(s, seq![c]).contains(c),
    decreases s.len(),
{
    if s.len() > 0 {
        lemma_single_char_removed(s.skip(1), c);
        assert(s.take(1) =~= seq![s[0]]);
        let rest = without_occurrences(s.skip(1), seq![c]);
        if s[0] != c {
            assert(s.take(1)[0] != seq![c][0]);
            assert(s.take(1) != seq![c]);
            let r = seq![s[0]] + rest;
            assert forall|i: int| 0 <= i < r.len() implies r[i] != c by {
                if i > 0 {
                    assert(r[i] == rest[i - 1]);
                }
            }
        }
    }
}

/// Taking occurrences of any pattern out of a text adds no character to it.
pub proof fn lemma_removal_adds_nothing(s: Seq<char>, p: Seq<char>, c: char)
    requires
        !s.contains(c),
    ensures
        !without_occurrences(s, p).contains(c),
    decreases s.len(),
{
    if p.len() == 0 || s.len() < p.len() {
    } else if s.take(p.len() as int) == p {
        assert forall|i: int| 0 <= i < s.skip(p.len() as int).len() implies s.skip(
            p.len() as int,
        )[i] != c by {
            assert(s.skip(p.len() as int)[i] == s[i + p.len()]);
        }
        lemma_removal_adds_nothing(s.skip(p.len() as int), p, c);
    } else {
        assert forall|i: int| 0 <= i < s.skip(1).len() implies s.skip(1)[i] != c by {
            assert(s.skip(1)[i] == s[i + 1]);
        }
        lemma_removal_adds_nothing(s.skip(1), p, c);
        let rest = without_occurrences(s.skip(1), p);
        let r = seq![s[0]] + rest;
        assert(s[0] != c);
        assert forall|i: int| 0 <= i < r.len() implies r[i] != c by {
            if i > 0 {
                assert(r[i] == rest[i - 1]);
            }
        }
    }
}

/// A channel name read from an event holds no double quote.
pub proof fn lemma_channel_unquoted(enc: Option<Seq<char>>)
    ensures
        !channel_of_encoding(enc).contains('"'),
{
    reveal_strlit("\"");
    assert("\""@ =~= seq!['"']);
    let text = match enc {
        Some(t) => t,
        None => empty_string_json(),
    };
    lemma_single_char_removed(text, '"');
    lemma_removal_adds_nothing(without_occurrences(text, seq!['"']), "chat_"@, '"');
}

/// The channel of an unwrapped chat event holds no double quote.
pub proof fn lemma_frame_channel_unquoted(event: Seq<char>)
    ensures
        chat_frame_of(event) matches Some(f) ==> !f.1.contains('"'),
{
    match parsed_tree(event) {
        Some(t) => lemma_channel_unquoted(child_encoding(t, PathStep::Key("channel"@))),
        None => {},
    }
}

/// A reply of trades all newer than the last one shown is shown exactly when
/// it holds a trade, and its first trade becomes the last one shown.
pub proof fn lemma_fresh_trades_are_shown(s: MonitorView, fetched: Seq<Tick>)
    requires
        forall|i: int| 0 <= i < fetched.len() ==> (#[trigger] fetched[i]).tid > s.last_tid,
    ensures
        after_reply(s, fetched).1 == (fetched.len() > 0),
        fetched.len() > 0 ==> after_reply(s, fetched).0.last_tid == fetched[0].tid,
{
    if fetched.len() > 0 {
        assert(fetched[0].tid > s.last_tid);
    }
}

/// The trades read from a reply are all newer than the last one shown, so
/// the monitor shows them whenever there are any.
pub proof fn lemma_reply_trades_are_shown(s: MonitorView, body: Seq<char>)
    ensures
        forall|i: int|
            0 <= i < reply_ticks(body, s.last_tid).len() ==> (#[trigger] reply_ticks(
                body,
                s.last_tid,
            )[i]).tid > s.last_tid,
        after_reply(s, reply_ticks(body, s.last_tid)).1 == (reply_ticks(body, s.last_tid).len()
            > 0),
{
    broadcast use vstd::seq_lib::group_filter_ensures;

    lemma_fresh_trades_are_shown(s, reply_ticks(body, s.last_tid));
}

/// The pause between requests stays between `TICK_FETCH_INIT_DELAY` and
/// `TICK_FETCH_DELAY_LIMIT`, whatever the replies.
pub proof fn lemma_pause_stays_in_range(s: MonitorView, fetched: Seq<Tick>)
    requires
        TICK_FETCH_INIT_DELAY <= s.delay <= TICK_FETCH_DELAY_LIMIT,
        !(fetched.len() > 0 && fetched[0].tid != s.last_tid && fetched.len() % 0x1_0000_0000
            == 0),
    ensures
        TICK_FETCH_INIT_DELAY <= after_reply(s, fetched).0.delay <= TICK_FETCH_DELAY_LIMIT,
{
    if fetched.len() > 0 && fetched[0].tid != s.last_tid {
        let n = (fetched.len() % 0x1_0000_0000) as u32;
        assert(n >= 1);
        let d = s.delay as int;
        assert((d / n as int) <= d) by (nonlinear_arith)
            requires
                d >= 0,
                n >= 1,
        ;
        assert((d / n as int) / 100 * 100 <= d / n as int) by (nonlinear_arith)
            requires
                d / n as int >= 0,
        ;
    }
}

/// The monitor after `k` replies without new trades.
pub open spec fn after_empty_replies(s: MonitorView, k: nat) -> MonitorView
    decreases k,
{
    if k == 0 {
        s
    } else {
        after_reply(after_empty_replies(s, (k - 1) as nat), Seq::empty()).0
    }
}

/// Each reply without new trades lengthens the pause by
/// `TICK_FETCH_DELAY_DELTA`, up to `TICK_FETCH_DELAY_LIMIT`, and keeps the
/// last trade shown.
pub proof fn lemma_pause_backs_off(s: MonitorView, k: nat)
    requires
        s.delay <= TICK_FETCH_DELAY_LIMIT,
    ensures
        after_empty_replies(s, k).last_tid == s.last_tid,
        after_empty_replies(s, k).delay == (if s.delay + TICK_FETCH_DELAY_DELTA * k
            >= TICK_FETCH_DELAY_LIMIT {
            TICK_FETCH_DELAY_LIMIT as int
        } else {
            s.delay + TICK_FETCH_DELAY_DELTA * k
        }),
    decreases k,
{
    if k > 0 {
        lemma_pause_backs_off(s, (k - 1) as nat);
    }
}

/// A transport pauses before an attempt exactly when the attempt before it
/// failed.
pub proof fn lemma_pause_follows_failure(t: TransportView, outcome: AttemptOutcome)
    requires
        outcome != AttemptOutcome::Subscribed ==> t.failures < u32::MAX,
    ensures
        retry_pause(after_attempt(t, outcome)) == (if outcome == AttemptOutcome::Subscribed {
            0
        } else {
            crate::chat::RETRY_PAUSE_MS
        }),
{
}

/// The addressee of a message is drawn in the colour its own messages show
/// its name in.
pub proof fn lemma_addressee_colored_as_sender(
    channel: Option<Seq<char>>,
    login: Seq<char>,
    msg: Seq<char>,
    other_channel: Option<Seq<char>>,
    other_msg: Seq<char>,
)
    requires
        addressee_split(msg) is Some,
    ensures
        chat_layout(channel, login, msg)[3].color == chat_layout(
            other_channel,
            addressee_split(msg).unwrap().0,
            other_msg,
        )[1].color,
{
}

proof fn lemma_alert_lines(shown: Seq<Tick>, i: nat)
    requires
        1 <= i <= shown.len(),
    ensures
        alert_lines(shown, i).len() == (if i < shown.len() {
            3 * i as int
        } else {
            3 * i - 1
        }),
        forall|j: int|
            0 <= j < i ==> alert_lines(shown, i)[3 * j] == price_segment(shown[j])
                && alert_lines(shown, i)[3 * j + 1] == amount_segment(shown[j]),
    decreases i,
{
    if i > 1 {
        lemma_alert_lines(shown, (i - 1) as nat);
    }
    let prev = alert_lines(shown, (i - 1) as nat);
    assert(alert_lines(shown, 0) =~= Seq::<SegmentView>::empty());
    assert(prev.len() == 3 * (i - 1));
    let cur = alert_lines(shown, i);
    assert forall|j: int| 0 <= j < i implies cur[3 * j] == price_segment(shown[j]) && cur[3 * j + 1]
        == amount_segment(shown[j]) by {
        if j < i - 1 {
            assert(cur[3 * j] == prev[3 * j]);
            assert(cur[3 * j + 1] == prev[3 * j + 1]);
        }
    }
}

/// The `j`-th line of a volume alert: its price and amount segments.
pub open spec fn alert_row(ticks: Seq<Tick>, j: int) -> Seq<SegmentView> {
    alert_layout(ticks).subrange(1 + 3 * j, 3 + 3 * j)
}

/// A volume alert shows every trade once, newest last first: three segments
/// per trade (one less in all, for the last line's missing indentation),
/// the `j`-th line showing the price and amount of the `j`-th trade from the
/// end of the list.
pub proof fn lemma_alert_lists_every_trade(ticks: Seq<Tick>)
    requires
        ticks.len() > 0,
    ensures
        alert_layout(ticks).len() == 3 * ticks.len(),
        forall|j: int|
            0 <= j < ticks.len() ==> #[trigger] alert_row(ticks, j) == seq![
                price_segment(ticks[ticks.len() - 1 - j]),
                amount_segment(ticks[ticks.len() - 1 - j]),
            ],
{
    let shown = ticks.reverse();
    lemma_alert_lines(shown, ticks.len());
    let lines = alert_lines(shown, ticks.len());
    assert forall|j: int| 0 <= j < ticks.len() implies #[trigger] alert_row(ticks, j) == seq![
        price_segment(ticks[ticks.len() - 1 - j]),
        amount_segment(ticks[ticks.len() - 1 - j]),
    ] by {
        assert(shown[j] == ticks[ticks.len() - 1 - j]);
        assert(alert_layout(ticks)[1 + 3 * j] == lines[3 * j]);
        assert(alert_layout(ticks)[2 + 3 * j] == lines[3 * j + 1]);
        assert(alert_row(ticks, j) =~= seq![lines[3 * j], lines[3 * j + 1]]);
    }
}

/// A chat message is shown under the name of the room it came from, taken
/// from the event that carried it.
pub proof fn lemma_room_shown(event: Seq<char>, login: Seq<char>, msg: Seq<char>)
    requires
        chat_frame_of(event) is Some,
    ensures
        chat_layout(Some(chat_frame_of(event).unwrap().1), login, msg)[0] == text_segment(
            Color::BrightBlack,
            "["@ + chat_frame_of(event).unwrap().1 + "] "@,
        ),
{
}

/// A JSON string's contents: characters other than `"`, `\` and control
/// characters stand as they are; `\` starts an escape, either one of
/// `"\/bfnrt` or `u` and four hexadecimal digits.
pub open spec fn json_string_body(s: Seq<char>) -> bool
    decreases s.len(),
{
    if s.len() == 0 {
        true
    } else if s[0] == '\\' {
        if s.len() >= 2 && (s[1] == '"' || s[1] == '\\' || s[1] == '/' || s[1] == 'b' || s[1]
            == 'f' || s[1] == 'n' || s[1] == 'r' || s[1] == 't') {
            json_string_body(s.skip(2))
        } else if s.len() >= 6 && s[1] == 'u' && hex_char(s[2]) && hex_char(s[3]) && hex_char(s[4])
            && hex_char(s[5]) {
            json_string_body(s.skip(6))
        } else {
            false
        }
    } else {
        s[0] != '"' && (s[0] as u32) >= 0x20 && json_string_body(s.skip(1))
    }
}

/// A hexadecimal digit.
pub open spec fn hex_char(c: char) -> bool {
    ('0' <= c && c <= '9') || ('a' <= c && c <= 'f') || ('A' <= c && c <= 'F')
}

proof fn lemma_escaped_char_then_body(c: char, rest: Seq<char>)
    requires
        json_string_body(rest),
    ensures
        json_string_body(escaped_char(c) + rest),
{
    let e = escaped_char(c);
    assert((e + rest).skip(e.len() as int) =~= rest);
    if (c as u32) < 0x20 && c != '"' && c != '\\' {
        let hi = (c as u32) as int / 16;
        let lo = (c as u32) as int % 16;
        let digits = seq!['0', '1', '2', '3', '4', '5', '6', '7', '8', '9', 'a', 'b', 'c', 'd', 'e', 'f'];
        assert(forall|d: int| 0 <= d < 16 ==> hex_char(#[trigger] digits[d]));
        assert(hex_char(hex_digit(hi)));
        assert(hex_char(hex_digit(lo)));
    }
}

/// Escaping any text gives valid JSON string contents, so the subscription
/// request is a complete JSON object for every channel name.
pub proof fn lemma_escaped_is_json_string(s: Seq<char>)
    ensures
        json_string_body(json_escaped(s)),
    decreases s.len(),
{
    let m = s.map_values(|c: char| escaped_char(c));
    if s.len() > 0 {
        lemma_escaped_is_json_string(s.drop_first());
        assert(m.drop_first() =~= s.drop_first().map_values(|c: char| escaped_char(c)));
        lemma_escaped_char_then_body(s[0], json_escaped(s.drop_first()));
    } else {
        assert(m =~= Seq::<Seq<char>>::empty());
    }
}

/// A channel name without `"`, `\` and control characters is written into
/// the subscription request as it is.
pub proof fn lemma_plain_channel_unescaped(s: Seq<char>)
    requires
        forall|i: int|
            0 <= i < s.len() ==> (#[trigger] s[i]) != '"' && s[i] != '\\' && (s[i] as u32) >= 0x20,
    ensures
        json_escaped(s) == s,
    decreases s.len(),
{
    let m = s.map_values(|c: char| escaped_char(c));
    if s.len() > 0 {
        assert(s[0] != '"' && s[0] != '\\' && (s[0] as u32) >= 0x20);
        assert forall|i: int| 0 <= i < s.drop_first().len() implies (#[trigger] s.drop_first()[i])
            != '"' && s.drop_first()[i] != '\\' && (s.drop_first()[i] as u32) >= 0x20 by {
            assert(s.drop_first()[i] == s[i + 1]);
        }
        lemma_plain_channel_unescaped(s.drop_first());
        assert(m.drop_first() =~= s.drop_first().map_values(|c: char| escaped_char(c)));
        assert(seq![s[0]] + s.drop_first() =~= s);
    } else {
        assert(m =~= Seq::<Seq<char>>::empty());
    }
}

/// The monitor after a run of replies.
pub open spec fn after_replies(s: MonitorView, replies: Seq<Seq<Tick>>) -> MonitorView
    decreases replies.len(),
{
    if replies.len() == 0 {
        s
    } else {
        after_reply(after_replies(s, replies.drop_last()), replies.last()).0
    }
}

/// Trades listed newest first (descending trade ids), as the API lists them.
pub open spec fn newest_first(ts: Seq<Tick>) -> bool {
    forall|a: int, b: int| 0 <= a < b < ts.len() ==> (#[trigger] ts[a]).tid > (#[trigger] ts[b]).tid
}

/// Each reply of a run, newest first, holds only trades newer than the last
/// one shown when it came (as the trades read from a reply are).
pub open spec fn replies_as_fetched(s: MonitorView, replies: Seq<Seq<Tick>>) -> bool {
    forall|i: int|
        0 <= i < replies.len() ==> newest_first(#[trigger] replies[i]) && forall|a: int|
            0 <= a < replies[i].len() ==> (#[trigger] replies[i][a]).tid > after_replies(
                s,
                replies.take(i),
            ).last_tid
}

proof fn lemma_after_replies_step(s: MonitorView, replies: Seq<Seq<Tick>>, i: int)
    requires
        0 <= i < replies.len(),
    ensures
        after_replies(s, replies.take(i + 1)) == after_reply(
            after_replies(s, replies.take(i)),
            replies[i],
        ).0,
{
    assert(replies.take(i + 1).drop_last() =~= replies.take(i));
}

proof fn lemma_last_tid_grows(s: MonitorView, replies: Seq<Seq<Tick>>, i: int, j: int)
    requires
        replies_as_fetched(s, replies),
        0 <= i <= j <= replies.len(),
    ensures
        after_replies(s, replies.take(i)).last_tid <= after_replies(s, replies.take(j)).last_tid,
    decreases j - i,
{
    if i < j {
        lemma_last_tid_grows(s, replies, i, j - 1);
        lemma_after_replies_step(s, replies, j - 1);
        let r = replies[j - 1];
        if r.len() > 0 {
            assert(r[0].tid > after_replies(s, replies.take(j - 1)).last_tid);
        }
    }
}

/// Over a run of replies, every trade shown is newer than the one the monitor
/// started from, and every batch shown holds only trades newer than all
/// those of every earlier batch: no trade is shown twice.
pub proof fn lemma_shown_batches_increase(s: MonitorView, replies: Seq<Seq<Tick>>, i: int, j: int)
    requires
        replies_as_fetched(s, replies),
        0 <= i < j < replies.len(),
    ensures
        forall|a: int|
            0 <= a < replies[i].len() ==> (#[trigger] replies[i][a]).tid > s.last_tid,
        forall|a: int, b: int|
            0 <= a < replies[j].len() && 0 <= b < replies[i].len() ==> (#[trigger] replies[j][a]).tid
                > (#[trigger] replies[i][b]).tid,
{
    lemma_last_tid_grows(s, replies, 0, i);
    assert(replies.take(0) =~= Seq::<Seq<Tick>>::empty());
    lemma_last_tid_grows(s, replies, i + 1, j);
    lemma_after_replies_step(s, replies, i);
    let ri = replies[i];
    assert(replies_as_fetched(s, replies) ==> newest_first(replies[i]));
    assert forall|a: int, b: int|
        0 <= a < replies[j].len() && 0 <= b < replies[i].len() implies (#[trigger] replies[j][a]).tid
        > (#[trigger] replies[i][b]).tid by {
        assert(replies[j][a].tid > after_replies(s, replies.take(j)).last_tid);
        assert(ri[0].tid > after_replies(s, replies.take(i)).last_tid);
        if b > 0 {
            assert(ri[0].tid > ri[b].tid);
        }
    }
}

/// The transport after a run of attempts.
pub open spec fn after_attempts(t: TransportView, outcomes: Seq<AttemptOutcome>) -> TransportView
    decreases outcomes.len(),
{
    if outcomes.len() == 0 {
        t
    } else {
        after_attempt(after_attempts(t, outcomes.drop_last()), outcomes.last())
    }
}

/// A transport keeps its channel through any run of attempts, and after a run
/// that ends in a subscribed connection (a connection handed out) it counts
/// no failure.
pub proof fn lemma_transport_after_attempts(t: TransportView, outcomes: Seq<AttemptOutcome>)
    ensures
        after_attempts(t, outcomes).channel == t.channel,
        outcomes.len() > 0 && outcomes.last() == AttemptOutcome::Subscribed ==> after_attempts(
            t,
            outcomes,
        ).failures == 0,
    decreases outcomes.len(),
{
    if outcomes.len() > 0 {
        lemma_transport_after_attempts(t, outcomes.drop_last());
    }
}

/// Whether the listener gives up its connection on this reaction.
pub open spec fn ends_connection(r: Reaction) -> bool {
    r == Reaction::Reconnect || r == Reaction::CloseAndReconnect
}

/// The positions, from `from` on, of the frames that the listener reads as
/// chat on one connection, in the order they arrive: it reads until a frame
/// ends the connection.
pub open spec fn chat_reads(events: Seq<Incoming>, from: int) -> Seq<int>
    decreases events.len() - from,
{
    if from < 0 || from >= events.len() {
        Seq::empty()
    } else if ends_connection(reaction_to(events[from])) {
        Seq::empty()
    } else if reaction_to(events[from]) == Reaction::ReadChat {
        seq![from].add(chat_reads(events, from + 1))
    } else {
        chat_reads(events, from + 1)
    }
}

/// Whether no frame before position `upto` ends the connection.
pub open spec fn connection_open_before(events: Seq<Incoming>, upto: int) -> bool {
    forall|k: int| 0 <= k < upto ==> !ends_connection(#[trigger] reaction_to(events[k]))
}

/// On one connection the listener reads exactly the text frames that arrive
/// before the connection ends, in the order they arrive; pings, pongs and
/// binary frames are passed over. A close frame, a failed read or a failed
/// pong ends the connection, and every such end leads to a new connection
/// (after a close frame when the pong failed): no frame stops the listener.
pub proof fn lemma_listener_reads_text_in_order(events: Seq<Incoming>, from: int)
    requires
        0 <= from <= events.len(),
        connection_open_before(events, from),
    ensures
        forall|j: int| #![trigger chat_reads(events, from)[j]]
            0 <= j < chat_reads(events, from).len() ==> {
                let i = chat_reads(events, from)[j];
                &&& from <= i < events.len()
                &&& events[i] == Incoming::Text
                &&& connection_open_before(events, i)
            },
        forall|a: int, b: int|
            0 <= a < b < chat_reads(events, from).len() ==> chat_reads(events, from)[a]
                < chat_reads(events, from)[b],
        forall|i: int|
            from <= i < events.len() && events[i] == Incoming::Text && connection_open_before(
                events,
                i,
            ) ==> chat_reads(events, from).contains(i),
        forall|e: Incoming|
            ends_connection(#[trigger] reaction_to(e)) <==> (e == Incoming::Close || e
                == Incoming::ReadFailed || e == Incoming::PongFailed),
        reaction_to(Incoming::PongFailed) == Reaction::CloseAndReconnect,
    decreases events.len() - from,
{
    if from < events.len() && !ends_connection(reaction_to(events[from])) {
        assert(connection_open_before(events, from + 1)) by {
            assert forall|k: int| 0 <= k < from + 1 implies !ends_connection(
                #[trigger] reaction_to(events[k]),
            ) by {
                if k < from {
                }
            }
        }
        lemma_listener_reads_text_in_order(events, from + 1);
        let rest = chat_reads(events, from + 1);
        let all = chat_reads(events, from);
        if reaction_to(events[from]) == Reaction::ReadChat {
            assert(all == seq![from].add(rest));
            assert forall|i: int|
                from <= i < events.len() && events[i] == Incoming::Text && connection_open_before(
                    events,
                    i,
                ) implies all.contains(i) by {
                if i == from {
                    assert(all[0] == from);
                } else {
                    assert(rest.contains(i));
                    let j = choose|j: int| 0 <= j < rest.len() && rest[j] == i;
                    assert(all[j + 1] == i);
                }
            }
        } else {
            assert(all == rest);
        }
    }
}

/// One poll of the volume monitor on trades all newer than the last one
/// shown (as the trades read from a reply are). Without trades nothing is
/// shown and the pause grows by `TICK_FETCH_DELAY_DELTA`, up to
/// `TICK_FETCH_DELAY_LIMIT`. With trades they are shown, the first becomes
/// the last one shown, and the pause becomes the old one divided by their
/// number, rounded down to a multiple of 100 ms, and at least
/// `TICK_FETCH_INIT_DELAY`.
pub proof fn lemma_poll_step(s: MonitorView, fetched: Seq<Tick>)
    requires
        TICK_FETCH_INIT_DELAY <= s.delay <= TICK_FETCH_DELAY_LIMIT,
        forall|i: int| 0 <= i < fetched.len() ==> (#[trigger] fetched[i]).tid > s.last_tid,
        fetched.len() < 0x1_0000_0000,
    ensures
        fetched.len() == 0 ==> {
            &&& !after_reply(s, fetched).1
            &&& after_reply(s, fetched).0.last_tid == s.last_tid
            &&& after_reply(s, fetched).0.delay == (if s.delay + TICK_FETCH_DELAY_DELTA
                > TICK_FETCH_DELAY_LIMIT {
                TICK_FETCH_DELAY_LIMIT as int
            } else {
                s.delay + TICK_FETCH_DELAY_DELTA
            })
        },
        fetched.len() > 0 ==> {
            let d = s.delay as int / fetched.len() as int / 100 * 100;
            &&& after_reply(s, fetched).1
            &&& after_reply(s, fetched).0.last_tid == fetched[0].tid
            &&& after_reply(s, fetched).0.delay == (if d < TICK_FETCH_INIT_DELAY {
                TICK_FETCH_INIT_DELAY as int
            } else {
                d
            })
        },
{
    if fetched.len() > 0 {
        assert(fetched[0].tid > s.last_tid);
        let n = (fetched.len() % 0x1_0000_0000) as u32;
        assert(n == fetched.len());
        assert(s.delay / n / 100 * 100 <= s.delay) by (nonlinear_arith)
            requires
                n >= 1,
        ;
    }
}

/// Taking out a character that `y` does not hold leaves `y` as it is, and
/// the rest is treated on its own.
proof fn lemma_char_free_prefix(y: Seq<char>, rest: Seq<char>, c: char)
    requires
        !y.contains(c),
    ensures
        without_occurrences(y + rest, seq![c]) == y + without_occurrences(rest, seq![c]),
    decreases y.len(),
{
    if y.len() > 0 {
        let s = y + rest;
        assert(s.take(1) =~= seq![y[0]]);
        assert(y[0] != c);
        assert(s.take(1) != seq![c]) by {
            assert(s.take(1)[0] != seq![c][0]);
        }
        assert(s.skip(1) =~= y.skip(1) + rest);
        assert(without_occurrences(s, seq![c]) == seq![s[0]] + without_occurrences(
            s.skip(1),
            seq![c],
        ));
        assert(!y.skip(1).contains(c)) by {
            if y.skip(1).contains(c) {
                let i = choose|i: int| 0 <= i < y.skip(1).len() && y.skip(1)[i] == c;
                assert(y[i + 1] == c);
            }
        }
        lemma_char_free_prefix(y.skip(1), rest, c);
        assert(seq![y[0]] + (y.skip(1) + without_occurrences(rest, seq![c])) =~= y
            + without_occurrences(rest, seq![c]));
    } else {
        assert(y + rest =~= rest);
        assert(y + without_occurrences(rest, seq![c]) =~= without_occurrences(rest, seq![c]));
    }
}

/// Whether `p` occurs nowhere in `s`.
pub open spec fn free_of(s: Seq<char>, p: Seq<char>) -> bool {
    forall|i: int| 0 <= i && i + p.len() <= s.len() ==> #[trigger] s.subrange(i, i + p.len()) != p
}

/// Taking out a pattern that does not occur leaves the text as it is.
proof fn lemma_free_of_unchanged(s: Seq<char>, p: Seq<char>)
    requires
        free_of(s, p),
    ensures
        without_occurrences(s, p) == s,
    decreases s.len(),
{
    if p.len() > 0 && s.len() >= p.len() {
        assert(s.take(p.len() as int) =~= s.subrange(0, p.len() as int));
        assert(s.subrange(0int, 0int + p.len()) != p);
        assert(s.take(p.len() as int) != p);
        let t = s.skip(1);
        assert(without_occurrences(s, p) == seq![s[0]] + without_occurrences(t, p));
        assert forall|i: int| 0 <= i && i + p.len() <= t.len() implies #[trigger] t.subrange(
            i,
            i + p.len(),
        ) != p by {
            assert(t.subrange(i, i + p.len()) =~= s.subrange(i + 1, i + 1 + p.len()));
        }
        lemma_free_of_unchanged(t, p);
        assert(seq![s[0]] + t =~= s);
    }
}

/// The channel of a chat room `chat_` + `x` is read as `x`: from the
/// encoding `"chat_x"` of the event's channel member, the quotes and the
/// prefix `chat_` are taken out and nothing else (`chat_ch` is read as `ch`,
/// `chat_ru` as `ru`).
pub proof fn lemma_room_channel_read(x: Seq<char>)
    requires
        !x.contains('"'),
        free_of(x, "chat_"@),
    ensures
        channel_of_encoding(Some(seq!['"'] + "chat_"@ + x + seq!['"'])) == x,
{
    reveal_strlit("\"");
    reveal_strlit("chat_");
    assert("\""@ =~= seq!['"']);
    let prefix: Seq<char> = seq!['c', 'h', 'a', 't', '_'];
    assert("chat_"@ =~= prefix);
    let y = prefix + x;
    let enc = seq!['"'] + "chat_"@ + x + seq!['"'];
    assert(!y.contains('"')) by {
        if y.contains('"') {
            let i = choose|i: int| 0 <= i < y.len() && y[i] == '"';
            if i >= 5 {
                assert(x[i - 5] == '"');
            }
        }
    }
    // the opening quote goes first
    assert(enc.take(1) =~= seq!['"']);
    assert(enc.skip(1) =~= y + seq!['"']);
    lemma_char_free_prefix(y, seq!['"'], '"');
    let q = seq!['"'];
    assert(q.take(1) =~= q);
    assert(q.skip(1) =~= Seq::<char>::empty());
    assert(without_occurrences(Seq::<char>::empty(), q) == Seq::<char>::empty());
    assert(without_occurrences(q, q) == without_occurrences(q.skip(1), q));
    assert(without_occurrences(q, q) =~= Seq::<char>::empty());
    assert(y + Seq::<char>::empty() =~= y);
    assert(without_occurrences(enc, "\""@) == y);
    // then the prefix
    assert(y.take(5) =~= prefix);
    assert(y.skip(5) =~= x);
    lemma_free_of_unchanged(x, "chat_"@);
}

/// A readable reply whose `btc_usd` member is an array of `n` records lists
/// one trade per record, in array order, and the trades taken from it are
/// exactly the records newer than `last_tid`: each of them is there, and
/// nothing else.
pub proof fn lemma_reply_lists_every_record(body: Seq<char>, last_tid: u64, n: usize)
    requires
        reply_readable(body),
        parsed_tree(body) is Some,
        root(parsed_tree(body).unwrap()).shape is Object,
        child_shape(parsed_tree(body).unwrap(), PathStep::Key("btc_usd"@)) == Some(
            JsonShapeView::Array(n as nat),
        ),
    ensures
        reply_trades(body).len() == n,
        forall|i: int|
            0 <= i < n ==> tick_of_tree(trade_record(parsed_tree(body).unwrap(), i)) == Some(
                #[trigger] reply_trades(body)[i],
            ),
        forall|i: int|
            0 <= i < n && (#[trigger] reply_trades(body)[i]).tid > last_tid ==> reply_ticks(
                body,
                last_tid,
            ).contains(reply_trades(body)[i]),
        forall|j: int|
            0 <= j < reply_ticks(body, last_tid).len() ==> reply_trades(body).contains(
                #[trigger] reply_ticks(body, last_tid)[j],
            ) && reply_ticks(body, last_tid)[j].tid > last_tid,
{
    broadcast use vstd::seq_lib::group_filter_ensures;

    let t = parsed_tree(body).unwrap();
    assert(n as nat as usize == n);
    assert forall|i: int| 0 <= i < n implies tick_of_tree(trade_record(t, i)) == Some(
        #[trigger] reply_trades(body)[i],
    ) by {
        assert(tick_of_tree(trade_record(t, i)) is Some);
    }
    let ts = reply_ticks(body, last_tid);
    assert forall|j: int| 0 <= j < ts.len() implies reply_trades(body).contains(
        #[trigger] ts[j],
    ) && ts[j].tid > last_tid by {
        assert(ts.contains(ts[j]));
        reply_trades(body).lemma_filter_contains_rev(|t: Tick| t.tid > last_tid, ts[j]);
    }
}

/// Every volume alert opens with the grey label `volume alert        : `,
/// whatever the number of trades it lists.
pub proof fn lemma_alert_opens_with_label(ticks: Seq<Tick>)
    ensures
        alert_layout(ticks).len() >= 1,
        alert_layout(ticks)[0] == text_segment(Color::BrightBlack, "volume alert        : "@),
{
}

/// A user name is drawn in the entry of the palette Red, BrightRed, Green,
/// BrightGreen, Yellow, BrightYellow, Blue, BrightBlue, Magenta,
/// BrightMagenta, Cyan, BrightCyan picked by its hash modulo 12; never in the
/// greys and whites of the rest of the screen.
pub proof fn lemma_name_color_by_hash(st: Seq<char>)
    ensures
        ({
            let i = (sip_hash_of(st) as usize) % 12;
            &&& i == 0 ==> name_color(st) == Color::Red
            &&& i == 1 ==> name_color(st) == Color::BrightRed
            &&& i == 2 ==> name_color(st) == Color::Green
            &&& i == 3 ==> name_color(st) == Color::BrightGreen
            &&& i == 4 ==> name_color(st) == Color::Yellow
            &&& i == 5 ==> name_color(st) == Color::BrightYellow
            &&& i == 6 ==> name_color(st) == Color::Blue
            &&& i == 7 ==> name_color(st) == Color::BrightBlue
            &&& i == 8 ==> name_color(st) == Color::Magenta
            &&& i == 9 ==> name_color(st) == Color::BrightMagenta
            &&& i == 10 ==> name_color(st) == Color::Cyan
            &&& i == 11 ==> name_color(st) == Color::BrightCyan
        }),
        name_color(st) != Color::BrightBlack,
        name_color(st) != Color::White,
        name_color(st) != Color::BrightWhite,
{
}

/// Whether `c` is an ASCII letter, `|` or an ASCII digit.
pub open spec fn ascii_name_char(c: char) -> bool {
    ||| ('a' <= c && c <= 'z')
    ||| ('A' <= c && c <= 'Z')
    ||| c == '|'
    ||| ('0' <= c && c <= '9')
}

/// A message that opens with a non-empty run of ASCII letters, `|` and ASCII
/// digits (every digit, `0` included), then a comma and a white-space
/// character such as a space, opens with an addressee: that run.
pub proof fn lemma_ascii_addressee(text: Seq<char>, k: int)
    requires
        1 <= k,
        k + 1 < text.len(),
        forall|i: int| 0 <= i < k ==> ascii_name_char(#[trigger] text[i]),
        text[k] == ',',
        text[k + 1] == ' ' || text[k + 1] == '\t' || text[k + 1] == '\n',
    ensures
        addressee_len(text) == Some(k),
{
    assert(crate::console::addressee_at(text, k));
    assert forall|j: int| crate::console::addressee_at(text, j) implies j == k by {
        if j < k {
            assert(ascii_name_char(text[j]));
        } else if j > k {
            assert(crate::console::name_char(text[k]));
        }
    }
}

/// Among ASCII characters, the name characters of an addressee are exactly
/// the letters, `|` and the digits `0` to `9`, and the white space after its
/// comma is exactly space, tab, line feed, vertical tab, form feed and
/// carriage return.
pub proof fn lemma_ascii_addressee_classes(c: char)
    requires
        (c as u32) < 0x80,
    ensures
        crate::console::name_char(c) <==> ascii_name_char(c),
        crate::console::white_space(c) <==> (c == ' ' || c == '\t' || c == '\n' || c == '\u{b}'
            || c == '\u{c}' || c == '\r'),
{
}

/// A channel member that is a plain room name, holding no double quote and no
/// `chat_`, is read as that name.
pub proof fn lemma_plain_channel_read(x: Seq<char>)
    requires
        !x.contains('"'),
        free_of(x, "chat_"@),
    ensures
        channel_of_encoding(Some(seq!['"'] + x + seq!['"'])) == x,
{
    reveal_strlit("\"");
    assert("\""@ =~= seq!['"']);
    let enc = seq!['"'] + x + seq!['"'];
    assert(enc.take(1) =~= seq!['"']);
    assert(enc.skip(1) =~= x + seq!['"']);
    lemma_char_free_prefix(x, seq!['"'], '"');
    let q = seq!['"'];
    assert(q.take(1) =~= q);
    assert(q.skip(1) =~= Seq::<char>::empty());
    assert(without_occurrences(Seq::<char>::empty(), q) == Seq::<char>::empty());
    assert(without_occurrences(q, q) == without_occurrences(q.skip(1), q));
    assert(x + Seq::<char>::empty() =~= x);
    assert(without_occurrences(enc, "\""@) == x);
    lemma_free_of_unchanged(x, "chat_"@);
}

} // verus!
