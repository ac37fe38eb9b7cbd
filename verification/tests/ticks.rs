use btce_trollbox::json::{JsonNumber, JsonShape};
use btce_trollbox::monitor::{
    TICK_FETCH_DELAY_DELTA, TICK_FETCH_DELAY_LIMIT, TICK_FETCH_ELEMENTS, TICK_FETCH_INIT_DELAY,
};
use btce_trollbox::tick::{reply_kind, tick_from_fields, ticks_from_reply, try_ticks_from_reply, ReplyKind};
use btce_trollbox::{get_new_delay, Tick, TickType, VolumeMonitor};

const REPLY: &str = "{\"btc_usd\":[{\"type\":\"ask\",\"price\":263.959,\"amount\":0.0126786,\"tid\":100,\"timestamp\":1420000000},{\"type\":\"bid\",\"price\":264,\"amount\":12.5,\"tid\":99,\"timestamp\":1419999999}]}";

fn tick(tid: u64) -> Tick {
    Tick {
        amount: JsonNumber::Unsigned(1),
        price: JsonNumber::Unsigned(1),
        tid,
        timestamp: 0,
        typ: TickType::BID,
    }
}

#[test]
fn tick_type_from_label() {
    assert_eq!(TickType::from_string("ask"), TickType::ASK);
    assert_eq!(TickType::from_string("bid"), TickType::BID);
    assert_eq!(TickType::from_string("ASK"), TickType::BID);
    assert_eq!(TickType::from_string(""), TickType::BID);
}

#[test]
fn tick_from_json_record() {
    let rec = "{\"type\":\"ask\",\"price\":263.959,\"amount\":0.0126786,\"tid\":100,\"timestamp\":1420000000}";
    let t = Tick::from_json(rec).expect("a trade");
    assert_eq!(t.tid, 100);
    assert_eq!(t.timestamp, 1420000000);
    assert_eq!(t.typ, TickType::ASK);
    assert_eq!(t.price, JsonNumber::Float(263.959f64.to_bits()));
    assert_eq!(t.amount, JsonNumber::Float(0.0126786f64.to_bits()));
    assert_eq!(Tick::try_from_json(rec), Some(t));
}

#[test]
fn tick_from_json_integers_and_other_labels() {
    let rec = "{\"type\":\"buy\",\"price\":-3,\"amount\":7,\"tid\":1,\"timestamp\":2}";
    let t = Tick::from_json(rec).expect("a trade");
    assert_eq!(t.typ, TickType::BID);
    assert_eq!(t.price, JsonNumber::Signed(-3));
    assert_eq!(t.amount, JsonNumber::Unsigned(7));
}

#[test]
fn incomplete_tick_records() {
    assert_eq!(Tick::try_from_json("[]"), None);
    assert_eq!(Tick::try_from_json("nope"), None);
    // missing timestamp
    assert_eq!(
        Tick::try_from_json("{\"type\":\"ask\",\"price\":1,\"amount\":1,\"tid\":1}"),
        None
    );
    // negative tid
    assert_eq!(
        Tick::try_from_json("{\"type\":\"ask\",\"price\":1,\"amount\":1,\"tid\":-1,\"timestamp\":1}"),
        None
    );
    // float tid
    assert_eq!(
        Tick::try_from_json("{\"type\":\"ask\",\"price\":1,\"amount\":1,\"tid\":1.5,\"timestamp\":1}"),
        None
    );
    // type not a string
    assert_eq!(
        Tick::try_from_json("{\"type\":1,\"price\":1,\"amount\":1,\"tid\":1,\"timestamp\":1}"),
        None
    );
    // amount not a number
    assert_eq!(
        Tick::try_from_json("{\"type\":\"bid\",\"price\":1,\"amount\":\"1\",\"tid\":1,\"timestamp\":1}"),
        None
    );
}

#[test]
fn reply_trades_in_order() {
    let ts = ticks_from_reply(REPLY, 0);
    assert_eq!(ts.len(), 2);
    assert_eq!(ts[0].tid, 100);
    assert_eq!(ts[0].typ, TickType::ASK);
    assert_eq!(ts[1].tid, 99);
    assert_eq!(ts[1].typ, TickType::BID);
    assert_eq!(ts[1].price, JsonNumber::Unsigned(264));
    assert_eq!(ts[1].amount, JsonNumber::Float(12.5f64.to_bits()));
}

#[test]
fn reply_trades_newer_than_last() {
    let ts = ticks_from_reply(REPLY, 99);
    assert_eq!(ts.len(), 1);
    assert_eq!(ts[0].tid, 100);
    assert!(ticks_from_reply(REPLY, 100).is_empty());
}

#[test]
fn unreadable_replies() {
    assert!(ticks_from_reply("<html>", 0).is_empty());
    assert!(ticks_from_reply("[1]", 0).is_empty());
    assert_eq!(try_ticks_from_reply("<html>", 0), Some(vec![]));
    assert_eq!(try_ticks_from_reply("{\"error\":\"x\"}", 0), None);
    assert_eq!(try_ticks_from_reply("{\"btc_usd\":3}", 0), None);
    assert_eq!(try_ticks_from_reply("{\"btc_usd\":[{\"tid\":1}]}", 0), None);
    assert_eq!(try_ticks_from_reply("{\"btc_usd\":[]}", 0), Some(vec![]));
    assert_eq!(try_ticks_from_reply(REPLY, 99).map(|v| v.len()), Some(1));
}

#[test]
fn delay_grows_up_to_the_limit() {
    assert_eq!(TICK_FETCH_INIT_DELAY, 2000);
    assert_eq!(TICK_FETCH_DELAY_DELTA, 500);
    assert_eq!(TICK_FETCH_DELAY_LIMIT, 30000);
    assert_eq!(TICK_FETCH_ELEMENTS, 2000);
    assert_eq!(get_new_delay(2000), 2500);
    assert_eq!(get_new_delay(29500), 30000);
    assert_eq!(get_new_delay(29800), 30000);
    assert_eq!(get_new_delay(30000), 30000);
    assert_eq!(get_new_delay(0), 500);
}

#[test]
fn monitor_starts_from_first_trade() {
    let m = VolumeMonitor::new(&vec![tick(7), tick(3)]);
    assert_eq!(m.last_tid(), 7);
    assert_eq!(m.delay(), 2000);
    let m = VolumeMonitor::new(&vec![]);
    assert_eq!(m.last_tid(), 0);
}

#[test]
fn monitor_backs_off_without_new_trades() {
    let mut m = VolumeMonitor::new(&vec![tick(7)]);
    assert!(!m.on_reply(&vec![]));
    assert_eq!(m.delay(), 2500);
    assert!(!m.on_reply(&vec![tick(7)]));
    assert_eq!(m.delay(), 3000);
    for _ in 0..100 {
        assert!(!m.on_reply(&vec![]));
    }
    assert_eq!(m.delay(), 30000);
    assert_eq!(m.last_tid(), 7);
}

#[test]
fn monitor_shows_new_trades_and_shares_the_pause() {
    let mut m = VolumeMonitor::new(&vec![tick(7)]);
    for _ in 0..100 {
        m.on_reply(&vec![]);
    }
    assert!(m.on_reply(&vec![tick(9)]));
    assert_eq!(m.last_tid(), 9);
    assert_eq!(m.delay(), 30000);
    assert!(m.on_reply(&vec![tick(12), tick(11), tick(10)]));
    assert_eq!(m.last_tid(), 12);
    assert_eq!(m.delay(), 10000);
    assert!(m.on_reply(&vec![tick(20); 7]));
    // 10000 / 7 = 1428, rounded down to 1400, raised to 2000
    assert_eq!(m.delay(), 2000);
}

#[test]
fn tick_steps_on_plain_values() {
    let n = |u: u64| Some(JsonShape::Number(JsonNumber::Unsigned(u)));
    let t = tick_from_fields(n(1), n(2), n(3), n(4), Some(JsonShape::Text(String::from("ask"))));
    assert_eq!(
        t,
        Some(Tick {
            amount: JsonNumber::Unsigned(1),
            price: JsonNumber::Unsigned(2),
            tid: 3,
            timestamp: 4,
            typ: TickType::ASK
        })
    );
    assert_eq!(tick_from_fields(n(1), n(2), n(3), None, Some(JsonShape::Text(String::new()))), None);
    assert_eq!(
        tick_from_fields(n(1), n(2), Some(JsonShape::Number(JsonNumber::Signed(-1))), n(4), Some(JsonShape::Text(String::new()))),
        None
    );
    assert_eq!(reply_kind(&JsonShape::Object, &Some(JsonShape::Array(5))), ReplyKind::Trades(5));
    assert_eq!(reply_kind(&JsonShape::Object, &None), ReplyKind::NoTradeList);
    assert_eq!(reply_kind(&JsonShape::Object, &Some(JsonShape::Object)), ReplyKind::NoTradeList);
    assert_eq!(reply_kind(&JsonShape::Array(2), &None), ReplyKind::NotAnObject);
}

#[test]
fn reply_numbers_read_in_place() {
    // the same bits as reading the reply directly with rustc_serialize
    let body = "{\"btc_usd\":[{\"type\":\"ask\",\"price\":263.95900000000001,\"amount\":0.1234567890123456789,\"tid\":5,\"timestamp\":6}]}";
    let direct = rustc_serialize::json::Json::from_str(body).unwrap();
    let rec = &direct.find("btc_usd").unwrap().as_array().unwrap()[0];
    let ts = ticks_from_reply(body, 0);
    assert_eq!(ts[0].amount, JsonNumber::Float(rec.find("amount").unwrap().as_f64().unwrap().to_bits()));
    assert_eq!(ts[0].price, JsonNumber::Float(rec.find("price").unwrap().as_f64().unwrap().to_bits()));
}

#[test]
fn reply_with_overlong_exponent_is_unreadable() {
    let body = "{\"btc_usd\":[{\"type\":\"ask\",\"price\":1e99999999999999999999,\"amount\":1,\"tid\":5,\"timestamp\":1}]}";
    assert!(try_ticks_from_reply(body, 0).is_none());
    assert!(Tick::try_from_json("{\"type\":\"ask\",\"price\":2,\"amount\":1e-99999999999999999999,\"tid\":5,\"timestamp\":1}").is_none());
}
