#![allow(deprecated)]

use std::hash::{Hash, Hasher, SipHasher};

use btce_trollbox::console::{opens_with_addressee, pad_right, split_addressee, Piece, PALETTE_LEN};
use btce_trollbox::json::JsonNumber;
use btce_trollbox::{hash_color, ChatMessage, Color, Console, Segment, Tick, TickType};

const PALETTE: [Color; 12] = [
    Color::Red,
    Color::BrightRed,
    Color::Green,
    Color::BrightGreen,
    Color::Yellow,
    Color::BrightYellow,
    Color::Blue,
    Color::BrightBlue,
    Color::Magenta,
    Color::BrightMagenta,
    Color::Cyan,
    Color::BrightCyan,
];

fn expected_color(name: &str) -> Color {
    let mut h = SipHasher::new();
    name.hash(&mut h);
    PALETTE[h.finish() as usize % 12]
}

fn text_of(s: &Segment) -> (Color, String) {
    match &s.piece {
        Piece::Text(t) => (s.color, t.clone()),
        _ => panic!("not a text segment"),
    }
}

fn message(channel: Option<&str>, login: &str, msg: &str) -> ChatMessage {
    ChatMessage {
        uid: String::from("1"),
        login: String::from(login),
        msg: String::from(msg),
        date: String::new(),
        usr_clr: String::new(),
        channel: channel.map(String::from),
    }
}

#[test]
fn name_colours_come_from_the_hash() {
    assert_eq!(PALETTE_LEN, 12);
    for name in ["bob", "alice", "", "Юля", "x|y"] {
        assert_eq!(hash_color(name), expected_color(name), "{}", name);
        assert_eq!(hash_color(name), hash_color(&String::from(name)));
    }
}

#[test]
fn addressee_split() {
    assert_eq!(
        split_addressee("alice, hi"),
        Some((String::from("alice"), String::from(" hi")))
    );
    assert_eq!(
        split_addressee("a|b9,\tx, y"),
        Some((String::from("a|b9"), String::from("\tx, y")))
    );
    assert_eq!(split_addressee("alice,hi"), None);
    assert_eq!(split_addressee("al ice, hi"), None);
    assert_eq!(split_addressee(", hi"), None);
    assert_eq!(split_addressee("hello"), None);
    assert_eq!(split_addressee("alice,"), None);
}

#[test]
fn padding_to_width() {
    assert_eq!(pad_right("bob", 5), "bob  ");
    assert_eq!(pad_right("bobby", 3), "bobby");
    assert_eq!(pad_right("ü", 3), "ü  ");
    assert_eq!(pad_right("", 0), "");
}

#[test]
fn chat_message_layout_with_addressee() {
    let out = message(Some("en"), "bob", "alice, hi").console();
    assert_eq!(out.len(), 5);
    assert_eq!(text_of(&out[0]), (Color::BrightBlack, String::from("[en] ")));
    assert_eq!(text_of(&out[1]), (expected_color("bob"), format!("{:<15}", "bob")));
    assert_eq!(text_of(&out[2]), (Color::BrightBlack, String::from(": ")));
    assert_eq!(text_of(&out[3]), (expected_color("alice"), String::from("alice")));
    assert_eq!(text_of(&out[4]), (Color::White, String::from(",  hi\n")));
}

#[test]
fn chat_message_layout_plain() {
    let out = message(None, "a_very_long_login_name", "hello all").console();
    assert_eq!(out.len(), 4);
    assert_eq!(text_of(&out[0]), (Color::BrightBlack, String::from("[] ")));
    assert_eq!(
        text_of(&out[1]),
        (expected_color("a_very_long_login_name"), String::from("a_very_long_login_name"))
    );
    assert_eq!(text_of(&out[3]), (Color::White, String::from("hello all\n")));
}

#[test]
fn volume_alert_layout() {
    let ticks = vec![
        Tick {
            amount: JsonNumber::Unsigned(12),
            price: JsonNumber::Unsigned(260),
            tid: 2,
            timestamp: 0,
            typ: TickType::ASK,
        },
        Tick {
            amount: JsonNumber::Signed(11),
            price: JsonNumber::Unsigned(250),
            tid: 1,
            timestamp: 0,
            typ: TickType::BID,
        },
    ];
    let out = ticks.console();
    assert_eq!(out.len(), 6);
    assert_eq!(
        text_of(&out[0]),
        (Color::BrightBlack, String::from("volume alert        : "))
    );
    assert_eq!(out[1].color, Color::BrightGreen);
    assert!(matches!(out[1].piece, Piece::Price(JsonNumber::Unsigned(250))));
    assert_eq!(out[2].color, Color::BrightWhite);
    assert!(matches!(out[2].piece, Piece::Amount(JsonNumber::Signed(11))));
    assert_eq!(
        text_of(&out[3]),
        (Color::BrightBlack, format!("{0:<20}: ", ""))
    );
    assert_eq!(out[4].color, Color::BrightRed);
    assert!(matches!(out[4].piece, Piece::Price(JsonNumber::Unsigned(260))));
    assert!(matches!(out[5].piece, Piece::Amount(JsonNumber::Unsigned(12))));
}

#[test]
fn addressee_drawn_in_its_own_colour() {
    let to_alice = message(Some("en"), "bob", "alice, hi").console();
    let from_alice = message(Some("ru"), "alice", "hello").console();
    assert_eq!(to_alice[3].color, from_alice[1].color);
}

#[test]
fn addressee_grammar() {
    assert!(opens_with_addressee("alice, hi"));
    assert!(opens_with_addressee("Bob|2,\n"));
    // Unicode decimal digits and white space count, as in the regex's \d and \s
    assert!(opens_with_addressee("\u{663}x,\u{a0}hi"));
    assert!(opens_with_addressee("x,\u{2003}"));
    assert!(opens_with_addressee("x,\u{85}"));
    assert!(opens_with_addressee("x,\u{3000}"));
    assert!(!opens_with_addressee("x,\u{200b}"));
    assert!(!opens_with_addressee("x,\u{180e}"));
    assert!(!opens_with_addressee("\u{e9}x, hi"));
    assert!(!opens_with_addressee("x_y, hi"));
    assert!(!opens_with_addressee("alice,hi"));
    assert!(!opens_with_addressee("alice,"));
    assert!(!opens_with_addressee(", hi"));
    assert!(!opens_with_addressee(""));
    assert_eq!(
        split_addressee("\u{663}x,\u{a0}hi"),
        Some((String::from("\u{663}x"), String::from("\u{a0}hi")))
    );
}
