//! What the viewer prints: coloured segments for a chat message and for a
//! volume alert. Printing them is left to the caller.

#![allow(deprecated)]

use regex::Regex;
use std::hash::{Hash, Hasher, SipHasher};
use vstd::prelude::*;
use vstd::string::StringExecFns;

use crate::chat::ChatMessage;
use crate::json::JsonNumber;
use crate::text::{chars_of, push_char, string_from};
use crate::tick::{Tick, TickType, TicksList};

verus! {

/// The sixteen terminal colours, in the terminal's numbering.
#[derive(Clone, Copy, Debug, PartialEq, Eq, Structural)]
pub enum Color {
    Black,
    Red,
    Green,
    Yellow,
    Blue,
    Magenta,
    Cyan,
    White,
    BrightBlack,
    BrightRed,
    BrightGreen,
    BrightYellow,
    BrightBlue,
    BrightMagenta,
    BrightCyan,
    BrightWhite,
}

/// The colours that user names are drawn in, indexed by name hash.
pub open spec fn palette(i: int) -> Color {
    if i == 0 {
        Color::Red
    } else if i == 1 {
        Color::BrightRed
    } else if i == 2 {
        Color::Green
    } else if i == 3 {
        Color::BrightGreen
    } else if i == 4 {
        Color::Yellow
    } else if i == 5 {
        Color::BrightYellow
    } else if i == 6 {
        Color::Blue
    } else if i == 7 {
        Color::BrightBlue
    } else if i == 8 {
        Color::Magenta
    } else if i == 9 {
        Color::BrightMagenta
    } else if i == 10 {
        Color::Cyan
    } else {
        Color::BrightCyan
    }
}

/// How many colours the palette holds.
pub const PALETTE_LEN: usize = 12;

/// The 64-bit SipHash (zero keys) that std's `SipHasher` gives the string
/// `st` through `str`'s `Hash` impl.
pub uninterp spec fn sip_hash_of(st: Seq<char>) -> u64;

/// Hashes `st` with std's `SipHasher::new()` (SipHash-2-4, zero keys) through
/// `str`'s `Hash` impl. The hash function itself is left to the name
/// `sip_hash_of`.
#[verifier::external_body]
fn sip_hash(st: &str) -> (h: u64)
    ensures
        h == sip_hash_of(st@),
{
    let mut hasher = SipHasher::new();
    st.hash(&mut hasher);
    hasher.finish()
}

/// The colour a user name is drawn in.
pub open spec fn name_color(st: Seq<char>) -> Color {
    palette(((sip_hash_of(st) as usize) % (PALETTE_LEN as usize)) as int)
}

/// The colour a user name is drawn in: a palette entry picked by the name's hash.
pub fn hash_color(st: &str) -> (c: Color)
    ensures
        c == name_color(st@),
{
    let hashsum = sip_hash(st);
    let idx: usize = (hashsum as usize) % PALETTE_LEN;
    if idx == 0 {
        Color::Red
    } else if idx == 1 {
        Color::BrightRed
    } else if idx == 2 {
        Color::Green
    } else if idx == 3 {
        Color::BrightGreen
    } else if idx == 4 {
        Color::Yellow
    } else if idx == 5 {
        Color::BrightYellow
    } else if idx == 6 {
        Color::Blue
    } else if idx == 7 {
        Color::BrightBlue
    } else if idx == 8 {
        Color::Magenta
    } else if idx == 9 {
        Color::BrightMagenta
    } else if idx == 10 {
        Color::Cyan
    } else {
        Color::BrightCyan
    }
}

/// Whether `c` is a decimal digit by Unicode's `Decimal_Number` category, as
/// the regex crate's `\d` reads one character.
pub uninterp spec fn unicode_decimal_digit(c: char) -> bool;

/// Whether the regex crate's `\d` matches the character `c` (a regex
/// `\A\d\z` over `c` alone): a Unicode decimal digit. The table of
/// non-ASCII digits is left to the name `unicode_decimal_digit`; the
/// contract states the ASCII part, where the digits are `0`..`9`.
#[verifier::external_body]
fn is_decimal_digit(c: char) -> (r: bool)
    ensures
        r == unicode_decimal_digit(c),
        (c as u32) < 0x80 ==> (r <==> ('0' <= c && c <= '9')),
{
    let mut buf = [0u8; 4];
    Regex::new(r"\A\d\z").unwrap().is_match(c.encode_utf8(&mut buf))
}

/// Whether `c` has Unicode's `White_Space` property, the class the regex
/// `\s` matches: tab to carriage return, space, next line, no-break space,
/// ogham space mark, the spaces from en quad to hair space, line and
/// paragraph separators, narrow no-break space, medium mathematical space
/// and ideographic space.
pub open spec fn white_space(c: char) -> bool {
    ||| ('\t' <= c && c <= '\r')
    ||| c == ' '
    ||| c == '\u{85}'
    ||| c == '\u{a0}'
    ||| c == '\u{1680}'
    ||| ('\u{2000}' <= c && c <= '\u{200a}')
    ||| c == '\u{2028}'
    ||| c == '\u{2029}'
    ||| c == '\u{202f}'
    ||| c == '\u{205f}'
    ||| c == '\u{3000}'
}

/// Whether `c` is a white-space character.
fn is_white_space(c: char) -> (r: bool)
    ensures
        r == white_space(c),
{
    ('\t' <= c && c <= '\r') || c == ' ' || c == '\u{85}' || c == '\u{a0}' || c == '\u{1680}'
        || ('\u{2000}' <= c && c <= '\u{200a}') || c == '\u{2028}' || c == '\u{2029}' || c
        == '\u{202f}' || c == '\u{205f}' || c == '\u{3000}'
}

/// A character of an addressee's name: an ASCII letter, `|`, or a decimal
/// digit (in ASCII, `0`..`9`).
pub open spec fn name_char(c: char) -> bool {
    ||| ('a' <= c && c <= 'z')
    ||| ('A' <= c && c <= 'Z')
    ||| c == '|'
    ||| if (c as u32) < 0x80 {
        '0' <= c && c <= '9'
    } else {
        unicode_decimal_digit(c)
    }
}

/// Whether `c` is a character of an addressee's name.
pub fn is_name_char(c: char) -> (r: bool)
    ensures
        r == name_char(c),
{
    ('a' <= c && c <= 'z') || ('A' <= c && c <= 'Z') || c == '|' || is_decimal_digit(c)
}

/// `text` opens with an addressee of `k` characters: a name of `k` name
/// characters, a comma, and a white-space character.
pub open spec fn addressee_at(text: Seq<char>, k: int) -> bool {
    &&& 1 <= k
    &&& k + 1 < text.len()
    &&& forall|i: int| 0 <= i < k ==> name_char(#[trigger] text[i])
    &&& text[k] == ','
    &&& white_space(text[k + 1])
}

/// The length of the addressee `text` opens with (the pattern
/// `^([[:alpha:]|\d]+),\s`), if it opens with one.
pub open spec fn addressee_len(text: Seq<char>) -> Option<int> {
    if exists|k: int| addressee_at(text, k) {
        Some(choose|k: int| addressee_at(text, k))
    } else {
        None
    }
}

/// The length of the addressee `chars` opens with.
fn addressee_length(chars: &Vec<char>) -> (r: Option<usize>)
    ensures
        r matches Some(k) ==> addressee_len(chars@) == Some(k as int),
        r is None ==> addressee_len(chars@) is None,
{
    let mut k: usize = 0;
    while k < chars.len() && is_name_char(chars[k])
        invariant
            k <= chars.len(),
            forall|i: int| 0 <= i < k ==> name_char(#[trigger] chars@[i]),
        decreases chars.len() - k,
    {
        k += 1;
    }
    assert(!name_char(','));
    if k >= 1 && k < chars.len() - 1 && chars[k] == ',' && is_white_space(chars[k + 1]) {
        assert(addressee_at(chars@, k as int));
        proof {
            let j = choose|j: int| addressee_at(chars@, j);
            if j < k {
                assert(name_char(chars@[j]));
            } else if j > k {
                assert(name_char(chars@[k as int]));
            }
        }
        Some(k)
    } else {
        proof {
            assert forall|j: int| !addressee_at(chars@, j) by {
                if addressee_at(chars@, j) {
                    if j < k {
                        assert(name_char(chars@[j]));
                    } else if j > k {
                        assert(name_char(chars@[k as int]));
                    }
                }
            }
        }
        None
    }
}

/// Whether `text` opens with an addressee: a run of ASCII letters, `|` and
/// decimal digits, a comma, and a white-space character.
pub fn opens_with_addressee(text: &str) -> (r: bool)
    ensures
        r == addressee_len(text@) is Some,
{
    let chars = chars_of(text);
    addressee_length(&chars).is_some()
}

/// A message that opens with an addressee, split at the comma after the
/// addressee into the addressee and the rest.
pub open spec fn addressee_split(msg: Seq<char>) -> Option<(Seq<char>, Seq<char>)> {
    match addressee_len(msg) {
        Some(k) => Some((msg.take(k), msg.skip(k + 1))),
        None => None,
    }
}

/// Splits a message that opens with an addressee at the comma after it.
pub fn split_addressee(msg: &str) -> (r: Option<(String, String)>)
    ensures
        r matches Some(p) ==> addressee_split(msg@) == Some((p.0@, p.1@)),
        r is None ==> addressee_split(msg@) is None,
        r matches Some(p) ==> p.0@.len() > 0 && p.1@.len() > 0 && msg@ == p.0@ + seq![','] + p.1@,
{
    let chars = chars_of(msg);
    let k = match addressee_length(&chars) {
        Some(k) => k,
        None => return None,
    };
    proof {
        let j = choose|j: int| addressee_at(chars@, j);
        assert(addressee_at(chars@, j));
    }
    let mut who: Vec<char> = Vec::new();
    let mut i: usize = 0;
    while i < k
        invariant
            k < chars.len(),
            i <= k,
            who@ == chars@.take(i as int),
        decreases k - i,
    {
        who.push(chars[i]);
        i += 1;
        assert(who@ =~= chars@.take(i as int));
    }
    let mut rest: Vec<char> = Vec::new();
    let mut i: usize = k + 1;
    while i < chars.len()
        invariant
            k < chars.len(),
            k + 1 <= i <= chars.len(),
            rest@ == chars@.subrange(k + 1, i as int),
        decreases chars.len() - i,
    {
        rest.push(chars[i]);
        i += 1;
        assert(rest@ =~= chars@.subrange(k + 1, i as int));
    }
    assert(rest@ =~= chars@.skip(k + 1));
    assert(chars@ =~= who@ + seq![','] + rest@);
    Some((string_from(&who), string_from(&rest)))
}

/// `s` padded with spaces on the right to `width` characters (as the `<`
/// alignment of std's formatter pads).
pub open spec fn padded(s: Seq<char>, width: nat) -> Seq<char> {
    if s.len() >= width {
        s
    } else {
        s + Seq::new((width - s.len()) as nat, |i: int| ' ')
    }
}

/// Pads `s` with spaces on the right to `width` characters.
pub fn pad_right(s: &str, width: usize) -> (r: String)
    ensures
        r@ == padded(s@, width as nat),
{
    let mut chars = chars_of(s);
    let n = chars.len();
    if n >= width {
        return string_from(&chars);
    }
    let mut i: usize = n;
    while i < width
        invariant
            n < width,
            n <= i <= width,
            chars@ == s@ + Seq::new((i - n) as nat, |j: int| ' '),
        decreases width - i,
    {
        chars.push(' ');
        i += 1;
        assert(chars@ =~= s@ + Seq::new((i - n) as nat, |j: int| ' '));
    }
    string_from(&chars)
}

/// What one segment shows.
#[derive(Debug)]
pub enum Piece {
    /// This text.
    Text(String),
    /// A price: right-aligned in 8 columns with 4 decimals, then two spaces.
    Price(JsonNumber),
    /// An amount: left-aligned in 12 columns with 6 decimals, then a line break.
    Amount(JsonNumber),
}

/// A piece of output in one colour.
#[derive(Debug)]
pub struct Segment {
    pub color: Color,
    pub piece: Piece,
}

/// The mathematical view of a [`Piece`].
pub enum PieceView {
    Text(Seq<char>),
    Price(JsonNumber),
    Amount(JsonNumber),
}

/// The mathematical view of a [`Segment`].
pub struct SegmentView {
    pub color: Color,
    pub piece: PieceView,
}

impl View for Segment {
    type V = SegmentView;

    open spec fn view(&self) -> SegmentView {
        SegmentView {
            color: self.color,
            piece: match &self.piece {
                Piece::Text(s) => PieceView::Text(s@),
                Piece::Price(n) => PieceView::Price(*n),
                Piece::Amount(n) => PieceView::Amount(*n),
            },
        }
    }
}

/// The views of a list of segments.
pub open spec fn segments_view(v: Seq<Segment>) -> Seq<SegmentView> {
    v.map_values(|s: Segment| s@)
}

/// A text segment.
pub open spec fn text_segment(color: Color, s: Seq<char>) -> SegmentView {
    SegmentView { color, piece: PieceView::Text(s) }
}

/// How a chat message is shown: `[channel] `, the sender padded to 15
/// columns in the sender's colour, `: `, and the message, its addressee (if
/// it opens with one) in the addressee's colour.
pub open spec fn chat_layout(channel: Option<Seq<char>>, login: Seq<char>, msg: Seq<char>) -> Seq<
    SegmentView,
> {
    let ch = match channel {
        Some(c) => c,
        None => Seq::empty(),
    };
    seq![
        text_segment(Color::BrightBlack, "["@ + ch + "] "@),
        text_segment(name_color(login), padded(login, 15)),
        text_segment(Color::BrightBlack, ": "@),
    ] + match addressee_split(msg) {
        Some((who, rest)) => seq![
            text_segment(name_color(who), who),
            text_segment(Color::White, ", "@ + rest + "\n"@),
        ],
        None => seq![text_segment(Color::White, msg + "\n"@)],
    }
}

fn text(color: Color, s: String) -> (r: Segment)
    ensures
        r@ == text_segment(color, s@),
{
    Segment { color, piece: Piece::Text(s) }
}

/// The colour a trade's side is drawn in.
pub open spec fn side_color(t: TickType) -> Color {
    match t {
        TickType::BID => Color::BrightGreen,
        TickType::ASK => Color::BrightRed,
    }
}

/// The price of a trade, in its side's colour.
pub open spec fn price_segment(t: Tick) -> SegmentView {
    SegmentView { color: side_color(t.typ), piece: PieceView::Price(t.price) }
}

/// The amount of a trade.
pub open spec fn amount_segment(t: Tick) -> SegmentView {
    SegmentView { color: Color::BrightWhite, piece: PieceView::Amount(t.amount) }
}

/// The header of a volume alert.
pub open spec fn alert_header() -> Seq<char> {
    "volume alert        : "@
}

/// The indentation of the following lines of a volume alert.
pub open spec fn alert_indent() -> Seq<char> {
    "                    : "@
}

/// The segments of the first `i` lines of a volume alert over `shown`
/// (the trades in display order): price in its side's colour, amount, and an
/// indentation before each line but the last.
pub open spec fn alert_lines(shown: Seq<Tick>, i: nat) -> Seq<SegmentView>
    decreases i,
{
    if i == 0 {
        Seq::empty()
    } else {
        let t = shown[i - 1];
        alert_lines(shown, (i - 1) as nat) + seq![price_segment(t), amount_segment(t)] + if i < shown.len() {
            seq![text_segment(Color::BrightBlack, alert_indent())]
        } else {
            Seq::empty()
        }
    }
}

/// How a volume alert is shown: the header, then the trades newest last
/// first (the list reversed), one per line.
pub open spec fn alert_layout(ticks: Seq<Tick>) -> Seq<SegmentView> {
    seq![text_segment(Color::BrightBlack, alert_header())] + alert_lines(
        ticks.reverse(),
        ticks.len(),
    )
}

/// Something the viewer shows.
pub trait Console {
    /// Whether it can be shown.
    spec fn showable(&self) -> bool;

    /// The coloured segments that show it.
    fn console(&self) -> Vec<Segment>
        requires
            self.showable(),
    ;
}

impl Console for ChatMessage {
    open spec fn showable(&self) -> bool {
        true
    }

    fn console(&self) -> (out: Vec<Segment>)
        ensures
            segments_view(out@) == chat_layout(
                match self.channel {
                    Some(c) => Some(c@),
                    None => None,
                },
                self.login@,
                self.msg@,
            ),
    {
        let mut out: Vec<Segment> = Vec::new();
        let mut head = String::from_str("[");
        match &self.channel {
            Some(c) => head.append(c.as_str()),
            None => {},
        }
        head.append("] ");
        out.push(text(Color::BrightBlack, head));
        out.push(text(hash_color(self.login.as_str()), pad_right(self.login.as_str(), 15)));
        out.push(text(Color::BrightBlack, String::from_str(": ")));
        match split_addressee(self.msg.as_str()) {
            Some((who, rest)) => {
                let c = hash_color(who.as_str());
                out.push(text(c, who));
                let mut tail = String::from_str(", ");
                tail.append(rest.as_str());
                tail.append("\n");
                out.push(text(Color::White, tail));
            },
            None => {
                let mut tail = self.msg.clone();
                tail.append("\n");
                out.push(text(Color::White, tail));
            },
        }
        proof {
            reveal_strlit("");
            assert(""@ =~= Seq::<char>::empty());
        }
        assert(segments_view(out@) =~= chat_layout(
            match self.channel {
                Some(c) => Some(c@),
                None => None,
            },
            self.login@,
            self.msg@,
        ));
        out
    }
}

impl Console for TicksList {
    open spec fn showable(&self) -> bool {
        self@.len() > 0
    }

    fn console(&self) -> (out: Vec<Segment>)
        ensures
            segments_view(out@) == alert_layout(self@),
    {
        let ghost shown = self@.reverse();
        let mut out: Vec<Segment> = Vec::new();
        out.push(text(Color::BrightBlack, String::from_str("volume alert        : ")));
        let n = self.len();
        let mut i: usize = 0;
        assert(segments_view(out@) =~= seq![text_segment(Color::BrightBlack, alert_header())]
            + alert_lines(shown, 0));
        while i < n
            invariant
                n == self@.len(),
                n > 0,
                i <= n,
                shown == self@.reverse(),
                segments_view(out@) == seq![text_segment(Color::BrightBlack, alert_header())]
                    + alert_lines(shown, i as nat),
            decreases n - i,
        {
            let t = self[n - 1 - i];
            assert(shown.len() == n);
            assert(shown[i as int] == t);
            let ghost before = segments_view(out@);
            let color = match t.typ {
                TickType::BID => Color::BrightGreen,
                TickType::ASK => Color::BrightRed,
            };
            out.push(Segment { color, piece: Piece::Price(t.price) });
            out.push(Segment { color: Color::BrightWhite, piece: Piece::Amount(t.amount) });
            if i < n - 1 {
                out.push(text(Color::BrightBlack, String::from_str("                    : ")));
            }
            let ghost row = seq![price_segment(t), amount_segment(t)] + if i + 1 < shown.len() {
                seq![text_segment(Color::BrightBlack, alert_indent())]
            } else {
                Seq::empty()
            };
            assert(alert_lines(shown, (i + 1) as nat) == alert_lines(shown, i as nat) + row);
            assert(segments_view(out@) =~= before + row);
            i += 1;
            assert(segments_view(out@) =~= seq![text_segment(Color::BrightBlack, alert_header())]
                + alert_lines(shown, i as nat));
        }
        out
    }
}

} // verus!
