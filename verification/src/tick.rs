//! Trades of the btc_usd pair: their JSON records and the replies of the
//! trades API.

use vstd::prelude::*;

use rustc_serialize::json::Json;

use crate::json::{
    JsonNumber, JsonShape, has_overlong_exponent, overlong_exponent, JsonShapeView, JsonTree, PathStep, child_shape, json_element,
    json_kind, json_member, json_nodes, read_json, parsed_tree, lemma_subtree_root, member_shape,
    root, shape_view, subtree,
};
use crate::text::same_text;

verus! {

/// Side of a trade.
#[derive(Clone, Copy, Debug, PartialEq, Eq, Structural)]
#[allow(clippy::upper_case_acronyms)]
pub enum TickType {
    BID,
    ASK,
}

impl TickType {
    /// "ask" is an ask; every other label is a bid.
    pub fn from_string(label: &str) -> (t: TickType)
        ensures
            t == (if label@ == "ask"@ {
                TickType::ASK
            } else {
                TickType::BID
            }),
    {
        if same_text(label, "ask") {
            TickType::ASK
        } else {
            TickType::BID
        }
    }
}

/// One trade. Amount and price are the JSON numbers the API sent.
#[derive(Clone, Copy, Debug, PartialEq, Eq, Structural)]
pub struct Tick {
    pub amount: JsonNumber,
    pub price: JsonNumber,
    pub tid: u64,
    pub timestamp: u64,
    pub typ: TickType,
}

pub type TicksList = Vec<Tick>;

/// The number a node holds, if it is a number.
pub open spec fn number_in(s: Option<JsonShapeView>) -> Option<JsonNumber> {
    match s {
        Some(JsonShapeView::Number(n)) => Some(n),
        _ => None,
    }
}

/// A JSON number read as an unsigned integer, as rustc_serialize's
/// `Json::as_u64` reads it: non-negative integers only.
pub open spec fn number_as_u64(n: JsonNumber) -> Option<u64> {
    match n {
        JsonNumber::Signed(i) => if i >= 0 {
            Some(i as u64)
        } else {
            None
        },
        JsonNumber::Unsigned(u) => Some(u),
        JsonNumber::Float(_) => None,
    }
}

/// The unsigned integer a node holds.
pub open spec fn u64_in(s: Option<JsonShapeView>) -> Option<u64> {
    match number_in(s) {
        Some(n) => number_as_u64(n),
        None => None,
    }
}

/// The string a node holds, if it is a string.
pub open spec fn text_in(s: Option<JsonShapeView>) -> Option<Seq<char>> {
    match s {
        Some(JsonShapeView::Text(t)) => Some(t),
        _ => None,
    }
}

/// The trade that the nodes of its five fields describe, when each is
/// there with the right kind of value.
pub open spec fn tick_of_fields(
    amount: Option<JsonShapeView>,
    price: Option<JsonShapeView>,
    tid: Option<JsonShapeView>,
    timestamp: Option<JsonShapeView>,
    typ: Option<JsonShapeView>,
) -> Option<Tick> {
    if number_in(amount) is Some && number_in(price) is Some && u64_in(tid) is Some && u64_in(
        timestamp,
    ) is Some && text_in(typ) is Some {
        Some(
            Tick {
                amount: number_in(amount).unwrap(),
                price: number_in(price).unwrap(),
                tid: u64_in(tid).unwrap(),
                timestamp: u64_in(timestamp).unwrap(),
                typ: if text_in(typ).unwrap() == "ask"@ {
                    TickType::ASK
                } else {
                    TickType::BID
                },
            },
        )
    } else {
        None
    }
}

/// The trade a JSON value describes: an object with the fields `amount`,
/// `price` (numbers), `tid`, `timestamp` (unsigned integers) and `type` (a
/// string).
pub open spec fn tick_of_tree(t: JsonTree) -> Option<Tick> {
    if root(t).shape is Object {
        tick_of_fields(
            child_shape(t, PathStep::Key("amount"@)),
            child_shape(t, PathStep::Key("price"@)),
            child_shape(t, PathStep::Key("tid"@)),
            child_shape(t, PathStep::Key("timestamp"@)),
            child_shape(t, PathStep::Key("type"@)),
        )
    } else {
        None
    }
}

/// The trade a JSON text describes.
pub open spec fn tick_record(rec: Seq<char>) -> Option<Tick> {
    match parsed_tree(rec) {
        Some(t) => tick_of_tree(t),
        None => None,
    }
}

/// The number held by a node.
pub fn number_of(s: &Option<JsonShape>) -> (r: Option<JsonNumber>)
    ensures
        r == number_in(shape_view(*s)),
{
    match s {
        Some(JsonShape::Number(n)) => Some(*n),
        _ => None,
    }
}

/// The unsigned integer held by a node (as `Json::as_u64` reads it).
pub fn u64_of(s: &Option<JsonShape>) -> (r: Option<u64>)
    ensures
        r == u64_in(shape_view(*s)),
{
    match number_of(s) {
        Some(JsonNumber::Signed(i)) => if i >= 0 {
            Some(i as u64)
        } else {
            None
        },
        Some(JsonNumber::Unsigned(u)) => Some(u),
        _ => None,
    }
}

/// The trade that the nodes of its five fields describe (each `None` when
/// the record lacks that field).
pub fn tick_from_fields(
    amount: Option<JsonShape>,
    price: Option<JsonShape>,
    tid: Option<JsonShape>,
    timestamp: Option<JsonShape>,
    typ: Option<JsonShape>,
) -> (r: Option<Tick>)
    ensures
        r == tick_of_fields(
            shape_view(amount),
            shape_view(price),
            shape_view(tid),
            shape_view(timestamp),
            shape_view(typ),
        ),
{
    let amount = number_of(&amount);
    let price = number_of(&price);
    let tid = u64_of(&tid);
    let timestamp = u64_of(&timestamp);
    match (amount, price, tid, timestamp, typ) {
        (Some(amount), Some(price), Some(tid), Some(timestamp), Some(JsonShape::Text(typ))) => Some(
            Tick { amount, price, tid, timestamp, typ: TickType::from_string(typ.as_str()) },
        ),
        _ => None,
    }
}

/// Reads the trade a parsed JSON value describes.
pub fn tick_of_json(j: &Json) -> (r: Option<Tick>)
    ensures
        r == tick_of_tree(json_nodes(*j)),
{
    match json_kind(j) {
        JsonShape::Object => {},
        _ => return None,
    }
    tick_from_fields(
        member_shape(j, "amount"),
        member_shape(j, "price"),
        member_shape(j, "tid"),
        member_shape(j, "timestamp"),
        member_shape(j, "type"),
    )
}

fn read_tick(rec: &str) -> (r: Option<Tick>)
    ensures
        r == tick_record(rec@),
{
    match read_json(rec) {
        Some(j) => tick_of_json(&j),
        None => None,
    }
}

impl Tick {
    /// Reads a trade from its JSON record.
    pub fn from_json(rec: &str) -> (r: Option<Tick>)
        requires
            tick_record(rec@) is Some,
        ensures
            r == tick_record(rec@),
    {
        read_tick(rec)
    }

    /// Reads a trade from its JSON record; `None` when the record is not a
    /// complete trade object.
    pub fn try_from_json(rec: &str) -> (r: Option<Tick>)
        ensures
            r == tick_record(rec@),
    {
        match read_tick(rec) {
            Some(_) => Tick::from_json(rec),
            None => None,
        }
    }
}

/// The list of trades of a reply.
pub open spec fn trade_list(t: JsonTree) -> JsonTree {
    subtree(t, PathStep::Key("btc_usd"@))
}

/// The `i`-th trade record of a reply.
pub open spec fn trade_record(t: JsonTree, i: int) -> JsonTree {
    subtree(trade_list(t), PathStep::Index(i))
}

/// How a parsed reply is read, from its root and its `btc_usd` member.
#[derive(Clone, Copy, Debug, PartialEq, Eq, Structural)]
pub enum ReplyKind {
    /// Not a JSON object: it lists no trades.
    NotAnObject,
    /// An object whose `btc_usd` member is an array of this length.
    Trades(usize),
    /// An object without a `btc_usd` array.
    NoTradeList,
}

/// How a reply is read: `NotAnObject` unless its root is an object; then
/// `Trades(n)` when its `btc_usd` member is an array of length `n`.
pub open spec fn reply_kind_of(root: JsonShapeView, list: Option<JsonShapeView>) -> ReplyKind {
    if root is Object {
        match list {
            Some(JsonShapeView::Array(n)) => ReplyKind::Trades(n as usize),
            _ => ReplyKind::NoTradeList,
        }
    } else {
        ReplyKind::NotAnObject
    }
}

/// How a reply is read, from its root node and its `btc_usd` member.
pub fn reply_kind(root: &JsonShape, list: &Option<JsonShape>) -> (r: ReplyKind)
    ensures
        r == reply_kind_of(root@, shape_view(*list)),
        r matches ReplyKind::Trades(n) ==> shape_view(*list) == Some(JsonShapeView::Array(n as nat)),
{
    match root {
        JsonShape::Object => match list {
            Some(JsonShape::Array(n)) => ReplyKind::Trades(*n),
            _ => ReplyKind::NoTradeList,
        },
        _ => ReplyKind::NotAnObject,
    }
}

/// A reply the viewer can read: not a JSON object at all, or an object whose
/// `btc_usd` member is an array of complete trade records. A reply with an
/// exponent the parser cannot gather is not readable.
pub open spec fn reply_readable(body: Seq<char>) -> bool {
    !overlong_exponent(body) && match parsed_tree(body) {
        Some(t) => match reply_kind_of(root(t).shape, child_shape(t, PathStep::Key("btc_usd"@))) {
            ReplyKind::NotAnObject => true,
            ReplyKind::Trades(n) => forall|i: int|
                0 <= i < n ==> (#[trigger] tick_of_tree(trade_record(t, i))) is Some,
            ReplyKind::NoTradeList => false,
        },
        None => true,
    }
}

/// The trades of a reply, in reply order.
pub open spec fn reply_trades(body: Seq<char>) -> Seq<Tick> {
    match parsed_tree(body) {
        Some(t) => match reply_kind_of(root(t).shape, child_shape(t, PathStep::Key("btc_usd"@))) {
            ReplyKind::Trades(n) => Seq::new(
                n as nat,
                |i: int| tick_of_tree(trade_record(t, i)).unwrap(),
            ),
            _ => Seq::empty(),
        },
        None => Seq::empty(),
    }
}

/// The trades of a reply, in reply order, that are newer than `last_tid`.
pub open spec fn reply_ticks(body: Seq<char>, last_tid: u64) -> Seq<Tick> {
    reply_trades(body).filter(|t: Tick| t.tid > last_tid)
}

/// The trades of a trades-API reply newer than `last_tid`, in reply order.
pub fn ticks_from_reply(body: &str, last_tid: u64) -> (r: TicksList)
    requires
        reply_readable(body@),
    ensures
        r@ == reply_ticks(body@, last_tid),
        forall|i: int| 0 <= i < r@.len() ==> (#[trigger] r@[i]).tid > last_tid,
{
    let doc = match read_json(body) {
        Some(j) => j,
        None => return Vec::new(),
    };
    let ghost t = json_nodes(doc);
    let top = json_kind(&doc);
    let n = match reply_kind(&top, &member_shape(&doc, "btc_usd")) {
        ReplyKind::Trades(n) => n,
        _ => return Vec::new(),
    };
    let list = match json_member(&doc, "btc_usd") {
        Some(l) => l,
        None => return Vec::new(),
    };
    proof {
        lemma_subtree_root(t, PathStep::Key("btc_usd"@));
    }
    let list_kind = json_kind(list);
    let ghost all = reply_trades(body@);
    let mut out: Vec<Tick> = Vec::new();
    let mut i: usize = 0;
    while i < n
        invariant
            i <= n,
            parsed_tree(body@) == Some(t),
            json_nodes(*list) == trade_list(t),
            list_kind@ == JsonShapeView::Array(n as nat),
            list_kind matches JsonShape::Array(m) ==> forall|k: int|
                #![trigger json_nodes(*list).dom().contains(seq![PathStep::Index(k)])]
                json_nodes(*list).dom().contains(seq![PathStep::Index(k)]) <==> 0 <= k < m,
            all == Seq::new(n as nat, |k: int| tick_of_tree(trade_record(t, k)).unwrap()),
            forall|k: int| 0 <= k < n ==> (#[trigger] tick_of_tree(trade_record(t, k))) is Some,
            out@ == all.take(i as int).filter(|t: Tick| t.tid > last_tid),
        decreases n - i,
    {
        assert(json_nodes(*list).dom().contains(seq![PathStep::Index(i as int)]));
        let rec = match json_element(list, i) {
            Some(rec) => rec,
            None => return out,
        };
        let tk = match tick_of_json(rec) {
            Some(tk) => tk,
            None => return out,
        };
        assert(tick_of_tree(trade_record(t, i as int)) is Some);
        proof {
            reveal_with_fuel(Seq::<_>::filter, 1);
            assert(all.take(i + 1).drop_last() =~= all.take(i as int));
            assert(all.take(i + 1).last() == tk);
        }
        if tk.tid > last_tid {
            out.push(tk);
        }
        i += 1;
    }
    assert(all.take(n as int) =~= all);
    proof {
        assert forall|k: int| 0 <= k < out@.len() implies (#[trigger] out@[k]).tid > last_tid by {
            broadcast use vstd::seq_lib::group_filter_ensures;

        }
    }
    out
}

/// The trades of a trades-API reply newer than `last_tid`; `None` when the
/// reply is a JSON object without a `btc_usd` array of complete records.
pub fn try_ticks_from_reply(body: &str, last_tid: u64) -> (r: Option<TicksList>)
    ensures
        r is Some <==> reply_readable(body@),
        r matches Some(ts) ==> ts@ == reply_ticks(body@, last_tid),
{
    if has_overlong_exponent(body) {
        return None;
    }
    let doc = match read_json(body) {
        Some(j) => j,
        None => return Some(ticks_from_reply(body, last_tid)),
    };
    let ghost t = json_nodes(doc);
    let top = json_kind(&doc);
    let n = match reply_kind(&top, &member_shape(&doc, "btc_usd")) {
        ReplyKind::Trades(n) => n,
        ReplyKind::NotAnObject => return Some(ticks_from_reply(body, last_tid)),
        ReplyKind::NoTradeList => return None,
    };
    let list = match json_member(&doc, "btc_usd") {
        Some(l) => l,
        None => return None,
    };
    proof {
        lemma_subtree_root(t, PathStep::Key("btc_usd"@));
    }
    let list_kind = json_kind(list);
    let mut i: usize = 0;
    while i < n
        invariant
            i <= n,
            parsed_tree(body@) == Some(t),
            json_nodes(*list) == trade_list(t),
            reply_kind_of(root(t).shape, child_shape(t, PathStep::Key("btc_usd"@)))
                == ReplyKind::Trades(n),
            list_kind@ == JsonShapeView::Array(n as nat),
            list_kind matches JsonShape::Array(m) ==> forall|k: int|
                #![trigger json_nodes(*list).dom().contains(seq![PathStep::Index(k)])]
                json_nodes(*list).dom().contains(seq![PathStep::Index(k)]) <==> 0 <= k < m,
            forall|k: int| 0 <= k < i ==> (#[trigger] tick_of_tree(trade_record(t, k))) is Some,
        decreases n - i,
    {
        assert(json_nodes(*list).dom().contains(seq![PathStep::Index(i as int)]));
        let rec = match json_element(list, i) {
            Some(rec) => rec,
            None => return None,
        };
        match tick_of_json(rec) {
            Some(_) => {},
            None => {
                assert(tick_of_tree(trade_record(t, i as int)) is None);
                return None;
            },
        }
        i += 1;
    }
    Some(ticks_from_reply(body, last_tid))
}

} // verus!
