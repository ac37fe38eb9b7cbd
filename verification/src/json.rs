//! JSON documents parsed by rustc_serialize. A parsed value is held as
//! rustc_serialize's own `Json`; the library reads it node by node, and a
//! node is handed over as a plain [`JsonShape`].

use rustc_serialize::json::Json;
use vstd::prelude::*;

use crate::text::chars_of;

use self::JsonNumber::{Float, Signed, Unsigned};

verus! {

#[verifier::external_type_specification]
#[verifier::external_body]
pub struct ExJson(Json);

/// A JSON number as the parser stored it; a float is kept as its
/// IEEE-754 bit pattern.
#[derive(Clone, Copy, Debug, PartialEq, Eq, Structural)]
pub enum JsonNumber {
    Signed(i64),
    Unsigned(u64),
    Float(u64),
}

/// One node of a JSON value, without its children: an array is given by its
/// length.
#[derive(Debug, PartialEq, Eq)]
pub enum JsonShape {
    Null,
    Boolean(bool),
    Number(JsonNumber),
    Text(String),
    Array(usize),
    Object,
}

/// The mathematical view of a [`JsonShape`].
pub enum JsonShapeView {
    Null,
    Boolean(bool),
    Number(JsonNumber),
    Text(Seq<char>),
    Array(nat),
    Object,
}

impl View for JsonShape {
    type V = JsonShapeView;

    open spec fn view(&self) -> JsonShapeView {
        match self {
            JsonShape::Null => JsonShapeView::Null,
            JsonShape::Boolean(b) => JsonShapeView::Boolean(*b),
            JsonShape::Number(n) => JsonShapeView::Number(*n),
            JsonShape::Text(s) => JsonShapeView::Text(s@),
            JsonShape::Array(n) => JsonShapeView::Array(*n as nat),
            JsonShape::Object => JsonShapeView::Object,
        }
    }
}

/// The view of an optional node.
pub open spec fn shape_view(s: Option<JsonShape>) -> Option<JsonShapeView> {
    match s {
        Some(s) => Some(s@),
        None => None,
    }
}

/// A step from a node to one of its children: an object member by key, or
/// an array element by position.
pub enum PathStep {
    Key(Seq<char>),
    Index(int),
}

/// What a JSON value holds at one node: the node's shape and the text that
/// rustc_serialize's `Display` gives the subtree rooted there.
pub struct JsonNode {
    pub shape: JsonShapeView,
    pub encoding: Seq<char>,
}

/// A JSON value as its nodes, by their paths from the root (the root at
/// the empty path).
pub type JsonTree = Map<Seq<PathStep>, JsonNode>;

/// The nodes of a `Json` value held by the library.
pub uninterp spec fn json_nodes(j: Json) -> JsonTree;

/// What rustc_serialize's `Json::from_str` makes of `text`: `None` when the
/// text is not JSON, otherwise the nodes of the parsed value.
pub uninterp spec fn json_tree(text: Seq<char>) -> Option<JsonTree>;

/// The subtree below `step`.
pub open spec fn subtree(t: JsonTree, step: PathStep) -> JsonTree {
    Map::new(
        |p: Seq<PathStep>| t.dom().contains(seq![step] + p),
        |p: Seq<PathStep>| t[seq![step] + p],
    )
}

/// The root of a tree.
pub open spec fn root(t: JsonTree) -> JsonNode {
    t[Seq::empty()]
}

/// The shape of the child of the root reached by `step`, if there is one.
pub open spec fn child_shape(t: JsonTree, step: PathStep) -> Option<JsonShapeView> {
    if t.dom().contains(seq![step]) {
        Some(t[seq![step]].shape)
    } else {
        None
    }
}

/// The encoding of the child of the root reached by `step`, if there is one.
pub open spec fn child_encoding(t: JsonTree, step: PathStep) -> Option<Seq<char>> {
    if t.dom().contains(seq![step]) {
        Some(t[seq![step]].encoding)
    } else {
        None
    }
}

/// Whether `c` is an ASCII decimal digit.
pub open spec fn ascii_digit(c: char) -> bool {
    '0' <= c && c <= '9'
}

/// Whether a JSON scanner is inside a string, and just after a backslash
/// there, after reading `c` in the state `st`.
pub open spec fn string_step(st: (bool, bool), c: char) -> (bool, bool) {
    if st.0 {
        if st.1 {
            (true, false)
        } else if c == '\\' {
            (true, true)
        } else if c == '"' {
            (false, false)
        } else {
            (true, false)
        }
    } else if c == '"' {
        (true, false)
    } else {
        (false, false)
    }
}

/// The scanner's state just before position `i` of `s`: inside a string,
/// and just after a backslash there.
pub open spec fn string_state(s: Seq<char>, i: int) -> (bool, bool)
    decreases i,
{
    if i <= 0 || i > s.len() {
        (false, false)
    } else {
        string_step(string_state(s, i - 1), s[i - 1])
    }
}

/// The value of the decimal digits `s[j..m]`.
pub open spec fn digits_value(s: Seq<char>, j: int, m: int) -> int
    decreases m - j,
{
    if m <= j {
        0
    } else {
        digits_value(s, j, m - 1) * 10 + (s[m - 1] as int - '0' as int)
    }
}

/// Whether position `i` of `s` opens the exponent of a number: an `e` or `E`
/// outside strings, right after a digit.
pub open spec fn opens_exponent(s: Seq<char>, i: int) -> bool {
    &&& 1 <= i < s.len()
    &&& !string_state(s, i).0
    &&& (s[i] == 'e' || s[i] == 'E')
    &&& ascii_digit(s[i - 1])
}

/// Where the digits of the exponent opened at `i` begin: after its sign, if
/// it has one.
pub open spec fn exponent_digits_start(s: Seq<char>, i: int) -> int {
    if i + 1 < s.len() && (s[i + 1] == '+' || s[i + 1] == '-') {
        i + 2
    } else {
        i + 1
    }
}

/// The exponent opened at `i` has digits up to `m` whose value passes
/// `usize::MAX`.
pub open spec fn exponent_overflows_at(s: Seq<char>, i: int, m: int) -> bool {
    &&& opens_exponent(s, i)
    &&& exponent_digits_start(s, i) < m <= s.len()
    &&& forall|k: int| exponent_digits_start(s, i) <= k < m ==> ascii_digit(#[trigger] s[k])
    &&& digits_value(s, exponent_digits_start(s, i), m) > usize::MAX
}

/// Whether `s` holds a number whose exponent's digits are worth more than
/// `usize::MAX`. rustc_serialize's parser gathers an exponent in a `usize`
/// and overflows on such a number (a panic where overflow is checked).
pub open spec fn overlong_exponent(s: Seq<char>) -> bool {
    exists|i: int, m: int| exponent_overflows_at(s, i, m)
}

/// Whether the exponent opened at `i` has digits worth more than `usize::MAX`.
fn exponent_overflows(s: &Vec<char>, i: usize) -> (r: bool)
    requires
        i < s.len(),
        opens_exponent(s@, i as int),
    ensures
        r == exists|m: int| exponent_overflows_at(s@, i as int, m),
{
    let mut j: usize = i + 1;
    if j < s.len() && (s[j] == '+' || s[j] == '-') {
        j = i + 2;
    }
    let mut exp: usize = 0;
    let mut k: usize = j;
    while k < s.len() && '0' <= s[k] && s[k] <= '9'
        invariant
            j == exponent_digits_start(s@, i as int),
            j <= k <= s.len(),
            opens_exponent(s@, i as int),
            forall|t: int| j <= t < k ==> ascii_digit(#[trigger] s@[t]),
            exp == digits_value(s@, j as int, k as int),
            forall|m: int| j < m <= k ==> digits_value(s@, j as int, m) <= usize::MAX,
        decreases s.len() - k,
    {
        let d: usize = ((s[k] as u32) - ('0' as u32)) as usize;
        let next = match exp.checked_mul(10) {
            Some(e) => e.checked_add(d),
            None => None,
        };
        assert(digits_value(s@, j as int, k + 1) == exp * 10 + d);
        match next {
            Some(e) => {
                exp = e;
                k += 1;
            },
            None => {
                assert(exponent_overflows_at(s@, i as int, k + 1));
                return true;
            },
        }
    }
    proof {
        assert forall|m: int| !exponent_overflows_at(s@, i as int, m) by {
            if exponent_overflows_at(s@, i as int, m) && m > k {
                assert(ascii_digit(s@[k as int]));
            }
        }
    }
    false
}

/// Whether `text` holds a number with an exponent that rustc_serialize's
/// parser cannot gather (see [`overlong_exponent`]).
pub fn has_overlong_exponent(text: &str) -> (r: bool)
    ensures
        r == overlong_exponent(text@),
{
    let s = chars_of(text);
    let mut in_string = false;
    let mut escaped = false;
    let mut i: usize = 0;
    while i < s.len()
        invariant
            s@ == text@,
            i <= s.len(),
            (in_string, escaped) == string_state(s@, i as int),
            forall|a: int, m: int| a < i ==> !exponent_overflows_at(s@, a, m),
        decreases s.len() - i,
    {
        let c = s[i];
        if !in_string && (c == 'e' || c == 'E') && i >= 1 && '0' <= s[i - 1] && s[i - 1] <= '9' {
            if exponent_overflows(&s, i) {
                return true;
            }
        }
        assert(forall|m: int| !exponent_overflows_at(s@, i as int, m));
        if in_string {
            if escaped {
                escaped = false;
            } else if c == '\\' {
                escaped = true;
            } else if c == '"' {
                in_string = false;
            }
        } else if c == '"' {
            in_string = true;
        }
        i += 1;
    }
    false
}

/// What the library reads of `text` as JSON: nothing when it holds an
/// exponent the parser cannot gather, otherwise what the parser makes of it.
pub open spec fn parsed_tree(text: Seq<char>) -> Option<JsonTree> {
    if overlong_exponent(text) {
        None
    } else {
        json_tree(text)
    }
}

/// Parses `text` as JSON; `None` when it is not JSON, or holds an exponent
/// the parser cannot gather.
pub(crate) fn read_json(text: &str) -> (r: Option<Json>)
    ensures
        r is Some <==> parsed_tree(text@) is Some,
        r matches Some(j) ==> parsed_tree(text@) == Some(json_nodes(j)) && json_nodes(j).dom().contains(
            Seq::empty(),
        ),
{
    if has_overlong_exponent(text) {
        None
    } else {
        json_parse(text)
    }
}

/// Parses `text` with rustc_serialize's `Json::from_str`; `None` when it is
/// not JSON. The parsed value has a root node. What the parser makes of a
/// text is left to the name `json_tree`. Texts with an exponent the parser
/// would overflow on are left out.
#[verifier::external_body]
fn json_parse(text: &str) -> (r: Option<Json>)
    requires
        !overlong_exponent(text@),
    ensures
        r is Some <==> json_tree(text@) is Some,
        r matches Some(j) ==> json_tree(text@) == Some(json_nodes(j)) && json_nodes(j).dom().contains(
            Seq::empty(),
        ),
{
    Json::from_str(text).ok()
}

/// The root node of `j`: its variant and plain fields, a float by its bits,
/// an array by its length. An array of length `n` has exactly the elements
/// `0..n`.
#[verifier::external_body]
pub(crate) fn json_kind(j: &Json) -> (r: JsonShape)
    ensures
        r@ == root(json_nodes(*j)).shape,
        r matches JsonShape::Array(n) ==> forall|i: int|
            #![trigger json_nodes(*j).dom().contains(seq![PathStep::Index(i)])]
            json_nodes(*j).dom().contains(seq![PathStep::Index(i)]) <==> 0 <= i < n,
{
    match j {
        Json::I64(n) => JsonShape::Number(Signed(*n)),
        Json::U64(n) => JsonShape::Number(Unsigned(*n)),
        Json::F64(f) => JsonShape::Number(Float(f.to_bits())),
        Json::String(s) => JsonShape::Text(s.clone()),
        Json::Array(a) => JsonShape::Array(a.len()),
        Json::Object(_) => JsonShape::Object,
        Json::Boolean(b) => JsonShape::Boolean(*b),
        Json::Null => JsonShape::Null,
    }
}

/// rustc_serialize's `Json::find`: the member `key` of an object, `None` when
/// `j` is not an object or has no such member.
#[verifier::external_body]
pub(crate) fn json_member<'a>(j: &'a Json, key: &str) -> (r: Option<&'a Json>)
    ensures
        r is Some <==> json_nodes(*j).dom().contains(seq![PathStep::Key(key@)]),
        r matches Some(c) ==> json_nodes(*c) == subtree(json_nodes(*j), PathStep::Key(key@)),
{
    j.find(key)
}

/// Element `i` of an array (rustc_serialize's `Json::as_array`, then the
/// slice's `get`); `None` when `j` is not an array or is shorter.
#[verifier::external_body]
pub(crate) fn json_element(j: &Json, i: usize) -> (r: Option<&Json>)
    ensures
        r is Some <==> json_nodes(*j).dom().contains(seq![PathStep::Index(i as int)]),
        r matches Some(c) ==> json_nodes(*c) == subtree(json_nodes(*j), PathStep::Index(i as int)),
{
    j.as_array().and_then(|a| a.get(i))
}

/// The text of `j` by rustc_serialize's `Display` for `Json`.
#[verifier::external_body]
pub(crate) fn json_encode(j: &Json) -> (r: String)
    ensures
        r@ == root(json_nodes(*j)).encoding,
{
    j.to_string()
}

/// A child's tree seen from its parent: its root is the parent's node at
/// `step`.
pub proof fn lemma_subtree_root(t: JsonTree, step: PathStep)
    ensures
        subtree(t, step).dom().contains(Seq::empty()) == t.dom().contains(seq![step]),
        t.dom().contains(seq![step]) ==> root(subtree(t, step)) == t[seq![step]],
{
    assert(seq![step] + Seq::<PathStep>::empty() =~= seq![step]);
}

/// The shape of the root of a parsed text, if it is JSON.
pub open spec fn parsed_shape_of(text: Seq<char>) -> Option<JsonShapeView> {
    match parsed_tree(text) {
        Some(t) => Some(root(t).shape),
        None => None,
    }
}

/// Parses `text` and reads its root node.
pub fn parsed_shape(text: &str) -> (r: Option<JsonShape>)
    ensures
        shape_view(r) == parsed_shape_of(text@),
{
    match read_json(text) {
        Some(j) => Some(json_kind(&j)),
        None => None,
    }
}

/// The shape of the member `key` of `j`, if it has one.
pub fn member_shape(j: &Json, key: &str) -> (r: Option<JsonShape>)
    ensures
        shape_view(r) == child_shape(json_nodes(*j), PathStep::Key(key@)),
{
    proof {
        lemma_subtree_root(json_nodes(*j), PathStep::Key(key@));
    }
    match json_member(j, key) {
        Some(c) => Some(json_kind(c)),
        None => None,
    }
}

/// The encoding of the member `key` of `j`, if it has one.
pub fn member_encoding(j: &Json, key: &str) -> (r: Option<String>)
    ensures
        r matches Some(e) ==> child_encoding(json_nodes(*j), PathStep::Key(key@)) == Some(e@),
        r is None ==> child_encoding(json_nodes(*j), PathStep::Key(key@)) is None,
{
    proof {
        lemma_subtree_root(json_nodes(*j), PathStep::Key(key@));
    }
    match json_member(j, key) {
        Some(c) => Some(json_encode(c)),
        None => None,
    }
}

} // verus!
