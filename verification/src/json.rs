//! The few JSON facts the library needs of `serde_json`.
use vstd::prelude::*;
use serde_json::Value;

verus! {

/// `Clone::clone` of `serde_json::Value`, which `derive` writes: the copy is
/// the same JSON value.
pub assume_specification[ <serde_json::Value as Clone>::clone ](v: &serde_json::Value) -> (r: serde_json::Value)
    ensures
        r == *v,
;

/// A lowercase hexadecimal digit.
pub open spec fn hex_digit(n: nat) -> char {
    "0123456789abcdef"@[n as int]
}

/// How `serde_json` writes one character inside a string literal: a quote
/// and a backslash escaped by a backslash; backspace, form feed, line feed,
/// carriage return and tab as `\b \f \n \r \t`; any other character
/// below U+0020 as `\u00` and two lowercase hex digits; everything else as
/// it is.
pub open spec fn json_escaped_char(c: char) -> Seq<char> {
    let n = c as nat;
    if c == '"' {
        seq!['\\', '"']
    } else if c == '\\' {
        seq!['\\', '\\']
    } else if n == 8 {
        seq!['\\', 'b']
    } else if n == 12 {
        seq!['\\', 'f']
    } else if c == '\n' {
        seq!['\\', 'n']
    } else if c == '\r' {
        seq!['\\', 'r']
    } else if c == '\t' {
        seq!['\\', 't']
    } else if n < 32 {
        seq!['\\', 'u', '0', '0', hex_digit(n / 16), hex_digit(n % 16)]
    } else {
        seq![c]
    }
}

/// The escaped characters of a string, in order.
pub open spec fn json_escaped(s: Seq<char>) -> Seq<char>
    decreases s.len(),
{
    if s.len() == 0 {
        Seq::empty()
    } else {
        json_escaped(s.drop_last()) + json_escaped_char(s.last())
    }
}

/// The text of a JSON string literal for `s`, as `serde_json` writes it:
/// the escaped characters between double quotes.
pub open spec fn json_string_literal(s: Seq<char>) -> Seq<char> {
    seq!['"'] + json_escaped(s) + seq!['"']
}

/// Writes `s` as a JSON string literal (`serde_json::Value::String(..)`
/// formatted with `Display`, which escapes as [`json_escaped_char`] says).
#[verifier::external_body]
pub fn json_quote(s: &str) -> (r: String)
    ensures
        r@ == json_string_literal(s@),
{
    serde_json::Value::String(s.to_string()).to_string()
}

/// The kinds of JSON value.
#[derive(Debug, Clone, Copy, PartialEq, Eq, Structural)]
pub enum JsonKind {
    Null,
    Bool,
    Number,
    String,
    Array,
    Object,
}

/// The kind of a JSON value.
pub uninterp spec fn json_kind_of(v: serde_json::Value) -> JsonKind;

/// Tells the variants of `serde_json::Value` apart.
#[verifier::external_body]
pub fn json_kind(v: &serde_json::Value) -> (r: JsonKind)
    ensures
        r == json_kind_of(*v),
{
    match v {
        serde_json::Value::Null => JsonKind::Null,
        serde_json::Value::Bool(_) => JsonKind::Bool,
        serde_json::Value::Number(_) => JsonKind::Number,
        serde_json::Value::String(_) => JsonKind::String,
        serde_json::Value::Array(_) => JsonKind::Array,
        serde_json::Value::Object(_) => JsonKind::Object,
    }
}

/// The text a JSON string value holds.
pub uninterp spec fn json_str_of(v: serde_json::Value) -> Seq<char>;

/// The text of a `serde_json::Value::String`, `None` for any other kind.
#[verifier::external_body]
pub fn json_as_string(v: &serde_json::Value) -> (r: Option<String>)
    ensures
        r is Some <==> json_kind_of(*v) == JsonKind::String,
        r matches Some(s) ==> s@ == json_str_of(*v),
{
    match v {
        serde_json::Value::String(s) => Some(s.clone()),
        _ => None,
    }
}

/// `serde_json::Value::Object(serde_json::Map::new())`: an object with no
/// member.
#[verifier::external_body]
pub fn json_empty_object() -> (r: serde_json::Value)
    ensures
        json_kind_of(r) == JsonKind::Object,
        tree_is_empty_object(json_tree_of(r)),
        forall|k: Seq<char>| #[trigger] json_field_of(r, k) is None,
{
    serde_json::Value::Object(serde_json::Map::new())
}

/// What `serde_json::from_str::<serde_json::Value>` gives for a text: the
/// value, or the text of its error.
pub uninterp spec fn json_parse_outcome(s: Seq<char>) -> Result<serde_json::Value, Seq<char>>;

/// The value a text parses to, `None` where it is not JSON.
pub open spec fn json_parsed(s: Seq<char>) -> Option<serde_json::Value> {
    match json_parse_outcome(s) {
        Ok(v) => Some(v),
        Err(_) => None,
    }
}

/// `serde_json::from_str::<serde_json::Value>(s)`, the error as its text.
#[verifier::external_body]
pub fn json_parse(s: &str) -> (r: Result<serde_json::Value, String>)
    ensures
        match r {
            Ok(v) => json_parse_outcome(s@) == Ok::<serde_json::Value, Seq<char>>(v),
            Err(e) => json_parse_outcome(s@) == Err::<serde_json::Value, Seq<char>>(e@),
        },
{
    serde_json::from_str::<serde_json::Value>(s).map_err(|e| e.to_string())
}

/// The text parses as JSON and the value is an object.
pub open spec fn json_parses_to_object(s: Seq<char>) -> bool {
    json_parsed(s) matches Some(v) && json_kind_of(v) == JsonKind::Object
}

/// A JSON string value holding `s` (`serde_json::Value::String`).
#[verifier::external_body]
pub fn json_from_str(s: &str) -> (r: serde_json::Value)
    ensures
        json_kind_of(r) == JsonKind::String,
        json_str_of(r) == s@,
{
    serde_json::Value::String(s.to_string())
}

/// The unsigned integer a JSON number holds, when it holds one.
pub uninterp spec fn json_u64_of(v: serde_json::Value) -> Option<u64>;

/// `serde_json::Value::as_u64`.
#[verifier::external_body]
pub fn json_as_u64(v: &serde_json::Value) -> (r: Option<u64>)
    ensures
        r == json_u64_of(*v),
{
    v.as_u64()
}

/// `serde_json::Value::from(n)`: a number that `as_u64` reads back as `n`.
#[verifier::external_body]
pub fn json_from_u64(n: u64) -> (r: serde_json::Value)
    ensures
        json_kind_of(r) == JsonKind::Number,
        json_u64_of(r) == Some(n),
{
    serde_json::Value::from(n)
}

/// The compact text `serde_json::to_string` writes for a value.
pub uninterp spec fn json_text_of(v: serde_json::Value) -> Seq<char>;

/// `serde_json::to_string` of a value. It does not fail on a `Value`:
/// object keys are strings, numbers are finite, and writing into a string
/// buffer cannot fail; so the result is always the text.
#[verifier::external_body]
pub fn json_to_text(v: &serde_json::Value) -> (r: Option<String>)
    ensures
        r is Some,
        r matches Some(t) ==> t@ == json_text_of(*v),
{
    serde_json::to_string(v).ok()
}

/// The value under `key` of a JSON object; `None` where the key is absent
/// or the value is not an object.
pub uninterp spec fn json_field_of(v: serde_json::Value, key: Seq<char>) -> Option<serde_json::Value>;

/// `serde_json::Value::get(key)`, the value copied. As its documentation
/// says, a value that is not an object has no field.
#[verifier::external_body]
pub fn json_field(v: &serde_json::Value, key: &str) -> (r: Option<serde_json::Value>)
    ensures
        r == json_field_of(*v, key@),
        json_kind_of(*v) != JsonKind::Object ==> r is None,
{
    v.get(key).cloned()
}

/// The text of a string field of an object.
pub open spec fn json_str_field(v: serde_json::Value, key: Seq<char>) -> Option<Seq<char>> {
    match json_field_of(v, key) {
        Some(f) => if json_kind_of(f) == JsonKind::String {
            Some(json_str_of(f))
        } else {
            None
        },
        None => None,
    }
}

/// The text of a string field of an object (`v.get(key).and_then(as_str)`).
pub fn json_get_str(v: &serde_json::Value, key: &str) -> (r: Option<String>)
    ensures
        opt_view_str(r) == json_str_field(*v, key@),
{
    match json_field(v, key) {
        Some(f) => json_as_string(&f),
        None => None,
    }
}

/// The view of an optional string.
pub open spec fn opt_view_str(o: Option<String>) -> Option<Seq<char>> {
    match o {
        Some(s) => Some(s@),
        None => None,
    }
}

/// A JSON number as `serde_json` keeps it: a non-negative integer, a
/// negative one, or a float, given by the text `serde_json` writes for it.
#[derive(Debug)]
pub enum JsonNumber {
    PosInt(u64),
    NegInt(i64),
    Float(String),
}

/// A JSON value as a tree; object members in the order `serde_json`
/// iterates them.
#[derive(Debug)]
pub enum JsonTree {
    Null,
    Bool(bool),
    Number(JsonNumber),
    Str(String),
    Array(Vec<JsonTree>),
    Object(Vec<(String, JsonTree)>),
}

/// The kind of a tree's root.
pub open spec fn tree_kind(t: JsonTree) -> JsonKind {
    match t {
        JsonTree::Null => JsonKind::Null,
        JsonTree::Bool(_) => JsonKind::Bool,
        JsonTree::Number(_) => JsonKind::Number,
        JsonTree::Str(_) => JsonKind::String,
        JsonTree::Array(_) => JsonKind::Array,
        JsonTree::Object(_) => JsonKind::Object,
    }
}

/// An object tree with no member.
pub open spec fn tree_is_empty_object(t: JsonTree) -> bool {
    t matches JsonTree::Object(m) && m@.len() == 0
}

/// The tree of a `serde_json::Value`.
pub uninterp spec fn json_tree_of(v: serde_json::Value) -> JsonTree;

/// Reads a `serde_json::Value` into a tree: each variant into its own,
/// numbers by `as_u64`/`as_i64` and otherwise by their text, arrays and
/// objects member by member.
#[verifier::external_body]
pub fn json_tree(v: &serde_json::Value) -> (r: JsonTree)
    ensures
        r == json_tree_of(*v),
        tree_kind(r) == json_kind_of(*v),
{
    match v {
        Value::Null => JsonTree::Null,
        Value::Bool(b) => JsonTree::Bool(*b),
        Value::Number(n) => JsonTree::Number(match (n.as_u64(), n.as_i64()) {
            (Some(u), _) => JsonNumber::PosInt(u),
            (None, Some(i)) => JsonNumber::NegInt(i),
            (None, None) => JsonNumber::Float(n.to_string()),
        }),
        Value::String(s) => JsonTree::Str(s.clone()),
        Value::Array(a) => JsonTree::Array(a.iter().map(json_tree).collect()),
        Value::Object(m) => JsonTree::Object(m.iter().map(|(k, x)| (k.clone(), json_tree(x))).collect()),
    }
}

/// The `serde_json::Value` a tree stands for.
pub uninterp spec fn json_of_tree(t: JsonTree) -> serde_json::Value;

/// Builds the `serde_json::Value` of a tree: each variant into its own,
/// float texts read back with `serde_json::from_str`, object members
/// inserted in order into a `serde_json::Map`. A float text that does not
/// parse becomes `null`: that is this library's choice for the outside
/// error, not something `serde_json` does.
#[verifier::external_body]
pub fn tree_to_json(t: &JsonTree) -> (r: serde_json::Value)
    ensures
        r == json_of_tree(*t),
{
    match t {
        JsonTree::Null => Value::Null,
        JsonTree::Bool(b) => Value::Bool(*b),
        JsonTree::Number(JsonNumber::PosInt(u)) => Value::from(*u),
        JsonTree::Number(JsonNumber::NegInt(i)) => Value::from(*i),
        JsonTree::Number(JsonNumber::Float(text)) => serde_json::from_str(text).unwrap_or(Value::Null),
        JsonTree::Str(s) => Value::String(s.clone()),
        JsonTree::Array(xs) => Value::Array(xs.iter().map(tree_to_json).collect()),
        JsonTree::Object(es) => Value::Object(es.iter().map(|(k, x)| (k.clone(), tree_to_json(x))).collect()),
    }
}

/// `serde_json::Map::insert` on an object value: afterwards `key` holds
/// `value` and every other key what it held.
#[verifier::external_body]
pub fn json_insert_field(v: &mut serde_json::Value, key: &str, value: serde_json::Value)
    requires
        json_kind_of(*old(v)) == JsonKind::Object,
    ensures
        json_kind_of(*final(v)) == JsonKind::Object,
        json_field_of(*final(v), key@) == Some(value),
        forall|k: Seq<char>| k != key@ ==> #[trigger] json_field_of(*final(v), k) == json_field_of(*old(v), k),
{
    if let serde_json::Value::Object(m) = v {
        m.insert(key.to_string(), value);
    }
}

/// `serde_json::Value::Null`.
#[verifier::external_body]
pub fn json_null() -> (r: serde_json::Value)
    ensures
        json_kind_of(r) == JsonKind::Null,
{
    serde_json::Value::Null
}

/// The items of a JSON array, in order.
pub uninterp spec fn json_items_of(v: serde_json::Value) -> Seq<serde_json::Value>;

/// `serde_json::Value::as_array`, the items copied: `None` for a value
/// that is not an array.
#[verifier::external_body]
pub fn json_array_items(v: &serde_json::Value) -> (r: Option<Vec<serde_json::Value>>)
    ensures
        r is Some <==> json_kind_of(*v) == JsonKind::Array,
        r matches Some(xs) ==> xs@ == json_items_of(*v),
{
    v.as_array().cloned()
}

/// `serde_json::Value::Array(items)`: an array holding the items in order.
#[verifier::external_body]
pub fn json_from_items(items: Vec<serde_json::Value>) -> (r: serde_json::Value)
    ensures
        json_kind_of(r) == JsonKind::Array,
        json_items_of(r) == items@,
{
    serde_json::Value::Array(items)
}

/// The boolean a JSON value holds, when it holds one.
pub uninterp spec fn json_bool_of(v: serde_json::Value) -> Option<bool>;

/// `serde_json::Value::Bool(b)`.
#[verifier::external_body]
pub fn json_from_bool(b: bool) -> (r: serde_json::Value)
    ensures
        json_kind_of(r) == JsonKind::Bool,
        json_bool_of(r) == Some(b),
{
    serde_json::Value::Bool(b)
}

} // verus!
