//! A JSON value tree owned by the library, and the few lookups the parsers make on it.
//!
//! Text is parsed and rendered by serde_json; the tree is then read by verified code.
use vstd::prelude::*;

verus! {

#[verifier::external_type_specification]
#[verifier::external_body]
pub struct ExSerdeValue(serde_json::Value);

#[verifier::external_type_specification]
#[verifier::external_body]
pub struct ExSerdeNumber(serde_json::Number);

/// A JSON number: its value as an `i64` where it has one, and the number itself.
pub struct JsonNumber {
    pub int: Option<i64>,
    pub raw: serde_json::Number,
}

/// A JSON value. Object members keep the order in which the parser hands them out,
/// and their keys are distinct.
pub enum JsonValue {
    Null,
    Bool(bool),
    Number(JsonNumber),
    Str(String),
    Array(Vec<JsonValue>),
    Object(Vec<(String, JsonValue)>),
}

/// What serde_json parses from a text, as a tree of this library; `None` where the
/// text is not JSON.
pub uninterp spec fn json_of(text: Seq<char>) -> Option<JsonValue>;

/// The compact JSON text that serde_json renders for a value.
pub uninterp spec fn json_text(v: JsonValue) -> Seq<char>;

/// The value of the first member at or after index `i` whose key is `key`.
pub open spec fn member_from(m: Seq<(String, JsonValue)>, key: Seq<char>, i: int) -> Option<JsonValue>
    decreases m.len() - i,
{
    if i < 0 || i >= m.len() {
        None
    } else if m[i].0@ == key {
        Some(m[i].1)
    } else {
        member_from(m, key, i + 1)
    }
}

/// The member `key` of an object; `None` for a missing key or a value that is no object.
pub open spec fn field(v: JsonValue, key: Seq<char>) -> Option<JsonValue> {
    match v {
        JsonValue::Object(m) => member_from(m@, key, 0),
        _ => None,
    }
}

pub open spec fn str_of(v: JsonValue) -> Option<Seq<char>> {
    match v {
        JsonValue::Str(s) => Some(s@),
        _ => None,
    }
}

pub open spec fn int_of(v: JsonValue) -> Option<i64> {
    match v {
        JsonValue::Number(n) => n.int,
        _ => None,
    }
}

pub open spec fn bool_of(v: JsonValue) -> Option<bool> {
    match v {
        JsonValue::Bool(b) => Some(b),
        _ => None,
    }
}

pub open spec fn items_of(v: JsonValue) -> Option<Seq<JsonValue>> {
    match v {
        JsonValue::Array(a) => Some(a@),
        _ => None,
    }
}

/// The string held at member `key`; `None` where the key is missing or holds no string.
pub open spec fn str_field(v: JsonValue, key: Seq<char>) -> Option<Seq<char>> {
    match field(v, key) {
        Some(f) => str_of(f),
        None => None,
    }
}

/// The integer held at member `key`; `None` where the key is missing or holds no `i64`.
pub open spec fn int_field(v: JsonValue, key: Seq<char>) -> Option<i64> {
    match field(v, key) {
        Some(f) => int_of(f),
        None => None,
    }
}

impl JsonValue {
    /// The member `key` of an object.
    pub fn get(&self, key: &str) -> (r: Option<&JsonValue>)
        ensures
            r matches Some(x) ==> field(*self, key@) == Some(*x),
            r is None ==> field(*self, key@) is None,
    {
        match self {
            JsonValue::Object(m) => {
                let k = key.to_owned();
                let mut i: usize = 0;
                while i < m.len()
                    invariant
                        i <= m@.len(),
                        k@ == key@,
                        field(*self, key@) == member_from(m@, key@, 0),
                        member_from(m@, key@, 0) == member_from(m@, key@, i as int),
                    decreases m@.len() - i,
                {
                    let entry = &m[i];
                    if entry.0 == k {
                        assert(member_from(m@, key@, i as int) == Some(m@[i as int].1));
                        return Some(&entry.1);
                    }
                    i = i + 1;
                }
                None
            },
            _ => None,
        }
    }

    pub fn as_str(&self) -> (r: Option<&String>)
        ensures
            r matches Some(s) ==> str_of(*self) == Some(s@),
            r is None ==> str_of(*self) is None,
    {
        match self {
            JsonValue::Str(s) => Some(s),
            _ => None,
        }
    }

    pub fn as_i64(&self) -> (r: Option<i64>)
        ensures
            r == int_of(*self),
    {
        match self {
            JsonValue::Number(n) => n.int,
            _ => None,
        }
    }

    pub fn as_bool(&self) -> (r: Option<bool>)
        ensures
            r == bool_of(*self),
    {
        match self {
            JsonValue::Bool(b) => Some(*b),
            _ => None,
        }
    }

    pub fn as_array(&self) -> (r: Option<&Vec<JsonValue>>)
        ensures
            r matches Some(a) ==> items_of(*self) == Some(a@),
            r is None ==> items_of(*self) is None,
    {
        match self {
            JsonValue::Array(a) => Some(a),
            _ => None,
        }
    }
}

/// Relies on the variants of serde_json::Value and on serde_json::Number::as_i64: carries
/// a parsed value over into the library's tree, node for node. Only `parse_json` calls it.
#[verifier::external_body]
fn from_serde(v: &serde_json::Value) -> JsonValue {
    match v {
        serde_json::Value::Null => JsonValue::Null,
        serde_json::Value::Bool(b) => JsonValue::Bool(*b),
        serde_json::Value::Number(n) => JsonValue::Number(JsonNumber { int: n.as_i64(), raw: n.clone() }),
        serde_json::Value::String(s) => JsonValue::Str(s.clone()),
        serde_json::Value::Array(a) => JsonValue::Array(a.iter().map(from_serde).collect()),
        serde_json::Value::Object(m) => JsonValue::Object(m.iter().map(|(k, x)| (k.clone(), from_serde(x))).collect()),
    }
}

/// Relies on the variants of serde_json::Value: carries the library's tree back into a
/// serde_json value, node for node. Only `render_json` calls it.
#[verifier::external_body]
fn to_serde(v: &JsonValue) -> serde_json::Value {
    match v {
        JsonValue::Null => serde_json::Value::Null,
        JsonValue::Bool(b) => serde_json::Value::Bool(*b),
        JsonValue::Number(n) => serde_json::Value::Number(n.raw.clone()),
        JsonValue::Str(s) => serde_json::Value::String(s.clone()),
        JsonValue::Array(a) => serde_json::Value::Array(a.iter().map(to_serde).collect()),
        JsonValue::Object(m) => serde_json::Value::Object(m.iter().map(|(k, x)| (k.clone(), to_serde(x))).collect()),
    }
}

/// Relies on serde_json::from_str::<serde_json::Value>: parses one JSON text, or fails.
#[verifier::external_body]
pub fn parse_json(text: &str) -> (r: Option<JsonValue>)
    ensures
        r == json_of(text@),
{
    serde_json::from_str::<serde_json::Value>(text).ok().map(|v| from_serde(&v))
}

/// Relies on the `Display` impl of serde_json::Value: the compact JSON text of a value.
#[verifier::external_body]
pub fn render_json(v: &JsonValue) -> (r: String)
    ensures
        r@ == json_text(*v),
{
    to_serde(v).to_string()
}

} // verus!
