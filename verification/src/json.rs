//! JSON values as plain data, parsed by `serde_json`.
//!
//! A parsed document is handed to the verified code as a `JsonValue`: numbers
//! keep what the logic reads of them (their value as a `u64`, when they are a
//! non-negative integer that fits), objects keep their members in the order in
//! which `serde_json` holds them (sorted by key).

use vstd::prelude::*;

verus! {

/// A JSON value.
pub enum JsonValue {
    Null,
    Bool(bool),
    /// A number, with its value when it is a non-negative integer that fits a `u64`.
    Number(Option<u64>),
    Str(String),
    Array(Vec<JsonValue>),
    Object(Vec<(String, JsonValue)>),
}

/// The error `serde_json` reports for text that is not valid JSON.
#[verifier::external_type_specification]
#[verifier::external_body]
pub struct ExJsonError(serde_json::Error);

/// A `serde_json` document tree, carried only until it is converted.
#[verifier::external_type_specification]
#[verifier::external_body]
pub struct ExSerdeValue(serde_json::Value);

/// The value `serde_json` parses from `bytes`, if they are valid JSON.
pub uninterp spec fn spec_parse_json(bytes: Seq<u8>) -> Option<JsonValue>;

/// `serde_json::from_slice::<serde_json::Value>`, converted to a
/// `JsonValue`: the parse of `bytes`, or the parser's error.
#[verifier::external_body]
pub(crate) fn parse_json(bytes: &[u8]) -> (r: Result<JsonValue, serde_json::Error>)
    ensures
        match r {
            Ok(v) => spec_parse_json(bytes@) == Some(v),
            Err(_) => spec_parse_json(bytes@) is None,
        },
{
    match serde_json::from_slice::<serde_json::Value>(bytes) {
        Ok(v) => Ok(from_serde(v)),
        Err(e) => Err(e),
    }
}

/// The JSON value `bytes` hold, if they are valid JSON.
pub fn read_json(bytes: &[u8]) -> (r: Option<JsonValue>)
    ensures
        r == spec_parse_json(bytes@),
{
    match parse_json(bytes) {
        Ok(v) => Some(v),
        Err(_) => None,
    }
}

/// Convert a `serde_json::Value`, variant by variant.
#[verifier::external_body]
fn from_serde(v: serde_json::Value) -> JsonValue {
    match v {
        serde_json::Value::Null => JsonValue::Null,
        serde_json::Value::Bool(b) => JsonValue::Bool(b),
        serde_json::Value::Number(n) => JsonValue::Number(n.as_u64()),
        serde_json::Value::String(s) => JsonValue::Str(s),
        serde_json::Value::Array(a) => JsonValue::Array(a.into_iter().map(from_serde).collect()),
        serde_json::Value::Object(o) => JsonValue::Object(o.into_iter().map(|(k, v)| (k, from_serde(v))).collect()),
    }
}

/// The first member of `members` named `key`, if any.
pub open spec fn member(members: Seq<(String, JsonValue)>, key: Seq<char>) -> Option<JsonValue>
    decreases members.len(),
{
    if members.len() == 0 {
        None
    } else if members[0].0@ == key {
        Some(members[0].1)
    } else {
        member(members.drop_first(), key)
    }
}

/// `value.get(key)`: the member `key` of an object; none for anything else.
pub open spec fn spec_get(v: JsonValue, key: Seq<char>) -> Option<JsonValue> {
    match v {
        JsonValue::Object(members) => member(members@, key),
        _ => None,
    }
}

/// `value[key]`: the member `key` of an object, `Null` otherwise.
pub open spec fn spec_index(v: JsonValue, key: Seq<char>) -> JsonValue {
    match spec_get(v, key) {
        Some(x) => x,
        None => JsonValue::Null,
    }
}

impl JsonValue {
    /// The member `key` of an object.
    pub fn get(&self, key: &str) -> (r: Option<&JsonValue>)
        ensures
            match r {
                Some(x) => spec_get(*self, key@) == Some(*x),
                None => spec_get(*self, key@) is None,
            },
    {
        match self.as_object() {
            Some(members) => {
                let ghost ms = members@;
                let mut i: usize = 0;
                proof {
                    assert(ms.skip(0) =~= ms);
                    assert(spec_get(*self, key@) == member(ms, key@));
                }
                while i < members.len()
                    invariant
                        spec_get(*self, key@) == member(ms, key@),
                        ms == members@,
                        i <= ms.len(),
                        member(ms, key@) == member(ms.skip(i as int), key@),
                    decreases ms.len() - i,
                {
                    proof {
                        assert(ms.skip(i as int).drop_first() =~= ms.skip(i + 1));
                    }
                    let name: &str = members[i].0.as_str();
                    if str_eq(name, key) {
                        proof {
                            assert(ms.skip(i as int)[0] == ms[i as int]);
                            assert(member(ms.skip(i as int), key@) == Some(ms[i as int].1));
                        }
                        return Some(&members[i].1);
                    }
                    i = i + 1;
                }
                None
            },
            None => None,
        }
    }

    /// `self.as_str()`: the text of a string.
    pub fn as_str(&self) -> (r: Option<&str>)
        ensures
            match (*self, r) {
                (JsonValue::Str(s), Some(t)) => t@ == s@,
                (JsonValue::Str(_), None) => false,
                (_, r) => r is None,
            },
    {
        match self {
            JsonValue::Str(s) => Some(s.as_str()),
            _ => None,
        }
    }

    /// `self.as_u64()`: the value of a non-negative integer that fits.
    pub fn as_u64(&self) -> (r: Option<u64>)
        ensures
            r == (match *self {
                JsonValue::Number(n) => n,
                _ => None,
            }),
    {
        match self {
            JsonValue::Number(n) => *n,
            _ => None,
        }
    }

    /// `self.as_array()`: the elements of an array.
    pub fn as_array(&self) -> (r: Option<&Vec<JsonValue>>)
        ensures
            match *self {
                JsonValue::Array(a) => r == Some(&a),
                _ => r is None,
            },
    {
        match self {
            JsonValue::Array(a) => Some(a),
            _ => None,
        }
    }

    /// `self.as_object()`: the members of an object.
    pub fn as_object(&self) -> (r: Option<&Vec<(String, JsonValue)>>)
        ensures
            match *self {
                JsonValue::Object(o) => r == Some(&o),
                _ => r is None,
            },
    {
        match self {
            JsonValue::Object(o) => Some(o),
            _ => None,
        }
    }
}

/// Whether two strings have the same characters.
pub fn str_eq(a: &str, b: &str) -> (r: bool)
    ensures
        r == (a@ == b@),
{
    let x = String::from_str(a);
    let y = String::from_str(b);
    x == y
}

} // verus!
