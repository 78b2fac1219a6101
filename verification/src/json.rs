//! JSON documents as the library reads them: a tree of plain values that
//! `serde_json` produces from bytes.

use vstd::prelude::*;
use crate::text::same_text;

verus! {

/// A JSON number as the library reads it: its value as an `i64` where it is an
/// integer in range, and the bits of its value as an `f64`.
pub struct JsonNumber {
    pub int: Option<i64>,
    pub float_bits: Option<u64>,
}

/// A JSON value. An object keeps its members in the order `serde_json` hands
/// them out; a key occurs in it at most once.
pub enum Json {
    Null,
    Bool(bool),
    Number(JsonNumber),
    Str(String),
    Array(Vec<Json>),
    Object(Vec<(String, Json)>),
}

/// The document that `serde_json::from_slice` reads from the bytes, or `None`
/// where they are not one JSON value.
pub uninterp spec fn json_document(bytes: Seq<u8>) -> Option<Json>;

/// The error type of `serde_json`.
#[verifier::external_type_specification]
#[verifier::external_body]
pub struct ExJsonError(serde_json::Error);

/// The value tree of `serde_json`.
#[verifier::external_type_specification]
#[verifier::external_body]
pub struct ExJsonValue(serde_json::Value);

/// `serde_json::from_slice::<serde_json::Value>`, with the value turned into
/// the library's tree: the result is the document named `json_document` of
/// the bytes, and an error exactly where there is none.
#[verifier::external_body]
pub(crate) fn parse_json(bytes: &[u8]) -> (res: Result<Json, serde_json::Error>)
    ensures
        res is Ok <==> json_document(bytes@) is Some,
        res matches Ok(v) ==> json_document(bytes@) == Some(v),
{
    serde_json::from_slice::<serde_json::Value>(bytes).map(json_from_value)
}

/// The conversion half of `parse_json`: each `serde_json::Value` variant
/// becomes the variant of the same name, member for member.
#[verifier::external_body]
fn json_from_value(value: serde_json::Value) -> Json {
    match value {
        serde_json::Value::Null => Json::Null,
        serde_json::Value::Bool(b) => Json::Bool(b),
        serde_json::Value::Number(n) => Json::Number(
            JsonNumber { int: n.as_i64(), float_bits: n.as_f64().map(|x| x.to_bits()) },
        ),
        serde_json::Value::String(s) => Json::Str(s),
        serde_json::Value::Array(items) => Json::Array(items.into_iter().map(json_from_value).collect()),
        serde_json::Value::Object(map) => Json::Object(map.into_iter().map(|(k, v)| (k, json_from_value(v))).collect()),
    }
}

/// `Display` of a `serde_json` error; nothing is stated of the text.
#[verifier::external_body]
pub(crate) fn json_error_text(err: &serde_json::Error) -> String {
    err.to_string()
}

/// The value of the first member named `key` among `members`.
pub open spec fn member(members: Seq<(String, Json)>, key: Seq<char>) -> Option<Json>
    decreases members.len(),
{
    if members.len() == 0 {
        None
    } else if members[0].0@ == key {
        Some(members[0].1)
    } else {
        member(members.drop_first(), key)
    }
}

/// The member named `key` of an object, `None` for any other value.
pub open spec fn json_get(v: Option<Json>, key: Seq<char>) -> Option<Json> {
    match v {
        Some(Json::Object(members)) => member(members@, key),
        _ => None,
    }
}

/// The value behind an optional reference.
pub open spec fn deref_opt(v: Option<&Json>) -> Option<Json> {
    match v {
        Some(j) => Some(*j),
        None => None,
    }
}

/// The text of a string value.
pub open spec fn json_str(v: Option<Json>) -> Option<Seq<char>> {
    match v {
        Some(Json::Str(s)) => Some(s@),
        _ => None,
    }
}

/// The value of a boolean.
pub open spec fn json_bool(v: Option<Json>) -> Option<bool> {
    match v {
        Some(Json::Bool(b)) => Some(b),
        _ => None,
    }
}

/// The value of a number that is an `i64`.
pub open spec fn json_i64(v: Option<Json>) -> Option<i64> {
    match v {
        Some(Json::Number(n)) => n.int,
        _ => None,
    }
}

/// The value of a number as an `f64`, as its bits.
pub open spec fn json_f64_bits(v: Option<Json>) -> Option<u64> {
    match v {
        Some(Json::Number(n)) => n.float_bits,
        _ => None,
    }
}

/// The items of an array.
pub open spec fn json_array(v: Option<Json>) -> Option<Seq<Json>> {
    match v {
        Some(Json::Array(items)) => Some(items@),
        _ => None,
    }
}

/// Whether a value is an object.
pub open spec fn json_is_object(v: Option<Json>) -> bool {
    v matches Some(Json::Object(_))
}

impl Json {
    /// The member named `key` of an object.
    pub fn get(&self, key: &str) -> (res: Option<&Json>)
        ensures
            res matches Some(j) ==> json_get(Some(*self), key@) == Some(*j),
            res is None ==> json_get(Some(*self), key@) is None,
    {
        match self {
            Json::Object(members) => {
                let mut i: usize = 0;
                assert(members@.skip(0) =~= members@);
                while i < members.len()
                    invariant
                        i <= members@.len(),
                        member(members@, key@) == member(members@.skip(i as int), key@),
                        json_get(Some(*self), key@) == member(members@, key@),
                    decreases members.len() - i,
                {
                    assert(members@.skip(i as int).drop_first() =~= members@.skip(i + 1));
                    assert(members@.skip(i as int)[0] == members@[i as int]);
                    if same_text(members[i].0.as_str(), key) {
                        return Some(&members[i].1);
                    }
                    i = i + 1;
                }
                None
            },
            _ => None,
        }
    }

    /// The text of a string value.
    pub fn as_str(&self) -> (res: Option<&str>)
        ensures
            res matches Some(s) ==> json_str(Some(*self)) == Some(s@),
            res is None ==> json_str(Some(*self)) is None,
    {
        match self {
            Json::Str(s) => Some(s.as_str()),
            _ => None,
        }
    }

    /// The value of a boolean.
    pub fn as_bool(&self) -> (res: Option<bool>)
        ensures
            res == json_bool(Some(*self)),
    {
        match self {
            Json::Bool(b) => Some(*b),
            _ => None,
        }
    }

    /// The value of a number that is an `i64`.
    pub fn as_i64(&self) -> (res: Option<i64>)
        ensures
            res == json_i64(Some(*self)),
    {
        match self {
            Json::Number(n) => n.int,
            _ => None,
        }
    }

    /// The value of a number as an `f64`, as its bits.
    pub fn as_f64_bits(&self) -> (res: Option<u64>)
        ensures
            res == json_f64_bits(Some(*self)),
    {
        match self {
            Json::Number(n) => n.float_bits,
            _ => None,
        }
    }

    /// Whether the value is an object.
    pub fn is_object(&self) -> (res: bool)
        ensures
            res == json_is_object(Some(*self)),
    {
        match self {
            Json::Object(_) => true,
            _ => false,
        }
    }
}

} // verus!
