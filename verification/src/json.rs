//! JSON documents as trees of plain values.
//!
//! Texts are read by `serde_json`. The tree that it builds is copied into
//! [`Json`], on which the rest of the crate works.

use vstd::prelude::*;

use serde_json::Value as JsonValue;

use crate::types::Float64;

verus! {

/// An error of `serde_json`, carried as it is.
#[verifier::external_type_specification]
#[verifier::external_body]
pub struct ExSerdeJsonError(serde_json::Error);

/// A JSON value of `serde_json`; what it holds is read by `copy_value`.
#[verifier::external_type_specification]
#[verifier::external_body]
pub struct ExSerdeJsonValue(JsonValue);

/// A JSON number, as the three readings that `serde_json` offers of it.
#[derive(Clone, Copy, Debug, PartialEq, Eq, Structural)]
pub struct JsonNumber {
    /// The number as a signed integer, where it is an integer that fits.
    pub signed: Option<i64>,
    /// The number as an unsigned integer, where it is an integer that fits.
    pub unsigned: Option<u64>,
    /// The number as a double-precision number.
    pub float: Option<Float64>,
}

impl JsonNumber {
    /// A number that is no integer.
    pub fn from_float(float: Float64) -> (number: JsonNumber)
        ensures
            number == (JsonNumber { signed: None, unsigned: None, float: Some(float) }),
    {
        JsonNumber { signed: None, unsigned: None, float: Some(float) }
    }
}

/// A JSON value.
#[derive(Debug, PartialEq)]
pub enum Json {
    /// The value `null`.
    Null,
    /// A boolean.
    Bool(bool),
    /// A number.
    Number(JsonNumber),
    /// A string.
    String(String),
    /// An array.
    Array(Vec<Json>),
    /// An object: its members, in order.
    Object(Vec<(String, Json)>),
}

/// The value that `serde_json` reads from a text; `None` for a text that is
/// not one JSON value.
pub uninterp spec fn document_value(text: Seq<char>) -> Option<JsonValue>;

/// The tree that holds what a value of `serde_json` holds.
pub uninterp spec fn value_tree(value: JsonValue) -> Json;

/// The tree of the JSON value that a text denotes.
pub open spec fn parsed_json(text: Seq<char>) -> Option<Json> {
    match document_value(text) {
        Some(value) => Some(value_tree(value)),
        None => None,
    }
}

/// Calls `serde_json::from_str` for a `serde_json::Value`. Whether it accepts
/// the text, and the value it builds, depend on the text alone.
#[verifier::external_body]
fn read_value(text: &str) -> (outcome: Result<JsonValue, serde_json::Error>)
    ensures
        match outcome {
            Ok(value) => document_value(text@) == Some(value),
            Err(_) => document_value(text@) is None,
        },
{
    serde_json::from_str::<JsonValue>(text)
}

/// Copies a `serde_json::Value` into a tree, variant by variant. A number is
/// copied as what `as_i64`, `as_u64` and `as_f64` return for it, the last as
/// its bit pattern. The members of an object come in the order in which
/// `serde_json` walks its map.
#[verifier::external_body]
fn copy_value(value: &JsonValue) -> (tree: Json)
    ensures
        tree == value_tree(*value),
{
    match value {
        JsonValue::Null => Json::Null,
        JsonValue::Bool(flag) => Json::Bool(*flag),
        JsonValue::Number(n) => Json::Number(
            JsonNumber { signed: n.as_i64(), unsigned: n.as_u64(), float: n.as_f64().map(|x| Float64 { bits: x.to_bits() }) },
        ),
        JsonValue::String(text) => Json::String(text.clone()),
        JsonValue::Array(items) => Json::Array(items.iter().map(copy_value).collect()),
        JsonValue::Object(members) => Json::Object(
            members.iter().map(|(name, item)| (name.clone(), copy_value(item))).collect(),
        ),
    }
}

/// Makes a `serde_json::Error` that carries `message`, through
/// `serde::de::Error::custom`.
#[verifier::external_body]
pub(crate) fn shape_error(message: &str) -> (error: serde_json::Error) {
    <serde_json::Error as serde::de::Error>::custom(message)
}

/// The names of the members of an object, in order.
pub open spec fn member_names(members: Seq<(String, Json)>) -> Seq<Seq<char>> {
    Seq::new(members.len(), |i: int| members[i].0@)
}

/// The value of the first member called `name`.
pub open spec fn member(members: Seq<(String, Json)>, name: Seq<char>) -> Option<Json> {
    match member_names(members).index_of_first(name) {
        Some(i) => Some(members[i].1),
        None => None,
    }
}

impl Json {
    /// Reads one JSON value from a text. The members of an object come
    /// each name once, in the order in which `serde_json` keeps them.
    pub fn parse(text: &str) -> (outcome: Result<Json, serde_json::Error>)
        ensures
            match outcome {
                Ok(tree) => parsed_json(text@) == Some(tree),
                Err(_) => parsed_json(text@) is None,
            },
    {
        match read_value(text) {
            Ok(value) => Ok(copy_value(&value)),
            Err(error) => Err(error),
        }
    }

    /// The value of the first member called `name` among `members`.
    pub fn find<'a>(members: &'a Vec<(String, Json)>, name: &str) -> (found: Option<&'a Json>)
        ensures
            match found {
                Some(value) => member(members@, name@) == Some(*value),
                None => member(members@, name@) is None,
            },
    {
        let wanted = name.to_owned();
        let ghost names = member_names(members@);
        proof {
            names.index_of_first_ensures(name@);
        }
        let mut i: usize = 0;
        while i < members.len()
            invariant
                i <= members@.len(),
                wanted@ == name@,
                names == member_names(members@),
                forall|j: int| 0 <= j < i ==> names[j] != name@,
            decreases members@.len() - i,
        {
            if members[i].0 == wanted {
                proof {
                    names.index_of_first_ensures(name@);
                    assert(names[i as int] == name@);
                }
                return Some(&members[i].1);
            }
            i += 1;
        }
        proof {
            names.index_of_first_ensures(name@);
        }
        None
    }
}

} // verus!
