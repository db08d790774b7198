//! JSON documents: a mathematical model of a JSON value, and the parser
//! and accessors of `serde_json` with their contracts over that model.

use vstd::prelude::*;

verus! {

/// A parsed JSON value. Nothing of its inside is visible here: it is
/// read through the accessors below.
#[verifier::external_type_specification]
#[verifier::external_body]
pub struct ExJsonValue(serde_json::Value);

/// The reason for which a text is no JSON document.
#[verifier::external_type_specification]
#[verifier::external_body]
pub struct ExJsonError(serde_json::Error);

/// What a JSON value holds.
pub enum Json {
    Null,
    Bool(bool),
    /// A number that is kept as an integer.
    Integer(int),
    /// Any other number.
    Fraction,
    Text(Seq<char>),
    List(Seq<Json>),
    /// The members of an object, by key.
    Object(Map<Seq<char>, Json>),
}

/// What a JSON value holds.
pub uninterp spec fn json_model(value: serde_json::Value) -> Json;

/// What the JSON document `text` holds, or `None` where `text` is not one
/// JSON document.
pub uninterp spec fn json_document(text: Seq<char>) -> Option<Json>;

impl Json {
    /// The member of an object under `key`; `None` where this is no object
    /// or the object has no such member.
    pub open spec fn member(self, key: Seq<char>) -> Option<Json> {
        match self {
            Json::Object(members) => if members.contains_key(key) {
                Some(members[key])
            } else {
                None
            },
            _ => None,
        }
    }

    /// The elements of a list; `None` where this is no list.
    pub open spec fn items(self) -> Option<Seq<Json>> {
        match self {
            Json::List(elements) => Some(elements),
            _ => None,
        }
    }

    /// The characters of a text; `None` where this is no text.
    pub open spec fn text(self) -> Option<Seq<char>> {
        match self {
            Json::Text(characters) => Some(characters),
            _ => None,
        }
    }

    /// An integer within `i64`; `None` for everything else.
    pub open spec fn as_i64(self) -> Option<i64> {
        match self {
            Json::Integer(n) => if i64::MIN <= n <= i64::MAX {
                Some(n as i64)
            } else {
                None
            },
            _ => None,
        }
    }

    /// An integer within `u64`; `None` for everything else.
    pub open spec fn as_u64(self) -> Option<u64> {
        match self {
            Json::Integer(n) => if 0 <= n <= u64::MAX {
                Some(n as u64)
            } else {
                None
            },
            _ => None,
        }
    }
}

/// Parses a text as one JSON document.
///
/// Trusted: `serde_json::from_str` at the type `serde_json::Value` returns
/// the value that the text denotes, or an error where the text is not one
/// JSON document. The outcome depends on the text alone.
#[verifier::external_body]
pub(crate) fn parse_document(text: &str) -> (r: Result<serde_json::Value, serde_json::Error>)
    ensures
        match r {
            Ok(value) => json_document(text@) == Some(json_model(value)),
            Err(_) => json_document(text@) is None,
        },
{
    serde_json::from_str::<serde_json::Value>(text)
}

/// Looks up a member of an object.
///
/// Trusted: `serde_json::Value::get` with a string index returns the value
/// stored under that key where the value is an object that holds the key,
/// and `None` otherwise.
#[verifier::external_body]
pub(crate) fn value_member<'a>(value: &'a serde_json::Value, key: &str) -> (r: Option<
    &'a serde_json::Value,
>)
    ensures
        match r {
            Some(found) => json_model(*value).member(key@) == Some(json_model(*found)),
            None => json_model(*value).member(key@) is None,
        },
{
    value.get(key)
}

/// The elements of an array.
///
/// Trusted: `serde_json::Value::as_array` returns the vector of elements
/// where the value is an array, and `None` otherwise.
#[verifier::external_body]
pub(crate) fn value_items(value: &serde_json::Value) -> (r: Option<&Vec<serde_json::Value>>)
    ensures
        match r {
            Some(list) => json_model(*value).items() == Some(
                list@.map_values(|element: serde_json::Value| json_model(element)),
            ),
            None => json_model(*value).items() is None,
        },
{
    value.as_array()
}

/// The text of a string value.
///
/// Trusted: `serde_json::Value::as_str` returns the string slice where the
/// value is a string, and `None` otherwise.
#[verifier::external_body]
pub(crate) fn value_text<'a>(value: &'a serde_json::Value) -> (r: Option<&'a str>)
    ensures
        match r {
            Some(s) => json_model(*value).text() == Some(s@),
            None => json_model(*value).text() is None,
        },
{
    value.as_str()
}

/// A number as a signed integer.
///
/// Trusted: `serde_json::Value::as_i64` returns the number where the value
/// is an integer that fits `i64`, and `None` otherwise.
#[verifier::external_body]
pub(crate) fn value_i64(value: &serde_json::Value) -> (r: Option<i64>)
    ensures
        r == json_model(*value).as_i64(),
{
    value.as_i64()
}

/// A number as an unsigned integer.
///
/// Trusted: `serde_json::Value::as_u64` returns the number where the value
/// is an integer that fits `u64`, and `None` otherwise.
#[verifier::external_body]
pub(crate) fn value_u64(value: &serde_json::Value) -> (r: Option<u64>)
    ensures
        r == json_model(*value).as_u64(),
{
    value.as_u64()
}

/// Whether a value is `null`.
///
/// Trusted: `serde_json::Value::is_null` returns `true` for `null` and
/// `false` for every other value.
#[verifier::external_body]
pub(crate) fn value_is_null(value: &serde_json::Value) -> (r: bool)
    ensures
        r == (json_model(*value) is Null),
{
    value.is_null()
}

} // verus!
