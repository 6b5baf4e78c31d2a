//! JSON documents as `serde_json` holds them, and what the rest of the
//! library may take for granted about them.
//!
//! Nothing in this file is proved: every contract here restates what
//! `serde_json` does, over the mathematical value [`Json`].

use vstd::prelude::*;

verus! {

#[verifier::external_type_specification]
#[verifier::external_body]
pub struct ExValue(serde_json::Value);

#[verifier::external_type_specification]
#[verifier::external_body]
#[verifier::reject_recursive_types(K)]
#[verifier::reject_recursive_types(V)]
pub struct ExObject<K, V>(serde_json::Map<K, V>);

#[verifier::external_type_specification]
#[verifier::external_body]
pub struct ExSyntaxError(serde_json::Error);

/// A JSON document as a mathematical value.
pub enum Json {
    Null,
    Bool(bool),
    /// A number; the payload is its value where `serde_json` holds it as an
    /// integer from zero to `u64::MAX`, which is how it reads a number
    /// written without sign, fraction or exponent, such as `7`. Every other
    /// number, `7.0` and `-7` among them, has `None`.
    Number(Option<u64>),
    Text(Seq<char>),
    Array(Seq<Json>),
    Object(Map<Seq<char>, Json>),
}

/// The document that a `serde_json::Value` holds.
pub uninterp spec fn value_content(v: serde_json::Value) -> Json;

/// The members of a `serde_json::Map`, by key.
pub uninterp spec fn object_content(m: serde_json::Map<String, serde_json::Value>) -> Map<
    Seq<char>,
    Json,
>;

/// What `serde_json::from_str` makes of a text that is to hold one JSON
/// object: its members, or the parser's complaint.
pub uninterp spec fn parsed_object(text: Seq<char>) -> Result<Map<Seq<char>, Json>, Seq<char>>;

/// The message that a `serde_json::Error` displays.
pub uninterp spec fn error_text(e: serde_json::Error) -> Seq<char>;

/// `serde_json::from_str` at the type `Map<String, Value>`: parses `text` as
/// one JSON object. The outcome is a function of the text alone, named
/// [`parsed_object`].
#[verifier::external_body]
pub(crate) fn parse_object(text: &str) -> (r: Result<
    serde_json::Map<String, serde_json::Value>,
    serde_json::Error,
>)
    ensures
        match r {
            Ok(m) => parsed_object(text@) == Ok::<Map<Seq<char>, Json>, Seq<char>>(
                object_content(m),
            ),
            Err(e) => parsed_object(text@) == Err::<Map<Seq<char>, Json>, Seq<char>>(
                error_text(e),
            ),
        },
{
    serde_json::from_str(text)
}

/// `ToString::to_string` on a `serde_json::Error`: the text it displays.
#[verifier::external_body]
pub(crate) fn error_message(e: &serde_json::Error) -> (r: String)
    ensures
        r@ == error_text(*e),
{
    e.to_string()
}

/// `serde_json::Map::get` with a string key: the member under `key`, or
/// `None` where the object has no such member.
#[verifier::external_body]
pub(crate) fn object_get<'a>(
    m: &'a serde_json::Map<String, serde_json::Value>,
    key: &str,
) -> (r: Option<&'a serde_json::Value>)
    ensures
        match r {
            Some(v) => object_content(*m).contains_key(key@) && object_content(*m)[key@]
                == value_content(*v),
            None => !object_content(*m).contains_key(key@),
        },
{
    m.get(key)
}

/// `serde_json::Value::is_null`.
#[verifier::external_body]
pub(crate) fn is_null(v: &serde_json::Value) -> (r: bool)
    ensures
        r == (value_content(*v) is Null),
{
    v.is_null()
}

/// `serde_json::Value::as_bool`: the boolean that `v` is, if it is one.
#[verifier::external_body]
pub(crate) fn as_bool(v: &serde_json::Value) -> (r: Option<bool>)
    ensures
        match r {
            Some(b) => value_content(*v) == Json::Bool(b),
            None => !(value_content(*v) is Bool),
        },
{
    v.as_bool()
}

/// `serde_json::Value::as_u64`: the value of `v` where it is a number that
/// `serde_json` holds as an integer from zero to `u64::MAX` (`7`, but not
/// `7.0` or `-7`).
#[verifier::external_body]
pub(crate) fn as_u64(v: &serde_json::Value) -> (r: Option<u64>)
    ensures
        match r {
            Some(n) => value_content(*v) == Json::Number(Some(n)),
            None => !(value_content(*v) matches Json::Number(Some(_))),
        },
{
    v.as_u64()
}

/// `serde_json::Value::as_str`: the text that `v` is, if it is a string.
#[verifier::external_body]
pub(crate) fn as_str<'a>(v: &'a serde_json::Value) -> (r: Option<&'a str>)
    ensures
        match r {
            Some(s) => value_content(*v) == Json::Text(s@),
            None => !(value_content(*v) is Text),
        },
{
    v.as_str()
}

/// `serde_json::Value::as_array`: the items of `v`, in order, if it is an
/// array.
#[verifier::external_body]
pub(crate) fn as_array<'a>(v: &'a serde_json::Value) -> (r: Option<&'a Vec<serde_json::Value>>)
    ensures
        match r {
            Some(items) => value_content(*v) == Json::Array(
                Seq::new(items@.len(), |i: int| value_content(items@[i])),
            ),
            None => !(value_content(*v) is Array),
        },
{
    v.as_array()
}

/// `serde_json::Value::as_object`: the members of `v`, if it is an object.
#[verifier::external_body]
pub(crate) fn as_object<'a>(v: &'a serde_json::Value) -> (r: Option<
    &'a serde_json::Map<String, serde_json::Value>,
>)
    ensures
        match r {
            Some(m) => value_content(*v) == Json::Object(object_content(*m)),
            None => !(value_content(*v) is Object),
        },
{
    v.as_object()
}

} // verus!
