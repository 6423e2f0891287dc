//! JSON documents as `serde_json` holds them, a mathematical model of what
//! they hold, and the calls into `serde_json` that read them.

use vstd::prelude::*;

verus! {

/// A parsed JSON document of `serde_json`. Verified code carries it and reads
/// it through the functions of this module.
#[verifier::external_type_specification]
#[verifier::external_body]
pub struct ExValue(serde_json::Value);

/// What a JSON number reads as: as an unsigned and as a signed 64-bit
/// integer, where it is one, and as a double, given by its bit pattern. The
/// three readings together tell any two numbers apart that `serde_json`
/// writes differently: an integer that is not negative has its unsigned
/// reading, a negative one its signed reading, and any other number only the
/// double.
pub struct JsonNumber {
    pub unsigned: Option<u64>,
    pub integer: Option<i64>,
    pub double: Option<u64>,
}

/// What a JSON document holds.
pub enum JsonModel {
    Null,
    Bool(bool),
    Number(JsonNumber),
    Text(Seq<char>),
    Array(Seq<JsonModel>),
    Object(Map<Seq<char>, JsonModel>),
}

impl JsonModel {
    /// The member of an object under `key`.
    pub open spec fn member(self, key: Seq<char>) -> Option<JsonModel> {
        match self {
            JsonModel::Object(members) => if members.contains_key(key) {
                Some(members[key])
            } else {
                None
            },
            _ => None,
        }
    }

    /// The characters of a string.
    pub open spec fn text(self) -> Option<Seq<char>> {
        match self {
            JsonModel::Text(chars) => Some(chars),
            _ => None,
        }
    }

    /// The value of a boolean.
    pub open spec fn flag(self) -> Option<bool> {
        match self {
            JsonModel::Bool(b) => Some(b),
            _ => None,
        }
    }

    /// The value of a number that is a signed 64-bit integer.
    pub open spec fn integer(self) -> Option<i64> {
        match self {
            JsonModel::Number(n) => n.integer,
            _ => None,
        }
    }

    /// The bit pattern of the double that a number reads as.
    pub open spec fn double(self) -> Option<u64> {
        match self {
            JsonModel::Number(n) => n.double,
            _ => None,
        }
    }

    /// The elements of an array.
    pub open spec fn elements(self) -> Option<Seq<JsonModel>> {
        match self {
            JsonModel::Array(items) => Some(items),
            _ => None,
        }
    }
}

/// The member under `key` of a document that may be missing.
pub open spec fn member_of(doc: Option<JsonModel>, key: Seq<char>) -> Option<JsonModel> {
    match doc {
        Some(m) => m.member(key),
        None => None,
    }
}

/// The string that a document holds, where the document is there and is one.
pub open spec fn text_of(doc: Option<JsonModel>) -> Option<Seq<char>> {
    match doc {
        Some(m) => m.text(),
        None => None,
    }
}

/// The boolean that a document holds, where the document is there and is one.
pub open spec fn flag_of(doc: Option<JsonModel>) -> Option<bool> {
    match doc {
        Some(m) => m.flag(),
        None => None,
    }
}

/// The integer that a document holds, where the document is there and is one.
pub open spec fn integer_of(doc: Option<JsonModel>) -> Option<i64> {
    match doc {
        Some(m) => m.integer(),
        None => None,
    }
}

/// The double that a document reads as, where the document is there and is a
/// number.
pub open spec fn double_of(doc: Option<JsonModel>) -> Option<u64> {
    match doc {
        Some(m) => m.double(),
        None => None,
    }
}

/// What a `serde_json::Value` holds.
pub uninterp spec fn json_model(v: serde_json::Value) -> JsonModel;

/// What `serde_json` reads from a text, if the text is JSON.
pub uninterp spec fn json_parsed(text: Seq<char>) -> Option<JsonModel>;

/// The compact text that `serde_json` writes for a document.
pub uninterp spec fn json_rendered(doc: JsonModel) -> Seq<char>;

/// The model of a value that may be missing.
pub open spec fn model_of(v: Option<&serde_json::Value>) -> Option<JsonModel> {
    match v {
        Some(inner) => Some(json_model(*inner)),
        None => None,
    }
}

/// `serde_json::from_str` for a `Value`. The contract only names the result:
/// the same text always reads as the same document, or as none.
#[verifier::external_body]
pub(crate) fn parse(text: &str) -> (r: Option<serde_json::Value>)
    ensures
        match r {
            Some(v) => json_parsed(text@) == Some(json_model(v)),
            None => json_parsed(text@) is None,
        },
{
    match serde_json::from_str::<serde_json::Value>(text) {
        Ok(v) => Some(v),
        Err(_) => None,
    }
}

/// `to_string` of a `serde_json::Value`, which writes the compact form. The
/// contract only names the result.
#[verifier::external_body]
pub(crate) fn render(v: &serde_json::Value) -> (text: String)
    ensures
        text@ == json_rendered(json_model(*v)),
{
    v.to_string()
}

/// `serde_json::Value::get` with a string key: the member under that key if
/// the value is an object that has one.
#[verifier::external_body]
pub(crate) fn member<'a>(v: &'a serde_json::Value, key: &str) -> (r: Option<&'a serde_json::Value>)
    ensures
        model_of(r) == json_model(*v).member(key@),
{
    v.get(key)
}

/// `serde_json::Value::as_str`: the string if the value is one.
#[verifier::external_body]
pub(crate) fn as_text<'a>(v: &'a serde_json::Value) -> (r: Option<&'a str>)
    ensures
        match r {
            Some(s) => json_model(*v).text() == Some(s@),
            None => json_model(*v).text() is None,
        },
{
    v.as_str()
}

/// `serde_json::Value::as_bool`: the boolean if the value is one.
#[verifier::external_body]
pub(crate) fn as_flag(v: &serde_json::Value) -> (r: Option<bool>)
    ensures
        r == json_model(*v).flag(),
{
    v.as_bool()
}

/// `serde_json::Value::as_i64`: the number if the value is an integer in the
/// range of `i64`.
#[verifier::external_body]
pub(crate) fn as_integer(v: &serde_json::Value) -> (r: Option<i64>)
    ensures
        r == json_model(*v).integer(),
{
    v.as_i64()
}

/// `serde_json::Value::as_f64`, with the double given by its bit pattern.
#[verifier::external_body]
pub(crate) fn as_double(v: &serde_json::Value) -> (r: Option<u64>)
    ensures
        r == json_model(*v).double(),
{
    v.as_f64().map(|x| x.to_bits())
}

/// `serde_json::Value::is_object`.
#[verifier::external_body]
pub(crate) fn is_object(v: &serde_json::Value) -> (r: bool)
    ensures
        r == (json_model(*v) is Object),
{
    v.is_object()
}

/// `serde_json::Value::as_array`: the elements if the value is an array.
#[verifier::external_body]
pub(crate) fn as_elements<'a>(v: &'a serde_json::Value) -> (r: Option<&'a Vec<serde_json::Value>>)
    ensures
        match r {
            Some(items) => json_model(*v).elements() == Some(
                items@.map_values(|x: serde_json::Value| json_model(x)),
            ),
            None => json_model(*v).elements() is None,
        },
{
    v.as_array()
}

/// The string under `key` of `v`, if `v` is an object that holds one there.
pub fn text_at(v: &serde_json::Value, key: &str) -> (r: Option<String>)
    ensures
        r.is_some() == text_of(json_model(*v).member(key@)).is_some(),
        r matches Some(s) ==> text_of(json_model(*v).member(key@)) == Some(s@),
{
    match member(v, key) {
        Some(m) => match as_text(m) {
            Some(s) => Some(s.to_owned()),
            None => None,
        },
        None => None,
    }
}

/// The boolean under `key` of `v`, if `v` is an object that holds one there.
pub fn flag_at(v: &serde_json::Value, key: &str) -> (r: Option<bool>)
    ensures
        r == flag_of(json_model(*v).member(key@)),
{
    match member(v, key) {
        Some(m) => as_flag(m),
        None => None,
    }
}

/// The member under `inner` of the member under `outer` of `v`.
pub fn member_at<'a>(v: &'a serde_json::Value, outer: &str, inner: &str) -> (r: Option<
    &'a serde_json::Value,
>)
    ensures
        model_of(r) == member_of(json_model(*v).member(outer@), inner@),
{
    match member(v, outer) {
        Some(m) => member(m, inner),
        None => None,
    }
}

} // verus!
