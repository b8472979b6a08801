//! JSON values: what they hold, and the calls into `serde_json` that make,
//! read and write them.
//!
//! A [`serde_json::Value`] is a tree of named members. [`Json`] is that tree as
//! a mathematical value, [`json_of`] gives the tree that a value holds, and each
//! call below is described by what it does to the tree.

use serde_json::Value;
use vstd::prelude::*;

verus! {

/// A JSON value.
pub enum Json {
    Null,
    Bool(bool),
    /// An integer from zero on.
    Unsigned(u64),
    /// An integer below zero.
    Negative(i64),
    /// Any other number, by the text it is written as.
    Fraction(Seq<char>),
    Text(Seq<char>),
    Array(Seq<Json>),
    Object(Map<Seq<char>, Json>),
}

impl Json {
    /// The member of that name; null where there is none, or this is no object.
    pub open spec fn member(self, key: Seq<char>) -> Json {
        match self {
            Json::Object(members) => if members.dom().contains(key) {
                members[key]
            } else {
                Json::Null
            },
            _ => Json::Null,
        }
    }

    /// Whether this is an object with a member of that name.
    pub open spec fn has_member(self, key: Seq<char>) -> bool {
        match self {
            Json::Object(members) => members.dom().contains(key),
            _ => false,
        }
    }

    /// The text, where this is one.
    pub open spec fn as_text(self) -> Option<Seq<char>> {
        match self {
            Json::Text(text) => Some(text),
            _ => None,
        }
    }

    /// The integer, where this is one that is not below zero.
    pub open spec fn as_unsigned(self) -> Option<u64> {
        match self {
            Json::Unsigned(number) => Some(number),
            _ => None,
        }
    }

    /// No number but integers, and no more than `depth` arrays and objects
    /// inside one another.
    pub open spec fn readable(self, depth: nat) -> bool
        decreases depth,
    {
        match self {
            Json::Fraction(_) => false,
            Json::Array(items) => depth > 0 && forall|i: int|
                0 <= i < items.len() ==> (#[trigger] items[i]).readable((depth - 1) as nat),
            Json::Object(members) => depth > 0 && forall|key: Seq<char>|
                members.dom().contains(key) ==> (#[trigger] members[key]).readable(
                    (depth - 1) as nat,
                ),
            _ => true,
        }
    }
}

/// How deep the arrays and objects of a text may be nested that
/// `serde_json::from_str` still reads.
pub const NESTING_LIMIT: u64 = 127;

/// The trees of a queue of values, in order.
pub open spec fn json_seq(values: Seq<Value>) -> Seq<Json> {
    values.map_values(|value: Value| json_of(value))
}

/// `serde_json::Value`, seen only through [`json_of`].
#[verifier::external_type_specification]
#[verifier::external_body]
pub struct ExValue(serde_json::Value);

/// The tree that a value holds.
pub uninterp spec fn json_of(value: Value) -> Json;

/// What `serde_json::from_str` makes of a text: the tree, or the text of its error.
pub uninterp spec fn parsed_json(text: Seq<char>) -> Result<Json, Seq<char>>;

/// Whether `serde_json::from_str` reads that text as that tree.
pub open spec fn reads_as(text: Seq<char>, json: Json) -> bool {
    parsed_json(text) is Ok && parsed_json(text)->Ok_0 == json
}

/// The text that `serde_json` writes for a tree, without any space between its
/// parts.
pub uninterp spec fn json_text(json: Json) -> Seq<char>;

/// `serde_json::from_str`, into a `Value`. What it returns is named
/// [`parsed_json`]; its error is kept as the text that it displays.
#[verifier::external_body]
pub(crate) fn parse_json(text: &str) -> (parsed: Result<Value, String>)
    ensures
        match parsed {
            Ok(value) => parsed_json(text@) is Ok && parsed_json(text@)->Ok_0 == json_of(value),
            Err(message) => parsed_json(text@) is Err && parsed_json(text@)->Err_0 == message@,
        },
{
    serde_json::from_str(text).map_err(|error: serde_json::Error| error.to_string())
}

/// `Value`'s `Display`, by `to_string`. What it returns is named [`json_text`].
/// It writes the compact form, in which a line feed occurs neither between the
/// parts nor, unescaped, inside a text. `serde_json::from_str` reads what it
/// wrote as the same tree, where all numbers are integers and the nesting stays
/// within what that function reads.
#[verifier::external_body]
pub(crate) fn json_to_text(value: &Value) -> (text: String)
    ensures
        text@ == json_text(json_of(*value)),
        !text@.contains('\n'),
        json_of(*value).readable(NESTING_LIMIT as nat) ==> reads_as(text@, json_of(*value)),
{
    value.to_string()
}

/// `Value`'s indexing by a name: the member, and null where there is none.
#[verifier::external_body]
pub(crate) fn member<'a>(value: &'a Value, key: &str) -> (found: &'a Value)
    ensures
        json_of(*found) == json_of(*value).member(key@),
{
    &value[key]
}

/// `Value::get`: the member, where this is an object that has it.
#[verifier::external_body]
pub(crate) fn find_member<'a>(value: &'a Value, key: &str) -> (found: Option<&'a Value>)
    ensures
        match found {
            Some(found) => json_of(*value).has_member(key@) && json_of(*found) == json_of(
                *value,
            ).member(key@),
            None => !json_of(*value).has_member(key@),
        },
{
    value.get(key)
}

/// `Value::as_str`: the text, where the value is one.
#[verifier::external_body]
pub(crate) fn as_text<'a>(value: &'a Value) -> (text: Option<&'a str>)
    ensures
        match text {
            Some(text) => json_of(*value).as_text() == Some(text@),
            None => json_of(*value).as_text() is None,
        },
{
    value.as_str()
}

/// `Value::as_u64`: the integer, where the value is one from zero on.
#[verifier::external_body]
pub(crate) fn as_unsigned(value: &Value) -> (number: Option<u64>)
    ensures
        number == json_of(*value).as_unsigned(),
{
    value.as_u64()
}

/// `Value`'s `From<&str>`.
#[verifier::external_body]
pub(crate) fn text_value(text: &str) -> (value: Value)
    ensures
        json_of(value) == Json::Text(text@),
{
    Value::from(text)
}

/// `Value`'s `From<bool>`.
#[verifier::external_body]
pub(crate) fn bool_value(flag: bool) -> (value: Value)
    ensures
        json_of(value) == Json::Bool(flag),
{
    Value::from(flag)
}

/// `Value`'s `From<u64>`.
#[verifier::external_body]
pub(crate) fn unsigned_value(number: u64) -> (value: Value)
    ensures
        json_of(value) == Json::Unsigned(number),
{
    Value::from(number)
}

/// `Value`'s `From<()>`: null.
#[verifier::external_body]
pub(crate) fn null_value() -> (value: Value)
    ensures
        json_of(value) == Json::Null,
{
    Value::from(())
}

/// `Value`'s `From<Vec<Value>>`: an array of these items, in order.
#[verifier::external_body]
pub(crate) fn array_value(items: Vec<Value>) -> (value: Value)
    ensures
        json_of(value) == Json::Array(json_seq(items@)),
{
    Value::from(items)
}

/// `serde_json::Map::new`, as a value: an object without members.
#[verifier::external_body]
pub(crate) fn empty_object() -> (value: Value)
    ensures
        json_of(value) == Json::Object(Map::empty()),
{
    Value::from(serde_json::Map::new())
}

/// Assignment through `Value`'s indexing by a name: the object gets the member,
/// in place of one that it had under that name. On anything but an object and
/// null that indexing panics.
#[verifier::external_body]
pub(crate) fn set_member(object: &mut Value, key: &str, value: Value)
    requires
        json_of(*old(object)) is Object,
    ensures
        json_of(*final(object)) == Json::Object(
            json_of(*old(object))->Object_0.insert(key@, json_of(value)),
        ),
{
    object[key] = value;
}

/// `Value`'s `Clone`: a value that holds the same tree.
pub assume_specification[ <serde_json::Value as Clone>::clone ](value: &Value) -> (copy: Value)
    ensures
        json_of(copy) == json_of(*value),
;

} // verus!
