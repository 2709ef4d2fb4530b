//! JSON objects whose members are texts and numbers, held in `serde_json`'s
//! map and described by what they contain.

use vstd::prelude::*;

verus! {

/// `serde_json::Value`, carried through without a look inside.
#[verifier::external_type_specification]
#[verifier::external_body]
pub struct ExJsonValue(serde_json::Value);

/// `serde_json::Map`, known by the members that the two names below give.
#[verifier::external_type_specification]
#[verifier::external_body]
#[verifier::reject_recursive_types(K)]
#[verifier::reject_recursive_types(V)]
pub struct ExJsonMap<K, V>(serde_json::Map<K, V>);

/// The members of an object whose values are JSON strings, by key.
pub uninterp spec fn text_members(object: serde_json::Map<String, serde_json::Value>) -> Map<Seq<char>, Seq<char>>;

/// The members of an object whose values are JSON numbers that a `u64`
/// holds, by key.
pub uninterp spec fn number_members(object: serde_json::Map<String, serde_json::Value>) -> Map<Seq<char>, u64>;

/// No text members.
pub open spec fn no_texts() -> Map<Seq<char>, Seq<char>> {
    Map::empty()
}

/// No number members.
pub open spec fn no_numbers() -> Map<Seq<char>, u64> {
    Map::empty()
}

/// `serde_json::Map::new`: the object that it makes has no member.
#[verifier::external_body]
pub(crate) fn new_object() -> (object: serde_json::Map<String, serde_json::Value>)
    ensures
        text_members(object) == no_texts(),
        number_members(object) == no_numbers(),
{
    serde_json::Map::new()
}

/// `serde_json::Map::insert` with a `Value::String`: the key then holds the
/// text, whatever it held before, and the other members are as before.
#[verifier::external_body]
pub(crate) fn insert_text(
    object: &mut serde_json::Map<String, serde_json::Value>,
    key: &str,
    value: &str,
)
    ensures
        text_members(*final(object)) == text_members(*old(object)).insert(key@, value@),
        number_members(*final(object)) == number_members(*old(object)).remove(key@),
{
    object.insert(key.to_string(), serde_json::Value::String(value.to_string()));
}

/// `serde_json::Map::insert` with a `Value::Number` made of a `u64`: the key
/// then holds the number, whatever it held before, and the other members are
/// as before.
#[verifier::external_body]
pub(crate) fn insert_number(
    object: &mut serde_json::Map<String, serde_json::Value>,
    key: &str,
    value: u64,
)
    ensures
        number_members(*final(object)) == number_members(*old(object)).insert(key@, value),
        text_members(*final(object)) == text_members(*old(object)).remove(key@),
{
    object.insert(key.to_string(), serde_json::Value::from(value));
}

} // verus!
