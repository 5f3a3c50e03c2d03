//! The JSON text of a payload, as `serde_json` writes it.

use crate::json::{Json, JsonModel};
use vstd::prelude::*;

verus! {

/// A JSON value of `serde_json`.
#[verifier::external_type_specification]
#[verifier::external_body]
pub struct ExValue(serde_json::Value);

/// The members of a JSON object of `serde_json`.
#[verifier::external_type_specification]
#[verifier::external_body]
#[verifier::reject_recursive_types(K)]
#[verifier::reject_recursive_types(V)]
pub struct ExMap<K, V>(serde_json::Map<K, V>);

/// The reason why `serde_json` could not write a value.
#[verifier::external_type_specification]
#[verifier::external_body]
pub struct ExError(serde_json::Error);

/// What a `serde_json::Value` holds.
pub uninterp spec fn value_model(value: serde_json::Value) -> JsonModel;

/// What a `serde_json::Map` holds.
pub uninterp spec fn members_model(members: serde_json::Map<String, serde_json::Value>) -> Map<
    Seq<char>,
    JsonModel,
>;

/// The text that `serde_json::to_string` writes for a value, or nothing where
/// it fails. It depends on what the value holds and on nothing else: the
/// members of an object are written in the order of their keys. This rests on
/// `serde_json` being built without its feature `preserve_order`, under which
/// the members would be written in the order of their insertion.
pub uninterp spec fn written_text(value: JsonModel) -> Option<Seq<char>>;

/// `serde_json::Value::Null` is the JSON null.
#[verifier::external_body]
fn null_value() -> (value: serde_json::Value)
    ensures
        value_model(value) == JsonModel::Null,
{
    serde_json::Value::Null
}

/// `serde_json::Value::Bool` holds the boolean it is made of.
#[verifier::external_body]
fn bool_value(b: bool) -> (value: serde_json::Value)
    ensures
        value_model(value) == JsonModel::Bool(b),
{
    serde_json::Value::Bool(b)
}

/// `serde_json::Value::Number` holds the number it is made of.
#[verifier::external_body]
fn number_value(number: serde_json::Number) -> (value: serde_json::Value)
    ensures
        value_model(value) == JsonModel::Number(number),
{
    serde_json::Value::Number(number)
}

/// `serde_json::Value::String` holds the text it is made of.
#[verifier::external_body]
fn string_value(text: String) -> (value: serde_json::Value)
    ensures
        value_model(value) == JsonModel::String(text@),
{
    serde_json::Value::String(text)
}

/// `serde_json::Value::Array` holds the elements it is made of, in order.
#[verifier::external_body]
fn array_value(items: Vec<serde_json::Value>) -> (value: serde_json::Value)
    ensures
        value_model(value) == JsonModel::Array(
            items@.map_values(|item: serde_json::Value| value_model(item)),
        ),
{
    serde_json::Value::Array(items)
}

/// `serde_json::Value::Object` holds the members it is made of.
#[verifier::external_body]
fn object_value(members: serde_json::Map<String, serde_json::Value>) -> (value: serde_json::Value)
    ensures
        value_model(value) == JsonModel::Object(members_model(members)),
{
    serde_json::Value::Object(members)
}

/// `serde_json::Map::new` has no members.
#[verifier::external_body]
fn no_members() -> (members: serde_json::Map<String, serde_json::Value>)
    ensures
        members_model(members).dom() == Set::<Seq<char>>::empty(),
{
    serde_json::Map::new()
}

/// `serde_json::Map::insert` puts a value at a key, in place of what was
/// there, and leaves the other members alone.
#[verifier::external_body]
fn insert_member(
    members: &mut serde_json::Map<String, serde_json::Value>,
    key: String,
    value: serde_json::Value,
)
    ensures
        members_model(*final(members)) == members_model(*old(members)).insert(
            key@,
            value_model(value),
        ),
{
    members.insert(key, value);
}

/// `serde_json::to_string` writes a value as JSON text or fails; which of the
/// two, and the text, depend only on what the value holds.
#[verifier::external_body]
fn write_value(value: &serde_json::Value) -> (written: Result<String, serde_json::Error>)
    ensures
        written is Ok <==> written_text(value_model(*value)) is Some,
        written matches Ok(text) ==> written_text(value_model(*value)) == Some(text@),
{
    serde_json::to_string(value)
}

/// The `serde_json` value that holds what a payload says.
pub fn to_value(json: &Json) -> (value: serde_json::Value)
    ensures
        value_model(value) == json@,
    decreases *json,
{
    match json {
        Json::Null => null_value(),
        Json::Bool(b) => bool_value(*b),
        Json::Number(n) => number_value(n.clone()),
        Json::String(s) => string_value(s.clone()),
        Json::Array(items) => {
            let mut values: Vec<serde_json::Value> = Vec::new();
            let mut i: usize = 0;
            while i < items.len()
                invariant
                    i <= items.len(),
                    *json == Json::Array(*items),
                    values@.map_values(|item: serde_json::Value| value_model(item))
                        == crate::json::items_model(items@.take(i as int)),
                decreases items.len() - i,
            {
                assert(decreases_to!(*json => json->Array_0));
                assert(decreases_to!(*items => items@));
                assert(decreases_to!(items@ => items@[i as int]));
                let ghost before = values@;
                let value = to_value(&items[i]);
                values.push(value);
                assert(values@.map_values(|item: serde_json::Value| value_model(item))
                    =~= before.map_values(|item: serde_json::Value| value_model(item)).push(
                    items@[i as int]@,
                ));
                assert(items@.take(i + 1).drop_last() =~= items@.take(i as int));
                i = i + 1;
            }
            assert(items@.take(i as int) =~= items@);
            array_value(values)
        },
        Json::Object(entries) => {
            let mut members = no_members();
            let mut i: usize = 0;
            while i < entries.len()
                invariant
                    i <= entries.len(),
                    *json == Json::Object(*entries),
                    members_model(members) == crate::json::entries_model(entries@.take(i as int)),
                decreases entries.len() - i,
            {
                assert(decreases_to!(*json => json->Object_0));
                assert(decreases_to!(*entries => entries@));
                assert(decreases_to!(entries@ => entries@[i as int]));
                assert(decreases_to!(entries@[i as int] => entries@[i as int].1));
                let value = to_value(&entries[i].1);
                insert_member(&mut members, entries[i].0.clone(), value);
                assert(entries@.take(i + 1).drop_last() =~= entries@.take(i as int));
                i = i + 1;
            }
            assert(entries@.take(i as int) =~= entries@);
            object_value(members)
        },
    }
}

/// The text over which a payload is digested: what `serde_json` writes for
/// it, or the empty text where it writes nothing.
pub open spec fn canonical_text(payload: JsonModel) -> Seq<char> {
    match written_text(payload) {
        Some(text) => text,
        None => Seq::empty(),
    }
}

/// Writes the canonical text of a payload.
pub fn canonical(payload: &Json) -> (text: String)
    ensures
        text@ == canonical_text(payload@),
        match written_text(payload@) {
            Some(written) => text@ == written,
            None => text@.len() == 0,
        },
{
    let value = to_value(payload);
    match write_value(&value) {
        Ok(text) => text,
        Err(_) => String::new(),
    }
}

/// Where `serde_json` writes a text for a payload, all of that text is the one
/// that is digested, and nothing else.
pub proof fn canonical_text_is_all_that_is_written(payload: JsonModel, written: Seq<char>)
    requires
        written_text(payload) == Some(written),
    ensures
        canonical_text(payload) == written,
{
}

} // verus!
