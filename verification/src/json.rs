//! JSON payloads as the audit trail reads them.

use vstd::prelude::*;

verus! {

/// The JSON number type of `serde_json`. The audit trail never looks into a
/// number: it only carries one from a payload to a record.
#[verifier::external_type_specification]
#[verifier::external_body]
pub struct ExNumber(serde_json::Number);

/// `serde_json::Number::clone` copies the number it is given.
pub assume_specification[ <serde_json::Number as Clone>::clone ](
    number: &serde_json::Number,
) -> (copy: serde_json::Number)
    ensures
        copy == *number,
;

/// A JSON payload: the arguments or the result of a tool call.
///
/// An object lists its entries in the order of the map they come from. Where
/// a key occurs twice, the later entry counts.
#[derive(Debug, PartialEq)]
pub enum Json {
    Null,
    Bool(bool),
    Number(serde_json::Number),
    String(String),
    Array(Vec<Json>),
    Object(Vec<(String, Json)>),
}

/// What a payload says, free of how its strings and lists are stored.
pub enum JsonModel {
    Null,
    Bool(bool),
    Number(serde_json::Number),
    String(Seq<char>),
    Array(Seq<JsonModel>),
    Object(Map<Seq<char>, JsonModel>),
}

/// The model of one payload.
pub open spec fn json_model(value: Json) -> JsonModel
    decreases value,
{
    match value {
        Json::Null => JsonModel::Null,
        Json::Bool(b) => JsonModel::Bool(b),
        Json::Number(n) => JsonModel::Number(n),
        Json::String(s) => JsonModel::String(s@),
        Json::Array(items) => JsonModel::Array(items_model(items@)),
        Json::Object(entries) => JsonModel::Object(entries_model(entries@)),
    }
}

/// The models of the elements of an array, in order.
pub open spec fn items_model(items: Seq<Json>) -> Seq<JsonModel>
    decreases items,
{
    if items.len() == 0 {
        Seq::empty()
    } else {
        items_model(items.drop_last()).push(json_model(items.last()))
    }
}

/// The map that the entries of an object make, a later entry replacing an
/// earlier one with the same key.
pub open spec fn entries_model(entries: Seq<(String, Json)>) -> Map<Seq<char>, JsonModel>
    decreases entries,
{
    if entries.len() == 0 {
        Map::empty()
    } else {
        entries_model(entries.drop_last()).insert(
            entries.last().0@,
            json_model(entries.last().1),
        )
    }
}

impl View for Json {
    type V = JsonModel;

    open spec fn view(&self) -> JsonModel {
        json_model(*self)
    }
}

impl JsonModel {
    /// The member `key` of an object; nothing else has members.
    pub open spec fn member(self, key: Seq<char>) -> Option<JsonModel> {
        match self {
            JsonModel::Object(entries) => if entries.contains_key(key) {
                Some(entries[key])
            } else {
                None
            },
            _ => None,
        }
    }
}

/// What the last of some entries with a key holds.
pub open spec fn last_entry(entries: Seq<(String, Json)>, key: Seq<char>) -> Option<Json>
    decreases entries.len(),
{
    if entries.len() == 0 {
        None
    } else if entries.last().0@ == key {
        Some(entries.last().1)
    } else {
        last_entry(entries.drop_last(), key)
    }
}

/// What a payload holds at a key, as it is stored; only an object holds
/// anything there.
pub open spec fn entry_of(value: Json, key: Seq<char>) -> Option<Json> {
    match value {
        Json::Object(entries) => last_entry(entries@, key),
        _ => None,
    }
}

/// The model of an array has one element for each element of the array.
pub proof fn lemma_items_model(items: Seq<Json>)
    ensures
        items_model(items).len() == items.len(),
        forall|i: int|
            0 <= i < items.len() ==> #[trigger] items_model(items)[i] == json_model(items[i]),
    decreases items.len(),
{
    if items.len() > 0 {
        lemma_items_model(items.drop_last());
    }
}

/// The last entry with a key decides what the object holds there.
pub proof fn lemma_entries_model_last(entries: Seq<(String, Json)>, k: int)
    requires
        0 <= k < entries.len(),
        forall|i: int| k < i < entries.len() ==> (#[trigger] entries[i]).0@ != entries[k].0@,
    ensures
        entries_model(entries).contains_key(entries[k].0@),
        entries_model(entries)[entries[k].0@] == json_model(entries[k].1),
    decreases entries.len(),
{
    if k < entries.len() - 1 {
        assert(entries[entries.len() - 1].0@ != entries[k].0@);
        lemma_entries_model_last(entries.drop_last(), k);
    }
}

/// A key that no entry has is not in the object.
pub proof fn lemma_entries_model_absent(entries: Seq<(String, Json)>, key: Seq<char>)
    requires
        forall|i: int| 0 <= i < entries.len() ==> (#[trigger] entries[i]).0@ != key,
    ensures
        !entries_model(entries).contains_key(key),
    decreases entries.len(),
{
    if entries.len() > 0 {
        assert(entries[entries.len() - 1].0@ != key);
        assert forall|i: int| 0 <= i < entries.drop_last().len() implies (
        #[trigger] entries.drop_last()[i]).0@ != key by {
            assert(entries.drop_last()[i] == entries[i]);
        }
        lemma_entries_model_absent(entries.drop_last(), key);
    }
}

proof fn lemma_last_entry(entries: Seq<(String, Json)>, key: Seq<char>)
    ensures
        match last_entry(entries, key) {
            Some(held) => {
                &&& entries_model(entries).contains_key(key)
                &&& entries_model(entries)[key] == json_model(held)
                &&& exists|k: int|
                    {
                        &&& 0 <= k < entries.len()
                        &&& (#[trigger] entries[k]).0@ == key
                        &&& entries[k].1 == held
                        &&& forall|j: int| k < j < entries.len() ==> (#[trigger] entries[j]).0@ != key
                    }
            },
            None => {
                &&& !entries_model(entries).contains_key(key)
                &&& forall|k: int| 0 <= k < entries.len() ==> (#[trigger] entries[k]).0@ != key
            },
        },
    decreases entries.len(),
{
    if entries.len() > 0 {
        let front = entries.drop_last();
        let last = entries.len() - 1;
        if entries[last].0@ != key {
            lemma_last_entry(front, key);
            if last_entry(front, key) is Some {
                let held = last_entry(front, key)->0;
                let k = choose|k: int|
                    {
                        &&& 0 <= k < front.len()
                        &&& (#[trigger] front[k]).0@ == key
                        &&& front[k].1 == held
                        &&& forall|j: int| k < j < front.len() ==> (#[trigger] front[j]).0@ != key
                    };
                assert(entries[k].0@ == key);
                assert forall|j: int| k < j < entries.len() implies (#[trigger] entries[j]).0@
                    != key by {
                    if j < last {
                        assert(front[j].0@ != key);
                    }
                }
            } else {
                assert forall|k: int| 0 <= k < entries.len() implies (#[trigger] entries[k]).0@
                    != key by {
                    if k < last {
                        assert(front[k].0@ != key);
                    }
                }
            }
        }
    }
}

/// Of the entries of an object with a key, the last one is what the object
/// holds there. An object without such an entry holds nothing there, and
/// neither does a payload that is no object.
pub proof fn later_entries_count(value: Json, key: Seq<char>)
    ensures
        match entry_of(value, key) {
            Some(held) => {
                &&& value is Object
                &&& exists|k: int|
                    {
                        &&& 0 <= k < value->Object_0@.len()
                        &&& (#[trigger] value->Object_0@[k]).0@ == key
                        &&& value->Object_0@[k].1 == held
                        &&& forall|j: int|
                            k < j < value->Object_0@.len() ==> (#[trigger] value->Object_0@[j]).0@
                                != key
                    }
                &&& value@.member(key) == Some(held@)
            },
            None => {
                &&& value is Object ==> forall|k: int|
                    0 <= k < value->Object_0@.len() ==> (#[trigger] value->Object_0@[k]).0@ != key
                &&& value@.member(key) is None
            },
        },
{
    if value is Object {
        lemma_last_entry(value->Object_0@, key);
    }
}

/// The entry behind which no other has its key is what an object holds at that
/// key.
pub proof fn last_entry_counts(value: Json, k: int)
    requires
        value is Object,
        0 <= k < value->Object_0@.len(),
        forall|j: int|
            k < j < value->Object_0@.len() ==> (#[trigger] value->Object_0@[j]).0@
                != value->Object_0@[k].0@,
    ensures
        entry_of(value, value->Object_0@[k].0@) == Some(value->Object_0@[k].1),
        value@.member(value->Object_0@[k].0@) == Some(value->Object_0@[k].1@),
{
    let key = value->Object_0@[k].0@;
    later_entries_count(value, key);
    let held = entry_of(value, key)->0;
    let m = choose|m: int|
        {
            &&& 0 <= m < value->Object_0@.len()
            &&& (#[trigger] value->Object_0@[m]).0@ == key
            &&& value->Object_0@[m].1 == held
            &&& forall|j: int|
                m < j < value->Object_0@.len() ==> (#[trigger] value->Object_0@[j]).0@ != key
        };
    assert(value->Object_0@[k].0@ == key);
    assert(m == k);
}

/// What a payload says is what it holds: null, a boolean, a number or a text
/// itself, an array its elements in order, and an object at each key what its
/// last entry with that key holds.
pub proof fn payloads_say_what_they_hold(value: Json)
    ensures
        match value {
            Json::Null => value@ == JsonModel::Null,
            Json::Bool(b) => value@ == JsonModel::Bool(b),
            Json::Number(n) => value@ == JsonModel::Number(n),
            Json::String(s) => value@ == JsonModel::String(s@),
            Json::Array(items) => {
                &&& value@ is Array
                &&& value@->Array_0.len() == items@.len()
                &&& forall|i: int|
                    0 <= i < items@.len() ==> #[trigger] value@->Array_0[i] == items@[i]@
            },
            Json::Object(_) => {
                &&& value@ is Object
                &&& forall|key: Seq<char>|
                    (#[trigger] value@->Object_0.contains_key(key)) <==> entry_of(value, key) is Some
                &&& forall|key: Seq<char>| #[trigger]
                    value@->Object_0.contains_key(key) ==> value@->Object_0[key] == entry_of(
                        value,
                        key,
                    )->0@
            },
        },
{
    if value is Array {
        lemma_items_model(value->Array_0@);
    }
    if value is Object {
        assert forall|key: Seq<char>|
            ((#[trigger] value@->Object_0.contains_key(key)) <==> entry_of(value, key) is Some) && (
            value@->Object_0.contains_key(key) ==> value@->Object_0[key] == entry_of(
                value,
                key,
            )->0@) by {
            later_entries_count(value, key);
        }
    }
}

/// What payloads say is told apart by what they are: null, booleans, numbers
/// and texts by themselves, arrays by their elements in order.
pub proof fn models_tell_payloads_apart(a: Json, b: Json)
    requires
        a@ == b@,
    ensures
        a is Null <==> b is Null,
        a is Bool <==> b is Bool,
        a is Number <==> b is Number,
        a is String <==> b is String,
        a is Array <==> b is Array,
        a is Object <==> b is Object,
        a is Bool ==> a->Bool_0 == b->Bool_0,
        a is Number ==> a->Number_0 == b->Number_0,
        a is String ==> a->String_0@ == b->String_0@,
        a is Array ==> {
            &&& a->Array_0@.len() == b->Array_0@.len()
            &&& forall|i: int|
                0 <= i < a->Array_0@.len() ==> (#[trigger] a->Array_0@[i])@ == b->Array_0@[i]@
        },
        forall|key: Seq<char>|
            (#[trigger] entry_of(a, key)) is Some <==> entry_of(b, key) is Some,
        forall|key: Seq<char>|
            (#[trigger] entry_of(a, key)) is Some ==> entry_of(a, key)->0@ == entry_of(b, key)->0@,
{
    if a is Array {
        lemma_items_model(a->Array_0@);
        lemma_items_model(b->Array_0@);
        assert forall|i: int| 0 <= i < a->Array_0@.len() implies (#[trigger] a->Array_0@[i])@
            == b->Array_0@[i]@ by {
            assert(items_model(a->Array_0@)[i] == json_model(a->Array_0@[i]));
            assert(items_model(b->Array_0@)[i] == json_model(b->Array_0@[i]));
        }
    }
    assert forall|key: Seq<char>|
        ((#[trigger] entry_of(a, key)) is Some <==> entry_of(b, key) is Some) && (entry_of(
            a,
            key,
        ) is Some ==> entry_of(a, key)->0@ == entry_of(b, key)->0@) by {
        later_entries_count(a, key);
        later_entries_count(b, key);
    }
}

/// A copy of a payload.
fn copy_json(value: &Json) -> (copy: Json)
    ensures
        copy@ == value@,
    decreases *value,
{
    match value {
        Json::Null => Json::Null,
        Json::Bool(b) => Json::Bool(*b),
        Json::Number(n) => Json::Number(n.clone()),
        Json::String(s) => Json::String(s.clone()),
        Json::Array(items) => {
            let mut copies: Vec<Json> = Vec::new();
            let mut i: usize = 0;
            while i < items.len()
                invariant
                    i <= items.len(),
                    *value == Json::Array(*items),
                    items_model(copies@) == items_model(items@.take(i as int)),
                decreases items.len() - i,
            {
                assert(decreases_to!(*value => value->Array_0));
                assert(decreases_to!(*items => items@));
                assert(decreases_to!(items@ => items@[i as int]));
                let copy = copy_json(&items[i]);
                let ghost before = copies@;
                copies.push(copy);
                assert(copies@.drop_last() =~= before);
                assert(items@.take(i + 1).drop_last() =~= items@.take(i as int));
                i = i + 1;
            }
            assert(items@.take(i as int) =~= items@);
            Json::Array(copies)
        },
        Json::Object(entries) => {
            let mut copies: Vec<(String, Json)> = Vec::new();
            let mut i: usize = 0;
            while i < entries.len()
                invariant
                    i <= entries.len(),
                    *value == Json::Object(*entries),
                    entries_model(copies@) == entries_model(entries@.take(i as int)),
                decreases entries.len() - i,
            {
                assert(decreases_to!(*value => value->Object_0));
                assert(decreases_to!(*entries => entries@));
                assert(decreases_to!(entries@ => entries@[i as int]));
                assert(decreases_to!(entries@[i as int] => entries@[i as int].1));
                let copy = copy_json(&entries[i].1);
                let ghost before = copies@;
                copies.push((entries[i].0.clone(), copy));
                assert(copies@.drop_last() =~= before);
                assert(entries@.take(i + 1).drop_last() =~= entries@.take(i as int));
                i = i + 1;
            }
            assert(entries@.take(i as int) =~= entries@);
            Json::Object(copies)
        },
    }
}

impl Clone for Json {
    fn clone(&self) -> (copy: Self)
        ensures
            copy@ == self@,
    {
        copy_json(self)
    }
}

/// The value at a key among the entries of an object.
pub fn find_entry<'a>(entries: &'a Vec<(String, Json)>, key: &str) -> (found: Option<&'a Json>)
    ensures
        found is Some <==> entries_model(entries@).contains_key(key@),
        found matches Some(value) ==> value@ == entries_model(entries@)[key@],
        match found {
            Some(value) => last_entry(entries@, key@) == Some(*value),
            None => last_entry(entries@, key@) is None,
        },
{
    let wanted: String = key.to_owned();
    let mut i: usize = entries.len();
    while i > 0
        invariant
            i <= entries.len(),
            wanted@ == key@,
            forall|j: int| i <= j < entries.len() ==> (#[trigger] entries@[j]).0@ != key@,
        decreases i,
    {
        i = i - 1;
        if entries[i].0 == wanted {
            proof {
                lemma_entries_model_last(entries@, i as int);
                lemma_last_entry(entries@, key@);
            }
            return Some(&entries[i].1);
        }
    }
    proof {
        lemma_entries_model_absent(entries@, key@);
        lemma_last_entry(entries@, key@);
    }
    None
}

impl Json {
    /// The member `key`, if this is an object that has one.
    pub fn get(&self, key: &str) -> (found: Option<&Json>)
        ensures
            found is Some <==> self@.member(key@) is Some,
            found matches Some(value) ==> value@ == self@.member(key@)->0,
            match found {
                Some(value) => entry_of(*self, key@) == Some(*value),
                None => entry_of(*self, key@) is None,
            },
    {
        match self {
            Json::Object(entries) => find_entry(entries, key),
            _ => None,
        }
    }

    /// The boolean, if this is one.
    pub fn as_bool(&self) -> (b: Option<bool>)
        ensures
            b == match self@ {
                JsonModel::Bool(v) => Some(v),
                _ => None,
            },
    {
        match self {
            Json::Bool(b) => Some(*b),
            _ => None,
        }
    }

    /// The text, if this is a string.
    pub fn as_str(&self) -> (s: Option<&str>)
        ensures
            s is Some <==> self@ is String,
            s matches Some(text) ==> self@ == JsonModel::String(text@),
    {
        match self {
            Json::String(s) => Some(s.as_str()),
            _ => None,
        }
    }

    /// The elements, if this is an array.
    pub fn as_array(&self) -> (items: Option<&Vec<Json>>)
        ensures
            items is Some <==> self@ is Array,
            items matches Some(list) ==> self@ == JsonModel::Array(items_model(list@)),
    {
        match self {
            Json::Array(items) => Some(items),
            _ => None,
        }
    }
}

} // verus!
