//! Summaries of tool results.

use crate::json::{
    entry_of, items_model, json_model, last_entry_counts, later_entries_count, lemma_items_model, Json,
    JsonModel,
};
use crate::text_order::{
    add_text, ascending, ascending_texts_are_determined, ascending_texts_rise, is_among,
};
use vstd::prelude::*;
use vstd::utf8::encode_utf8;

verus! {

/// What a record tells of a tool result without holding it.
#[derive(Debug, Clone)]
pub struct ResultSummary {
    /// Whether the tool reported a failure.
    pub is_error: bool,
    /// How many content items the result has.
    pub content_count: usize,
    /// The types of the content items, each once, in ascending order.
    pub content_types: Vec<String>,
}

/// Whether a result is marked as a failure.
pub open spec fn reports_error(result: JsonModel) -> bool {
    result.member("isError"@) == Some(JsonModel::Bool(true))
}

/// The content items of a result.
pub open spec fn content_items(result: JsonModel) -> Seq<JsonModel> {
    match result.member("content"@) {
        Some(JsonModel::Array(items)) => items,
        _ => Seq::empty(),
    }
}

/// Whether a content item names a type as its own.
pub open spec fn has_type(item: JsonModel, name: Seq<char>) -> bool {
    item.member("type"@) == Some(JsonModel::String(name))
}

/// Whether some content item of a result has a type.
pub open spec fn some_item_has_type(items: Seq<JsonModel>, name: Seq<char>) -> bool {
    exists|i: int| 0 <= i < items.len() && has_type(#[trigger] items[i], name)
}

impl ResultSummary {
    /// Whether this says the same as another summary.
    pub open spec fn same_as(self, other: ResultSummary) -> bool {
        &&& self.is_error == other.is_error
        &&& self.content_count == other.content_count
        &&& self.content_types@.len() == other.content_types@.len()
        &&& forall|i: int|
            0 <= i < self.content_types@.len() ==> (#[trigger] self.content_types@[i])@
                == other.content_types@[i]@
    }

    /// Whether this is the summary of a result.
    pub open spec fn summarizes(self, result: JsonModel) -> bool {
        &&& self.is_error == reports_error(result)
        &&& self.content_count == content_items(result).len()
        &&& ascending(self.content_types@)
        &&& forall|name: Seq<char>| #[trigger]
            is_among(self.content_types@, name) <==> some_item_has_type(
                content_items(result),
                name,
            )
    }
}

/// A result has one summary only.
pub proof fn summary_is_determined(a: ResultSummary, b: ResultSummary, result: JsonModel)
    requires
        a.summarizes(result),
        b.summarizes(result),
    ensures
        a.same_as(b),
{
    ascending_texts_are_determined(a.content_types@, b.content_types@);
}

/// The types that content items name, each once, in ascending order.
fn types_of(items: &Vec<Json>) -> (types: Vec<String>)
    ensures
        ascending(types@),
        forall|name: Seq<char>| #[trigger]
            is_among(types@, name) <==> some_item_has_type(items_model(items@), name),
{
    let mut types: Vec<String> = Vec::new();
    let mut i: usize = 0;
    proof {
        lemma_items_model(items@);
    }
    let ghost models = items_model(items@);
    while i < items.len()
        invariant
            i <= items.len(),
            models.len() == items.len(),
            forall|k: int| 0 <= k < items.len() ==> #[trigger] models[k] == json_model(items@[k]),
            ascending(types@),
            forall|name: Seq<char>| #[trigger]
                is_among(types@, name) <==> some_item_has_type(models.take(i as int), name),
        decreases items.len() - i,
    {
        let ghost before = types@;
        let ghost item = models[i as int];
        assert(item == items@[i as int]@);
        match items[i].get("type") {
            Some(value) => {
                match value.as_str() {
                    Some(name) => {
                        add_text(&mut types, name.to_owned());
                    },
                    None => {},
                }
            },
            None => {},
        }
        proof {
            let seen = models.take(i as int);
            let now = models.take(i + 1);
            assert forall|name: Seq<char>| #[trigger]
                is_among(types@, name) <==> some_item_has_type(now, name) by {
                assert(is_among(types@, name) <==> is_among(before, name) || has_type(item, name));
                if some_item_has_type(seen, name) {
                    let k = choose|k: int| 0 <= k < seen.len() && has_type(#[trigger] seen[k], name);
                    assert(has_type(now[k], name));
                }
                if has_type(item, name) {
                    assert(has_type(now[i as int], name));
                }
                if some_item_has_type(now, name) {
                    let k = choose|k: int| 0 <= k < now.len() && has_type(#[trigger] now[k], name);
                    if k < i {
                        assert(has_type(seen[k], name));
                    }
                }
            }
        }
        i = i + 1;
    }
    assert(models.take(i as int) =~= models);
    types
}

/// Summarizes a tool result.
pub fn summarize(result: &Json) -> (summary: ResultSummary)
    ensures
        summary.summarizes(result@),
{
    let is_error: bool = match result.get("isError") {
        Some(flag) => match flag.as_bool() {
            Some(b) => b,
            None => false,
        },
        None => false,
    };
    match result.get("content") {
        Some(content) => match content.as_array() {
            Some(items) => {
                proof {
                    lemma_items_model(items@);
                }
                ResultSummary {
                    is_error,
                    content_count: items.len(),
                    content_types: types_of(items),
                }
            },
            None => ResultSummary { is_error, content_count: 0, content_types: Vec::new() },
        },
        None => ResultSummary { is_error, content_count: 0, content_types: Vec::new() },
    }
}

/// A summary says that a call failed exactly if the result is an object whose
/// `isError` is the boolean `true`, whatever else the result holds. Where that
/// key occurs twice, the later entry counts.
pub proof fn failures_are_told(summary: ResultSummary, result: Json)
    requires
        summary.summarizes(result@),
    ensures
        summary.is_error <==> (result is Object && exists|k: int|
            {
                &&& 0 <= k < result->Object_0@.len()
                &&& (#[trigger] result->Object_0@[k]).0@ == "isError"@
                &&& result->Object_0@[k].1 == Json::Bool(true)
                &&& forall|j: int|
                    k < j < result->Object_0@.len() ==> (#[trigger] result->Object_0@[j]).0@
                        != "isError"@
            }),
{
    later_entries_count(result, "isError"@);
    if result is Object {
        assert forall|k: int|
            {
                &&& 0 <= k < result->Object_0@.len()
                &&& (#[trigger] result->Object_0@[k]).0@ == "isError"@
                &&& result->Object_0@[k].1 == Json::Bool(true)
                &&& forall|j: int|
                    k < j < result->Object_0@.len() ==> (#[trigger] result->Object_0@[j]).0@
                        != "isError"@
            } implies summary.is_error by {
            last_entry_counts(result, k);
        }
    }
}

/// A summary counts the elements of the array that the result holds as its
/// `content`. A result that holds no array there has no content items.
pub proof fn content_items_are_counted(summary: ResultSummary, result: Json)
    requires
        summary.summarizes(result@),
    ensures
        result is Object ==> forall|k: int|
            {
                &&& 0 <= k < result->Object_0@.len()
                &&& (#[trigger] result->Object_0@[k]).0@ == "content"@
                &&& forall|j: int|
                    k < j < result->Object_0@.len() ==> (#[trigger] result->Object_0@[j]).0@
                        != "content"@
            } ==> summary.content_count == match result->Object_0@[k].1 {
                Json::Array(items) => items@.len(),
                _ => 0,
            },
        result is Object && (forall|k: int|
            0 <= k < result->Object_0@.len() ==> (#[trigger] result->Object_0@[k]).0@ != "content"@)
            ==> summary.content_count == 0,
        !(result is Object) ==> summary.content_count == 0,
{
    later_entries_count(result, "content"@);
    if result is Object {
        assert forall|k: int|
            {
                &&& 0 <= k < result->Object_0@.len()
                &&& (#[trigger] result->Object_0@[k]).0@ == "content"@
                &&& forall|j: int|
                    k < j < result->Object_0@.len() ==> (#[trigger] result->Object_0@[j]).0@
                        != "content"@
            } implies summary.content_count == match result->Object_0@[k].1 {
            Json::Array(items) => items@.len(),
            _ => 0,
        } by {
            last_entry_counts(result, k);
            if result->Object_0@[k].1 is Array {
                lemma_items_model(result->Object_0@[k].1->Array_0@);
            }
        }
    }
}

/// Every type that a summary lists is the text that some element of the
/// result's `content` holds as its `type`.
pub proof fn listed_types_are_those_of_items(summary: ResultSummary, result: Json, t: int)
    requires
        summary.summarizes(result@),
        0 <= t < summary.content_types@.len(),
    ensures
        entry_of(result, "content"@) matches Some(Json::Array(items)) && exists|i: int|
            {
                &&& 0 <= i < items@.len()
                &&& entry_of(#[trigger] items@[i], "type"@) matches Some(Json::String(name))
                    && name@ == summary.content_types@[t]@
            },
{
    let name = summary.content_types@[t]@;
    assert(is_among(summary.content_types@, name));
    assert(some_item_has_type(content_items(result@), name));
    later_entries_count(result, "content"@);
    let items = entry_of(result, "content"@)->0->Array_0;
    lemma_items_model(items@);
    let i = choose|i: int|
        0 <= i < content_items(result@).len() && has_type(
            #[trigger] content_items(result@)[i],
            name,
        );
    assert(items_model(items@)[i] == json_model(items@[i]));
    later_entries_count(items@[i], "type"@);
}

/// Every text that an element of the result's `content` holds as its `type` is
/// listed in the summary.
pub proof fn types_of_items_are_listed(
    summary: ResultSummary,
    result: Json,
    items: Vec<Json>,
    i: int,
    name: String,
)
    requires
        summary.summarizes(result@),
        entry_of(result, "content"@) == Some(Json::Array(items)),
        0 <= i < items@.len(),
        entry_of(items@[i], "type"@) == Some(Json::String(name)),
    ensures
        exists|t: int|
            0 <= t < summary.content_types@.len() && (#[trigger] summary.content_types@[t])@
                == name@,
{
    later_entries_count(result, "content"@);
    lemma_items_model(items@);
    later_entries_count(items@[i], "type"@);
    assert(items_model(items@)[i] == json_model(items@[i]));
    assert(has_type(content_items(result@)[i], name@));
    assert(some_item_has_type(content_items(result@), name@));
    assert(is_among(summary.content_types@, name@));
}

/// The types in a summary rise in the order of their bytes in UTF-8: of two of
/// them the earlier one ends first, or has the smaller byte where they part. So
/// none is listed twice.
pub proof fn listed_types_rise(summary: ResultSummary, result: Json, s: int, t: int)
    requires
        summary.summarizes(result@),
        0 <= s < t < summary.content_types@.len(),
    ensures
        ({
            let a = encode_utf8(summary.content_types@[s]@);
            let b = encode_utf8(summary.content_types@[t]@);
            exists|k: int|
                {
                    &&& 0 <= k < b.len()
                    &&& k <= a.len()
                    &&& a.take(k) == #[trigger] b.take(k)
                    &&& k == a.len() || a[k] < b[k]
                }
        }),
        summary.content_types@[s]@ != summary.content_types@[t]@,
{
    ascending_texts_rise(summary.content_types@, s, t);
}

} // verus!
