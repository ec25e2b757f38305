//! The texts in the payload of a point: JSON values as `serde_json` holds them.

use vstd::prelude::*;
use serde_json::Value;

verus! {

/// A JSON value of `serde_json`.
#[verifier::external_type_specification]
#[verifier::external_body]
pub struct ExValue(Value);

/// The text of a JSON value that is a string; nothing for any other value.
pub uninterp spec fn json_text(value: Value) -> Option<Seq<char>>;

/// The items of a JSON value that is an array; nothing for any other value.
pub uninterp spec fn json_items(value: Value) -> Option<Seq<Value>>;

/// `Value::as_str`: the text of a value that is a string, nothing otherwise.
pub assume_specification[ Value::as_str ](value: &Value) -> (r: Option<&str>)
    ensures
        match r {
            Some(text) => json_text(*value) == Some(text@),
            None => json_text(*value) is None,
        },
;

/// `Value::as_array`: the vector of a value that is an array, nothing otherwise.
pub assume_specification[ Value::as_array ](value: &Value) -> (r: Option<&Vec<Value>>)
    ensures
        match r {
            Some(items) => json_items(*value) == Some(items@),
            None => json_items(*value) is None,
        },
;

/// The texts of the strings among the first `count` of `items`, in their order.
pub open spec fn texts_among(items: Seq<Value>, count: nat) -> Seq<Seq<char>>
    decreases count,
{
    if count == 0 {
        Seq::empty()
    } else {
        match json_text(items[count - 1]) {
            Some(text) => texts_among(items, (count - 1) as nat).push(text),
            None => texts_among(items, (count - 1) as nat),
        }
    }
}

/// The texts that one value of a payload gives: the strings among its items
/// where it is an array, its own text where it is a string, nothing otherwise.
pub open spec fn texts_of_value(value: Value) -> Seq<Seq<char>> {
    match json_items(value) {
        Some(items) => texts_among(items, items.len()),
        None => match json_text(value) {
            Some(text) => seq![text],
            None => Seq::empty(),
        },
    }
}

/// The texts that the first `count` values of a payload give, in their order.
pub open spec fn texts_of_payload(payload: Seq<&Value>, count: nat) -> Seq<Seq<char>>
    decreases count,
{
    if count == 0 {
        Seq::empty()
    } else {
        texts_of_payload(payload, (count - 1) as nat) + texts_of_value(*payload[count - 1])
    }
}

} // verus!
