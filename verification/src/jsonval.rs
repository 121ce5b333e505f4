//! The trusted boundary around `serde_json::Value`.
//!
//! A JSON value is opaque here; the library speaks of it through a few named
//! functions of the value: its compact serialized text, and the pieces the
//! pipeline reads (object entries, array elements, string fields). Every name
//! is a function of the value alone: serde_json's maps are ordered, so
//! serialization and iteration are deterministic per value.

use vstd::prelude::*;

verus! {

#[verifier::external_type_specification]
#[verifier::external_body]
pub struct ExValue(serde_json::Value);

/// The compact JSON text of a value, as serde_json's `Display` writes it.
pub uninterp spec fn json_text(v: serde_json::Value) -> Seq<char>;

/// Whether the value is a JSON object.
pub uninterp spec fn json_is_object(v: serde_json::Value) -> bool;

/// The object's entries in iteration order, each key with the compact text of
/// its value; `None` when the value is not an object.
pub uninterp spec fn json_entries(v: serde_json::Value) -> Option<Seq<(Seq<char>, Seq<char>)>>;

/// The array's elements as compact texts, in order; `None` when the value is
/// not an array.
pub uninterp spec fn json_arr(v: serde_json::Value) -> Option<Seq<Seq<char>>>;

/// The compact text of the field `key`: `Some` exactly when the value is an
/// object that has that key.
pub uninterp spec fn json_field_text(v: serde_json::Value, key: Seq<char>) -> Option<Seq<char>>;

/// The content of the string field `key`: `Some` exactly when the value is an
/// object, has that key, and the field is a JSON string.
pub uninterp spec fn json_field_str(v: serde_json::Value, key: Seq<char>) -> Option<Seq<char>>;

/// What `serde_json::from_str::<Value>` makes of a text: the compact text of
/// the parsed value, or `None` when the text is not valid JSON. Parsing is a
/// function of the text alone.
pub uninterp spec fn parsed_json(text: Seq<char>) -> Option<Seq<char>>;

/// The top-level entries of the object a text parses to — each key with the
/// compact text of its value, in iteration order — or `None` when the text is
/// not valid JSON or not an object. A function of the text alone.
pub uninterp spec fn parsed_entries(text: Seq<char>) -> Option<Seq<(Seq<char>, Seq<char>)>>;

/// Whether the `k`-th element of the array value is a JSON object.
pub uninterp spec fn json_elem_is_object(v: serde_json::Value, k: int) -> bool;

/// The compact text of the field `key` of the `k`-th element of the array
/// value, under the same conditions as [`json_field_text`].
pub uninterp spec fn json_elem_field_text(
    v: serde_json::Value,
    k: int,
    key: Seq<char>,
) -> Option<Seq<char>>;

/// The content of the string field `key` of the `k`-th element of the array
/// value, under the same conditions as [`json_field_str`].
pub uninterp spec fn json_elem_field_str(
    v: serde_json::Value,
    k: int,
    key: Seq<char>,
) -> Option<Seq<char>>;

/// The element compact texts of the JSON array that a text denotes, or
/// `None` when the text does not denote an array. Compact serialization
/// round-trips through parsing, so this is a function of the text alone.
pub uninterp spec fn arr_texts_of(text: Seq<char>) -> Option<Seq<Seq<char>>>;

/// What `serde_json::to_string_pretty` writes for a value: the fully
/// pretty-printed form (two-space indent at every depth), a function of the
/// value alone.
pub uninterp spec fn json_pretty(v: serde_json::Value) -> Seq<char>;

/// Relies on `serde_json::from_str::<Value>`: parses a text into a value.
/// The parsed value is a function of the text, so the names of its parts are
/// too.
#[verifier::external_body]
pub fn parse_json(text: &str) -> (r: Option<serde_json::Value>)
    ensures
        r is None <==> parsed_json(text@) is None,
        r is None ==> parsed_entries(text@) is None,
        r matches Some(v) ==> parsed_json(text@) == Some(json_text(v)),
        r matches Some(v) ==> parsed_entries(text@) == json_entries(v),
{
    match serde_json::from_str::<serde_json::Value>(text) {
        Ok(v) => Some(v),
        Err(_) => None,
    }
}

/// Relies on `serde_json::to_string_pretty` for `Value` (for a `Value` this
/// serialization cannot fail): the pretty-printed text.
#[verifier::external_body]
pub fn value_pretty(v: &serde_json::Value) -> (r: String)
    ensures
        r@ == json_pretty(*v),
{
    match serde_json::to_string_pretty(v) {
        Ok(t) => t,
        Err(_) => String::new(),
    }
}

/// Relies on `serde_json::Value::clone`: a faithful copy, equal to the
/// original value.
#[verifier::external_body]
pub fn value_clone(v: &serde_json::Value) -> (r: serde_json::Value)
    ensures
        r == *v,
{
    v.clone()
}

/// Relies on `serde_json::Value::is_object`.
#[verifier::external_body]
pub fn value_is_object(v: &serde_json::Value) -> (r: bool)
    ensures
        r == json_is_object(*v),
{
    v.is_object()
}

/// Relies on `serde_json::Value::as_object` and the map's ordered iteration:
/// the object's entries, keys paired with their values.
#[verifier::external_body]
pub fn value_entries(v: &serde_json::Value) -> (r: Option<Vec<(String, serde_json::Value)>>)
    ensures
        r is None <==> json_entries(*v) is None,
        r matches Some(es) ==> json_entries(*v) matches Some(m) && m.len() == es@.len()
            && (forall|i: int| 0 <= i < es@.len()
                ==> m[i] == (#[trigger] es@[i].0@, json_text(es@[i].1))),
{
    match v.as_object() {
        Some(m) => Some(m.iter().map(|(k, val)| (k.clone(), val.clone())).collect()),
        None => None,
    }
}

/// Relies on `serde_json::Value::as_array`: the array's elements, in order.
/// Every named part of an element is a function of the array value and the
/// index, and the element texts are a function of the array's own compact
/// text (compact serialization round-trips through parsing).
#[verifier::external_body]
pub fn value_items(v: &serde_json::Value) -> (r: Option<Vec<serde_json::Value>>)
    ensures
        r is None <==> json_arr(*v) is None,
        r is None ==> arr_texts_of(json_text(*v)) is None,
        r matches Some(items) ==> json_arr(*v) matches Some(ts) && ts.len() == items@.len()
            && (forall|i: int| 0 <= i < items@.len() ==> ts[i] == json_text(#[trigger] items@[i])),
        r matches Some(items) ==> arr_texts_of(json_text(*v)) == json_arr(*v),
        r matches Some(items) ==> forall|i: int| 0 <= i < items@.len()
            ==> json_is_object(#[trigger] items@[i]) == json_elem_is_object(*v, i),
        r matches Some(items) ==> forall|i: int, key: Seq<char>| 0 <= i < items@.len()
            ==> #[trigger] json_field_text(items@[i], key) == json_elem_field_text(*v, i, key),
        r matches Some(items) ==> forall|i: int, key: Seq<char>| 0 <= i < items@.len()
            ==> #[trigger] json_field_str(items@[i], key) == json_elem_field_str(*v, i, key),
{
    match v.as_array() {
        Some(a) => Some(a.clone()),
        None => None,
    }
}

/// Relies on `serde_json::Value::get` and serde_json's `Display`: the compact
/// text of the named field of an object.
#[verifier::external_body]
pub fn field_text(v: &serde_json::Value, key: &str) -> (r: Option<String>)
    ensures
        r is None <==> json_field_text(*v, key@) is None,
        r matches Some(t) ==> json_field_text(*v, key@) == Some(t@),
{
    match v.get(key) {
        Some(f) => Some(f.to_string()),
        None => None,
    }
}

/// Relies on `serde_json::Value::get` and `serde_json::Value::as_str`: the
/// content of the named string field of an object.
#[verifier::external_body]
pub fn field_str(v: &serde_json::Value, key: &str) -> (r: Option<String>)
    ensures
        r is None <==> json_field_str(*v, key@) is None,
        r matches Some(t) ==> json_field_str(*v, key@) == Some(t@),
{
    match v.get(key) {
        Some(f) => match f.as_str() {
            Some(s) => Some(s.to_owned()),
            None => None,
        },
        None => None,
    }
}

} // verus!
