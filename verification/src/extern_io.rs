//! Trusted declarations for the outside crates the codec relies on: JSON
//! parsing through serde_json, and the current time through chrono.

use vstd::prelude::*;
use crate::jsonmodel::{Jv, jv_keys_unique};

verus! {

#[verifier::external_type_specification]
#[verifier::external_body]
pub struct ExValue(serde_json::Value);

/// What a parsed JSON value holds, as a model tree. Object entries appear in
/// the value's own iteration order.
pub uninterp spec fn val_model(v: serde_json::Value) -> Jv;

/// The outcome of parsing a text as JSON: `None` when the text is not
/// well-formed JSON, otherwise the model of the parsed value. Parsing depends
/// on the text alone.
pub uninterp spec fn json_of(s: Seq<char>) -> Option<Jv>;

/// Relies on serde_json::from_str: parses the text as JSON, failing exactly on
/// text that is not well-formed; a parsed object keeps one entry per key.
#[verifier::external_body]
pub(crate) fn json_parse(s: &str) -> (r: Option<serde_json::Value>)
    ensures
        r is Some <==> json_of(s@) is Some,
        r matches Some(v) ==> {
            &&& Some(val_model(v)) == json_of(s@)
            &&& jv_keys_unique(val_model(v))
        },
{
    serde_json::from_str(s).ok()
}

/// Relies on serde_json::Value::get: looks a key up in a JSON object; `None` on
/// a non-object value or an absent key.
#[verifier::external_body]
pub(crate) fn val_get<'a>(v: &'a serde_json::Value, key: &str) -> (r: Option<
    &'a serde_json::Value,
>)
    ensures
        match val_model(*v) {
            Jv::Obj(es) => {
                &&& (r is Some <==> exists|i: int|
                    0 <= i < es.len() && (#[trigger] es[i]).0 == key@)
                &&& (r matches Some(x) ==> exists|i: int|
                    0 <= i < es.len() && (#[trigger] es[i]).0 == key@ && val_model(*x) == es[i].1)
            },
            _ => r is None,
        },
{
    v.get(key)
}

/// Relies on serde_json::Value::as_bool: the payload of a boolean value, `None`
/// on any other kind.
#[verifier::external_body]
pub(crate) fn val_as_bool(v: &serde_json::Value) -> (r: Option<bool>)
    ensures
        r == (match val_model(*v) {
            Jv::Bool(b) => Some(b),
            _ => None::<bool>,
        }),
{
    v.as_bool()
}

/// Relies on serde_json::Value::as_i64: a number value read as a signed 64-bit
/// integer where it is one, `None` on any other kind.
#[verifier::external_body]
pub(crate) fn val_as_i64(v: &serde_json::Value) -> (r: Option<i64>)
    ensures
        r == (match val_model(*v) {
            Jv::Num(o) => o,
            _ => None::<i64>,
        }),
{
    v.as_i64()
}

/// Relies on serde_json::Value::as_str: the contents of a string value, `None`
/// on any other kind.
#[verifier::external_body]
pub(crate) fn val_as_str<'a>(v: &'a serde_json::Value) -> (r: Option<&'a str>)
    ensures
        match val_model(*v) {
            Jv::Str(s) => r matches Some(x) && x@ == s,
            _ => r is None,
        },
{
    v.as_str()
}

/// Relies on serde_json::Value::as_array: the elements of an array value,
/// `None` on any other kind.
#[verifier::external_body]
pub(crate) fn val_as_array<'a>(v: &'a serde_json::Value) -> (r: Option<
    &'a Vec<serde_json::Value>,
>)
    ensures
        match val_model(*v) {
            Jv::Arr(items) => r matches Some(a) && a@.len() == items.len() && (forall|i: int|
                0 <= i < items.len() ==> val_model(#[trigger] a@[i]) == items[i]),
            _ => r is None,
        },
{
    v.as_array()
}

/// Relies on serde_json::Value::as_object and the map's iteration, which yields
/// every entry exactly once, in the map's own order; each entry is handed out
/// as a cloned pair.
#[verifier::external_body]
pub(crate) fn val_object_entries(v: &serde_json::Value) -> (r: Option<
    Vec<(String, serde_json::Value)>,
>)
    ensures
        match val_model(*v) {
            Jv::Obj(es) => r matches Some(out) && out@.len() == es.len() && (forall|i: int|
                0 <= i < es.len() ==> (#[trigger] out@[i]).0@ == es[i].0 && val_model(
                    out@[i].1,
                ) == es[i].1),
            _ => r is None,
        },
{
    match v.as_object() {
        None => None,
        Some(m) => {
            let mut out = Vec::with_capacity(m.len());
            for (k, x) in m {
                out.push((k.clone(), x.clone()));
            }
            Some(out)
        },
    }
}

/// Relies on chrono::Utc::now: the current time, read as microseconds since the
/// Unix epoch. Nothing is promised of the value.
#[verifier::external_body]
pub(crate) fn now_micros() -> i64 {
    chrono::Utc::now().timestamp_micros()
}

} // verus!
