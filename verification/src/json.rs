//! The boundary to `serde_json`: a specification-level model of JSON
//! documents, and trusted declarations for the handful of `serde_json`
//! operations the library's logic needs.
//!
//! A `serde_json::Value` is opaque to the verifier; `rep_of` names the
//! document it holds, and every trusted wrapper below speaks about that
//! name, so the verified code around them can reason about JSON content.

use vstd::prelude::*;

verus! {

/// Specification-level shape of a JSON document.
///
/// A number is kept as its source text, which is enough for the contracts
/// here: the library never computes with JSON numbers, it only carries them.
pub enum JsonRep {
    Null,
    Bool(bool),
    Num(Seq<char>),
    Str(Seq<char>),
    Arr(Seq<JsonRep>),
    Obj(Map<Seq<char>, JsonRep>),
}

#[verifier::external_type_specification]
#[verifier::external_body]
pub struct ExValue(serde_json::Value);

/// The JSON document a `serde_json::Value` holds.
pub uninterp spec fn rep_of(v: serde_json::Value) -> JsonRep;

/// What `serde_json::from_str::<Value>` yields on `s`: the parsed document,
/// or `None` when `s` is not valid JSON.
pub uninterp spec fn parse_rep(s: Seq<char>) -> Option<JsonRep>;

/// What `serde_json::to_string` prints for a value holding document `j`.
pub uninterp spec fn text_of_rep(j: JsonRep) -> Seq<char>;

/// Relies on `serde_json::from_str::<Value>`: parses JSON text into a value;
/// the result is a function of the text alone.
#[verifier::external_body]
pub fn parse_json(s: &str) -> (r: Option<serde_json::Value>)
    ensures
        r is Some <==> parse_rep(s@) is Some,
        r matches Some(v) ==> Some(rep_of(v)) == parse_rep(s@),
{
    serde_json::from_str::<serde_json::Value>(s).ok()
}

/// Relies on `serde_json::to_string`: prints a value's document as JSON text,
/// deterministically (object keys are kept in the value's own ordered map).
/// Serializing a `serde_json::Value` cannot fail, so the error branch is
/// unreachable.
#[verifier::external_body]
pub fn to_json_text(v: &serde_json::Value) -> (r: String)
    ensures
        r@ == text_of_rep(rep_of(*v)),
{
    match serde_json::to_string(v) {
        Ok(s) => s,
        Err(_) => String::new(),
    }
}

/// Relies on `serde_json::Value::get` with a string index: on an object,
/// looks the key up; on anything else, returns `None`.
#[verifier::external_body]
pub fn get_field<'a>(v: &'a serde_json::Value, key: &str) -> (r: Option<&'a serde_json::Value>)
    ensures
        match rep_of(*v) {
            JsonRep::Obj(m) => {
                &&& r is Some <==> m.contains_key(key@)
                &&& (r matches Some(f) ==> m.contains_key(key@) && rep_of(*f) == m[key@])
            },
            _ => r is None,
        },
{
    v.get(key)
}

/// Relies on `serde_json::Value::get` with a `usize` index: on an array,
/// returns the element at that position; on anything else, `None`.
#[verifier::external_body]
pub fn get_index<'a>(v: &'a serde_json::Value, i: usize) -> (r: Option<&'a serde_json::Value>)
    ensures
        match rep_of(*v) {
            JsonRep::Arr(s) => {
                &&& r is Some <==> i < s.len()
                &&& (r matches Some(f) ==> i < s.len() && rep_of(*f) == s[i as int])
            },
            _ => r is None,
        },
{
    v.get(i)
}

/// Relies on `serde_json::Value::as_array`: the length of an array value.
#[verifier::external_body]
pub fn array_len(v: &serde_json::Value) -> (r: Option<usize>)
    ensures
        match rep_of(*v) {
            JsonRep::Arr(s) => r matches Some(n) && n == s.len(),
            _ => r is None,
        },
{
    v.as_array().map(|a| a.len())
}

/// Relies on `serde_json::Value::as_str`: the characters of a string value.
#[verifier::external_body]
pub fn value_as_str(v: &serde_json::Value) -> (r: Option<&str>)
    ensures
        match rep_of(*v) {
            JsonRep::Str(s) => r matches Some(t) && t@ == s,
            _ => r is None,
        },
{
    v.as_str()
}

/// Relies on `serde_json::Value::is_object`.
#[verifier::external_body]
pub fn value_is_object(v: &serde_json::Value) -> (r: bool)
    ensures
        r == (rep_of(*v) is Obj),
{
    v.is_object()
}

/// Relies on `serde_json::Value::clone`: a structural copy holding the same
/// document.
#[verifier::external_body]
pub fn clone_value(v: &serde_json::Value) -> (r: serde_json::Value)
    ensures
        rep_of(r) == rep_of(*v),
{
    v.clone()
}

} // verus!
