//! Adapters to the templating engine's value types.
//!
//! The host hands a filter an arbitrary renderable JSON value; the adapter
//! coerces it to its textual form, runs the verified text-level filter,
//! and wraps the result back into a JSON value. All text logic is proved
//! in [`crate::filters`]; only the value/text boundary conversions are
//! taken on trust, each behind one trusted item below.

use vstd::prelude::*;
use std::collections::HashMap;
use std::hash::BuildHasher;
use crate::filters::{ogham_text, ogham_text_spec, seanchlo_text, seanchlo_text_spec};

verus! {

#[verifier::external_type_specification]
#[verifier::external_body]
pub struct ExValue(serde_json::Value);

#[verifier::external_type_specification]
#[verifier::external_body]
pub struct ExTeraError(tera::Error);

#[verifier::external_type_specification]
#[verifier::external_body]
pub struct ExJsonError(serde_json::Error);

/// The text that serde_json's `Display` for `Value` renders a value as.
/// It depends on the value alone, so the same value always coerces to the
/// same text.
pub uninterp spec fn coerced_text_of(v: serde_json::Value) -> Seq<char>;

/// The JSON value that serde_json's `to_value` wraps a string as. It
/// depends on the text alone.
pub uninterp spec fn value_of_text(s: Seq<char>) -> serde_json::Value;

/// Relies on serde_json's `Display` for `Value` (through `ToString`): it
/// renders the value as JSON text, a string value in its quoted form. The
/// rendering is a function of the value alone, named [`coerced_text_of`];
/// the callers transform whatever text comes back.
#[verifier::external_body]
fn coerce_value(value: &tera::Value) -> (r: String)
    ensures
        r@ == coerced_text_of(*value),
{
    value.to_string()
}

/// Relies on serde_json's `to_value`: serializing a `String` goes through
/// `serialize_str`, which returns `Ok` unconditionally, so the call cannot
/// fail; the wrapped value is a function of the text alone, named
/// [`value_of_text`].
#[verifier::external_body]
fn encode_text(text: String) -> (r: Result<tera::Value, serde_json::Error>)
    ensures
        r is Ok,
        r matches Ok(v) ==> v == value_of_text(text@),
{
    tera::to_value(text)
}

/// The Ogham filter under the host's filter-function contract: coerces
/// `value` to text, transforms it with [`ogham_text`], and wraps the
/// result. The `_args` mapping is accepted and ignored. Since wrapping a
/// string value cannot fail, the call always succeeds, and the returned
/// value is pinned: the wrapping of [`ogham_text_spec`] of the coerced
/// text. Both boundary results are functions of their arguments alone, so
/// two calls on equal values return equal output.
pub fn to_ogham<S: BuildHasher>(
    value: &tera::Value,
    _args: &HashMap<String, tera::Value, S>,
) -> (r: Result<tera::Value, tera::Error>)
    ensures
        r is Ok,
        r matches Ok(v) ==> v == value_of_text(ogham_text_spec(coerced_text_of(*value))),
{
    let text = coerce_value(value);
    let transformed = ogham_text(text.as_str());
    match encode_text(transformed) {
        Ok(v) => Ok(v),
        Err(_) => vstd::pervasive::unreached(),
    }
}

/// The Seanchló filter under the host's filter-function contract: coerces
/// `value` to text, transforms it with [`seanchlo_text`], and wraps the
/// result. The `_args` mapping is accepted and ignored. Since wrapping a
/// string value cannot fail, the call always succeeds, and the returned
/// value is pinned: the wrapping of [`seanchlo_text_spec`] of the coerced
/// text. Both boundary results are functions of their arguments alone, so
/// two calls on equal values return equal output.
pub fn to_seanchlo<S: BuildHasher>(
    value: &tera::Value,
    _args: &HashMap<String, tera::Value, S>,
) -> (r: Result<tera::Value, tera::Error>)
    ensures
        r is Ok,
        r matches Ok(v) ==> v == value_of_text(seanchlo_text_spec(coerced_text_of(*value))),
{
    let text = coerce_value(value);
    let transformed = seanchlo_text(text.as_str());
    match encode_text(transformed) {
        Ok(v) => Ok(v),
        Err(_) => vstd::pervasive::unreached(),
    }
}

} // verus!
