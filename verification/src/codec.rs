//! The YAML and JSON codecs, which are outside crates: the values they hand
//! over, and what this library relies on of each call.
//!
//! The encoders work by recursion: on a value that is nested thousands of
//! levels deep, they can exhaust the stack.

use vstd::prelude::*;

verus! {

/// A JSON value of `serde_json`. Nothing of its inside is known here: it is
/// handed from one call to the next.
#[verifier::external_type_specification]
#[verifier::external_body]
pub struct ExValue(serde_json::Value);

/// What a JSON value holds, as text. A value is opaque here; what the
/// calls below give for it is stated over this text.
pub uninterp spec fn json_text(value: serde_json::Value) -> Seq<char>;

/// What `serde_yml::from_str` makes of a YAML text when a JSON value is
/// asked for: the value, as its text, or the message of the error.
pub uninterp spec fn yaml_decoded(yaml: Seq<char>) -> Result<Seq<char>, Seq<char>>;

/// What `serde_yml::to_string` makes of the JSON value with the text `json`:
/// the YAML text, or the message of the error.
pub uninterp spec fn yaml_encoded(json: Seq<char>) -> Result<Seq<char>, Seq<char>>;

/// What `serde_json::Value::as_str` finds in the JSON value with the text
/// `json`: the text of the string where the value is one, nothing otherwise.
pub uninterp spec fn json_string(json: Seq<char>) -> Option<Seq<char>>;

/// What `serde_json::to_string_pretty` makes of the JSON value with the text
/// `json`: the indented JSON text, or nothing where it fails.
pub uninterp spec fn json_pretty(json: Seq<char>) -> Option<Seq<char>>;

/// Decodes a YAML text into a JSON value with `serde_yml::from_str`. An
/// error comes back as its `Display` text.
///
/// Relied on, not proved: what the value holds, or else the text of the
/// error, depends on the YAML text alone.
#[verifier::external_body]
#[allow(deprecated)]
pub(crate) fn decode_yaml(yaml: &str) -> (r: Result<serde_json::Value, String>)
    ensures
        match r {
            Ok(v) => yaml_decoded(yaml@) == Ok::<Seq<char>, Seq<char>>(json_text(v)),
            Err(m) => yaml_decoded(yaml@) == Err::<Seq<char>, Seq<char>>(m@),
        },
{
    serde_yml::from_str::<serde_json::Value>(yaml).map_err(|e| e.to_string())
}

/// Encodes a JSON value as YAML text with `serde_yml::to_string`. An error
/// comes back as its `Display` text.
///
/// Relied on, not proved: the text, or else the text of the error, depends
/// on what the value holds alone.
#[verifier::external_body]
#[allow(deprecated)]
pub(crate) fn encode_yaml(value: &serde_json::Value) -> (r: Result<String, String>)
    ensures
        match r {
            Ok(t) => yaml_encoded(json_text(*value)) == Ok::<Seq<char>, Seq<char>>(t@),
            Err(m) => yaml_encoded(json_text(*value)) == Err::<Seq<char>, Seq<char>>(m@),
        },
{
    serde_yml::to_string(value).map_err(|e| e.to_string())
}

/// Reads the text of a JSON string with `serde_json::Value::as_str`, which
/// gives the text where the value is a string and `None` for any other
/// value.
///
/// Relied on, not proved: what it gives depends on what the value holds
/// alone.
#[verifier::external_body]
pub(crate) fn string_of(value: &serde_json::Value) -> (r: Option<String>)
    ensures
        match r {
            Some(s) => json_string(json_text(*value)) == Some(s@),
            None => json_string(json_text(*value)) is None,
        },
{
    value.as_str().map(|s| s.to_owned())
}

/// Renders a JSON value as indented JSON text with
/// `serde_json::to_string_pretty`; `None` where that fails.
///
/// Relied on, not proved: the text depends on what the value holds alone.
#[verifier::external_body]
pub(crate) fn pretty_of(value: &serde_json::Value) -> (r: Option<String>)
    ensures
        match r {
            Some(s) => json_pretty(json_text(*value)) == Some(s@),
            None => json_pretty(json_text(*value)) is None,
        },
{
    serde_json::to_string_pretty(value).ok()
}

} // verus!
