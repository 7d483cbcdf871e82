//! Everything this library takes on trust from code it does not verify:
//! the opaque types of `serde_json` and `base64`, names for what their
//! functions return, and one thin wrapper around each call.

use vstd::prelude::*;

verus! {

/// A JSON document as `serde_json` holds it. Nothing inside is visible to
/// proofs; the names below speak of it.
#[verifier::external_type_specification]
#[verifier::external_body]
pub struct ExJsonValue(serde_json::Value);

/// The error of `serde_json`, carried through unopened.
#[verifier::external_type_specification]
#[verifier::external_body]
pub struct ExJsonError(serde_json::Error);

/// The error of `base64`, carried through unopened.
#[verifier::external_type_specification]
#[verifier::external_body]
pub struct ExDecodeError(base64::DecodeError);

/// The outermost form of a JSON document.
#[derive(Clone, Copy, Debug, PartialEq, Eq, Structural)]
pub enum JsonKind {
    Null,
    Bool,
    Number,
    String,
    Array,
    Object,
}

/// What `serde_json::from_slice` returns for a body, read as a `Value`.
pub uninterp spec fn json_parse(bytes: Seq<u8>) -> Result<serde_json::Value, serde_json::Error>;

/// What `serde_json::to_vec` writes for a document; `None` where it fails.
pub uninterp spec fn json_encoding(value: serde_json::Value) -> Option<Seq<u8>>;

/// The text that `Display` gives for a `serde_json` error.
pub uninterp spec fn json_error_text(error: serde_json::Error) -> Seq<char>;

/// The text that `Debug` gives for a JSON document.
pub uninterp spec fn json_debug_text(value: serde_json::Value) -> Seq<char>;

/// The variant of `serde_json::Value` that a document is.
pub uninterp spec fn json_kind(value: serde_json::Value) -> JsonKind;

/// What `base64::decode` returns for a text in the standard alphabet;
/// `None` where it rejects the text.
pub uninterp spec fn base64_decoding(text: Seq<char>) -> Option<Seq<u8>>;

/// The text that `Debug` gives for a string: quoted, with escapes.
pub uninterp spec fn debug_text(text: Seq<char>) -> Seq<char>;

/// The name and value pairs that `form_urlencoded::parse` yields for a
/// query string, percent-decoded, in order of appearance.
pub uninterp spec fn form_pairs(query: Seq<char>) -> Seq<(Seq<char>, Seq<char>)>;

/// Calls `serde_json::from_slice` for a `Value`. The contract claims only
/// that the outcome is a function of the bytes.
#[verifier::external_body]
pub(crate) fn parse_json(bytes: &[u8]) -> (out: Result<serde_json::Value, serde_json::Error>)
    ensures
        out == json_parse(bytes@),
{
    serde_json::from_slice::<serde_json::Value>(bytes)
}

/// Calls `serde_json::to_vec`. The contract claims only that success and
/// the bytes written are a function of the document.
#[verifier::external_body]
pub(crate) fn encode_json(value: &serde_json::Value) -> (out: Result<Vec<u8>, serde_json::Error>)
    ensures
        match out {
            Ok(bytes) => json_encoding(*value) == Some(bytes@),
            Err(_) => json_encoding(*value) is None,
        },
{
    serde_json::to_vec(value)
}

/// Formats a `serde_json` error with `Display`. The contract claims only
/// that the text is a function of the error.
#[verifier::external_body]
pub(crate) fn json_error_message(error: &serde_json::Error) -> (out: String)
    ensures
        out@ == json_error_text(*error),
{
    format!("{}", error)
}

/// Formats a JSON document with `Debug`. The contract claims only that the
/// text is a function of the document.
#[verifier::external_body]
pub(crate) fn json_debug(value: &serde_json::Value) -> (out: String)
    ensures
        out@ == json_debug_text(*value),
{
    format!("{:?}", value)
}

/// Tells the variants of `serde_json::Value` apart.
#[verifier::external_body]
pub(crate) fn json_kind_of(value: &serde_json::Value) -> (out: JsonKind)
    ensures
        out == json_kind(*value),
{
    match value {
        serde_json::Value::Null => JsonKind::Null,
        serde_json::Value::Bool(_) => JsonKind::Bool,
        serde_json::Value::Number(_) => JsonKind::Number,
        serde_json::Value::String(_) => JsonKind::String,
        serde_json::Value::Array(_) => JsonKind::Array,
        serde_json::Value::Object(_) => JsonKind::Object,
    }
}

/// Calls `base64::decode`. The contract claims only that acceptance and the
/// bytes decoded are a function of the text.
#[verifier::external_body]
pub(crate) fn decode_base64(text: &str) -> (out: Result<Vec<u8>, base64::DecodeError>)
    ensures
        match out {
            Ok(bytes) => base64_decoding(text@) == Some(bytes@),
            Err(_) => base64_decoding(text@) is None,
        },
{
    base64::decode(text)
}

/// Formats a string with `Debug`. The contract claims only that the text is
/// a function of the string.
#[verifier::external_body]
pub(crate) fn debug_string(text: &str) -> (out: String)
    ensures
        out@ == debug_text(text@),
{
    format!("{:?}", text)
}

/// Calls `form_urlencoded::parse` and collects the owned pairs. The
/// contract claims only that the pairs are a function of the query string.
#[verifier::external_body]
pub(crate) fn decode_form(query: &str) -> (out: Vec<(String, String)>)
    ensures
        crate::text::pairs_view(out@) == form_pairs(query@),
{
    form_urlencoded::parse(query.as_bytes()).into_owned().collect()
}

} // verus!
