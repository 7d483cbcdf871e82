//! What a handler returns and how it is turned into the status, headers
//! and body that go on the wire.

use vstd::prelude::*;
use vstd::string::*;
use vstd::utf8::encode_utf8;
use crate::outside::{encode_json, json_encoding};
use crate::text::pairs_view;

verus! {

/// The value a handler hands back.
#[derive(Debug, PartialEq)]
pub enum HandlerResult {
    /// Plain text, answered with status 200.
    Text(String),
    /// HTML text, answered with status 200.
    Html(String),
    /// A JSON document, answered with status 200 in its compact encoding.
    Structured(serde_json::Value),
    /// Bytes sent as they are under the given content type.
    Bytes { content_type: String, body: Vec<u8> },
    /// A status of the handler's choosing with a message, possibly empty.
    Status { status: u16, message: String },
}

/// A handler result as specifications see it.
pub enum HandlerResultView {
    Text(Seq<char>),
    Html(Seq<char>),
    Structured(serde_json::Value),
    Bytes { content_type: Seq<char>, body: Seq<u8> },
    Status { status: u16, message: Seq<char> },
}

impl View for HandlerResult {
    type V = HandlerResultView;

    open spec fn view(&self) -> HandlerResultView {
        match self {
            HandlerResult::Text(text) => HandlerResultView::Text(text@),
            HandlerResult::Html(text) => HandlerResultView::Html(text@),
            HandlerResult::Structured(value) => HandlerResultView::Structured(*value),
            HandlerResult::Bytes { content_type, body } => HandlerResultView::Bytes {
                content_type: content_type@,
                body: body@,
            },
            HandlerResult::Status { status, message } => HandlerResultView::Status {
                status: *status,
                message: message@,
            },
        }
    }
}

/// A response ready for the transport.
#[derive(Clone, Debug, PartialEq, Eq)]
pub struct WireResponse {
    pub status: u16,
    pub headers: Vec<(String, String)>,
    pub body: Vec<u8>,
}

/// A wire response as specifications see it.
pub struct WireResponseView {
    pub status: u16,
    pub headers: Seq<(Seq<char>, Seq<char>)>,
    pub body: Seq<u8>,
}

impl View for WireResponse {
    type V = WireResponseView;

    open spec fn view(&self) -> WireResponseView {
        WireResponseView {
            status: self.status,
            headers: pairs_view(self.headers@),
            body: self.body@,
        }
    }
}

/// A response whose only header names the content type.
pub open spec fn wire(status: u16, content_type: Seq<char>, body: Seq<u8>) -> WireResponseView {
    WireResponseView { status, headers: seq![("content-type"@, content_type)], body }
}

/// The response for a JSON document given what encoding it produced: the
/// bytes under `application/json`, or status 500 where encoding failed.
pub open spec fn structured_wire(encoded: Option<Seq<u8>>) -> WireResponseView {
    match encoded {
        Some(bytes) => wire(200, "application/json"@, bytes),
        None => wire(500, "text/plain"@, encode_utf8("JSON serialization failed"@)),
    }
}

/// The one wire response that belongs to each handler result.
pub open spec fn serialize_spec(result: HandlerResultView) -> WireResponseView {
    match result {
        HandlerResultView::Text(text) => wire(200, "text/plain"@, encode_utf8(text)),
        HandlerResultView::Html(text) => wire(200, "text/html"@, encode_utf8(text)),
        HandlerResultView::Structured(value) => structured_wire(json_encoding(value)),
        HandlerResultView::Bytes { content_type, body } => wire(200, content_type, body),
        HandlerResultView::Status { status, message } => wire(
            status,
            "text/plain"@,
            encode_utf8(message),
        ),
    }
}

/// Every handler result has one response with a single content-type
/// header: status 200 for text, HTML and raw bytes, whose body is the
/// encoded text or the bytes as given, and the handler's own status for a
/// status result.
pub proof fn lemma_serialize_total(result: HandlerResultView)
    ensures
        serialize_spec(result).headers.len() == 1,
        serialize_spec(result).headers[0].0 == "content-type"@,
        result matches HandlerResultView::Status { status, message } ==> serialize_spec(
            result,
        ).status == status,
        (result is Text || result is Html || result is Bytes) ==> serialize_spec(result).status
            == 200,
        result matches HandlerResultView::Text(text) ==> serialize_spec(result).body
            == encode_utf8(text),
        result matches HandlerResultView::Html(text) ==> serialize_spec(result).body
            == encode_utf8(text),
        result matches HandlerResultView::Bytes { content_type, body } ==> serialize_spec(
            result,
        ).body == body && serialize_spec(result).headers[0].1 == content_type,
{
}

/// Builds a response with a single content-type header.
pub fn respond(status: u16, content_type: &str, body: Vec<u8>) -> (out: WireResponse)
    ensures
        out@ == wire(status, content_type@, body@),
{
    let mut headers: Vec<(String, String)> = Vec::new();
    headers.push(("content-type".to_owned(), content_type.to_owned()));
    let out = WireResponse { status, headers, body };
    assert(out@.headers =~= seq![("content-type"@, content_type@)]);
    out
}

/// The response for a JSON document, given what encoding it produced.
pub fn structured_response(encoded: Option<Vec<u8>>) -> (out: WireResponse)
    ensures
        out@ == structured_wire(
            match encoded {
                Some(bytes) => Some(bytes@),
                None => None,
            },
        ),
{
    match encoded {
        Some(bytes) => respond(200, "application/json", bytes),
        None => respond(500, "text/plain", "JSON serialization failed".as_bytes_vec()),
    }
}

/// Turns a handler result into status, headers and body.
pub fn serialize(result: HandlerResult) -> (out: WireResponse)
    ensures
        out@ == serialize_spec(result@),
{
    match result {
        HandlerResult::Text(text) => respond(200, "text/plain", text.as_str().as_bytes_vec()),
        HandlerResult::Html(text) => respond(200, "text/html", text.as_str().as_bytes_vec()),
        HandlerResult::Structured(value) => {
            let encoded = match encode_json(&value) {
                Ok(bytes) => Some(bytes),
                Err(_) => None,
            };
            structured_response(encoded)
        },
        HandlerResult::Bytes { content_type, body } => respond(200, content_type.as_str(), body),
        HandlerResult::Status { status, message } => respond(
            status,
            "text/plain",
            message.as_str().as_bytes_vec(),
        ),
    }
}

} // verus!
