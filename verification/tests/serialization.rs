use http_dispatch::response::{respond, serialize, structured_response, HandlerResult, WireResponse};

fn content_type(value: &str) -> Vec<(String, String)> {
    vec![("content-type".to_string(), value.to_string())]
}

#[test]
fn plain_text_is_200_text_plain() {
    let out = serialize(HandlerResult::Text("h\u{e9}llo".to_string()));
    assert_eq!(
        out,
        WireResponse {
            status: 200,
            headers: content_type("text/plain"),
            body: vec![b'h', 0xc3, 0xa9, b'l', b'l', b'o'],
        }
    );
}

#[test]
fn html_is_200_text_html() {
    let out = serialize(HandlerResult::Html("<p>x</p>".to_string()));
    assert_eq!(out.status, 200);
    assert_eq!(out.headers, content_type("text/html"));
    assert_eq!(out.body, b"<p>x</p>".to_vec());
}

#[test]
fn structured_value_round_trips() {
    let mut map = serde_json::Map::new();
    map.insert("a".to_string(), serde_json::Value::String("b".to_string()));
    let value = serde_json::Value::Object(map);
    let out = serialize(HandlerResult::Structured(value.clone()));
    assert_eq!(out.status, 200);
    assert_eq!(out.headers, content_type("application/json"));
    assert_eq!(out.body, b"{\"a\":\"b\"}".to_vec());
    let back: serde_json::Value = serde_json::from_slice(&out.body).expect("valid JSON");
    assert_eq!(back, value);
}

#[test]
fn raw_bytes_keep_their_content_type() {
    let out = serialize(HandlerResult::Bytes {
        content_type: "image/png".to_string(),
        body: vec![0, 159, 146, 150, 255],
    });
    assert_eq!(out.status, 200);
    assert_eq!(out.headers, content_type("image/png"));
    assert_eq!(out.body, vec![0, 159, 146, 150, 255]);
}

#[test]
fn status_with_message_keeps_the_status() {
    let out = serialize(HandlerResult::Status { status: 418, message: "teapot".to_string() });
    assert_eq!(out.status, 418);
    assert_eq!(out.headers, content_type("text/plain"));
    assert_eq!(out.body, b"teapot".to_vec());
}

#[test]
fn status_alone_has_an_empty_body() {
    let out = serialize(HandlerResult::Status { status: 204, message: String::new() });
    assert_eq!(out.status, 204);
    assert_eq!(out.headers, content_type("text/plain"));
    assert!(out.body.is_empty());
}

#[test]
fn failed_encoding_is_answered_with_500() {
    let out = structured_response(None);
    assert_eq!(out.status, 500);
    assert_eq!(out.headers, content_type("text/plain"));
    assert_eq!(out.body, b"JSON serialization failed".to_vec());
    let out = structured_response(Some(b"[]".to_vec()));
    assert_eq!(out.status, 200);
    assert_eq!(out.headers, content_type("application/json"));
    assert_eq!(out.body, b"[]".to_vec());
}

#[test]
fn response_has_one_content_type_header() {
    let out = respond(201, "text/csv", b"a,b".to_vec());
    assert_eq!(
        out,
        WireResponse { status: 201, headers: content_type("text/csv"), body: b"a,b".to_vec() }
    );
}
