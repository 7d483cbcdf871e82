use http_dispatch::extract::{
    extract_all, extract_json, extract_one, parse_query, split_uri, ExtractError, Extracted,
    ExtractionKind, JsonShape, RequestContext,
};
use http_dispatch::method::HttpMethod;
use http_dispatch::outside::JsonKind;
use http_dispatch::params::ParamMap;
use http_dispatch::response::HandlerResult;

fn context(uri: &str, path_params: &[(&str, &str)], body: &[u8]) -> RequestContext {
    let pairs: Vec<(String, String)> =
        path_params.iter().map(|(k, v)| (k.to_string(), v.to_string())).collect();
    RequestContext::new(
        HttpMethod::Get,
        uri.to_string(),
        Vec::new(),
        ParamMap::from_pairs(&pairs),
        body.to_vec(),
    )
}

fn object_a_b() -> serde_json::Value {
    let mut map = serde_json::Map::new();
    map.insert("a".to_string(), serde_json::Value::String("b".to_string()));
    serde_json::Value::Object(map)
}

#[test]
fn repeated_query_key_keeps_last_value() {
    let params = parse_query("/items?a=1&a=2&b=3");
    assert_eq!(params.len(), 2);
    assert_eq!(params.get("a"), Some(&"2".to_string()));
    assert_eq!(params.get("b"), Some(&"3".to_string()));
    assert_eq!(
        params.entries(),
        &vec![("a".to_string(), "2".to_string()), ("b".to_string(), "3".to_string())]
    );
}

#[test]
fn query_is_percent_decoded() {
    let params = parse_query("/search?q=%20b+c%26&empty=&flag");
    assert_eq!(params.get("q"), Some(&" b c&".to_string()));
    assert_eq!(params.get("empty"), Some(&String::new()));
    assert_eq!(params.get("flag"), Some(&String::new()));
}

#[test]
fn malformed_escape_is_kept_as_it_stands() {
    let params = parse_query("/x?a=100%&b=%zz&c=%4");
    assert_eq!(params.get("a"), Some(&"100%".to_string()));
    assert_eq!(params.get("b"), Some(&"%zz".to_string()));
    assert_eq!(params.get("c"), Some(&"%4".to_string()));
}

#[test]
fn target_without_query_has_no_parameters() {
    assert_eq!(parse_query("/items").len(), 0);
    assert_eq!(parse_query("/items?").len(), 0);
    assert_eq!(parse_query("").len(), 0);
}

#[test]
fn target_splits_at_first_question_mark() {
    assert_eq!(split_uri("/a/b?x=1?y"), ("/a/b".to_string(), "x=1?y".to_string()));
    assert_eq!(split_uri("/a/b"), ("/a/b".to_string(), String::new()));
    assert_eq!(split_uri("?q"), (String::new(), "q".to_string()));
    assert_eq!(split_uri("/caf\u{e9}?\u{fc}=1"), ("/caf\u{e9}".to_string(), "\u{fc}=1".to_string()));
}

#[test]
fn folding_pairs_keeps_first_position_and_last_value() {
    let pairs = vec![
        ("k".to_string(), "1".to_string()),
        ("m".to_string(), "x".to_string()),
        ("k".to_string(), "2".to_string()),
    ];
    let params = ParamMap::from_pairs(&pairs);
    assert_eq!(
        params.entries(),
        &vec![("k".to_string(), "2".to_string()), ("m".to_string(), "x".to_string())]
    );
}

#[test]
fn raw_path_is_the_target_as_received() {
    let ctx = context("/demo-uri?x=%20", &[], b"");
    assert_eq!(
        extract_one(&ExtractionKind::RawPath, &ctx, 10),
        Ok(Extracted::RawPath("/demo-uri?x=%20".to_string()))
    );
}

#[test]
fn path_parameter_is_looked_up_by_name() {
    let ctx = context("/items/42", &[("id", "42")], b"");
    assert_eq!(
        extract_one(&ExtractionKind::PathParam("id".to_string()), &ctx, 10),
        Ok(Extracted::PathParam("42".to_string()))
    );
}

#[test]
fn absent_path_parameter_is_missing_parameter() {
    let ctx = context("/items/42", &[("id", "42")], b"");
    assert_eq!(
        extract_one(&ExtractionKind::PathParam("name".to_string()), &ctx, 10),
        Err(ExtractError::MissingParameter("name".to_string()))
    );
}

#[test]
fn query_map_is_the_parsed_query() {
    let ctx = context("/items?a=1&a=2&b=3", &[], b"");
    match extract_one(&ExtractionKind::QueryMap, &ctx, 10) {
        Ok(Extracted::QueryMap(params)) => {
            assert_eq!(params.get("a"), Some(&"2".to_string()));
            assert_eq!(params.get("b"), Some(&"3".to_string()));
            assert_eq!(params.len(), 2);
        }
        other => panic!("unexpected {:?}", other),
    }
}

#[test]
fn json_body_is_parsed() {
    let body = b" { \"a\" : \"b\" } ".to_vec();
    assert_eq!(extract_json(&body, 100, JsonShape::Any), Ok(Extracted::Json(object_a_b())));
    assert_eq!(extract_json(&body, 100, JsonShape::Object), Ok(Extracted::Json(object_a_b())));
}

#[test]
fn json_syntax_error_is_malformed_body() {
    let body = b"{\"a\":".to_vec();
    match extract_json(&body, 100, JsonShape::Any) {
        Err(ExtractError::MalformedBody(reason)) => {
            assert_eq!(reason, "EOF while parsing a value at line 1 column 5");
        }
        other => panic!("unexpected {:?}", other),
    }
}

#[test]
fn json_shape_mismatch_is_malformed_body() {
    let body = b"[1, 2]".to_vec();
    assert_eq!(
        extract_json(&body, 100, JsonShape::Object),
        Err(ExtractError::MalformedBody("unexpected JSON shape".to_string()))
    );
    assert!(extract_json(&body, 100, JsonShape::Array).is_ok());
    assert!(extract_json(&b"null".to_vec(), 100, JsonShape::Null).is_ok());
    assert!(extract_json(&b"true".to_vec(), 100, JsonShape::Bool).is_ok());
    assert!(extract_json(&b"12".to_vec(), 100, JsonShape::Number).is_ok());
    assert!(extract_json(&b"\"s\"".to_vec(), 100, JsonShape::String).is_ok());
    assert!(extract_json(&b"\"s\"".to_vec(), 100, JsonShape::Number).is_err());
}

#[test]
fn shape_admits_its_own_kind_only() {
    let kinds = [
        JsonKind::Null,
        JsonKind::Bool,
        JsonKind::Number,
        JsonKind::String,
        JsonKind::Array,
        JsonKind::Object,
    ];
    let shapes = [
        JsonShape::Null,
        JsonShape::Bool,
        JsonShape::Number,
        JsonShape::String,
        JsonShape::Array,
        JsonShape::Object,
    ];
    for (i, shape) in shapes.iter().enumerate() {
        for (j, kind) in kinds.iter().enumerate() {
            assert_eq!(shape.admits(*kind), i == j);
            assert!(JsonShape::Any.admits(*kind));
        }
    }
}

#[test]
fn oversized_body_is_refused_before_parsing() {
    let body = b"this is not JSON at all".to_vec();
    assert_eq!(
        extract_json(&body, body.len() - 1, JsonShape::Any),
        Err(ExtractError::PayloadTooLarge)
    );
    assert!(matches!(
        extract_json(&body, body.len(), JsonShape::Any),
        Err(ExtractError::MalformedBody(_))
    ));
}

#[test]
fn body_of_exactly_the_limit_is_read() {
    let body = b"[1]".to_vec();
    assert!(extract_json(&body, 3, JsonShape::Any).is_ok());
    assert_eq!(extract_json(&body, 2, JsonShape::Any), Err(ExtractError::PayloadTooLarge));
}

#[test]
fn extraction_keeps_declared_order() {
    let ctx = context("/items/7?x=1", &[("id", "7")], b"[]");
    let kinds = vec![
        ExtractionKind::PathParam("id".to_string()),
        ExtractionKind::RawPath,
        ExtractionKind::JsonBody(JsonShape::Array),
    ];
    assert_eq!(
        extract_all(&kinds, &ctx, 10),
        Ok(vec![
            Extracted::PathParam("7".to_string()),
            Extracted::RawPath("/items/7?x=1".to_string()),
            Extracted::Json(serde_json::Value::Array(Vec::new())),
        ])
    );
    assert_eq!(extract_all(&Vec::new(), &ctx, 10), Ok(Vec::new()));
}

#[test]
fn extraction_stops_at_first_failure() {
    let ctx = context("/items/7", &[("id", "7")], b"not json");
    let kinds = vec![
        ExtractionKind::PathParam("absent".to_string()),
        ExtractionKind::JsonBody(JsonShape::Any),
    ];
    assert_eq!(
        extract_all(&kinds, &ctx, 3),
        Err(ExtractError::MissingParameter("absent".to_string()))
    );
    let kinds = vec![
        ExtractionKind::JsonBody(JsonShape::Any),
        ExtractionKind::PathParam("absent".to_string()),
    ];
    assert_eq!(extract_all(&kinds, &ctx, 3), Err(ExtractError::PayloadTooLarge));
}

#[test]
fn each_error_has_its_status() {
    assert_eq!(
        ExtractError::MissingParameter("id".to_string()).into_result(),
        HandlerResult::Status { status: 500, message: "Internal Server Error".to_string() }
    );
    assert_eq!(
        ExtractError::MalformedBody("expected value".to_string()).into_result(),
        HandlerResult::Status { status: 400, message: "expected value".to_string() }
    );
    assert_eq!(
        ExtractError::PayloadTooLarge.into_result(),
        HandlerResult::Status { status: 413, message: "Payload Too Large".to_string() }
    );
}
