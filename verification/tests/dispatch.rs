use std::cell::Cell;

use http_dispatch::extract::{ExtractError, Extracted, ExtractionKind, JsonShape, Miss};
use http_dispatch::handlers::{
    delete_foo, demo_router, demo_status, demo_uri, get_demo_html, get_demo_json,
    get_demo_png, get_foo, get_items, get_items_id, handler_404, hello, hello_html, invoke_demo,
    json_result, patch_foo, png_result, post_foo, prefixed, put_demo_json, put_foo,
    render_params,
    serve_demo, DemoHandler, BODY_LIMIT,
};
use http_dispatch::method::HttpMethod;
use http_dispatch::params::ParamMap;
use http_dispatch::pattern::PathPattern;
use http_dispatch::response::{HandlerResult, WireResponse};
use http_dispatch::router::{default_fallback, Resolution, Router};

fn demo(method: HttpMethod, uri: &str, body: &[u8]) -> WireResponse {
    serve_demo(&demo_router(), method, uri.to_string(), Vec::new(), body.to_vec())
}

fn text_of(response: &WireResponse) -> String {
    String::from_utf8(response.body.clone()).expect("a text body")
}

fn header(response: &WireResponse) -> (&str, &str) {
    assert_eq!(response.headers.len(), 1);
    (response.headers[0].0.as_str(), response.headers[0].1.as_str())
}

fn json_router(limit: usize) -> Router<u8> {
    let mut router: Router<u8> = Router::new(limit);
    router.register(
        HttpMethod::Put,
        PathPattern::parse("/demo.json").expect("a pattern"),
        vec![ExtractionKind::JsonBody(JsonShape::Any)],
        7,
    );
    router
}

#[test]
fn each_method_of_foo_has_its_own_handler() {
    let cases = [
        (HttpMethod::Get, "GET foo"),
        (HttpMethod::Put, "PUT foo"),
        (HttpMethod::Patch, "PATCH foo"),
        (HttpMethod::Post, "POST foo"),
        (HttpMethod::Delete, "DELETE foo"),
    ];
    for (method, expected) in cases {
        let out = demo(method, "/foo", b"");
        assert_eq!(out.status, 200);
        assert_eq!(header(&out), ("content-type", "text/plain"));
        assert_eq!(text_of(&out), expected);
    }
}

#[test]
fn unregistered_method_is_method_not_allowed() {
    let out = demo(HttpMethod::Head, "/foo", b"");
    assert_eq!(out.status, 405);
    assert!(out.body.is_empty());
    let router = demo_router();
    assert_eq!(
        router.resolve(HttpMethod::Head, "/foo".to_string(), Vec::new(), Vec::new()),
        Resolution::Unmatched(Miss::MethodNotAllowed)
    );
    assert_eq!(
        router.resolve(HttpMethod::Head, "/bar".to_string(), Vec::new(), Vec::new()),
        Resolution::Unmatched(Miss::NotFound)
    );
}

#[test]
fn unmatched_path_is_404_naming_the_target() {
    let out = demo(HttpMethod::Get, "/does-not-exist", b"");
    assert_eq!(out.status, 404);
    assert_eq!(header(&out), ("content-type", "text/plain"));
    assert_eq!(text_of(&out), "No route for /does-not-exist");
    let out = demo(HttpMethod::Get, "/does-not-exist?x=1", b"");
    assert!(text_of(&out).contains("/does-not-exist?x=1"));
}

#[test]
fn oversized_body_is_413_and_runs_no_handler() {
    let router = json_router(8);
    let calls = Cell::new(0u32);
    let out = router.dispatch(
        HttpMethod::Put,
        "/demo.json".to_string(),
        Vec::new(),
        b"{\"a\":\"b\"}".to_vec(),
        |_handler: &u8, _args: Vec<Extracted>| {
            calls.set(calls.get() + 1);
            HandlerResult::Text("ran".to_string())
        },
    );
    assert_eq!(out.status, 413);
    assert_eq!(calls.get(), 0);
    assert_eq!(
        router.resolve(
            HttpMethod::Put,
            "/demo.json".to_string(),
            Vec::new(),
            b"{\"a\":\"b\"}".to_vec()
        ),
        Resolution::Reject(ExtractError::PayloadTooLarge)
    );
}

#[test]
fn body_within_limit_reaches_the_handler_once() {
    let router = json_router(9);
    let calls = Cell::new(0u32);
    let out = router.dispatch(
        HttpMethod::Put,
        "/demo.json".to_string(),
        Vec::new(),
        b"{\"a\":\"b\"}".to_vec(),
        |handler: &u8, args: Vec<Extracted>| {
            calls.set(calls.get() + 1);
            assert_eq!(*handler, 7);
            assert_eq!(args.len(), 1);
            HandlerResult::Text("ran".to_string())
        },
    );
    assert_eq!(out.status, 200);
    assert_eq!(text_of(&out), "ran");
    assert_eq!(calls.get(), 1);
}

#[test]
fn malformed_body_is_400_and_runs_no_handler() {
    let router = json_router(100);
    let calls = Cell::new(0u32);
    let out = router.dispatch(
        HttpMethod::Put,
        "/demo.json".to_string(),
        Vec::new(),
        b"{oops".to_vec(),
        |_handler: &u8, _args: Vec<Extracted>| {
            calls.set(calls.get() + 1);
            HandlerResult::Text("ran".to_string())
        },
    );
    assert_eq!(out.status, 400);
    assert_eq!(text_of(&out), "key must be a string at line 1 column 2");
    assert_eq!(calls.get(), 0);
}

#[test]
fn missing_parameter_is_500_without_detail() {
    let mut router: Router<u8> = Router::new(10);
    router.register(
        HttpMethod::Get,
        PathPattern::parse("/items/:id").expect("a pattern"),
        vec![ExtractionKind::PathParam("name".to_string())],
        1,
    );
    let out = router.dispatch(
        HttpMethod::Get,
        "/items/4".to_string(),
        Vec::new(),
        Vec::new(),
        |_handler: &u8, _args: Vec<Extracted>| HandlerResult::Text("ran".to_string()),
    );
    assert_eq!(out.status, 500);
    assert_eq!(text_of(&out), "Internal Server Error");
}

#[test]
fn registered_fallback_sees_target_and_reason() {
    let mut router: Router<u8> = Router::new(10);
    router.register(HttpMethod::Get, PathPattern::parse("/a").expect("a pattern"), Vec::new(), 1);
    router.set_fallback(9);
    assert_eq!(router.fallback(), Some(&9));
    let seen = Cell::new(false);
    let out = router.dispatch(
        HttpMethod::Post,
        "/a?x".to_string(),
        Vec::new(),
        Vec::new(),
        |handler: &u8, args: Vec<Extracted>| {
            assert_eq!(*handler, 9);
            assert_eq!(
                args,
                vec![
                    Extracted::RawPath("/a?x".to_string()),
                    Extracted::Miss(Miss::MethodNotAllowed)
                ]
            );
            seen.set(true);
            HandlerResult::Status { status: 410, message: "gone".to_string() }
        },
    );
    assert!(seen.get());
    assert_eq!(out.status, 410);
    assert_eq!(text_of(&out), "gone");
}

#[test]
fn default_fallback_answers_without_a_handler() {
    let mut router: Router<u8> = Router::new(10);
    router.register(HttpMethod::Get, PathPattern::parse("/a").expect("a pattern"), Vec::new(), 1);
    assert_eq!(router.fallback(), None);
    let out = router.dispatch(
        HttpMethod::Get,
        "/b".to_string(),
        Vec::new(),
        Vec::new(),
        |_handler: &u8, _args: Vec<Extracted>| HandlerResult::Text("ran".to_string()),
    );
    assert_eq!(out.status, 404);
    assert_eq!(text_of(&out), "No route for /b");
    assert_eq!(
        default_fallback("/b", Miss::MethodNotAllowed),
        HandlerResult::Status { status: 405, message: String::new() }
    );
    assert_eq!(
        handler_404("/x y"),
        HandlerResult::Status { status: 404, message: "No route for /x y".to_string() }
    );
}

#[test]
fn router_keeps_routes_in_registration_order() {
    let mut router: Router<&str> = Router::new(77);
    assert_eq!(router.len(), 0);
    assert_eq!(router.body_limit(), 77);
    let first = router.register(
        HttpMethod::Get,
        PathPattern::parse("/a").expect("a pattern"),
        Vec::new(),
        "a",
    );
    let second = router.register(
        HttpMethod::Post,
        PathPattern::parse("/b/:c").expect("a pattern"),
        vec![ExtractionKind::PathParam("c".to_string())],
        "b",
    );
    assert_eq!((first, second), (0, 1));
    assert_eq!(router.len(), 2);
    assert_eq!(router.route(1).handler, "b");
    assert_eq!(router.route(1).method, HttpMethod::Post);
    assert_eq!(router.route(0).pattern, PathPattern::parse("a").expect("a pattern"));
    assert_eq!(router.route(1).needs, vec![ExtractionKind::PathParam("c".to_string())]);
}

#[test]
fn demo_table_covers_the_declared_routes() {
    let router = demo_router();
    assert_eq!(router.len(), 15);
    assert_eq!(router.body_limit(), BODY_LIMIT);
    assert_eq!(router.fallback(), Some(&DemoHandler::Fallback));
    let cases = [
        (HttpMethod::Get, "/", DemoHandler::Hello),
        (HttpMethod::Get, "/demo.html", DemoHandler::DemoHtml),
        (HttpMethod::Get, "/hello.html", DemoHandler::HelloHtml),
        (HttpMethod::Get, "/demo-status", DemoHandler::DemoStatus),
        (HttpMethod::Get, "/demo-uri", DemoHandler::DemoUri),
        (HttpMethod::Get, "/demo.png", DemoHandler::DemoPng),
        (HttpMethod::Get, "/foo", DemoHandler::GetFoo),
        (HttpMethod::Put, "/foo", DemoHandler::PutFoo),
        (HttpMethod::Patch, "/foo", DemoHandler::PatchFoo),
        (HttpMethod::Post, "/foo", DemoHandler::PostFoo),
        (HttpMethod::Delete, "/foo", DemoHandler::DeleteFoo),
        (HttpMethod::Get, "/items/9", DemoHandler::GetItemsId),
        (HttpMethod::Get, "/items", DemoHandler::GetItems),
        (HttpMethod::Get, "/demo.json", DemoHandler::GetDemoJson),
        (HttpMethod::Put, "/demo.json", DemoHandler::PutDemoJson),
    ];
    for (index, (method, path, handler)) in cases.iter().enumerate() {
        let (route, _) = router.match_route(*method, path).expect("a match");
        assert_eq!(route, index);
        assert_eq!(router.route(route).handler, *handler);
    }
}

#[test]
fn demo_handlers_answer_as_declared() {
    assert_eq!(hello(), HandlerResult::Text("Hello, World!".to_string()));
    assert_eq!(
        get_demo_html(),
        HandlerResult::Html("<h1>Hello, this is HTML Text!</h1>".to_string())
    );
    assert_eq!(
        demo_status(),
        HandlerResult::Status { status: 200, message: "Everything is OK".to_string() }
    );
    assert_eq!(demo_uri("/demo-uri?a=1"), HandlerResult::Text("The URI is: /demo-uri?a=1".to_string()));
    assert_eq!(get_foo(), HandlerResult::Text("GET foo".to_string()));
    assert_eq!(put_foo(), HandlerResult::Text("PUT foo".to_string()));
    assert_eq!(patch_foo(), HandlerResult::Text("PATCH foo".to_string()));
    assert_eq!(post_foo(), HandlerResult::Text("POST foo".to_string()));
    assert_eq!(delete_foo(), HandlerResult::Text("DELETE foo".to_string()));
    match hello_html() {
        HandlerResult::Html(page) => {
            assert!(page.starts_with("<!DOCTYPE html>"));
            assert!(page.contains("<h1>Hello, World!</h1>"));
        }
        other => panic!("unexpected {:?}", other),
    }
    assert_eq!(prefixed("ab", "cd"), "abcd");
}

#[test]
fn demo_serves_pages_over_the_table() {
    let out = demo(HttpMethod::Get, "/", b"");
    assert_eq!((out.status, text_of(&out).as_str()), (200, "Hello, World!"));
    let out = demo(HttpMethod::Get, "/demo.html", b"");
    assert_eq!(header(&out), ("content-type", "text/html"));
    assert_eq!(text_of(&out), "<h1>Hello, this is HTML Text!</h1>");
    let out = demo(HttpMethod::Get, "/hello.html", b"");
    assert_eq!(header(&out), ("content-type", "text/html"));
    let out = demo(HttpMethod::Get, "/demo-status", b"");
    assert_eq!((out.status, text_of(&out).as_str()), (200, "Everything is OK"));
    let out = demo(HttpMethod::Get, "/demo-uri?k=v", b"");
    assert_eq!(text_of(&out), "The URI is: /demo-uri?k=v");
}

#[test]
fn item_identifier_is_quoted() {
    assert_eq!(
        get_items_id("42"),
        HandlerResult::Text("Get items with path id: \"42\"".to_string())
    );
    assert_eq!(
        get_items_id("a\"b\n"),
        HandlerResult::Text("Get items with path id: \"a\\\"b\\n\"".to_string())
    );
    let out = demo(HttpMethod::Get, "/items/42", b"");
    assert_eq!(text_of(&out), "Get items with path id: \"42\"");
    assert_eq!(demo(HttpMethod::Get, "/items/42/x", b"").status, 404);
}

#[test]
fn query_parameters_are_listed_as_a_map() {
    let pairs = vec![
        ("a".to_string(), "2".to_string()),
        ("b".to_string(), "3".to_string()),
    ];
    let params = ParamMap::from_pairs(&pairs);
    assert_eq!(render_params(&params), "{\"a\": \"2\", \"b\": \"3\"}");
    assert_eq!(render_params(&ParamMap::new()), "{}");
    assert_eq!(
        get_items(&params),
        HandlerResult::Text("Get items with query params: {\"a\": \"2\", \"b\": \"3\"}".to_string())
    );
    let out = demo(HttpMethod::Get, "/items?a=1&a=2&b=3", b"");
    assert_eq!(text_of(&out), "Get items with query params: {\"a\": \"2\", \"b\": \"3\"}");
    let out = demo(HttpMethod::Get, "/items", b"");
    assert_eq!(text_of(&out), "Get items with query params: {}");
}

#[test]
fn picture_is_a_png_of_one_pixel() {
    match get_demo_png() {
        HandlerResult::Bytes { content_type, body } => {
            assert_eq!(content_type, "image/png");
            assert_eq!(body.len(), 70);
            assert_eq!(&body[..8], &[0x89, b'P', b'N', b'G', 0x0d, 0x0a, 0x1a, 0x0a]);
        }
        other => panic!("unexpected {:?}", other),
    }
    let out = demo(HttpMethod::Get, "/demo.png", b"");
    assert_eq!(out.status, 200);
    assert_eq!(header(&out), ("content-type", "image/png"));
    assert_eq!(&out.body[1..4], b"PNG");
    assert_eq!(
        png_result(None),
        HandlerResult::Status { status: 500, message: "Internal Server Error".to_string() }
    );
    assert_eq!(
        png_result(Some(vec![1, 2])),
        HandlerResult::Bytes { content_type: "image/png".to_string(), body: vec![1, 2] }
    );
}

#[test]
fn demo_document_is_a_b() {
    let mut map = serde_json::Map::new();
    map.insert("a".to_string(), serde_json::Value::String("b".to_string()));
    let value = serde_json::Value::Object(map);
    assert_eq!(get_demo_json(), HandlerResult::Structured(value.clone()));
    let out = demo(HttpMethod::Get, "/demo.json", b"");
    assert_eq!(out.status, 200);
    assert_eq!(header(&out), ("content-type", "application/json"));
    let back: serde_json::Value = serde_json::from_slice(&out.body).expect("valid JSON");
    assert_eq!(back, value);
    assert_eq!(json_result(Some(value.clone())), HandlerResult::Structured(value));
    assert_eq!(
        json_result(None),
        HandlerResult::Status { status: 500, message: "Internal Server Error".to_string() }
    );
}

#[test]
fn sent_document_is_described() {
    let value = serde_json::Value::Array(vec![
        serde_json::Value::Bool(true),
        serde_json::Value::String("x".to_string()),
    ]);
    assert_eq!(
        put_demo_json(&value),
        HandlerResult::Text("Put demo JSON data: Array [Bool(true), String(\"x\")]".to_string())
    );
    let out = demo(HttpMethod::Put, "/demo.json", b"[true, \"x\"]");
    assert_eq!(out.status, 200);
    assert_eq!(text_of(&out), "Put demo JSON data: Array [Bool(true), String(\"x\")]");
    let out = demo(HttpMethod::Put, "/demo.json", b"[true,");
    assert_eq!(out.status, 400);
}

#[test]
fn demo_refuses_a_body_over_its_limit() {
    let mut body = vec![b' '; BODY_LIMIT];
    body.push(b'1');
    let out = demo(HttpMethod::Put, "/demo.json", &body);
    assert_eq!(out.status, 413);
    assert_eq!(text_of(&out), "Payload Too Large");
    body.remove(0);
    let out = demo(HttpMethod::Put, "/demo.json", &body);
    assert_eq!(out.status, 200);
}

#[test]
fn handler_with_undeclared_arguments_answers_500() {
    let bad = HandlerResult::Status { status: 500, message: "Internal Server Error".to_string() };
    assert_eq!(invoke_demo(&DemoHandler::DemoUri, Vec::new()), bad);
    assert_eq!(
        invoke_demo(&DemoHandler::GetItemsId, vec![Extracted::RawPath("/x".to_string())]),
        bad
    );
    assert_eq!(
        invoke_demo(&DemoHandler::Fallback, vec![Extracted::RawPath("/x".to_string())]),
        bad
    );
    assert_eq!(
        invoke_demo(
            &DemoHandler::Fallback,
            vec![Extracted::RawPath("/x".to_string()), Extracted::Miss(Miss::NotFound)]
        ),
        HandlerResult::Status { status: 404, message: "No route for /x".to_string() }
    );
    assert_eq!(
        invoke_demo(&DemoHandler::Hello, vec![Extracted::RawPath("/x".to_string())]),
        HandlerResult::Text("Hello, World!".to_string())
    );
}
