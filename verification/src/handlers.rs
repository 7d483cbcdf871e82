//! The handlers of the demonstration server, the table that routes
//! requests to them, and the function that serves a request with them.

use vstd::pervasive::unreached;
use vstd::prelude::*;
use vstd::string::*;
use crate::extract::{
    error_result_spec,
    extracted_view,
    kinds_view,
    Extracted,
    ExtractedView,
    ExtractionKind,
    JsonShape,
    KindView,
    Miss,
};
use crate::method::HttpMethod;
use crate::outside::{
    base64_decoding,
    debug_string,
    debug_text,
    decode_base64,
    json_debug,
    json_debug_text,
    json_parse,
    parse_json,
};
use crate::params::QueryParams;
use crate::pattern::{segments_view, PathPattern, Segment, SegmentView};
use crate::response::{serialize_spec, HandlerResult, HandlerResultView, WireResponse};
use crate::router::{
    default_fallback,
    default_fallback_spec,
    fallback_args,
    resolve_spec,
    ResolutionView,
    RouteView,
    Router,
};
use crate::text::pairs_view;

verus! {

/// The largest JSON body, in bytes, that the demonstration server reads.
pub const BODY_LIMIT: usize = 1048576;

/// `prefix` followed by `rest`.
pub fn prefixed(prefix: &str, rest: &str) -> (out: String)
    ensures
        out@ == prefix@ + rest@,
{
    let mut out = prefix.to_owned();
    out.append(rest);
    out
}

/// The answer of a handler that was handed arguments it did not declare.
pub open spec fn bad_arguments_spec() -> HandlerResultView {
    HandlerResultView::Status { status: 500, message: "Internal Server Error"@ }
}

/// The answer of a handler that was handed arguments it did not declare.
pub fn bad_arguments() -> (out: HandlerResult)
    ensures
        out@ == bad_arguments_spec(),
{
    HandlerResult::Status { status: 500, message: "Internal Server Error".to_owned() }
}

/// Answers a request that no route takes with status 404 and a message
/// that names the request target.
pub fn handler_404(uri: &str) -> (out: HandlerResult)
    ensures
        out@ == default_fallback_spec(uri@, Miss::NotFound),
{
    default_fallback(uri, Miss::NotFound)
}

/// `GET /`: a greeting in plain text.
pub fn hello() -> (out: HandlerResult)
    ensures
        out@ == HandlerResultView::Text("Hello, World!"@),
{
    HandlerResult::Text("Hello, World!".to_owned())
}

/// `GET /demo.html`: a heading as HTML.
pub fn get_demo_html() -> (out: HandlerResult)
    ensures
        out@ == HandlerResultView::Html("<h1>Hello, this is HTML Text!</h1>"@),
{
    HandlerResult::Html("<h1>Hello, this is HTML Text!</h1>".to_owned())
}

/// The page served at `/hello.html`.
pub open spec fn hello_page() -> Seq<char> {
    "<!DOCTYPE html>\n<html>\n  <head>\n    <title>Hello</title>\n  </head>\n  <body>\n    <h1>Hello, World!</h1>\n  </body>\n</html>\n"@
}

/// `GET /hello.html`: a whole page as HTML.
pub fn hello_html() -> (out: HandlerResult)
    ensures
        out@ == HandlerResultView::Html(hello_page()),
{
    HandlerResult::Html(
        "<!DOCTYPE html>\n<html>\n  <head>\n    <title>Hello</title>\n  </head>\n  <body>\n    <h1>Hello, World!</h1>\n  </body>\n</html>\n".to_owned(),
    )
}

/// `GET /demo-status`: a status with a message.
pub fn demo_status() -> (out: HandlerResult)
    ensures
        out@ == (HandlerResultView::Status { status: 200, message: "Everything is OK"@ }),
{
    HandlerResult::Status { status: 200, message: "Everything is OK".to_owned() }
}

/// `GET /demo-uri`: the request's own target.
pub fn demo_uri(uri: &str) -> (out: HandlerResult)
    ensures
        out@ == HandlerResultView::Text("The URI is: "@ + uri@),
{
    HandlerResult::Text(prefixed("The URI is: ", uri))
}

/// The picture served at `/demo.png`, in base64.
pub open spec fn demo_png_text() -> Seq<char> {
    "iVBORw0KGgoAAAANSUhEUgAAAAEAAAABCAYAAAAfFcSJAAAADUlEQVR42mPk+89QDwADvgGOSHzRgAAAAABJRU5ErkJggg=="@
}

/// The answer for a picture given what decoding its text produced: the
/// bytes as `image/png`, or status 500 where the text did not decode.
pub open spec fn png_result_spec(decoded: Option<Seq<u8>>) -> HandlerResultView {
    match decoded {
        Some(bytes) => HandlerResultView::Bytes { content_type: "image/png"@, body: bytes },
        None => bad_arguments_spec(),
    }
}

/// The answer for a picture, given what decoding its text produced.
pub fn png_result(decoded: Option<Vec<u8>>) -> (out: HandlerResult)
    ensures
        out@ == png_result_spec(
            match decoded {
                Some(bytes) => Some(bytes@),
                None => None,
            },
        ),
{
    match decoded {
        Some(body) => HandlerResult::Bytes { content_type: "image/png".to_owned(), body },
        None => bad_arguments(),
    }
}

/// `GET /demo.png`: a picture of one pixel.
pub fn get_demo_png() -> (out: HandlerResult)
    ensures
        out@ == png_result_spec(base64_decoding(demo_png_text())),
{
    let decoded = match decode_base64(
        "iVBORw0KGgoAAAANSUhEUgAAAAEAAAABCAYAAAAfFcSJAAAADUlEQVR42mPk+89QDwADvgGOSHzRgAAAAABJRU5ErkJggg==",
    ) {
        Ok(bytes) => Some(bytes),
        Err(_) => None,
    };
    png_result(decoded)
}

/// `GET /foo`.
pub fn get_foo() -> (out: HandlerResult)
    ensures
        out@ == HandlerResultView::Text("GET foo"@),
{
    HandlerResult::Text("GET foo".to_owned())
}

/// `PUT /foo`.
pub fn put_foo() -> (out: HandlerResult)
    ensures
        out@ == HandlerResultView::Text("PUT foo"@),
{
    HandlerResult::Text("PUT foo".to_owned())
}

/// `PATCH /foo`.
pub fn patch_foo() -> (out: HandlerResult)
    ensures
        out@ == HandlerResultView::Text("PATCH foo"@),
{
    HandlerResult::Text("PATCH foo".to_owned())
}

/// `POST /foo`.
pub fn post_foo() -> (out: HandlerResult)
    ensures
        out@ == HandlerResultView::Text("POST foo"@),
{
    HandlerResult::Text("POST foo".to_owned())
}

/// `DELETE /foo`.
pub fn delete_foo() -> (out: HandlerResult)
    ensures
        out@ == HandlerResultView::Text("DELETE foo"@),
{
    HandlerResult::Text("DELETE foo".to_owned())
}

/// `GET /items/:id`: the captured identifier, quoted.
pub fn get_items_id(id: &str) -> (out: HandlerResult)
    ensures
        out@ == HandlerResultView::Text("Get items with path id: "@ + debug_text(id@)),
{
    let quoted = debug_string(id);
    HandlerResult::Text(prefixed("Get items with path id: ", quoted.as_str()))
}

/// One parameter as `"key": "value"`.
pub open spec fn entry_text(entry: (Seq<char>, Seq<char>)) -> Seq<char> {
    debug_text(entry.0) + ": "@ + debug_text(entry.1)
}

/// Parameters as `"key": "value"` items separated by `, `.
pub open spec fn entries_text(entries: Seq<(Seq<char>, Seq<char>)>) -> Seq<char>
    decreases entries.len(),
{
    if entries.len() == 0 {
        Seq::empty()
    } else if entries.len() == 1 {
        entry_text(entries[0])
    } else {
        entries_text(entries.drop_last()) + ", "@ + entry_text(entries.last())
    }
}

/// Parameters written as a map in braces, in the order of their entries.
pub open spec fn params_text(entries: Seq<(Seq<char>, Seq<char>)>) -> Seq<char> {
    "{"@ + entries_text(entries) + "}"@
}

/// Writes parameters as a map in braces, in the order of their entries.
pub fn render_params(params: &QueryParams) -> (out: String)
    ensures
        out@ == params_text(params@),
{
    let entries = params.entries();
    let ghost all = pairs_view(entries@);
    let mut items = String::new();
    let mut i: usize = 0;
    assert(all.take(0) =~= Seq::<(Seq<char>, Seq<char>)>::empty());
    while i < entries.len()
        invariant
            i <= entries.len(),
            all == pairs_view(entries@),
            items@ == entries_text(all.take(i as int)),
        decreases entries.len() - i,
    {
        let ghost before = all.take(i as int);
        let ghost now = all.take(i + 1);
        proof {
            assert(now.drop_last() =~= before);
            assert(now.last() == (entries@[i as int].0@, entries@[i as int].1@));
        }
        if i > 0 {
            items.append(", ");
        }
        let ghost lead = items@;
        let key = debug_string(entries[i].0.as_str());
        let value = debug_string(entries[i].1.as_str());
        items.append(key.as_str());
        items.append(": ");
        items.append(value.as_str());
        proof {
            assert(items@ =~= lead + entry_text(now.last()));
            if i == 0 {
                assert(before.len() == 0);
                assert(lead =~= Seq::<char>::empty());
                assert(items@ =~= entry_text(now[0]));
            } else {
                assert(lead =~= entries_text(before) + ", "@);
            }
        }
        i = i + 1;
    }
    assert(all.take(entries.len() as int) =~= all);
    let mut out = "{".to_owned();
    out.append(items.as_str());
    out.append("}");
    out
}

/// `GET /items`: the query parameters, as a map.
pub fn get_items(params: &QueryParams) -> (out: HandlerResult)
    ensures
        out@ == HandlerResultView::Text("Get items with query params: "@ + params_text(params@)),
{
    let rendered = render_params(params);
    HandlerResult::Text(prefixed("Get items with query params: ", rendered.as_str()))
}

/// The text of the document served at `/demo.json`.
pub open spec fn demo_json_text() -> Seq<char> {
    "{\"a\":\"b\"}"@
}

/// The answer for a document given what reading its text produced: the
/// document, or status 500 where the text did not parse.
pub open spec fn json_result_spec(parsed: Option<serde_json::Value>) -> HandlerResultView {
    match parsed {
        Some(value) => HandlerResultView::Structured(value),
        None => bad_arguments_spec(),
    }
}

/// The answer for a document, given what reading its text produced.
pub fn json_result(parsed: Option<serde_json::Value>) -> (out: HandlerResult)
    ensures
        out@ == json_result_spec(parsed),
{
    match parsed {
        Some(value) => HandlerResult::Structured(value),
        None => bad_arguments(),
    }
}

/// What reading the text of the demonstration document gives.
pub open spec fn demo_json_parsed() -> Option<serde_json::Value> {
    match json_parse(vstd::utf8::encode_utf8(demo_json_text())) {
        Ok(value) => Some(value),
        Err(_) => None,
    }
}

/// `GET /demo.json`: a small JSON document.
pub fn get_demo_json() -> (out: HandlerResult)
    ensures
        out@ == json_result_spec(demo_json_parsed()),
{
    let parsed = match parse_json("{\"a\":\"b\"}".as_bytes()) {
        Ok(value) => Some(value),
        Err(_) => None,
    };
    json_result(parsed)
}

/// `PUT /demo.json`: the document that was sent, described.
pub fn put_demo_json(data: &serde_json::Value) -> (out: HandlerResult)
    ensures
        out@ == HandlerResultView::Text("Put demo JSON data: "@ + json_debug_text(*data)),
{
    let described = json_debug(data);
    HandlerResult::Text(prefixed("Put demo JSON data: ", described.as_str()))
}

/// The handlers of the demonstration server, as values.
#[derive(Clone, Copy, Debug, PartialEq, Eq, Structural)]
pub enum DemoHandler {
    Hello,
    DemoHtml,
    HelloHtml,
    DemoStatus,
    DemoUri,
    DemoPng,
    GetFoo,
    PutFoo,
    PatchFoo,
    PostFoo,
    DeleteFoo,
    GetItemsId,
    GetItems,
    GetDemoJson,
    PutDemoJson,
    Fallback,
}

/// What a handler returns for the arguments it is handed. A handler that
/// is handed anything but what it declares answers with status 500.
pub open spec fn demo_outcome(handler: DemoHandler, args: Seq<ExtractedView>) -> HandlerResultView {
    match handler {
        DemoHandler::Hello => HandlerResultView::Text("Hello, World!"@),
        DemoHandler::DemoHtml => HandlerResultView::Html("<h1>Hello, this is HTML Text!</h1>"@),
        DemoHandler::HelloHtml => HandlerResultView::Html(hello_page()),
        DemoHandler::DemoStatus => HandlerResultView::Status {
            status: 200,
            message: "Everything is OK"@,
        },
        DemoHandler::DemoUri => if args.len() == 1 && args[0] is RawPath {
            HandlerResultView::Text("The URI is: "@ + args[0]->RawPath_0)
        } else {
            bad_arguments_spec()
        },
        DemoHandler::DemoPng => png_result_spec(base64_decoding(demo_png_text())),
        DemoHandler::GetFoo => HandlerResultView::Text("GET foo"@),
        DemoHandler::PutFoo => HandlerResultView::Text("PUT foo"@),
        DemoHandler::PatchFoo => HandlerResultView::Text("PATCH foo"@),
        DemoHandler::PostFoo => HandlerResultView::Text("POST foo"@),
        DemoHandler::DeleteFoo => HandlerResultView::Text("DELETE foo"@),
        DemoHandler::GetItemsId => if args.len() == 1 && args[0] is PathParam {
            HandlerResultView::Text(
                "Get items with path id: "@ + debug_text(args[0]->PathParam_0),
            )
        } else {
            bad_arguments_spec()
        },
        DemoHandler::GetItems => if args.len() == 1 && args[0] is QueryMap {
            HandlerResultView::Text(
                "Get items with query params: "@ + params_text(args[0]->QueryMap_0),
            )
        } else {
            bad_arguments_spec()
        },
        DemoHandler::GetDemoJson => json_result_spec(demo_json_parsed()),
        DemoHandler::PutDemoJson => if args.len() == 1 && args[0] is Json {
            HandlerResultView::Text("Put demo JSON data: "@ + json_debug_text(args[0]->Json_0))
        } else {
            bad_arguments_spec()
        },
        DemoHandler::Fallback => if args.len() == 2 && args[0] is RawPath && args[1] is Miss {
            default_fallback_spec(args[0]->RawPath_0, args[1]->Miss_0)
        } else {
            bad_arguments_spec()
        },
    }
}

/// Runs a handler with the arguments extracted for it.
pub fn invoke_demo(handler: &DemoHandler, args: Vec<Extracted>) -> (out: HandlerResult)
    ensures
        out@ == demo_outcome(*handler, extracted_view(args@)),
{
    match handler {
        DemoHandler::Hello => hello(),
        DemoHandler::DemoHtml => get_demo_html(),
        DemoHandler::HelloHtml => hello_html(),
        DemoHandler::DemoStatus => demo_status(),
        DemoHandler::DemoUri => {
            if args.len() == 1 {
                match &args[0] {
                    Extracted::RawPath(uri) => demo_uri(uri.as_str()),
                    _ => bad_arguments(),
                }
            } else {
                bad_arguments()
            }
        },
        DemoHandler::DemoPng => get_demo_png(),
        DemoHandler::GetFoo => get_foo(),
        DemoHandler::PutFoo => put_foo(),
        DemoHandler::PatchFoo => patch_foo(),
        DemoHandler::PostFoo => post_foo(),
        DemoHandler::DeleteFoo => delete_foo(),
        DemoHandler::GetItemsId => {
            if args.len() == 1 {
                match &args[0] {
                    Extracted::PathParam(id) => get_items_id(id.as_str()),
                    _ => bad_arguments(),
                }
            } else {
                bad_arguments()
            }
        },
        DemoHandler::GetItems => {
            if args.len() == 1 {
                match &args[0] {
                    Extracted::QueryMap(params) => get_items(params),
                    _ => bad_arguments(),
                }
            } else {
                bad_arguments()
            }
        },
        DemoHandler::GetDemoJson => get_demo_json(),
        DemoHandler::PutDemoJson => {
            if args.len() == 1 {
                match &args[0] {
                    Extracted::Json(data) => put_demo_json(data),
                    _ => bad_arguments(),
                }
            } else {
                bad_arguments()
            }
        },
        DemoHandler::Fallback => {
            if args.len() == 2 {
                match (&args[0], &args[1]) {
                    (Extracted::RawPath(uri), Extracted::Miss(miss)) => default_fallback(
                        uri.as_str(),
                        *miss,
                    ),
                    _ => bad_arguments(),
                }
            } else {
                bad_arguments()
            }
        },
    }
}

/// A route of the demonstration table.
pub open spec fn route_view(method: HttpMethod, pattern: Seq<SegmentView>, needs: Seq<KindView>)
    -> RouteView {
    RouteView { method, pattern, needs }
}

/// The pattern of a path with one literal segment.
pub open spec fn lit(name: Seq<char>) -> Seq<SegmentView> {
    seq![SegmentView::Literal(name)]
}

/// The routes of the demonstration server, in registration order.
pub open spec fn demo_table() -> Seq<RouteView> {
    seq![
        route_view(HttpMethod::Get, Seq::empty(), Seq::empty()),
        route_view(HttpMethod::Get, lit("demo.html"@), Seq::empty()),
        route_view(HttpMethod::Get, lit("hello.html"@), Seq::empty()),
        route_view(HttpMethod::Get, lit("demo-status"@), Seq::empty()),
        route_view(HttpMethod::Get, lit("demo-uri"@), seq![KindView::RawPath]),
        route_view(HttpMethod::Get, lit("demo.png"@), Seq::empty()),
        route_view(HttpMethod::Get, lit("foo"@), Seq::empty()),
        route_view(HttpMethod::Put, lit("foo"@), Seq::empty()),
        route_view(HttpMethod::Patch, lit("foo"@), Seq::empty()),
        route_view(HttpMethod::Post, lit("foo"@), Seq::empty()),
        route_view(HttpMethod::Delete, lit("foo"@), Seq::empty()),
        route_view(
            HttpMethod::Get,
            seq![SegmentView::Literal("items"@), SegmentView::Named("id"@)],
            seq![KindView::PathParam("id"@)],
        ),
        route_view(HttpMethod::Get, lit("items"@), seq![KindView::QueryMap]),
        route_view(HttpMethod::Get, lit("demo.json"@), Seq::empty()),
        route_view(HttpMethod::Put, lit("demo.json"@), seq![KindView::JsonBody(JsonShape::Any)]),
    ]
}

/// The handlers of the demonstration routes, in registration order.
pub open spec fn demo_handlers() -> Seq<DemoHandler> {
    seq![
        DemoHandler::Hello,
        DemoHandler::DemoHtml,
        DemoHandler::HelloHtml,
        DemoHandler::DemoStatus,
        DemoHandler::DemoUri,
        DemoHandler::DemoPng,
        DemoHandler::GetFoo,
        DemoHandler::PutFoo,
        DemoHandler::PatchFoo,
        DemoHandler::PostFoo,
        DemoHandler::DeleteFoo,
        DemoHandler::GetItemsId,
        DemoHandler::GetItems,
        DemoHandler::GetDemoJson,
        DemoHandler::PutDemoJson,
    ]
}

fn pattern_of_segments(segments: Vec<Segment>) -> (out: PathPattern)
    requires
        forall|i: int| 0 <= i < segments.len() ==> !(#[trigger] segments[i]@ is Wildcard),
    ensures
        out@ == segments_view(segments@),
{
    let ghost view = segments_view(segments@);
    assert forall|i: int| 0 <= i < view.len() implies !(#[trigger] view[i] is Wildcard) by {
        assert(view[i] == segments[i]@);
    }
    match PathPattern::from_segments(segments) {
        Ok(pattern) => pattern,
        Err(_) => unreached(),
    }
}

fn root_pattern() -> (out: PathPattern)
    ensures
        out@ == Seq::<SegmentView>::empty(),
{
    let out = pattern_of_segments(Vec::new());
    assert(out@ =~= Seq::<SegmentView>::empty());
    out
}

fn literal_pattern(name: &str) -> (out: PathPattern)
    ensures
        out@ == lit(name@),
{
    let mut segments: Vec<Segment> = Vec::new();
    segments.push(Segment::Literal(name.to_owned()));
    let out = pattern_of_segments(segments);
    assert(out@ =~= lit(name@));
    out
}

fn item_pattern() -> (out: PathPattern)
    ensures
        out@ == seq![SegmentView::Literal("items"@), SegmentView::Named("id"@)],
{
    let mut segments: Vec<Segment> = Vec::new();
    segments.push(Segment::Literal("items".to_owned()));
    segments.push(Segment::Named("id".to_owned()));
    let out = pattern_of_segments(segments);
    assert(out@ =~= seq![SegmentView::Literal("items"@), SegmentView::Named("id"@)]);
    out
}

fn no_needs() -> (out: Vec<ExtractionKind>)
    ensures
        kinds_view(out@) == Seq::<KindView>::empty(),
{
    let out: Vec<ExtractionKind> = Vec::new();
    assert(kinds_view(out@) =~= Seq::<KindView>::empty());
    out
}

fn one_need(kind: ExtractionKind) -> (out: Vec<ExtractionKind>)
    ensures
        kinds_view(out@) == seq![kind@],
{
    let mut out: Vec<ExtractionKind> = Vec::new();
    out.push(kind);
    assert(kinds_view(out@) =~= seq![kind@]);
    out
}

/// Builds the route table of the demonstration server.
pub fn demo_router() -> (out: Router<DemoHandler>)
    ensures
        out.table() == demo_table(),
        forall|i: int| 0 <= i < demo_handlers().len() ==> out.handler_at(i) == demo_handlers()[i],
        out.fallback_handler() == Some(DemoHandler::Fallback),
        out.limit() == BODY_LIMIT,
{
    let mut router: Router<DemoHandler> = Router::new(BODY_LIMIT);
    router.set_fallback(DemoHandler::Fallback);
    router.register(HttpMethod::Get, root_pattern(), no_needs(), DemoHandler::Hello);
    router.register(
        HttpMethod::Get,
        literal_pattern("demo.html"),
        no_needs(),
        DemoHandler::DemoHtml,
    );
    router.register(
        HttpMethod::Get,
        literal_pattern("hello.html"),
        no_needs(),
        DemoHandler::HelloHtml,
    );
    router.register(
        HttpMethod::Get,
        literal_pattern("demo-status"),
        no_needs(),
        DemoHandler::DemoStatus,
    );
    router.register(
        HttpMethod::Get,
        literal_pattern("demo-uri"),
        one_need(ExtractionKind::RawPath),
        DemoHandler::DemoUri,
    );
    router.register(HttpMethod::Get, literal_pattern("demo.png"), no_needs(), DemoHandler::DemoPng);
    router.register(HttpMethod::Get, literal_pattern("foo"), no_needs(), DemoHandler::GetFoo);
    router.register(HttpMethod::Put, literal_pattern("foo"), no_needs(), DemoHandler::PutFoo);
    router.register(HttpMethod::Patch, literal_pattern("foo"), no_needs(), DemoHandler::PatchFoo);
    router.register(HttpMethod::Post, literal_pattern("foo"), no_needs(), DemoHandler::PostFoo);
    router.register(HttpMethod::Delete, literal_pattern("foo"), no_needs(), DemoHandler::DeleteFoo);
    router.register(
        HttpMethod::Get,
        item_pattern(),
        one_need(ExtractionKind::PathParam("id".to_owned())),
        DemoHandler::GetItemsId,
    );
    router.register(
        HttpMethod::Get,
        literal_pattern("items"),
        one_need(ExtractionKind::QueryMap),
        DemoHandler::GetItems,
    );
    router.register(
        HttpMethod::Get,
        literal_pattern("demo.json"),
        no_needs(),
        DemoHandler::GetDemoJson,
    );
    router.register(
        HttpMethod::Put,
        literal_pattern("demo.json"),
        one_need(ExtractionKind::JsonBody(JsonShape::Any)),
        DemoHandler::PutDemoJson,
    );
    assert(router.table() =~= demo_table());
    router
}

/// The response of the demonstration server to a request, given its route
/// table: the serialized outcome of the handler that the request resolves
/// to, of the error that extraction met, or of the fallback.
pub open spec fn demo_response(
    router: Router<DemoHandler>,
    method: HttpMethod,
    uri: Seq<char>,
    headers: Seq<(Seq<char>, Seq<char>)>,
    body: Seq<u8>,
) -> HandlerResultView {
    match resolve_spec(router.table(), router.limit() as int, method, uri, headers, body) {
        ResolutionView::Invoke { route, args } => demo_outcome(router.handler_at(route), args),
        ResolutionView::Reject(error) => error_result_spec(error),
        ResolutionView::Unmatched(miss) => match router.fallback_handler() {
            Some(handler) => demo_outcome(handler, fallback_args(uri, miss)),
            None => default_fallback_spec(uri, miss),
        },
    }
}

/// Serves one request with the demonstration handlers.
pub fn serve_demo(
    router: &Router<DemoHandler>,
    method: HttpMethod,
    uri: String,
    headers: Vec<(String, String)>,
    body: Vec<u8>,
) -> (out: WireResponse)
    ensures
        out@ == serialize_spec(demo_response(*router, method, uri@, pairs_view(headers@), body@)),
{
    router.dispatch(method, uri, headers, body, invoke_demo)
}

} // verus!
