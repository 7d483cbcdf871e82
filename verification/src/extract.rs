//! The extractor pipeline: the request as handlers see it, the kinds of
//! value a handler can ask for, and their extraction, which stops at the
//! first value that cannot be had.

use vstd::prelude::*;
use vstd::string::*;
use crate::method::HttpMethod;
use crate::outside::{
    decode_form,
    form_pairs,
    json_error_message,
    json_error_text,
    json_kind,
    json_kind_of,
    json_parse,
    parse_json,
    JsonKind,
};
use crate::params::{collapse, lookup, ParamMap, PathParams, QueryParams};
use crate::response::{HandlerResult, HandlerResultView};
use crate::text::{find_char, index_of, lemma_index_of, pairs_view, to_chars};

verus! {

/// Why no route took a request.
#[derive(Clone, Copy, Debug, PartialEq, Eq, Structural)]
pub enum Miss {
    /// No route matches the path under any method.
    NotFound,
    /// Some route matches the path, but none under the requested method.
    MethodNotAllowed,
}

/// The form a JSON body must have.
#[derive(Clone, Copy, Debug, PartialEq, Eq, Structural)]
pub enum JsonShape {
    Any,
    Null,
    Bool,
    Number,
    String,
    Array,
    Object,
}

impl JsonShape {
    /// Whether a document of the given kind has this shape.
    pub open spec fn spec_admits(self, kind: JsonKind) -> bool {
        match self {
            JsonShape::Any => true,
            JsonShape::Null => kind == JsonKind::Null,
            JsonShape::Bool => kind == JsonKind::Bool,
            JsonShape::Number => kind == JsonKind::Number,
            JsonShape::String => kind == JsonKind::String,
            JsonShape::Array => kind == JsonKind::Array,
            JsonShape::Object => kind == JsonKind::Object,
        }
    }

    /// Whether a document of the given kind has this shape.
    #[verifier::when_used_as_spec(spec_admits)]
    pub fn admits(self, kind: JsonKind) -> (out: bool)
        ensures
            out == self.spec_admits(kind),
    {
        match self {
            JsonShape::Any => true,
            JsonShape::Null => kind == JsonKind::Null,
            JsonShape::Bool => kind == JsonKind::Bool,
            JsonShape::Number => kind == JsonKind::Number,
            JsonShape::String => kind == JsonKind::String,
            JsonShape::Array => kind == JsonKind::Array,
            JsonShape::Object => kind == JsonKind::Object,
        }
    }
}

/// One value that a handler declares it needs.
#[derive(Clone, Debug, PartialEq, Eq)]
pub enum ExtractionKind {
    /// The request target as it was received.
    RawPath,
    /// The value captured from the path under this name.
    PathParam(String),
    /// All query parameters.
    QueryMap,
    /// The body read as JSON of the given shape.
    JsonBody(JsonShape),
}

/// An extraction kind as specifications see it.
pub enum KindView {
    RawPath,
    PathParam(Seq<char>),
    QueryMap,
    JsonBody(JsonShape),
}

impl View for ExtractionKind {
    type V = KindView;

    open spec fn view(&self) -> KindView {
        match self {
            ExtractionKind::RawPath => KindView::RawPath,
            ExtractionKind::PathParam(name) => KindView::PathParam(name@),
            ExtractionKind::QueryMap => KindView::QueryMap,
            ExtractionKind::JsonBody(shape) => KindView::JsonBody(*shape),
        }
    }
}

/// The views of a sequence of extraction kinds.
pub open spec fn kinds_view(v: Seq<ExtractionKind>) -> Seq<KindView> {
    Seq::new(v.len(), |i: int| v[i]@)
}

/// One argument handed to a handler.
#[derive(Debug, PartialEq)]
pub enum Extracted {
    RawPath(String),
    PathParam(String),
    QueryMap(QueryParams),
    Json(serde_json::Value),
    /// Handed to the fallback handler only: why no route took the request.
    Miss(Miss),
}

/// A handler argument as specifications see it.
pub enum ExtractedView {
    RawPath(Seq<char>),
    PathParam(Seq<char>),
    QueryMap(Seq<(Seq<char>, Seq<char>)>),
    Json(serde_json::Value),
    Miss(Miss),
}

impl View for Extracted {
    type V = ExtractedView;

    open spec fn view(&self) -> ExtractedView {
        match self {
            Extracted::RawPath(uri) => ExtractedView::RawPath(uri@),
            Extracted::PathParam(value) => ExtractedView::PathParam(value@),
            Extracted::QueryMap(params) => ExtractedView::QueryMap(params@),
            Extracted::Json(value) => ExtractedView::Json(*value),
            Extracted::Miss(miss) => ExtractedView::Miss(*miss),
        }
    }
}

/// The views of a sequence of handler arguments.
pub open spec fn extracted_view(v: Seq<Extracted>) -> Seq<ExtractedView> {
    Seq::new(v.len(), |i: int| v[i]@)
}

/// Why an extraction failed.
#[derive(Clone, Debug, PartialEq, Eq)]
pub enum ExtractError {
    /// The route's pattern binds no parameter of this name.
    MissingParameter(String),
    /// The body is no JSON of the expected shape; the text says why.
    MalformedBody(String),
    /// The body is longer than the configured limit.
    PayloadTooLarge,
}

/// An extraction error as specifications see it.
pub enum ExtractErrorView {
    MissingParameter(Seq<char>),
    MalformedBody(Seq<char>),
    PayloadTooLarge,
}

impl View for ExtractError {
    type V = ExtractErrorView;

    open spec fn view(&self) -> ExtractErrorView {
        match self {
            ExtractError::MissingParameter(name) => ExtractErrorView::MissingParameter(name@),
            ExtractError::MalformedBody(reason) => ExtractErrorView::MalformedBody(reason@),
            ExtractError::PayloadTooLarge => ExtractErrorView::PayloadTooLarge,
        }
    }
}

/// The per-request aggregate that extraction reads.
#[derive(Clone, Debug)]
pub struct RequestContext {
    pub method: HttpMethod,
    pub uri: String,
    pub headers: Vec<(String, String)>,
    pub path_params: PathParams,
    pub query_params: QueryParams,
    pub body: Vec<u8>,
}

/// A request context as specifications see it.
pub struct RequestView {
    pub method: HttpMethod,
    pub uri: Seq<char>,
    pub headers: Seq<(Seq<char>, Seq<char>)>,
    pub path_params: Seq<(Seq<char>, Seq<char>)>,
    pub query_params: Seq<(Seq<char>, Seq<char>)>,
    pub body: Seq<u8>,
}

impl View for RequestContext {
    type V = RequestView;

    open spec fn view(&self) -> RequestView {
        RequestView {
            method: self.method,
            uri: self.uri@,
            headers: pairs_view(self.headers@),
            path_params: self.path_params@,
            query_params: self.query_params@,
            body: self.body@,
        }
    }
}

/// The path of a request target: what precedes the first `?`.
pub open spec fn uri_path(uri: Seq<char>) -> Seq<char> {
    uri.take(index_of(uri, '?') as int)
}

/// The query string of a request target: what follows the first `?`, or
/// nothing where there is none.
pub open spec fn uri_query(uri: Seq<char>) -> Seq<char> {
    let n = index_of(uri, '?') as int;
    if n < uri.len() {
        uri.skip(n + 1)
    } else {
        Seq::empty()
    }
}

/// The query parameters of a request target: its decoded pairs, a later
/// value replacing an earlier one under the same key.
pub open spec fn query_params_of(uri: Seq<char>) -> Seq<(Seq<char>, Seq<char>)> {
    collapse(form_pairs(uri_query(uri)))
}

/// The context of a request whose path bound the given parameters.
pub open spec fn context_of(
    method: HttpMethod,
    uri: Seq<char>,
    headers: Seq<(Seq<char>, Seq<char>)>,
    path_params: Seq<(Seq<char>, Seq<char>)>,
    body: Seq<u8>,
) -> RequestView {
    RequestView {
        method,
        uri,
        headers,
        path_params,
        query_params: query_params_of(uri),
        body,
    }
}

/// What reading a body as JSON of a shape gives under a size limit. The
/// size is judged first, then the syntax, then the shape.
pub open spec fn extract_json_spec(body: Seq<u8>, limit: int, shape: JsonShape) -> Result<
    ExtractedView,
    ExtractErrorView,
> {
    if body.len() > limit {
        Err(ExtractErrorView::PayloadTooLarge)
    } else {
        match json_parse(body) {
            Err(error) => Err(ExtractErrorView::MalformedBody(json_error_text(error))),
            Ok(value) => if shape.spec_admits(json_kind(value)) {
                Ok(ExtractedView::Json(value))
            } else {
                Err(ExtractErrorView::MalformedBody("unexpected JSON shape"@))
            },
        }
    }
}

/// What one extraction gives for a request.
pub open spec fn extract_one_spec(kind: KindView, ctx: RequestView, limit: int) -> Result<
    ExtractedView,
    ExtractErrorView,
> {
    match kind {
        KindView::RawPath => Ok(ExtractedView::RawPath(ctx.uri)),
        KindView::PathParam(name) => match lookup(ctx.path_params, name) {
            Some(value) => Ok(ExtractedView::PathParam(value)),
            None => Err(ExtractErrorView::MissingParameter(name)),
        },
        KindView::QueryMap => Ok(ExtractedView::QueryMap(ctx.query_params)),
        KindView::JsonBody(shape) => extract_json_spec(ctx.body, limit, shape),
    }
}

/// What a list of extractions gives: every value in order, or the error of
/// the first extraction that fails.
pub open spec fn extract_all_spec(kinds: Seq<KindView>, ctx: RequestView, limit: int) -> Result<
    Seq<ExtractedView>,
    ExtractErrorView,
>
    decreases kinds.len(),
{
    if kinds.len() == 0 {
        Ok(Seq::empty())
    } else {
        match extract_all_spec(kinds.drop_last(), ctx, limit) {
            Err(error) => Err(error),
            Ok(values) => match extract_one_spec(kinds.last(), ctx, limit) {
                Ok(value) => Ok(values.push(value)),
                Err(error) => Err(error),
            },
        }
    }
}

/// An oversized body fails every JSON extraction with `PayloadTooLarge`,
/// whatever the body holds.
pub proof fn lemma_oversized_body(body: Seq<u8>, limit: int, shape: JsonShape)
    requires
        body.len() > limit,
    ensures
        extract_json_spec(body, limit, shape) == Err::<ExtractedView, ExtractErrorView>(
            ExtractErrorView::PayloadTooLarge,
        ),
{
}

/// Where the body is longer than the limit, a list of extractions that
/// gets as far as a JSON extraction fails there with `PayloadTooLarge`.
pub proof fn lemma_oversized_rejected(kinds: Seq<KindView>, ctx: RequestView, limit: int, k: int)
    requires
        0 <= k < kinds.len(),
        kinds[k] is JsonBody,
        ctx.body.len() > limit,
        forall|j: int| 0 <= j < k ==> extract_one_spec(#[trigger] kinds[j], ctx, limit) is Ok,
    ensures
        extract_all_spec(kinds, ctx, limit) == Err::<Seq<ExtractedView>, ExtractErrorView>(
            ExtractErrorView::PayloadTooLarge,
        ),
{
    let upto = kinds.take(k + 1);
    let before = kinds.take(k);
    assert(upto.drop_last() =~= before);
    assert(upto.last() == kinds[k]);
    assert forall|j: int| 0 <= j < before.len() implies extract_one_spec(
        #[trigger] before[j],
        ctx,
        limit,
    ) is Ok by {
        assert(before[j] == kinds[j]);
    }
    lemma_extract_all(before, ctx, limit);
    lemma_extract_prefix_error(kinds, ctx, limit, k + 1);
}

/// A list of extractions succeeds exactly when each of them does, and then
/// gives one value per extraction, in order.
pub proof fn lemma_extract_all(kinds: Seq<KindView>, ctx: RequestView, limit: int)
    ensures
        extract_all_spec(kinds, ctx, limit) is Ok <==> forall|i: int|
            0 <= i < kinds.len() ==> extract_one_spec(#[trigger] kinds[i], ctx, limit) is Ok,
        extract_all_spec(kinds, ctx, limit) matches Ok(values) ==> values.len() == kinds.len()
            && forall|i: int|
            0 <= i < kinds.len() ==> extract_one_spec(kinds[i], ctx, limit) == Ok::<
                ExtractedView,
                ExtractErrorView,
            >(#[trigger] values[i]),
    decreases kinds.len(),
{
    if kinds.len() > 0 {
        let init = kinds.drop_last();
        lemma_extract_all(init, ctx, limit);
        assert forall|i: int| 0 <= i < init.len() implies init[i] == kinds[i] by {}
        if extract_all_spec(kinds, ctx, limit) is Ok {
            assert forall|i: int| 0 <= i < kinds.len() implies extract_one_spec(
                #[trigger] kinds[i],
                ctx,
                limit,
            ) is Ok by {
                if i < init.len() {
                    assert(init[i] == kinds[i]);
                }
            }
        } else if extract_all_spec(init, ctx, limit) is Ok {
            assert(extract_one_spec(kinds[kinds.len() - 1], ctx, limit) is Err);
        } else {
            let i = choose|i: int|
                0 <= i < init.len() && !(extract_one_spec(#[trigger] init[i], ctx, limit) is Ok);
            assert(init[i] == kinds[i]);
        }
    }
}

/// The status and message with which an extraction error is answered. A
/// missing parameter is a defect of the server and is not detailed.
pub open spec fn error_result_spec(error: ExtractErrorView) -> HandlerResultView {
    match error {
        ExtractErrorView::MissingParameter(_) => HandlerResultView::Status {
            status: 500,
            message: "Internal Server Error"@,
        },
        ExtractErrorView::MalformedBody(reason) => HandlerResultView::Status {
            status: 400,
            message: reason,
        },
        ExtractErrorView::PayloadTooLarge => HandlerResultView::Status {
            status: 413,
            message: "Payload Too Large"@,
        },
    }
}

impl ExtractError {
    /// The result that answers this error in place of a handler's.
    pub fn into_result(self) -> (out: HandlerResult)
        ensures
            out@ == error_result_spec(self@),
    {
        match self {
            ExtractError::MissingParameter(_) => HandlerResult::Status {
                status: 500,
                message: "Internal Server Error".to_owned(),
            },
            ExtractError::MalformedBody(reason) => HandlerResult::Status {
                status: 400,
                message: reason,
            },
            ExtractError::PayloadTooLarge => HandlerResult::Status {
                status: 413,
                message: "Payload Too Large".to_owned(),
            },
        }
    }
}

/// Splits a request target at its first `?` into path and query string.
pub fn split_uri(uri: &str) -> (out: (String, String))
    ensures
        out.0@ == uri_path(uri@),
        out.1@ == uri_query(uri@),
{
    let chars = to_chars(uri);
    let n = chars.len();
    let mark = find_char(&chars, '?');
    proof {
        lemma_index_of(uri@, '?');
    }
    let path = uri.substring_char(0, mark);
    assert(uri@.subrange(0, mark as int) =~= uri@.take(mark as int));
    if mark < n {
        let query = uri.substring_char(mark + 1, n);
        assert(uri@.subrange(mark + 1, n as int) =~= uri@.skip(mark + 1));
        (path.to_owned(), query.to_owned())
    } else {
        (path.to_owned(), String::new())
    }
}

/// Reads the query parameters of a request target. Decoding never fails:
/// what is not a valid escape is kept as it stands.
pub fn parse_query(uri: &str) -> (out: QueryParams)
    ensures
        out@ == query_params_of(uri@),
{
    let parts = split_uri(uri);
    let pairs = decode_form(parts.1.as_str());
    ParamMap::from_pairs(&pairs)
}

impl RequestContext {
    /// The context of a request whose path bound `path_params`.
    pub fn new(
        method: HttpMethod,
        uri: String,
        headers: Vec<(String, String)>,
        path_params: PathParams,
        body: Vec<u8>,
    ) -> (out: RequestContext)
        ensures
            out@ == context_of(method, uri@, pairs_view(headers@), path_params@, body@),
    {
        let query_params = parse_query(uri.as_str());
        RequestContext { method, uri, headers, path_params, query_params, body }
    }
}

/// Reads a body as JSON of the given shape, refusing one that is longer
/// than `limit` before any parsing.
pub fn extract_json(body: &Vec<u8>, limit: usize, shape: JsonShape) -> (out: Result<
    Extracted,
    ExtractError,
>)
    ensures
        match out {
            Ok(value) => extract_json_spec(body@, limit as int, shape) == Ok::<
                ExtractedView,
                ExtractErrorView,
            >(value@),
            Err(error) => extract_json_spec(body@, limit as int, shape) == Err::<
                ExtractedView,
                ExtractErrorView,
            >(error@),
        },
{
    if body.len() > limit {
        return Err(ExtractError::PayloadTooLarge);
    }
    match parse_json(body.as_slice()) {
        Err(error) => Err(ExtractError::MalformedBody(json_error_message(&error))),
        Ok(value) => {
            if shape.admits(json_kind_of(&value)) {
                Ok(Extracted::Json(value))
            } else {
                Err(ExtractError::MalformedBody("unexpected JSON shape".to_owned()))
            }
        },
    }
}

/// Produces one value that a handler needs.
pub fn extract_one(kind: &ExtractionKind, ctx: &RequestContext, limit: usize) -> (out: Result<
    Extracted,
    ExtractError,
>)
    ensures
        match out {
            Ok(value) => extract_one_spec(kind@, ctx@, limit as int) == Ok::<
                ExtractedView,
                ExtractErrorView,
            >(value@),
            Err(error) => extract_one_spec(kind@, ctx@, limit as int) == Err::<
                ExtractedView,
                ExtractErrorView,
            >(error@),
        },
{
    match kind {
        ExtractionKind::RawPath => Ok(Extracted::RawPath(ctx.uri.clone())),
        ExtractionKind::PathParam(name) => match ctx.path_params.get(name.as_str()) {
            Some(value) => Ok(Extracted::PathParam(value.clone())),
            None => Err(ExtractError::MissingParameter(name.clone())),
        },
        ExtractionKind::QueryMap => Ok(Extracted::QueryMap(ctx.query_params.clone())),
        ExtractionKind::JsonBody(shape) => extract_json(&ctx.body, limit, *shape),
    }
}

/// Produces every value that a handler needs, in the order declared, and
/// stops at the first that cannot be had.
pub fn extract_all(kinds: &Vec<ExtractionKind>, ctx: &RequestContext, limit: usize) -> (out:
    Result<Vec<Extracted>, ExtractError>)
    ensures
        match out {
            Ok(values) => extract_all_spec(kinds_view(kinds@), ctx@, limit as int) == Ok::<
                Seq<ExtractedView>,
                ExtractErrorView,
            >(extracted_view(values@)),
            Err(error) => extract_all_spec(kinds_view(kinds@), ctx@, limit as int) == Err::<
                Seq<ExtractedView>,
                ExtractErrorView,
            >(error@),
        },
{
    let ghost all = kinds_view(kinds@);
    let mut values: Vec<Extracted> = Vec::new();
    let mut i: usize = 0;
    assert(all.take(0) =~= Seq::<KindView>::empty());
    assert(extracted_view(values@) =~= Seq::<ExtractedView>::empty());
    while i < kinds.len()
        invariant
            i <= kinds.len(),
            all == kinds_view(kinds@),
            extract_all_spec(all.take(i as int), ctx@, limit as int) == Ok::<
                Seq<ExtractedView>,
                ExtractErrorView,
            >(extracted_view(values@)),
        decreases kinds.len() - i,
    {
        proof {
            assert(all.take(i + 1).drop_last() =~= all.take(i as int));
            assert(all.take(i + 1).last() == kinds@[i as int]@);
        }
        let ghost before = extracted_view(values@);
        match extract_one(&kinds[i], ctx, limit) {
            Ok(value) => {
                values.push(value);
                assert(extracted_view(values@) =~= before.push(value@));
            },
            Err(error) => {
                proof {
                    lemma_extract_prefix_error(all, ctx@, limit as int, i + 1);
                }
                return Err(error);
            },
        }
        i = i + 1;
    }
    assert(all.take(kinds.len() as int) =~= all);
    Ok(values)
}

/// An error among the first `n` extractions is the error of the whole list.
proof fn lemma_extract_prefix_error(kinds: Seq<KindView>, ctx: RequestView, limit: int, n: int)
    requires
        0 <= n <= kinds.len(),
        extract_all_spec(kinds.take(n), ctx, limit) is Err,
    ensures
        extract_all_spec(kinds, ctx, limit) == extract_all_spec(kinds.take(n), ctx, limit),
    decreases kinds.len() - n,
{
    if n == kinds.len() {
        assert(kinds.take(n) =~= kinds);
    } else {
        assert(kinds.take(n + 1).drop_last() =~= kinds.take(n));
        lemma_extract_prefix_error(kinds, ctx, limit, n + 1);
    }
}

} // verus!
