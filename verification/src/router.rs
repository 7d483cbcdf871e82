//! The route table and the dispatch of a request through matching,
//! extraction, the handler and serialization.

use vstd::prelude::*;
use vstd::string::*;
use crate::extract::{
    context_of,
    error_result_spec,
    extract_all,
    extract_all_spec,
    extracted_view,
    kinds_view,
    lemma_oversized_rejected,
    split_uri,
    uri_path,
    ExtractError,
    ExtractErrorView,
    Extracted,
    ExtractedView,
    ExtractionKind,
    KindView,
    Miss,
    RequestContext,
};
use crate::method::HttpMethod;
use crate::params::PathParams;
use crate::pattern::{bind, literal_prefix_len, PathPattern, SegmentView};
use crate::response::{
    serialize,
    serialize_spec,
    HandlerResult,
    HandlerResultView,
    WireResponse,
};
use crate::text::{pairs_view, split_path, split_segments, strings_view};

verus! {

/// A registered route. `H` is whatever the caller uses to refer to a
/// handler; the router stores it and hands it back.
pub struct Route<H> {
    pub method: HttpMethod,
    pub pattern: PathPattern,
    pub needs: Vec<ExtractionKind>,
    pub handler: H,
}

/// What matching and extraction read of a route.
pub struct RouteView {
    pub method: HttpMethod,
    pub pattern: Seq<SegmentView>,
    pub needs: Seq<KindView>,
}

impl<H> View for Route<H> {
    type V = RouteView;

    open spec fn view(&self) -> RouteView {
        RouteView { method: self.method, pattern: self.pattern@, needs: kinds_view(self.needs@) }
    }
}

/// The views of a sequence of routes.
pub open spec fn routes_view<H>(v: Seq<Route<H>>) -> Seq<RouteView> {
    Seq::new(v.len(), |i: int| v[i]@)
}

/// Route `i` is registered under the method and its pattern binds the path.
pub open spec fn candidate(
    table: Seq<RouteView>,
    method: HttpMethod,
    segs: Seq<Seq<char>>,
    i: int,
) -> bool {
    0 <= i < table.len() && table[i].method == method && bind(table[i].pattern, segs) is Some
}

/// Route `i` is preferred to route `j`, or is the same route: it has more
/// literal segments before its first variable one, or as many and was
/// registered no later.
pub open spec fn outranks(table: Seq<RouteView>, i: int, j: int) -> bool {
    let a = literal_prefix_len(table[i].pattern);
    let b = literal_prefix_len(table[j].pattern);
    a > b || (a == b && i <= j)
}

/// Route `i` is a candidate that every candidate yields to.
pub open spec fn is_best(
    table: Seq<RouteView>,
    method: HttpMethod,
    segs: Seq<Seq<char>>,
    i: int,
) -> bool {
    candidate(table, method, segs, i) && forall|j: int| #[trigger]
        candidate(table, method, segs, j) ==> outranks(table, i, j)
}

/// The route that takes a path under a method, if any does.
pub open spec fn best_route(table: Seq<RouteView>, method: HttpMethod, segs: Seq<Seq<char>>)
    -> Option<int> {
    if exists|i: int| is_best(table, method, segs, i) {
        Some(choose|i: int| is_best(table, method, segs, i))
    } else {
        None
    }
}

/// Some route, under whatever method, has a pattern that binds the path.
pub open spec fn path_known(table: Seq<RouteView>, segs: Seq<Seq<char>>) -> bool {
    exists|j: int| 0 <= j < table.len() && #[trigger] bind(table[j].pattern, segs) is Some
}

/// The outcome of matching: the preferred route with what its pattern
/// captured, or the reason why no route takes the request.
pub open spec fn match_spec(table: Seq<RouteView>, method: HttpMethod, path: Seq<char>) -> Result<
    (int, Seq<(Seq<char>, Seq<char>)>),
    Miss,
> {
    let segs = split_path(path);
    match best_route(table, method, segs) {
        Some(i) => Ok((i, bind(table[i].pattern, segs)->0)),
        None => if path_known(table, segs) {
            Err(Miss::MethodNotAllowed)
        } else {
            Err(Miss::NotFound)
        },
    }
}

/// Matching is deterministic: two routes that are both preferred over all
/// candidates are the same route.
pub proof fn lemma_best_unique(
    table: Seq<RouteView>,
    method: HttpMethod,
    segs: Seq<Seq<char>>,
    i: int,
    k: int,
)
    requires
        is_best(table, method, segs, i),
        is_best(table, method, segs, k),
    ensures
        i == k,
{
    assert(candidate(table, method, segs, i));
    assert(candidate(table, method, segs, k));
    assert(outranks(table, i, k));
    assert(outranks(table, k, i));
}

/// The best candidate among the first `n` routes, if there is a candidate
/// among them.
pub open spec fn best_among(
    table: Seq<RouteView>,
    method: HttpMethod,
    segs: Seq<Seq<char>>,
    n: int,
) -> Option<int>
    decreases n,
{
    if n <= 0 {
        None
    } else {
        let before = best_among(table, method, segs, n - 1);
        if candidate(table, method, segs, n - 1) && (before matches Some(b) ==> literal_prefix_len(
            table[n - 1].pattern,
        ) > literal_prefix_len(table[b].pattern)) {
            Some(n - 1)
        } else {
            before
        }
    }
}

/// `best_among` yields to no candidate among the first `n` routes, and is
/// `None` only where there is no candidate among them.
pub proof fn lemma_best_among(
    table: Seq<RouteView>,
    method: HttpMethod,
    segs: Seq<Seq<char>>,
    n: int,
)
    requires
        0 <= n <= table.len(),
    ensures
        match best_among(table, method, segs, n) {
            Some(i) => 0 <= i < n && candidate(table, method, segs, i) && forall|j: int|
                j < n && #[trigger] candidate(table, method, segs, j) ==> outranks(table, i, j),
            None => forall|j: int| j < n ==> !#[trigger] candidate(table, method, segs, j),
        },
    decreases n,
{
    if n > 0 {
        lemma_best_among(table, method, segs, n - 1);
    }
}

/// A route is found exactly when some route of the method binds the path,
/// and the route found is the best of the whole table.
pub proof fn lemma_best_route(table: Seq<RouteView>, method: HttpMethod, segs: Seq<Seq<char>>)
    ensures
        best_route(table, method, segs) == best_among(table, method, segs, table.len() as int),
        best_route(table, method, segs) is Some <==> exists|j: int|
            candidate(table, method, segs, j),
        best_route(table, method, segs) matches Some(i) ==> is_best(table, method, segs, i),
{
    let n = table.len() as int;
    lemma_best_among(table, method, segs, n);
    match best_among(table, method, segs, n) {
        Some(i) => {
            assert(is_best(table, method, segs, i));
            let k = choose|k: int| is_best(table, method, segs, k);
            lemma_best_unique(table, method, segs, i, k);
        },
        None => {
            assert forall|i: int| !is_best(table, method, segs, i) by {
                if candidate(table, method, segs, i) {
                    assert(i < n);
                }
            }
        },
    }
}

/// A request under a method that no route of the path carries is told
/// apart from a request for an unknown path.
pub proof fn lemma_miss_kinds(table: Seq<RouteView>, method: HttpMethod, path: Seq<char>)
    ensures
        match_spec(table, method, path) == Err::<(int, Seq<(Seq<char>, Seq<char>)>), Miss>(
            Miss::MethodNotAllowed,
        ) <==> (path_known(table, split_path(path)) && forall|j: int|
            !candidate(table, method, split_path(path), j)),
        match_spec(table, method, path) == Err::<(int, Seq<(Seq<char>, Seq<char>)>), Miss>(
            Miss::NotFound,
        ) <==> !path_known(table, split_path(path)),
{
    let segs = split_path(path);
    lemma_best_route(table, method, segs);
    if !path_known(table, segs) {
        assert forall|j: int| !candidate(table, method, segs, j) by {
            if candidate(table, method, segs, j) {
                assert(bind(table[j].pattern, segs) is Some);
            }
        }
    }
}

/// An oversized body on a route that reads JSON first is rejected with
/// `PayloadTooLarge`, and the answer carries status 413 whatever the
/// handlers are.
pub proof fn lemma_oversized_body_rejected(
    table: Seq<RouteView>,
    limit: int,
    method: HttpMethod,
    uri: Seq<char>,
    headers: Seq<(Seq<char>, Seq<char>)>,
    body: Seq<u8>,
)
    requires
        match_spec(table, method, uri_path(uri)) matches Ok((route, _)) && table[route].needs.len()
            > 0 && table[route].needs[0] is JsonBody,
        body.len() > limit,
    ensures
        resolve_spec(table, limit, method, uri, headers, body) == ResolutionView::Reject(
            ExtractErrorView::PayloadTooLarge,
        ),
        serialize_spec(error_result_spec(ExtractErrorView::PayloadTooLarge)).status == 413,
{
    let found = match_spec(table, method, uri_path(uri))->Ok_0;
    lemma_oversized_rejected(
        table[found.0].needs,
        context_of(method, uri, headers, found.1, body),
        limit,
        0,
    );
}

/// What the router decides for a request before any handler runs.
#[derive(Debug, PartialEq)]
pub enum Resolution {
    /// Run the handler of this route with these arguments.
    Invoke { route: usize, args: Vec<Extracted> },
    /// Extraction failed: answer with the error, run no handler.
    Reject(ExtractError),
    /// No route took the request: run the fallback.
    Unmatched(Miss),
}

/// A resolution as specifications see it.
pub enum ResolutionView {
    Invoke { route: int, args: Seq<ExtractedView> },
    Reject(ExtractErrorView),
    Unmatched(Miss),
}

impl View for Resolution {
    type V = ResolutionView;

    open spec fn view(&self) -> ResolutionView {
        match self {
            Resolution::Invoke { route, args } => ResolutionView::Invoke {
                route: *route as int,
                args: extracted_view(args@),
            },
            Resolution::Reject(error) => ResolutionView::Reject(error@),
            Resolution::Unmatched(miss) => ResolutionView::Unmatched(*miss),
        }
    }
}

/// The decision for a request: match the path of the target, then extract
/// what the matched route declares.
pub open spec fn resolve_spec(
    table: Seq<RouteView>,
    limit: int,
    method: HttpMethod,
    uri: Seq<char>,
    headers: Seq<(Seq<char>, Seq<char>)>,
    body: Seq<u8>,
) -> ResolutionView {
    match match_spec(table, method, uri_path(uri)) {
        Err(miss) => ResolutionView::Unmatched(miss),
        Ok((route, params)) => match extract_all_spec(
            table[route].needs,
            context_of(method, uri, headers, params, body),
            limit,
        ) {
            Ok(args) => ResolutionView::Invoke { route, args },
            Err(error) => ResolutionView::Reject(error),
        },
    }
}

/// What the fallback handler is handed: the request target and the reason.
pub open spec fn fallback_args(uri: Seq<char>, miss: Miss) -> Seq<ExtractedView> {
    seq![ExtractedView::RawPath(uri), ExtractedView::Miss(miss)]
}

/// The answer to an unmatched request where no fallback is registered:
/// 404 naming the request target, or 405 with an empty body.
pub open spec fn default_fallback_spec(uri: Seq<char>, miss: Miss) -> HandlerResultView {
    match miss {
        Miss::NotFound => HandlerResultView::Status {
            status: 404,
            message: "No route for "@ + uri,
        },
        Miss::MethodNotAllowed => HandlerResultView::Status {
            status: 405,
            message: Seq::empty(),
        },
    }
}

/// The answer to an unmatched request where no fallback is registered.
pub fn default_fallback(uri: &str, miss: Miss) -> (out: HandlerResult)
    ensures
        out@ == default_fallback_spec(uri@, miss),
{
    match miss {
        Miss::NotFound => {
            let mut message = "No route for ".to_owned();
            message.append(uri);
            HandlerResult::Status { status: 404, message }
        },
        Miss::MethodNotAllowed => HandlerResult::Status { status: 405, message: String::new() },
    }
}

/// `out` is the serialization of something that `invoke` may return for
/// the handler when given arguments with these views.
pub open spec fn answered_by<H, F: Fn(&H, Vec<Extracted>) -> HandlerResult>(
    invoke: F,
    handler: H,
    args: Seq<ExtractedView>,
    out: WireResponse,
) -> bool {
    exists|given: Vec<Extracted>, result: HandlerResult|
        #![trigger call_ensures(invoke, (&handler, given), result)]
        extracted_view(given@) == args && call_ensures(invoke, (&handler, given), result) && out@
            == serialize_spec(result@)
}

/// The table of routes, the fallback handler and the body limit. Routes
/// are only ever appended.
pub struct Router<H> {
    routes: Vec<Route<H>>,
    fallback: Option<H>,
    body_limit: usize,
}

impl<H> Router<H> {
    /// The routes in registration order, as matching reads them.
    pub closed spec fn table(&self) -> Seq<RouteView> {
        routes_view(self.routes@)
    }

    /// The handler of route `i`.
    pub closed spec fn handler_at(&self, i: int) -> H {
        self.routes@[i].handler
    }

    /// The registered fallback handler.
    pub closed spec fn fallback_handler(&self) -> Option<H> {
        self.fallback
    }

    /// The largest body, in bytes, that a JSON extraction reads.
    pub closed spec fn limit(&self) -> usize {
        self.body_limit
    }

    /// A router without routes or fallback.
    pub fn new(body_limit: usize) -> (out: Router<H>)
        ensures
            out.table() == Seq::<RouteView>::empty(),
            out.fallback_handler() is None,
            out.limit() == body_limit,
    {
        let out = Router { routes: Vec::new(), fallback: None, body_limit };
        assert(out.table() =~= Seq::<RouteView>::empty());
        out
    }

    /// Appends a route and returns its index. Earlier routes keep theirs.
    pub fn register(
        &mut self,
        method: HttpMethod,
        pattern: PathPattern,
        needs: Vec<ExtractionKind>,
        handler: H,
    ) -> (index: usize)
        ensures
            index == old(self).table().len(),
            final(self).table() == old(self).table().push(
                RouteView { method, pattern: pattern@, needs: kinds_view(needs@) },
            ),
            final(self).handler_at(index as int) == handler,
            forall|i: int|
                0 <= i < index ==> final(self).handler_at(i) == old(self).handler_at(i),
            final(self).fallback_handler() == old(self).fallback_handler(),
            final(self).limit() == old(self).limit(),
    {
        let index = self.routes.len();
        let ghost before = self.table();
        let route = Route { method, pattern, needs, handler };
        self.routes.push(route);
        assert(self.table() =~= before.push(route@));
        index
    }

    /// Registers the handler for requests that no route takes.
    pub fn set_fallback(&mut self, handler: H)
        ensures
            final(self).fallback_handler() == Some(handler),
            final(self).table() == old(self).table(),
            final(self).limit() == old(self).limit(),
            forall|i: int| final(self).handler_at(i) == old(self).handler_at(i),
    {
        self.fallback = Some(handler);
    }

    /// The number of routes.
    pub fn len(&self) -> (n: usize)
        ensures
            n == self.table().len(),
    {
        self.routes.len()
    }

    /// The configured body limit.
    pub fn body_limit(&self) -> (n: usize)
        ensures
            n == self.limit(),
    {
        self.body_limit
    }

    /// Route `i`.
    pub fn route(&self, i: usize) -> (out: &Route<H>)
        requires
            i < self.table().len(),
        ensures
            out@ == self.table()[i as int],
            out.handler == self.handler_at(i as int),
    {
        &self.routes[i]
    }

    /// The fallback handler, if one is registered.
    pub fn fallback(&self) -> (out: Option<&H>)
        ensures
            match out {
                Some(handler) => self.fallback_handler() == Some(*handler),
                None => self.fallback_handler() is None,
            },
    {
        match &self.fallback {
            Some(handler) => Some(handler),
            None => None,
        }
    }

    fn best_candidate(&self, method: HttpMethod, segs: &Vec<String>) -> (out: Option<
        (usize, PathParams),
    >)
        ensures
            match out {
                Some((i, params)) => best_route(self.table(), method, strings_view(segs@)) == Some(
                    i as int,
                ) && bind(self.table()[i as int].pattern, strings_view(segs@)) == Some(params@),
                None => best_route(self.table(), method, strings_view(segs@)) is None,
            },
    {
        let ghost table = self.table();
        let ghost path = strings_view(segs@);
        let mut best: Option<(usize, PathParams)> = None;
        let mut best_prefix: usize = 0;
        let mut i: usize = 0;
        while i < self.routes.len()
            invariant
                i <= self.routes.len(),
                table == self.table(),
                path == strings_view(segs@),
                match best {
                    Some((b, params)) => best_among(table, method, path, i as int) == Some(
                        b as int,
                    ) && b < i && bind(table[b as int].pattern, path) == Some(params@)
                        && best_prefix == literal_prefix_len(table[b as int].pattern),
                    None => best_among(table, method, path, i as int) is None,
                },
            decreases self.routes.len() - i,
        {
            let route = &self.routes[i];
            assert(table[i as int] == route@);
            if route.method == method {
                match route.pattern.bind(segs) {
                    Some(params) => {
                        let prefix = route.pattern.literal_prefix();
                        if best.is_none() || prefix > best_prefix {
                            best = Some((i, params));
                            best_prefix = prefix;
                        }
                    },
                    None => {},
                }
            }
            i = i + 1;
        }
        proof {
            lemma_best_route(table, method, path);
        }
        best
    }

    fn knows_path(&self, segs: &Vec<String>) -> (out: bool)
        ensures
            out == path_known(self.table(), strings_view(segs@)),
    {
        let ghost table = self.table();
        let ghost path = strings_view(segs@);
        let mut i: usize = 0;
        while i < self.routes.len()
            invariant
                i <= self.routes.len(),
                table == self.table(),
                path == strings_view(segs@),
                forall|j: int| 0 <= j < i ==> !(#[trigger] bind(table[j].pattern, path) is Some),
            decreases self.routes.len() - i,
        {
            assert(table[i as int] == self.routes@[i as int]@);
            if self.routes[i].pattern.bind(segs).is_some() {
                assert(bind(table[i as int].pattern, path) is Some);
                return true;
            }
            i = i + 1;
        }
        false
    }

    /// Finds the route for a method and a path: among the routes of the
    /// method whose pattern binds the path, the one with the most literal
    /// segments before its first variable one, and among equals the one
    /// registered first. Where none matches, says whether the path is known
    /// under another method.
    pub fn match_route(&self, method: HttpMethod, path: &str) -> (out: Result<
        (usize, PathParams),
        Miss,
    >)
        ensures
            match out {
                Ok((i, params)) => match_spec(self.table(), method, path@) == Ok::<
                    (int, Seq<(Seq<char>, Seq<char>)>),
                    Miss,
                >((i as int, params@)) && i < self.table().len(),
                Err(miss) => match_spec(self.table(), method, path@) == Err::<
                    (int, Seq<(Seq<char>, Seq<char>)>),
                    Miss,
                >(miss),
            },
    {
        let segs = split_segments(path);
        proof {
            lemma_best_route(self.table(), method, strings_view(segs@));
        }
        match self.best_candidate(method, &segs) {
            Some(found) => Ok(found),
            None => {
                if self.knows_path(&segs) {
                    Err(Miss::MethodNotAllowed)
                } else {
                    Err(Miss::NotFound)
                }
            },
        }
    }

    /// Decides what is to be done for a request: which route's handler to
    /// run with which arguments, or with which error to answer. No handler
    /// runs here.
    pub fn resolve(
        &self,
        method: HttpMethod,
        uri: String,
        headers: Vec<(String, String)>,
        body: Vec<u8>,
    ) -> (out: Resolution)
        ensures
            out@ == resolve_spec(
                self.table(),
                self.limit() as int,
                method,
                uri@,
                pairs_view(headers@),
                body@,
            ),
            out matches Resolution::Invoke { route, .. } ==> route < self.table().len(),
    {
        let parts = split_uri(uri.as_str());
        match self.match_route(method, parts.0.as_str()) {
            Err(miss) => Resolution::Unmatched(miss),
            Ok((route, params)) => {
                let ctx = RequestContext::new(method, uri, headers, params, body);
                assert(self.table()[route as int] == self.routes@[route as int]@);
                match extract_all(&self.routes[route].needs, &ctx, self.body_limit) {
                    Ok(args) => Resolution::Invoke { route, args },
                    Err(error) => Resolution::Reject(error),
                }
            },
        }
    }

    /// Serves a request: resolves it, runs the handler that `invoke`
    /// stands for, and serializes what comes back. An extraction error is
    /// answered without running any handler. An unmatched request goes to
    /// the fallback handler with the target and the reason, or gets the
    /// default answer where none is registered.
    pub fn dispatch<F>(
        &self,
        method: HttpMethod,
        uri: String,
        headers: Vec<(String, String)>,
        body: Vec<u8>,
        invoke: F,
    ) -> (out: WireResponse) where F: Fn(&H, Vec<Extracted>) -> HandlerResult
        requires
            forall|handler: &H, args: Vec<Extracted>| call_requires(invoke, (handler, args)),
        ensures
            match resolve_spec(
                self.table(),
                self.limit() as int,
                method,
                uri@,
                pairs_view(headers@),
                body@,
            ) {
                ResolutionView::Invoke { route, args } => answered_by(
                    invoke,
                    self.handler_at(route),
                    args,
                    out,
                ),
                ResolutionView::Reject(error) => out@ == serialize_spec(error_result_spec(error)),
                ResolutionView::Unmatched(miss) => match self.fallback_handler() {
                    Some(handler) => answered_by(invoke, handler, fallback_args(uri@, miss), out),
                    None => out@ == serialize_spec(default_fallback_spec(uri@, miss)),
                },
            },
    {
        let target = uri.clone();
        match self.resolve(method, uri, headers, body) {
            Resolution::Invoke { route, args } => {
                let ghost given = args;
                let result = invoke(&self.routes[route].handler, args);
                let ghost returned = result;
                assert(call_ensures(invoke, (&self.handler_at(route as int), given), returned));
                let out = serialize(result);
                assert(out@ == serialize_spec(returned@));
                out
            },
            Resolution::Reject(error) => {
                let out = serialize(error.into_result());
                assert(out@ == serialize_spec(error_result_spec(error@)));
                out
            },
            Resolution::Unmatched(miss) => match &self.fallback {
                Some(handler) => {
                    let mut args: Vec<Extracted> = Vec::new();
                    args.push(Extracted::RawPath(target));
                    args.push(Extracted::Miss(miss));
                    let ghost given = args;
                    assert(extracted_view(given@) =~= fallback_args(uri@, miss));
                    let result = invoke(handler, args);
                    let ghost returned = result;
                    assert(call_ensures(invoke, (handler, given), returned));
                    let out = serialize(result);
                    assert(out@ == serialize_spec(returned@));
                    out
                },
                None => {
                    let out = serialize(default_fallback(target.as_str(), miss));
                    assert(out@ == serialize_spec(default_fallback_spec(uri@, miss)));
                    out
                },
            },
        }
    }
}

} // verus!
