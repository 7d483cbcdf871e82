use http_dispatch::extract::Miss;
use http_dispatch::method::HttpMethod;
use http_dispatch::params::ParamMap;
use http_dispatch::pattern::{PathPattern, PatternError, Segment};
use http_dispatch::router::Router;
use http_dispatch::text::{join_segments, split_segments, str_eq, to_chars};

fn pattern(text: &str) -> PathPattern {
    PathPattern::parse(text).expect("a well-formed pattern")
}

fn table(routes: &[(HttpMethod, &str)]) -> Router<usize> {
    let mut router: Router<usize> = Router::new(1024);
    for (index, (method, text)) in routes.iter().enumerate() {
        let at = router.register(*method, pattern(text), Vec::new(), index);
        assert_eq!(at, index);
    }
    router
}

fn strings(items: &[&str]) -> Vec<String> {
    items.iter().map(|s| s.to_string()).collect()
}

#[test]
fn named_segment_captures_one_segment() {
    let router = table(&[(HttpMethod::Get, "/items/:id")]);
    let (route, params) = router.match_route(HttpMethod::Get, "/items/42").expect("a match");
    assert_eq!(route, 0);
    assert_eq!(params.len(), 1);
    assert_eq!(params.get("id"), Some(&"42".to_string()));
}

#[test]
fn extra_segment_is_no_match() {
    let router = table(&[(HttpMethod::Get, "/items/:id")]);
    assert_eq!(router.match_route(HttpMethod::Get, "/items/42/x"), Err(Miss::NotFound));
    assert_eq!(router.match_route(HttpMethod::Get, "/items"), Err(Miss::NotFound));
}

#[test]
fn matching_twice_gives_the_same_result() {
    let router = table(&[
        (HttpMethod::Get, "/a/:x"),
        (HttpMethod::Get, "/:y/b"),
        (HttpMethod::Post, "/a/b"),
    ]);
    for path in ["/a/b", "/a/c", "/z/b", "/nothing/here/at/all", "/"] {
        for method in [HttpMethod::Get, HttpMethod::Post, HttpMethod::Head] {
            assert_eq!(router.match_route(method, path), router.match_route(method, path));
        }
    }
}

#[test]
fn more_leading_literals_win() {
    let router = table(&[(HttpMethod::Get, "/items/:id"), (HttpMethod::Get, "/items/special")]);
    let (route, params) = router.match_route(HttpMethod::Get, "/items/special").expect("a match");
    assert_eq!(route, 1);
    assert_eq!(params.len(), 0);
    let (route, _) = router.match_route(HttpMethod::Get, "/items/other").expect("a match");
    assert_eq!(route, 0);
}

#[test]
fn earlier_registration_wins_among_equals() {
    let router = table(&[(HttpMethod::Get, "/:a/x"), (HttpMethod::Get, "/:b/:c")]);
    let (route, params) = router.match_route(HttpMethod::Get, "/1/x").expect("a match");
    assert_eq!(route, 0);
    assert_eq!(params.get("a"), Some(&"1".to_string()));
    let (route, params) = router.match_route(HttpMethod::Get, "/1/2").expect("a match");
    assert_eq!(route, 1);
    assert_eq!(params.get("b"), Some(&"1".to_string()));
    assert_eq!(params.get("c"), Some(&"2".to_string()));
}

#[test]
fn literal_comparison_is_case_sensitive() {
    let router = table(&[(HttpMethod::Get, "/Foo")]);
    assert!(router.match_route(HttpMethod::Get, "/Foo").is_ok());
    assert_eq!(router.match_route(HttpMethod::Get, "/foo"), Err(Miss::NotFound));
}

#[test]
fn wildcard_takes_the_rest_as_one_value() {
    let router = table(&[(HttpMethod::Get, "/files/*")]);
    let (_, params) = router.match_route(HttpMethod::Get, "/files/a//b/c.txt").expect("a match");
    assert_eq!(params.get("*"), Some(&"a/b/c.txt".to_string()));
    let (_, params) = router.match_route(HttpMethod::Get, "/files").expect("a match");
    assert_eq!(params.get("*"), Some(&String::new()));
    assert_eq!(router.match_route(HttpMethod::Get, "/other/a"), Err(Miss::NotFound));
}

#[test]
fn wrong_method_is_told_apart_from_unknown_path() {
    let router = table(&[(HttpMethod::Get, "/foo"), (HttpMethod::Put, "/foo")]);
    assert_eq!(router.match_route(HttpMethod::Head, "/foo"), Err(Miss::MethodNotAllowed));
    assert_eq!(router.match_route(HttpMethod::Head, "/bar"), Err(Miss::NotFound));
    assert_eq!(router.match_route(HttpMethod::Put, "/foo").map(|m| m.0), Ok(1));
}

#[test]
fn slashes_are_separators_only() {
    assert_eq!(split_segments("//a///b/"), strings(&["a", "b"]));
    assert_eq!(split_segments("a"), strings(&["a"]));
    assert_eq!(split_segments("/"), Vec::<String>::new());
    assert_eq!(split_segments(""), Vec::<String>::new());
    let router = table(&[(HttpMethod::Get, "/a/b"), (HttpMethod::Get, "/")]);
    assert_eq!(router.match_route(HttpMethod::Get, "a//b/").map(|m| m.0), Ok(0));
    assert_eq!(router.match_route(HttpMethod::Get, "").map(|m| m.0), Ok(1));
}

#[test]
fn joining_puts_one_slash_between_segments() {
    let segs = strings(&["a", "b", "c"]);
    assert_eq!(join_segments(&segs, 0), "a/b/c");
    assert_eq!(join_segments(&segs, 2), "c");
    assert_eq!(join_segments(&segs, 3), "");
    assert_eq!(split_segments(&join_segments(&segs, 0)), segs);
}

#[test]
fn text_helpers_compare_by_character() {
    assert_eq!(to_chars("h\u{e9}!"), vec!['h', '\u{e9}', '!']);
    assert!(str_eq("abc", "abc"));
    assert!(!str_eq("abc", "abd"));
    assert!(!str_eq("abc", "ab"));
    assert!(str_eq("", ""));
}

#[test]
fn pattern_text_reads_segment_by_segment() {
    let p = pattern("/items/:id/*");
    assert_eq!(
        p.segments(),
        &vec![
            Segment::Literal("items".to_string()),
            Segment::Named("id".to_string()),
            Segment::Wildcard,
        ]
    );
    assert_eq!(p.len(), 3);
    assert_eq!(p.literal_prefix(), 1);
    assert_eq!(pattern("/").len(), 0);
    assert_eq!(pattern("/a/b/:c/d").literal_prefix(), 2);
    assert_eq!(pattern("/*x").segments(), &vec![Segment::Literal("*x".to_string())]);
    assert_eq!(Segment::parse(":"), Segment::Named(String::new()));
}

#[test]
fn misplaced_wildcard_is_refused() {
    assert_eq!(PathPattern::parse("/*/x"), Err(PatternError::MisplacedWildcard));
    assert_eq!(
        PathPattern::from_segments(vec![Segment::Wildcard, Segment::Wildcard]),
        Err(PatternError::MisplacedWildcard)
    );
    assert!(PathPattern::from_segments(vec![Segment::Wildcard]).is_ok());
}

#[test]
fn binding_records_names_in_order() {
    let p = pattern("/:a/mid/:b");
    let params = p.bind(&strings(&["1", "mid", "2"])).expect("a binding");
    assert_eq!(
        params.entries(),
        &vec![("a".to_string(), "1".to_string()), ("b".to_string(), "2".to_string())]
    );
    assert_eq!(p.bind(&strings(&["1", "other", "2"])), None);
    assert_eq!(p.bind(&strings(&["1", "mid"])), None);
    let twice = pattern("/:a/:a").bind(&strings(&["1", "2"])).expect("a binding");
    assert_eq!(twice.len(), 1);
    assert_eq!(twice.get("a"), Some(&"2".to_string()));
}

#[test]
fn cloned_pattern_is_equal() {
    let p = pattern("/items/:id/*");
    assert_eq!(p.clone(), p);
    assert_eq!(Segment::Named("x".to_string()).clone(), Segment::Named("x".to_string()));
}

#[test]
fn later_binding_replaces_earlier() {
    let mut params = ParamMap::new();
    assert_eq!(params.len(), 0);
    params.insert("a".to_string(), "1".to_string());
    params.insert("b".to_string(), "3".to_string());
    params.insert("a".to_string(), "2".to_string());
    assert_eq!(params.len(), 2);
    assert_eq!(params.get("a"), Some(&"2".to_string()));
    assert_eq!(params.get("b"), Some(&"3".to_string()));
    assert_eq!(params.get("c"), None);
    assert_eq!(
        params.entries(),
        &vec![("a".to_string(), "2".to_string()), ("b".to_string(), "3".to_string())]
    );
    assert_eq!(params.clone(), params);
}

#[test]
fn method_names_read_back() {
    for method in [
        HttpMethod::Get,
        HttpMethod::Head,
        HttpMethod::Post,
        HttpMethod::Put,
        HttpMethod::Delete,
        HttpMethod::Connect,
        HttpMethod::Options,
        HttpMethod::Trace,
        HttpMethod::Patch,
    ] {
        assert_eq!(HttpMethod::from_name(method.name()), Some(method));
    }
    assert_eq!(HttpMethod::from_name("PATCH"), Some(HttpMethod::Patch));
    assert_eq!(HttpMethod::from_name("get"), None);
    assert_eq!(HttpMethod::from_name(""), None);
}
