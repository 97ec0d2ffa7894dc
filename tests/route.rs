use routing::error::RouteError;
use routing::method::Method;
use routing::params::{PathParams, RequestData};
use routing::route::{params_from_groups, Behavior, Dispatch, Route};

type TestRoute = Route<u32, u32, u32>;

fn normal(path: &str, methods: Vec<Method>) -> TestRoute {
    TestRoute::with_normal(path.to_string(), methods, 1).unwrap()
}

fn param(data: &Option<RequestData>, name: &str) -> Option<String> {
    data.as_ref().and_then(|d| d.path_params().get(name).cloned())
}

#[test]
fn literal_template_matches_only_itself() {
    let route = normal("/about/team", vec![]);
    assert!(route.is_match("/about/team", &Method::Get));
    assert!(!route.is_match("/about/team/", &Method::Get));
    assert!(!route.is_match("/about", &Method::Get));
    assert!(!route.is_match("x/about/team", &Method::Get));
    assert!(!route.is_match("/about/teams", &Method::Get));
}

#[test]
fn literal_metacharacters_are_escaped() {
    let route = normal("/files/a.b+c", vec![]);
    assert!(route.is_match("/files/a.b+c", &Method::Get));
    assert!(!route.is_match("/files/axbbc", &Method::Get));
    assert!(!route.is_match("/files/a.bbc", &Method::Get));
}

#[test]
fn parameter_segment_matches_and_extracts() {
    let route = normal("/users/{id}", vec![]);
    assert!(route.is_match("/users/42", &Method::Get));
    assert!(!route.is_match("/users/42/x", &Method::Get));
    assert!(!route.is_match("/users/", &Method::Get));
    let data = route.generate_req_data("/users/42");
    assert_eq!(data.path_params().len(), 1);
    assert_eq!(data.path_params().get("id"), Some(&"42".to_string()));
}

#[test]
fn colon_parameter_segment() {
    let route = normal("/users/:id/posts", vec![]);
    assert!(route.is_match("/users/7/posts", &Method::Get));
    assert!(!route.is_match("/users/:id/posts/1", &Method::Get));
    let data = route.generate_req_data("/users/7/posts");
    assert_eq!(data.path_params().get("id"), Some(&"7".to_string()));
}

#[test]
fn consecutive_parameters() {
    let route = normal("/{a}/{b}", vec![]);
    assert!(route.is_match("/x/y", &Method::Post));
    assert!(!route.is_match("/x", &Method::Post));
    let data = route.generate_req_data("/x/y");
    assert_eq!(data.path_params().len(), 2);
    assert_eq!(data.path_params().get("a"), Some(&"x".to_string()));
    assert_eq!(data.path_params().get("b"), Some(&"y".to_string()));
}

#[test]
fn empty_root_and_trailing_slash_templates() {
    let empty = normal("", vec![]);
    assert!(empty.is_match("", &Method::Get));
    assert!(!empty.is_match("/", &Method::Get));
    let root = normal("/", vec![]);
    assert!(root.is_match("/", &Method::Get));
    assert!(!root.is_match("", &Method::Get));
    let trailing = normal("/docs/", vec![]);
    assert!(trailing.is_match("/docs/", &Method::Get));
    assert!(!trailing.is_match("/docs", &Method::Get));
    assert_eq!(trailing.generate_req_data("/docs/").path_params().len(), 0);
}

#[test]
fn empty_method_set_accepts_any_method() {
    let route = normal("/ping", vec![]);
    for m in [Method::Get, Method::Post, Method::Delete, Method::Trace] {
        assert!(route.is_match("/ping", &m));
        assert!(!route.is_match("/pong", &m));
    }
}

#[test]
fn listed_methods_restrict_matching() {
    let route = normal("/items", vec![Method::Get, Method::Post]);
    assert!(route.is_match("/items", &Method::Get));
    assert!(route.is_match("/items", &Method::Post));
    assert!(!route.is_match("/items", &Method::Delete));
    assert!(!route.is_match("/other", &Method::Get));
}

#[test]
fn delegation_forwards_remainder() {
    let route = TestRoute::with_router("/api/".to_string(), 9).unwrap();
    assert!(route.is_match("/api/users/42", &Method::Delete));
    assert!(!route.is_match("/apx/users", &Method::Get));
    let mut data: Option<RequestData> = None;
    match route.process("/api/users/42", &mut data) {
        Ok(Dispatch::Forward(router, rest)) => {
            assert_eq!(*router, 9);
            assert_eq!(rest, "users/42");
        }
        _ => panic!("expected a forward"),
    }
    assert_eq!(data.as_ref().map(|d| d.path_params().len()), Some(0));
}

#[test]
fn nested_parameters_are_merged() {
    let outer = TestRoute::with_router("/org/{org}".to_string(), 2).unwrap();
    let inner = normal("/user/{user}", vec![Method::Get]);
    let mut data: Option<RequestData> = None;
    let rest = match outer.process("/org/acme/user/bob", &mut data) {
        Ok(Dispatch::Forward(_, rest)) => rest,
        _ => panic!("expected a forward"),
    };
    assert_eq!(rest, "/user/bob");
    assert!(inner.is_match(&rest, &Method::Get));
    match inner.process(&rest, &mut data) {
        Ok(Dispatch::Handle(h)) => assert_eq!(*h, 1),
        _ => panic!("expected a handler"),
    }
    assert_eq!(param(&data, "org"), Some("acme".to_string()));
    assert_eq!(param(&data, "user"), Some("bob".to_string()));
    assert_eq!(data.as_ref().map(|d| d.path_params().len()), Some(2));
}

#[test]
fn compiling_twice_matches_alike() {
    let a = normal("/shop/{item}/buy", vec![]);
    let b = normal("/shop/{item}/buy", vec![]);
    for p in ["/shop/tea/buy", "/shop//buy", "/shop/a/b/buy", "/shop/tea/buy/", ""] {
        assert_eq!(a.is_match(p, &Method::Get), b.is_match(p, &Method::Get));
        assert_eq!(
            a.generate_req_data(p).path_params().get("item"),
            b.generate_req_data(p).path_params().get("item")
        );
    }
}

#[test]
fn malformed_templates_fail_at_registration() {
    for t in ["/users/{id", "/users/id}", "/users/{}", "/a/{x}y", "/a/:", "/{a{b}}"] {
        assert!(matches!(
            TestRoute::with_normal(t.to_string(), vec![], 0),
            Err(RouteError::MalformedParameter)
        ));
        assert!(matches!(
            TestRoute::with_router(t.to_string(), 0),
            Err(RouteError::MalformedParameter)
        ));
        assert!(matches!(
            TestRoute::with_ws(t.to_string(), 0),
            Err(RouteError::MalformedParameter)
        ));
    }
}

#[test]
fn upgrade_dispatch_is_unsupported() {
    let route = TestRoute::with_ws("/ws/{room}".to_string(), 5).unwrap();
    assert!(route.is_match("/ws/lobby", &Method::Get));
    assert!(route.is_match("/ws/lobby", &Method::Patch));
    let mut data: Option<RequestData> = None;
    assert!(matches!(
        route.process("/ws/lobby", &mut data),
        Err(RouteError::UnsupportedUpgrade)
    ));
    assert!(data.is_none());
}

#[test]
fn terminal_dispatch_records_parameters() {
    let route = normal("/a/{x}", vec![]);
    let mut params = PathParams::new();
    params.set("earlier".to_string(), "1".to_string());
    let mut data = Some(RequestData::new(params));
    assert!(matches!(route.process("/a/b", &mut data), Ok(Dispatch::Handle(_))));
    assert_eq!(param(&data, "earlier"), Some("1".to_string()));
    assert_eq!(param(&data, "x"), Some("b".to_string()));
}

#[test]
fn route_keeps_its_template_and_behavior() {
    let route = normal("/k/{v}", vec![Method::Put]);
    assert_eq!(route.path(), "/k/{v}");
    match route.behavior() {
        Behavior::Terminal(methods, h) => {
            assert_eq!(methods, &vec![Method::Put]);
            assert_eq!(*h, 1);
        }
        _ => panic!("expected a terminal route"),
    }
}

#[test]
fn params_from_given_groups() {
    let names = vec!["a".to_string(), "b".to_string(), "c".to_string()];
    let groups = Some(vec![
        Some("/x/y".to_string()),
        Some("x".to_string()),
        None,
    ]);
    let p = params_from_groups(&names, &groups);
    assert_eq!(p.len(), 1);
    assert_eq!(p.get("a"), Some(&"x".to_string()));
    assert_eq!(p.get("b"), None);
    assert_eq!(p.get("c"), None);
    assert_eq!(params_from_groups(&names, &None).len(), 0);
    let dup = vec!["n".to_string(), "n".to_string()];
    let both = Some(vec![None, Some("1".to_string()), Some("2".to_string())]);
    let p = params_from_groups(&dup, &both);
    assert_eq!(p.len(), 1);
    assert_eq!(p.get("n"), Some(&"2".to_string()));
}

#[test]
fn literal_delegation_matches_beginnings() {
    let route = TestRoute::with_router("/static".to_string(), 3).unwrap();
    assert!(route.is_match("/static", &Method::Get));
    assert!(route.is_match("/static/css/a.css", &Method::Get));
    assert!(!route.is_match("/stat", &Method::Get));
    let mut data: Option<RequestData> = None;
    match route.process("/static/css/a.css", &mut data) {
        Ok(Dispatch::Forward(_, rest)) => assert_eq!(rest, "/css/a.css"),
        _ => panic!("expected a forward"),
    }
}

#[test]
fn extension_methods_can_be_listed() {
    let purge = Method::Extension("PURGE".to_string());
    let route = normal("/cache", vec![purge.clone()]);
    assert!(route.is_match("/cache", &purge));
    assert!(!route.is_match("/cache", &Method::Extension("LINK".to_string())));
    assert!(!route.is_match("/cache", &Method::Get));
    let any = normal("/cache", vec![]);
    assert!(any.is_match("/cache", &Method::Extension("LINK".to_string())));
}
