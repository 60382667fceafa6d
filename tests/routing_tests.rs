use rustlette::routing::{CompiledRoute, ParamValue, PathConverter, Route, Router};
use rustlette::types::HTTPMethod;

fn strings(v: &[&str]) -> Vec<String> {
    v.iter().map(|s| s.to_string()).collect()
}

fn pairs(v: &[(&str, &str)]) -> Vec<(String, String)> {
    v.iter().map(|(k, x)| (k.to_string(), x.to_string())).collect()
}

#[test]
fn test_path_converter() {
    let converter = PathConverter::Int;
    assert_eq!(converter.pattern(), r"-?\d+");
    let value = converter.convert("123").unwrap();
    assert_eq!(value, ParamValue::Int(123));
}

#[test]
fn test_compiled_route() {
    let route = CompiledRoute::compile("/users/{id:int}/posts/{slug}").unwrap();
    assert_eq!(route.params.len(), 2);
    assert_eq!(route.params[0].name, "id");
    assert_eq!(route.params[0].converter, PathConverter::Int);
    assert_eq!(route.params[1].name, "slug");
    assert_eq!(route.params[1].converter, PathConverter::Str);

    let params = route.match_path("/users/123/posts/hello-world");
    assert!(params.is_some());
    let params = params.unwrap();
    assert_eq!(params.len(), 2);
}

#[test]
fn test_route_matching() {
    let route = Route::new(
        "/users/{id:int}".to_string(),
        None,
        Some(strings(&["GET", "POST"])),
        Some("user_detail".to_string()),
        None,
    )
    .unwrap();

    assert!(route.matches_method(HTTPMethod::GET));
    assert!(route.matches_method(HTTPMethod::POST));
    assert!(!route.matches_method(HTTPMethod::DELETE));

    let params = route.match_request("/users/123", HTTPMethod::GET);
    assert!(params.is_some());

    let params = route.match_request("/users/abc", HTTPMethod::GET);
    assert!(params.is_none());
}

#[test]
fn test_router() {
    let mut router = Router::new();
    let route1 = Route::new("/users".to_string(), None, Some(strings(&["GET"])), Some("users".to_string()), None).unwrap();
    let route2 = Route::new(
        "/users/{id:int}".to_string(),
        None,
        Some(strings(&["GET"])),
        Some("user_detail".to_string()),
        None,
    )
    .unwrap();

    router.add_route(route1).unwrap();
    router.add_route(route2).unwrap();

    assert_eq!(router.len(), 2);

    let match_result = router.match_request("/users/123", "GET");
    assert!(match_result.is_some());

    let route_match = match_result.unwrap();
    assert_eq!(router.routes[route_match.index].name, Some("user_detail".to_string()));
    assert_eq!(route_match.path_params.len(), 1);
}

#[test]
fn test_url_generation() {
    let route = Route::new("/users/{id:int}/posts/{slug}".to_string(), None, None, None, None).unwrap();
    let params = pairs(&[("id", "123"), ("slug", "hello-world")]);
    let url = route.url_for(&params);
    assert_eq!(url, "/users/123/posts/hello-world");
}

#[test]
fn int_parameter_is_extracted_as_integer() {
    let route = Route::new("/users/{id:int}".to_string(), None, None, None, None).unwrap();
    let params = route.match_request("/users/123", HTTPMethod::GET).unwrap();
    assert_eq!(params, vec![("id".to_string(), ParamValue::Int(123))]);
    assert!(route.match_request("/users/abc", HTTPMethod::GET).is_none());
    assert!(route.match_request("/users/123", HTTPMethod::POST).is_none());
}

#[test]
fn url_for_on_router_fills_typed_and_bare_placeholders() {
    let mut router = Router::new();
    let route = Route::new(
        "/users/{id:int}/posts/{slug}".to_string(),
        None,
        None,
        Some("post".to_string()),
        None,
    )
    .unwrap();
    router.add_route(route).unwrap();
    let url = router.url_for("post", &pairs(&[("id", "123"), ("slug", "hello-world")])).unwrap();
    assert_eq!(url, "/users/123/posts/hello-world");
    let missing = router.url_for("nope", &pairs(&[]));
    assert!(missing.is_err());
    assert_eq!(missing.unwrap_err().error_type, "RoutingError");
}

#[test]
fn substituted_values_are_extracted_again() {
    let route = CompiledRoute::compile("/a/{n:int}/{s:slug}/{u:uuid}/{rest:path}").unwrap();
    let path = "/a/-42/my_slug-1/123e4567-e89b-12d3-a456-426614174000/x/y/z";
    let params = route.match_path(path).unwrap();
    assert_eq!(params[0], ("n".to_string(), ParamValue::Int(-42)));
    assert_eq!(params[1], ("s".to_string(), ParamValue::Str("my_slug-1".to_string())));
    assert_eq!(
        params[2],
        ("u".to_string(), ParamValue::Str("123e4567-e89b-12d3-a456-426614174000".to_string()))
    );
    assert_eq!(params[3], ("rest".to_string(), ParamValue::Str("x/y/z".to_string())));
}

#[test]
fn float_parameter_keeps_its_literal() {
    let route = CompiledRoute::compile("/price/{p:float}").unwrap();
    let params = route.match_path("/price/-3.25").unwrap();
    assert_eq!(params[0].1, ParamValue::Float("-3.25".to_string()));
    assert!(route.match_path("/price/abc").is_none());
    assert!(PathConverter::Float.convert("1.").is_err());
    assert!(PathConverter::Float.convert("12").is_ok());
}

#[test]
fn integer_overflow_does_not_match() {
    let route = CompiledRoute::compile("/n/{v:int}").unwrap();
    assert!(route.match_path("/n/9223372036854775807").is_some());
    assert!(route.match_path("/n/9223372036854775808").is_none());
}

#[test]
fn first_matching_route_wins() {
    let mut router = Router::new();
    router
        .add_route(Route::new("/items/{id}".to_string(), Some(1), None, None, None).unwrap())
        .unwrap();
    router
        .add_route(Route::new("/items/{id:int}".to_string(), Some(2), None, None, None).unwrap())
        .unwrap();
    let m = router.match_request("/items/7", "GET").unwrap();
    assert_eq!(m.index, 0);
    assert_eq!(m.path_params[0].1, ParamValue::Str("7".to_string()));
    assert!(router.match_request("/items/7", "POST").is_none());
    assert!(router.match_request("/items/7", "BREW").is_none());
}

#[test]
fn duplicate_names_are_refused_and_removal_frees_the_name() {
    let mut router = Router::new();
    router
        .add_route(Route::new("/a".to_string(), None, None, Some("n".to_string()), None).unwrap())
        .unwrap();
    let again = router.add_route(Route::new("/b".to_string(), None, None, Some("n".to_string()), None).unwrap());
    assert!(again.is_err());
    assert_eq!(router.route_count(), 1);
    assert!(router.get_route("n").is_some());
    router.remove_route(0).unwrap();
    assert!(router.get_route("n").is_none());
    assert!(router.is_empty());
    assert!(router.remove_route(0).is_err());
    router
        .add_route(Route::new("/b".to_string(), None, None, Some("n".to_string()), None).unwrap())
        .unwrap();
    assert_eq!(router.get_route("n"), Some(0));
}

#[test]
fn templates_are_anchored_and_escaped() {
    let route = CompiledRoute::compile("/users").unwrap();
    assert_eq!(route.pattern, "^/users$");
    assert!(route.match_path("/users/1").is_none());
    let dotted = CompiledRoute::compile("/file.txt").unwrap();
    assert_eq!(dotted.pattern, "^/file\\.txt$");
    assert!(dotted.match_path("/fileXtxt").is_none());
    assert!(dotted.match_path("/file.txt").is_some());
}

#[test]
fn malformed_templates_are_routing_errors() {
    let unknown = CompiledRoute::compile("/x/{id:number}");
    assert_eq!(unknown.unwrap_err().error_type, "RoutingError");
    let open = CompiledRoute::compile("/x/{id");
    assert_eq!(open.unwrap_err().status_code, Some(404));
    let bad_method = Route::new("/x".to_string(), None, Some(strings(&["FETCH"])), None, None);
    assert_eq!(bad_method.unwrap_err().error_type, "RequestError");
}

#[test]
fn wildcard_captures_the_rest() {
    let route = CompiledRoute::compile("/static/*{file}").unwrap();
    assert_eq!(route.params[0].converter, PathConverter::Path);
    let params = route.match_path("/static/css/site.css").unwrap();
    assert_eq!(params[0].1, ParamValue::Str("css/site.css".to_string()));
}

#[test]
fn converter_names_and_routes_by_method_or_path() {
    assert_eq!(PathConverter::new("Integer").unwrap(), PathConverter::Int);
    assert_eq!(PathConverter::new("STRING").unwrap(), PathConverter::Str);
    assert!(PathConverter::new("bogus").is_err());
    assert_eq!(PathConverter::Slug.name(), "slug");
    let mut router = Router::new();
    router
        .add_route(Route::new("/a".to_string(), None, Some(strings(&["POST"])), None, None).unwrap())
        .unwrap();
    router
        .add_route(Route::new("/{x}".to_string(), None, None, None, None).unwrap())
        .unwrap();
    assert_eq!(router.routes_for_method(HTTPMethod::POST), vec![0]);
    assert_eq!(router.routes_for_path("/a"), vec![0, 1]);
}

#[test]
fn duplicate_parameter_names_are_refused_by_the_pattern_compiler() {
    let dup = CompiledRoute::compile("/{a}/{a}");
    let err = dup.unwrap_err();
    assert_eq!(err.error_type, "RoutingError");
    assert!(err.message.starts_with("Invalid route pattern"));
}

#[test]
fn uuid_converter_checks_the_literal() {
    assert!(PathConverter::UUID.convert("123e4567-e89b-12d3-a456-426614174000").is_ok());
    assert!(PathConverter::UUID.convert("not-a-uuid").is_err());
    let route = CompiledRoute::compile("/o/{id:uuid}").unwrap();
    assert!(route.match_path("/o/123E4567-E89B-12D3-A456-426614174000").is_none());
}

#[test]
fn compile_errors_name_the_template() {
    let e = CompiledRoute::compile("/x/{id:number}").unwrap_err();
    assert_eq!(e.status_code, Some(404));
    assert_eq!(e.message, "Malformed route template: /x/{id:number}");
    let e = CompiledRoute::compile("/x/{id").unwrap_err();
    assert!(e.message.contains("/x/{id"));
    let e = CompiledRoute::compile("/{a}/{a}").unwrap_err();
    assert!(e.message.contains("/{a}/{a}"));
    let ok = CompiledRoute::compile("/u/{id:int}/{rest:path}").unwrap();
    assert!(ok.params.iter().all(|p| !p.optional));
}
