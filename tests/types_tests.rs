use rustlette::types::{HTTPMethod, Headers, QueryParams, StatusCode};

#[test]
fn test_http_method() {
    let method = HTTPMethod::GET;
    assert_eq!(method.to_string(), "GET");
    assert!(method.is_safe());
    assert!(method.is_idempotent());
    assert!(!method.has_body());

    let method = HTTPMethod::POST;
    assert!(!method.is_safe());
    assert!(!method.is_idempotent());
    assert!(method.has_body());
}

#[test]
fn test_status_code() {
    let status = StatusCode::new(200).unwrap();
    assert_eq!(status.code, 200);
    assert_eq!(status.phrase(), "OK");
    assert!(status.is_success());
    assert!(!status.is_error());

    let status = StatusCode::new(404).unwrap();
    assert!(status.is_client_error());
    assert!(status.is_error());
}

#[test]
fn test_headers() {
    let mut headers = Headers::new();
    headers.set("content-type", "application/json");
    headers.add("accept", "application/json");
    headers.add("accept", "text/html");

    assert_eq!(headers.get("content-type"), Some("application/json".to_string()));
    assert_eq!(headers.get_list("accept").len(), 2);
    assert!(headers.contains("content-type"));
    assert!(!headers.contains("authorization"));
}

#[test]
fn test_query_params() {
    let params = QueryParams::from_query_string("foo=bar&baz=qux&foo=quux");
    assert_eq!(params.get("foo"), Some("bar".to_string()));
    assert_eq!(params.get_list("foo").unwrap().len(), 2);
    assert_eq!(params.get("baz"), Some("qux".to_string()));
}

#[test]
fn method_names_are_read_in_any_case() {
    assert_eq!(HTTPMethod::parse("get").unwrap(), HTTPMethod::GET);
    assert_eq!(HTTPMethod::new("Patch").unwrap(), HTTPMethod::PATCH);
    let err = HTTPMethod::parse("FETCH").unwrap_err();
    assert_eq!(err.error_type, "RequestError");
    assert_eq!(err.status_code, Some(400));
}

#[test]
fn status_codes_outside_range_are_refused() {
    assert!(StatusCode::new(99).is_err());
    assert!(StatusCode::new(600).is_err());
    assert!(StatusCode::new(599).is_ok());
    assert_eq!(StatusCode::new(418).unwrap().phrase(), "Unknown");
    assert!(StatusCode::new(503).unwrap().is_server_error());
    assert!(StatusCode::new(301).unwrap().is_redirection());
    assert!(StatusCode::new(101).unwrap().is_informational());
}

#[test]
fn header_names_ignore_case() {
    let mut headers = Headers::new();
    headers.set("Content-Type", "text/html");
    assert_eq!(headers.get("CONTENT-TYPE"), Some("text/html".to_string()));
    headers.set("content-type", "text/plain");
    assert_eq!(headers.get_list("content-type"), vec!["text/plain".to_string()]);
    assert_eq!(headers.len(), 1);
    assert!(headers.remove("Content-type").is_some());
    assert!(headers.is_empty());
}

#[test]
fn query_values_are_percent_decoded() {
    let params = QueryParams::from_query_string("a=x%20y&flag&&b=");
    assert_eq!(params.get("a"), Some("x y".to_string()));
    assert_eq!(params.get("flag"), Some(String::new()));
    assert_eq!(params.get("b"), Some(String::new()));
    assert_eq!(params.len(), 3);
    assert!(QueryParams::from_query_string("").is_empty());
}
