use rustlette::request::RustletteRequest;
use rustlette::types::{HTTPMethod, Headers};

#[test]
fn test_request_creation() {
    let request = RustletteRequest::new("GET", "https://example.com/users?page=1".to_string(), None, None, None).unwrap();
    assert_eq!(request.method, HTTPMethod::GET);
    assert_eq!(request.url, "https://example.com/users?page=1");
    assert_eq!(request.query_params.get("page"), Some("1".to_string()));
}

#[test]
fn test_request_json_parsing() {
    let json_body = r#"{"name": "John", "age": 30}"#;
    let request = RustletteRequest::new(
        "POST",
        "https://example.com/users".to_string(),
        None,
        Some(json_body.as_bytes().to_vec()),
        None,
    )
    .unwrap();
    let json_data = request.json().unwrap();
    assert!(json_data.is_object());
}

#[test]
fn test_request_url_parsing() {
    let request = RustletteRequest::new(
        "GET",
        "https://example.com:8080/users/123?sort=name".to_string(),
        None,
        None,
        None,
    )
    .unwrap();
    assert_eq!(request.scheme(), "https");
    assert_eq!(request.hostname(), Some("example.com".to_string()));
    assert_eq!(request.port(), Some(8080));
    assert_eq!(request.path(), "/users/123");
}

#[test]
fn test_request_headers() {
    let mut headers = Headers::new();
    headers.set("content-type", "application/json");
    headers.set("authorization", "Bearer token123");
    let request = RustletteRequest::new("POST", "https://example.com/api".to_string(), Some(headers), None, None).unwrap();
    assert_eq!(request.content_type(), Some("application/json".to_string()));
    assert_eq!(request.authorization(), Some("Bearer token123".to_string()));
    assert!(request.is_json());
}

#[test]
fn bad_method_or_url_is_a_request_error() {
    let e = RustletteRequest::new("FETCH", "https://example.com/".to_string(), None, None, None).unwrap_err();
    assert_eq!(e.error_type, "RequestError");
    let e = RustletteRequest::new("GET", "not a url".to_string(), None, None, None).unwrap_err();
    assert_eq!(e.status_code, Some(400));
}

#[test]
fn bad_json_body_is_a_request_error() {
    let request = RustletteRequest::new("POST", "https://example.com/".to_string(), None, Some(b"{".to_vec()), None).unwrap();
    assert_eq!(request.json().unwrap_err().error_type, "RequestError");
    assert!(!request.is_form());
}

#[test]
fn state_bag_keeps_values() {
    let mut request = RustletteRequest::new("GET", "http://example.com/".to_string(), None, None, None).unwrap();
    assert!(!request.state_contains("k"));
    request.state_set("k", "v");
    assert_eq!(request.state_get("k"), Some("v".to_string()));
    assert!(!request.is_secure());
    assert_eq!(request.port(), None);
}

#[test]
fn cookies_accept_and_client() {
    let mut headers = Headers::new();
    headers.set("Cookie", " a = 1 ; b=two;junk; c=");
    headers.set("Accept", "text/html, */*");
    headers.set("Content-Length", "42");
    let mut request = RustletteRequest::new("GET", "http://example.com/".to_string(), Some(headers), None, None).unwrap();
    assert_eq!(
        request.cookies(),
        vec![
            ("a".to_string(), "1".to_string()),
            ("b".to_string(), "two".to_string()),
            ("c".to_string(), String::new())
        ]
    );
    assert!(request.accepts("application/json"));
    assert_eq!(request.content_length(), Some(42));
    assert_eq!(request.client(), None);
    request.set_client_info("10.0.0.1".to_string(), 5000, "http".to_string());
    assert_eq!(request.client(), Some("10.0.0.1".to_string()));
    request.headers.set("X-Real-IP", "1.2.3.4");
    assert_eq!(request.client(), Some("1.2.3.4".to_string()));
}

#[test]
fn replace_keeps_what_is_not_given() {
    let mut request = RustletteRequest::new("GET", "http://example.com/a?x=1".to_string(), None, Some(b"hi".to_vec()), None).unwrap();
    request.state_set("k", "v");
    let copy = request.replace(Some("post"), None, None, None, None).unwrap();
    assert_eq!(copy.method, HTTPMethod::POST);
    assert_eq!(copy.url, "http://example.com/a?x=1");
    assert_eq!(copy.body, Some(b"hi".to_vec()));
    assert_eq!(copy.state_get("k"), Some("v".to_string()));
    let moved = request.replace(None, Some("http://example.com/b?y=2".to_string()), None, None, None).unwrap();
    assert_eq!(moved.path(), "/b");
    assert_eq!(moved.query_params.get("y"), Some("2".to_string()));
    assert!(!moved.query_params.contains("x"));
    assert!(request.replace(Some("BREW"), None, None, None, None).is_err());
    assert!(request.replace(None, Some("::".to_string()), None, None, None).is_err());
}

#[test]
fn form_and_text_bodies() {
    let request = RustletteRequest::new(
        "POST",
        "http://example.com/f".to_string(),
        None,
        Some(b"name=J%C3%B6rg&x&name=Ann&age=3".to_vec()),
        None,
    )
    .unwrap();
    let form = request.form().unwrap();
    assert_eq!(form.get("name"), Some("Ann".to_string()));
    assert_eq!(form.get("age"), Some("3".to_string()));
    assert!(!form.contains("x"));
    assert_eq!(request.text().unwrap(), "name=J%C3%B6rg&x&name=Ann&age=3");
    let bad = RustletteRequest::new("POST", "http://example.com/f".to_string(), None, Some(vec![0xff, 0xfe]), None).unwrap();
    assert_eq!(bad.text().unwrap_err().error_type, "RequestError");
    let none = RustletteRequest::new("GET", "http://example.com/f".to_string(), None, None, None).unwrap();
    assert_eq!(none.text().unwrap(), "");
    assert!(none.form().unwrap().is_empty());
}
