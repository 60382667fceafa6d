use rustlette::error::RustletteError;
use rustlette::middleware::{CORSMiddleware, ExceptionVerdict, Middleware, MiddlewareStack, SecurityHeadersMiddleware, TimingMiddleware};
use rustlette::request::RustletteRequest;
use rustlette::response::RustletteResponse;

fn ok_response() -> RustletteResponse {
    RustletteResponse::new(Some("OK".to_string()), Some(200), None, None, None)
}

#[test]
fn test_cors_middleware() {
    let cors = CORSMiddleware::permissive();
    let mut request = RustletteRequest::new("GET", "https://example.com/api".to_string(), None, None, None).unwrap();
    request.headers.set("origin", "https://frontend.com");
    let mut response = ok_response();
    cors.process_response(&request, &mut response);
    assert_eq!(
        response.headers.get("access-control-allow-origin"),
        Some("https://frontend.com".to_string())
    );
}

#[test]
fn test_security_headers_middleware() {
    let security = SecurityHeadersMiddleware::new();
    let request = RustletteRequest::new("GET", "https://example.com/api".to_string(), None, None, None).unwrap();
    let mut response = ok_response();
    security.process_response(&request, &mut response);
    assert_eq!(response.headers.get("x-content-type-options"), Some("nosniff".to_string()));
    assert_eq!(response.headers.get("x-frame-options"), Some("DENY".to_string()));
}

#[test]
fn test_middleware_stack() {
    let mut stack = MiddlewareStack::new();
    stack.add_cors_middleware(None, None, None, None, None, None);
    stack.add_security_headers_middleware();
    assert_eq!(stack.len(), 2);

    let mut request = RustletteRequest::new("GET", "https://example.com/api".to_string(), None, None, None).unwrap();
    stack.process_request(&mut request, 0);

    let mut response = ok_response();
    stack.process_response(&request, &mut response, 0);
    assert!(response.headers.contains("access-control-allow-origin"));
    assert!(response.headers.contains("x-content-type-options"));
}

#[test]
fn cors_lists_methods_and_max_age() {
    let cors = CORSMiddleware::new(
        vec!["https://a.com".to_string()],
        vec!["GET".to_string(), "POST".to_string()],
        vec![],
        true,
        vec!["x-total".to_string()],
        Some(600),
    );
    let mut request = RustletteRequest::new("GET", "https://example.com/".to_string(), None, None, None).unwrap();
    request.headers.set("Origin", "https://b.com");
    let mut response = ok_response();
    cors.process_response(&request, &mut response);
    assert!(!response.headers.contains("access-control-allow-origin"));
    assert_eq!(response.headers.get("access-control-allow-methods"), Some("GET, POST".to_string()));
    assert!(!response.headers.contains("access-control-allow-headers"));
    assert_eq!(response.headers.get("access-control-allow-credentials"), Some("true".to_string()));
    assert_eq!(response.headers.get("access-control-expose-headers"), Some("x-total".to_string()));
    assert_eq!(response.headers.get("access-control-max-age"), Some("600".to_string()));
    assert!(cors.is_origin_allowed("https://a.com"));
}

#[test]
fn hsts_only_for_secure_urls() {
    let security = SecurityHeadersMiddleware::new().with_csp("default-src 'self'".to_string());
    let secure = RustletteRequest::new("GET", "https://example.com/".to_string(), None, None, None).unwrap();
    let mut response = ok_response();
    security.process_response(&secure, &mut response);
    assert_eq!(
        response.headers.get("strict-transport-security"),
        Some("max-age=31536000; includeSubDomains".to_string())
    );
    assert_eq!(response.headers.get("content-security-policy"), Some("default-src 'self'".to_string()));
    let plain = RustletteRequest::new("GET", "http://example.com/".to_string(), None, None, None).unwrap();
    let mut response = ok_response();
    security.process_response(&plain, &mut response);
    assert!(!response.headers.contains("strict-transport-security"));
    assert_eq!(response.headers.get("content-length"), Some("2".to_string()));
}

#[test]
fn timing_writes_elapsed_seconds() {
    let timing = TimingMiddleware::new(None);
    let mut request = RustletteRequest::new("GET", "http://example.com/".to_string(), None, None, None).unwrap();
    timing.process_request(&mut request, 1_000_000);
    assert_eq!(request.state_get("request_start_time"), Some("1000000".to_string()));
    let mut response = ok_response();
    timing.process_response(&request, &mut response, 3_500_042);
    assert_eq!(response.headers.get("x-process-time"), Some("2.500042".to_string()));
}

#[test]
fn stack_insert_and_remove_check_bounds() {
    let mut stack = MiddlewareStack::new();
    assert!(stack.is_empty());
    stack.add_timing_middleware(None);
    assert!(stack.insert(5, Middleware::SecurityHeaders(SecurityHeadersMiddleware::new())).is_err());
    assert!(stack.insert(0, Middleware::SecurityHeaders(SecurityHeadersMiddleware::new())).is_ok());
    assert_eq!(stack.middlewares[0].name(), "SecurityHeadersMiddleware");
    assert!(stack.remove(2).is_err());
    assert!(stack.remove(1).is_ok());
    assert_eq!(stack.len(), 1);
    stack.clear();
    assert_eq!(stack.len(), 0);
}

#[test]
fn first_deciding_exception_hook_wins() {
    let mut stack = MiddlewareStack::new();
    stack.add_external_middleware(1, "a".to_string());
    stack.add_security_headers_middleware();
    stack.add_external_middleware(2, "b".to_string());
    stack.add_external_middleware(3, "c".to_string());
    let r = stack.process_exception(vec![
        ExceptionVerdict::Pass,
        ExceptionVerdict::Fail(RustletteError::internal_error("ignored: built-in")),
        ExceptionVerdict::Respond(RustletteResponse::new(Some("handled".to_string()), Some(409), None, None, None)),
        ExceptionVerdict::Fail(RustletteError::internal_error("not reached")),
    ]);
    assert_eq!(r.unwrap().unwrap().status_code, 409);
    let failed = stack.process_exception(vec![ExceptionVerdict::Fail(RustletteError::middleware_error("boom"))]);
    assert_eq!(failed.unwrap_err().message, "boom");
    assert!(stack.process_exception(vec![ExceptionVerdict::Pass]).unwrap().is_none());
    assert!(stack.process_exception(vec![]).unwrap().is_none());
}
