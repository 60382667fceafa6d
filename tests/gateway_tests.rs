use rustlette::gateway::{
    headers_from_asgi, headers_to_asgi, parse_message, response_body, response_start, validate_scope, ASGIScope,
    GatewaySession, ASGIMessage, Outgoing, ScopeKind, SessionState,
};
use rustlette::response::RustletteResponse;

fn scope(query: &str, server: Option<(String, u16)>) -> ASGIScope {
    ASGIScope {
        scope_type: "http".to_string(),
        asgi_version: "3.0".to_string(),
        http_version: "1.1".to_string(),
        method: "GET".to_string(),
        scheme: "https".to_string(),
        path: "/items".to_string(),
        raw_path: b"/items".to_vec(),
        query_string: query.as_bytes().to_vec(),
        root_path: String::new(),
        headers: vec![(b"X-Token".to_vec(), b"abc".to_vec())],
        server,
        client: None,
    }
}

#[test]
fn test_header_conversion() {
    let headers = vec![
        (b"content-type".to_vec(), b"application/json".to_vec()),
        (b"authorization".to_vec(), b"Bearer token123".to_vec()),
    ];
    let rustlette_headers = headers_from_asgi(&headers);
    assert_eq!(rustlette_headers.get("content-type"), Some("application/json".to_string()));
    assert_eq!(rustlette_headers.get("authorization"), Some("Bearer token123".to_string()));
    let asgi_headers = headers_to_asgi(&rustlette_headers);
    assert_eq!(asgi_headers.len(), 2);
}

#[test]
fn lifespan_ends_on_a_non_startup_message() {
    let mut session = GatewaySession::open(ScopeKind::Lifespan).unwrap();
    assert_eq!(session.receive(ASGIMessage::LifespanShutdown), Outgoing::Close);
    assert_eq!(session.state, SessionState::Finished);
    assert_eq!(session.receive(ASGIMessage::LifespanStartup), Outgoing::Close);
}

#[test]
fn lifespan_acknowledges_each_startup() {
    let mut session = GatewaySession::open(ScopeKind::Lifespan).unwrap();
    assert_eq!(session.receive(ASGIMessage::LifespanStartup), Outgoing::AckStartup);
    assert_eq!(session.receive(ASGIMessage::LifespanStartup), Outgoing::AckStartup);
    assert_eq!(session.receive(ASGIMessage::Other("x".to_string())), Outgoing::Close);
}

#[test]
fn disconnect_before_body_sends_nothing() {
    let mut session = GatewaySession::open(ScopeKind::Http).unwrap();
    assert_eq!(session.receive(ASGIMessage::HTTPDisconnect), Outgoing::Close);
    assert_eq!(session.receive(ASGIMessage::HTTPRequestBody { body: b"late".to_vec(), more_body: false }), Outgoing::Close);
}

#[test]
fn body_chunks_are_assembled() {
    let mut session = GatewaySession::open(ScopeKind::Http).unwrap();
    assert_eq!(session.receive(ASGIMessage::HTTPRequestBody { body: b"hel".to_vec(), more_body: true }), Outgoing::Wait);
    assert_eq!(session.receive(ASGIMessage::HTTPRequestBody { body: b"lo".to_vec(), more_body: false }), Outgoing::Dispatch);
    assert_eq!(session.body, b"hello".to_vec());
    assert!(GatewaySession::open(ScopeKind::WebSocket).is_err());
    let mut other = GatewaySession::open(ScopeKind::Http).unwrap();
    assert_eq!(other.receive(ASGIMessage::LifespanStartup), Outgoing::Reject);
}

#[test]
fn scope_types_and_messages() {
    assert_eq!(validate_scope("http").unwrap(), ScopeKind::Http);
    assert_eq!(validate_scope("lifespan").unwrap(), ScopeKind::Lifespan);
    assert!(validate_scope("carrier-pigeon").is_err());
    assert!(matches!(parse_message("http.disconnect", vec![], false), ASGIMessage::HTTPDisconnect));
    assert!(matches!(parse_message("http.request", b"x".to_vec(), true), ASGIMessage::HTTPRequestBody { more_body: true, .. }));
    assert!(matches!(parse_message("lifespan.startup", vec![], false), ASGIMessage::LifespanStartup));
    assert!(matches!(parse_message("weird", vec![], false), ASGIMessage::Other(_)));
}

#[test]
fn scope_builds_url_and_request() {
    let s = scope("q=1", Some(("example.com".to_string(), 443)));
    assert_eq!(s.build_host(), "example.com");
    assert_eq!(s.build_url(), "https://example.com/items?q=1");
    let s2 = scope("", Some(("example.com".to_string(), 8443)));
    assert_eq!(s2.build_url(), "https://example.com:8443/items");
    assert_eq!(scope("", None).build_host(), "localhost");
    let request = s.build_request(b"payload".to_vec()).unwrap();
    assert_eq!(request.header("x-token"), Some("abc".to_string()));
    assert_eq!(request.query_params.get("q"), Some("1".to_string()));
    assert_eq!(request.body, Some(b"payload".to_vec()));
    let empty = s.build_request(vec![]).unwrap();
    assert_eq!(empty.body, None);
}

#[test]
fn response_becomes_start_and_body_messages() {
    let r = RustletteResponse::new(Some("ok".to_string()), Some(201), None, Some("text/plain".to_string()), None);
    let (status, headers) = response_start(&r);
    assert_eq!(status, 201);
    assert!(headers.contains(&(b"content-length".to_vec(), b"2".to_vec())));
    assert!(headers.contains(&(b"content-type".to_vec(), b"text/plain".to_vec())));
    assert_eq!(response_body(&r), b"ok".to_vec());
}

#[test]
fn repeated_headers_keep_every_value() {
    let headers = vec![
        (b"Accept".to_vec(), b"text/html".to_vec()),
        (b"accept".to_vec(), b"application/json".to_vec()),
    ];
    let h = headers_from_asgi(&headers);
    assert_eq!(h.get_list("accept"), vec!["text/html".to_string(), "application/json".to_string()]);
    let back = headers_to_asgi(&h);
    assert_eq!(
        back,
        vec![
            (b"accept".to_vec(), b"text/html".to_vec()),
            (b"accept".to_vec(), b"application/json".to_vec())
        ]
    );
}

#[test]
fn build_request_fails_on_an_unknown_method() {
    let mut s = scope("", None);
    s.method = "BREW".to_string();
    assert_eq!(s.build_request(vec![]).unwrap_err().error_type, "RequestError");
}
