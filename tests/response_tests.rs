use rustlette::response::{guess_media_type, RustletteResponse};

#[test]
fn test_response_creation() {
    let response = RustletteResponse::new(
        Some("Hello, World!".to_string()),
        Some(200),
        None,
        Some("text/plain".to_string()),
        None,
    );
    assert_eq!(response.status_code, 200);
    assert_eq!(response.text().unwrap(), "Hello, World!");
    assert_eq!(response.media_type, Some("text/plain".to_string()));
}

#[test]
fn test_json_response() {
    let response = RustletteResponse::json(r#"{"name": "John", "age": 30}"#.to_string(), Some(200), None);
    assert_eq!(response.status_code, 200);
    assert!(response.headers.get("content-type").unwrap().contains("application/json"));
}

#[test]
fn test_redirect_response() {
    let response = RustletteResponse::redirect("https://example.com", Some(302), None).unwrap();
    assert_eq!(response.status_code, 302);
    assert_eq!(response.headers.get("location"), Some("https://example.com".to_string()));
}

#[test]
fn test_cookie_setting() {
    let mut response = RustletteResponse::new(Some("Test".to_string()), None, None, None, None);
    response.set_cookie("session_id", "abc123", Some(3600), None, Some("/"), None, Some(true), Some(true), Some("Strict"));
    let cookies = response.headers.get_list("set-cookie");
    assert!(!cookies.is_empty());
    assert!(cookies[0].contains("session_id=abc123"));
    assert!(cookies[0].contains("Max-Age=3600"));
    assert!(cookies[0].contains("Secure"));
    assert!(cookies[0].contains("HttpOnly"));
}

#[test]
fn test_media_type_guessing() {
    assert_eq!(guess_media_type("test.html"), "text/html");
    assert_eq!(guess_media_type("test.json"), "application/json");
    assert_eq!(guess_media_type("test.png"), "image/png");
    assert_eq!(guess_media_type("test.unknown"), "application/octet-stream");
}

#[test]
fn body_carries_its_length() {
    let response = RustletteResponse::new(Some("héllo".to_string()), None, None, None, None);
    assert_eq!(response.status_code, 200);
    assert_eq!(response.headers.get("content-length"), Some("6".to_string()));
    let mut response = RustletteResponse::new(None, Some(204), None, None, None);
    assert!(!response.headers.contains("content-length"));
    response.set_body(vec![1, 2, 3]);
    assert_eq!(response.headers.get("content-length"), Some("3".to_string()));
}

#[test]
fn cookie_exact_text_and_deletion() {
    let mut response = RustletteResponse::new(None, None, None, None, None);
    response.set_cookie("a", "b", Some(-5), Some("never"), None, Some("x.org"), None, None, None);
    response.delete_cookie("old", Some("/"), None);
    let cookies = response.headers.get_list("set-cookie");
    assert_eq!(cookies[0], "a=b; Max-Age=-5; Expires=never; Domain=x.org");
    assert_eq!(cookies[1], "old=; Max-Age=0; Expires=Thu, 01 Jan 1970 00:00:00 GMT; Path=/");
}

#[test]
fn redirect_status_must_be_a_redirect() {
    assert!(RustletteResponse::redirect("/x", Some(200), None).is_err());
    assert_eq!(RustletteResponse::redirect("/x", None, None).unwrap().status_code, 302);
    assert_eq!(guess_media_type("dir/ARCHIVE.TAR"), "application/x-tar");
    assert_eq!(guess_media_type("noext"), "application/octet-stream");
    let html = RustletteResponse::html("<p>".to_string(), None, None);
    assert_eq!(html.headers.get("content-type"), Some("text/html".to_string()));
}

#[test]
fn charset_goes_into_text_types_only() {
    let mut r = RustletteResponse::new(Some("x".to_string()), None, None, Some("text/html".to_string()), None);
    r.set_charset("latin-1".to_string());
    assert_eq!(r.headers.get("content-type"), Some("text/html; charset=latin-1".to_string()));
    r.set_charset("utf-8".to_string());
    assert_eq!(r.headers.get("content-type"), Some("text/html; charset=utf-8".to_string()));
    assert_eq!(r.charset(), "utf-8");
    let mut png = RustletteResponse::new(Some("x".to_string()), None, None, Some("image/png".to_string()), None);
    png.set_charset("utf-8".to_string());
    assert_eq!(png.headers.get("content-type"), Some("image/png".to_string()));
    assert_eq!(png.content_length(), Some(1));
}
