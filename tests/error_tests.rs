use rustlette::error::{ErrorKind, RustletteError};

#[test]
fn test_error_creation() {
    let err = RustletteError::routing_error("Route not found");
    assert_eq!(err.error_type, "RoutingError");
    assert_eq!(err.status_code, Some(404));
    assert!(err.message.contains("Route not found"));
}

#[test]
fn test_error_display() {
    let err = RustletteError::validation_error("Invalid input");
    assert_eq!(err.to_display_string(), "ValidationError: Invalid input");
}

#[test]
fn test_error_conversion() {
    let json_err = serde_json::from_str::<serde_json::Value>("invalid json");
    assert!(json_err.is_err());

    let rustlette_err = RustletteError::from_json_error(&json_err.unwrap_err());
    assert_eq!(rustlette_err.error_type, "RequestError");
    assert_eq!(rustlette_err.status_code, Some(400));
}

#[test]
fn test_macro() {
    let err = RustletteError::routing_error(&format!("No route for path: {}", "/api/v1/users"));
    assert_eq!(err.error_type, "RoutingError");
    assert!(err.message.contains("/api/v1/users"));
}

#[test]
fn each_kind_has_its_default_status() {
    assert_eq!(RustletteError::middleware_error("m").status_code, Some(500));
    assert_eq!(RustletteError::request_error("m").status_code, Some(400));
    assert_eq!(RustletteError::response_error("m").status_code, Some(500));
    assert_eq!(RustletteError::server_error("m").status_code, Some(500));
    assert_eq!(RustletteError::validation_error("m").status_code, Some(422));
    assert_eq!(RustletteError::auth_error("m").status_code, Some(401));
    assert_eq!(RustletteError::authz_error("m").status_code, Some(403));
    assert_eq!(RustletteError::timeout_error("m").status_code, Some(408));
    assert_eq!(RustletteError::not_found("m").status_code, Some(404));
    assert_eq!(RustletteError::method_not_allowed("m").status_code, Some(405));
    assert_eq!(RustletteError::internal_error("m").error_type, "InternalServerError");
    assert_eq!(ErrorKind::Timeout.tag(), "TimeoutError");
    let plain = RustletteError::new("boom".to_string(), None, None);
    assert_eq!(plain.error_type, "RustletteError");
    assert_eq!(plain.status_code, None);
}

#[test]
fn json_errors_carry_the_parser_message() {
    let e = serde_json::from_str::<serde_json::Value>("{").unwrap_err();
    let err = RustletteError::from_json_error(&e);
    assert!(err.message.starts_with("JSON parsing error: "));
    assert!(err.message.len() > "JSON parsing error: ".len());
}
