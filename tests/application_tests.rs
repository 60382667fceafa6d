use rustlette::application::{LifecycleEvent, RustletteApp};

#[test]
fn test_app_creation() {
    let app = RustletteApp::new(Some(true));
    assert!(app.debug);
}

#[test]
fn test_route_addition() {
    let mut app = RustletteApp::new(None);
    app.add_route("/test".to_string(), 7, Some(vec!["GET".to_string()]), Some("test_route".to_string()), None)
        .unwrap();
    assert_eq!(app.router.route_count(), 1);
    assert_eq!(app.url_path_for("test_route", &vec![]).unwrap(), "/test");
}

#[test]
fn event_handlers_accept_only_startup_and_shutdown() {
    let mut app = RustletteApp::new(None);
    app.add_event_handler("Startup", 1).unwrap();
    app.add_event_handler("shutdown", 2).unwrap();
    app.add_event_handler("startup", 3).unwrap();
    let e = app.add_event_handler("reload", 4).unwrap_err();
    assert_eq!(e.error_type, "ValidationError");
    assert_eq!(app.handlers_for(LifecycleEvent::Startup), vec![1, 3]);
    assert_eq!(app.handlers_for(LifecycleEvent::Shutdown), vec![2]);
}

#[test]
fn app_state_and_method_routes() {
    let mut app = RustletteApp::new(None);
    assert!(!app.debug());
    app.set_debug(true);
    assert!(app.debug());
    app.set_state("k", "v");
    assert_eq!(app.get_state("k"), Some("v".to_string()));
    app.post("/p".to_string(), 1, None, None).unwrap();
    app.put("/p".to_string(), 2, None, None).unwrap();
    app.delete("/p".to_string(), 3, None, None).unwrap();
    app.patch("/p".to_string(), 4, None, None).unwrap();
    app.head("/p".to_string(), 5, None, None).unwrap();
    app.options("/p".to_string(), 6, None, None).unwrap();
    assert_eq!(app.router.match_request("/p", "DELETE").unwrap().index, 2);
    assert!(app.add_route("/q/{x:nope}".to_string(), 8, None, None, None).is_err());
    assert_eq!(app.router.route_count(), 6);
}
