use rustlette::application::RustletteApp;
use rustlette::dispatch::{into_response, Event, HandlerResult, Step};
use rustlette::error::RustletteError;
use rustlette::request::RustletteRequest;
use rustlette::response::RustletteResponse;

struct Outcome {
    response: RustletteResponse,
    handler_calls: u32,
    steps: Vec<String>,
}

fn run(app: &RustletteApp, path: &str, fail_request_hook: Option<usize>, handler: Result<HandlerResult, String>) -> Outcome {
    let request = RustletteRequest::new("GET", format!("http://example.com{}", path), None, None, None).unwrap();
    let mut d = app.dispatcher(request);
    let mut handler = Some(handler);
    let mut handler_calls = 0;
    let mut steps = Vec::new();
    let mut ev = Event::Start;
    loop {
        let st = d.step(ev, &app.router);
        ev = match st {
            Step::RequestHook(i) => {
                steps.push(format!("request {}", i));
                if fail_request_hook == Some(i) {
                    Event::HookFailed(RustletteError::middleware_error("hook failed"))
                } else {
                    Event::HookOk
                }
            }
            Step::CallHandler => {
                handler_calls += 1;
                steps.push("handler".to_string());
                match handler.take().unwrap() {
                    Ok(r) => Event::HandlerReturned(into_response(r)),
                    Err(m) => Event::HandlerFailed(m),
                }
            }
            Step::ResponseHook(i) => {
                steps.push(format!("response {}", i));
                let resp = d.response.as_mut().unwrap();
                let before = resp.headers.get("x-order").unwrap_or_default();
                resp.set_header("x-order", &format!("{}{}", before, i));
                Event::HookOk
            }
            Step::TryHandler(_) => Event::Declined,
            Step::Respond => {
                return Outcome { response: d.response.take().unwrap(), handler_calls, steps };
            }
            Step::Idle => panic!("dispatch already finished"),
        };
    }
}

fn app_with(middleware: u64, debug: bool) -> RustletteApp {
    let mut app = RustletteApp::new(Some(debug));
    for i in 0..middleware {
        app.add_middleware(i, Some(format!("m{}", i)));
    }
    app.get("/users/{id:int}".to_string(), 1, Some("user".to_string()), None).unwrap();
    app
}

#[test]
fn response_hooks_run_in_reverse_order() {
    let app = app_with(3, false);
    let out = run(&app, "/users/5", None, Ok(HandlerResult::Text("hi".to_string())));
    assert_eq!(out.response.status_code, 200);
    assert_eq!(out.response.headers.get("x-order"), Some("210".to_string()));
    assert_eq!(
        out.steps,
        vec!["request 0", "request 1", "request 2", "handler", "response 2", "response 1", "response 0"]
    );
    assert_eq!(out.response.text(), Some("hi".to_string()));
}

#[test]
fn failing_request_hook_skips_the_handler() {
    let app = app_with(3, false);
    let out = run(&app, "/users/5", Some(1), Ok(HandlerResult::Text("hi".to_string())));
    assert_eq!(out.handler_calls, 0);
    assert_eq!(out.steps, vec!["request 0", "request 1"]);
    assert_eq!(out.response.status_code, 500);
    assert_eq!(out.response.text(), Some("Internal Server Error".to_string()));
}

#[test]
fn handler_failure_gives_500_or_raw_text_in_debug() {
    let app = app_with(0, false);
    let out = run(&app, "/users/5", None, Err("division by zero".to_string()));
    assert_eq!(out.response.status_code, 500);
    assert_eq!(out.response.text(), Some("Internal Server Error".to_string()));
    let app = app_with(0, true);
    let out = run(&app, "/users/5", None, Err("division by zero".to_string()));
    assert_eq!(out.response.status_code, 500);
    assert_eq!(out.response.text(), Some("division by zero".to_string()));
}

#[test]
fn unmatched_path_gives_404() {
    let app = app_with(1, false);
    let out = run(&app, "/nothing/here", None, Ok(HandlerResult::Text("hi".to_string())));
    assert_eq!(out.response.status_code, 404);
    assert_eq!(out.response.text(), Some("Not Found".to_string()));
    assert_eq!(out.handler_calls, 0);
    let out = run(&app, "/users/abc", None, Ok(HandlerResult::Text("hi".to_string())));
    assert_eq!(out.response.status_code, 404);
}

#[test]
fn matched_route_sets_path_parameters() {
    let app = app_with(0, false);
    let request = RustletteRequest::new("GET", "http://example.com/users/42".to_string(), None, None, None).unwrap();
    let mut d = app.dispatcher(request);
    let st = d.step(Event::Start, &app.router);
    assert_eq!(st, Step::CallHandler);
    assert_eq!(d.route_index, Some(0));
    assert_eq!(d.request.path_params.len(), 1);
    assert_eq!(d.request.path_params[0].0, "id");
}

#[test]
fn exception_handler_response_is_used() {
    let mut app = app_with(0, false);
    app.add_exception_handler(9);
    let request = RustletteRequest::new("GET", "http://example.com/missing".to_string(), None, None, None).unwrap();
    let mut d = app.dispatcher(request);
    assert_eq!(d.step(Event::Start, &app.router), Step::TryHandler(0));
    let custom = RustletteResponse::new(Some("custom".to_string()), Some(418), None, None, None);
    assert_eq!(d.step(Event::Handled(custom), &app.router), Step::Respond);
    assert_eq!(d.response.as_ref().unwrap().status_code, 418);
    assert_eq!(d.step(Event::HookOk, &app.router), Step::Idle);
}

#[test]
fn json_results_are_wrapped() {
    let r = into_response(HandlerResult::Json("{\"a\":1}".to_string()));
    assert_eq!(r.status_code, 200);
    assert_eq!(r.headers.get("content-type"), Some("application/json".to_string()));
    assert_eq!(r.headers.get("content-length"), Some("7".to_string()));
}
