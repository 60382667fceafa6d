//! The dispatch orchestrator: the per-request state machine that sequences
//! request hooks, routing, the handler, response hooks in reverse, and the
//! exception path with its fallback response.

use vstd::prelude::*;
use vstd::utf8::encode_utf8;
use crate::error::{RustletteError, kind_tag, kind_status, ErrorKind};
use crate::request::RustletteRequest;
use crate::response::RustletteResponse;
use crate::routing::{Router, route_matches, first_match, extracted_from};

verus! {

/// The message of the fallback response outside debug mode.
pub open spec fn canned_phrase(code: u16) -> Seq<char> {
    if code == 404 { "Not Found"@ }
    else if code == 405 { "Method Not Allowed"@ }
    else if code == 500 { "Internal Server Error"@ }
    else { "Error"@ }
}

/// The status of the fallback response for an error.
pub open spec fn fallback_status(e: RustletteError) -> u16 {
    match e.status_code { Some(c) => c, None => 500 }
}

/// The message of the fallback response for an error.
pub open spec fn fallback_message(e: RustletteError, debug: bool) -> Seq<char> {
    if debug { e.message@ } else { canned_phrase(fallback_status(e)) }
}

/// Whether a response is the fallback response for an error.
pub open spec fn is_fallback(r: RustletteResponse, e: RustletteError, debug: bool) -> bool {
    &&& r.wf()
    &&& r.status_code == fallback_status(e)
    &&& r.body is Some
    &&& r.body->Some_0@ == encode_utf8(fallback_message(e, debug))
    &&& r.media_type is Some && r.media_type->Some_0@ == "text/plain"@
}

/// The response made when no exception handler produced one: the error's
/// status (500 when it has none) and, in debug mode, its message, else a
/// fixed phrase for the status. It never fails.
pub fn default_error_response(err: &RustletteError, debug: bool) -> (r: RustletteResponse)
    ensures
        is_fallback(r, *err, debug),
{
    let status: u16 = match err.status_code {
        Some(c) => c,
        None => 500,
    };
    let message = if debug {
        err.message.clone()
    } else if status == 404 {
        String::from_str("Not Found")
    } else if status == 405 {
        String::from_str("Method Not Allowed")
    } else if status == 500 {
        String::from_str("Internal Server Error")
    } else {
        String::from_str("Error")
    };
    RustletteResponse::new(Some(message), Some(status), None, Some(String::from_str("text/plain")), None)
}

/// Where a dispatch stands.
#[derive(Clone, Copy, Debug, PartialEq, Eq, Structural)]
pub enum Phase {
    Received,
    Request(usize),
    Handler,
    Response(usize),
    Exception(usize),
    Done,
}

/// What the outside reports back, by kind.
#[derive(Clone, Copy, Debug, PartialEq, Eq, Structural)]
pub enum Signal {
    Start,
    HookOk,
    HookFailed,
    HandlerOk,
    HandlerFailed,
    Handled,
    Declined,
}

/// What the outside is asked to do next.
#[derive(Clone, Copy, Debug, PartialEq, Eq, Structural)]
pub enum Step {
    RequestHook(usize),
    CallHandler,
    ResponseHook(usize),
    TryHandler(usize),
    Respond,
    Idle,
}

/// Entering the exception path: the first exception handler, or the fallback.
pub open spec fn begin_exception(x: nat) -> (Phase, Step) {
    if x > 0 { (Phase::Exception(0), Step::TryHandler(0)) } else { (Phase::Done, Step::Respond) }
}

/// After the request hooks: the handler where a route matched, else not found.
pub open spec fn after_requests(matched: bool, x: nat) -> (Phase, Step) {
    if matched { (Phase::Handler, Step::CallHandler) } else { begin_exception(x) }
}

/// After the handler: the last middleware's response hook, or respond.
pub open spec fn start_responses(n: nat) -> (Phase, Step) {
    if n > 0 { (Phase::Response((n - 1) as usize), Step::ResponseHook((n - 1) as usize)) } else { (Phase::Done, Step::Respond) }
}

/// The transition: phase and signal to the next phase and step, for `n`
/// middleware, `x` exception handlers, and whether a route matches.
pub open spec fn next(p: Phase, s: Signal, n: nat, x: nat, matched: bool) -> (Phase, Step) {
    match p {
        Phase::Received => if s == Signal::Start {
            if n > 0 { (Phase::Request(0), Step::RequestHook(0)) } else { after_requests(matched, x) }
        } else {
            begin_exception(x)
        },
        Phase::Request(i) => if s == Signal::HookOk {
            if i + 1 < n { (Phase::Request((i + 1) as usize), Step::RequestHook((i + 1) as usize)) } else { after_requests(matched, x) }
        } else {
            begin_exception(x)
        },
        Phase::Handler => if s == Signal::HandlerOk { start_responses(n) } else { begin_exception(x) },
        Phase::Response(i) => if s == Signal::HookOk {
            if i > 0 { (Phase::Response((i - 1) as usize), Step::ResponseHook((i - 1) as usize)) } else { (Phase::Done, Step::Respond) }
        } else {
            begin_exception(x)
        },
        Phase::Exception(k) => if s == Signal::Handled {
            (Phase::Done, Step::Respond)
        } else if k + 1 < x {
            (Phase::Exception((k + 1) as usize), Step::TryHandler((k + 1) as usize))
        } else {
            (Phase::Done, Step::Respond)
        },
        Phase::Done => (Phase::Done, Step::Idle),
    }
}

/// Whether a phase keeps its indices in range.
pub open spec fn phase_ok(p: Phase, n: nat, x: nat) -> bool {
    match p {
        Phase::Request(i) => i < n,
        Phase::Response(i) => i < n,
        Phase::Exception(k) => k < x,
        _ => true,
    }
}

/// Whether reaching this transition runs the router.
pub open spec fn routes_now(p: Phase, s: Signal, n: nat) -> bool {
    match p {
        Phase::Received => s == Signal::Start && n == 0,
        Phase::Request(i) => s == Signal::HookOk && i + 1 >= n,
        _ => false,
    }
}

/// The transition, computed.
pub fn advance(p: Phase, s: Signal, n: usize, x: usize, matched: bool) -> (r: (Phase, Step))
    requires
        phase_ok(p, n as nat, x as nat),
    ensures
        r == next(p, s, n as nat, x as nat, matched),
        phase_ok(r.0, n as nat, x as nat),
{
    let exc = if x > 0 { (Phase::Exception(0), Step::TryHandler(0)) } else { (Phase::Done, Step::Respond) };
    let routed = if matched { (Phase::Handler, Step::CallHandler) } else { exc };
    match p {
        Phase::Received => if s == Signal::Start {
            if n > 0 { (Phase::Request(0), Step::RequestHook(0)) } else { routed }
        } else {
            exc
        },
        Phase::Request(i) => if s == Signal::HookOk {
            if i + 1 < n { (Phase::Request(i + 1), Step::RequestHook(i + 1)) } else { routed }
        } else {
            exc
        },
        Phase::Handler => if s == Signal::HandlerOk {
            if n > 0 { (Phase::Response(n - 1), Step::ResponseHook(n - 1)) } else { (Phase::Done, Step::Respond) }
        } else {
            exc
        },
        Phase::Response(i) => if s == Signal::HookOk {
            if i > 0 { (Phase::Response(i - 1), Step::ResponseHook(i - 1)) } else { (Phase::Done, Step::Respond) }
        } else {
            exc
        },
        Phase::Exception(k) => if s == Signal::Handled {
            (Phase::Done, Step::Respond)
        } else if k + 1 < x {
            (Phase::Exception(k + 1), Step::TryHandler(k + 1))
        } else {
            (Phase::Done, Step::Respond)
        },
        Phase::Done => (Phase::Done, Step::Idle),
    }
}


/// What the outside reports back after doing a step.
#[derive(Debug)]
pub enum Event {
    Start,
    HookOk,
    HookFailed(RustletteError),
    HandlerReturned(RustletteResponse),
    HandlerFailed(String),
    Handled(RustletteResponse),
    Declined,
}

/// The kind of an event.
pub open spec fn signal_of(e: Event) -> Signal {
    match e {
        Event::Start => Signal::Start,
        Event::HookOk => Signal::HookOk,
        Event::HookFailed(_) => Signal::HookFailed,
        Event::HandlerReturned(_) => Signal::HandlerOk,
        Event::HandlerFailed(_) => Signal::HandlerFailed,
        Event::Handled(_) => Signal::Handled,
        Event::Declined => Signal::Declined,
    }
}

fn signal(e: &Event) -> (r: Signal)
    ensures
        r == signal_of(*e),
{
    match e {
        Event::Start => Signal::Start,
        Event::HookOk => Signal::HookOk,
        Event::HookFailed(_) => Signal::HookFailed,
        Event::HandlerReturned(_) => Signal::HandlerOk,
        Event::HandlerFailed(_) => Signal::HandlerFailed,
        Event::Handled(_) => Signal::Handled,
        Event::Declined => Signal::Declined,
    }
}

/// Whether this transition ends the dispatch with the response in hand
/// (the handler's, after its hooks, or an exception handler's).
pub open spec fn normal_finish(p: Phase, s: Signal, n: nat) -> bool {
    match p {
        Phase::Handler => s == Signal::HandlerOk && n == 0,
        Phase::Response(i) => s == Signal::HookOk && i == 0,
        Phase::Exception(_) => s == Signal::Handled,
        _ => false,
    }
}

/// Whether the phase is on the main path (not the exception path, not done).
pub open spec fn in_flow(p: Phase) -> bool {
    !(p is Exception) && !(p is Done)
}

/// Whether some route matches the request's path and method.
pub open spec fn route_exists(router: Router, req: RustletteRequest) -> bool {
    exists|i: int| 0 <= i < router.routes@.len() && route_matches(#[trigger] router.routes@[i], req.parts.path@, req.method)
}

/// The dispatch of one request.
#[derive(Debug)]
pub struct Dispatcher {
    pub phase: Phase,
    pub request: RustletteRequest,
    pub response: Option<RustletteResponse>,
    pub error: Option<RustletteError>,
    pub route_index: Option<usize>,
    pub debug: bool,
    pub middleware_count: usize,
    pub handler_count: usize,
}

impl Dispatcher {
    pub open spec fn wf(&self) -> bool {
        &&& phase_ok(self.phase, self.middleware_count as nat, self.handler_count as nat)
        &&& self.request.wf()
        &&& (self.response is Some ==> self.response->Some_0.wf())
        &&& (self.phase is Exception ==> self.error is Some)
    }

    /// A dispatch of `request` through `middleware_count` middleware and
    /// `handler_count` exception handlers.
    pub fn new(request: RustletteRequest, middleware_count: usize, handler_count: usize, debug: bool) -> (r: Self)
        requires
            request.wf(),
        ensures
            r.wf(),
            r.phase == Phase::Received,
            r.request == request,
            r.response is None,
            r.error is None,
            r.route_index is None,
            r.debug == debug,
            r.middleware_count == middleware_count,
            r.handler_count == handler_count,
    {
        Dispatcher {
            phase: Phase::Received,
            request,
            response: None,
            error: None,
            route_index: None,
            debug,
            middleware_count,
            handler_count,
        }
    }

    /// Takes in what the outside reports and says what to do next. When the
    /// request hooks are through, the router picks the route (its values go
    /// into the request); a failure records its error and enters the
    /// exception path; when no exception handler produces a response, the
    /// fallback response is made.
    pub fn step(&mut self, ev: Event, router: &Router) -> (r: Step)
        requires
            old(self).wf(),
            match ev {
                Event::HandlerReturned(resp) => resp.wf(),
                Event::Handled(resp) => resp.wf(),
                _ => true,
            },
        ensures
            final(self).wf(),
            final(self).middleware_count == old(self).middleware_count,
            final(self).handler_count == old(self).handler_count,
            final(self).debug == old(self).debug,
            final(self).request.method == old(self).request.method,
            final(self).request.parts == old(self).request.parts,
            ({
                let n = old(self).middleware_count as nat;
                let x = old(self).handler_count as nat;
                let p = old(self).phase;
                let sg = signal_of(ev);
                let matched = route_exists(*router, old(self).request);
                &&& (final(self).phase, r) == next(p, sg, n, x, matched)
                &&& (routes_now(p, sg, n) && matched) ==> final(self).route_index is Some
                    && first_match(router.routes@, old(self).request.parts.path@, old(self).request.method,
                        final(self).route_index->Some_0 as int)
                    && extracted_from(router.routes@[final(self).route_index->Some_0 as int].compiled,
                        old(self).request.parts.path@, final(self).request.path_params@)
                &&& (routes_now(p, sg, n) && !matched) ==> final(self).error is Some
                    && final(self).error->Some_0.error_type@ == kind_tag(ErrorKind::NotFound)
                    && final(self).error->Some_0.status_code == Some(404u16)
                    && final(self).error->Some_0.message@ == "Route not found"@
                &&& (in_flow(p) && ev is HookFailed) ==> final(self).error == Some(ev->HookFailed_0)
                &&& (in_flow(p) && ev is HandlerFailed) ==> final(self).error is Some
                    && final(self).error->Some_0.error_type@ == kind_tag(ErrorKind::Internal)
                    && final(self).error->Some_0.status_code == Some(500u16)
                    && final(self).error->Some_0.message@ == ev->HandlerFailed_0@
                &&& (p == Phase::Handler && ev is HandlerReturned) ==> final(self).response == Some(ev->HandlerReturned_0)
                &&& (p is Exception && ev is Handled) ==> final(self).response == Some(ev->Handled_0)
                &&& (r == Step::Respond && !normal_finish(p, sg, n)) ==> final(self).response is Some
                    && final(self).error is Some
                    && is_fallback(final(self).response->Some_0, final(self).error->Some_0, old(self).debug)
                &&& (r == Step::Respond && normal_finish(p, sg, n) && p is Response) ==> final(self).response == old(self).response
            }),
    {
        let n = self.middleware_count;
        let x = self.handler_count;
        let p = self.phase;
        let sg = signal(&ev);
        let ghost matched_spec = route_exists(*router, self.request);
        let routing = match p {
            Phase::Received => sg == Signal::Start && n == 0,
            Phase::Request(i) => sg == Signal::HookOk && i + 1 >= n,
            _ => false,
        };
        let mut matched = false;
        if routing {
            let path = self.request.path();
            match router.match_method(path.as_str(), self.request.method) {
                Some(rm) => {
                    matched = true;
                    self.route_index = Some(rm.index);
                    self.request.set_path_params(rm.path_params);
                },
                None => {
                    self.error = Some(RustletteError::not_found("Route not found"));
                },
            }
        }
        assert(routing ==> matched == matched_spec);
        let (p2, st) = advance(p, sg, n, x, matched);
        assert((p2, st) == next(p, sg, n as nat, x as nat, matched_spec));
        let flowing = match p {
            Phase::Exception(_) => false,
            Phase::Done => false,
            _ => true,
        };
        match ev {
            Event::HookFailed(e) => {
                if flowing {
                    self.error = Some(e);
                }
            },
            Event::HandlerFailed(msg) => {
                if flowing {
                    self.error = Some(RustletteError::internal_error(msg.as_str()));
                }
            },
            Event::HandlerReturned(resp) => {
                if p == Phase::Handler {
                    self.response = Some(resp);
                }
            },
            Event::Handled(resp) => {
                match p {
                    Phase::Exception(_) => {
                        self.response = Some(resp);
                    },
                    _ => {},
                }
            },
            _ => {},
        }
        let finishing_normally = match p {
            Phase::Handler => sg == Signal::HandlerOk && n == 0,
            Phase::Response(i) => sg == Signal::HookOk && i == 0,
            Phase::Exception(_) => sg == Signal::Handled,
            _ => false,
        };
        let entering = match p2 {
            Phase::Exception(_) => true,
            _ => st == Step::Respond && !finishing_normally,
        };
        if entering && self.error.is_none() {
            self.error = Some(RustletteError::internal_error("Unexpected dispatch event"));
        }
        if st == Step::Respond && !finishing_normally {
            let resp = match &self.error {
                Some(e) => default_error_response(e, self.debug),
                None => default_error_response(&RustletteError::internal_error("Unexpected dispatch event"), self.debug),
            };
            self.response = Some(resp);
        }
        self.phase = p2;
        st
    }
}


/// The steps asked for when the signals `ss` arrive one after another from phase `p`.
pub open spec fn trace(p: Phase, ss: Seq<Signal>, n: nat, x: nat, matched: bool) -> Seq<Step>
    decreases ss.len(),
{
    if ss.len() == 0 {
        Seq::empty()
    } else {
        let t = next(p, ss[0], n, x, matched);
        seq![t.1] + trace(t.0, ss.skip(1), n, x, matched)
    }
}

/// `k` successful hooks.
pub open spec fn oks(k: nat) -> Seq<Signal> {
    Seq::new(k, |i: int| Signal::HookOk)
}

/// Response hooks from the `k`-th middleware down to the first.
pub open spec fn reverse_hooks(k: nat) -> Seq<Step> {
    Seq::new(k, |j: int| Step::ResponseHook((k - 1 - j) as usize))
}

/// Request hooks of the middleware from `from` up to, not including, `to`.
pub open spec fn forward_hooks(from: nat, to: nat) -> Seq<Step> {
    Seq::new((to - from) as nat, |j: int| Step::RequestHook((from + j) as usize))
}

proof fn lemma_response_run(i: nat, n: nat, x: nat, m: bool)
    requires
        i < n,
        n <= usize::MAX,
    ensures
        trace(Phase::Response(i as usize), oks(i + 1), n, x, m) == reverse_hooks(i).push(Step::Respond),
    decreases i,
{
    let ss = oks(i + 1);
    assert(ss.skip(1) =~= oks(i));
    if i == 0 {
        assert(oks(0) =~= Seq::<Signal>::empty());
        assert(trace(Phase::Done, oks(0), n, x, m) =~= Seq::<Step>::empty());
        assert(next(Phase::Response(0), Signal::HookOk, n, x, m) == (Phase::Done, Step::Respond));
        assert(trace(Phase::Response(0), ss, n, x, m) =~= seq![Step::Respond] + trace(Phase::Done, oks(0), n, x, m));
        assert(trace(Phase::Response(0), ss, n, x, m) =~= reverse_hooks(0).push(Step::Respond));
    } else {
        lemma_response_run((i - 1) as nat, n, x, m);
        assert(trace(Phase::Response(i as usize), ss, n, x, m)
            =~= seq![Step::ResponseHook((i - 1) as usize)] + reverse_hooks((i - 1) as nat).push(Step::Respond));
        assert(seq![Step::ResponseHook((i - 1) as usize)] + reverse_hooks((i - 1) as nat).push(Step::Respond)
            =~= reverse_hooks(i).push(Step::Respond));
    }
}

/// Once the handler has returned, the response hooks run over the whole
/// stack in exactly the reverse of the order in which the middleware were
/// added, and then the response goes out.
pub proof fn lemma_response_hooks_reverse(n: nat, x: nat, matched: bool)
    requires
        1 <= n <= usize::MAX,
    ensures
        trace(Phase::Handler, seq![Signal::HandlerOk] + oks(n), n, x, matched)
            == reverse_hooks(n).push(Step::Respond),
{
    let ss = seq![Signal::HandlerOk] + oks(n);
    assert(ss.skip(1) =~= oks(n));
    assert(ss[0] == Signal::HandlerOk);
    lemma_response_run((n - 1) as nat, n, x, matched);
    assert(oks(((n - 1) as nat + 1) as nat) =~= oks(n));
    assert(seq![Step::ResponseHook((n - 1) as usize)] + reverse_hooks((n - 1) as nat).push(Step::Respond)
        =~= reverse_hooks(n).push(Step::Respond));
}

proof fn lemma_request_run(i: nat, n: nat, x: nat)
    requires
        i < n,
        n <= usize::MAX,
    ensures
        trace(Phase::Request(i as usize), oks((n - i) as nat), n, x, true)
            == forward_hooks(i + 1, n).push(Step::CallHandler),
    decreases n - i,
{
    let ss = oks((n - i) as nat);
    assert(ss.skip(1) =~= oks((n - i - 1) as nat));
    if i + 1 == n {
        assert(oks(0) =~= Seq::<Signal>::empty());
        assert(trace(Phase::Handler, oks(0), n, x, true) =~= Seq::<Step>::empty());
        assert(trace(Phase::Request(i as usize), ss, n, x, true)
            =~= seq![Step::CallHandler] + trace(Phase::Handler, oks(0), n, x, true));
        assert(trace(Phase::Request(i as usize), ss, n, x, true) =~= seq![Step::CallHandler]);
        assert(forward_hooks(i + 1, n).push(Step::CallHandler) =~= seq![Step::CallHandler]);
    } else {
        lemma_request_run(i + 1, n, x);
        assert(trace(Phase::Request(i as usize), ss, n, x, true)
            =~= seq![Step::RequestHook((i + 1) as usize)] + forward_hooks(i + 2, n).push(Step::CallHandler));
        assert(seq![Step::RequestHook((i + 1) as usize)] + forward_hooks(i + 2, n).push(Step::CallHandler)
            =~= forward_hooks(i + 1, n).push(Step::CallHandler));
    }
}

/// When every request hook succeeds, the request hooks run in the order in
/// which the middleware were added, and a matching route's handler follows.
pub proof fn lemma_request_hooks_in_order(n: nat, x: nat)
    requires
        1 <= n <= usize::MAX,
    ensures
        trace(Phase::Received, seq![Signal::Start] + oks(n), n, x, true)
            == forward_hooks(0, n).push(Step::CallHandler),
{
    let ss = seq![Signal::Start] + oks(n);
    assert(ss.skip(1) =~= oks(n));
    assert(ss[0] == Signal::Start);
    lemma_request_run(0, n, x);
    assert(oks((n - 0) as nat) =~= oks(n));
    assert(trace(Phase::Received, ss, n, x, true)
        =~= seq![Step::RequestHook(0)] + trace(Phase::Request(0), oks(n), n, x, true));
    assert(seq![Step::RequestHook(0)] + forward_hooks(1, n).push(Step::CallHandler)
        =~= forward_hooks(0, n).push(Step::CallHandler));
}

proof fn lemma_exception_path_closed(p: Phase, ss: Seq<Signal>, n: nat, x: nat, m: bool)
    requires
        p is Exception || p is Done,
    ensures
        !trace(p, ss, n, x, m).contains(Step::CallHandler),
    decreases ss.len(),
{
    if ss.len() > 0 {
        let t = next(p, ss[0], n, x, m);
        lemma_exception_path_closed(t.0, ss.skip(1), n, x, m);
        let tr = trace(p, ss, n, x, m);
        assert(tr =~= seq![t.1] + trace(t.0, ss.skip(1), n, x, m));
        if tr.contains(Step::CallHandler) {
            let k = choose|k: int| 0 <= k < tr.len() && tr[k] == Step::CallHandler;
            if k > 0 {
                assert(trace(t.0, ss.skip(1), n, x, m)[k - 1] == Step::CallHandler);
            }
        }
    }
}

/// A request hook that fails keeps the handler from being called, whatever
/// is reported afterwards.
pub proof fn lemma_failed_request_hook_skips_handler(i: nat, n: nat, x: nat, matched: bool, rest: Seq<Signal>)
    requires
        i < n <= usize::MAX,
    ensures
        !trace(Phase::Request(i as usize), seq![Signal::HookFailed] + rest, n, x, matched).contains(Step::CallHandler),
{
    let ss = seq![Signal::HookFailed] + rest;
    assert(ss.skip(1) =~= rest);
    assert(ss[0] == Signal::HookFailed);
    let t = next(Phase::Request(i as usize), Signal::HookFailed, n, x, matched);
    lemma_exception_path_closed(t.0, rest, n, x, matched);
    let tr = trace(Phase::Request(i as usize), ss, n, x, matched);
    assert(tr =~= seq![t.1] + trace(t.0, rest, n, x, matched));
    if tr.contains(Step::CallHandler) {
        let k = choose|k: int| 0 <= k < tr.len() && tr[k] == Step::CallHandler;
        if k > 0 {
            assert(trace(t.0, rest, n, x, matched)[k - 1] == Step::CallHandler);
        }
    }
}

/// The fallback for a handler failure is a 500 with the raw error text in
/// debug mode and "Internal Server Error" otherwise.
pub proof fn lemma_unhandled_failure_response(e: RustletteError, debug: bool, r: RustletteResponse)
    requires
        e.status_code == Some(500u16),
        is_fallback(r, e, debug),
    ensures
        r.status_code == 500,
        r.body->Some_0@ == encode_utf8(if debug { e.message@ } else { "Internal Server Error"@ }),
{
}

/// The fallback for a path that no route matches is a 404, with "Not Found"
/// outside debug mode.
pub proof fn lemma_not_found_response(e: RustletteError, r: RustletteResponse)
    requires
        e.error_type@ == kind_tag(ErrorKind::NotFound),
        e.status_code == Some(kind_status(ErrorKind::NotFound)),
        is_fallback(r, e, false),
    ensures
        r.status_code == 404,
        r.body->Some_0@ == encode_utf8("Not Found"@),
{
}


/// What a route handler gives back.
#[derive(Debug)]
pub enum HandlerResult {
    Response(RustletteResponse),
    Json(String),
    Text(String),
}

/// The response for a handler's result: a response as it is, JSON text as
/// `application/json` with status 200, text as `text/plain` with status 200.
pub fn into_response(result: HandlerResult) -> (r: RustletteResponse)
    requires
        result is Response ==> result->Response_0.wf(),
    ensures
        r.wf(),
        match result {
            HandlerResult::Response(x) => r == x,
            HandlerResult::Json(t) => r.status_code == 200 && r.body is Some && r.body->Some_0@ == encode_utf8(t@)
                && r.media_type is Some && r.media_type->Some_0@ == "application/json"@,
            HandlerResult::Text(t) => r.status_code == 200 && r.body is Some && r.body->Some_0@ == encode_utf8(t@)
                && r.media_type is Some && r.media_type->Some_0@ == "text/plain"@,
        },
{
    match result {
        HandlerResult::Response(x) => x,
        HandlerResult::Json(t) => RustletteResponse::json(t, Some(200), None),
        HandlerResult::Text(t) => RustletteResponse::plain_text(t, Some(200), None),
    }
}

} // verus!
