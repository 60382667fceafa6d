//! The application: the registry of routes, middleware, exception and
//! lifecycle handlers that each dispatch reads.

use vstd::prelude::*;
use crate::dispatch::{Dispatcher, Phase};
use crate::error::{RustletteError, RustletteResult, kind_tag, ErrorKind};
use crate::middleware::MiddlewareStack;
use crate::multimap::MultiMap;
use crate::request::RustletteRequest;
use crate::routing::{Route, Router, all_methods_parse, template_compiles, name_taken};
use crate::text::{lowercase, lower_of, same};
use crate::types::{HTTPMethod, parsed_method};

verus! {

/// The lifecycle moments a handler can be registered for.
#[derive(Clone, Copy, Debug, PartialEq, Eq, Structural)]
pub enum LifecycleEvent {
    Startup,
    Shutdown,
}

/// The lifecycle event a name selects, case aside.
pub open spec fn event_named(s: Seq<char>) -> Option<LifecycleEvent> {
    if s == "startup"@ { Some(LifecycleEvent::Startup) }
    else if s == "shutdown"@ { Some(LifecycleEvent::Shutdown) }
    else { None }
}

/// A handler registered for a lifecycle event, by handle.
#[derive(Clone, Copy, Debug, PartialEq, Eq, Structural)]
pub struct EventHandler {
    pub event: LifecycleEvent,
    pub handler: u64,
}

/// An exception handler, by handle; whether it applies to an error is
/// decided where the handler lives.
#[derive(Clone, Copy, Debug, PartialEq, Eq, Structural)]
pub struct ExceptionHandler {
    pub handler: u64,
}

/// The application registry.
#[derive(Debug)]
pub struct RustletteApp {
    pub router: Router,
    pub middleware_stack: MiddlewareStack,
    pub event_handlers: Vec<EventHandler>,
    pub exception_handlers: Vec<ExceptionHandler>,
    pub debug: bool,
    pub state: MultiMap,
}

impl RustletteApp {
    pub open spec fn wf(&self) -> bool {
        self.router.wf() && self.state.wf()
    }

    /// An empty application; not in debug mode unless asked.
    pub fn new(debug: Option<bool>) -> (r: Self)
        ensures
            r.wf(),
            r.router.routes@.len() == 0,
            r.middleware_stack.middlewares@.len() == 0,
            r.event_handlers@.len() == 0,
            r.exception_handlers@.len() == 0,
            r.debug == match debug { Some(b) => b, None => false },
    {
        RustletteApp {
            router: Router::new(),
            middleware_stack: MiddlewareStack::new(),
            event_handlers: Vec::new(),
            exception_handlers: Vec::new(),
            debug: match debug { Some(b) => b, None => false },
            state: MultiMap::new(),
        }
    }

    /// Registers a route; a bad method or template, or a taken name, is refused
    /// and the application left as it was.
    pub fn add_route(
        &mut self,
        path: String,
        endpoint: u64,
        methods: Option<Vec<String>>,
        name: Option<String>,
        include_in_schema: Option<bool>,
    ) -> (r: RustletteResult<()>)
        requires
            old(self).wf(),
        ensures
            final(self).wf(),
            r is Ok ==> (match methods { Some(ms) => all_methods_parse(ms@), None => true })
                && template_compiles(path@)
                && final(self).router.routes@.len() == old(self).router.routes@.len() + 1
                && final(self).router.routes@.drop_last() == old(self).router.routes@
                && final(self).router.routes@.last().path@ == path@
                && final(self).router.routes@.last().handler == Some(endpoint)
                && final(self).router.routes@.last().name == name
                && final(self).router.routes@.last().include_in_schema
                    == match include_in_schema { Some(b) => b, None => true }
                && match methods {
                    Some(ms) => final(self).router.routes@.last().methods@.len() == ms@.len()
                        && forall|i: int| 0 <= i < ms@.len() ==>
                            Some(#[trigger] final(self).router.routes@.last().methods@[i]) == parsed_method(ms@[i]@),
                    None => final(self).router.routes@.last().methods@ == seq![HTTPMethod::GET],
                },
            r is Err ==> final(self).router.routes@ == old(self).router.routes@,
            (match methods { Some(ms) => all_methods_parse(ms@), None => true }) && template_compiles(path@)
                && (name is Some ==> !name_taken(old(self).router.routes@, name->Some_0@)) ==> r is Ok,
            final(self).middleware_stack == old(self).middleware_stack,
            final(self).exception_handlers == old(self).exception_handlers,
            final(self).debug == old(self).debug,
    {
        let route = Route::new(path, Some(endpoint), methods, name, include_in_schema)?;
        let r = self.router.add_route(route);
        proof {
            if r is Ok {
                assert(self.router.routes@.drop_last() =~= old(self).router.routes@);
            }
        }
        r
    }

    /// Registers a route for one method.
    fn add_for(&mut self, method: &str, path: String, endpoint: u64, name: Option<String>, include_in_schema: Option<bool>)
        -> (r: RustletteResult<()>)
        requires
            old(self).wf(),
        ensures
            final(self).wf(),
            r is Err ==> final(self).router.routes@ == old(self).router.routes@,
            r is Ok ==> final(self).router.routes@.len() == old(self).router.routes@.len() + 1
                && final(self).router.routes@.drop_last() == old(self).router.routes@,
            final(self).middleware_stack == old(self).middleware_stack,
            final(self).debug == old(self).debug,
    {
        let mut ms: Vec<String> = Vec::new();
        ms.push(String::from_str(method));
        self.add_route(path, endpoint, Some(ms), name, include_in_schema)
    }

    /// Registers a GET route.
    pub fn get(&mut self, path: String, endpoint: u64, name: Option<String>, include_in_schema: Option<bool>) -> (r: RustletteResult<()>)
        requires
            old(self).wf(),
        ensures
            final(self).wf(),
            r is Err ==> final(self).router.routes@ == old(self).router.routes@,
            r is Ok ==> final(self).router.routes@.drop_last() == old(self).router.routes@
                && final(self).router.routes@.len() == old(self).router.routes@.len() + 1,
    {
        self.add_for("GET", path, endpoint, name, include_in_schema)
    }

    /// Registers a POST route.
    pub fn post(&mut self, path: String, endpoint: u64, name: Option<String>, include_in_schema: Option<bool>) -> (r: RustletteResult<()>)
        requires
            old(self).wf(),
        ensures
            final(self).wf(),
            r is Err ==> final(self).router.routes@ == old(self).router.routes@,
            r is Ok ==> final(self).router.routes@.drop_last() == old(self).router.routes@
                && final(self).router.routes@.len() == old(self).router.routes@.len() + 1,
    {
        self.add_for("POST", path, endpoint, name, include_in_schema)
    }

    /// Registers a PUT route.
    pub fn put(&mut self, path: String, endpoint: u64, name: Option<String>, include_in_schema: Option<bool>) -> (r: RustletteResult<()>)
        requires
            old(self).wf(),
        ensures
            final(self).wf(),
            r is Err ==> final(self).router.routes@ == old(self).router.routes@,
            r is Ok ==> final(self).router.routes@.drop_last() == old(self).router.routes@
                && final(self).router.routes@.len() == old(self).router.routes@.len() + 1,
    {
        self.add_for("PUT", path, endpoint, name, include_in_schema)
    }

    /// Registers a DELETE route.
    pub fn delete(&mut self, path: String, endpoint: u64, name: Option<String>, include_in_schema: Option<bool>) -> (r: RustletteResult<()>)
        requires
            old(self).wf(),
        ensures
            final(self).wf(),
            r is Err ==> final(self).router.routes@ == old(self).router.routes@,
            r is Ok ==> final(self).router.routes@.drop_last() == old(self).router.routes@
                && final(self).router.routes@.len() == old(self).router.routes@.len() + 1,
    {
        self.add_for("DELETE", path, endpoint, name, include_in_schema)
    }

    /// Registers a PATCH route.
    pub fn patch(&mut self, path: String, endpoint: u64, name: Option<String>, include_in_schema: Option<bool>) -> (r: RustletteResult<()>)
        requires
            old(self).wf(),
        ensures
            final(self).wf(),
            r is Err ==> final(self).router.routes@ == old(self).router.routes@,
            r is Ok ==> final(self).router.routes@.drop_last() == old(self).router.routes@
                && final(self).router.routes@.len() == old(self).router.routes@.len() + 1,
    {
        self.add_for("PATCH", path, endpoint, name, include_in_schema)
    }

    /// Registers a HEAD route.
    pub fn head(&mut self, path: String, endpoint: u64, name: Option<String>, include_in_schema: Option<bool>) -> (r: RustletteResult<()>)
        requires
            old(self).wf(),
        ensures
            final(self).wf(),
            r is Err ==> final(self).router.routes@ == old(self).router.routes@,
            r is Ok ==> final(self).router.routes@.drop_last() == old(self).router.routes@
                && final(self).router.routes@.len() == old(self).router.routes@.len() + 1,
    {
        self.add_for("HEAD", path, endpoint, name, include_in_schema)
    }

    /// Registers an OPTIONS route.
    pub fn options(&mut self, path: String, endpoint: u64, name: Option<String>, include_in_schema: Option<bool>) -> (r: RustletteResult<()>)
        requires
            old(self).wf(),
        ensures
            final(self).wf(),
            r is Err ==> final(self).router.routes@ == old(self).router.routes@,
            r is Ok ==> final(self).router.routes@.drop_last() == old(self).router.routes@
                && final(self).router.routes@.len() == old(self).router.routes@.len() + 1,
    {
        self.add_for("OPTIONS", path, endpoint, name, include_in_schema)
    }

    /// Appends a middleware supplied from outside.
    pub fn add_middleware(&mut self, middleware: u64, name: Option<String>)
        ensures
            final(self).middleware_stack.middlewares@.len() == old(self).middleware_stack.middlewares@.len() + 1,
            final(self).middleware_stack.middlewares@.drop_last() == old(self).middleware_stack.middlewares@,
            final(self).middleware_stack.middlewares@.last() is External,
            final(self).router == old(self).router,
            final(self).state == old(self).state,
    {
        let n = match name {
            Some(n) => n,
            None => String::from_str("Middleware"),
        };
        self.middleware_stack.add_external_middleware(middleware, n);
    }

    /// Registers a lifecycle handler; an event other than startup or shutdown
    /// (case aside) is a validation error.
    pub fn add_event_handler(&mut self, event: &str, handler: u64) -> (r: RustletteResult<()>)
        ensures
            r is Ok <==> event_named(lower_of(event@)) is Some,
            r is Ok ==> final(self).event_handlers@ == old(self).event_handlers@.push(
                EventHandler { event: event_named(lower_of(event@))->Some_0, handler }),
            r is Err ==> final(self).event_handlers@ == old(self).event_handlers@
                && r->Err_0.error_type@ == kind_tag(ErrorKind::Validation),
            final(self).router == old(self).router,
            final(self).state == old(self).state,
    {
        let low = lowercase(event);
        let kind = if same(low.as_str(), "startup") {
            LifecycleEvent::Startup
        } else if same(low.as_str(), "shutdown") {
            LifecycleEvent::Shutdown
        } else {
            let mut msg = String::from_str("Unknown event type (startup or shutdown): ");
            msg.append(event);
            return Err(RustletteError::validation_error(msg.as_str()));
        };
        self.event_handlers.push(EventHandler { event: kind, handler });
        Ok(())
    }

    /// Registers an exception handler; handlers are tried in this order.
    pub fn add_exception_handler(&mut self, handler: u64)
        ensures
            final(self).exception_handlers@ == old(self).exception_handlers@.push(ExceptionHandler { handler }),
            final(self).router == old(self).router,
            final(self).state == old(self).state,
    {
        self.exception_handlers.push(ExceptionHandler { handler });
    }

    /// The handlers for a lifecycle event, in registration order.
    pub fn handlers_for(&self, event: LifecycleEvent) -> (r: Vec<u64>)
        ensures
            r@ == self.event_handlers@.filter(|h: EventHandler| h.event == event).map_values(|h: EventHandler| h.handler),
    {
        let mut out: Vec<u64> = Vec::new();
        let mut i: usize = 0;
        while i < self.event_handlers.len()
            invariant
                i <= self.event_handlers@.len(),
                out@ == self.event_handlers@.take(i as int).filter(|h: EventHandler| h.event == event)
                    .map_values(|h: EventHandler| h.handler),
            decreases self.event_handlers@.len() - i,
        {
            let h = self.event_handlers[i];
            proof {
                let s = self.event_handlers@.take(i as int + 1);
                assert(s.drop_last() =~= self.event_handlers@.take(i as int));
                reveal(Seq::filter);
            }
            if h.event == event {
                out.push(h.handler);
            }
            i = i + 1;
            proof {
                assert(out@ =~= self.event_handlers@.take(i as int).filter(|h: EventHandler| h.event == event)
                    .map_values(|h: EventHandler| h.handler));
            }
        }
        assert(self.event_handlers@.take(self.event_handlers@.len() as int) =~= self.event_handlers@);
        out
    }

    /// The URL of a named route with the given values; an unknown name is a
    /// routing error.
    pub fn url_path_for(&self, name: &str, params: &Vec<(String, String)>) -> (r: RustletteResult<String>)
        requires
            self.wf(),
        ensures
            r is Ok <==> name_taken(self.router.routes@, name@),
    {
        self.router.url_for(name, params)
    }

    /// Whether the application is in debug mode.
    pub fn debug(&self) -> (r: bool)
        ensures
            r == self.debug,
    {
        self.debug
    }

    /// Switches debug mode.
    pub fn set_debug(&mut self, debug: bool)
        ensures
            final(self).debug == debug,
            final(self).router == old(self).router,
            final(self).state == old(self).state,
    {
        self.debug = debug;
    }

    /// A value of the application state.
    pub fn get_state(&self, key: &str) -> (r: Option<String>)
        requires
            self.wf(),
        ensures
            match r {
                Some(v) => self.state@.contains_key(key@) && self.state@[key@].len() > 0 && v@ == self.state@[key@][0],
                None => !self.state@.contains_key(key@) || self.state@[key@].len() == 0,
            },
    {
        self.state.get(key)
    }

    /// Sets a value of the application state.
    pub fn set_state(&mut self, key: &str, value: &str)
        requires
            old(self).wf(),
        ensures
            final(self).wf(),
            final(self).state@ == old(self).state@.insert(key@, seq![value@]),
    {
        self.state.set(key, value);
    }

    /// A dispatch of `request` through this application's middleware and
    /// exception handlers.
    pub fn dispatcher(&self, request: RustletteRequest) -> (r: Dispatcher)
        requires
            request.wf(),
        ensures
            r.wf(),
            r.phase == Phase::Received,
            r.request == request,
            r.middleware_count == self.middleware_stack.middlewares@.len(),
            r.handler_count == self.exception_handlers@.len(),
            r.debug == self.debug,
    {
        Dispatcher::new(request, self.middleware_stack.middlewares.len(), self.exception_handlers.len(), self.debug)
    }
}

} // verus!
