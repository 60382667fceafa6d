//! The closed error taxonomy: each kind carries a tag and a default status.

use vstd::prelude::*;

verus! {

/// The kinds of failure this core knows.
#[derive(Clone, Copy, Debug, PartialEq, Eq, Structural)]
pub enum ErrorKind {
    Routing,
    Middleware,
    Request,
    Response,
    Server,
    Validation,
    Authentication,
    Authorization,
    Timeout,
    NotFound,
    MethodNotAllowed,
    Internal,
}

/// The default status code of each kind.
pub open spec fn kind_status(k: ErrorKind) -> u16 {
    match k {
        ErrorKind::Routing => 404,
        ErrorKind::Middleware => 500,
        ErrorKind::Request => 400,
        ErrorKind::Response => 500,
        ErrorKind::Server => 500,
        ErrorKind::Validation => 422,
        ErrorKind::Authentication => 401,
        ErrorKind::Authorization => 403,
        ErrorKind::Timeout => 408,
        ErrorKind::NotFound => 404,
        ErrorKind::MethodNotAllowed => 405,
        ErrorKind::Internal => 500,
    }
}

/// The tag that names each kind.
pub open spec fn kind_tag(k: ErrorKind) -> Seq<char> {
    match k {
        ErrorKind::Routing => "RoutingError"@,
        ErrorKind::Middleware => "MiddlewareError"@,
        ErrorKind::Request => "RequestError"@,
        ErrorKind::Response => "ResponseError"@,
        ErrorKind::Server => "ServerError"@,
        ErrorKind::Validation => "ValidationError"@,
        ErrorKind::Authentication => "AuthenticationError"@,
        ErrorKind::Authorization => "AuthorizationError"@,
        ErrorKind::Timeout => "TimeoutError"@,
        ErrorKind::NotFound => "NotFound"@,
        ErrorKind::MethodNotAllowed => "MethodNotAllowed"@,
        ErrorKind::Internal => "InternalServerError"@,
    }
}

impl ErrorKind {
    /// The default status code of this kind.
    pub fn status(&self) -> (r: u16)
        ensures
            r == kind_status(*self),
    {
        match self {
            ErrorKind::Routing => 404,
            ErrorKind::Middleware => 500,
            ErrorKind::Request => 400,
            ErrorKind::Response => 500,
            ErrorKind::Server => 500,
            ErrorKind::Validation => 422,
            ErrorKind::Authentication => 401,
            ErrorKind::Authorization => 403,
            ErrorKind::Timeout => 408,
            ErrorKind::NotFound => 404,
            ErrorKind::MethodNotAllowed => 405,
            ErrorKind::Internal => 500,
        }
    }

    /// The tag of this kind.
    pub fn tag(&self) -> (r: String)
        ensures
            r@ == kind_tag(*self),
    {
        let s = match self {
            ErrorKind::Routing => "RoutingError",
            ErrorKind::Middleware => "MiddlewareError",
            ErrorKind::Request => "RequestError",
            ErrorKind::Response => "ResponseError",
            ErrorKind::Server => "ServerError",
            ErrorKind::Validation => "ValidationError",
            ErrorKind::Authentication => "AuthenticationError",
            ErrorKind::Authorization => "AuthorizationError",
            ErrorKind::Timeout => "TimeoutError",
            ErrorKind::NotFound => "NotFound",
            ErrorKind::MethodNotAllowed => "MethodNotAllowed",
            ErrorKind::Internal => "InternalServerError",
        };
        String::from_str(s)
    }
}

/// An error record: a message, the tag of its kind and an optional status.
#[derive(Clone, Debug)]
pub struct RustletteError {
    pub message: String,
    pub error_type: String,
    pub status_code: Option<u16>,
}

/// The tag of an error built without a kind.
pub open spec fn generic_tag() -> Seq<char> {
    "RustletteError"@
}

/// What `to_display_string` gives: the tag, a colon and a space, the message.
pub open spec fn display_of(tag: Seq<char>, message: Seq<char>) -> Seq<char> {
    tag + ": "@ + message
}

impl RustletteError {
    /// An error with the given message, tag (the generic one when absent) and status.
    pub fn new(message: String, error_type: Option<String>, status_code: Option<u16>) -> (r: Self)
        ensures
            r.message@ == message@,
            r.error_type@ == match error_type {
                Some(t) => t@,
                None => generic_tag(),
            },
            r.status_code == status_code,
    {
        let error_type = match error_type {
            Some(t) => t,
            None => String::from_str("RustletteError"),
        };
        RustletteError { message, error_type, status_code }
    }

    /// An error of the given kind, with that kind's tag and default status.
    pub fn of_kind(kind: ErrorKind, message: &str) -> (r: Self)
        ensures
            r.message@ == message@,
            r.error_type@ == kind_tag(kind),
            r.status_code == Some(kind_status(kind)),
    {
        RustletteError {
            message: String::from_str(message),
            error_type: kind.tag(),
            status_code: Some(kind.status()),
        }
    }

    /// A failure to compile or resolve a route.
    pub fn routing_error(message: &str) -> (r: Self)
        ensures
            r.message@ == message@,
            r.error_type@ == kind_tag(ErrorKind::Routing),
            r.status_code == Some(404u16),
    {
        Self::of_kind(ErrorKind::Routing, message)
    }

    /// A failure inside a middleware hook.
    pub fn middleware_error(message: &str) -> (r: Self)
        ensures
            r.message@ == message@,
            r.error_type@ == kind_tag(ErrorKind::Middleware),
            r.status_code == Some(500u16),
    {
        Self::of_kind(ErrorKind::Middleware, message)
    }

    /// A malformed request.
    pub fn request_error(message: &str) -> (r: Self)
        ensures
            r.message@ == message@,
            r.error_type@ == kind_tag(ErrorKind::Request),
            r.status_code == Some(400u16),
    {
        Self::of_kind(ErrorKind::Request, message)
    }

    /// A failure to build a response.
    pub fn response_error(message: &str) -> (r: Self)
        ensures
            r.message@ == message@,
            r.error_type@ == kind_tag(ErrorKind::Response),
            r.status_code == Some(500u16),
    {
        Self::of_kind(ErrorKind::Response, message)
    }

    /// A failure of the serving machinery.
    pub fn server_error(message: &str) -> (r: Self)
        ensures
            r.message@ == message@,
            r.error_type@ == kind_tag(ErrorKind::Server),
            r.status_code == Some(500u16),
    {
        Self::of_kind(ErrorKind::Server, message)
    }

    /// Input that failed validation.
    pub fn validation_error(message: &str) -> (r: Self)
        ensures
            r.message@ == message@,
            r.error_type@ == kind_tag(ErrorKind::Validation),
            r.status_code == Some(422u16),
    {
        Self::of_kind(ErrorKind::Validation, message)
    }

    /// A caller that could not be authenticated.
    pub fn auth_error(message: &str) -> (r: Self)
        ensures
            r.message@ == message@,
            r.error_type@ == kind_tag(ErrorKind::Authentication),
            r.status_code == Some(401u16),
    {
        Self::of_kind(ErrorKind::Authentication, message)
    }

    /// A caller without the right to act.
    pub fn authz_error(message: &str) -> (r: Self)
        ensures
            r.message@ == message@,
            r.error_type@ == kind_tag(ErrorKind::Authorization),
            r.status_code == Some(403u16),
    {
        Self::of_kind(ErrorKind::Authorization, message)
    }

    /// Work that took too long.
    pub fn timeout_error(message: &str) -> (r: Self)
        ensures
            r.message@ == message@,
            r.error_type@ == kind_tag(ErrorKind::Timeout),
            r.status_code == Some(408u16),
    {
        Self::of_kind(ErrorKind::Timeout, message)
    }

    /// No route matched.
    pub fn not_found(message: &str) -> (r: Self)
        ensures
            r.message@ == message@,
            r.error_type@ == kind_tag(ErrorKind::NotFound),
            r.status_code == Some(404u16),
    {
        Self::of_kind(ErrorKind::NotFound, message)
    }

    /// A path that exists under another method.
    pub fn method_not_allowed(message: &str) -> (r: Self)
        ensures
            r.message@ == message@,
            r.error_type@ == kind_tag(ErrorKind::MethodNotAllowed),
            r.status_code == Some(405u16),
    {
        Self::of_kind(ErrorKind::MethodNotAllowed, message)
    }

    /// A failure inside a handler.
    pub fn internal_error(message: &str) -> (r: Self)
        ensures
            r.message@ == message@,
            r.error_type@ == kind_tag(ErrorKind::Internal),
            r.status_code == Some(500u16),
    {
        Self::of_kind(ErrorKind::Internal, message)
    }

    /// The error as text: its tag, a colon and a space, then its message.
    pub fn to_display_string(&self) -> (r: String)
        ensures
            r@ == display_of(self.error_type@, self.message@),
    {
        let mut s = self.error_type.clone();
        s.append(": ");
        s.append(self.message.as_str());
        s
    }
}

/// Result of an operation of this core.
pub type RustletteResult<T> = Result<T, RustletteError>;

} // verus!
