//! Request-dispatch core of an HTTP application framework: path templates,
//! routing, the middleware chain, dispatch and the gateway adapter.

pub mod error;
pub mod json;
pub mod text;
pub mod multimap;
pub mod types;
pub mod routing;
pub mod request;
pub mod response;
pub mod middleware;
pub mod dispatch;
pub mod gateway;
pub mod application;
