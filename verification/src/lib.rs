//! A small HTTP server framework core: routing, route builders and the
//! middleware chain, with the request and response values they act on.
//!
//! An application is a [`Server`]: routes are added to it through [`Route`]
//! builders, middleware with [`Server::middleware`]. The finished
//! application is a [`Service`]. For each request it says, step by step,
//! what is to run: the next middleware, the endpoint, or nothing because no
//! route matched. The caller runs what is named and hands the request on; in
//! that way handlers may be of any kind, and may suspend where they like.

pub mod cookies;
pub mod cors;
pub mod endpoint;
pub mod error;
pub mod headers;
pub mod into_response;
pub mod method;
pub mod middleware;
pub mod params;
pub mod pattern;
pub mod request;
pub mod response;
pub mod route;
pub mod router;
pub mod server;
pub mod text;
pub mod uri;

pub use cookies::{Cookie, CookieData, CookiesMiddleware};
pub use cors::{Cors, CorsAction, Origin};
pub use error::{Error, IoError, IoErrorKind, ResultExt, StringError, TransportError};
pub use headers::HeaderMap;
pub use into_response::{IntoResponse, WithStatus};
pub use method::Method;
pub use middleware::{Next, Step};
pub use request::{Body, HttpRequest, Request, Version};
pub use response::Response;
pub use route::Route;
pub use server::{Server, Service};
pub use uri::Uri;

use vstd::prelude::*;

verus! {

/// A new application without state.
pub fn new<E, M>() -> (server: Server<(), E, M>)
    ensures
        server.router.is_empty(),
        server.middleware@.len() == 0,
{
    Server::new()
}

/// A new application with the given state.
pub fn with_state<State, E, M>(state: State) -> (server: Server<State, E, M>)
    ensures
        server.router.is_empty(),
        server.middleware@.len() == 0,
        server.state == state,
{
    Server::with_state(state)
}

} // verus!
