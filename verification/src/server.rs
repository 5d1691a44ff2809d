//! The application under construction and the service that it becomes.
//!
//! A `Server` is built once: routes and middleware are added to it. Turned
//! into a `Service` it is read-only and can be shared. The service is the
//! entry point for requests: it finds the route, adds the parameters that
//! the route captured to the request, and starts the chain of the
//! application's middleware before the endpoint of the route.

use crate::endpoint::RouteEndpoint;
use crate::middleware::{follows, Next, Step, Terminal};
use crate::params::no_params;
use crate::pattern::{captures, strip_slash};
use crate::request::{Request, RequestView};
use crate::route::Route;
use crate::router::{Router, Selection};
use std::sync::Arc;
use vstd::prelude::*;

verus! {

/// An HTTP server under construction: routes, middleware that runs for
/// every request, and the state that every request can read.
pub struct Server<State, E, M> {
    pub router: Router<RouteEndpoint<E, M>>,
    pub middleware: Vec<Arc<M>>,
    pub state: State,
}

impl<E, M> Server<(), E, M> {
    /// A server without routes, middleware or state.
    pub fn new() -> (server: Server<(), E, M>)
        ensures
            server.router.is_empty(),
            server.middleware@.len() == 0,
    {
        Server::with_state(())
    }
}

impl<State, E, M> Server<State, E, M> {
    /// A server without routes or middleware, with the given state.
    pub fn with_state(state: State) -> (server: Server<State, E, M>)
        ensures
            server.router.is_empty(),
            server.middleware@.len() == 0,
            server.state == state,
    {
        Server { router: Router::new(), middleware: Vec::new(), state }
    }

    /// A builder for the route at `path`. It starts without middleware of
    /// its own and not in prefix mode.
    pub fn at<'a>(&'a mut self, path: &str) -> (route: Route<'a, E, M>)
        ensures
            route.path@ == path@,
            route.middleware@.len() == 0,
            !route.prefix,
            *route.router == old(self).router,
            final(self).router == *final(route.router),
            final(self).middleware == old(self).middleware,
            final(self).state == old(self).state,
    {
        Route::new(&mut self.router, String::from_str(path))
    }

    /// Adds middleware that runs for every request, after the middleware
    /// that the server holds already.
    pub fn middleware(&mut self, m: M) -> (server: &mut Self)
        ensures
            server.middleware@ == old(self).middleware@.push(Arc::new(m)),
            server.router == old(self).router,
            server.state == old(self).state,
            *final(self) == *final(server),
    {
        self.middleware.push(Arc::new(m));
        self
    }

    /// The service that answers requests with the routes and the middleware
    /// of this server.
    pub fn into_http_service(self) -> (service: Service<State, E, M>)
        ensures
            *service.router == self.router,
            *service.middleware == self.middleware,
            *service.state == self.state,
    {
        Service {
            router: Arc::new(self.router),
            state: Arc::new(self.state),
            middleware: Arc::new(self.middleware),
        }
    }
}

/// A finished application. It answers requests and can itself stand as an
/// endpoint in another application, nested under a prefix.
pub struct Service<State, E, M> {
    pub router: Arc<Router<RouteEndpoint<E, M>>>,
    pub state: Arc<State>,
    pub middleware: Arc<Vec<Arc<M>>>,
}

/// The request that a service hands on: the request that came in with the
/// state of the service in place of the caller's, and with the parameters
/// that the route captured added as the innermost match.
pub open spec fn received<Outer, State>(
    req: RequestView<Outer>,
    state: State,
    captured: Map<Seq<char>, Seq<char>>,
) -> RequestView<State> {
    RequestView {
        state,
        method: req.method,
        uri: req.uri,
        version: req.version,
        headers: req.headers,
        body: req.body,
        locals: req.locals,
        cookies: req.cookies,
        params: req.params.push(captured),
    }
}

impl<State, E, M> Service<State, E, M> {
    /// Starts the answer to a request: the route is chosen by the method
    /// and the path of the request, and the first action of the chain is
    /// handed back.
    pub fn call<Outer>(&self, req: Request<Outer>) -> (step: Step<'_, E, M, State>)
        ensures
            match self.router.answer(req@.method, strip_slash(req@.uri.path)) {
                Some(entry) => follows(
                    step,
                    self.middleware@ + entry.handler.layers(),
                    Some(entry.handler.target()),
                    entry.handler.strips_prefix(),
                    received(
                        req@,
                        *self.state,
                        captures(entry.pattern@, strip_slash(req@.uri.path)),
                    ),
                ),
                None => follows(
                    step,
                    self.middleware@,
                    None,
                    false,
                    received(req@, *self.state, no_params()),
                ),
            },
    {
        let Request { state: _, request, route_params } = req;
        let mut route_params = route_params;
        let path = request.uri.path.clone();
        let Selection { endpoint, params } = self.router.route(path.as_str(), request.method);
        let ghost before = crate::params::params_views(route_params@);
        route_params.push(params);
        assert(crate::params::params_views(route_params@) =~= before.push(
            crate::params::params_map(params),
        ));
        let inner = Request::new(crate::endpoint::share(&self.state), request, route_params);
        let next = match endpoint {
            Some(routed) => Next {
                endpoint: Terminal::Routed(routed),
                next_middleware: self.middleware.as_slice(),
            },
            None => Next { endpoint: Terminal::NotFound, next_middleware: self.middleware.as_slice() },
        };
        next.run(inner)
    }
}

} // verus!
