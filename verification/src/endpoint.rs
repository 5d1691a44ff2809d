//! What the router holds for a route: the endpoint as it was wrapped when it
//! was registered.
//!
//! Wrapping happens once, at registration. The middleware that was in scope
//! then is fixed for that endpoint from there on, and so is whether the
//! endpoint sees the request's path with the route's prefix taken off.

use crate::middleware::{Next, Step, Terminal};
use crate::request::{rest_value, Request, RequestView};
use crate::uri::UriView;
use std::sync::Arc;
use vstd::prelude::*;

verus! {

/// `Arc::clone`: trusted to return a handle to the value that `handle`
/// points to.
#[verifier::external_body]
pub(crate) fn share<T>(handle: &Arc<T>) -> (copy: Arc<T>)
    ensures
        copy == *handle,
{
    Arc::clone(handle)
}

/// A copy of a list of shared handles: the same values in the same order.
pub fn share_all<T>(handles: &[Arc<T>]) -> (copies: Vec<Arc<T>>)
    ensures
        copies@ == handles@,
{
    let mut copies: Vec<Arc<T>> = Vec::new();
    let mut i: usize = 0;
    while i < handles.len()
        invariant
            i <= handles@.len(),
            copies@ == handles@.take(i as int),
        decreases handles@.len() - i,
    {
        copies.push(share(&handles[i]));
        assert(handles@.take(i + 1) =~= handles@.take(i as int).push(handles@[i as int]));
        i += 1;
    }
    assert(handles@.take(i as int) =~= handles@);
    copies
}

/// The request that an endpoint behind a prefix is given: the path is `/`
/// followed by what the route captured behind the prefix, or `/` alone
/// where the request hit the prefix itself. Nothing else changes.
pub open spec fn stripped<State>(req: RequestView<State>) -> RequestView<State> {
    let rest = match rest_value(req.params) {
        Some(rest) => rest,
        None => Seq::empty(),
    };
    RequestView { uri: UriView { path: "/"@ + rest, ..req.uri }, ..req }
}

/// An endpoint that is given requests with the prefix of its route removed
/// from their path.
pub struct StripPrefixEndpoint<E>(pub Arc<E>);

impl<E> StripPrefixEndpoint<E> {
    /// Puts `ep` behind a prefix.
    pub fn new(ep: E) -> (wrapped: StripPrefixEndpoint<E>)
        ensures
            *wrapped.0 == ep,
    {
        StripPrefixEndpoint(Arc::new(ep))
    }

    /// Rewrites the request for the endpoint behind the prefix, and hands
    /// out that endpoint to be called with it.
    pub fn call<State>(&self, req: Request<State>) -> (out: (&E, Request<State>))
        ensures
            *out.0 == *self.0,
            out.1@ == stripped(req@),
    {
        let mut req = req;
        let path = match req.rest() {
            Some(rest) => String::from_str("/").concat(rest),
            None => String::from_str("/"),
        };
        assert(path@ =~= stripped(req@).uri.path);
        req.request.uri.path = path;
        (&*self.0, req)
    }
}

impl<E> Clone for StripPrefixEndpoint<E> {
    fn clone(&self) -> (copy: Self)
        ensures
            copy == *self,
    {
        StripPrefixEndpoint(share(&self.0))
    }
}

/// An endpoint with the middleware that runs before it.
pub struct MiddlewareEndpoint<E, M> {
    pub endpoint: E,
    pub middleware: Vec<Arc<M>>,
}

impl<E, M> MiddlewareEndpoint<E, M> {
    /// Wraps `ep` in the given middleware, outermost first.
    pub fn wrap_with_middleware(ep: E, middleware: &[Arc<M>]) -> (wrapped: MiddlewareEndpoint<
        E,
        M,
    >)
        ensures
            wrapped.endpoint == ep,
            wrapped.middleware@ == middleware@,
    {
        MiddlewareEndpoint { endpoint: ep, middleware: share_all(middleware) }
    }
}

impl<E, M> Clone for MiddlewareEndpoint<StripPrefixEndpoint<E>, M> {
    fn clone(&self) -> (copy: Self)
        ensures
            copy.endpoint == self.endpoint,
            copy.middleware@ == self.middleware@,
    {
        MiddlewareEndpoint {
            endpoint: self.endpoint.clone(),
            middleware: share_all(self.middleware.as_slice()),
        }
    }
}

/// An endpoint as a route holds it.
pub enum RouteEndpoint<E, M> {
    /// The endpoint itself.
    Plain(E),
    /// The endpoint behind middleware.
    Wrapped(MiddlewareEndpoint<E, M>),
    /// The endpoint behind a prefix.
    Prefix(StripPrefixEndpoint<E>),
    /// The endpoint behind a prefix, and both behind middleware.
    WrappedPrefix(MiddlewareEndpoint<StripPrefixEndpoint<E>, M>),
}

impl<E, M> RouteEndpoint<E, M> {
    /// The middleware that runs before the endpoint, outermost first.
    pub open spec fn layers(&self) -> Seq<Arc<M>> {
        match self {
            RouteEndpoint::Plain(_) => Seq::empty(),
            RouteEndpoint::Wrapped(w) => w.middleware@,
            RouteEndpoint::Prefix(_) => Seq::empty(),
            RouteEndpoint::WrappedPrefix(w) => w.middleware@,
        }
    }

    /// Whether the endpoint is given paths with the route's prefix removed.
    pub open spec fn strips_prefix(&self) -> bool {
        self is Prefix || self is WrappedPrefix
    }

    /// The endpoint that was registered.
    pub open spec fn target(&self) -> E {
        match self {
            RouteEndpoint::Plain(e) => *e,
            RouteEndpoint::Wrapped(w) => w.endpoint,
            RouteEndpoint::Prefix(p) => *p.0,
            RouteEndpoint::WrappedPrefix(w) => *w.endpoint.0,
        }
    }

    /// Whether two registrations share one wrapped endpoint: the same
    /// endpoint behind the same middleware, with or without its prefix.
    pub open spec fn same_wrapping(&self, other: &RouteEndpoint<E, M>) -> bool {
        match (self, other) {
            (RouteEndpoint::Plain(a), RouteEndpoint::Plain(b)) => a == b,
            (RouteEndpoint::Wrapped(a), RouteEndpoint::Wrapped(b)) => a.endpoint == b.endpoint
                && a.middleware@ == b.middleware@,
            (RouteEndpoint::Prefix(a), RouteEndpoint::Prefix(b)) => a == b,
            (RouteEndpoint::WrappedPrefix(a), RouteEndpoint::WrappedPrefix(b)) => a.endpoint
                == b.endpoint && a.middleware@ == b.middleware@,
            _ => false,
        }
    }

    /// Starts the chain of this endpoint on a request: the first action is
    /// that of a cursor over the endpoint's own middleware.
    pub fn call<'a, State>(&'a self, req: Request<State>) -> (step: Step<'a, E, M, State>)
        ensures
            crate::middleware::follows(
                step,
                self.layers(),
                Some(self.target()),
                self.strips_prefix(),
                req@,
            ),
        decreases 1int,
    {
        match self {
            RouteEndpoint::Plain(e) => Step::Endpoint(e, req),
            RouteEndpoint::Prefix(p) => {
                let (e, req) = p.call(req);
                Step::Endpoint(e, req)
            },
            RouteEndpoint::Wrapped(w) => {
                let next = Next {
                    endpoint: Terminal::Plain(&w.endpoint),
                    next_middleware: w.middleware.as_slice(),
                };
                assert(next.chain() =~= self.layers());
                next.run(req)
            },
            RouteEndpoint::WrappedPrefix(w) => {
                let next = Next {
                    endpoint: Terminal::Prefix(&w.endpoint),
                    next_middleware: w.middleware.as_slice(),
                };
                assert(next.chain() =~= self.layers());
                next.run(req)
            },
        }
    }
}

} // verus!
