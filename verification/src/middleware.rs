//! The middleware chain and its continuation.
//!
//! A chain is an ordered list of middleware around one endpoint. `Next` is a
//! cursor into it: what remains to run. Running the cursor moves it by one
//! position and says what to do now: hand the request to the next middleware
//! together with the rest of the chain, hand it to the endpoint, or answer
//! that no route was found. A middleware that is handed the rest of the chain
//! runs it at most once; control comes back to it with the response of what
//! lies behind it, so that the layers are passed outermost first on the way
//! in and innermost first on the way out.

use crate::endpoint::{stripped, RouteEndpoint, StripPrefixEndpoint};
use crate::request::{Request, RequestView};
use crate::response::{bare, Response, NOT_FOUND};
use std::sync::Arc;
use vstd::prelude::*;
use vstd::slice::slice_subrange;

verus! {

/// What stands at the end of a chain.
pub enum Terminal<'a, E, M> {
    /// No route matched the request.
    NotFound,
    /// The endpoint that the router selected, with its own middleware.
    Routed(&'a RouteEndpoint<E, M>),
    /// An endpoint.
    Plain(&'a E),
    /// An endpoint behind a prefix.
    Prefix(&'a StripPrefixEndpoint<E>),
}

/// The remainder of a middleware chain, including the endpoint.
pub struct Next<'a, E, M> {
    pub endpoint: Terminal<'a, E, M>,
    pub next_middleware: &'a [Arc<M>],
}

/// What is to be done with a request now.
pub enum Step<'a, E, M, State> {
    /// Run this middleware on the request, with the rest of the chain as its
    /// continuation.
    Middleware(&'a M, Request<State>, Next<'a, E, M>),
    /// Run this endpoint on the request.
    Endpoint(&'a E, Request<State>),
    /// Answer with this response.
    Respond(Response),
}

/// Whether `step` is the first action of a chain with the given layers
/// before the given endpoint on the request `req`: the first layer with the
/// request unchanged and the remaining chain; without a layer the endpoint,
/// with the request as the endpoint is to see it; without an endpoint the
/// response that nothing was found.
pub open spec fn follows<E, M, State>(
    step: Step<'_, E, M, State>,
    layers: Seq<Arc<M>>,
    target: Option<E>,
    strips_prefix: bool,
    req: RequestView<State>,
) -> bool {
    if layers.len() > 0 {
        &&& step is Middleware
        &&& *step->Middleware_0 == *layers[0]
        &&& step->Middleware_1@ == req
        &&& step->Middleware_2.chain() == layers.drop_first()
        &&& step->Middleware_2.target() == target
        &&& step->Middleware_2.strips_prefix() == strips_prefix
    } else {
        match target {
            Some(endpoint) => {
                &&& step is Endpoint
                &&& *step->Endpoint_0 == endpoint
                &&& step->Endpoint_1@ == if strips_prefix {
                    stripped(req)
                } else {
                    req
                }
            },
            None => step is Respond && step->Respond_0@ == bare(NOT_FOUND),
        }
    }
}

/// Whether the step after position `i` is what the continuation of the
/// middleware at position `i` says when it is run on the request at the
/// next position.
pub open spec fn hands_on<'a, E, M, State>(
    steps: Seq<Step<'a, E, M, State>>,
    reqs: Seq<RequestView<State>>,
    i: int,
) -> bool {
    steps[i] is Middleware ==> follows(
        steps[i + 1],
        steps[i]->Middleware_2.chain(),
        steps[i]->Middleware_2.target(),
        steps[i]->Middleware_2.strips_prefix(),
        reqs[i + 1],
    )
}

/// Whether `steps` is a run of one chain: each middleware that a step names
/// runs its continuation on the request at the next position, and the next
/// step is what the continuation says.
pub open spec fn is_run<'a, E, M, State>(
    steps: Seq<Step<'a, E, M, State>>,
    reqs: Seq<RequestView<State>>,
) -> bool {
    &&& reqs.len() == steps.len()
    &&& forall|i: int| 0 <= i < steps.len() - 1 ==> #[trigger] hands_on(steps, reqs, i)
}

proof fn lemma_run_reaches<'a, E, M, State>(
    steps: Seq<Step<'a, E, M, State>>,
    reqs: Seq<RequestView<State>>,
    layers: Seq<Arc<M>>,
    target: Option<E>,
    strips_prefix: bool,
    i: int,
)
    requires
        steps.len() == layers.len() + 1,
        is_run(steps, reqs),
        follows(steps[0], layers, target, strips_prefix, reqs[0]),
        0 <= i <= layers.len(),
    ensures
        follows(steps[i], layers.skip(i), target, strips_prefix, reqs[i]),
    decreases i,
{
    if i == 0 {
        assert(layers.skip(0) =~= layers);
    } else {
        lemma_run_reaches(steps, reqs, layers, target, strips_prefix, i - 1);
        assert(layers.skip(i - 1).len() > 0);
        assert(layers.skip(i - 1).drop_first() =~= layers.skip(i));
        assert(steps[i - 1] is Middleware);
        assert(hands_on(steps, reqs, i - 1));
    }
}

/// The layers of a chain are entered in their order, each with the request
/// that the layer before it handed on, and the endpoint comes last.
///
/// Let a chain have the given layers before the given endpoint, and let
/// each middleware run its continuation once, on the request that stands
/// at the next position. Then the step at each position names the layer of
/// that position, and the last step names the endpoint, with the request
/// as the endpoint is to see it, or answers that nothing was found. Each
/// middleware is given the response of what lies behind it when its call of
/// the continuation returns, so that the responses pass the layers in the
/// reverse order.
pub proof fn lemma_chain_runs_in_order<'a, E, M, State>(
    steps: Seq<Step<'a, E, M, State>>,
    reqs: Seq<RequestView<State>>,
    layers: Seq<Arc<M>>,
    target: Option<E>,
    strips_prefix: bool,
)
    requires
        steps.len() == layers.len() + 1,
        is_run(steps, reqs),
        follows(steps[0], layers, target, strips_prefix, reqs[0]),
    ensures
        forall|i: int|
            0 <= i < layers.len() ==> (#[trigger] steps[i]) is Middleware
                && *steps[i]->Middleware_0 == *layers[i] && steps[i]->Middleware_1@ == reqs[i],
        match target {
            Some(endpoint) => {
                &&& steps.last() is Endpoint
                &&& *steps.last()->Endpoint_0 == endpoint
                &&& steps.last()->Endpoint_1@ == if strips_prefix {
                    stripped(reqs.last())
                } else {
                    reqs.last()
                }
            },
            None => steps.last() is Respond && steps.last()->Respond_0@ == bare(NOT_FOUND),
        },
{
    assert forall|i: int| 0 <= i < layers.len() implies (#[trigger] steps[i]) is Middleware
        && *steps[i]->Middleware_0 == *layers[i] && steps[i]->Middleware_1@ == reqs[i] by {
        lemma_run_reaches(steps, reqs, layers, target, strips_prefix, i);
        assert(layers.skip(i)[0] == layers[i]);
    }
    lemma_run_reaches(steps, reqs, layers, target, strips_prefix, layers.len() as int);
    assert(layers.skip(layers.len() as int).len() == 0);
}

impl<'a, E, M> Next<'a, E, M> {
    /// The middleware that remains to run, next first.
    pub open spec fn chain(&self) -> Seq<Arc<M>> {
        match self.endpoint {
            Terminal::Routed(routed) => self.next_middleware@ + routed.layers(),
            _ => self.next_middleware@,
        }
    }

    /// The endpoint at the end of the chain, if a route was found.
    pub open spec fn target(&self) -> Option<E> {
        match self.endpoint {
            Terminal::NotFound => None,
            Terminal::Routed(routed) => Some(routed.target()),
            Terminal::Plain(endpoint) => Some(*endpoint),
            Terminal::Prefix(behind) => Some(*behind.0),
        }
    }

    /// Whether the endpoint is given paths with its route's prefix removed.
    pub open spec fn strips_prefix(&self) -> bool {
        match self.endpoint {
            Terminal::Routed(routed) => routed.strips_prefix(),
            Terminal::Prefix(_) => true,
            _ => false,
        }
    }

    /// Moves the cursor by one position and says what is to be done with the
    /// request.
    pub fn run<State>(self, req: Request<State>) -> (step: Step<'a, E, M, State>)
        ensures
            follows(step, self.chain(), self.target(), self.strips_prefix(), req@),
        decreases
            (if self.endpoint is Routed {
                2int
            } else {
                0int
            }),
    {
        let n: usize = self.next_middleware.len();
        if n > 0 {
            let current: &'a M = &*self.next_middleware[0];
            let rest = slice_subrange(self.next_middleware, 1, n);
            let next = Next { endpoint: self.endpoint, next_middleware: rest };
            assert(self.next_middleware@.subrange(1, n as int) =~= self.next_middleware@.drop_first());
            assert(next.chain() =~= self.chain().drop_first());
            Step::Middleware(current, req, next)
        } else {
            assert(self.next_middleware@ =~= Seq::empty());
            match self.endpoint {
                Terminal::NotFound => Step::Respond(Response::new(NOT_FOUND)),
                Terminal::Plain(endpoint) => Step::Endpoint(endpoint, req),
                Terminal::Prefix(behind) => {
                    let (endpoint, req) = behind.call(req);
                    Step::Endpoint(endpoint, req)
                },
                Terminal::Routed(routed) => {
                    assert(self.chain() =~= routed.layers());
                    routed.call(req)
                },
            }
        }
    }
}

} // verus!
