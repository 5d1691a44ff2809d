//! Route builders.
//!
//! A `Route` is a handle to a path of the application under construction.
//! It gathers what holds for the endpoints registered through it: the path,
//! the middleware in scope and whether the path is a prefix. Each
//! registration wraps the endpoint in the middleware that the builder holds
//! at that moment and adds it to the router; nothing that is done to the
//! builder later changes a route that was registered before.

use crate::endpoint::{stripped, MiddlewareEndpoint, RouteEndpoint, StripPrefixEndpoint};
use crate::method::Method;
use crate::params::no_params;
use crate::pattern::{
    captures, empty_literal, has_no_rest, lemma_exact_pattern_rejects_deeper,
    lemma_head_len_without_slash, lemma_rest_matches_behind_slash, lemma_rest_matches_deeper,
    lemma_rest_rejects_exact, lemma_segments_of_joined, matches_path, pattern_of, precedes,
    segments_of, strip_slash, SegmentView,
};
use crate::request::{rest_name, RequestView};
use crate::router::{lemma_precedes_asymmetric, lemma_selected, selects, Router, Table};
use crate::text::{begins_with, ends_with_char, finishes_with, starts_with_char, substring};
use std::sync::Arc;
use vstd::prelude::*;

verus! {

/// A handle to a route.
///
/// All HTTP requests are made against resources. After a route was
/// established with `at`, the `Route` type can be used to establish
/// endpoints for various HTTP methods at that path. Also, using `nest`, it
/// can be used to set up a subrouter.
pub struct Route<'a, E, M> {
    pub router: &'a mut Router<RouteEndpoint<E, M>>,
    pub path: String,
    pub middleware: Vec<Arc<M>>,
    /// Indicates whether the path of current route is treated as a prefix.
    /// Set by `strip_prefix`.
    pub prefix: bool,
}

/// The path of a route that extends the route at `base` by `path`: the two
/// are joined by exactly one `/`, whether `base` ends with one, `path`
/// starts with one, both or neither. Extending by `/` alone gives `base`.
pub open spec fn joined(base: Seq<char>, path: Seq<char>) -> Seq<char> {
    if path == seq!['/'] {
        base
    } else if finishes_with(base, '/') && begins_with(path, '/') {
        base + path.skip(1)
    } else if !finishes_with(base, '/') && !begins_with(path, '/') {
        base + seq!['/'] + path
    } else {
        base + path
    }
}

/// The pattern text that stands behind a prefix for all that lies deeper.
pub open spec fn rest_pattern() -> Seq<char> {
    "*--tide-path-rest"@
}

/// Whether `handler` is the endpoint `ep` as a builder with this middleware
/// and this prefix mode wraps it.
pub open spec fn wraps<E, M>(
    handler: RouteEndpoint<E, M>,
    ep: E,
    middleware: Seq<Arc<M>>,
    prefix: bool,
) -> bool {
    &&& handler.target() == ep
    &&& handler.layers() == middleware
    &&& handler.strips_prefix() == prefix
    &&& (handler is Plain || handler is Prefix) == (middleware.len() == 0)
}

/// Whether the table `after` is `before` with one registration of `ep`
/// added by a builder for `path` with this middleware and prefix mode.
/// Without prefix mode that is one route for the path. In prefix mode it is
/// two routes that share one wrapped endpoint: one for the path itself and
/// one for everything below it.
pub open spec fn registered<E, M>(
    after: Table<RouteEndpoint<E, M>>,
    before: Table<RouteEndpoint<E, M>>,
    path: Seq<char>,
    middleware: Seq<Arc<M>>,
    prefix: bool,
    ep: E,
) -> bool {
    let n = before.entries@.len() as int;
    if prefix {
        &&& after.entries@.len() == n + 2
        &&& after.entries@.take(n) == before.entries@
        &&& after.entries@[n].pattern@ == pattern_of(path)
        &&& after.entries@[n + 1].pattern@ == pattern_of(joined(path, rest_pattern()))
        &&& wraps(after.entries@[n].handler, ep, middleware, true)
        &&& wraps(after.entries@[n + 1].handler, ep, middleware, true)
        &&& after.entries@[n].handler.same_wrapping(&after.entries@[n + 1].handler)
    } else {
        &&& after.entries@.len() == n + 1
        &&& after.entries@.take(n) == before.entries@
        &&& after.entries@[n].pattern@ == pattern_of(path)
        &&& wraps(after.entries@[n].handler, ep, middleware, false)
    }
}

/// The pattern text for all that lies deeper is one segment, the
/// rest-capture of the reserved name.
pub proof fn lemma_rest_pattern()
    ensures
        segments_of(rest_pattern()) == seq![SegmentView::Rest(rest_name())],
        rest_pattern().len() == 17,
        rest_pattern()[0] == '*',
{
    let rest = rest_pattern();
    reveal_strlit("*--tide-path-rest");
    reveal_strlit("--tide-path-rest");
    assert(rest.len() == 17);
    assert(rest[0] == '*');
    assert(rest.skip(1) =~= rest_name());
    assert forall|i: int| 0 <= i < rest.len() implies rest[i] != '/' by {
        if i < 4 {
            assert(rest[0] != '/' && rest[1] != '/' && rest[2] != '/' && rest[3] != '/');
        } else if i < 8 {
            assert(rest[4] != '/' && rest[5] != '/' && rest[6] != '/' && rest[7] != '/');
        } else if i < 12 {
            assert(rest[8] != '/' && rest[9] != '/' && rest[10] != '/' && rest[11] != '/');
        } else {
            assert(rest[12] != '/' && rest[13] != '/' && rest[14] != '/' && rest[15] != '/'
                && rest[16] != '/');
        }
    }
    lemma_head_len_without_slash(rest);
    assert(segments_of(rest) =~= seq![SegmentView::Rest(rest_name())]);
}

/// The pattern for what lies below a path is the pattern of the path
/// followed by the rest-capture of the reserved name. This holds of a path
/// that names at least one segment and does not end in a slash.
pub proof fn lemma_pattern_below(path: Seq<char>)
    requires
        strip_slash(path).len() > 0,
        !finishes_with(path, '/'),
    ensures
        pattern_of(joined(path, rest_pattern())) == pattern_of(path).push(
            SegmentView::Rest(rest_name()),
        ),
{
    let rest = rest_pattern();
    lemma_rest_pattern();
    let whole = path + seq!['/'] + rest;
    assert(joined(path, rest) == whole);
    assert(strip_slash(whole) =~= strip_slash(path) + seq!['/'] + rest);
    lemma_segments_of_joined(strip_slash(path), rest);
    assert(pattern_of(path) + seq![SegmentView::Rest(rest_name())] =~= pattern_of(path).push(
        SegmentView::Rest(rest_name()),
    ));
}

/// Whether the route at `path` ends in a slash or is the root, so that what
/// lies below it follows without a further slash.
pub open spec fn ends_in_slash(path: Seq<char>) -> bool {
    strip_slash(path).len() == 0 || finishes_with(strip_slash(path), '/')
}

/// The path that lies `tail` below the path `p` of a request to the route
/// at `path`.
pub open spec fn below(path: Seq<char>, p: Seq<char>, tail: Seq<char>) -> Seq<char> {
    if ends_in_slash(path) {
        p + tail
    } else {
        p + seq!['/'] + tail
    }
}

/// The pattern of a path that ends in a slash, or of the root, ends in an
/// empty literal. The pattern for what lies below such a path has the
/// rest-capture of the reserved name in place of that literal.
pub proof fn lemma_pattern_below_slash(path: Seq<char>)
    requires
        ends_in_slash(path),
    ensures
        pattern_of(path).len() > 0,
        pattern_of(path).last() == empty_literal(),
        pattern_of(joined(path, rest_pattern())) == pattern_of(path).drop_last().push(
            SegmentView::Rest(rest_name()),
        ),
{
    let rest = rest_pattern();
    lemma_rest_pattern();
    let s = strip_slash(path);
    let none = Seq::<char>::empty();
    assert(segments_of(none) =~= seq![empty_literal()]);
    if s.len() == 0 {
        assert(s =~= none);
        assert(joined(path, rest) =~= seq!['/'] + rest);
        assert(strip_slash(seq!['/'] + rest) =~= rest);
        assert(pattern_of(path).drop_last().push(SegmentView::Rest(rest_name())) =~= seq![
            SegmentView::Rest(rest_name()),
        ]);
    } else {
        let t = s.drop_last();
        assert(s =~= t + seq!['/'] + none);
        lemma_segments_of_joined(t, none);
        assert(finishes_with(path, '/'));
        assert(joined(path, rest) == path + rest);
        assert(strip_slash(path + rest) =~= t + seq!['/'] + rest);
        lemma_segments_of_joined(t, rest);
        assert((segments_of(t) + seq![empty_literal()]).drop_last() =~= segments_of(t));
        assert(segments_of(t) + seq![SegmentView::Rest(rest_name())] =~= segments_of(t).push(
            SegmentView::Rest(rest_name()),
        ));
    }
}

/// Whether the route at position `i` yields to no other route of the list
/// on the path text `p`, the route at position `other` apart: no matching
/// route precedes it, and it precedes the matching routes added after it.
pub open spec fn unrivalled(
    patterns: Seq<Seq<SegmentView>>,
    p: Seq<char>,
    i: int,
    other: int,
) -> bool {
    forall|k: int|
        0 <= k < patterns.len() && k != i && k != other && matches_path(#[trigger] patterns[k], p)
            ==> !precedes(patterns[k], patterns[i]) && (k > i ==> precedes(
            patterns[i],
            patterns[k],
        ))
}

/// A registration in prefix mode answers the path of the route and every
/// path below it with one and the same wrapped endpoint, and the endpoint is
/// given the part below the route as its path.
///
/// Let a table hold such a registration for `path`, a path without a
/// rest-capture of its own. Let `p` be a path that the pattern of `path`
/// matches, and let no other route of the table that matches `p` or the
/// path that lies `tail` below it take precedence. Then the table selects the first route of the
/// registration for `p` and the second for the deeper path, the two hold the
/// same wrapping of the endpoint, the deeper path captures what the pattern
/// captures of `p` and `tail` under the reserved name, and a request with
/// these parameters is handed to the endpoint with the path `/` followed by
/// `tail`.
pub proof fn lemma_prefix_routes_below<E, M, State>(
    table: Table<RouteEndpoint<E, M>>,
    first: int,
    path: Seq<char>,
    middleware: Seq<Arc<M>>,
    ep: E,
    p: Seq<char>,
    tail: Seq<char>,
    req: RequestView<State>,
)
    requires
        0 <= first,
        first + 1 < table.entries@.len(),
        table.entries@[first].pattern@ == pattern_of(path),
        table.entries@[first + 1].pattern@ == pattern_of(joined(path, rest_pattern())),
        wraps(table.entries@[first].handler, ep, middleware, true),
        wraps(table.entries@[first + 1].handler, ep, middleware, true),
        has_no_rest(pattern_of(path)),
        matches_path(pattern_of(path), p),
        tail.len() > 0,
        unrivalled(table.patterns(), p, first, first + 1),
        unrivalled(table.patterns(), below(path, p, tail), first + 1, first),
        req.params.len() > 0,
        req.params.last() == captures(
            pattern_of(joined(path, rest_pattern())),
            below(path, p, tail),
        ),
    ensures
        table.lookup(p) == Some(first),
        table.lookup(below(path, p, tail)) == Some(first + 1),
        table.entries@[first].handler.target() == table.entries@[first + 1].handler.target(),
        table.entries@[first].handler.layers() == table.entries@[first + 1].handler.layers(),
        captures(pattern_of(joined(path, rest_pattern())), below(path, p, tail)) == captures(
            pattern_of(path),
            p,
        ).insert(rest_name(), tail),
        stripped(req).uri.path == "/"@ + tail,
{
    let exact = pattern_of(path);
    let deeper = below(path, p, tail);
    let patterns = table.patterns();
    assert(patterns[first] == exact);
    assert(patterns[first + 1] == pattern_of(joined(path, rest_pattern())));
    if ends_in_slash(path) {
        lemma_pattern_below_slash(path);
        let before = exact.drop_last();
        assert(before.push(empty_literal()) =~= exact);
        assert forall|i: int| 0 <= i < before.len() implies !(#[trigger] before[i] is Rest) by {
            assert(before[i] == exact[i]);
        }
        lemma_rest_matches_behind_slash(before, rest_name(), p, tail, no_params());
    } else {
        lemma_pattern_below(path);
        lemma_rest_matches_deeper(exact, rest_name(), p, tail, no_params());
        lemma_rest_rejects_exact(exact, rest_name(), p);
        lemma_exact_pattern_rejects_deeper(exact, p, tail);
    }
    lemma_precedes_asymmetric(patterns[first], patterns[first]);
    lemma_precedes_asymmetric(patterns[first + 1], patterns[first + 1]);
    assert(selects(patterns, p, first));
    assert(selects(patterns, deeper, first + 1));
    lemma_selected(patterns, p, first);
    lemma_selected(patterns, deeper, first + 1);
}

/// Right after a registration in prefix mode, the path of the route and
/// every path below it are answered by the endpoint that was registered,
/// behind the middleware of the builder, unless a route that was there
/// before matches and takes precedence.
pub proof fn lemma_prefix_registration_routes_below<E, M>(
    after: Table<RouteEndpoint<E, M>>,
    before: Table<RouteEndpoint<E, M>>,
    path: Seq<char>,
    middleware: Seq<Arc<M>>,
    ep: E,
    p: Seq<char>,
    tail: Seq<char>,
)
    requires
        registered(after, before, path, middleware, true, ep),
        has_no_rest(pattern_of(path)),
        matches_path(pattern_of(path), p),
        tail.len() > 0,
        forall|k: int|
            0 <= k < before.entries@.len() && matches_path(#[trigger] before.patterns()[k], p)
                ==> !precedes(before.patterns()[k], pattern_of(path)),
        forall|k: int|
            0 <= k < before.entries@.len() && matches_path(
                #[trigger] before.patterns()[k],
                below(path, p, tail),
            ) ==> !precedes(before.patterns()[k], pattern_of(joined(path, rest_pattern()))),
    ensures
        after.lookup(p) == Some(before.entries@.len() as int),
        after.lookup(below(path, p, tail)) == Some(before.entries@.len() as int + 1),
        wraps(after.entries@[before.entries@.len() as int].handler, ep, middleware, true),
        wraps(after.entries@[before.entries@.len() as int + 1].handler, ep, middleware, true),
        captures(pattern_of(joined(path, rest_pattern())), below(path, p, tail)) == captures(
            pattern_of(path),
            p,
        ).insert(rest_name(), tail),
{
    let n = before.entries@.len() as int;
    let patterns = after.patterns();
    assert forall|k: int| 0 <= k < n implies patterns[k] == before.patterns()[k] by {
        assert(after.entries@.take(n)[k] == after.entries@[k]);
    }
    assert(patterns[n] == pattern_of(path));
    assert(patterns[n + 1] == pattern_of(joined(path, rest_pattern())));
    let state = arbitrary::<RequestView<()>>();
    let req = RequestView {
        params: seq![captures(pattern_of(joined(path, rest_pattern())), below(path, p, tail))],
        ..state
    };
    lemma_prefix_routes_below(after, n, path, middleware, ep, p, tail, req);
}

/// A registration keeps every route that the table held before it as it
/// was: what is done to a builder after an endpoint was registered, and what
/// is registered later, does not change the middleware of that endpoint.
pub proof fn lemma_registration_keeps_routes<E, M>(
    after: Table<RouteEndpoint<E, M>>,
    before: Table<RouteEndpoint<E, M>>,
    path: Seq<char>,
    middleware: Seq<Arc<M>>,
    prefix: bool,
    ep: E,
    i: int,
)
    requires
        registered(after, before, path, middleware, prefix, ep),
        0 <= i < before.entries@.len(),
    ensures
        after.entries@[i] == before.entries@[i],
        after.entries@[i].handler.layers() == before.entries@[i].handler.layers(),
{
    let n = before.entries@.len() as int;
    assert(after.entries@.take(n)[i] == after.entries@[i]);
}

/// A route that is registered without prefix mode answers the paths that
/// its pattern matches and nothing below them: a path that merely begins
/// like the path of a route is no part of that route.
pub proof fn lemma_sibling_is_not_nested(path: Seq<char>, p: Seq<char>, below: Seq<char>)
    requires
        has_no_rest(pattern_of(path)),
        matches_path(pattern_of(path), p),
    ensures
        !matches_path(pattern_of(path), p + seq!['/'] + below),
{
    lemma_exact_pattern_rejects_deeper(pattern_of(path), p, below);
}

impl<'a, E, M> Route<'a, E, M> {
    /// Whether two builders stand for the same path, middleware and mode.
    pub open spec fn same_settings(&self, other: &Route<'a, E, M>) -> bool {
        &&& self.path == other.path
        &&& self.middleware == other.middleware
        &&& self.prefix == other.prefix
    }

    /// Whether the routes for one method are the only thing in which the
    /// router of this builder differs from the router of `before`.
    pub open spec fn touched_only(&self, before: &Route<'a, E, M>, method: Method) -> bool {
        &&& self.router.all == before.router.all
        &&& forall|m: Method| m != method ==> self.router.table(m) == before.router.table(m)
    }

    /// Whether this builder is `before` after it registered `ep` for
    /// `method`: the routes for that method hold the registration, and
    /// nothing else has changed.
    pub open spec fn added(&self, before: &Route<'a, E, M>, method: Method, ep: E) -> bool {
        &&& registered(
            self.router.table(method),
            before.router.table(method),
            before.path@,
            before.middleware@,
            before.prefix,
            ep,
        )
        &&& self.touched_only(before, method)
        &&& self.same_settings(before)
    }

    /// A builder for `path` on `router`, without middleware.
    pub fn new(router: &'a mut Router<RouteEndpoint<E, M>>, path: String) -> (route: Route<'a, E, M>)
        ensures
            *route.router == *old(router),
            *final(route.router) == *final(router),
            route.path == path,
            route.middleware@.len() == 0,
            !route.prefix,
    {
        Route { router, path, middleware: Vec::new(), prefix: false }
    }

    /// Extend the route with the given `path`. The new builder starts with
    /// a copy of the middleware of this one and is not in prefix mode.
    pub fn at<'b>(&'b mut self, path: &str) -> (route: Route<'b, E, M>)
        ensures
            route.path@ == joined(old(self).path@, path@),
            route.middleware@ == old(self).middleware@,
            !route.prefix,
            *route.router == *old(self).router,
            *final(self).router == *final(route.router),
            *final(final(self).router) == *final(old(self).router),
            final(self).same_settings(old(self)),
    {
        let mut p = self.path.clone();
        let base_slash: bool = ends_with_char(p.as_str(), '/');
        let path_slash: bool = starts_with_char(path, '/');
        let n: usize = path.unicode_len();
        if n == 1 && path_slash {
            assert(path@ =~= seq!['/']);
        } else if base_slash && path_slash {
            let tail = substring(path, 1, n);
            p.append(tail.as_str());
        } else {
            if !base_slash && !path_slash {
                p.append("/");
                proof {
                    reveal_strlit("/");
                }
                assert("/"@ =~= seq!['/']);
            }
            p.append(path);
        }
        let middleware = crate::endpoint::share_all(self.middleware.as_slice());
        Route { router: &mut *self.router, path: p, middleware, prefix: false }
    }

    /// Treat the current path as a prefix, and strip prefixes from requests.
    ///
    /// Endpoints will be given a path with the prefix removed.
    pub fn strip_prefix(&mut self) -> (route: &mut Self)
        ensures
            route.prefix,
            route.path == old(self).path,
            route.middleware == old(self).middleware,
            *route.router == *old(self).router,
            *final(route.router) == *final(old(self).router),
            *final(self) == *final(route),
    {
        self.prefix = true;
        self
    }

    /// Apply the given middleware to the current route: it runs after the
    /// middleware that the route holds already, for the endpoints that are
    /// registered from now on.
    pub fn middleware(&mut self, middleware: M) -> (route: &mut Self)
        ensures
            route.middleware@ == old(self).middleware@.push(Arc::new(middleware)),
            route.path == old(self).path,
            route.prefix == old(self).prefix,
            *route.router == *old(self).router,
            *final(route.router) == *final(old(self).router),
            *final(self) == *final(route),
    {
        self.middleware.push(Arc::new(middleware));
        self
    }

    /// Reset the middleware chain for the current route, if any. Endpoints
    /// that were registered before keep the middleware they were wrapped in.
    pub fn reset_middleware(&mut self) -> (route: &mut Self)
        ensures
            route.middleware@.len() == 0,
            route.path == old(self).path,
            route.prefix == old(self).prefix,
            *route.router == *old(self).router,
            *final(route.router) == *final(old(self).router),
            *final(self) == *final(route),
    {
        self.middleware.clear();
        self
    }

    /// Nest an application at the current path: `service`, the endpoint that
    /// stands for the whole of it, answers every method for the path and for
    /// all that lies below it, and sees paths with the prefix removed.
    pub fn nest(&mut self, service: E) -> (route: &mut Self)
        ensures
            registered(
                route.router.all,
                old(self).router.all,
                old(self).path@,
                old(self).middleware@,
                true,
                service,
            ),
            forall|m: Method| route.router.table(m) == old(self).router.table(m),
            !route.prefix,
            route.path == old(self).path,
            route.middleware == old(self).middleware,
            *final(route.router) == *final(old(self).router),
            *final(self) == *final(route),
    {
        self.prefix = true;
        self.all(service);
        self.prefix = false;
        self
    }

    fn wrap(&self, ep: E) -> (wrapped: (RouteEndpoint<E, M>, Option<RouteEndpoint<E, M>>))
        ensures
            wraps(wrapped.0, ep, self.middleware@, self.prefix),
            wrapped.1 is Some == self.prefix,
            self.prefix ==> wraps(wrapped.1->0, ep, self.middleware@, true)
                && wrapped.0.same_wrapping(&wrapped.1->0),
    {
        if self.prefix {
            let ep = StripPrefixEndpoint::new(ep);
            if self.middleware.len() == 0 {
                assert(self.middleware@ =~= Seq::empty());
                let copy = ep.clone();
                assert(copy == ep);
                (RouteEndpoint::Prefix(copy), Some(RouteEndpoint::Prefix(ep)))
            } else {
                let ep = MiddlewareEndpoint::wrap_with_middleware(ep, self.middleware.as_slice());
                let copy = ep.clone();
                (RouteEndpoint::WrappedPrefix(copy), Some(RouteEndpoint::WrappedPrefix(ep)))
            }
        } else {
            if self.middleware.len() == 0 {
                assert(self.middleware@ =~= Seq::empty());
                (RouteEndpoint::Plain(ep), None)
            } else {
                (
                    RouteEndpoint::Wrapped(
                        MiddlewareEndpoint::wrap_with_middleware(ep, self.middleware.as_slice()),
                    ),
                    None,
                )
            }
        }
    }

    /// Add an endpoint for the given HTTP method
    pub fn method(&mut self, method: Method, ep: E) -> (route: &mut Self)
        ensures
            route.added(old(self), method, ep),
            *final(route.router) == *final(old(self).router),
            *final(self) == *final(route),
    {
        let ghost before = self.router.table(method);
        let ghost n = before.entries@.len() as int;
        let (first, second) = self.wrap(ep);
        self.router.add(self.path.as_str(), method, first);
        assert(self.router.table(method).entries@.take(n) =~= before.entries@);
        match second {
            Some(second) => {
                let ghost middle = self.router.table(method);
                let wildcard = self.at("*--tide-path-rest");
                wildcard.router.add(wildcard.path.as_str(), method, second);
                assert(self.router.table(method).entries@.drop_last() == middle.entries@);
                assert(self.router.table(method).entries@.take(n) =~= before.entries@);
            },
            None => {},
        }
        self
    }

    /// Add an endpoint for all HTTP methods, as a fallback.
    ///
    /// Routes with specific HTTP methods will be tried first.
    pub fn all(&mut self, ep: E) -> (route: &mut Self)
        ensures
            registered(
                route.router.all,
                old(self).router.all,
                old(self).path@,
                old(self).middleware@,
                old(self).prefix,
                ep,
            ),
            forall|m: Method| route.router.table(m) == old(self).router.table(m),
            route.same_settings(old(self)),
            *final(route.router) == *final(old(self).router),
            *final(self) == *final(route),
    {
        let ghost before = self.router.all;
        let ghost n = before.entries@.len() as int;
        let (first, second) = self.wrap(ep);
        self.router.add_all(self.path.as_str(), first);
        assert(self.router.all.entries@.take(n) =~= before.entries@);
        match second {
            Some(second) => {
                let ghost middle = self.router.all;
                let wildcard = self.at("*--tide-path-rest");
                wildcard.router.add_all(wildcard.path.as_str(), second);
                assert(self.router.all.entries@.drop_last() == middle.entries@);
                assert(self.router.all.entries@.take(n) =~= before.entries@);
            },
            None => {},
        }
        self
    }
    /// Add an endpoint for `GET` requests
    pub fn get(&mut self, ep: E) -> (route: &mut Self)
        ensures
            route.added(old(self), Method::Get, ep),
            *final(route.router) == *final(old(self).router),
            *final(self) == *final(route),
    {
        self.method(Method::Get, ep);
        self
    }

    /// Add an endpoint for `HEAD` requests
    pub fn head(&mut self, ep: E) -> (route: &mut Self)
        ensures
            route.added(old(self), Method::Head, ep),
            *final(route.router) == *final(old(self).router),
            *final(self) == *final(route),
    {
        self.method(Method::Head, ep);
        self
    }

    /// Add an endpoint for `PUT` requests
    pub fn put(&mut self, ep: E) -> (route: &mut Self)
        ensures
            route.added(old(self), Method::Put, ep),
            *final(route.router) == *final(old(self).router),
            *final(self) == *final(route),
    {
        self.method(Method::Put, ep);
        self
    }

    /// Add an endpoint for `POST` requests
    pub fn post(&mut self, ep: E) -> (route: &mut Self)
        ensures
            route.added(old(self), Method::Post, ep),
            *final(route.router) == *final(old(self).router),
            *final(self) == *final(route),
    {
        self.method(Method::Post, ep);
        self
    }

    /// Add an endpoint for `DELETE` requests
    pub fn delete(&mut self, ep: E) -> (route: &mut Self)
        ensures
            route.added(old(self), Method::Delete, ep),
            *final(route.router) == *final(old(self).router),
            *final(self) == *final(route),
    {
        self.method(Method::Delete, ep);
        self
    }

    /// Add an endpoint for `OPTIONS` requests
    pub fn options(&mut self, ep: E) -> (route: &mut Self)
        ensures
            route.added(old(self), Method::Options, ep),
            *final(route.router) == *final(old(self).router),
            *final(self) == *final(route),
    {
        self.method(Method::Options, ep);
        self
    }

    /// Add an endpoint for `CONNECT` requests
    pub fn connect(&mut self, ep: E) -> (route: &mut Self)
        ensures
            route.added(old(self), Method::Connect, ep),
            *final(route.router) == *final(old(self).router),
            *final(self) == *final(route),
    {
        self.method(Method::Connect, ep);
        self
    }

    /// Add an endpoint for `PATCH` requests
    pub fn patch(&mut self, ep: E) -> (route: &mut Self)
        ensures
            route.added(old(self), Method::Patch, ep),
            *final(route.router) == *final(old(self).router),
            *final(self) == *final(route),
    {
        self.method(Method::Patch, ep);
        self
    }

    /// Add an endpoint for `TRACE` requests
    pub fn trace(&mut self, ep: E) -> (route: &mut Self)
        ensures
            route.added(old(self), Method::Trace, ep),
            *final(route.router) == *final(old(self).router),
            *final(self) == *final(route),
    {
        self.method(Method::Trace, ep);
        self
    }
}

} // verus!
