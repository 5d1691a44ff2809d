//! The router: one table of patterns for each request method, and one for
//! the routes that answer every method.
//!
//! A table keeps its routes in the order in which they were added. Among the
//! patterns that match a path it selects the one that no other matching
//! pattern precedes; of two matching patterns of the same shape the one added
//! later is selected, so that registering a route again replaces it.

use crate::method::Method;
use crate::params::{no_params, params_map, params_new};
use crate::pattern::{
    captures, matches_path, pattern_of, precedes, rank, strip_slash, Pattern, SegmentView,
};
use crate::text::to_chars;
use route_recognizer::Params;
use vstd::prelude::*;

verus! {

/// A route: a pattern and what was registered for it.
pub struct Entry<T> {
    pub pattern: Pattern,
    pub handler: T,
}

/// The routes registered for one method, oldest first.
pub struct Table<T> {
    pub entries: Vec<Entry<T>>,
}

/// Whether the pattern at position `i` is the one that a table with these
/// patterns selects for the path text `p`: it matches, no matching pattern
/// precedes it, and it precedes every matching pattern added after it.
pub open spec fn selects(patterns: Seq<Seq<SegmentView>>, p: Seq<char>, i: int) -> bool {
    &&& 0 <= i < patterns.len()
    &&& matches_path(patterns[i], p)
    &&& forall|j: int|
        0 <= j < patterns.len() && matches_path(#[trigger] patterns[j], p) ==> {
            &&& !precedes(patterns[j], patterns[i])
            &&& j > i ==> precedes(patterns[i], patterns[j])
        }
}

/// Whether some pattern of the list matches the path text `p`.
pub open spec fn any_match(patterns: Seq<Seq<SegmentView>>, p: Seq<char>) -> bool {
    exists|j: int| 0 <= j < patterns.len() && matches_path(#[trigger] patterns[j], p)
}

/// The position of the pattern selected for the path text `p`, if any
/// pattern matches.
pub open spec fn selected(patterns: Seq<Seq<SegmentView>>, p: Seq<char>) -> Option<int> {
    if exists|i: int| selects(patterns, p, i) {
        Some(choose|i: int| selects(patterns, p, i))
    } else {
        None
    }
}

/// Precedence never holds in both directions.
pub proof fn lemma_precedes_asymmetric(a: Seq<SegmentView>, b: Seq<SegmentView>)
    ensures
        precedes(a, b) ==> !precedes(b, a),
    decreases a.len(),
{
    if a.len() > 0 && b.len() > 0 && a[0] is Literal == b[0] is Literal && a[0] is Capture
        == b[0] is Capture && !(a[0] is Rest) {
        lemma_precedes_asymmetric(a.drop_first(), b.drop_first());
    }
}

/// Among patterns that match one path, "is not preceded by" carries over:
/// if `a` does not precede `b` and `b` does not precede `c`, then `a` does
/// not precede `c`.
pub proof fn lemma_precedes_ordering(
    a: Seq<SegmentView>,
    b: Seq<SegmentView>,
    c: Seq<SegmentView>,
    p: Seq<char>,
)
    requires
        matches_path(a, p),
        matches_path(b, p),
        matches_path(c, p),
        !precedes(a, b),
        !precedes(b, c),
    ensures
        !precedes(a, c),
    decreases a.len(),
{
    if precedes(a, c) {
        let h = crate::pattern::head_len(p) as int;
        assert(a.len() > 0 && b.len() > 0 && c.len() > 0);
        assert(rank(a[0]) >= rank(b[0]));
        assert(rank(b[0]) >= rank(c[0]));
        assert(rank(a[0]) <= rank(c[0]));
        assert(!(a[0] is Rest) && !(b[0] is Rest) && !(c[0] is Rest));
        assert(precedes(a.drop_first(), c.drop_first()));
        assert(a.len() > 1 && c.len() > 1);
        assert(h < p.len());
        assert(b.len() > 1);
        lemma_precedes_ordering(a.drop_first(), b.drop_first(), c.drop_first(), p.skip(h + 1));
    }
}

/// At most one position is selected.
pub proof fn lemma_selects_unique(patterns: Seq<Seq<SegmentView>>, p: Seq<char>, i: int, j: int)
    requires
        selects(patterns, p, i),
        selects(patterns, p, j),
    ensures
        i == j,
{
    if i < j {
        assert(matches_path(patterns[j], p));
        assert(precedes(patterns[i], patterns[j]));
        assert(matches_path(patterns[i], p));
        assert(!precedes(patterns[i], patterns[j]));
    } else if j < i {
        assert(matches_path(patterns[i], p));
        assert(precedes(patterns[j], patterns[i]));
        assert(matches_path(patterns[j], p));
        assert(!precedes(patterns[j], patterns[i]));
    }
}

/// The position that `selects` holds of is the selected one.
pub proof fn lemma_selected(patterns: Seq<Seq<SegmentView>>, p: Seq<char>, i: int)
    requires
        selects(patterns, p, i),
    ensures
        selected(patterns, p) == Some(i),
{
    let c = choose|c: int| selects(patterns, p, c);
    lemma_selects_unique(patterns, p, c, i);
}

/// Where no pattern matches, none is selected.
pub proof fn lemma_none_selected(patterns: Seq<Seq<SegmentView>>, p: Seq<char>)
    requires
        !any_match(patterns, p),
    ensures
        selected(patterns, p) is None,
{
    assert forall|i: int| !selects(patterns, p, i) by {
        if 0 <= i < patterns.len() {
            assert(!matches_path(patterns[i], p));
        }
    }
}

/// The only pattern that matches a path is the one selected for it.
pub proof fn lemma_sole_match_selected(patterns: Seq<Seq<SegmentView>>, p: Seq<char>, i: int)
    requires
        0 <= i < patterns.len(),
        matches_path(patterns[i], p),
        forall|k: int| 0 <= k < patterns.len() && k != i ==> !matches_path(#[trigger] patterns[k], p),
    ensures
        selected(patterns, p) == Some(i),
{
    lemma_precedes_asymmetric(patterns[i], patterns[i]);
    lemma_selected(patterns, p, i);
}

/// Of the patterns that match a path, the one added last is selected where
/// no other one precedes it: a route that is registered again replaces the
/// earlier one.
pub proof fn lemma_latest_match_selected(patterns: Seq<Seq<SegmentView>>, p: Seq<char>, i: int)
    requires
        0 <= i < patterns.len(),
        matches_path(patterns[i], p),
        forall|k: int|
            0 <= k < patterns.len() && matches_path(#[trigger] patterns[k], p) ==> k <= i
                && !precedes(patterns[k], patterns[i]),
    ensures
        selected(patterns, p) == Some(i),
{
    lemma_selected(patterns, p, i);
}

impl<T> Table<T> {
    /// The patterns of the table, oldest first.
    pub open spec fn patterns(&self) -> Seq<Seq<SegmentView>> {
        Seq::new(self.entries@.len(), |i: int| self.entries@[i].pattern@)
    }

    /// The position of the route that answers the path text `p`.
    pub open spec fn lookup(&self, p: Seq<char>) -> Option<int> {
        selected(self.patterns(), p)
    }

    /// Whether the table holds the routes of `before` followed by one route
    /// for `pattern` with `handler`.
    pub open spec fn extends(&self, before: &Table<T>, pattern: Seq<SegmentView>, handler: T) -> bool {
        &&& self.entries@.len() == before.entries@.len() + 1
        &&& self.entries@.drop_last() == before.entries@
        &&& self.entries@.last().pattern@ == pattern
        &&& self.entries@.last().handler == handler
    }

    /// A table without routes.
    pub fn new() -> (table: Table<T>)
        ensures
            table.entries@.len() == 0,
    {
        Table { entries: Vec::new() }
    }

    /// Adds a route for the pattern that `path` denotes.
    pub fn add(&mut self, path: &str, handler: T)
        ensures
            final(self).extends(old(self), pattern_of(path@), handler),
    {
        let pattern = Pattern::parse(path);
        self.entries.push(Entry { pattern, handler });
        assert(self.entries@.drop_last() =~= old(self).entries@);
    }

    /// The position of the route that answers the path whose text is `chars`
    /// from `start` on.
    pub(crate) fn recognize(&self, chars: &[char], start: usize) -> (found: Option<usize>)
        requires
            start <= chars@.len(),
        ensures
            found is Some <==> any_match(self.patterns(), chars@.skip(start as int)),
            match found {
                Some(i) => self.lookup(chars@.skip(start as int)) == Some(i as int),
                None => self.lookup(chars@.skip(start as int)) is None,
            },
    {
        let ghost p = chars@.skip(start as int);
        let ghost all = self.patterns();
        let mut best: Option<usize> = None;
        let mut n: usize = 0;
        while n < self.entries.len()
            invariant
                n <= self.entries@.len(),
                all == self.patterns(),
                p == chars@.skip(start as int),
                start <= chars@.len(),
                match best {
                    Some(b) => selects(all.take(n as int), p, b as int),
                    None => forall|j: int| 0 <= j < n ==> !matches_path(#[trigger] all[j], p),
                },
            decreases self.entries@.len() - n,
        {
            let ghost seen = all.take(n as int);
            let ghost next = all.take(n + 1);
            assert(all[n as int] == self.entries@[n as int].pattern@);
            if self.entries[n].pattern.is_match(chars, start) {
                let keep: bool = match best {
                    Some(b) => self.entries[b].pattern.outranks(&self.entries[n].pattern),
                    None => false,
                };
                proof {
                    lemma_precedes_asymmetric(all[n as int], all[n as int]);
                    match best {
                        Some(b) => {
                            assert(seen[b as int] == all[b as int]);
                            lemma_precedes_asymmetric(all[b as int], all[n as int]);
                            if keep {
                                assert forall|j: int|
                                    0 <= j < next.len() && matches_path(#[trigger] next[j], p) implies {
                                    &&& !precedes(next[j], next[b as int])
                                    &&& j > b ==> precedes(next[b as int], next[j])
                                } by {
                                    if j < n {
                                        assert(seen[j] == next[j]);
                                    }
                                }
                            } else {
                                assert forall|j: int|
                                    0 <= j < next.len() && matches_path(#[trigger] next[j], p) implies {
                                    &&& !precedes(next[j], next[n as int])
                                    &&& j > n ==> precedes(next[n as int], next[j])
                                } by {
                                    if j < n {
                                        assert(seen[j] == next[j]);
                                        lemma_precedes_ordering(
                                            all[j],
                                            all[b as int],
                                            all[n as int],
                                            p,
                                        );
                                    }
                                }
                            }
                        },
                        None => {
                            assert forall|j: int|
                                0 <= j < next.len() && matches_path(#[trigger] next[j], p) implies {
                                &&& !precedes(next[j], next[n as int])
                                &&& j > n ==> precedes(next[n as int], next[j])
                            } by {
                                assert(j == n);
                            }
                        },
                    }
                }
                if !keep {
                    best = Some(n);
                }
            } else {
                proof {
                    match best {
                        Some(b) => {
                            assert forall|j: int|
                                0 <= j < next.len() && matches_path(#[trigger] next[j], p) implies {
                                &&& !precedes(next[j], next[b as int])
                                &&& j > b ==> precedes(next[b as int], next[j])
                            } by {
                                assert(j < n);
                                assert(seen[j] == next[j]);
                            }
                        },
                        None => {},
                    }
                }
            }
            n += 1;
        }
        proof {
            assert(all.take(n as int) =~= all);
            match best {
                Some(b) => {
                    assert(matches_path(all[b as int], p));
                    let c = choose|i: int| selects(all, p, i);
                    lemma_selects_unique(all, p, c, b as int);
                },
                None => {
                    assert forall|i: int| !selects(all, p, i) by {}
                },
            }
        }
        best
    }
}

/// What the router found for a request: the handler that answers it, if any
/// route matches, and the parameters that the route's pattern captured.
pub struct Selection<'a, T> {
    pub endpoint: Option<&'a T>,
    pub params: Params,
}

/// The routes of an application.
pub struct Router<T> {
    pub get: Table<T>,
    pub head: Table<T>,
    pub post: Table<T>,
    pub put: Table<T>,
    pub delete: Table<T>,
    pub connect: Table<T>,
    pub options: Table<T>,
    pub trace: Table<T>,
    pub patch: Table<T>,
    pub all: Table<T>,
}

impl<T> Router<T> {
    /// The table of the routes registered for `method`.
    pub open spec fn table(&self, method: Method) -> Table<T> {
        match method {
            Method::Get => self.get,
            Method::Head => self.head,
            Method::Post => self.post,
            Method::Put => self.put,
            Method::Delete => self.delete,
            Method::Connect => self.connect,
            Method::Options => self.options,
            Method::Trace => self.trace,
            Method::Patch => self.patch,
        }
    }

    /// Whether the router holds no route at all.
    pub open spec fn is_empty(&self) -> bool {
        &&& self.all.entries@.len() == 0
        &&& self.get.entries@.len() == 0
        &&& self.head.entries@.len() == 0
        &&& self.post.entries@.len() == 0
        &&& self.put.entries@.len() == 0
        &&& self.delete.entries@.len() == 0
        &&& self.connect.entries@.len() == 0
        &&& self.options.entries@.len() == 0
        &&& self.trace.entries@.len() == 0
        &&& self.patch.entries@.len() == 0
    }

    /// The route that answers a request of `method` for the path text `p`:
    /// the one selected in the method's own table or, where that table has
    /// no match, the one selected among the routes for every method.
    pub open spec fn answer(&self, method: Method, p: Seq<char>) -> Option<Entry<T>> {
        match self.table(method).lookup(p) {
            Some(i) => Some(self.table(method).entries@[i]),
            None => match self.all.lookup(p) {
                Some(i) => Some(self.all.entries@[i]),
                None => None,
            },
        }
    }

    /// A request is answered by the route that its method's table selects
    /// for its path: the handler of that route is what `route` hands out,
    /// with the parameters that the route's pattern captures from the path.
    pub proof fn lemma_answer_of_method(&self, method: Method, p: Seq<char>, i: int)
        requires
            selects(self.table(method).patterns(), p, i),
        ensures
            self.answer(method, p) == Some(self.table(method).entries@[i]),
    {
        lemma_selected(self.table(method).patterns(), p, i);
    }

    /// Where no route of the request's method matches, the request is
    /// answered by the route selected among those for every method.
    pub proof fn lemma_answer_of_fallback(&self, method: Method, p: Seq<char>, i: int)
        requires
            !any_match(self.table(method).patterns(), p),
            selects(self.all.patterns(), p, i),
        ensures
            self.answer(method, p) == Some(self.all.entries@[i]),
    {
        lemma_none_selected(self.table(method).patterns(), p);
        lemma_selected(self.all.patterns(), p, i);
    }

    /// Where no route matches at all, nothing answers the request.
    pub proof fn lemma_answer_of_miss(&self, method: Method, p: Seq<char>)
        requires
            !any_match(self.table(method).patterns(), p),
            !any_match(self.all.patterns(), p),
        ensures
            self.answer(method, p) is None,
    {
        lemma_none_selected(self.table(method).patterns(), p);
        lemma_none_selected(self.all.patterns(), p);
    }

    /// A router without routes.
    pub fn new() -> (router: Router<T>)
        ensures
            router.is_empty(),
    {
        Router {
            get: Table::new(),
            head: Table::new(),
            post: Table::new(),
            put: Table::new(),
            delete: Table::new(),
            connect: Table::new(),
            options: Table::new(),
            trace: Table::new(),
            patch: Table::new(),
            all: Table::new(),
        }
    }

    /// Registers `ep` for requests of `method` whose path matches the
    /// pattern that `path` denotes.
    pub fn add(&mut self, path: &str, method: Method, ep: T)
        ensures
            final(self).table(method).extends(&old(self).table(method), pattern_of(path@), ep),
            forall|m: Method| m != method ==> final(self).table(m) == old(self).table(m),
            final(self).all == old(self).all,
    {
        match method {
            Method::Get => self.get.add(path, ep),
            Method::Head => self.head.add(path, ep),
            Method::Post => self.post.add(path, ep),
            Method::Put => self.put.add(path, ep),
            Method::Delete => self.delete.add(path, ep),
            Method::Connect => self.connect.add(path, ep),
            Method::Options => self.options.add(path, ep),
            Method::Trace => self.trace.add(path, ep),
            Method::Patch => self.patch.add(path, ep),
        }
    }

    /// Registers `ep` for requests of any method whose path matches the
    /// pattern that `path` denotes. Routes of the request's own method are
    /// tried first.
    pub fn add_all(&mut self, path: &str, ep: T)
        ensures
            final(self).all.extends(&old(self).all, pattern_of(path@), ep),
            forall|m: Method| final(self).table(m) == old(self).table(m),
    {
        self.all.add(path, ep);
    }

    fn table_of(&self, method: Method) -> (table: &Table<T>)
        ensures
            *table == self.table(method),
    {
        match method {
            Method::Get => &self.get,
            Method::Head => &self.head,
            Method::Post => &self.post,
            Method::Put => &self.put,
            Method::Delete => &self.delete,
            Method::Connect => &self.connect,
            Method::Options => &self.options,
            Method::Trace => &self.trace,
            Method::Patch => &self.patch,
        }
    }

    /// Finds the route that answers a request of `method` for `path`.
    pub fn route(&self, path: &str, method: Method) -> (found: Selection<'_, T>)
        ensures
            match self.answer(method, strip_slash(path@)) {
                Some(entry) => {
                    &&& found.endpoint == Some(&entry.handler)
                    &&& params_map(found.params) == captures(entry.pattern@, strip_slash(path@))
                },
                None => found.endpoint is None && params_map(found.params) == no_params(),
            },
    {
        let chars = to_chars(path);
        let start: usize = if chars.len() > 0 && chars[0] == '/' {
            1
        } else {
            0
        };
        assert(chars@.skip(start as int) =~= strip_slash(path@));
        let own = self.table_of(method);
        match own.recognize(chars.as_slice(), start) {
            Some(i) => {
                let entry = &own.entries[i];
                let params = entry.pattern.extract(path, chars.as_slice(), start);
                Selection { endpoint: Some(&entry.handler), params }
            },
            None => match self.all.recognize(chars.as_slice(), start) {
                Some(i) => {
                    let entry = &self.all.entries[i];
                    let params = entry.pattern.extract(path, chars.as_slice(), start);
                    Selection { endpoint: Some(&entry.handler), params }
                },
                None => Selection { endpoint: None, params: params_new() },
            },
        }
    }
}

} // verus!
