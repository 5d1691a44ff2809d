//! The address of a request: scheme, authority, path and query.

use crate::text::{substring, to_chars};
use vstd::prelude::*;

verus! {

/// The address that a request names.
pub struct Uri {
    pub scheme: Option<String>,
    pub authority: Option<String>,
    pub path: String,
    pub query: Option<String>,
}

/// The mathematical value of a [`Uri`].
pub struct UriView {
    pub scheme: Option<Seq<char>>,
    pub authority: Option<Seq<char>>,
    pub path: Seq<char>,
    pub query: Option<Seq<char>>,
}

/// The text that an optional string holds.
pub open spec fn text_of(s: Option<String>) -> Option<Seq<char>> {
    match s {
        Some(t) => Some(t@),
        None => None,
    }
}

impl View for Uri {
    type V = UriView;

    open spec fn view(&self) -> UriView {
        UriView {
            scheme: text_of(self.scheme),
            authority: text_of(self.authority),
            path: self.path@,
            query: text_of(self.query),
        }
    }
}

/// The position of the first `?` of `s`, or the length of `s` where it
/// holds none.
pub open spec fn query_mark(s: Seq<char>) -> nat
    decreases s.len(),
{
    if s.len() == 0 || s[0] == '?' {
        0
    } else {
        1 + query_mark(s.skip(1))
    }
}

/// The address that the target of a request line denotes: the text before
/// the first `?` is the path, the text after it the query.
pub open spec fn origin_form(s: Seq<char>) -> UriView {
    let mark = query_mark(s) as int;
    UriView {
        scheme: None,
        authority: None,
        path: s.take(mark),
        query: if mark < s.len() {
            Some(s.skip(mark + 1))
        } else {
            None
        },
    }
}

fn as_text(s: &Option<String>) -> (text: Option<&str>)
    ensures
        text is Some == s is Some,
        text is Some ==> text->0@ == s->0@,
{
    match s {
        Some(t) => Some(t.as_str()),
        None => None,
    }
}

impl Uri {
    /// Reads a path with an optional query, as it stands in a request line.
    pub fn parse(target: &str) -> (uri: Uri)
        ensures
            uri@ == origin_form(target@),
    {
        let chars = to_chars(target);
        let n: usize = chars.len();
        let mut mark: usize = 0;
        assert(chars@.skip(0) =~= chars@);
        while mark < n && chars[mark] != '?'
            invariant
                mark <= n,
                n == chars@.len(),
                query_mark(chars@) == mark + query_mark(chars@.skip(mark as int)),
            decreases n - mark,
        {
            assert(chars@.skip(mark as int).skip(1) =~= chars@.skip(mark + 1));
            mark += 1;
        }
        let path = substring(target, 0, mark);
        let query = if mark < n {
            Some(substring(target, mark + 1, n))
        } else {
            None
        };
        Uri { scheme: None, authority: None, path, query }
    }

    /// The path.
    pub fn path(&self) -> (path: &str)
        ensures
            path@ == self@.path,
    {
        self.path.as_str()
    }

    /// The query, without its leading `?`.
    pub fn query(&self) -> (query: Option<&str>)
        ensures
            query is Some == self@.query is Some,
            query is Some ==> query->0@ == self@.query->0,
    {
        as_text(&self.query)
    }

    /// The scheme.
    pub fn scheme(&self) -> (scheme: Option<&str>)
        ensures
            scheme is Some == self@.scheme is Some,
            scheme is Some ==> scheme->0@ == self@.scheme->0,
    {
        as_text(&self.scheme)
    }

    /// The authority.
    pub fn authority(&self) -> (authority: Option<&str>)
        ensures
            authority is Some == self@.authority is Some,
            authority is Some ==> authority->0@ == self@.authority->0,
    {
        as_text(&self.authority)
    }
}

} // verus!
