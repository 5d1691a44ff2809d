//! Header maps: named values in the order in which they were added. A name
//! may stand more than once, and names are found whatever the case of their
//! ASCII letters.

use crate::text::{eq_ignore_ascii_case, folded};
use vstd::prelude::*;

verus! {

/// One header: a name and a value.
pub struct Header {
    pub name: String,
    pub value: String,
}

/// The headers of a request or a response.
pub struct HeaderMap {
    pub entries: Vec<Header>,
}

impl View for HeaderMap {
    type V = Seq<(Seq<char>, Seq<char>)>;

    open spec fn view(&self) -> Seq<(Seq<char>, Seq<char>)> {
        Seq::new(self.entries@.len(), |i: int| (self.entries@[i].name@, self.entries@[i].value@))
    }
}

/// Whether two header names are the same name.
pub open spec fn same_name(a: Seq<char>, b: Seq<char>) -> bool {
    folded(a) == folded(b)
}

/// The value of the first header called `name`.
pub open spec fn first_value(headers: Seq<(Seq<char>, Seq<char>)>, name: Seq<char>) -> Option<
    Seq<char>,
>
    decreases headers.len(),
{
    if headers.len() == 0 {
        None
    } else if same_name(headers[0].0, name) {
        Some(headers[0].1)
    } else {
        first_value(headers.drop_first(), name)
    }
}

/// The values of the headers called `name`, in order.
pub open spec fn all_values(headers: Seq<(Seq<char>, Seq<char>)>, name: Seq<char>) -> Seq<
    Seq<char>,
>
    decreases headers.len(),
{
    if headers.len() == 0 {
        Seq::empty()
    } else if same_name(headers.last().0, name) {
        all_values(headers.drop_last(), name).push(headers.last().1)
    } else {
        all_values(headers.drop_last(), name)
    }
}

/// The headers that are not called `name`, in order.
pub open spec fn without(headers: Seq<(Seq<char>, Seq<char>)>, name: Seq<char>) -> Seq<
    (Seq<char>, Seq<char>),
>
    decreases headers.len(),
{
    if headers.len() == 0 {
        Seq::empty()
    } else if same_name(headers.last().0, name) {
        without(headers.drop_last(), name)
    } else {
        without(headers.drop_last(), name).push(headers.last())
    }
}

/// A header added at the end is found under its name unless an earlier
/// header has that name; under any other name the map answers as before.
pub proof fn lemma_first_value_push(
    headers: Seq<(Seq<char>, Seq<char>)>,
    name: Seq<char>,
    value: Seq<char>,
    wanted: Seq<char>,
)
    ensures
        first_value(headers.push((name, value)), wanted) == match first_value(headers, wanted) {
            Some(v) => Some(v),
            None => if same_name(name, wanted) {
                Some(value)
            } else {
                None
            },
        },
    decreases headers.len(),
{
    let extended = headers.push((name, value));
    if headers.len() == 0 {
        assert(extended[0] == (name, value));
        assert(extended.drop_first() =~= Seq::empty());
        assert(first_value(extended.drop_first(), wanted) is None);
    } else {
        assert(extended[0] == headers[0]);
        assert(extended.drop_first() =~= headers.drop_first().push((name, value)));
        if !same_name(headers[0].0, wanted) {
            lemma_first_value_push(headers.drop_first(), name, value, wanted);
            assert(first_value(extended, wanted) == first_value(extended.drop_first(), wanted));
            assert(first_value(headers, wanted) == first_value(headers.drop_first(), wanted));
        }
    }
}

/// Once the headers called `name` are taken out, none is found under it.
pub proof fn lemma_without_has_none(headers: Seq<(Seq<char>, Seq<char>)>, name: Seq<char>)
    ensures
        first_value(without(headers, name), name) is None,
    decreases headers.len(),
{
    if headers.len() > 0 {
        lemma_without_has_none(headers.drop_last(), name);
        if !same_name(headers.last().0, name) {
            lemma_first_value_push(
                without(headers.drop_last(), name),
                headers.last().0,
                headers.last().1,
                name,
            );
        }
    }
}

impl HeaderMap {
    /// A map without headers.
    pub fn new() -> (map: HeaderMap)
        ensures
            map@ == Seq::<(Seq<char>, Seq<char>)>::empty(),
    {
        let map = HeaderMap { entries: Vec::new() };
        assert(map@ =~= Seq::empty());
        map
    }

    /// The number of headers.
    pub fn len(&self) -> (n: usize)
        ensures
            n == self@.len(),
    {
        self.entries.len()
    }

    /// The value of the first header called `name`.
    pub fn get(&self, name: &str) -> (value: Option<&str>)
        ensures
            value is Some == first_value(self@, name@) is Some,
            value is Some ==> value->0@ == first_value(self@, name@)->0,
    {
        let mut i: usize = 0;
        assert(self@.skip(0) =~= self@);
        while i < self.entries.len()
            invariant
                i <= self.entries@.len(),
                first_value(self@, name@) == first_value(self@.skip(i as int), name@),
            decreases self.entries@.len() - i,
        {
            assert(self@.skip(i as int)[0] == self@[i as int]);
            assert(self@.skip(i as int).drop_first() =~= self@.skip(i + 1));
            if eq_ignore_ascii_case(self.entries[i].name.as_str(), name) {
                return Some(self.entries[i].value.as_str());
            }
            i += 1;
        }
        None
    }

    /// The values of the headers called `name`, in order.
    pub fn get_all(&self, name: &str) -> (values: Vec<&str>)
        ensures
            values@.len() == all_values(self@, name@).len(),
            forall|k: int| 0 <= k < values@.len() ==> (#[trigger] values@[k])@ == all_values(
                self@,
                name@,
            )[k],
    {
        let mut values: Vec<&str> = Vec::new();
        let mut i: usize = 0;
        while i < self.entries.len()
            invariant
                i <= self.entries@.len(),
                values@.len() == all_values(self@.take(i as int), name@).len(),
                forall|k: int| 0 <= k < values@.len() ==> (#[trigger] values@[k])@ == all_values(
                    self@.take(i as int),
                    name@,
                )[k],
            decreases self.entries@.len() - i,
        {
            assert(self@.take(i + 1).drop_last() =~= self@.take(i as int));
            assert(self@.take(i + 1).last() == self@[i as int]);
            if eq_ignore_ascii_case(self.entries[i].name.as_str(), name) {
                values.push(self.entries[i].value.as_str());
            }
            i += 1;
        }
        assert(self@.take(i as int) =~= self@);
        values
    }

    /// Adds a header after those that the map holds.
    pub fn append(&mut self, name: &str, value: &str)
        ensures
            final(self)@ == old(self)@.push((name@, value@)),
    {
        self.entries.push(Header { name: String::from_str(name), value: String::from_str(value) });
        assert(self@ =~= old(self)@.push((name@, value@)));
    }

    /// Sets a header: every header of that name leaves the map, and the new
    /// one is added at the end.
    pub fn insert(&mut self, name: &str, value: &str)
        ensures
            final(self)@ == without(old(self)@, name@).push((name@, value@)),
    {
        let mut kept: Vec<Header> = Vec::new();
        let ghost before = self@;
        let ghost mut kept_view: Seq<(Seq<char>, Seq<char>)> = Seq::empty();
        let mut i: usize = 0;
        while i < self.entries.len()
            invariant
                i <= self.entries@.len(),
                self@ == before,
                kept_view == without(before.take(i as int), name@),
                kept_view.len() == kept@.len(),
                forall|k: int|
                    0 <= k < kept@.len() ==> kept_view[k] == (
                        (#[trigger] kept@[k]).name@,
                        kept@[k].value@,
                    ),
            decreases self.entries@.len() - i,
        {
            assert(before.take(i + 1).drop_last() =~= before.take(i as int));
            assert(before.take(i + 1).last() == before[i as int]);
            if !eq_ignore_ascii_case(self.entries[i].name.as_str(), name) {
                kept.push(
                    Header {
                        name: self.entries[i].name.clone(),
                        value: self.entries[i].value.clone(),
                    },
                );
                proof {
                    kept_view = kept_view.push(before[i as int]);
                }
            }
            i += 1;
        }
        assert(before.take(i as int) =~= before);
        kept.push(Header { name: String::from_str(name), value: String::from_str(value) });
        self.entries = kept;
        assert(self@ =~= without(before, name@).push((name@, value@)));
    }
}

} // verus!
