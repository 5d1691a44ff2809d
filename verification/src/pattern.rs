//! Route patterns: their syntax, what paths they match and what they capture.
//!
//! A pattern is a path template such as `/users/:id/files/*rest`. After one
//! leading `/` is set aside, the text is cut at every `/` into segments. A
//! segment that starts with `:` captures one non-empty path segment under the
//! name that follows the colon; one that starts with `*` captures the whole
//! non-empty remainder of the path, slashes included; any other segment is a
//! literal and matches only itself. Matching goes segment by segment from the
//! left and ends at the first rest-capture.

use crate::params::{no_params, params_insert, params_map, params_new};
use crate::text::{begins_with, substring, to_chars};
use route_recognizer::Params;
use vstd::prelude::*;

verus! {

/// One segment of a pattern.
pub enum Segment {
    /// Text that a path segment must equal.
    Literal(Vec<char>),
    /// A named capture of one path segment.
    Capture(String),
    /// A named capture of the remainder of the path.
    Rest(String),
}

/// The mathematical value of a [`Segment`].
pub enum SegmentView {
    Literal(Seq<char>),
    Capture(Seq<char>),
    Rest(Seq<char>),
}

impl View for Segment {
    type V = SegmentView;

    open spec fn view(&self) -> SegmentView {
        match self {
            Segment::Literal(text) => SegmentView::Literal(text@),
            Segment::Capture(name) => SegmentView::Capture(name@),
            Segment::Rest(name) => SegmentView::Rest(name@),
        }
    }
}

/// A parsed route pattern.
pub struct Pattern {
    pub segments: Vec<Segment>,
}

impl View for Pattern {
    type V = Seq<SegmentView>;

    open spec fn view(&self) -> Seq<SegmentView> {
        Seq::new(self.segments@.len(), |i: int| self.segments@[i]@)
    }
}

/// The text without one leading `/`, if it has one.
pub open spec fn strip_slash(s: Seq<char>) -> Seq<char> {
    if begins_with(s, '/') {
        s.skip(1)
    } else {
        s
    }
}

/// The number of characters before the first `/` of `s`, or the length of
/// `s` where it holds no `/`.
pub open spec fn head_len(s: Seq<char>) -> nat
    decreases s.len(),
{
    if s.len() == 0 || s[0] == '/' {
        0
    } else {
        1 + head_len(s.skip(1))
    }
}

/// The segment that a piece of pattern text stands for.
pub open spec fn classify(text: Seq<char>) -> SegmentView {
    if begins_with(text, ':') {
        SegmentView::Capture(text.skip(1))
    } else if begins_with(text, '*') {
        SegmentView::Rest(text.skip(1))
    } else {
        SegmentView::Literal(text)
    }
}

/// The segments of pattern text that has no leading slash.
pub open spec fn segments_of(s: Seq<char>) -> Seq<SegmentView>
    decreases s.len(),
{
    let h = head_len(s);
    if h >= s.len() {
        seq![classify(s)]
    } else {
        seq![classify(s.take(h as int))] + segments_of(s.skip(h as int + 1))
    }
}

/// The pattern that a piece of text denotes.
pub open spec fn pattern_of(text: Seq<char>) -> Seq<SegmentView> {
    segments_of(strip_slash(text))
}

/// Whether one segment of a pattern accepts one piece of a path.
pub open spec fn accepts(segment: SegmentView, piece: Seq<char>) -> bool {
    match segment {
        SegmentView::Literal(text) => piece == text,
        SegmentView::Capture(_) => piece.len() > 0,
        SegmentView::Rest(_) => piece.len() > 0,
    }
}

/// Whether `pattern` matches the path text `p`, a path without its leading
/// slash.
pub open spec fn matches_path(pattern: Seq<SegmentView>, p: Seq<char>) -> bool
    decreases pattern.len(),
{
    if pattern.len() == 0 {
        false
    } else if pattern[0] is Rest {
        p.len() > 0
    } else {
        let h = head_len(p);
        accepts(pattern[0], p.take(h as int)) && if pattern.len() == 1 {
            h == p.len()
        } else {
            h < p.len() && matches_path(pattern.drop_first(), p.skip(h as int + 1))
        }
    }
}

/// The captures of `pattern` on the path text `p`, added to `found`. A name
/// that stands twice in the pattern keeps its last value.
pub open spec fn captures_onto(
    pattern: Seq<SegmentView>,
    p: Seq<char>,
    found: Map<Seq<char>, Seq<char>>,
) -> Map<Seq<char>, Seq<char>>
    decreases pattern.len(),
{
    if pattern.len() == 0 {
        found
    } else {
        let h = head_len(p);
        match pattern[0] {
            SegmentView::Rest(name) => found.insert(name, p),
            SegmentView::Capture(name) => captures_onto(
                pattern.drop_first(),
                p.skip(h as int + 1),
                found.insert(name, p.take(h as int)),
            ),
            SegmentView::Literal(_) => captures_onto(pattern.drop_first(), p.skip(h as int + 1), found),
        }
    }
}

/// What `pattern` captures from the path text `p` that it matches.
pub open spec fn captures(pattern: Seq<SegmentView>, p: Seq<char>) -> Map<Seq<char>, Seq<char>> {
    captures_onto(pattern, p, no_params())
}

/// How specific a segment is: a literal before a capture before a
/// rest-capture.
pub open spec fn rank(segment: SegmentView) -> int {
    match segment {
        SegmentView::Literal(_) => 0,
        SegmentView::Capture(_) => 1,
        SegmentView::Rest(_) => 2,
    }
}

/// Whether `a` takes precedence over `b`: at the first position where the two
/// differ in kind, `a` has the more specific segment.
pub open spec fn precedes(a: Seq<SegmentView>, b: Seq<SegmentView>) -> bool
    decreases a.len(),
{
    if a.len() == 0 || b.len() == 0 {
        false
    } else if rank(a[0]) != rank(b[0]) {
        rank(a[0]) < rank(b[0])
    } else if a[0] is Rest {
        false
    } else {
        precedes(a.drop_first(), b.drop_first())
    }
}

/// Whether the pattern holds no rest-capture.
pub open spec fn has_no_rest(pattern: Seq<SegmentView>) -> bool {
    forall|i: int| 0 <= i < pattern.len() ==> !(#[trigger] pattern[i] is Rest)
}

/// The names under which a pattern captures: those of its captures up to
/// its first rest-capture, and that of the rest-capture.
pub open spec fn capture_names(pattern: Seq<SegmentView>) -> Set<Seq<char>>
    decreases pattern.len(),
{
    if pattern.len() == 0 {
        Set::empty()
    } else {
        match pattern[0] {
            SegmentView::Rest(name) => set![name],
            SegmentView::Capture(name) => capture_names(pattern.drop_first()).insert(name),
            SegmentView::Literal(_) => capture_names(pattern.drop_first()),
        }
    }
}

/// A pattern captures under the names of its captures and under no other
/// name.
pub proof fn lemma_captured_names(
    pattern: Seq<SegmentView>,
    p: Seq<char>,
    found: Map<Seq<char>, Seq<char>>,
)
    ensures
        captures_onto(pattern, p, found).dom() == found.dom().union(capture_names(pattern)),
    decreases pattern.len(),
{
    if pattern.len() == 0 {
        assert(found.dom().union(capture_names(pattern)) =~= found.dom());
    } else {
        let h = head_len(p) as int;
        match pattern[0] {
            SegmentView::Rest(name) => {
                assert(found.insert(name, p).dom() =~= found.dom().union(set![name]));
            },
            SegmentView::Capture(name) => {
                let next = found.insert(name, p.take(h));
                lemma_captured_names(pattern.drop_first(), p.skip(h + 1), next);
                assert(next.dom().union(capture_names(pattern.drop_first())) =~= found.dom().union(
                    capture_names(pattern),
                ));
            },
            SegmentView::Literal(_) => {
                lemma_captured_names(pattern.drop_first(), p.skip(h + 1), found);
            },
        }
    }
}

/// Text that is followed by a slash has its first slash where it had it
/// before or, where it had none, at its end.
pub proof fn lemma_head_len_before_slash(a: Seq<char>, b: Seq<char>)
    ensures
        head_len(a + seq!['/'] + b) == head_len(a),
        head_len(a) <= a.len(),
    decreases a.len(),
{
    let whole = a + seq!['/'] + b;
    if a.len() == 0 {
        assert(whole[0] == '/');
    } else {
        assert(whole[0] == a[0]);
        if a[0] != '/' {
            assert(whole.skip(1) =~= a.skip(1) + seq!['/'] + b);
            lemma_head_len_before_slash(a.skip(1), b);
        }
    }
}

/// A pattern without a rest-capture matches nothing below a path that it
/// matches: a route for `/parent` does not answer `/parent/child`.
pub proof fn lemma_exact_pattern_rejects_deeper(
    pattern: Seq<SegmentView>,
    p: Seq<char>,
    tail: Seq<char>,
)
    requires
        has_no_rest(pattern),
        matches_path(pattern, p),
    ensures
        !matches_path(pattern, p + seq!['/'] + tail),
    decreases pattern.len(),
{
    let deeper = p + seq!['/'] + tail;
    let h = head_len(p) as int;
    lemma_head_len_before_slash(p, tail);
    assert(!(pattern[0] is Rest));
    if pattern.len() > 1 {
        assert(deeper.skip(h + 1) =~= p.skip(h + 1) + seq!['/'] + tail);
        assert forall|i: int| 0 <= i < pattern.drop_first().len() implies !(
        #[trigger] pattern.drop_first()[i] is Rest) by {
            assert(pattern.drop_first()[i] == pattern[i + 1]);
        }
        lemma_exact_pattern_rejects_deeper(pattern.drop_first(), p.skip(h + 1), tail);
    }
}

/// A pattern without a rest-capture that is followed by one matches every
/// path below a path that the pattern itself matches. It captures what the
/// pattern captures, and the rest-capture holds what follows the slash.
pub proof fn lemma_rest_matches_deeper(
    pattern: Seq<SegmentView>,
    name: Seq<char>,
    p: Seq<char>,
    tail: Seq<char>,
    found: Map<Seq<char>, Seq<char>>,
)
    requires
        has_no_rest(pattern),
        matches_path(pattern, p),
        tail.len() > 0,
    ensures
        matches_path(pattern.push(SegmentView::Rest(name)), p + seq!['/'] + tail),
        captures_onto(pattern.push(SegmentView::Rest(name)), p + seq!['/'] + tail, found)
            == captures_onto(pattern, p, found).insert(name, tail),
    decreases pattern.len(),
{
    let longer = pattern.push(SegmentView::Rest(name));
    let deeper = p + seq!['/'] + tail;
    let h = head_len(p) as int;
    lemma_head_len_before_slash(p, tail);
    assert(!(pattern[0] is Rest));
    assert(longer[0] == pattern[0]);
    assert(deeper.take(h) =~= p.take(h));
    assert(longer.drop_first() =~= pattern.drop_first().push(SegmentView::Rest(name)));
    let next_found = match pattern[0] {
        SegmentView::Capture(n) => found.insert(n, p.take(h)),
        _ => found,
    };
    if pattern.len() == 1 {
        assert(deeper.skip(h + 1) =~= tail);
        assert(longer.drop_first()[0] == SegmentView::Rest(name));
        assert(pattern.drop_first().len() == 0);
        assert(captures_onto(pattern.drop_first(), p.skip(h + 1), next_found) == next_found);
        assert(captures_onto(longer.drop_first(), tail, next_found) == next_found.insert(
            name,
            tail,
        ));
        assert(matches_path(longer.drop_first(), tail));
        assert(accepts(longer[0], deeper.take(h)));
        assert(h < deeper.len());
        assert(longer.len() == 2);
        assert(matches_path(longer, deeper));
    } else {
        assert(deeper.skip(h + 1) =~= p.skip(h + 1) + seq!['/'] + tail);
        assert forall|i: int| 0 <= i < pattern.drop_first().len() implies !(
        #[trigger] pattern.drop_first()[i] is Rest) by {
            assert(pattern.drop_first()[i] == pattern[i + 1]);
        }
        lemma_rest_matches_deeper(pattern.drop_first(), name, p.skip(h + 1), tail, next_found);
        assert(matches_path(longer.drop_first(), deeper.skip(h + 1)));
        assert(accepts(longer[0], deeper.take(h)));
        assert(h < deeper.len());
        assert(matches_path(longer, deeper));
    }
}

/// The segments of two pieces of text joined by a slash are the segments of
/// the first followed by the segments of the second.
pub proof fn lemma_segments_of_joined(a: Seq<char>, b: Seq<char>)
    ensures
        segments_of(a + seq!['/'] + b) == segments_of(a) + segments_of(b),
    decreases a.len(),
{
    let whole = a + seq!['/'] + b;
    let h = head_len(a) as int;
    lemma_head_len_before_slash(a, b);
    assert(whole.take(h) =~= a.take(h));
    if h >= a.len() {
        assert(a.take(h) =~= a);
        assert(whole.skip(h + 1) =~= b);
    } else {
        assert(whole.skip(h + 1) =~= a.skip(h + 1) + seq!['/'] + b);
        lemma_segments_of_joined(a.skip(h + 1), b);
        assert(seq![classify(a.take(h))] + (segments_of(a.skip(h + 1)) + segments_of(b)) =~= (
        seq![classify(a.take(h))] + segments_of(a.skip(h + 1))) + segments_of(b));
    }
}

/// A pattern that is followed by a rest-capture does not match the paths
/// that the pattern itself matches: the rest-capture asks for more.
pub proof fn lemma_rest_rejects_exact(pattern: Seq<SegmentView>, name: Seq<char>, p: Seq<char>)
    requires
        has_no_rest(pattern),
        matches_path(pattern, p),
    ensures
        !matches_path(pattern.push(SegmentView::Rest(name)), p),
    decreases pattern.len(),
{
    let longer = pattern.push(SegmentView::Rest(name));
    let h = head_len(p) as int;
    assert(!(pattern[0] is Rest));
    assert(longer[0] == pattern[0]);
    assert(longer.drop_first() =~= pattern.drop_first().push(SegmentView::Rest(name)));
    if pattern.len() > 1 {
        assert forall|i: int| 0 <= i < pattern.drop_first().len() implies !(
        #[trigger] pattern.drop_first()[i] is Rest) by {
            assert(pattern.drop_first()[i] == pattern[i + 1]);
        }
        lemma_rest_rejects_exact(pattern.drop_first(), name, p.skip(h + 1));
    }
}

/// Text without a slash is one segment.
pub proof fn lemma_head_len_without_slash(s: Seq<char>)
    requires
        forall|i: int| 0 <= i < s.len() ==> s[i] != '/',
    ensures
        head_len(s) == s.len(),
    decreases s.len(),
{
    if s.len() > 0 {
        assert(s[0] != '/');
        assert forall|i: int| 0 <= i < s.skip(1).len() implies s.skip(1)[i] != '/' by {
            assert(s.skip(1)[i] == s[i + 1]);
        }
        lemma_head_len_without_slash(s.skip(1));
    }
}

/// What follows the first slash of a text does not move that slash.
pub proof fn lemma_head_len_of_prefix(p: Seq<char>, tail: Seq<char>)
    requires
        head_len(p) < p.len(),
    ensures
        head_len(p + tail) == head_len(p),
    decreases p.len(),
{
    let whole = p + tail;
    assert(whole[0] == p[0]);
    if p[0] != '/' {
        assert(whole.skip(1) =~= p.skip(1) + tail);
        lemma_head_len_of_prefix(p.skip(1), tail);
    }
}

/// The segment that matches nothing but the empty piece of a path.
pub open spec fn empty_literal() -> SegmentView {
    SegmentView::Literal(Seq::empty())
}

/// A pattern that ends in an empty literal matches paths that end in a
/// slash, and the root. With a rest-capture in place of the empty literal it
/// matches every path that goes on behind such a path. It captures what the
/// pattern captures, and the rest-capture holds what was added.
pub proof fn lemma_rest_matches_behind_slash(
    before: Seq<SegmentView>,
    name: Seq<char>,
    p: Seq<char>,
    tail: Seq<char>,
    found: Map<Seq<char>, Seq<char>>,
)
    requires
        has_no_rest(before),
        matches_path(before.push(empty_literal()), p),
        tail.len() > 0,
    ensures
        matches_path(before.push(SegmentView::Rest(name)), p + tail),
        captures_onto(before.push(SegmentView::Rest(name)), p + tail, found) == captures_onto(
            before.push(empty_literal()),
            p,
            found,
        ).insert(name, tail),
        !matches_path(before.push(empty_literal()), p + tail),
        !matches_path(before.push(SegmentView::Rest(name)), p),
    decreases before.len(),
{
    let exact = before.push(empty_literal());
    let longer = before.push(SegmentView::Rest(name));
    let deeper = p + tail;
    let h = head_len(p) as int;
    if before.len() == 0 {
        assert(exact[0] == empty_literal());
        assert(p.take(h).len() == 0);
        assert(p.len() == 0);
        assert(deeper =~= tail);
        assert(longer[0] == SegmentView::Rest(name));
        assert(exact.drop_first().len() == 0);
        assert(captures_onto(exact.drop_first(), p.skip(h + 1), found) == found);
        let d = head_len(deeper) as int;
        if d == deeper.len() {
            assert(deeper.take(d) =~= deeper);
        }
    } else {
        assert(!(before[0] is Rest));
        assert(exact[0] == before[0]);
        assert(longer[0] == before[0]);
        assert(exact.drop_first() =~= before.drop_first().push(empty_literal()));
        assert(longer.drop_first() =~= before.drop_first().push(SegmentView::Rest(name)));
        assert(h < p.len());
        lemma_head_len_of_prefix(p, tail);
        assert(deeper.take(h) =~= p.take(h));
        assert(deeper.skip(h + 1) =~= p.skip(h + 1) + tail);
        assert forall|i: int| 0 <= i < before.drop_first().len() implies !(
        #[trigger] before.drop_first()[i] is Rest) by {
            assert(before.drop_first()[i] == before[i + 1]);
        }
        let next_found = match before[0] {
            SegmentView::Capture(n) => found.insert(n, p.take(h)),
            _ => found,
        };
        lemma_rest_matches_behind_slash(before.drop_first(), name, p.skip(h + 1), tail, next_found);
        assert(matches_path(longer.drop_first(), deeper.skip(h + 1)));
        assert(accepts(longer[0], deeper.take(h)));
        assert(matches_path(longer, deeper));
    }
}

/// The end of the path segment that starts at `from`.
pub(crate) fn segment_end(chars: &[char], from: usize) -> (end: usize)
    requires
        from <= chars@.len(),
    ensures
        from <= end <= chars@.len(),
        end - from == head_len(chars@.skip(from as int)),
{
    let mut end: usize = from;
    while end < chars.len() && chars[end] != '/'
        invariant
            from <= end <= chars@.len(),
            head_len(chars@.skip(from as int)) == (end - from) + head_len(chars@.skip(end as int)),
        decreases chars@.len() - end,
    {
        assert(chars@.skip(end as int).skip(1) =~= chars@.skip(end + 1));
        end += 1;
    }
    end
}

fn classify_piece(text: &str, chars: &[char], from: usize, to: usize) -> (segment: Segment)
    requires
        chars@ == text@,
        from <= to <= chars@.len(),
    ensures
        segment@ == classify(chars@.subrange(from as int, to as int)),
{
    let ghost piece = chars@.subrange(from as int, to as int);
    if from < to && chars[from] == ':' {
        let name = substring(text, from + 1, to);
        assert(name@ =~= piece.skip(1));
        Segment::Capture(name)
    } else if from < to && chars[from] == '*' {
        let name = substring(text, from + 1, to);
        assert(name@ =~= piece.skip(1));
        Segment::Rest(name)
    } else {
        let mut literal: Vec<char> = Vec::new();
        let mut i: usize = from;
        while i < to
            invariant
                from <= i <= to <= chars@.len(),
                literal@ == chars@.subrange(from as int, i as int),
            decreases to - i,
        {
            literal.push(chars[i]);
            assert(chars@.subrange(from as int, i + 1) =~= chars@.subrange(
                from as int,
                i as int,
            ).push(chars@[i as int]));
            i += 1;
        }
        Segment::Literal(literal)
    }
}

impl Pattern {
    /// Parses pattern text.
    pub fn parse(text: &str) -> (pattern: Pattern)
        ensures
            pattern@ == pattern_of(text@),
    {
        let chars = to_chars(text);
        let n: usize = chars.len();
        let mut from: usize = if n > 0 && chars[0] == '/' {
            1
        } else {
            0
        };
        assert(chars@.skip(from as int) =~= strip_slash(text@));
        let mut segments: Vec<Segment> = Vec::new();
        let ghost mut done: Seq<SegmentView> = Seq::empty();
        loop
            invariant_except_break
                pattern_of(text@) == done + segments_of(chars@.skip(from as int)),
            invariant
                chars@ == text@,
                n == chars@.len(),
                from <= n,
                done.len() == segments@.len(),
                forall|i: int| 0 <= i < done.len() ==> done[i] == (#[trigger] segments@[i])@,
            ensures
                done.len() == segments@.len(),
                forall|i: int| 0 <= i < done.len() ==> done[i] == (#[trigger] segments@[i])@,
                pattern_of(text@) == done,
            decreases n - from,
        {
            let end = segment_end(chars.as_slice(), from);
            let segment = classify_piece(text, chars.as_slice(), from, end);
            let ghost tail = chars@.skip(from as int);
            assert(tail.take(end - from) =~= chars@.subrange(from as int, end as int));
            proof {
                if end < n {
                    assert(tail.skip(end - from + 1) =~= chars@.skip(end + 1));
                    assert(done + (seq![segment@] + segments_of(chars@.skip(end + 1)))
                        =~= done.push(segment@) + segments_of(chars@.skip(end + 1)));
                } else {
                    assert(tail.take(tail.len() as int) =~= tail);
                    assert(done + seq![segment@] =~= done.push(segment@));
                }
                done = done.push(segment@);
            }
            segments.push(segment);
            if end >= n {
                break;
            }
            from = end + 1;
        }
        let pattern = Pattern { segments };
        assert(pattern@ =~= done);
        pattern
    }

    /// Whether the pattern matches `path`.
    pub fn matches(&self, path: &str) -> (yes: bool)
        ensures
            yes == matches_path(self@, strip_slash(path@)),
    {
        let chars = to_chars(path);
        let start: usize = if chars.len() > 0 && chars[0] == '/' {
            1
        } else {
            0
        };
        assert(chars@.skip(start as int) =~= strip_slash(path@));
        self.is_match(chars.as_slice(), start)
    }

    /// What the pattern captures from `path`, or `None` where it does not
    /// match the path.
    pub fn capture(&self, path: &str) -> (found: Option<Params>)
        ensures
            found is Some == matches_path(self@, strip_slash(path@)),
            found is Some ==> params_map(found->0) == captures(self@, strip_slash(path@)),
    {
        let chars = to_chars(path);
        let start: usize = if chars.len() > 0 && chars[0] == '/' {
            1
        } else {
            0
        };
        assert(chars@.skip(start as int) =~= strip_slash(path@));
        if self.is_match(chars.as_slice(), start) {
            Some(self.extract(path, chars.as_slice(), start))
        } else {
            None
        }
    }

    /// Whether the pattern matches the path whose characters from `start` on
    /// are the path text.
    pub(crate) fn is_match(&self, chars: &[char], start: usize) -> (yes: bool)
        requires
            start <= chars@.len(),
        ensures
            yes == matches_path(self@, chars@.skip(start as int)),
    {
        let n: usize = chars.len();
        let count: usize = self.segments.len();
        let mut from: usize = start;
        let mut k: usize = 0;
        assert(self@.skip(0) =~= self@);
        while k < count
            invariant
                count == self.segments@.len(),
                n == chars@.len(),
                k <= count,
                from <= n,
                matches_path(self@, chars@.skip(start as int)) == matches_path(
                    self@.skip(k as int),
                    chars@.skip(from as int),
                ),
            decreases count - k,
        {
            let ghost rest = self@.skip(k as int);
            let ghost p = chars@.skip(from as int);
            assert(rest[0] == self.segments@[k as int]@);
            assert(rest.drop_first() =~= self@.skip(k + 1));
            let end = segment_end(chars, from);
            assert(p.take(end - from) =~= chars@.subrange(from as int, end as int));
            if end < n {
                assert(p.skip(end - from + 1) =~= chars@.skip(end + 1));
            }
            let last: bool = k + 1 == count;
            match &self.segments[k] {
                Segment::Rest(_) => {
                    return from < n;
                },
                Segment::Capture(_) => {
                    if end == from {
                        return false;
                    }
                },
                Segment::Literal(text) => {
                    if !literal_at(text.as_slice(), chars, from, end) {
                        return false;
                    }
                },
            }
            if last {
                return end == n;
            }
            if end >= n {
                return false;
            }
            from = end + 1;
            k += 1;
        }
        assert(self@.skip(count as int).len() == 0);
        false
    }

    /// What the pattern captures from a path that it matches.
    pub(crate) fn extract(&self, path: &str, chars: &[char], start: usize) -> (params: Params)
        requires
            chars@ == path@,
            start <= chars@.len(),
            matches_path(self@, chars@.skip(start as int)),
        ensures
            params_map(params) == captures(self@, chars@.skip(start as int)),
    {
        let n: usize = chars.len();
        let count: usize = self.segments.len();
        let mut params = params_new();
        let mut from: usize = start;
        let mut k: usize = 0;
        assert(self@.skip(0) =~= self@);
        while k < count
            invariant
                count == self.segments@.len(),
                n == chars@.len(),
                chars@ == path@,
                k <= count,
                from <= n,
                matches_path(self@.skip(k as int), chars@.skip(from as int)),
                captures(self@, chars@.skip(start as int)) == captures_onto(
                    self@.skip(k as int),
                    chars@.skip(from as int),
                    params_map(params),
                ),
            decreases count - k,
        {
            let ghost rest = self@.skip(k as int);
            let ghost p = chars@.skip(from as int);
            assert(rest[0] == self.segments@[k as int]@);
            assert(rest.drop_first() =~= self@.skip(k + 1));
            let end = segment_end(chars, from);
            assert(p.take(end - from) =~= chars@.subrange(from as int, end as int));
            if end < n {
                assert(p.skip(end - from + 1) =~= chars@.skip(end + 1));
            }
            match &self.segments[k] {
                Segment::Rest(name) => {
                    let value = substring(path, from, n);
                    assert(value@ =~= p);
                    params_insert(&mut params, name.clone(), value);
                    return params;
                },
                Segment::Capture(name) => {
                    let value = substring(path, from, end);
                    params_insert(&mut params, name.clone(), value);
                },
                Segment::Literal(_) => {},
            }
            if k + 1 == count {
                assert(rest.drop_first().len() == 0);
                assert(captures_onto(
                    rest.drop_first(),
                    p.skip(end - from + 1),
                    params_map(params),
                ) == params_map(params));
                return params;
            }
            from = end + 1;
            k += 1;
        }
        assert(self@.skip(count as int).len() == 0);
        params
    }

    /// Whether this pattern takes precedence over `other`.
    pub fn outranks(&self, other: &Pattern) -> (yes: bool)
        ensures
            yes == precedes(self@, other@),
    {
        let mut k: usize = 0;
        assert(self@.skip(0) =~= self@);
        assert(other@.skip(0) =~= other@);
        while k < self.segments.len() && k < other.segments.len()
            invariant
                k <= self.segments@.len(),
                k <= other.segments@.len(),
                precedes(self@, other@) == precedes(self@.skip(k as int), other@.skip(k as int)),
            decreases self.segments@.len() - k,
        {
            let ghost a = self@.skip(k as int);
            let ghost b = other@.skip(k as int);
            assert(a[0] == self.segments@[k as int]@);
            assert(b[0] == other.segments@[k as int]@);
            assert(a.drop_first() =~= self@.skip(k + 1));
            assert(b.drop_first() =~= other@.skip(k + 1));
            let mine: u8 = segment_rank(&self.segments[k]);
            let theirs: u8 = segment_rank(&other.segments[k]);
            if mine != theirs {
                return mine < theirs;
            }
            if mine == 2 {
                return false;
            }
            k += 1;
        }
        assert(self@.skip(k as int).len() == 0 || other@.skip(k as int).len() == 0);
        false
    }
}

fn segment_rank(segment: &Segment) -> (r: u8)
    ensures
        r == rank(segment@),
{
    match segment {
        Segment::Literal(_) => 0,
        Segment::Capture(_) => 1,
        Segment::Rest(_) => 2,
    }
}

fn literal_at(text: &[char], chars: &[char], from: usize, to: usize) -> (same: bool)
    requires
        from <= to <= chars@.len(),
    ensures
        same == (chars@.subrange(from as int, to as int) == text@),
{
    let ghost piece = chars@.subrange(from as int, to as int);
    if text.len() != to - from {
        return false;
    }
    let mut i: usize = 0;
    while i < text.len()
        invariant
            from <= to <= chars@.len(),
            text@.len() == to - from,
            i <= text@.len(),
            piece == chars@.subrange(from as int, to as int),
            forall|j: int| 0 <= j < i ==> piece[j] == text@[j],
        decreases text@.len() - i,
    {
        if chars[from + i] != text[i] {
            assert(piece[i as int] != text@[i as int]);
            return false;
        }
        i += 1;
    }
    assert(piece =~= text@);
    true
}

} // verus!
