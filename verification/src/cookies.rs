//! Cookies: reading them from a request and setting them on a response.
//!
//! The cookies of one request are kept in a `cookie::CookieJar`. Verus does
//! not look inside a jar. What a jar holds is named by three functions:
//! [`jar_cookies`], the cookies that can be looked up, [`jar_carried`], the
//! names of the cookies that the request carried, and [`jar_changes`], the
//! cookies that were added or removed since the jar was filled from the
//! request. The functions whose names begin with `jar_`, and `parse_cookie`,
//! are the only places where the `cookie` crate is called. Their contracts
//! are taken on trust from the crate's source.

use crate::headers::{first_value, HeaderMap};
use crate::request::{Request, RequestView};
use crate::response::{Response, ResponseView};
use crate::text::{is_visible_ascii, substring, to_chars, visible_ascii};
use cookie::CookieJar;
use vstd::prelude::*;

verus! {

#[verifier::external_type_specification]
#[verifier::external_body]
pub struct ExCookieJar(cookie::CookieJar);

/// The cookies that can be looked up in a jar: their values by name.
pub uninterp spec fn jar_cookies(jar: CookieJar) -> Map<Seq<char>, Seq<char>>;

/// The names of the cookies that a jar was filled with from the request.
pub uninterp spec fn jar_carried(jar: CookieJar) -> Set<Seq<char>>;

/// The cookies of a jar that were added or removed since the jar was filled
/// with the cookies of the request: by name, the value and the maximal age
/// in seconds of what is to be written for that name. A removal is a cookie
/// with an empty value and a maximal age of zero.
pub uninterp spec fn jar_changes(jar: CookieJar) -> Map<Seq<char>, (Seq<char>, Option<int>)>;

/// A cookie: a name, a value, and whether it is kept from scripts and from
/// connections that are not secure.
pub struct Cookie {
    pub name: String,
    pub value: String,
    pub http_only: Option<bool>,
    pub secure: Option<bool>,
}

impl Cookie {
    /// A cookie with the given name and value.
    pub fn new(name: &str, value: &str) -> (cookie: Cookie)
        ensures
            cookie.name@ == name@,
            cookie.value@ == value@,
            cookie.http_only is None,
            cookie.secure is None,
    {
        Cookie {
            name: String::from_str(name),
            value: String::from_str(value),
            http_only: None,
            secure: None,
        }
    }

    /// A cookie with the given name and an empty value.
    pub fn named(name: &str) -> (cookie: Cookie)
        ensures
            cookie.name@ == name@,
            cookie.value@.len() == 0,
            cookie.http_only is None,
            cookie.secure is None,
    {
        Cookie { name: String::from_str(name), value: String::new(), http_only: None, secure: None }
    }

    /// The name of the cookie.
    pub fn name(&self) -> (name: &str)
        ensures
            name@ == self.name@,
    {
        self.name.as_str()
    }

    /// The value of the cookie.
    pub fn value(&self) -> (value: &str)
        ensures
            value@ == self.value@,
    {
        self.value.as_str()
    }
}

/// `CookieJar::new`: trusted to return a jar that holds no cookie and has
/// no change.
#[verifier::external_body]
pub(crate) fn jar_new() -> (jar: CookieJar)
    ensures
        jar_cookies(jar) == no_cookies(),
        jar_carried(jar) == no_names(),
        jar_changes(jar) == no_changes(),
{
    CookieJar::new()
}

/// `CookieJar::add_original`: trusted to put a cookie of the request into
/// the jar without recording a change. The cookie is what a lookup of its
/// name finds, unless that name was added or removed since.
#[verifier::external_body]
pub(crate) fn jar_add_original(jar: &mut CookieJar, name: String, value: String)
    ensures
        jar_carried(*final(jar)) == jar_carried(*old(jar)).insert(name@),
        jar_changes(*final(jar)) == jar_changes(*old(jar)),
        jar_cookies(*final(jar)) == if jar_changes(*old(jar)).contains_key(name@) {
            jar_cookies(*old(jar))
        } else {
            jar_cookies(*old(jar)).insert(name@, value@)
        },
{
    jar.add_original(cookie::Cookie::new(name, value))
}

/// `CookieJar::add`: trusted to put the cookie into the jar, in place of
/// one of the same name, and to record it as a change. The cookie that is
/// put in has no maximal age.
#[verifier::external_body]
pub(crate) fn jar_add(jar: &mut CookieJar, added: &Cookie)
    ensures
        jar_cookies(*final(jar)) == jar_cookies(*old(jar)).insert(added.name@, added.value@),
        jar_carried(*final(jar)) == jar_carried(*old(jar)),
        jar_changes(*final(jar)) == jar_changes(*old(jar)).insert(
            added.name@,
            (added.value@, None),
        ),
{
    let mut out = cookie::Cookie::new(added.name.clone(), added.value.clone());
    out.set_http_only(added.http_only);
    out.set_secure(added.secure);
    jar.add(out)
}

/// `CookieJar::remove`: trusted to leave no cookie of that name to be
/// looked up. Where the request carried a cookie of that name, the removal
/// is recorded as a change: a cookie with an empty value and a maximal age
/// of zero. Where it did not, a change of that name is forgotten. No other
/// name is touched.
#[verifier::external_body]
pub(crate) fn jar_remove(jar: &mut CookieJar, name: &str)
    ensures
        jar_cookies(*final(jar)) == jar_cookies(*old(jar)).remove(name@),
        jar_carried(*final(jar)) == jar_carried(*old(jar)),
        jar_changes(*final(jar)) == removal(jar_carried(*old(jar)), jar_changes(*old(jar)), name@),
{
    jar.remove(cookie::Cookie::named(name.to_string()))
}

/// `CookieJar::get`: trusted to return the cookie of that name that the
/// jar holds, and `None` exactly when it holds none.
#[verifier::external_body]
pub(crate) fn jar_get(jar: &CookieJar, name: &str) -> (found: Option<Cookie>)
    ensures
        found is Some == jar_cookies(*jar).contains_key(name@),
        found is Some ==> found->0.name@ == name@ && found->0.value@ == jar_cookies(*jar)[name@],
{
    jar.get(name).map(
        |c|
            Cookie {
                name: c.name().to_string(),
                value: c.value().to_string(),
                http_only: c.http_only(),
                secure: c.secure(),
            },
    )
}

/// `CookieJar::delta` with `Cookie::encoded`: the changes of the jar.
/// Trusted to hand out each change once, with its name, its value, its
/// maximal age in seconds and the text that writes it as the value of a
/// `Set-Cookie` header. The order is not fixed. Nothing is claimed of the
/// text: that of a removal holds a date that depends on the time of the
/// removal.
#[verifier::external_body]
pub(crate) fn jar_delta(jar: &CookieJar) -> (changes: Vec<Change>)
    ensures
        lists(changes@, jar_changes(*jar)),
{
    jar.delta().map(
        |c|
            Change {
                name: c.name().to_string(),
                value: c.value().to_string(),
                max_age: c.max_age().map(|age| age.whole_seconds()),
                text: c.encoded().to_string(),
            },
    ).collect()
}

/// `CookieJar::clone`: trusted to return a jar that holds what `jar` holds.
#[verifier::external_body]
pub(crate) fn jar_clone(jar: &CookieJar) -> (copy: CookieJar)
    ensures
        jar_cookies(copy) == jar_cookies(*jar),
        jar_carried(copy) == jar_carried(*jar),
        jar_changes(copy) == jar_changes(*jar),
{
    jar.clone()
}

/// `Cookie::parse`: trusted to read the name and the value of a cookie from
/// text of the form `name=value`, as [`parsed_cookie`] says. The text must
/// be printable ASCII without a `;`: of other text the parser reads more
/// than a name and a value, and takes more characters for blanks.
#[verifier::external_body]
pub(crate) fn parse_cookie(text: String) -> (pair: Option<(String, String)>)
    requires
        visible_ascii(text@),
        !text@.contains(';'),
    ensures
        match (pair, parsed_cookie(text@)) {
            (Some(found), Some(named)) => found.0@ == named.0 && found.1@ == named.1,
            (None, None) => true,
            _ => false,
        },
{
    cookie::Cookie::parse(text).ok().map(|c| (c.name().to_string(), c.value().to_string()))
}

/// One change of a jar: the cookie that is to be written for a name.
pub struct Change {
    pub name: String,
    pub value: String,
    /// The maximal age in seconds, where the cookie has one.
    pub max_age: Option<i64>,
    /// The cookie as the value of a `Set-Cookie` header.
    pub text: String,
}

/// The maximal age as a number.
pub open spec fn age(seconds: Option<i64>) -> Option<int> {
    match seconds {
        Some(s) => Some(s as int),
        None => None,
    }
}

/// Whether `written` hands out the changes of a jar, each once: every entry
/// is the change of its name, every change has an entry, and no name stands
/// twice.
pub open spec fn lists(written: Seq<Change>, changes: Map<Seq<char>, (Seq<char>, Option<int>)>) -> bool {
    &&& forall|i: int|
        0 <= i < written.len() ==> changes.contains_key((#[trigger] written[i]).name@)
            && changes[written[i].name@] == (written[i].value@, age(written[i].max_age))
    &&& forall|name: Seq<char>|
        #![trigger changes.contains_key(name)]
        changes.contains_key(name) ==> exists|i: int|
            0 <= i < written.len() && (#[trigger] written[i]).name@ == name
    &&& forall|i: int, j: int|
        #![trigger written[i], written[j]]
        0 <= i < j < written.len() ==> written[i].name@ != written[j].name@
}

/// The changes of a jar after the cookie of that name was removed: where
/// the request carried the cookie, the removal is a change, a cookie with an
/// empty value and a maximal age of zero; where it did not, no change of
/// that name is left.
pub open spec fn removal(
    carried: Set<Seq<char>>,
    changes: Map<Seq<char>, (Seq<char>, Option<int>)>,
    name: Seq<char>,
) -> Map<Seq<char>, (Seq<char>, Option<int>)> {
    if carried.contains(name) {
        changes.insert(name, (Seq::empty(), Some(0int)))
    } else {
        changes.remove(name)
    }
}

/// No change.
pub open spec fn no_changes() -> Map<Seq<char>, (Seq<char>, Option<int>)> {
    Map::empty()
}

/// The number of characters before the first `=` of `s`, or the length of
/// `s` where it holds none.
pub open spec fn name_len(s: Seq<char>) -> nat
    decreases s.len(),
{
    if s.len() == 0 || s[0] == '=' {
        0
    } else {
        1 + name_len(s.skip(1))
    }
}

/// The text without one pair of double quotes around it.
pub open spec fn unquoted(s: Seq<char>) -> Seq<char> {
    if s.len() >= 2 && s[0] == '"' && s.last() == '"' {
        s.subrange(1, s.len() - 1)
    } else {
        s
    }
}

/// The name and the value of the cookie that a piece of text of the form
/// `name=value` stands for: the name is what stands before the first `=`,
/// the value what stands after it, both without the blanks around them, and
/// the value without one pair of double quotes and the blanks inside them.
/// Text without `=` and text without a name is no cookie.
pub open spec fn parsed_cookie(text: Seq<char>) -> Option<(Seq<char>, Seq<char>)> {
    let n = name_len(text) as int;
    if n >= text.len() || trimmed(text.take(n)).len() == 0 {
        None
    } else {
        Some((trimmed(text.take(n)), trimmed(unquoted(trimmed(text.skip(n + 1))))))
    }
}

/// The jar without cookies.
pub open spec fn no_cookies() -> Map<Seq<char>, Seq<char>> {
    Map::empty()
}

/// The set without names.
pub open spec fn no_names() -> Set<Seq<char>> {
    Set::empty()
}

/// A space or a tab.
pub open spec fn is_blank(c: char) -> bool {
    c == ' ' || c == '\t'
}

/// The text without the blanks at its start.
pub open spec fn trim_start(s: Seq<char>) -> Seq<char>
    decreases s.len(),
{
    if s.len() > 0 && is_blank(s[0]) {
        trim_start(s.skip(1))
    } else {
        s
    }
}

/// The text without the blanks at its end.
pub open spec fn trim_end(s: Seq<char>) -> Seq<char>
    decreases s.len(),
{
    if s.len() > 0 && is_blank(s.last()) {
        trim_end(s.drop_last())
    } else {
        s
    }
}

/// The text without the blanks at its start and at its end.
pub open spec fn trimmed(s: Seq<char>) -> Seq<char> {
    trim_end(trim_start(s))
}

/// The number of characters before the first `;` of `s`, or the length of
/// `s` where it holds none.
pub open spec fn pair_len(s: Seq<char>) -> nat
    decreases s.len(),
{
    if s.len() == 0 || s[0] == ';' {
        0
    } else {
        1 + pair_len(s.skip(1))
    }
}

/// The cookies that the text of a `Cookie` header names, added to `found`:
/// the text is cut at every `;`, and each piece, without the blanks around
/// it, is read as one cookie. A later cookie takes the place of an earlier
/// one of the same name. The result is `None` where a piece is no cookie.
pub open spec fn cookies_onto(raw: Seq<char>, found: Map<Seq<char>, Seq<char>>) -> Option<
    Map<Seq<char>, Seq<char>>,
>
    decreases raw.len(),
{
    let n = pair_len(raw) as int;
    match parsed_cookie(trimmed(raw.take(n))) {
        None => None,
        Some(pair) => if n >= raw.len() {
            Some(found.insert(pair.0, pair.1))
        } else {
            cookies_onto(raw.skip(n + 1), found.insert(pair.0, pair.1))
        },
    }
}

/// The cookies that a request with these headers carries: those that its
/// first `Cookie` header names. There are none where the request has no
/// such header, where the header is not printable ASCII, and where a piece
/// of the header is no cookie.
pub open spec fn cookies_of(headers: Seq<(Seq<char>, Seq<char>)>) -> Map<Seq<char>, Seq<char>> {
    match first_value(headers, "cookie"@) {
        Some(raw) => if visible_ascii(raw) {
            match cookies_onto(raw, no_cookies()) {
                Some(cookies) => cookies,
                None => no_cookies(),
            }
        } else {
            no_cookies()
        },
        None => no_cookies(),
    }
}

/// What a response asks to be done with a cookie.
pub enum CookieEvent {
    /// Set the cookie.
    Added(Cookie),
    /// Remove the cookie of this name.
    Removed(Cookie),
}

/// The mathematical value of a [`CookieEvent`].
pub enum CookieEventView {
    Added(Seq<char>, Seq<char>),
    Removed(Seq<char>),
}

impl View for CookieEvent {
    type V = CookieEventView;

    open spec fn view(&self) -> CookieEventView {
        match self {
            CookieEvent::Added(cookie) => CookieEventView::Added(cookie.name@, cookie.value@),
            CookieEvent::Removed(cookie) => CookieEventView::Removed(cookie.name@),
        }
    }
}

/// The views of a list of events.
pub open spec fn events_view(events: Seq<CookieEvent>) -> Seq<CookieEventView> {
    events.map_values(|e: CookieEvent| e@)
}

/// The cookies that can be looked up once the events were applied in order
/// to a jar with the given cookies.
pub open spec fn applied(events: Seq<CookieEventView>, cookies: Map<Seq<char>, Seq<char>>) -> Map<
    Seq<char>,
    Seq<char>,
>
    decreases events.len(),
{
    if events.len() == 0 {
        cookies
    } else {
        let before = applied(events.drop_last(), cookies);
        match events.last() {
            CookieEventView::Added(name, value) => before.insert(name, value),
            CookieEventView::Removed(name) => before.remove(name),
        }
    }
}

/// The cookies of one request.
pub struct CookieData {
    pub content: CookieJar,
}

fn blank(c: char) -> (yes: bool)
    ensures
        yes == is_blank(c),
{
    c == ' ' || c == '\t'
}

fn trim_range(chars: &[char], from: usize, to: usize) -> (range: (usize, usize))
    requires
        from <= to <= chars@.len(),
    ensures
        from <= range.0 <= range.1 <= to,
        chars@.subrange(range.0 as int, range.1 as int) == trimmed(
            chars@.subrange(from as int, to as int),
        ),
{
    let ghost piece = chars@.subrange(from as int, to as int);
    let mut a: usize = from;
    while a < to && blank(chars[a])
        invariant
            from <= a <= to <= chars@.len(),
            trim_start(piece) == trim_start(chars@.subrange(a as int, to as int)),
        decreases to - a,
    {
        assert(chars@.subrange(a as int, to as int).skip(1) =~= chars@.subrange(a + 1, to as int));
        a += 1;
    }
    let mut b: usize = to;
    while a < b && blank(chars[b - 1])
        invariant
            a <= b <= to <= chars@.len(),
            trim_start(piece) == chars@.subrange(a as int, to as int),
            trimmed(piece) == trim_end(chars@.subrange(a as int, b as int)),
        decreases b - a,
    {
        assert(chars@.subrange(a as int, b as int).drop_last() =~= chars@.subrange(
            a as int,
            b - 1,
        ));
        b -= 1;
    }
    (a, b)
}

/// The changes of a jar once the events were applied to it in order: a
/// cookie that is set is a change; a removal is a change where the request
/// carried a cookie of that name, and otherwise undoes a change.
pub open spec fn changes_after(
    events: Seq<CookieEventView>,
    carried: Set<Seq<char>>,
    changes: Map<Seq<char>, (Seq<char>, Option<int>)>,
) -> Map<Seq<char>, (Seq<char>, Option<int>)>
    decreases events.len(),
{
    if events.len() == 0 {
        changes
    } else {
        let before = changes_after(events.drop_last(), carried, changes);
        match events.last() {
            CookieEventView::Added(name, value) => before.insert(name, (value, None)),
            CookieEventView::Removed(name) => removal(carried, before, name),
        }
    }
}

/// The response `res` once the given changes were written into it: it asks
/// for nothing more to be done with cookies, and has one `Set-Cookie` header
/// for each change after its own headers.
pub open spec fn finished(res: ResponseView, written: Seq<Change>) -> ResponseView {
    ResponseView {
        headers: res.headers + set_cookie_headers(written),
        cookie_events: Seq::empty(),
        ..res
    }
}

/// The headers that write the given changes, in their order.
pub open spec fn set_cookie_headers(written: Seq<Change>) -> Seq<(Seq<char>, Seq<char>)> {
    written.map_values(|c: Change| ("set-cookie"@, c.text@))
}

/// Where the last thing that a response asks for is the removal of a
/// cookie that the request carried, what is written holds a cookie of that
/// name with an empty value and a maximal age of zero.
pub proof fn lemma_removal_is_written(
    events: Seq<CookieEventView>,
    carried: Set<Seq<char>>,
    changes: Map<Seq<char>, (Seq<char>, Option<int>)>,
    written: Seq<Change>,
    name: Seq<char>,
)
    requires
        events.len() > 0,
        events.last() == CookieEventView::Removed(name),
        carried.contains(name),
        lists(written, changes_after(events, carried, changes)),
    ensures
        exists|i: int|
            0 <= i < written.len() && (#[trigger] written[i]).name@ == name && written[i].value@.len()
                == 0 && age(written[i].max_age) == Some(0int),
{
    let after = changes_after(events, carried, changes);
    assert(after.contains_key(name));
    let i = choose|i: int| 0 <= i < written.len() && (#[trigger] written[i]).name@ == name;
    assert(after[written[i].name@] == (written[i].value@, age(written[i].max_age)));
}

/// Where the last thing that a response asks for is to set a cookie, what
/// is written holds a cookie of that name with that value.
pub proof fn lemma_set_cookie_is_written(
    events: Seq<CookieEventView>,
    carried: Set<Seq<char>>,
    changes: Map<Seq<char>, (Seq<char>, Option<int>)>,
    written: Seq<Change>,
    name: Seq<char>,
    value: Seq<char>,
)
    requires
        events.len() > 0,
        events.last() == CookieEventView::Added(name, value),
        lists(written, changes_after(events, carried, changes)),
    ensures
        exists|i: int|
            0 <= i < written.len() && (#[trigger] written[i]).name@ == name && written[i].value@
                == value && written[i].max_age is None,
{
    let after = changes_after(events, carried, changes);
    assert(after.contains_key(name));
    let i = choose|i: int| 0 <= i < written.len() && (#[trigger] written[i]).name@ == name;
    assert(after[written[i].name@] == (written[i].value@, age(written[i].max_age)));
}

/// Where the jar has one change, one cookie is written: that change.
pub proof fn lemma_one_change_is_written_once(
    written: Seq<Change>,
    name: Seq<char>,
    change: (Seq<char>, Option<int>),
)
    requires
        lists(written, no_changes().insert(name, change)),
    ensures
        written.len() == 1,
        written[0].name@ == name,
        (written[0].value@, age(written[0].max_age)) == change,
{
    let changes = no_changes().insert(name, change);
    assert(changes.contains_key(name));
    let i = choose|i: int| 0 <= i < written.len() && (#[trigger] written[i]).name@ == name;
    if written.len() >= 2 {
        assert(changes.contains_key(written[0].name@));
        assert(changes.contains_key(written[1].name@));
        assert(written[0].name@ != written[1].name@);
    }
    assert(changes[written[0].name@] == (written[0].value@, age(written[0].max_age)));
}

/// Where a response asks for nothing but the removal of a cookie that the
/// request carried, and the jar had no change, one cookie is written: one of
/// that name with an empty value and a maximal age of zero.
pub proof fn lemma_removed_request_cookie(
    carried: Set<Seq<char>>,
    written: Seq<Change>,
    name: Seq<char>,
)
    requires
        carried.contains(name),
        lists(
            written,
            changes_after(seq![CookieEventView::Removed(name)], carried, no_changes()),
        ),
    ensures
        written.len() == 1,
        written[0].name@ == name,
        written[0].value@.len() == 0,
        age(written[0].max_age) == Some(0int),
        set_cookie_headers(written) == seq![("set-cookie"@, written[0].text@)],
{
    let events = seq![CookieEventView::Removed(name)];
    assert(events.drop_last().len() == 0);
    assert(changes_after(events.drop_last(), carried, no_changes()) == no_changes());
    assert(changes_after(events, carried, no_changes()) == no_changes().insert(
        name,
        (Seq::<char>::empty(), Some(0int)),
    ));
    lemma_one_change_is_written_once(written, name, (Seq::<char>::empty(), Some(0int)));
    assert(set_cookie_headers(written) =~= seq![("set-cookie"@, written[0].text@)]);
}

/// Where a response asks for nothing and the jar has no change, nothing is
/// written.
pub proof fn lemma_nothing_is_written(written: Seq<Change>)
    requires
        lists(written, no_changes()),
    ensures
        written.len() == 0,
{
    if written.len() > 0 {
        assert(no_changes().contains_key(written[0].name@));
    }
}

impl CookieData {
    /// The cookies that a request with these headers carries.
    pub fn from_headers(headers: &HeaderMap) -> (data: CookieData)
        ensures
            jar_cookies(data.content) == cookies_of(headers@),
            jar_carried(data.content) == cookies_of(headers@).dom(),
            jar_changes(data.content) == no_changes(),
    {
        let raw = match headers.get("cookie") {
            Some(raw) => raw,
            None => {
                let jar = jar_new();
                assert(jar_carried(jar) =~= jar_cookies(jar).dom());
                return CookieData { content: jar };
            },
        };
        if !is_visible_ascii(raw) {
            let jar = jar_new();
            assert(jar_carried(jar) =~= jar_cookies(jar).dom());
            return CookieData { content: jar };
        }
        let chars = to_chars(raw);
        let n: usize = chars.len();
        let mut jar = jar_new();
        let mut from: usize = 0;
        assert(chars@.skip(0) =~= chars@);
        assert(jar_carried(jar) =~= jar_cookies(jar).dom());
        loop
            invariant_except_break
                cookies_onto(raw@, no_cookies()) == cookies_onto(
                    chars@.skip(from as int),
                    jar_cookies(jar),
                ),
            invariant
                chars@ == raw@,
                visible_ascii(raw@),
                n == chars@.len(),
                from <= n,
                jar_changes(jar) == no_changes(),
                jar_carried(jar) == jar_cookies(jar).dom(),
                cookies_of(headers@) == match cookies_onto(raw@, no_cookies()) {
                    Some(cookies) => cookies,
                    None => no_cookies(),
                },
            ensures
                jar_cookies(jar) == cookies_of(headers@),
                jar_carried(jar) == jar_cookies(jar).dom(),
                jar_changes(jar) == no_changes(),
            decreases n - from,
        {
            let ghost tail = chars@.skip(from as int);
            let mut end: usize = from;
            while end < n && chars[end] != ';'
                invariant
                    from <= end <= n,
                    n == chars@.len(),
                    pair_len(chars@.skip(from as int)) == (end - from) + pair_len(
                        chars@.skip(end as int),
                    ),
                    forall|k: int| from <= k < end ==> chars@[k] != ';',
                decreases n - end,
            {
                assert(chars@.skip(end as int).skip(1) =~= chars@.skip(end + 1));
                end += 1;
            }
            assert(tail.take(end - from) =~= chars@.subrange(from as int, end as int));
            let (a, b) = trim_range(chars.as_slice(), from, end);
            let piece = substring(raw, a, b);
            assert(visible_ascii(piece@)) by {
                assert forall|k: int| 0 <= k < piece@.len() implies crate::text::visible_char(
                    #[trigger] piece@[k],
                ) by {
                    assert(piece@[k] == raw@[a + k]);
                }
            }
            assert(!piece@.contains(';')) by {
                if piece@.contains(';') {
                    let k = choose|k: int| 0 <= k < piece@.len() && piece@[k] == ';';
                    assert(piece@[k] == chars@[a + k]);
                }
            }
            match parse_cookie(piece) {
                Some(pair) => {
                    let ghost held = jar_cookies(jar);
                    jar_add_original(&mut jar, pair.0, pair.1);
                    assert(held.insert(pair.0@, pair.1@).dom() =~= held.dom().insert(pair.0@));
                },
                None => {
                    jar = jar_new();
                    assert(jar_carried(jar) =~= jar_cookies(jar).dom());
                    break;
                },
            }
            if end >= n {
                break;
            }
            assert(tail.skip(end - from + 1) =~= chars@.skip(end + 1));
            from = end + 1;
        }
        CookieData { content: jar }
    }
}

/// A middleware for making cookie data available in requests, and for
/// writing the cookies that responses ask for.
pub struct CookiesMiddleware {}

impl CookiesMiddleware {
    /// Creates a new CookiesMiddleware.
    pub fn new() -> (middleware: CookiesMiddleware) {
        CookiesMiddleware {  }
    }

    /// Before the chain: the cookies of the request are attached to it,
    /// unless middleware before this one has done so. The jar that is
    /// handed back holds the same cookies; it is for `finish`.
    pub fn handle<State>(&self, req: Request<State>) -> (out: (Request<State>, CookieData))
        ensures
            out.0@ == (RequestView {
                cookies: Some(
                    match req@.cookies {
                        Some(cookies) => cookies,
                        None => cookies_of(req@.headers),
                    },
                ),
                ..req@
            }),
            jar_cookies(out.1.content) == out.0@.cookies->0,
            req@.cookies is None ==> jar_changes(out.1.content) == no_changes() && jar_carried(
                out.1.content,
            ) == cookies_of(req@.headers).dom(),
    {
        let mut req = req;
        let copy = match &req.request.extensions.cookies {
            Some(data) => CookieData { content: jar_clone(&data.content) },
            None => {
                let data = CookieData::from_headers(&req.request.headers);
                let copy = CookieData { content: jar_clone(&data.content) };
                req.request.extensions.cookies = Some(data);
                copy
            },
        };
        (req, copy)
    }

    /// Does to the jar what the response asks to be done with cookies, in
    /// the order in which it was asked, and takes the requests out of the
    /// response.
    pub fn apply(&self, data: &mut CookieData, res: Response) -> (out: Response)
        ensures
            jar_cookies(final(data).content) == applied(
                res@.cookie_events,
                jar_cookies(old(data).content),
            ),
            jar_carried(final(data).content) == jar_carried(old(data).content),
            jar_changes(final(data).content) == changes_after(
                res@.cookie_events,
                jar_carried(old(data).content),
                jar_changes(old(data).content),
            ),
            out@ == (ResponseView { cookie_events: Seq::empty(), ..res@ }),
    {
        let mut res = res;
        let mut events: Vec<CookieEvent> = Vec::new();
        std::mem::swap(&mut res.cookie_events, &mut events);
        let ghost all = events_view(events@);
        let ghost start = jar_cookies(data.content);
        let ghost carried = jar_carried(data.content);
        let ghost changes = jar_changes(data.content);
        let count: usize = events.len();
        let mut done: usize = 0;
        while done < count
            invariant
                done <= count,
                count == events@.len(),
                all == events_view(events@),
                jar_cookies(data.content) == applied(all.take(done as int), start),
                jar_carried(data.content) == carried,
                jar_changes(data.content) == changes_after(all.take(done as int), carried, changes),
            decreases count - done,
        {
            assert(all.take(done + 1).drop_last() =~= all.take(done as int));
            assert(all.take(done + 1).last() == events@[done as int]@);
            match &events[done] {
                CookieEvent::Added(cookie) => {
                    jar_add(&mut data.content, cookie);
                },
                CookieEvent::Removed(cookie) => {
                    jar_remove(&mut data.content, cookie.name.as_str());
                },
            }
            done += 1;
        }
        assert(all.take(count as int) =~= all);
        assert(res@.cookie_events =~= Seq::empty());
        res
    }

    /// Writes changes of a jar into a response: one `Set-Cookie` header for
    /// each, in their order, after the headers that the response has.
    pub fn write(&self, written: &Vec<Change>, res: Response) -> (out: Response)
        ensures
            out@ == (ResponseView {
                headers: res@.headers + set_cookie_headers(written@),
                ..res@
            }),
    {
        let mut res = res;
        let ghost before = res@;
        let mut i: usize = 0;
        assert(set_cookie_headers(written@.take(0)) =~= Seq::empty());
        assert(before.headers + Seq::empty() =~= before.headers);
        while i < written.len()
            invariant
                i <= written@.len(),
                res@ == (ResponseView {
                    headers: before.headers + set_cookie_headers(written@.take(i as int)),
                    ..before
                }),
            decreases written@.len() - i,
        {
            res = res.append_header("set-cookie", written[i].text.as_str());
            assert(set_cookie_headers(written@.take(i + 1)) =~= set_cookie_headers(
                written@.take(i as int),
            ).push(("set-cookie"@, written@[i as int].text@)));
            assert(before.headers + set_cookie_headers(written@.take(i + 1)) =~= (before.headers
                + set_cookie_headers(written@.take(i as int))).push(
                ("set-cookie"@, written@[i as int].text@),
            ));
            i += 1;
        }
        assert(written@.take(i as int) =~= written@);
        res
    }

    /// After the chain: what the response asks to be done with cookies is
    /// done to the jar, and each cookie that was changed since the request
    /// came in is written as a `Set-Cookie` header after the headers that
    /// the response has. What is written are the changes of the jar, each
    /// once; their order is not fixed.
    pub fn finish(&self, data: &mut CookieData, res: Response) -> (out: Response)
        ensures
            jar_cookies(final(data).content) == applied(
                res@.cookie_events,
                jar_cookies(old(data).content),
            ),
            jar_carried(final(data).content) == jar_carried(old(data).content),
            jar_changes(final(data).content) == changes_after(
                res@.cookie_events,
                jar_carried(old(data).content),
                jar_changes(old(data).content),
            ),
            exists|written: Seq<Change>|
                lists(written, jar_changes(final(data).content)) && #[trigger] finished(
                    res@,
                    written,
                ) == out@,
    {
        let ghost asked = res@;
        let res = self.apply(data, res);
        let written = jar_delta(&data.content);
        let out = self.write(&written, res);
        assert(finished(asked, written@) == out@);
        out
    }
}

} // verus!
