//! Responses: a status code, headers, a body and, for failures, what caused
//! them.

use crate::cookies::{events_view, Cookie, CookieEvent, CookieEventView};
use crate::headers::{first_value, without, HeaderMap};
use crate::uri::text_of;
use vstd::prelude::*;
use vstd::utf8::encode_utf8;

verus! {

/// The status of a request that was answered.
pub const OK: u16 = 200;

/// The status of a request that the server could not understand.
pub const BAD_REQUEST: u16 = 400;

/// The status of a request that lacks the right to be answered.
pub const UNAUTHORIZED: u16 = 401;

/// The status of a request for which no route is registered.
pub const NOT_FOUND: u16 = 404;

/// The status of a request on which the server failed.
pub const INTERNAL_SERVER_ERROR: u16 = 500;

/// An HTTP response.
pub struct Response {
    pub status: u16,
    pub headers: HeaderMap,
    pub body: Vec<u8>,
    pub cause: Option<String>,
    pub cookie_events: Vec<CookieEvent>,
}

/// The mathematical value of a [`Response`].
pub struct ResponseView {
    pub status: u16,
    pub headers: Seq<(Seq<char>, Seq<char>)>,
    pub body: Seq<u8>,
    pub cause: Option<Seq<char>>,
    pub cookie_events: Seq<CookieEventView>,
}

impl View for Response {
    type V = ResponseView;

    open spec fn view(&self) -> ResponseView {
        ResponseView {
            status: self.status,
            headers: self.headers@,
            body: self.body@,
            cause: text_of(self.cause),
            cookie_events: events_view(self.cookie_events@),
        }
    }
}

/// The response that has a status and nothing else.
pub open spec fn bare(status: u16) -> ResponseView {
    ResponseView {
        status,
        headers: Seq::empty(),
        body: Seq::empty(),
        cause: None,
        cookie_events: Seq::empty(),
    }
}

impl Response {
    /// A response with the given status, without headers and without a body.
    pub fn new(status: u16) -> (res: Response)
        ensures
            res@ == bare(status),
    {
        let res = Response {
            status,
            headers: HeaderMap::new(),
            body: Vec::new(),
            cause: None,
            cookie_events: Vec::new(),
        };
        assert(res@.cookie_events =~= Seq::empty());
        res
    }

    /// The status code.
    pub fn status(&self) -> (status: u16)
        ensures
            status == self@.status,
    {
        self.status
    }

    /// The same response with another status.
    pub fn set_status(self, status: u16) -> (res: Response)
        ensures
            res@ == (ResponseView { status, ..self@ }),
    {
        let mut res = self;
        res.status = status;
        res
    }

    /// The headers.
    pub fn headers(&self) -> (headers: &HeaderMap)
        ensures
            headers@ == self@.headers,
    {
        &self.headers
    }

    /// The value of the first header called `name`.
    pub fn header(&self, name: &str) -> (value: Option<&str>)
        ensures
            value is Some == first_value(self@.headers, name@) is Some,
            value is Some ==> value->0@ == first_value(self@.headers, name@)->0,
    {
        self.headers.get(name)
    }

    /// The same response with the header `key` set to `value`: headers of
    /// that name which it held are replaced.
    pub fn set_header(self, key: &str, value: &str) -> (res: Response)
        ensures
            res@ == (ResponseView {
                headers: without(self@.headers, key@).push((key@, value@)),
                ..self@
            }),
    {
        let mut res = self;
        res.headers.insert(key, value);
        res
    }

    /// The same response with one more header after those it held.
    pub fn append_header(self, key: &str, value: &str) -> (res: Response)
        ensures
            res@ == (ResponseView { headers: self@.headers.push((key@, value@)), ..self@ }),
    {
        let mut res = self;
        res.headers.append(key, value);
        res
    }

    /// The same response with the given bytes as its body.
    pub fn body(self, body: Vec<u8>) -> (res: Response)
        ensures
            res@ == (ResponseView { body: body@, ..self@ }),
    {
        let mut res = self;
        res.body = body;
        res
    }

    /// The same response with the UTF-8 bytes of `string` as its body.
    pub fn body_string(self, string: String) -> (res: Response)
        ensures
            res@ == (ResponseView { body: encode_utf8(string@), ..self@ }),
    {
        let mut res = self;
        res.body = string.as_str().as_bytes_vec();
        res
    }

    /// Takes the body out of the response, which is left with an empty one.
    pub fn take_body(&mut self) -> (body: Vec<u8>)
        ensures
            body@ == old(self)@.body,
            final(self)@ == (ResponseView { body: Seq::empty(), ..old(self)@ }),
    {
        let mut body: Vec<u8> = Vec::new();
        std::mem::swap(&mut self.body, &mut body);
        body
    }

    /// Asks for `cookie` to be set at the client. The cookies middleware
    /// turns what was asked for into `Set-Cookie` headers.
    pub fn set_cookie(&mut self, cookie: Cookie)
        ensures
            final(self)@ == (ResponseView {
                cookie_events: old(self)@.cookie_events.push(
                    CookieEventView::Added(cookie.name@, cookie.value@),
                ),
                ..old(self)@
            }),
    {
        self.cookie_events.push(CookieEvent::Added(cookie));
        assert(self@.cookie_events =~= old(self)@.cookie_events.push(
            CookieEventView::Added(cookie.name@, cookie.value@),
        ));
    }

    /// Asks for the cookie of that name to be removed at the client.
    pub fn remove_cookie(&mut self, cookie: Cookie)
        ensures
            final(self)@ == (ResponseView {
                cookie_events: old(self)@.cookie_events.push(CookieEventView::Removed(cookie.name@)),
                ..old(self)@
            }),
    {
        self.cookie_events.push(CookieEvent::Removed(cookie));
        assert(self@.cookie_events =~= old(self)@.cookie_events.push(
            CookieEventView::Removed(cookie.name@),
        ));
    }

    /// What caused the failure that this response reports, if it was
    /// recorded.
    pub fn cause(&self) -> (cause: Option<&str>)
        ensures
            cause is Some == self@.cause is Some,
            cause is Some ==> cause->0@ == self@.cause->0,
    {
        match &self.cause {
            Some(text) => Some(text.as_str()),
            None => None,
        }
    }

    /// The same response with a record of what caused it.
    pub fn with_cause(self, cause: String) -> (res: Response)
        ensures
            res@ == (ResponseView { cause: Some(cause@), ..self@ }),
    {
        let mut res = self;
        res.cause = Some(cause);
        res
    }
}

} // verus!
