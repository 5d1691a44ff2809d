//! Requests: what a handler is given, and the ways of reading it.

use crate::cookies::{jar_cookies, jar_get, Cookie, CookieData};
use crate::error::{Error, IoErrorKind, TransportError};
use crate::response::{bare, ResponseView, BAD_REQUEST};
use crate::headers::{first_value, HeaderMap};
use crate::method::Method;
use crate::params::{params_find, params_map, params_views};
use crate::uri::{Uri, UriView};
use route_recognizer::Params;
use std::sync::Arc;
use vstd::prelude::*;
use vstd::utf8::{encode_utf8, valid_utf8};

verus! {

/// The version of the protocol that a request was made in.
#[derive(Clone, Copy, Debug, PartialEq, Eq, Structural)]
pub enum Version {
    Http09,
    Http10,
    Http11,
    H2,
    H3,
}

/// The body of a request as it came from the transport. It can be taken out
/// once; what is left is an empty body.
pub enum Body {
    /// The bytes that were received.
    Bytes(Vec<u8>),
    /// The transport failed before the body was complete.
    Failed(TransportError),
}

/// The mathematical value of a [`Body`].
pub enum BodyView {
    Bytes(Seq<u8>),
    Failed(Seq<char>),
}

impl BodyView {
    /// The bytes of the body; none where the transport failed.
    pub open spec fn bytes(self) -> Seq<u8> {
        match self {
            BodyView::Bytes(b) => b,
            BodyView::Failed(_) => Seq::empty(),
        }
    }

    /// The body that holds nothing.
    pub open spec fn empty() -> BodyView {
        BodyView::Bytes(Seq::empty())
    }
}

impl View for Body {
    type V = BodyView;

    open spec fn view(&self) -> BodyView {
        match self {
            Body::Bytes(b) => BodyView::Bytes(b@),
            Body::Failed(e) => BodyView::Failed(e.message@),
        }
    }
}

impl Body {
    /// A body without bytes.
    pub fn empty() -> (body: Body)
        ensures
            body@ == BodyView::empty(),
    {
        Body::Bytes(Vec::new())
    }

    /// The bytes of the body; none where the transport failed.
    pub fn into_bytes(self) -> (bytes: Vec<u8>)
        ensures
            bytes@ == self@.bytes(),
    {
        match self {
            Body::Bytes(b) => b,
            Body::Failed(_) => Vec::new(),
        }
    }
}

/// A value that middleware attached to a request for what runs after it.
pub struct Local {
    pub key: String,
    pub value: Vec<u8>,
}

/// What middleware attached to a request: values under keys, and the
/// cookies that the request carries once the cookies middleware has read
/// them.
pub struct Extensions {
    pub locals: Vec<Local>,
    pub cookies: Option<CookieData>,
}

/// A request as the transport delivers it.
pub struct HttpRequest {
    pub method: Method,
    pub uri: Uri,
    pub version: Version,
    pub headers: HeaderMap,
    pub body: Body,
    pub extensions: Extensions,
}

impl HttpRequest {
    /// A request of `method` for `target`, a path with an optional query,
    /// without headers and without a body.
    pub fn new(method: Method, target: &str) -> (req: HttpRequest)
        ensures
            req.method == method,
            req.uri@ == crate::uri::origin_form(target@),
            req.version == Version::Http11,
            req.headers@.len() == 0,
            req.body@ == BodyView::empty(),
            req.extensions.locals@.len() == 0,
            req.extensions.cookies is None,
    {
        HttpRequest {
            method,
            uri: Uri::parse(target),
            version: Version::Http11,
            headers: HeaderMap::new(),
            body: Body::empty(),
            extensions: Extensions { locals: Vec::new(), cookies: None },
        }
    }

    /// The same request with one more header.
    pub fn header(self, name: &str, value: &str) -> (req: HttpRequest)
        ensures
            req.headers@ == self.headers@.push((name@, value@)),
            req.method == self.method,
            req.uri == self.uri,
            req.version == self.version,
            req.body == self.body,
            req.extensions == self.extensions,
    {
        let mut req = self;
        req.headers.append(name, value);
        req
    }

    /// The same request with the given bytes as its body.
    pub fn body(self, bytes: Vec<u8>) -> (req: HttpRequest)
        ensures
            req.body@ == BodyView::Bytes(bytes@),
            req.method == self.method,
            req.uri == self.uri,
            req.version == self.version,
            req.headers == self.headers,
            req.extensions == self.extensions,
    {
        let mut req = self;
        req.body = Body::Bytes(bytes);
        req
    }
}

/// An HTTP request.
///
/// The `Request` gives endpoints access to basic information about the
/// incoming request, route parameters, and various ways of accessing the
/// request's body. Requests also carry *locals*, values that middleware
/// attaches for the endpoints and middleware behind it.
pub struct Request<State> {
    pub state: Arc<State>,
    pub request: HttpRequest,
    pub route_params: Vec<Params>,
}

/// The mathematical value of a [`Request`].
pub struct RequestView<State> {
    pub state: State,
    pub method: Method,
    pub uri: UriView,
    pub version: Version,
    pub headers: Seq<(Seq<char>, Seq<char>)>,
    pub body: BodyView,
    pub locals: Seq<(Seq<char>, Seq<u8>)>,
    pub cookies: Option<Map<Seq<char>, Seq<char>>>,
    pub params: Seq<Map<Seq<char>, Seq<char>>>,
}

/// The values attached to a request, oldest first.
pub open spec fn locals_view(locals: Seq<Local>) -> Seq<(Seq<char>, Seq<u8>)> {
    locals.map_values(|l: Local| (l.key@, l.value@))
}

impl<State> View for Request<State> {
    type V = RequestView<State>;

    open spec fn view(&self) -> RequestView<State> {
        RequestView {
            state: *self.state,
            method: self.request.method,
            uri: self.request.uri@,
            version: self.request.version,
            headers: self.request.headers@,
            body: self.request.body@,
            locals: locals_view(self.request.extensions.locals@),
            cookies: match self.request.extensions.cookies {
                Some(data) => Some(jar_cookies(data.content)),
                None => None,
            },
            params: params_views(self.route_params@),
        }
    }
}

/// The name under which a route registered in prefix mode captures what
/// follows the prefix. Application code must not use it.
pub open spec fn rest_name() -> Seq<char> {
    "--tide-path-rest"@
}

/// The value of the parameter `key`: that of the innermost match that
/// defines it.
pub open spec fn param_value(params: Seq<Map<Seq<char>, Seq<char>>>, key: Seq<char>) -> Option<
    Seq<char>,
>
    decreases params.len(),
{
    if params.len() == 0 {
        None
    } else if params.last().contains_key(key) {
        Some(params.last()[key])
    } else {
        param_value(params.drop_last(), key)
    }
}

/// What the innermost match captured behind a prefix, if it captured
/// anything.
pub open spec fn rest_value(params: Seq<Map<Seq<char>, Seq<char>>>) -> Option<Seq<char>> {
    if params.len() > 0 && params.last().contains_key(rest_name()) {
        Some(params.last()[rest_name()])
    } else {
        None
    }
}

/// The value last attached under `key`.
pub open spec fn local_value(locals: Seq<(Seq<char>, Seq<u8>)>, key: Seq<char>) -> Option<Seq<u8>>
    decreases locals.len(),
{
    if locals.len() == 0 {
        None
    } else if locals.last().0 == key {
        Some(locals.last().1)
    } else {
        local_value(locals.drop_last(), key)
    }
}

/// `String::from_utf8`: trusted to return the string whose UTF-8 encoding
/// the bytes are, and `None` exactly when the bytes are not valid UTF-8.
#[verifier::external_body]
fn string_from_utf8(bytes: Vec<u8>) -> (text: Option<String>)
    ensures
        text is Some <==> valid_utf8(bytes@),
        text is Some ==> encode_utf8(text->0@) == bytes@,
{
    String::from_utf8(bytes).ok()
}

/// `serde_json::from_slice`: decodes a value from JSON text. Nothing is
/// claimed of what it returns.
#[verifier::external_body]
fn json_from_slice<T: serde::de::DeserializeOwned>(bytes: &[u8]) -> (decoded: Result<T, String>) {
    serde_json::from_slice(bytes).map_err(|e| format!("{}", e))
}

/// `serde_qs::from_str`: decodes a value from a query string; the error is
/// handed on as its description. Nothing is claimed of what it returns.
#[verifier::external_body]
fn qs_from_str<T: serde::de::DeserializeOwned>(query: &str) -> (decoded: Result<T, String>) {
    serde_qs::from_str(query).map_err(|e| format!("{}", e))
}

/// `serde_qs::from_bytes`: decodes a value from a form body; the error is
/// handed on as its description. Nothing is claimed of what it returns.
#[verifier::external_body]
fn qs_from_bytes<T: serde::de::DeserializeOwned>(body: &[u8]) -> (decoded: Result<T, String>) {
    serde_qs::from_bytes(body).map_err(|e| format!("{}", e))
}

/// Whether `value` is what a handler is given for a query that was decoded
/// with the result `decoded`: the decoded value itself, or, where the query
/// did not decode, the response with status 400 whose body is the
/// description of the failure.
pub open spec fn query_outcome<T>(decoded: Result<T, String>, value: Result<T, Error>) -> bool {
    match decoded {
        Ok(v) => value == Ok::<T, Error>(v),
        Err(description) => {
            &&& value is Err
            &&& value->Err_0 is Response
            &&& value->Err_0->Response_0@ == (ResponseView {
                body: encode_utf8(description@),
                ..bare(BAD_REQUEST)
            })
        },
    }
}

/// Turns the result of decoding a query into what the handler is given.
pub fn decoded_query<T>(decoded: Result<T, String>) -> (value: Result<T, Error>)
    ensures
        query_outcome(decoded, value),
{
    match decoded {
        Ok(value) => Ok(value),
        Err(description) => Err(Error::bad_request(description)),
    }
}

impl<State> Request<State> {
    /// A request for handlers, made of the shared state of the application,
    /// the request that came in and the parameters of the routes that
    /// matched so far, outermost first.
    pub fn new(state: Arc<State>, request: HttpRequest, route_params: Vec<Params>) -> (req:
        Request<State>)
        ensures
            req.state == state,
            req.request == request,
            req.route_params == route_params,
    {
        Request { state, request, route_params }
    }

    /// Access the request's HTTP method.
    pub fn method(&self) -> (method: &Method)
        ensures
            *method == self@.method,
    {
        &self.request.method
    }

    /// Access the request's full URI.
    pub fn uri(&self) -> (uri: &Uri)
        ensures
            uri@ == self@.uri,
    {
        &self.request.uri
    }

    /// Access the request's HTTP version.
    pub fn version(&self) -> (version: Version)
        ensures
            version == self@.version,
    {
        self.request.version
    }

    /// Access the request's headers.
    pub fn headers(&self) -> (headers: &HeaderMap)
        ensures
            headers@ == self@.headers,
    {
        &self.request.headers
    }

    /// Get an HTTP header: the value of the first header called `key`.
    pub fn header(&self, key: &str) -> (value: Option<&str>)
        ensures
            value is Some == first_value(self@.headers, key@) is Some,
            value is Some ==> value->0@ == first_value(self@.headers, key@)->0,
    {
        self.request.headers.get(key)
    }

    /// Get a local value: the one last set under `key`.
    pub fn local(&self, key: &str) -> (value: Option<&Vec<u8>>)
        ensures
            value is Some == local_value(self@.locals, key@) is Some,
            value is Some ==> value->0@ == local_value(self@.locals, key@)->0,
    {
        let ghost all = self@.locals;
        let mut i: usize = self.request.extensions.locals.len();
        assert(all.take(i as int) =~= all);
        while i > 0
            invariant
                i <= self.request.extensions.locals@.len(),
                all == self@.locals,
                local_value(all, key@) == local_value(all.take(i as int), key@),
            decreases i,
        {
            i -= 1;
            assert(all.take(i + 1).last() == all[i as int]);
            assert(all.take(i + 1).drop_last() =~= all.take(i as int));
            let slot = &self.request.extensions.locals[i];
            if crate::text::str_equal(slot.key.as_str(), key) {
                assert(all[i as int].0 == key@);
                return Some(&slot.value);
            }
        }
        None
    }

    /// Set a local value. It takes the place of a value set under the same
    /// key before.
    pub fn set_local(self, key: &str, val: Vec<u8>) -> (req: Request<State>)
        ensures
            req@ == (RequestView { locals: self@.locals.push((key@, val@)), ..self@ }),
    {
        let mut req = self;
        req.request.extensions.locals.push(Local { key: String::from_str(key), value: val });
        assert(req@.locals =~= self@.locals.push((key@, val@)));
        req
    }

    /// The cookies that the request carries, as the cookies middleware
    /// attached them.
    pub fn with_cookies(self, cookies: CookieData) -> (req: Request<State>)
        ensures
            req@ == (RequestView { cookies: Some(jar_cookies(cookies.content)), ..self@ }),
    {
        let mut req = self;
        req.request.extensions.cookies = Some(cookies);
        req
    }

    /// Looks a cookie up by name, where the cookies middleware has run:
    /// the result is `None` where it has not, or where the request carries
    /// no cookie of that name.
    pub fn find_cookie(&self, name: &str) -> (cookie: Option<Cookie>)
        ensures
            cookie is Some == (self@.cookies is Some && self@.cookies->0.contains_key(name@)),
            cookie is Some ==> cookie->0.name@ == name@ && cookie->0.value@
                == self@.cookies->0[name@],
    {
        match &self.request.extensions.cookies {
            Some(data) => jar_get(&data.content, name),
            None => None,
        }
    }

    /// returns a `Cookie` by name of the cookie.
    ///
    /// The cookies middleware must have run on the request before.
    pub fn cookie(&self, name: &str) -> (cookie: Option<Cookie>)
        requires
            self.request.extensions.cookies is Some,
        ensures
            cookie is Some == self@.cookies->0.contains_key(name@),
            cookie is Some ==> cookie->0.name@ == name@ && cookie->0.value@
                == self@.cookies->0[name@],
    {
        self.find_cookie(name)
    }

    /// Access app-global state.
    pub fn state(&self) -> (state: &State)
        ensures
            *state == self@.state,
    {
        &self.state
    }

    /// Looks a route parameter up by name: the value that the innermost
    /// match gave it, or `None` where no pattern on the way to the handler
    /// has a capture of that name.
    ///
    /// The name should *not* include the leading `:` or `*`.
    pub fn find_param(&self, key: &str) -> (value: Option<&str>)
        ensures
            value is Some == param_value(self@.params, key@) is Some,
            value is Some ==> value->0@ == param_value(self@.params, key@)->0,
    {
        let ghost all = self@.params;
        let mut i: usize = self.route_params.len();
        assert(all.take(i as int) =~= all);
        while i > 0
            invariant
                i <= self.route_params@.len(),
                all == self@.params,
                param_value(all, key@) == param_value(all.take(i as int), key@),
            decreases i,
        {
            i -= 1;
            assert(all.take(i + 1).last() == all[i as int]);
            assert(all.take(i + 1).drop_last() =~= all.take(i as int));
            assert(all[i as int] == params_map(self.route_params@[i as int]));
            match params_find(&self.route_params[i], key) {
                Some(value) => {
                    return Some(value);
                },
                None => {},
            }
        }
        None
    }

    /// Extract a route parameter by name.
    ///
    /// The name must be that of a capture in the pattern of the route that
    /// the handler was registered for.
    pub fn param(&self, key: &str) -> (value: &str)
        requires
            param_value(self@.params, key@) is Some,
        ensures
            value@ == param_value(self@.params, key@)->0,
    {
        match self.find_param(key) {
            Some(value) => value,
            None => {
                proof {
                    assert(false);
                }
                ""
            },
        }
    }

    /// What the innermost match captured behind a prefix, if anything.
    pub fn rest(&self) -> (rest: Option<&str>)
        ensures
            rest is Some == rest_value(self@.params) is Some,
            rest is Some ==> rest->0@ == rest_value(self@.params)->0,
    {
        let n: usize = self.route_params.len();
        if n == 0 {
            return None;
        }
        assert(self@.params.last() == params_map(self.route_params@[n - 1]));
        params_find(&self.route_params[n - 1], "--tide-path-rest")
    }

    /// Takes the body out of the request, which is left with an empty one.
    pub fn body_raw(&mut self) -> (body: Body)
        ensures
            body@ == old(self)@.body,
            final(self)@ == (RequestView { body: BodyView::empty(), ..old(self)@ }),
    {
        let mut body = Body::empty();
        std::mem::swap(&mut self.request.body, &mut body);
        body
    }

    /// Reads the entire request body into a byte buffer.
    ///
    /// This method can be called after the body has already been read, but
    /// will produce an empty buffer.
    ///
    /// # Errors
    ///
    /// A failure of the transport is returned as the error.
    pub fn body_bytes(&mut self) -> (bytes: Result<Vec<u8>, Error>)
        ensures
            final(self)@ == (RequestView { body: BodyView::empty(), ..old(self)@ }),
            match old(self)@.body {
                BodyView::Bytes(b) => bytes is Ok && bytes->Ok_0@ == b,
                BodyView::Failed(m) => bytes is Err && bytes->Err_0 is Hyper
                    && bytes->Err_0->Hyper_0.message@ == m,
            },
    {
        match self.body_raw() {
            Body::Bytes(b) => Ok(b),
            Body::Failed(e) => Err(Error::Hyper(e)),
        }
    }

    /// Reads the entire request body into a string.
    ///
    /// # Errors
    ///
    /// A failure of the transport is returned as the error. If the body is
    /// not valid UTF-8, the error is one of invalid data.
    pub fn body_string(&mut self) -> (text: Result<String, Error>)
        ensures
            final(self)@ == (RequestView { body: BodyView::empty(), ..old(self)@ }),
            match old(self)@.body {
                BodyView::Bytes(b) => if valid_utf8(b) {
                    text is Ok && encode_utf8(text->Ok_0@) == b
                } else {
                    text is Err && text->Err_0 is IO && text->Err_0->IO_0.kind
                        == IoErrorKind::InvalidData
                },
                BodyView::Failed(m) => text is Err && text->Err_0 is Hyper
                    && text->Err_0->Hyper_0.message@ == m,
            },
    {
        match self.body_bytes() {
            Ok(bytes) => match string_from_utf8(bytes) {
                Some(text) => Ok(text),
                None => Err(Error::invalid_data()),
            },
            Err(e) => Err(e),
        }
    }

    /// Reads the entire request body and decodes it as JSON.
    ///
    /// # Errors
    ///
    /// A failure of the transport is returned as the error. If the body is
    /// not JSON for a value of the type `T`, the error is one of invalid
    /// data.
    pub fn body_json<T: serde::de::DeserializeOwned>(&mut self) -> (value: Result<T, Error>)
        ensures
            final(self)@ == (RequestView { body: BodyView::empty(), ..old(self)@ }),
            match old(self)@.body {
                BodyView::Bytes(_) => value is Err ==> value->Err_0 is IO
                    && value->Err_0->IO_0.kind == IoErrorKind::InvalidData,
                BodyView::Failed(m) => value is Err && value->Err_0 is Hyper
                    && value->Err_0->Hyper_0.message@ == m,
            },
    {
        match self.body_bytes() {
            Ok(bytes) => match json_from_slice(bytes.as_slice()) {
                Ok(value) => Ok(value),
                Err(_) => Err(Error::invalid_data()),
            },
            Err(e) => Err(e),
        }
    }

    /// The text of the query, empty where the request has none.
    pub fn query_text(&self) -> (query: &str)
        ensures
            query@ == match self@.uri.query {
                Some(q) => q,
                None => Seq::empty(),
            },
    {
        match self.request.uri.query() {
            Some(q) => q,
            None => {
                let empty = "";
                proof {
                    reveal_strlit("");
                }
                assert(empty@ =~= Seq::empty());
                empty
            },
        }
    }

    /// Decodes the query string of the URL. A request without a query is
    /// decoded as one with an empty query, so that a type whose fields are
    /// all optional is decoded from it.
    ///
    /// # Errors
    ///
    /// If the query does not decode, the error is a response with status 400
    /// whose body describes the failure.
    pub fn query<T: serde::de::DeserializeOwned>(&self) -> (value: Result<T, Error>)
        ensures
            value is Err ==> Error::is_bad_request(value->Err_0),
            exists|decoded: Result<T, String>| query_outcome(decoded, value),
    {
        let decoded = qs_from_str(self.query_text());
        let value = decoded_query(decoded);
        assert(query_outcome(decoded, value));
        value
    }

    /// Reads the request body and decodes it as a form.
    ///
    /// # Errors
    ///
    /// A failure of the transport is returned as the error. If the body
    /// does not decode, the error says so and describes the failure.
    pub fn body_form<T: serde::de::DeserializeOwned>(&mut self) -> (value: Result<T, Error>)
        ensures
            final(self)@ == (RequestView { body: BodyView::empty(), ..old(self)@ }),
            match old(self)@.body {
                BodyView::Bytes(_) => value is Err ==> Error::is_form_error(value->Err_0),
                BodyView::Failed(m) => value is Err && value->Err_0 is Hyper
                    && value->Err_0->Hyper_0.message@ == m,
            },
    {
        match self.body_bytes() {
            Ok(bytes) => match qs_from_bytes(bytes.as_slice()) {
                Ok(value) => Ok(value),
                Err(description) => Err(Error::form(description)),
            },
            Err(e) => Err(e),
        }
    }
}

} // verus!
