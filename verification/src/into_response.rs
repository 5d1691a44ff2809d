//! Conversion of handler results into responses.

use crate::request::Request;
use crate::response::{bare, Response, ResponseView, OK};
use vstd::prelude::*;
use vstd::utf8::encode_utf8;

verus! {

/// Conversion into a `Response`.
pub trait IntoResponse: Send + Sized {
    /// Whether the value stands for a response.
    spec fn convertible(&self) -> bool;

    /// The response that the value stands for.
    spec fn response(&self) -> ResponseView;

    /// Whether the value stands for a response, so that `into_response`
    /// can be called on it.
    fn is_response(&self) -> (yes: bool)
        ensures
            yes == self.convertible(),
    ;

    /// Converts the value into a `Response`.
    fn into_response(self) -> (res: Response)
        requires
            self.convertible(),
        ensures
            res@ == self.response(),
    ;

    /// A value that responds as this one does, but with the given status
    /// code.
    fn with_status(self, status: u16) -> (wrapped: WithStatus<Self>)
        ensures
            wrapped.inner == self,
            wrapped.status == status,
    {
        WithStatus { inner: self, status }
    }
}

/// The response that carries `text` as plain text.
pub open spec fn plain_text(text: Seq<char>) -> ResponseView {
    ResponseView {
        headers: seq![("Content-Type"@, "text/plain; charset=utf-8"@)],
        body: encode_utf8(text),
        ..bare(OK)
    }
}

impl IntoResponse for String {
    open spec fn convertible(&self) -> bool {
        true
    }

    open spec fn response(&self) -> ResponseView {
        plain_text(self@)
    }

    fn is_response(&self) -> (yes: bool) {
        true
    }

    fn into_response(self) -> (res: Response) {
        let res = Response::new(OK).set_header(
            "Content-Type",
            "text/plain; charset=utf-8",
        ).body_string(self);
        assert(res@.headers =~= plain_text(self@).headers);
        res
    }
}

impl<State: Send + Sync + 'static> IntoResponse for Request<State> {
    open spec fn convertible(&self) -> bool {
        true
    }

    open spec fn response(&self) -> ResponseView {
        ResponseView { body: self@.body.bytes(), ..bare(OK) }
    }

    fn is_response(&self) -> (yes: bool) {
        true
    }

    fn into_response(self) -> (res: Response) {
        let mut req = self;
        let body = req.body_raw();
        Response::new(OK).body(body.into_bytes())
    }
}

impl IntoResponse for &'_ str {
    open spec fn convertible(&self) -> bool {
        true
    }

    open spec fn response(&self) -> ResponseView {
        plain_text(self@)
    }

    fn is_response(&self) -> (yes: bool) {
        true
    }

    fn into_response(self) -> (res: Response) {
        String::from_str(self).into_response()
    }
}

impl IntoResponse for Response {
    open spec fn convertible(&self) -> bool {
        true
    }

    open spec fn response(&self) -> ResponseView {
        self@
    }

    fn is_response(&self) -> (yes: bool) {
        true
    }

    fn into_response(self) -> (res: Response) {
        self
    }
}

/// A response type that modifies the status code.
pub struct WithStatus<R> {
    pub inner: R,
    pub status: u16,
}

impl<R: IntoResponse> IntoResponse for WithStatus<R> {
    open spec fn convertible(&self) -> bool {
        self.inner.convertible()
    }

    open spec fn response(&self) -> ResponseView {
        ResponseView { status: self.status, ..self.inner.response() }
    }

    fn is_response(&self) -> (yes: bool) {
        self.inner.is_response()
    }

    fn into_response(self) -> (res: Response) {
        self.inner.into_response().set_status(self.status)
    }
}

} // verus!
