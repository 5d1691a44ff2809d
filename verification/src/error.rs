//! Errors: what a handler can fail with, and helpers that turn a failure
//! into a response with an error status.
//!
//! The framework has no error state of its own: a failure that is to reach
//! the client is a response with a status of the 4xx or 5xx class, which may
//! carry a record of its cause.

use crate::into_response::IntoResponse;
use crate::response::{bare, Response, ResponseView, BAD_REQUEST, INTERNAL_SERVER_ERROR};
use vstd::prelude::*;
use vstd::std_specs::convert::FromSpecImpl;

verus! {

/// A failure of the transport below the framework: a body that broke off, a
/// peer that went away.
pub struct TransportError {
    pub message: String,
}

/// The kinds of failure in reading a request.
#[derive(Clone, Copy, Debug, PartialEq, Eq, Structural)]
pub enum IoErrorKind {
    /// The data read is not what was asked for: not UTF-8, not JSON.
    InvalidData,
    /// Any other failure.
    Other,
}

/// A failure in reading a request.
pub struct IoError {
    pub kind: IoErrorKind,
    pub message: String,
}

/// A generic error.
pub enum Error {
    /// The transport failed.
    Hyper(TransportError),
    /// The failure is a response to send.
    Response(Response),
    /// The request could not be read.
    IO(IoError),
}

impl From<TransportError> for Error {
    fn from(e: TransportError) -> (err: Error) {
        Error::Hyper(e)
    }
}

impl FromSpecImpl<TransportError> for Error {
    open spec fn obeys_from_spec() -> bool {
        true
    }

    open spec fn from_spec(e: TransportError) -> Error {
        Error::Hyper(e)
    }
}

impl From<Response> for Error {
    fn from(r: Response) -> (err: Error) {
        Error::Response(r)
    }
}

impl FromSpecImpl<Response> for Error {
    open spec fn obeys_from_spec() -> bool {
        true
    }

    open spec fn from_spec(r: Response) -> Error {
        Error::Response(r)
    }
}

impl From<IoError> for Error {
    fn from(e: IoError) -> (err: Error) {
        Error::IO(e)
    }
}

impl FromSpecImpl<IoError> for Error {
    open spec fn obeys_from_spec() -> bool {
        true
    }

    open spec fn from_spec(e: IoError) -> Error {
        Error::IO(e)
    }
}

impl From<u16> for Error {
    /// The error that is a bare response with the given status.
    fn from(status: u16) -> (err: Error)
        ensures
            err is Response,
            err->Response_0@ == bare(status),
    {
        Error::Response(Response::new(status))
    }
}

impl FromSpecImpl<u16> for Error {
    open spec fn obeys_from_spec() -> bool {
        false
    }

    open spec fn from_spec(status: u16) -> Error {
        arbitrary()
    }
}

impl Error {
    /// The error for a request that could not be decoded: a response with
    /// status 400 whose body is the description of the failure.
    pub fn bad_request(description: String) -> (err: Error)
        ensures
            err is Response,
            err->Response_0@ == (ResponseView {
                body: vstd::utf8::encode_utf8(description@),
                ..bare(BAD_REQUEST)
            }),
    {
        Error::Response(Response::new(BAD_REQUEST).body_string(description))
    }

    /// Whether the error is a response with status 400 that has a body and
    /// nothing else.
    pub open spec fn is_bad_request(err: Error) -> bool {
        &&& err is Response
        &&& err->Response_0@ == (ResponseView {
            body: err->Response_0@.body,
            ..bare(BAD_REQUEST)
        })
    }

    /// Whether the error reports a form that did not decode.
    pub open spec fn is_form_error(err: Error) -> bool {
        &&& err is IO
        &&& err->IO_0.kind == IoErrorKind::Other
        &&& "could not decode form: "@.is_prefix_of(err->IO_0.message@)
    }

    /// The error for a form that did not decode, with the description of
    /// the failure.
    pub fn form(description: String) -> (err: Error)
        ensures
            err is IO,
            err->IO_0.kind == IoErrorKind::Other,
            err->IO_0.message@ == "could not decode form: "@ + description@,
    {
        let message = String::from_str("could not decode form: ").concat(description.as_str());
        Error::IO(IoError { kind: IoErrorKind::Other, message })
    }

    /// The error for data that is not what was asked for.
    pub fn invalid_data() -> (err: Error)
        ensures
            err is IO,
            err->IO_0.kind == IoErrorKind::InvalidData,
            err->IO_0.message@.len() == 0,
    {
        Error::IO(IoError { kind: IoErrorKind::InvalidData, message: String::new() })
    }
}

impl IntoResponse for Error {
    open spec fn convertible(&self) -> bool {
        self is Response
    }

    open spec fn response(&self) -> ResponseView {
        self->Response_0@
    }

    fn is_response(&self) -> (yes: bool) {
        match self {
            Error::Response(_) => true,
            _ => false,
        }
    }

    fn into_response(self) -> (res: Response) {
        match self {
            Error::Response(r) => r,
            _ => {
                proof {
                    assert(false);
                }
                Response::new(INTERNAL_SERVER_ERROR)
            },
        }
    }
}

/// A simple error type that wraps a string.
pub struct StringError(pub String);

impl StringError {
    /// The text of the error.
    pub fn message(&self) -> (text: String)
        ensures
            text@ == self.0@,
    {
        self.0.clone()
    }
}

/// The response that reports a failure with `status` and records `cause`.
pub open spec fn failure(status: u16, cause: Seq<char>) -> ResponseView {
    ResponseView { cause: Some(cause), ..bare(status) }
}

/// Extension methods for `Result`.
pub trait ResultExt<T>: Sized {
    /// What `with_err_status` makes of this result.
    spec fn outcome(self, status: u16, res: Result<T, Error>) -> bool;

    /// Converts to a result of the framework, treating the `Err` case as a
    /// client error (status 400).
    fn client_err(self) -> (res: Result<T, Error>)
        ensures
            self.outcome(BAD_REQUEST, res),
    {
        self.with_err_status(BAD_REQUEST)
    }

    /// Converts to a result of the framework, treating the `Err` case as a
    /// server error (status 500).
    fn server_err(self) -> (res: Result<T, Error>)
        ensures
            self.outcome(INTERNAL_SERVER_ERROR, res),
    {
        self.with_err_status(INTERNAL_SERVER_ERROR)
    }

    /// Converts to a result of the framework, wrapping the `Err` case in a
    /// response with the given status.
    fn with_err_status(self, status: u16) -> (res: Result<T, Error>)
        ensures
            self.outcome(status, res),
    ;
}

impl<T> ResultExt<T> for Result<T, StringError> {
    open spec fn outcome(self, status: u16, res: Result<T, Error>) -> bool {
        match self {
            Ok(value) => res == Ok::<T, Error>(value),
            Err(e) => res is Err && res->Err_0 is Response && res->Err_0->Response_0@ == failure(
                status,
                e.0@,
            ),
        }
    }

    fn with_err_status(self, status: u16) -> (res: Result<T, Error>) {
        match self {
            Ok(value) => Ok(value),
            Err(e) => Err(Error::Response(Response::new(status).with_cause(e.0))),
        }
    }
}

} // verus!
