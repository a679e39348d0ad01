//! Errors reported by the library.
use crate::text::push_str;
use vstd::prelude::*;

verus! {

/// The type of an error.
#[derive(Debug, Clone, Copy, PartialEq, Eq, Structural)]
pub enum ErrorKind {
    /// The server is not running
    ServerFailure,
    /// The server is busy
    ServerBusy,
    /// A lock can't be bypassed
    Deadlock,
    /// Could not deliver a response
    ResponseFailure,
    /// The status code is invalid or out of range
    InvalidStatusCode,
    /// Failed to read the request body
    RequestBodyFailure,
    /// Failed to write the response body
    ResponseBodyFailure,
    /// File not found
    FileNotFound,
}

impl ErrorKind {
    /// The human-readable description of each kind of error.
    pub open spec fn spec_description(self) -> Seq<char> {
        match self {
            ErrorKind::ServerFailure => "the server is not running"@,
            ErrorKind::ServerBusy => "the server is busy"@,
            ErrorKind::Deadlock => "a lock can't be bypassed"@,
            ErrorKind::ResponseFailure => "could not deliver a response"@,
            ErrorKind::InvalidStatusCode => "invalid status code"@,
            ErrorKind::RequestBodyFailure => "failed to read the request body"@,
            ErrorKind::ResponseBodyFailure => "failed to write the response body"@,
            ErrorKind::FileNotFound => "file not found"@,
        }
    }

    /// The human-readable description of the error kind.
    pub fn description(&self) -> (r: &'static str)
        ensures
            r@ == self.spec_description(),
    {
        match self {
            ErrorKind::ServerFailure => "the server is not running",
            ErrorKind::ServerBusy => "the server is busy",
            ErrorKind::Deadlock => "a lock can't be bypassed",
            ErrorKind::ResponseFailure => "could not deliver a response",
            ErrorKind::InvalidStatusCode => "invalid status code",
            ErrorKind::RequestBodyFailure => "failed to read the request body",
            ErrorKind::ResponseBodyFailure => "failed to write the response body",
            ErrorKind::FileNotFound => "file not found",
        }
    }
}

/// Contains information about an error occurrence.
#[derive(Debug)]
pub struct Error {
    /// The type of this error
    pub kind: ErrorKind,
    /// Some errors come with more context
    pub context: Option<String>,
}

impl Error {
    /// An error of the given kind, without context.
    pub fn new(kind: ErrorKind) -> (r: Error)
        ensures
            r.kind == kind,
            r.context is None,
    {
        Error { kind, context: None }
    }

    /// An error of the given kind, with the rendering of its context.
    pub fn new_with_context(kind: ErrorKind, context: &str) -> (r: Error)
        ensures
            r.kind == kind,
            r.context matches Some(c) && c@ == context@,
    {
        Error { kind, context: Some(String::from_str(context)) }
    }

    /// The message of the error: its description followed by its context,
    /// or by `none` where it has no context.
    pub open spec fn spec_message(self) -> Seq<char> {
        self.kind.spec_description() + " (context: "@ + (match self.context {
            Some(c) => c@,
            None => "none"@,
        }) + ")"@
    }

    /// The message of the error (see `spec_message`).
    pub fn to_string(&self) -> (r: String)
        ensures
            r@ == self.spec_message(),
    {
        let mut s = String::new();
        push_str(&mut s, self.kind.description());
        push_str(&mut s, " (context: ");
        match &self.context {
            Some(c) => push_str(&mut s, c.as_str()),
            None => push_str(&mut s, "none"),
        }
        push_str(&mut s, ")");
        proof {
            assert(s@ =~= self.spec_message());
        }
        s
    }
}

} // verus!
