//! The error that every stage of a chain reports.
//!
//! An [`Error`] carries the message of the failure that caused it and,
//! optionally, the HTTP status code that classifies it. A new error is
//! unclassified; [`Error::with_status`] classifies it.

use hyper::StatusCode;
use vstd::prelude::*;

verus! {

/// What an [`Error`] stands for: the text of its cause and its classification.
pub struct ErrorView {
    pub message: Seq<char>,
    pub status: Option<StatusCode>,
}

/// Represents an HTTP error.
#[derive(Debug)]
pub struct Error {
    source: String,
    status: Option<StatusCode>,
}

impl View for Error {
    type V = ErrorView;

    closed spec fn view(&self) -> ErrorView {
        ErrorView { message: self.source@, status: self.status }
    }
}

impl Error {
    /// Returns the underlying cause, consuming the error.
    pub fn source(self) -> (cause: String)
        ensures
            cause@ == self@.message,
    {
        self.source
    }

    /// Returns the HTTP status code associated with the error, if there is one.
    pub fn status(&self) -> (status: Option<StatusCode>)
        ensures
            status == self@.status,
    {
        self.status
    }

    /// Adds or replaces the HTTP status code, and leaves the cause as it is.
    pub fn with_status(self, status: StatusCode) -> (classified: Self)
        ensures
            classified@ == (ErrorView { message: self@.message, status: Some(status) }),
    {
        Error { source: self.source, status: Some(status) }
    }

    /// Renders the error: the message of its cause.
    pub fn to_string(&self) -> (text: String)
        ensures
            text@ == self@.message,
    {
        self.source.clone()
    }
}

impl vstd::std_specs::convert::FromSpecImpl<&str> for Error {
    /// `from` is specified by its own postcondition, over the view.
    open spec fn obeys_from_spec() -> bool {
        false
    }

    open spec fn from_spec(source: &str) -> Error {
        arbitrary()
    }
}

impl From<&str> for Error {
    /// Makes an unclassified error whose cause is the given message.
    fn from(source: &str) -> (error: Self)
        ensures
            error@ == (ErrorView { message: source@, status: None }),
    {
        Error { source: source.to_owned(), status: None }
    }
}

} // verus!
