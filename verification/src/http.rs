//! The hyper types that travel through the chain, and the few hyper calls the
//! library makes on them.
//!
//! Requests, responses and bodies are opaque here: the chain hands them from
//! stage to stage and never looks inside.

use hyper::{Body, Request, Response, StatusCode};
use vstd::prelude::*;

verus! {

/// `hyper::Body`, the body of a request or a response: a stream, opaque here.
#[verifier::external_type_specification]
#[verifier::external_body]
pub struct ExBody(hyper::Body);

/// `hyper::Request`, opaque here.
#[verifier::external_type_specification]
#[verifier::external_body]
#[verifier::reject_recursive_types(T)]
pub struct ExRequest<T>(hyper::Request<T>);

/// `hyper::Response`, opaque here but for its status.
#[verifier::external_type_specification]
#[verifier::external_body]
#[verifier::reject_recursive_types(T)]
pub struct ExResponse<T>(hyper::Response<T>);

/// `hyper::StatusCode`, opaque here but for its number.
#[verifier::external_type_specification]
#[verifier::external_body]
pub struct ExStatusCode(hyper::StatusCode);

/// The number of a status code, as `hyper::StatusCode::as_u16` reports it.
pub uninterp spec fn status_value(status: StatusCode) -> u16;

/// The status of a response, as `hyper::Response::status` reports it.
pub uninterp spec fn response_status(response: Response<Body>) -> StatusCode;

/// `hyper::StatusCode::INTERNAL_SERVER_ERROR`, the status code numbered 500.
#[verifier::external_body]
pub(crate) fn internal_server_error() -> (status: StatusCode)
    ensures
        status_value(status) == 500,
{
    StatusCode::INTERNAL_SERVER_ERROR
}

/// An empty body, made with `hyper::Body::empty`.
#[verifier::external_body]
pub(crate) fn empty_body() -> Body {
    Body::empty()
}

/// A response around `body`, made with `hyper::Response::new`.
#[verifier::external_body]
pub(crate) fn new_response(body: Body) -> Response<Body> {
    Response::new(body)
}

/// Writes `status` through `hyper::Response::status_mut`: it is then the status
/// of the response.
#[verifier::external_body]
pub(crate) fn set_status(response: &mut Response<Body>, status: StatusCode)
    ensures
        response_status(*final(response)) == status,
{
    *response.status_mut() = status;
}

} // verus!
