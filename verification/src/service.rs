//! The service that hosts a [`Handler`] behind a transport.
//!
//! A [`Service`] is made once, around the handler. For each accepted connection it
//! makes a [`HandlerService`] bound to the peer address of that connection, and
//! the `HandlerService` answers every request made on it: it attaches the address
//! to the request, runs the handler, and answers with a fallback response where
//! the handler ends in an error, so that no request is left unanswered.
//!
//! The fallback response has an empty body, and the status code that classifies
//! the error, or 500 where the error is unclassified.

use crate::error::Error;
use crate::http::{
    empty_body, internal_server_error, new_response, response_status, set_status, status_value,
};
use crate::middleware::Handler;
use crate::remote_addr::{attach_peer, with_peer, PeerAddress, RemoteAddr};
use hyper::{Body, Request, Response, StatusCode};
use std::sync::Arc;
use vstd::prelude::*;

verus! {

/// Makes another pointer to the handler with `Arc::clone`: both point to the same
/// value.
#[verifier::external_body]
fn share<H>(handler: &Arc<H>) -> (shared: Arc<H>)
    ensures
        shared == *handler,
{
    Arc::clone(handler)
}

/// Whether `status` is the status of the fallback response for an error with
/// the given classification: the classification itself, or 500 without one.
pub open spec fn is_fallback_status(classification: Option<StatusCode>, status: StatusCode) -> bool {
    match classification {
        Some(code) => status == code,
        None => status_value(status) == 500,
    }
}

/// Whether `response` answers a request whose handler returned `result`: the
/// handler's own response, or a fallback response for its error.
pub open spec fn answers(result: Result<Response<Body>, Error>, response: Response<Body>) -> bool {
    match result {
        Ok(produced) => response == produced,
        Err(error) => is_fallback_status(error@.status, response_status(response)),
    }
}

/// The last-resort response for an error that no stage has turned into one.
pub fn fallback_response(error: &Error) -> (response: Response<Body>)
    ensures
        is_fallback_status(error@.status, response_status(response)),
{
    let status = match error.status() {
        Some(code) => code,
        None => internal_server_error(),
    };
    let mut response = new_response(empty_body());
    set_status(&mut response, status);
    response
}

/// The response that goes back to the transport for what the handler returned.
pub fn answer(result: Result<Response<Body>, Error>) -> (response: Response<Body>)
    ensures
        answers(result, response),
{
    match result {
        Ok(produced) => produced,
        Err(error) => fallback_response(&error),
    }
}

/// Makes the per-connection services of one handler.
pub struct HandlerServiceBuilder<H> {
    handler: Arc<H>,
}

/// Answers the requests of one connection.
pub struct HandlerService<H> {
    handler: Arc<H>,
    remote_addr: Option<PeerAddress>,
}

/// A service entry point which hosts a [`Handler`].
pub struct Service<H> {
    builder: HandlerServiceBuilder<H>,
}

impl<H: Handler> HandlerServiceBuilder<H> {
    /// The handler that every service built here runs.
    pub closed spec fn handler(&self) -> H {
        *self.handler
    }

    /// Takes the handler in, to be shared by the services of all connections.
    pub fn new(handler: H) -> (builder: Self)
        ensures
            builder.handler() == handler,
    {
        HandlerServiceBuilder { handler: Arc::new(handler) }
    }

    /// Makes the service of a connection whose peer address is `remote_addr`.
    pub fn build(&self, remote_addr: Option<PeerAddress>) -> (service: HandlerService<H>)
        ensures
            service.handler() == self.handler(),
            service.remote_addr() == remote_addr,
    {
        HandlerService { handler: share(&self.handler), remote_addr }
    }
}

impl<H: Handler> HandlerService<H> {
    /// The handler that answers the requests.
    pub closed spec fn handler(&self) -> H {
        *self.handler
    }

    /// The peer address of the connection, where the transport supplied one.
    pub closed spec fn remote_addr(&self) -> Option<PeerAddress> {
        self.remote_addr
    }

    /// The request as the handler receives it: with the peer address of the
    /// connection attached, or untouched where there is none.
    pub open spec fn annotated(&self, req: Request<Body>) -> Request<Body> {
        match self.remote_addr() {
            Some(addr) => with_peer(req, addr),
            None => req,
        }
    }

    /// Answers one request: attaches the peer address, runs the handler, and
    /// returns its response, or the fallback response for its error.
    pub fn call(&self, req: Request<Body>) -> (out: Result<Response<Body>, Error>)
        ensures
            out is Ok,
            exists|fin: Request<Body>, result: Result<Response<Body>, Error>|
                #[trigger] self.handler().handles(self.annotated(req), fin, result) && answers(
                    result,
                    out->Ok_0,
                ),
    {
        let mut request = req;
        if let Some(addr) = self.remote_addr {
            attach_peer(&mut request, addr);
        }
        let result = self.handler.handle(&mut request);
        let ghost returned = result;
        let response = answer(result);
        assert(self.handler().handles(self.annotated(req), request, returned) && answers(
            returned,
            response,
        ));
        Ok(response)
    }
}

impl<H: Handler> Service<H> {
    /// The handler that the service hosts.
    pub closed spec fn handler(&self) -> H {
        self.builder.handler()
    }

    /// Creates a new service around `handler`.
    pub fn new(handler: H) -> (service: Self)
        ensures
            service.handler() == handler,
    {
        Service { builder: HandlerServiceBuilder::new(handler) }
    }

    /// Accepts a connection: asks it for its peer address and makes the service
    /// that answers its requests. A connection without an address is served too.
    pub fn call<T: RemoteAddr>(&self, conn: &T) -> (service: HandlerService<H>)
        ensures
            service.handler() == self.handler(),
            conn.reports(service.remote_addr()),
    {
        self.builder.build(conn.remote_addr())
    }
}

} // verus!
