//! A request-handling pipeline on top of hyper: one primary [`Handler`] wrapped by
//! an ordered chain of [`BeforeMiddleware`] and [`AfterMiddleware`] stages, each
//! with its own recovery operation, and a per-connection [`Service`] that threads
//! the peer address of a connection into every request made on it.
//!
//! The order in which the stages run, and what each of them is handed, is decided
//! by the transition functions of [`Plan`]; [`Middlewares`] runs them over a set of
//! stages, and the `laws` module states what follows for every chain.

pub mod error;
pub mod http;
pub mod laws;
pub mod middleware;
pub mod protocol;
pub mod remote_addr;
pub mod service;

pub use error::Error;
pub use middleware::{AfterMiddleware, BeforeMiddleware, Handler, Middlewares};
pub use protocol::{Plan, Stage};
pub use remote_addr::{PeerAddress, RemoteAddr};
pub use service::{HandlerService, HandlerServiceBuilder, Service};

pub use hyper::{Body, Request, Response};
