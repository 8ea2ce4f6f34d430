//! The peer address of a connection, and how it reaches a request.
//!
//! The address is captured once, when the connection is accepted, and attached
//! to every request made on that connection, in the request's extensions.

use hyper::{Body, Request};
use vstd::prelude::*;

verus! {

/// The remote endpoint of an accepted connection: an IP address and a port.
#[derive(Clone, Copy, Debug, PartialEq, Eq, Hash)]
pub enum PeerAddress {
    /// An IPv4 endpoint.
    V4 { octets: [u8; 4], port: u16 },
    /// An IPv6 endpoint.
    V6 { segments: [u16; 8], port: u16, flowinfo: u32, scope_id: u32 },
}

/// Defines a method to get the remote (peer) address of a connection.
///
/// Transports implement it; a transport that cannot tell its peer returns `None`.
/// `reports` is what an implementation states about its answers; by default it
/// states nothing.
pub trait RemoteAddr {
    /// Whether `addr` is an answer this connection may give.
    open spec fn reports(&self, addr: Option<PeerAddress>) -> bool {
        true
    }

    /// Returns the remote (peer) address of this connection.
    fn remote_addr(&self) -> (addr: Option<PeerAddress>)
        ensures
            self.reports(addr),
    ;
}

/// A connection whose peer address, if any, is already known.
impl RemoteAddr for Option<PeerAddress> {
    open spec fn reports(&self, addr: Option<PeerAddress>) -> bool {
        addr == *self
    }

    fn remote_addr(&self) -> (addr: Option<PeerAddress>)
        ensures
            self.reports(addr),
    {
        *self
    }
}

/// The request that `req` becomes once `addr` is stored in its extensions.
pub uninterp spec fn with_peer(req: Request<Body>, addr: PeerAddress) -> Request<Body>;

/// Stores `addr` in the extensions of `req` with `http::Extensions::insert`,
/// reached through `hyper::Request::extensions_mut`. An address stored earlier is
/// replaced. The result is named, not described: it depends on `req` and `addr`
/// alone.
#[verifier::external_body]
pub(crate) fn attach_peer(req: &mut Request<Body>, addr: PeerAddress)
    ensures
        *final(req) == with_peer(*old(req), addr),
{
    req.extensions_mut().insert(addr);
}

} // verus!
