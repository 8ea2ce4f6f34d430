use hyper::{Body, Request, Response, StatusCode};
use hyper_middleware::service::{answer, fallback_response};
use hyper_middleware::{
    AfterMiddleware, BeforeMiddleware, Error, Handler, HandlerServiceBuilder, Middlewares,
    PeerAddress, RemoteAddr, Service,
};
use std::sync::{Arc, Mutex};

type Seen = Arc<Mutex<Vec<Option<PeerAddress>>>>;

fn body_text(res: Response<Body>) -> String {
    let runtime = tokio::runtime::Builder::new_current_thread().build().unwrap();
    let bytes = runtime.block_on(hyper::body::to_bytes(res.into_body())).unwrap();
    String::from_utf8(bytes.to_vec()).unwrap()
}

/// Records the peer address that each request carries.
struct Witness {
    seen: Seen,
    fail: Option<Option<StatusCode>>,
}

impl Handler for Witness {
    fn handle(&self, req: &mut Request<Body>) -> Result<Response<Body>, Error> {
        let peer = req.extensions().get::<PeerAddress>().copied();
        self.seen.lock().unwrap().push(peer);
        match self.fail {
            None => Ok(Response::new(Body::from("hello"))),
            Some(None) => Err(Error::from("unclassified")),
            Some(Some(status)) => Err(Error::from("classified").with_status(status)),
        }
    }
}

fn witness(fail: Option<Option<StatusCode>>) -> (Witness, Seen) {
    let seen: Seen = Arc::new(Mutex::new(Vec::new()));
    (Witness { seen: seen.clone(), fail }, seen)
}

fn local(port: u16) -> PeerAddress {
    PeerAddress::V4 { octets: [127, 0, 0, 1], port }
}

/// A transport that knows its peer only sometimes.
struct Stream {
    peer: Option<PeerAddress>,
}

impl RemoteAddr for Stream {
    fn remote_addr(&self) -> Option<PeerAddress> {
        self.peer
    }
}

#[test]
fn every_request_observes_the_peer_address() {
    let (handler, seen) = witness(None);
    let service = Service::new(handler);
    let connection = service.call(&Stream { peer: Some(local(4000)) });
    for _ in 0..3 {
        let res = connection.call(Request::new(Body::empty())).unwrap();
        assert_eq!(res.status(), StatusCode::OK);
        assert_eq!(body_text(res), "hello");
    }
    assert_eq!(*seen.lock().unwrap(), vec![Some(local(4000)); 3]);
}

#[test]
fn absent_peer_address_is_not_attached() {
    let (handler, seen) = witness(None);
    let service = Service::new(handler);
    let connection = service.call(&Stream { peer: None });
    let res = connection.call(Request::new(Body::empty())).unwrap();
    assert_eq!(body_text(res), "hello");
    assert_eq!(*seen.lock().unwrap(), vec![None]);
}

#[test]
fn connections_keep_their_own_addresses() {
    let (handler, seen) = witness(None);
    let service = Service::new(handler);
    let first = service.call(&Some(local(1)));
    let second = service.call(&Some(PeerAddress::V6 {
        segments: [0, 0, 0, 0, 0, 0, 0, 1],
        port: 2,
        flowinfo: 0,
        scope_id: 0,
    }));
    first.call(Request::new(Body::empty())).unwrap();
    second.call(Request::new(Body::empty())).unwrap();
    first.call(Request::new(Body::empty())).unwrap();
    let seen = seen.lock().unwrap().clone();
    assert_eq!(seen.len(), 3);
    assert_eq!(seen[0], Some(local(1)));
    assert!(matches!(seen[1], Some(PeerAddress::V6 { port: 2, .. })));
    assert_eq!(seen[2], Some(local(1)));
}

#[test]
fn attached_address_replaces_an_earlier_one() {
    let (handler, seen) = witness(None);
    let connection = HandlerServiceBuilder::new(handler).build(Some(local(9)));
    let mut req = Request::new(Body::empty());
    req.extensions_mut().insert(local(8));
    connection.call(req).unwrap();
    assert_eq!(*seen.lock().unwrap(), vec![Some(local(9))]);
}

#[test]
fn builder_shares_one_handler_between_services() {
    let (handler, seen) = witness(None);
    let builder = HandlerServiceBuilder::new(handler);
    let first = builder.build(Some(local(10)));
    let second = builder.build(None);
    first.call(Request::new(Body::empty())).unwrap();
    second.call(Request::new(Body::empty())).unwrap();
    assert_eq!(*seen.lock().unwrap(), vec![Some(local(10)), None]);
}

#[test]
fn known_address_reports_itself() {
    assert_eq!(Some(local(7)).remote_addr(), Some(local(7)));
    assert_eq!(None::<PeerAddress>.remote_addr(), None);
}

#[test]
fn unclassified_failure_is_answered_with_500() {
    let (handler, seen) = witness(Some(None));
    let connection = Service::new(handler).call(&Some(local(5)));
    let res = connection.call(Request::new(Body::empty())).unwrap();
    assert_eq!(res.status(), StatusCode::INTERNAL_SERVER_ERROR);
    assert_eq!(body_text(res), "");
    assert_eq!(*seen.lock().unwrap(), vec![Some(local(5))]);
}

#[test]
fn classified_failure_is_answered_with_its_status() {
    let (handler, _seen) = witness(Some(Some(StatusCode::FORBIDDEN)));
    let connection = Service::new(handler).call(&None::<PeerAddress>);
    let res = connection.call(Request::new(Body::empty())).unwrap();
    assert_eq!(res.status(), StatusCode::FORBIDDEN);
    assert_eq!(body_text(res), "");
}

#[test]
fn fallback_response_uses_classification_or_500() {
    let plain = fallback_response(&Error::from("boom"));
    assert_eq!(plain.status().as_u16(), 500);
    let classified = fallback_response(&Error::from("boom").with_status(StatusCode::CONFLICT));
    assert_eq!(classified.status().as_u16(), 409);
    assert_eq!(body_text(classified), "");
}

#[test]
fn answer_keeps_a_response_as_it_is() {
    let mut produced = Response::new(Body::from("kept"));
    *produced.status_mut() = StatusCode::ACCEPTED;
    let res = answer(Ok(produced));
    assert_eq!(res.status(), StatusCode::ACCEPTED);
    assert_eq!(body_text(res), "kept");
}

#[test]
fn answer_turns_an_error_into_the_fallback() {
    let res = answer(Err(Error::from("late").with_status(StatusCode::GATEWAY_TIMEOUT)));
    assert_eq!(res.status(), StatusCode::GATEWAY_TIMEOUT);
    let res = answer(Err(Error::from("unknown")));
    assert_eq!(res.status(), StatusCode::INTERNAL_SERVER_ERROR);
}

/// Lets through only the requests of one peer.
struct OnlyFrom {
    peer: PeerAddress,
}

impl BeforeMiddleware for OnlyFrom {
    fn before(&self, req: &mut Request<Body>) -> Result<(), Error> {
        if req.extensions().get::<PeerAddress>() == Some(&self.peer) {
            Ok(())
        } else {
            Err(Error::from("stranger").with_status(StatusCode::FORBIDDEN))
        }
    }

    fn catch(&self, _req: &mut Request<Body>, err: Error) -> Result<(), Error> {
        Err(err)
    }
}

/// Leaves responses and errors as they are.
struct Idle;

impl AfterMiddleware for Idle {
    fn after(&self, _req: &mut Request<Body>, res: Response<Body>) -> Result<Response<Body>, Error> {
        Ok(res)
    }

    fn catch(&self, _req: &mut Request<Body>, err: Error) -> Result<Response<Body>, Error> {
        Err(err)
    }
}

#[test]
fn service_hosts_a_chain() {
    let (handler, seen) = witness(None);
    let mut chain = Middlewares::new(handler);
    chain.link_before(OnlyFrom { peer: local(443) }).link_after(Idle);
    let service = Service::new(chain);

    let friend = service.call(&Some(local(443)));
    let res = friend.call(Request::new(Body::empty())).unwrap();
    assert_eq!(res.status(), StatusCode::OK);
    assert_eq!(body_text(res), "hello");

    let stranger = service.call(&Some(local(80)));
    let res = stranger.call(Request::new(Body::empty())).unwrap();
    assert_eq!(res.status(), StatusCode::FORBIDDEN);
    assert_eq!(body_text(res), "");

    let unknown = service.call(&None::<PeerAddress>);
    let res = unknown.call(Request::new(Body::empty())).unwrap();
    assert_eq!(res.status(), StatusCode::FORBIDDEN);

    assert_eq!(*seen.lock().unwrap(), vec![Some(local(443))]);
}
