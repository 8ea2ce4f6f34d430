use hyper::StatusCode;
use hyper_middleware::Error;

#[test]
fn error_from_message_is_unclassified() {
    let err = Error::from("some error type or string");
    assert_eq!(err.status(), None);
    assert_eq!(err.to_string(), "some error type or string");
}

#[test]
fn error_with_status_sets_classification() {
    let err = Error::from("user or password does not match").with_status(StatusCode::UNAUTHORIZED);
    assert_eq!(err.status(), Some(StatusCode::UNAUTHORIZED));
    assert_eq!(err.to_string(), "user or password does not match");
}

#[test]
fn error_with_status_overwrites_classification() {
    let err = Error::from("gone")
        .with_status(StatusCode::NOT_FOUND)
        .with_status(StatusCode::GONE);
    assert_eq!(err.status(), Some(StatusCode::GONE));
}

#[test]
fn error_source_is_the_cause() {
    let err = Error::from("disk full").with_status(StatusCode::INSUFFICIENT_STORAGE);
    assert_eq!(err.source(), "disk full");
}

#[test]
fn error_from_empty_message() {
    let err = Error::from("");
    assert_eq!(err.to_string(), "");
    assert_eq!(err.status(), None);
    assert_eq!(err.source(), "");
}

#[test]
fn error_display_ignores_classification() {
    let plain = Error::from("teapot");
    let classified = Error::from("teapot").with_status(StatusCode::IM_A_TEAPOT);
    assert_eq!(plain.to_string(), classified.to_string());
}

#[test]
fn error_debug_shows_cause() {
    let err = Error::from("broken pipe");
    assert!(format!("{:?}", err).contains("broken pipe"));
}
