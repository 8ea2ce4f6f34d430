use hyper::{Body, Response, StatusCode};
use hyper_middleware::{Error, Plan, Stage};

fn response(status: u16) -> Response<Body> {
    let mut res = Response::new(Body::empty());
    *res.status_mut() = StatusCode::from_u16(status).unwrap();
    res
}

fn status_of(carry: &Result<Response<Body>, Error>) -> Option<u16> {
    match carry {
        Ok(res) => Some(res.status().as_u16()),
        Err(_) => None,
    }
}

fn message_of(carry: &Result<Response<Body>, Error>) -> Option<String> {
    match carry {
        Ok(_) => None,
        Err(err) => Some(err.to_string()),
    }
}

#[test]
fn start_is_first_before() {
    let plan = Plan { befores: 2, afters: 1 };
    assert!(matches!(plan.start(), Stage::Before { index: 0 }));
}

#[test]
fn start_without_befores_is_handler() {
    let plan = Plan { befores: 0, afters: 3 };
    assert!(matches!(plan.start(), Stage::Handle));
}

#[test]
fn before_success_moves_to_next_before() {
    let plan = Plan { befores: 3, afters: 0 };
    assert!(matches!(plan.before_returned(0, Ok(())), Stage::Before { index: 1 }));
    assert!(matches!(plan.before_returned(1, Ok(())), Stage::Before { index: 2 }));
}

#[test]
fn last_before_success_moves_to_handler() {
    let plan = Plan { befores: 3, afters: 0 };
    assert!(matches!(plan.before_returned(2, Ok(())), Stage::Handle));
}

#[test]
fn before_failure_makes_own_catch_due() {
    let plan = Plan { befores: 3, afters: 2 };
    match plan.before_returned(1, Err(Error::from("denied"))) {
        Stage::Recover { index, error } => {
            assert_eq!(index, 1);
            assert_eq!(error.to_string(), "denied");
        }
        other => panic!("unexpected stage {:?}", other),
    }
}

#[test]
fn catch_success_resumes_at_next_before() {
    let plan = Plan { befores: 3, afters: 2 };
    assert!(matches!(plan.recover_returned(0, Ok(())), Stage::Before { index: 1 }));
}

#[test]
fn catch_success_at_last_before_runs_handler() {
    let plan = Plan { befores: 3, afters: 2 };
    assert!(matches!(plan.recover_returned(2, Ok(())), Stage::Handle));
}

#[test]
fn catch_failure_enters_after_sequence_in_error_mode() {
    let plan = Plan { befores: 3, afters: 2 };
    match plan.recover_returned(0, Err(Error::from("still denied"))) {
        Stage::After { index, carry } => {
            assert_eq!(index, 0);
            assert_eq!(message_of(&carry), Some("still denied".to_string()));
        }
        other => panic!("unexpected stage {:?}", other),
    }
}

#[test]
fn catch_failure_without_afters_is_terminal() {
    let plan = Plan { befores: 1, afters: 0 };
    match plan.recover_returned(0, Err(Error::from("lost"))) {
        Stage::Done { result } => assert_eq!(message_of(&result), Some("lost".to_string())),
        other => panic!("unexpected stage {:?}", other),
    }
}

#[test]
fn handler_success_enters_after_sequence_in_success_mode() {
    let plan = Plan { befores: 0, afters: 2 };
    match plan.handler_returned(Ok(response(201))) {
        Stage::After { index, carry } => {
            assert_eq!(index, 0);
            assert_eq!(status_of(&carry), Some(201));
        }
        other => panic!("unexpected stage {:?}", other),
    }
}

#[test]
fn handler_failure_enters_after_sequence_in_error_mode() {
    let plan = Plan { befores: 0, afters: 2 };
    let failure = Error::from("bad input").with_status(StatusCode::BAD_REQUEST);
    match plan.handler_returned(Err(failure)) {
        Stage::After { index, carry: Err(error) } => {
            assert_eq!(index, 0);
            assert_eq!(error.to_string(), "bad input");
            assert_eq!(error.status(), Some(StatusCode::BAD_REQUEST));
        }
        other => panic!("unexpected stage {:?}", other),
    }
}

#[test]
fn handler_result_without_afters_is_terminal() {
    let plan = Plan { befores: 4, afters: 0 };
    match plan.handler_returned(Ok(response(204))) {
        Stage::Done { result } => assert_eq!(status_of(&result), Some(204)),
        other => panic!("unexpected stage {:?}", other),
    }
    match plan.handler_returned(Err(Error::from("down"))) {
        Stage::Done { result } => assert_eq!(message_of(&result), Some("down".to_string())),
        other => panic!("unexpected stage {:?}", other),
    }
}

#[test]
fn after_outcome_goes_to_next_after() {
    let plan = Plan { befores: 0, afters: 3 };
    match plan.after_returned(0, Ok(response(202))) {
        Stage::After { index, carry } => {
            assert_eq!(index, 1);
            assert_eq!(status_of(&carry), Some(202));
        }
        other => panic!("unexpected stage {:?}", other),
    }
    match plan.after_returned(1, Err(Error::from("late failure"))) {
        Stage::After { index, carry } => {
            assert_eq!(index, 2);
            assert_eq!(message_of(&carry), Some("late failure".to_string()));
        }
        other => panic!("unexpected stage {:?}", other),
    }
}

#[test]
fn last_after_outcome_is_terminal() {
    let plan = Plan { befores: 0, afters: 3 };
    match plan.after_returned(2, Ok(response(200))) {
        Stage::Done { result } => assert_eq!(status_of(&result), Some(200)),
        other => panic!("unexpected stage {:?}", other),
    }
    match plan.after_returned(2, Err(Error::from("unrecovered"))) {
        Stage::Done { result } => {
            assert_eq!(message_of(&result), Some("unrecovered".to_string()))
        }
        other => panic!("unexpected stage {:?}", other),
    }
}

#[test]
fn indexes_beyond_the_sequences_end_them() {
    let plan = Plan { befores: 2, afters: 2 };
    assert!(matches!(plan.before_returned(7, Ok(())), Stage::Handle));
    assert!(matches!(plan.before_returned(usize::MAX, Ok(())), Stage::Handle));
    assert!(matches!(plan.recover_returned(usize::MAX, Ok(())), Stage::Handle));
    assert!(matches!(plan.after_returned(9, Ok(response(200))), Stage::Done { .. }));
    assert!(matches!(
        plan.after_returned(usize::MAX, Ok(response(200))),
        Stage::Done { .. }
    ));
}

#[test]
fn empty_plan_runs_only_the_handler() {
    let plan = Plan { befores: 0, afters: 0 };
    assert!(matches!(plan.start(), Stage::Handle));
    match plan.handler_returned(Ok(response(200))) {
        Stage::Done { result } => assert_eq!(status_of(&result), Some(200)),
        other => panic!("unexpected stage {:?}", other),
    }
}

#[test]
fn stages_are_visited_in_order_on_the_success_path() {
    let plan = Plan { befores: 2, afters: 2 };
    let mut visited = Vec::new();
    let mut stage = plan.start();
    loop {
        stage = match stage {
            Stage::Before { index } => {
                visited.push(format!("before {}", index));
                plan.before_returned(index, Ok(()))
            }
            Stage::Recover { index, .. } => {
                visited.push(format!("recover {}", index));
                plan.recover_returned(index, Ok(()))
            }
            Stage::Handle => {
                visited.push("handle".to_string());
                plan.handler_returned(Ok(response(200)))
            }
            Stage::After { index, carry } => {
                visited.push(format!("after {}", index));
                plan.after_returned(index, carry)
            }
            Stage::Done { result } => {
                assert_eq!(status_of(&result), Some(200));
                break;
            }
        };
    }
    assert_eq!(visited, vec!["before 0", "before 1", "handle", "after 0", "after 1"]);
}
