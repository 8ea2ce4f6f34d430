//! Single steps of the protocol: which stage follows which, and what it is
//! handed.

use crate::error::Error;
use crate::protocol::{Plan, Stage};
use hyper::{Body, Response};
use vstd::prelude::*;

verus! {

/// The stage that `stage` leads to once `count` before-middlewares in a row have
/// succeeded.
pub open spec fn after_successes(plan: Plan, stage: Stage, count: nat) -> Stage
    decreases count,
{
    if count == 0 {
        stage
    } else {
        match stage {
            Stage::Before { index } => after_successes(
                plan,
                plan.before_returned(index, Ok(())),
                (count - 1) as nat,
            ),
            _ => stage,
        }
    }
}

/// While the before-middlewares succeed they run one after the other, in the
/// order of the sequence: `count` successes from the one at `from` lead to the
/// one at `from + count`, and to the handler when that was the last.
pub proof fn lemma_befores_succeed(plan: Plan, from: nat, count: nat)
    requires
        from + count <= plan.befores,
    ensures
        after_successes(plan, plan.enter(from as int), count) == plan.enter((from + count) as int),
        from + count == plan.befores ==> after_successes(plan, plan.enter(from as int), count)
            == Stage::Handle,
    decreases count,
{
    if count > 0 {
        lemma_befores_succeed(plan, from + 1, (count - 1) as nat);
    }
}

/// Where every before-middleware succeeds, the handler runs: from the start,
/// as many successes as there are before-middlewares lead to the handler.
pub proof fn lemma_handler_follows_befores(plan: Plan)
    ensures
        after_successes(plan, plan.start(), plan.befores as nat) == Stage::Handle,
{
    lemma_befores_succeed(plan, 0, plan.befores as nat);
}

/// The response of a successful handler is what the first after-middleware
/// receives, in success mode; without after-middlewares it is the terminal
/// result.
pub proof fn lemma_handler_success(plan: Plan, response: Response<Body>)
    ensures
        plan.afters > 0 ==> plan.handler_returned(Ok(response)) == (Stage::After {
            index: 0,
            carry: Ok(response),
        }),
        plan.afters == 0 ==> plan.handler_returned(Ok(response)) == (Stage::Done {
            result: Ok(response),
        }),
{
}

/// Each after-middleware receives what the one before it returned, in the order
/// of the sequence: a response in success mode, an error in error mode. What the
/// last one returned is the terminal result.
pub proof fn lemma_after_passes_on(plan: Plan, index: usize, outcome: Result<Response<Body>, Error>)
    requires
        index < plan.afters,
    ensures
        index + 1 < plan.afters ==> plan.after_returned(index, outcome) == (Stage::After {
            index: (index + 1) as usize,
            carry: outcome,
        }),
        index + 1 == plan.afters ==> plan.after_returned(index, outcome) == (Stage::Done {
            result: outcome,
        }),
{
}

/// A failing `before` makes the `catch` of the same middleware due, on the error
/// that `before` gave.
pub proof fn lemma_before_failure(plan: Plan, index: usize, error: Error)
    ensures
        plan.before_returned(index, Err(error)) == (Stage::Recover { index, error }),
{
}

/// Where `before` of the middleware at `index` failed and its `catch` succeeds,
/// execution resumes at the next before-middleware, or at the handler where
/// `index` was the last.
pub proof fn lemma_catch_success_resumes(plan: Plan, index: usize)
    requires
        index < plan.befores,
    ensures
        index + 1 < plan.befores ==> plan.recover_returned(index, Ok(())) == (Stage::Before {
            index: (index + 1) as usize,
        }),
        index + 1 == plan.befores ==> plan.recover_returned(index, Ok(())) == Stage::Handle,
        plan.recover_returned(index, Ok(())) == plan.before_returned(index, Ok(())),
{
}

/// Where `before` of the middleware at `index` failed and its `catch` fails too,
/// the first after-middleware is entered in error mode with the error of
/// `catch`, and the stage entered lies beyond the handler: the handler never runs.
pub proof fn lemma_catch_failure_short_circuits(plan: Plan, index: usize, error: Error)
    requires
        index < plan.befores,
    ensures
        plan.afters > 0 ==> plan.recover_returned(index, Err(error)) == (Stage::After {
            index: 0,
            carry: Err(error),
        }),
        plan.afters == 0 ==> plan.recover_returned(index, Err(error)) == (Stage::Done {
            result: Err(error),
        }),
        plan.position(plan.recover_returned(index, Err(error))) > plan.position(Stage::Handle),
{
}

/// A failing handler enters the first after-middleware in error mode, with the
/// handler's error; without after-middlewares the error is the terminal result.
pub proof fn lemma_handler_failure(plan: Plan, error: Error)
    ensures
        plan.afters > 0 ==> plan.handler_returned(Err(error)) == (Stage::After {
            index: 0,
            carry: Err(error),
        }),
        plan.afters == 0 ==> plan.handler_returned(Err(error)) == (Stage::Done {
            result: Err(error),
        }),
{
}

/// Where an after-middleware, `catch` included, returns a response, the next
/// after-middleware is entered in success mode with that response.
pub proof fn lemma_recovered_response(plan: Plan, index: usize, response: Response<Body>)
    requires
        index + 1 < plan.afters,
    ensures
        plan.after_returned(index, Ok(response)) == (Stage::After {
            index: (index + 1) as usize,
            carry: Ok(response),
        }),
{
}

} // verus!
