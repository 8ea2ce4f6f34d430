//! Whole requests: the order in which the stages of a request run, and when the
//! handler is among them.

use crate::error::Error;
use crate::protocol::{Plan, Stage};
use hyper::{Body, Response};
use vstd::prelude::*;

verus! {

/// Whether `next` is a stage of the chain that lies strictly further than
/// `stage` in the order of execution.
pub open spec fn moves_forward(plan: Plan, stage: Stage, next: Stage) -> bool {
    plan.admits(next) && plan.position(stage) < plan.position(next) <= plan.end()
}

/// Stages only move forward. From a stage of the chain, whatever its operation
/// returns, the stage that follows is a stage of the chain and lies strictly
/// further in the order of execution: no stage runs twice, each sequence runs in
/// its own order, and the run ends.
pub proof fn lemma_stages_advance(
    plan: Plan,
    stage: Stage,
    signal: Result<(), Error>,
    outcome: Result<Response<Body>, Error>,
)
    requires
        plan.admits(stage),
    ensures
        plan.admits(plan.start()),
        match stage {
            Stage::Before { index } => moves_forward(
                plan,
                stage,
                plan.before_returned(index, signal),
            ),
            Stage::Recover { index, .. } => moves_forward(
                plan,
                stage,
                plan.recover_returned(index, signal),
            ),
            Stage::Handle => moves_forward(plan, stage, plan.handler_returned(outcome)),
            Stage::After { index, .. } => moves_forward(
                plan,
                stage,
                plan.after_returned(index, outcome),
            ),
            Stage::Done { .. } => plan.position(stage) == plan.end(),
        },
{
}

/// Whether `next` may follow `stage`: whether it is the stage that some outcome
/// of the operation due at `stage` leads to.
pub open spec fn follows(plan: Plan, stage: Stage, next: Stage) -> bool {
    match stage {
        Stage::Before { index } => exists|signal: Result<(), Error>|
            next == #[trigger] plan.before_returned(index, signal),
        Stage::Recover { index, .. } => exists|signal: Result<(), Error>|
            next == #[trigger] plan.recover_returned(index, signal),
        Stage::Handle => exists|outcome: Result<Response<Body>, Error>|
            next == #[trigger] plan.handler_returned(outcome),
        Stage::After { index, .. } => exists|outcome: Result<Response<Body>, Error>|
            next == #[trigger] plan.after_returned(index, outcome),
        Stage::Done { .. } => false,
    }
}

/// Whether `trace` holds the stages of a request from the first to `Done`, each
/// following the one before it.
pub open spec fn is_run(plan: Plan, trace: Seq<Stage>) -> bool {
    &&& trace.len() > 0
    &&& trace[0] == plan.start()
    &&& forall|k: int| 0 <= k < trace.len() - 1 ==> follows(plan, #[trigger] trace[k], trace[k + 1])
    &&& trace.last() is Done
}

/// Whether the `catch` of a before-middleware was due at `stage` and failed, so
/// that `next` lies in or behind the after-sequence.
pub open spec fn short_circuits(plan: Plan, stage: Stage, next: Stage) -> bool {
    stage is Recover && plan.position(next) > plan.position(Stage::Handle)
}

/// Every stage of a run is a stage of the chain, and a later stage of a run lies
/// strictly further in the order of execution than an earlier one: the
/// before-middlewares run in the order of their sequence, then the handler, then
/// the after-middlewares in the order of theirs, and none of them twice.
pub proof fn lemma_run_is_ordered(plan: Plan, trace: Seq<Stage>, earlier: int, later: int)
    requires
        is_run(plan, trace),
        0 <= earlier < later < trace.len(),
    ensures
        plan.admits(trace[earlier]),
        plan.admits(trace[later]),
        plan.position(trace[earlier]) < plan.position(trace[later]),
    decreases later,
{
    lemma_run_stage_is_admitted(plan, trace, later - 1);
    lemma_follower_advances(plan, trace[later - 1], trace[later]);
    if earlier < later - 1 {
        lemma_run_is_ordered(plan, trace, earlier, later - 1);
    }
}

/// The handler runs at most once in a run.
pub proof fn lemma_handler_runs_at_most_once(plan: Plan, trace: Seq<Stage>, one: int, other: int)
    requires
        is_run(plan, trace),
        0 <= one < trace.len(),
        0 <= other < trace.len(),
        trace[one] is Handle,
        trace[other] is Handle,
    ensures
        one == other,
{
    if one < other {
        lemma_run_is_ordered(plan, trace, one, other);
    } else if other < one {
        lemma_run_is_ordered(plan, trace, other, one);
    }
}

/// The handler runs in every run in which no `catch` of a before-middleware
/// fails.
pub proof fn lemma_handler_runs_unless_short_circuit(plan: Plan, trace: Seq<Stage>)
    requires
        is_run(plan, trace),
        forall|k: int|
            0 <= k < trace.len() - 1 ==> !short_circuits(plan, #[trigger] trace[k], trace[k + 1]),
    ensures
        exists|k: int| 0 <= k < trace.len() && #[trigger] trace[k] is Handle,
{
    lemma_handler_reached_by(plan, trace, trace.len() - 1);
}

/// The handler does not run in a run in which the `catch` of a before-middleware
/// fails.
pub proof fn lemma_short_circuit_skips_handler(plan: Plan, trace: Seq<Stage>, at: int, k: int)
    requires
        is_run(plan, trace),
        0 <= at < trace.len() - 1,
        short_circuits(plan, trace[at], trace[at + 1]),
        0 <= k < trace.len(),
    ensures
        !(trace[k] is Handle),
{
    lemma_run_stage_is_admitted(plan, trace, at);
    if k < at {
        lemma_run_is_ordered(plan, trace, k, at);
    } else if k > at + 1 {
        lemma_run_is_ordered(plan, trace, at + 1, k);
    }
}

proof fn lemma_follower_advances(plan: Plan, stage: Stage, next: Stage)
    requires
        plan.admits(stage),
        follows(plan, stage, next),
    ensures
        moves_forward(plan, stage, next),
{
}

proof fn lemma_run_stage_is_admitted(plan: Plan, trace: Seq<Stage>, k: int)
    requires
        is_run(plan, trace),
        0 <= k < trace.len(),
    ensures
        plan.admits(trace[k]),
    decreases k,
{
    if k > 0 {
        lemma_run_stage_is_admitted(plan, trace, k - 1);
        lemma_follower_advances(plan, trace[k - 1], trace[k]);
    }
}

proof fn lemma_handler_reached_by(plan: Plan, trace: Seq<Stage>, k: int)
    requires
        is_run(plan, trace),
        forall|j: int|
            0 <= j < trace.len() - 1 ==> !short_circuits(plan, #[trigger] trace[j], trace[j + 1]),
        0 <= k < trace.len(),
    ensures
        plan.position(trace[k]) < plan.position(Stage::Handle) || exists|j: int|
            0 <= j <= k && #[trigger] trace[j] is Handle,
    decreases k,
{
    lemma_run_stage_is_admitted(plan, trace, k);
    if k > 0 {
        lemma_handler_reached_by(plan, trace, k - 1);
        lemma_run_stage_is_admitted(plan, trace, k - 1);
        if plan.position(trace[k - 1]) < plan.position(Stage::Handle) {
            assert(follows(plan, trace[k - 1], trace[k]));
            assert(!short_circuits(plan, trace[k - 1], trace[k]));
            assert(plan.position(trace[k]) <= plan.position(Stage::Handle));
            if plan.position(trace[k]) == plan.position(Stage::Handle) {
                assert(trace[k] is Handle);
            }
        } else {
            let j: int = choose|j: int| 0 <= j <= k - 1 && #[trigger] trace[j] is Handle;
            assert(trace[j] is Handle);
        }
    } else {
        assert(trace[0] is Handle || trace[0] is Before);
    }
}

} // verus!
