//! Chains of middlewares: which operation of which middleware a stage runs, and
//! that a chain of stateless stages treats equal requests equally.

use crate::error::Error;
use crate::middleware::{AfterMiddleware, BeforeMiddleware, Handler, Middlewares};
use crate::protocol::Stage;
use hyper::{Body, Request, Response};
use vstd::prelude::*;

verus! {

/// A before-stage runs `before` of the middleware at its index: a chain ends from
/// such a stage exactly as `before` may yield and as the chain ends from the
/// stage that follows.
pub proof fn lemma_before_stage_runs_before<H: Handler, B: BeforeMiddleware, A: AfterMiddleware>(
    chain: Middlewares<H, B, A>,
    index: usize,
    req: Request<Body>,
    fin: Request<Body>,
    result: Result<Response<Body>, Error>,
)
    requires
        index < chain.befores().len(),
    ensures
        chain.finishes(Stage::Before { index }, req, fin, result) <==> exists|
            mid: Request<Body>,
            out: Result<(), Error>,
        |
            #[trigger] chain.befores()[index as int].before_yields(req, mid, out)
                && chain.finishes(chain.plan().before_returned(index, out), mid, fin, result),
{
    chain.lemma_plan_counts();
}

/// After a failed `before`, the `catch` of the same middleware runs, on the
/// error that `before` gave: a chain ends from such a stage exactly as that
/// `catch` may yield and as the chain ends from the stage that follows.
pub proof fn lemma_recover_stage_runs_catch<H: Handler, B: BeforeMiddleware, A: AfterMiddleware>(
    chain: Middlewares<H, B, A>,
    index: usize,
    error: Error,
    req: Request<Body>,
    fin: Request<Body>,
    result: Result<Response<Body>, Error>,
)
    requires
        index < chain.befores().len(),
    ensures
        chain.finishes(Stage::Recover { index, error }, req, fin, result) <==> exists|
            mid: Request<Body>,
            out: Result<(), Error>,
        |
            #[trigger] chain.befores()[index as int].catch_yields(req, error, mid, out)
                && chain.finishes(chain.plan().recover_returned(index, out), mid, fin, result),
{
    chain.lemma_plan_counts();
    let stage = Stage::Recover { index, error };
    assert(stage matches Stage::Recover { error: err, .. } && err == error);
}

/// The handler stage runs the handler, and what the handler returns enters the
/// after-sequence: a chain ends from the handler stage exactly as the handler may
/// yield and as the chain ends from the stage that follows.
pub proof fn lemma_handle_stage_runs_handler<H: Handler, B: BeforeMiddleware, A: AfterMiddleware>(
    chain: Middlewares<H, B, A>,
    req: Request<Body>,
    fin: Request<Body>,
    result: Result<Response<Body>, Error>,
)
    ensures
        chain.finishes(Stage::Handle, req, fin, result) <==> exists|
            mid: Request<Body>,
            out: Result<Response<Body>, Error>,
        |
            #[trigger] chain.handler().handles(req, mid, out) && chain.finishes(
                chain.plan().handler_returned(out),
                mid,
                fin,
                result,
            ),
{
}

/// Once every stage has run, nothing touches the request, and the result is the
/// one that the last stage left.
pub proof fn lemma_done_stage_ends<H: Handler, B: BeforeMiddleware, A: AfterMiddleware>(
    chain: Middlewares<H, B, A>,
    terminal: Result<Response<Body>, Error>,
    req: Request<Body>,
    fin: Request<Body>,
    result: Result<Response<Body>, Error>,
)
    ensures
        chain.finishes(Stage::Done { result: terminal }, req, fin, result) <==> fin == req
            && result == terminal,
{
}

/// Where every before-middleware succeeds, the handler runs, on the request as
/// the before-middlewares left it. `reqs` holds the request before each
/// before-middleware, and last the request that the handler receives.
pub proof fn lemma_successful_befores_reach_handler<
    H: Handler,
    B: BeforeMiddleware,
    A: AfterMiddleware,
>(
    chain: Middlewares<H, B, A>,
    reqs: Seq<Request<Body>>,
    fin: Request<Body>,
    result: Result<Response<Body>, Error>,
)
    requires
        reqs.len() == chain.befores().len() + 1,
        forall|i: int|
            0 <= i < chain.befores().len() ==> (#[trigger] chain.befores()[i]).before_yields(
                reqs[i],
                reqs[i + 1],
                Ok(()),
            ),
        chain.finishes(Stage::Handle, reqs.last(), fin, result),
    ensures
        chain.handles(reqs[0], fin, result),
{
    lemma_successful_befores_from(chain, reqs, 0, fin, result);
}

proof fn lemma_successful_befores_from<H: Handler, B: BeforeMiddleware, A: AfterMiddleware>(
    chain: Middlewares<H, B, A>,
    reqs: Seq<Request<Body>>,
    from: nat,
    fin: Request<Body>,
    result: Result<Response<Body>, Error>,
)
    requires
        from <= chain.befores().len(),
        reqs.len() == chain.befores().len() + 1,
        forall|i: int|
            0 <= i < chain.befores().len() ==> (#[trigger] chain.befores()[i]).before_yields(
                reqs[i],
                reqs[i + 1],
                Ok(()),
            ),
        chain.finishes(Stage::Handle, reqs.last(), fin, result),
    ensures
        chain.finishes(chain.plan().enter(from as int), reqs[from as int], fin, result),
    decreases chain.befores().len() - from,
{
    chain.lemma_plan_counts();
    if from < chain.befores().len() {
        lemma_successful_befores_from(chain, reqs, from + 1, fin, result);
        assert(chain.befores()[from as int].before_yields(
            reqs[from as int],
            reqs[from + 1 as int],
            Ok(()),
        ));
    }
}

/// In success mode an after-middleware runs `after` on the response it
/// received: a chain ends from such a stage exactly as `after` may yield and as
/// the chain ends from the stage that follows.
pub proof fn lemma_success_mode_runs_after<H: Handler, B: BeforeMiddleware, A: AfterMiddleware>(
    chain: Middlewares<H, B, A>,
    index: usize,
    response: Response<Body>,
    req: Request<Body>,
    fin: Request<Body>,
    result: Result<Response<Body>, Error>,
)
    requires
        index < chain.afters().len(),
    ensures
        chain.finishes(Stage::After { index, carry: Ok(response) }, req, fin, result) <==> exists|
            mid: Request<Body>,
            out: Result<Response<Body>, Error>,
        |
            #[trigger] chain.afters()[index as int].after_yields(req, response, mid, out)
                && chain.finishes(chain.plan().after_returned(index, out), mid, fin, result),
{
    chain.lemma_plan_counts();
    let stage = Stage::After { index, carry: Ok(response) };
    assert(stage matches Stage::After { carry: Ok(res), .. } && res == response);
}

/// In error mode an after-middleware runs `catch` on the error it received, not
/// `after`: a chain ends from such a stage exactly as `catch` may yield and as
/// the chain ends from the stage that follows.
pub proof fn lemma_error_mode_runs_catch<H: Handler, B: BeforeMiddleware, A: AfterMiddleware>(
    chain: Middlewares<H, B, A>,
    index: usize,
    error: Error,
    req: Request<Body>,
    fin: Request<Body>,
    result: Result<Response<Body>, Error>,
)
    requires
        index < chain.afters().len(),
    ensures
        chain.finishes(Stage::After { index, carry: Err(error) }, req, fin, result) <==> exists|
            mid: Request<Body>,
            out: Result<Response<Body>, Error>,
        |
            #[trigger] chain.afters()[index as int].catch_yields(req, error, mid, out)
                && chain.finishes(chain.plan().after_returned(index, out), mid, fin, result),
{
    chain.lemma_plan_counts();
    let stage = Stage::After { index, carry: Err(error) };
    assert(stage matches Stage::After { carry: Err(err), .. } && err == error);
}

/// Whether both operations of a before-middleware are functions of what they
/// are handed.
pub open spec fn before_is_stateless<B: BeforeMiddleware>(stage: B) -> bool {
    &&& forall|
        req: Request<Body>,
        fin1: Request<Body>,
        out1: Result<(), Error>,
        fin2: Request<Body>,
        out2: Result<(), Error>,
    |
        #[trigger] stage.before_yields(req, fin1, out1) && #[trigger] stage.before_yields(
            req,
            fin2,
            out2,
        ) ==> fin1 == fin2 && out1 == out2
    &&& forall|
        req: Request<Body>,
        err: Error,
        fin1: Request<Body>,
        out1: Result<(), Error>,
        fin2: Request<Body>,
        out2: Result<(), Error>,
    |
        #[trigger] stage.catch_yields(req, err, fin1, out1) && #[trigger] stage.catch_yields(
            req,
            err,
            fin2,
            out2,
        ) ==> fin1 == fin2 && out1 == out2
}

/// Whether a handler is a function of the request it is handed.
pub open spec fn handler_is_stateless<H: Handler>(handler: H) -> bool {
    forall|
        req: Request<Body>,
        fin1: Request<Body>,
        out1: Result<Response<Body>, Error>,
        fin2: Request<Body>,
        out2: Result<Response<Body>, Error>,
    |
        #[trigger] handler.handles(req, fin1, out1) && #[trigger] handler.handles(req, fin2, out2)
            ==> fin1 == fin2 && out1 == out2
}

/// Whether both operations of an after-middleware are functions of what they
/// are handed.
pub open spec fn after_is_stateless<A: AfterMiddleware>(stage: A) -> bool {
    &&& forall|
        req: Request<Body>,
        res: Response<Body>,
        fin1: Request<Body>,
        out1: Result<Response<Body>, Error>,
        fin2: Request<Body>,
        out2: Result<Response<Body>, Error>,
    |
        #[trigger] stage.after_yields(req, res, fin1, out1) && #[trigger] stage.after_yields(
            req,
            res,
            fin2,
            out2,
        ) ==> fin1 == fin2 && out1 == out2
    &&& forall|
        req: Request<Body>,
        err: Error,
        fin1: Request<Body>,
        out1: Result<Response<Body>, Error>,
        fin2: Request<Body>,
        out2: Result<Response<Body>, Error>,
    |
        #[trigger] stage.catch_yields(req, err, fin1, out1) && #[trigger] stage.catch_yields(
            req,
            err,
            fin2,
            out2,
        ) ==> fin1 == fin2 && out1 == out2
}

/// Whether no stage of the chain keeps state between calls: what each operation
/// does depends on what it is handed, and on nothing else.
pub open spec fn is_stateless<H: Handler, B: BeforeMiddleware, A: AfterMiddleware>(
    chain: Middlewares<H, B, A>,
) -> bool {
    &&& forall|i: int|
        0 <= i < chain.befores().len() ==> before_is_stateless(#[trigger] chain.befores()[i])
    &&& handler_is_stateless(chain.handler())
    &&& forall|j: int|
        0 <= j < chain.afters().len() ==> after_is_stateless(#[trigger] chain.afters()[j])
}

/// From one stage and one request, a chain of stateless stages ends in one way
/// only.
pub proof fn lemma_stateless_run_is_unique<H: Handler, B: BeforeMiddleware, A: AfterMiddleware>(
    chain: Middlewares<H, B, A>,
    stage: Stage,
    req: Request<Body>,
    fin1: Request<Body>,
    result1: Result<Response<Body>, Error>,
    fin2: Request<Body>,
    result2: Result<Response<Body>, Error>,
)
    requires
        is_stateless(chain),
        chain.finishes(stage, req, fin1, result1),
        chain.finishes(stage, req, fin2, result2),
    ensures
        fin1 == fin2,
        result1 == result2,
    decreases chain.plan().end() - chain.plan().position(stage),
{
    let plan = chain.plan();
    chain.lemma_plan_counts();
    match stage {
        Stage::Before { index } => {
            let stage_at = chain.befores()[index as int];
            let (mid1, out1) = choose|mid: Request<Body>, out: Result<(), Error>|
                #[trigger] stage_at.before_yields(req, mid, out) && chain.finishes(
                    plan.before_returned(index, out),
                    mid,
                    fin1,
                    result1,
                );
            let (mid2, out2) = choose|mid: Request<Body>, out: Result<(), Error>|
                #[trigger] stage_at.before_yields(req, mid, out) && chain.finishes(
                    plan.before_returned(index, out),
                    mid,
                    fin2,
                    result2,
                );
            assert(before_is_stateless(stage_at));
            lemma_stateless_run_is_unique(
                chain,
                plan.before_returned(index, out1),
                mid1,
                fin1,
                result1,
                fin2,
                result2,
            );
        },
        Stage::Recover { index, error } => {
            let stage_at = chain.befores()[index as int];
            let (mid1, out1) = choose|mid: Request<Body>, out: Result<(), Error>|
                #[trigger] stage_at.catch_yields(req, error, mid, out) && chain.finishes(
                    plan.recover_returned(index, out),
                    mid,
                    fin1,
                    result1,
                );
            let (mid2, out2) = choose|mid: Request<Body>, out: Result<(), Error>|
                #[trigger] stage_at.catch_yields(req, error, mid, out) && chain.finishes(
                    plan.recover_returned(index, out),
                    mid,
                    fin2,
                    result2,
                );
            assert(before_is_stateless(stage_at));
            lemma_stateless_run_is_unique(
                chain,
                plan.recover_returned(index, out1),
                mid1,
                fin1,
                result1,
                fin2,
                result2,
            );
        },
        Stage::Handle => {
            let handler = chain.handler();
            let (mid1, out1) = choose|mid: Request<Body>, out: Result<Response<Body>, Error>|
                #[trigger] handler.handles(req, mid, out) && chain.finishes(
                    plan.handler_returned(out),
                    mid,
                    fin1,
                    result1,
                );
            let (mid2, out2) = choose|mid: Request<Body>, out: Result<Response<Body>, Error>|
                #[trigger] handler.handles(req, mid, out) && chain.finishes(
                    plan.handler_returned(out),
                    mid,
                    fin2,
                    result2,
                );
            lemma_stateless_run_is_unique(
                chain,
                plan.handler_returned(out1),
                mid1,
                fin1,
                result1,
                fin2,
                result2,
            );
        },
        Stage::After { index, carry: Ok(res) } => {
            let stage_at = chain.afters()[index as int];
            let (mid1, out1) = choose|mid: Request<Body>, out: Result<Response<Body>, Error>|
                #[trigger] stage_at.after_yields(req, res, mid, out) && chain.finishes(
                    plan.after_returned(index, out),
                    mid,
                    fin1,
                    result1,
                );
            let (mid2, out2) = choose|mid: Request<Body>, out: Result<Response<Body>, Error>|
                #[trigger] stage_at.after_yields(req, res, mid, out) && chain.finishes(
                    plan.after_returned(index, out),
                    mid,
                    fin2,
                    result2,
                );
            assert(after_is_stateless(stage_at));
            lemma_stateless_run_is_unique(
                chain,
                plan.after_returned(index, out1),
                mid1,
                fin1,
                result1,
                fin2,
                result2,
            );
        },
        Stage::After { index, carry: Err(error) } => {
            let stage_at = chain.afters()[index as int];
            let (mid1, out1) = choose|mid: Request<Body>, out: Result<Response<Body>, Error>|
                #[trigger] stage_at.catch_yields(req, error, mid, out) && chain.finishes(
                    plan.after_returned(index, out),
                    mid,
                    fin1,
                    result1,
                );
            let (mid2, out2) = choose|mid: Request<Body>, out: Result<Response<Body>, Error>|
                #[trigger] stage_at.catch_yields(req, error, mid, out) && chain.finishes(
                    plan.after_returned(index, out),
                    mid,
                    fin2,
                    result2,
                );
            assert(after_is_stateless(stage_at));
            lemma_stateless_run_is_unique(
                chain,
                plan.after_returned(index, out1),
                mid1,
                fin1,
                result1,
                fin2,
                result2,
            );
        },
        Stage::Done { .. } => {},
    }
}

/// No request interferes with another. Through a chain of stateless stages, two
/// requests of equal content, each handled on its own, leave equal requests and
/// get equal results.
pub proof fn lemma_equal_requests_equal_results<
    H: Handler,
    B: BeforeMiddleware,
    A: AfterMiddleware,
>(
    chain: Middlewares<H, B, A>,
    req: Request<Body>,
    fin1: Request<Body>,
    result1: Result<Response<Body>, Error>,
    fin2: Request<Body>,
    result2: Result<Response<Body>, Error>,
)
    requires
        is_stateless(chain),
        chain.handles(req, fin1, result1),
        chain.handles(req, fin2, result2),
    ensures
        fin1 == fin2,
        result1 == result2,
{
    lemma_stateless_run_is_unique(
        chain,
        chain.plan().start(),
        req,
        fin1,
        result1,
        fin2,
        result2,
    );
}

} // verus!
