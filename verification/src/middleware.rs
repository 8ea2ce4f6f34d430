//! The middleware and handler system.
//!
//! A [`Handler`] answers a request. A [`BeforeMiddleware`] runs before it and may
//! change the request or stop the chain; an [`AfterMiddleware`] runs after it and
//! may change the response, or turn an error into one. [`Middlewares`] links any
//! number of both around one handler, and is itself a [`Handler`].
//!
//! Each operation comes with a relation that says which outcomes it may have.
//! An implementation states there what it does; one that states nothing keeps the
//! default, which admits every outcome. What a chain does is stated relative to
//! the relations of its stages.

use crate::error::Error;
use crate::protocol::{Plan, Stage};
use hyper::{Body, Request, Response};
use vstd::prelude::*;

verus! {

/// The terminal business logic of a chain.
pub trait Handler: Send + Sync + 'static {
    /// Whether `handle`, called on `req`, may leave the request as `fin` and
    /// return `out`.
    open spec fn handles(
        &self,
        req: Request<Body>,
        fin: Request<Body>,
        out: Result<Response<Body>, Error>,
    ) -> bool {
        true
    }

    /// Produces a response for the request, or fails.
    fn handle(&self, req: &mut Request<Body>) -> (out: Result<Response<Body>, Error>)
        ensures
            self.handles(*old(req), *final(req), out),
    ;
}

/// A stage that runs before the handler.
pub trait BeforeMiddleware: Send + Sync + 'static {
    /// Whether `before`, called on `req`, may leave the request as `fin` and
    /// return `out`.
    open spec fn before_yields(
        &self,
        req: Request<Body>,
        fin: Request<Body>,
        out: Result<(), Error>,
    ) -> bool {
        true
    }

    /// Whether `catch`, called on `req` and `err`, may leave the request as `fin`
    /// and return `out`.
    open spec fn catch_yields(
        &self,
        req: Request<Body>,
        err: Error,
        fin: Request<Body>,
        out: Result<(), Error>,
    ) -> bool {
        true
    }

    /// Inspects or changes the request. Failure stops the before-sequence.
    fn before(&self, req: &mut Request<Body>) -> (out: Result<(), Error>)
        ensures
            self.before_yields(*old(req), *final(req), out),
    ;

    /// Called with the error of this middleware's own `before`. Success resumes
    /// the chain; failure short-circuits it.
    fn catch(&self, req: &mut Request<Body>, err: Error) -> (out: Result<(), Error>)
        ensures
            self.catch_yields(*old(req), err, *final(req), out),
    ;
}

/// A stage that runs after the handler.
pub trait AfterMiddleware: Send + Sync + 'static {
    /// Whether `after`, called on `req` and `res`, may leave the request as `fin`
    /// and return `out`.
    open spec fn after_yields(
        &self,
        req: Request<Body>,
        res: Response<Body>,
        fin: Request<Body>,
        out: Result<Response<Body>, Error>,
    ) -> bool {
        true
    }

    /// Whether `catch`, called on `req` and `err`, may leave the request as `fin`
    /// and return `out`.
    open spec fn catch_yields(
        &self,
        req: Request<Body>,
        err: Error,
        fin: Request<Body>,
        out: Result<Response<Body>, Error>,
    ) -> bool {
        true
    }

    /// Transforms the response of the stage before it.
    fn after(&self, req: &mut Request<Body>, res: Response<Body>) -> (out: Result<
        Response<Body>,
        Error,
    >)
        ensures
            self.after_yields(*old(req), res, *final(req), out),
    ;

    /// Called with the error of the stage before it: resolves it into a response,
    /// or hands an error on.
    fn catch(&self, req: &mut Request<Body>, err: Error) -> (out: Result<Response<Body>, Error>)
        ensures
            self.catch_yields(*old(req), err, *final(req), out),
    ;
}

/// A chain: before-middlewares, one handler and after-middlewares, each sequence
/// in the order in which it was linked.
pub struct Middlewares<H, B, A> {
    befores: Vec<B>,
    handler: H,
    afters: Vec<A>,
}

impl<H: Handler, B: BeforeMiddleware, A: AfterMiddleware> Middlewares<H, B, A> {
    /// The before-middlewares, in the order in which they run.
    pub closed spec fn befores(&self) -> Seq<B> {
        self.befores@
    }

    /// The handler.
    pub closed spec fn handler(&self) -> H {
        self.handler
    }

    /// The after-middlewares, in the order in which they run.
    pub closed spec fn afters(&self) -> Seq<A> {
        self.afters@
    }

    /// What [`Middlewares::plan`] returns: the numbers of middlewares linked.
    pub open spec fn spec_plan(&self) -> Plan {
        Plan { befores: self.befores().len() as usize, afters: self.afters().len() as usize }
    }

    /// Whether the chain, with `stage` due on the request `req`, may end with the
    /// request as `fin` and with `result`.
    ///
    /// The operation that `stage` names runs on `req`; whatever it yields, the
    /// transition function for that operation names the stage that follows.
    pub open spec fn finishes(
        &self,
        stage: Stage,
        req: Request<Body>,
        fin: Request<Body>,
        result: Result<Response<Body>, Error>,
    ) -> bool
        decreases self.spec_plan().end() - self.spec_plan().position(stage),
    {
        let plan = self.spec_plan();
        if !plan.admits(stage) {
            false
        } else {
            match stage {
                Stage::Before { index } => exists|mid: Request<Body>, out: Result<(), Error>|
                    #[trigger] self.befores()[index as int].before_yields(req, mid, out)
                        && self.finishes(plan.before_returned(index, out), mid, fin, result),
                Stage::Recover { index, error } => exists|
                    mid: Request<Body>,
                    out: Result<(), Error>,
                |
                    #[trigger] self.befores()[index as int].catch_yields(req, error, mid, out)
                        && self.finishes(plan.recover_returned(index, out), mid, fin, result),
                Stage::Handle => exists|mid: Request<Body>, out: Result<Response<Body>, Error>|
                    #[trigger] self.handler().handles(req, mid, out) && self.finishes(
                        plan.handler_returned(out),
                        mid,
                        fin,
                        result,
                    ),
                Stage::After { index, carry: Ok(res) } => exists|
                    mid: Request<Body>,
                    out: Result<Response<Body>, Error>,
                |
                    #[trigger] self.afters()[index as int].after_yields(req, res, mid, out)
                        && self.finishes(plan.after_returned(index, out), mid, fin, result),
                Stage::After { index, carry: Err(error) } => exists|
                    mid: Request<Body>,
                    out: Result<Response<Body>, Error>,
                |
                    #[trigger] self.afters()[index as int].catch_yields(req, error, mid, out)
                        && self.finishes(plan.after_returned(index, out), mid, fin, result),
                Stage::Done { result: terminal } => fin == req && result == terminal,
            }
        }
    }

    /// The shape of a chain holds the lengths of its two sequences as they are:
    /// a chain has no more middlewares than a `usize` counts.
    pub proof fn lemma_plan_counts(&self)
        ensures
            self.spec_plan().befores == self.befores().len(),
            self.spec_plan().afters == self.afters().len(),
    {
        assert(self.befores@.len() == self.befores.len());
        assert(self.afters@.len() == self.afters.len());
    }

    /// Creates a chain around `handler`, with no middleware linked.
    pub fn new(handler: H) -> (chain: Self)
        ensures
            chain.handler() == handler,
            chain.befores() == Seq::<B>::empty(),
            chain.afters() == Seq::<A>::empty(),
    {
        Middlewares { befores: Vec::new(), handler, afters: Vec::new() }
    }

    /// Links a before-middleware: it runs after those linked earlier.
    pub fn link_before(&mut self, before: B) -> (chain: &mut Self)
        ensures
            chain.befores() == old(self).befores().push(before),
            chain.handler() == old(self).handler(),
            chain.afters() == old(self).afters(),
            *final(self) == *final(chain),
    {
        self.befores.push(before);
        self
    }

    /// Links an after-middleware: it runs after those linked earlier.
    pub fn link_after(&mut self, after: A) -> (chain: &mut Self)
        ensures
            chain.befores() == old(self).befores(),
            chain.handler() == old(self).handler(),
            chain.afters() == old(self).afters().push(after),
            *final(self) == *final(chain),
    {
        self.afters.push(after);
        self
    }

    /// The shape of the chain: how many middlewares of each kind are linked.
    #[verifier::when_used_as_spec(spec_plan)]
    pub fn plan(&self) -> (plan: Plan)
        ensures
            plan == self.spec_plan(),
    {
        Plan { befores: self.befores.len(), afters: self.afters.len() }
    }
}

impl<H: Handler, B: BeforeMiddleware, A: AfterMiddleware> Handler for Middlewares<H, B, A> {
    /// A chain handles a request as its protocol says, from the first stage on.
    open spec fn handles(
        &self,
        req: Request<Body>,
        fin: Request<Body>,
        out: Result<Response<Body>, Error>,
    ) -> bool {
        self.finishes(self.spec_plan().start(), req, fin, out)
    }

    /// Runs the chain on the request: the before-middlewares, the handler and the
    /// after-middlewares, each stage as the one before it ended.
    fn handle(&self, req: &mut Request<Body>) -> (out: Result<Response<Body>, Error>)
        ensures
            self.handles(*old(req), *final(req), out),
    {
        let plan = self.plan();
        let mut stage = plan.start();
        loop
            invariant
                plan == self.spec_plan(),
                plan.admits(stage),
                forall|fin: Request<Body>, result: Result<Response<Body>, Error>|
                    self.finishes(stage, *req, fin, result) ==> self.finishes(
                        plan.start(),
                        *old(req),
                        fin,
                        result,
                    ),
            decreases plan.end() - plan.position(stage),
        {
            let ghost due = stage;
            let ghost entry = *req;
            match stage {
                Stage::Before { index } => {
                    let out = self.befores[index].before(req);
                    let ghost yielded = out;
                    stage = plan.before_returned(index, out);
                    assert forall|fin: Request<Body>, result: Result<Response<Body>, Error>|
                        self.finishes(stage, *req, fin, result) implies self.finishes(
                        due,
                        entry,
                        fin,
                        result,
                    ) by {
                        assert(self.befores()[index as int].before_yields(entry, *req, yielded));
                    }
                },
                Stage::Recover { index, error } => {
                    let out = self.befores[index].catch(req, error);
                    let ghost yielded = out;
                    stage = plan.recover_returned(index, out);
                    assert forall|fin: Request<Body>, result: Result<Response<Body>, Error>|
                        self.finishes(stage, *req, fin, result) implies self.finishes(
                        due,
                        entry,
                        fin,
                        result,
                    ) by {
                        assert(self.befores()[index as int].catch_yields(
                            entry,
                            error,
                            *req,
                            yielded,
                        ));
                    }
                },
                Stage::Handle => {
                    let out = self.handler.handle(req);
                    let ghost yielded = out;
                    stage = plan.handler_returned(out);
                    assert forall|fin: Request<Body>, result: Result<Response<Body>, Error>|
                        self.finishes(stage, *req, fin, result) implies self.finishes(
                        due,
                        entry,
                        fin,
                        result,
                    ) by {
                        assert(self.handler().handles(entry, *req, yielded));
                    }
                },
                Stage::After { index, carry: Ok(res) } => {
                    let out = self.afters[index].after(req, res);
                    let ghost yielded = out;
                    stage = plan.after_returned(index, out);
                    assert forall|fin: Request<Body>, result: Result<Response<Body>, Error>|
                        self.finishes(stage, *req, fin, result) implies self.finishes(
                        due,
                        entry,
                        fin,
                        result,
                    ) by {
                        assert(self.afters()[index as int].after_yields(entry, res, *req, yielded));
                    }
                },
                Stage::After { index, carry: Err(error) } => {
                    let out = self.afters[index].catch(req, error);
                    let ghost yielded = out;
                    stage = plan.after_returned(index, out);
                    assert forall|fin: Request<Body>, result: Result<Response<Body>, Error>|
                        self.finishes(stage, *req, fin, result) implies self.finishes(
                        due,
                        entry,
                        fin,
                        result,
                    ) by {
                        assert(self.afters()[index as int].catch_yields(
                            entry,
                            error,
                            *req,
                            yielded,
                        ));
                    }
                },
                Stage::Done { result } => {
                    assert(self.finishes(due, *req, *req, result));
                    return result;
                },
            }
            assert forall|fin: Request<Body>, result: Result<Response<Body>, Error>|
                self.finishes(stage, *req, fin, result) implies self.finishes(
                plan.start(),
                *old(req),
                fin,
                result,
            ) by {
                assert(self.finishes(due, entry, fin, result));
            }
        }
    }
}

} // verus!
