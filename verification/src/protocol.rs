//! The execution protocol of a chain, as a state machine.
//!
//! A request passes through the stages `Before[0..n)`, `Handle`, `After[0..m)` and
//! `Done`, in that order. A [`Stage`] says which operation is due and what it is
//! handed; the transition functions of [`Plan`] say, for each outcome of that
//! operation, which stage comes next. They decide and do nothing else: whoever
//! drives a chain performs the operation and reports how it ended.

use crate::error::Error;
use hyper::{Body, Response};
use vstd::prelude::*;

verus! {

/// The shape of a chain: how many before-middlewares and after-middlewares it has.
#[derive(Clone, Copy, Debug, PartialEq, Eq)]
pub struct Plan {
    pub befores: usize,
    pub afters: usize,
}

/// The operation that is due next on a request.
#[derive(Debug)]
pub enum Stage {
    /// `before` of the before-middleware at `index` is due.
    Before { index: usize },
    /// `before` of the before-middleware at `index` failed with `error`; its
    /// `catch` is due.
    Recover { index: usize, error: Error },
    /// The handler is due.
    Handle,
    /// The after-middleware at `index` is due: its `after` on the response
    /// (success mode), or its `catch` on the error (error mode).
    After { index: usize, carry: Result<Response<Body>, Error> },
    /// Every stage has run; `result` is the terminal result.
    Done { result: Result<Response<Body>, Error> },
}

impl Plan {
    /// The before-stage `index`, or the handler once the before-sequence is over.
    pub open spec fn enter(self, index: int) -> Stage {
        if 0 <= index < self.befores {
            Stage::Before { index: index as usize }
        } else {
            Stage::Handle
        }
    }

    /// The after-stage `index` holding `carry`, or the end once the after-sequence
    /// is over.
    pub open spec fn deliver(self, index: int, carry: Result<Response<Body>, Error>) -> Stage {
        if 0 <= index < self.afters {
            Stage::After { index: index as usize, carry }
        } else {
            Stage::Done { result: carry }
        }
    }

    /// Whether `stage` is a stage of a chain of this shape.
    pub open spec fn admits(self, stage: Stage) -> bool {
        match stage {
            Stage::Before { index } => index < self.befores,
            Stage::Recover { index, .. } => index < self.befores,
            Stage::Handle => true,
            Stage::After { index, .. } => index < self.afters,
            Stage::Done { .. } => true,
        }
    }

    /// The place of `stage` in the order of execution.
    pub open spec fn position(self, stage: Stage) -> nat {
        match stage {
            Stage::Before { index } => 2 * index as nat,
            Stage::Recover { index, .. } => 2 * index as nat + 1,
            Stage::Handle => 2 * self.befores as nat,
            Stage::After { index, .. } => 2 * self.befores as nat + 1 + index as nat,
            Stage::Done { .. } => self.end(),
        }
    }

    /// The position of `Done`: no stage lies beyond it.
    pub open spec fn end(self) -> nat {
        2 * self.befores as nat + 1 + self.afters as nat
    }

    /// What [`Plan::start`] returns.
    pub open spec fn spec_start(self) -> Stage {
        self.enter(0)
    }

    /// What [`Plan::before_returned`] returns.
    pub open spec fn spec_before_returned(self, index: usize, outcome: Result<(), Error>) -> Stage {
        match outcome {
            Ok(_) => self.enter(index + 1),
            Err(error) => Stage::Recover { index, error },
        }
    }

    /// What [`Plan::recover_returned`] returns.
    pub open spec fn spec_recover_returned(
        self,
        index: usize,
        outcome: Result<(), Error>,
    ) -> Stage {
        match outcome {
            Ok(_) => self.enter(index + 1),
            Err(error) => self.deliver(0, Err(error)),
        }
    }

    /// What [`Plan::handler_returned`] returns.
    pub open spec fn spec_handler_returned(self, outcome: Result<Response<Body>, Error>) -> Stage {
        self.deliver(0, outcome)
    }

    /// What [`Plan::after_returned`] returns.
    pub open spec fn spec_after_returned(
        self,
        index: usize,
        outcome: Result<Response<Body>, Error>,
    ) -> Stage {
        self.deliver(index + 1, outcome)
    }

    /// The stage a request starts in: the first before-middleware, or the handler
    /// where there is none.
    #[verifier::when_used_as_spec(spec_start)]
    pub fn start(self) -> (stage: Stage)
        ensures
            stage == self.spec_start(),
    {
        if self.befores > 0 {
            Stage::Before { index: 0 }
        } else {
            Stage::Handle
        }
    }

    /// The stage that follows `before` of the before-middleware at `index`.
    ///
    /// Success moves on to the next before-middleware, or to the handler after the
    /// last one. Failure makes the `catch` of the same middleware due, on the
    /// error that `before` gave.
    #[verifier::when_used_as_spec(spec_before_returned)]
    pub fn before_returned(self, index: usize, outcome: Result<(), Error>) -> (stage: Stage)
        ensures
            stage == self.spec_before_returned(index, outcome),
    {
        match outcome {
            Ok(_) => self.next_before(index),
            Err(error) => Stage::Recover { index, error },
        }
    }

    /// The stage that follows `catch` of the before-middleware at `index`.
    ///
    /// Success counts as if `before` had succeeded. Failure skips what is left of
    /// the before-sequence and the handler, and enters the after-sequence in error
    /// mode with the error that `catch` gave.
    #[verifier::when_used_as_spec(spec_recover_returned)]
    pub fn recover_returned(self, index: usize, outcome: Result<(), Error>) -> (stage: Stage)
        ensures
            stage == self.spec_recover_returned(index, outcome),
    {
        match outcome {
            Ok(_) => self.next_before(index),
            Err(error) => self.after_stage(0, Err(error)),
        }
    }

    /// The stage that follows the handler: the after-sequence, entered in success
    /// mode with the handler's response or in error mode with its error.
    #[verifier::when_used_as_spec(spec_handler_returned)]
    pub fn handler_returned(self, outcome: Result<Response<Body>, Error>) -> (stage: Stage)
        ensures
            stage == self.spec_handler_returned(outcome),
    {
        self.after_stage(0, outcome)
    }

    /// The stage that follows the after-middleware at `index`, whichever of its two
    /// operations ran: what it returned goes to the next after-middleware, or is
    /// the terminal result after the last one.
    #[verifier::when_used_as_spec(spec_after_returned)]
    pub fn after_returned(self, index: usize, outcome: Result<Response<Body>, Error>) -> (stage:
        Stage)
        ensures
            stage == self.spec_after_returned(index, outcome),
    {
        if self.afters > 0 && index < self.afters - 1 {
            Stage::After { index: index + 1, carry: outcome }
        } else {
            Stage::Done { result: outcome }
        }
    }

    /// The before-middleware after the one at `index`, or the handler.
    fn next_before(self, index: usize) -> (stage: Stage)
        ensures
            stage == self.enter(index + 1),
    {
        if self.befores > 0 && index < self.befores - 1 {
            Stage::Before { index: index + 1 }
        } else {
            Stage::Handle
        }
    }

    /// The after-middleware at `index` with `carry` in hand, or the end.
    fn after_stage(self, index: usize, carry: Result<Response<Body>, Error>) -> (stage: Stage)
        ensures
            stage == self.deliver(index as int, carry),
    {
        if index < self.afters {
            Stage::After { index, carry }
        } else {
            Stage::Done { result: carry }
        }
    }
}

} // verus!
