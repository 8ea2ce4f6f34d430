//! What holds of every chain.
//!
//! `transitions` speaks of single steps: which stage follows which, and what it
//! is handed. `runs` speaks of whole requests: the order in which the stages of
//! a request run, and when the handler is among them. `chains` speaks of
//! [`Middlewares`](crate::middleware::Middlewares): which operation of which
//! middleware a stage runs, and that a chain of stateless stages treats equal
//! requests equally.

pub mod chains;
pub mod runs;
pub mod transitions;
