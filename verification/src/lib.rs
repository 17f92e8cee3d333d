//! A rate limiter for HTTP services, with its counts kept in Redis.
//!
//! Two algorithms are offered: fixed windows, which count the requests of
//! each window of time, and a sliding log, which counts the requests of the
//! last window before each request. A middleware forwards the requests that
//! the limiter admits and answers the others as forbidden.
pub mod algorithm;
pub mod middleware;
pub mod redis_pipeline;
pub mod time;

use vstd::prelude::*;

verus! {

/// How a `ResponseFuture` answers when it is polled.
#[derive(Debug, Clone, Copy, PartialEq, Eq)]
pub enum PollDecision {
    /// Answer at once with a response whose body is the default value.
    RespondDefault,
    /// Poll the inner service's response.
    PollInner,
}

/// The response of the pass-through service, wrapping the inner service's
/// response future.
pub struct ResponseFuture<F> {
    response_future: F,
}

impl<F> ResponseFuture<F> {
    /// The inner service's response future.
    pub closed spec fn inner(&self) -> F {
        self.response_future
    }

    /// Wraps the inner service's response future.
    pub fn new(response_future: F) -> (future: Self)
        ensures
            future.inner() == response_future,
    {
        ResponseFuture { response_future }
    }

    /// The inner service's response future.
    pub fn into_inner(self) -> (response_future: F)
        ensures
            response_future == self.inner(),
    {
        self.response_future
    }

    /// How the future answers when polled: it answers at once with a default
    /// response and never polls the inner future.
    pub fn poll_decision() -> (decision: PollDecision)
        ensures
            decision == PollDecision::RespondDefault,
    {
        if 1u8 < 2u8 {
            PollDecision::RespondDefault
        } else {
            PollDecision::PollInner
        }
    }
}

} // verus!
