//! The sliding-log limiter: it admits a request when at most `max_requests`
//! requests, this one included, were logged within the last window.
use crate::algorithm::{next_validation_step, validation_step, ValidationAction, ValidationEvent};
use crate::time::Duration;
use vstd::prelude::*;

verus! {

/// A sliding-log limiter over a storage `S` of request logs.
#[derive(Clone)]
pub struct SlidingWindow<S> {
    size: Duration,
    storage: S,
    max_requests: u64,
}

impl<S> SlidingWindow<S> {
    /// The length of the window that each request looks back over.
    pub closed spec fn window_size(&self) -> Duration {
        self.size
    }

    /// The storage that logs the requests.
    pub closed spec fn log_storage(&self) -> S {
        self.storage
    }

    /// The number of requests that any window admits.
    pub closed spec fn request_limit(&self) -> u64 {
        self.max_requests
    }

    /// A limiter with windows of `size` that logs in `storage` and admits
    /// `max_requests` requests in any window.
    pub fn new(size: Duration, storage: S, max_requests: u64) -> (limiter: Self)
        ensures
            limiter.window_size() == size,
            limiter.log_storage() == storage,
            limiter.request_limit() == max_requests,
    {
        SlidingWindow { size, storage, max_requests }
    }

    /// The length of the window that each request looks back over.
    pub fn size(&self) -> (size: Duration)
        ensures
            size == self.window_size(),
    {
        self.size
    }

    /// The number of requests that any window admits.
    pub fn max_requests(&self) -> (max_requests: u64)
        ensures
            max_requests == self.request_limit(),
    {
        self.max_requests
    }

    /// The storage, to log requests and read counts in; the window size and the
    /// limit stay as they are.
    pub fn storage_mut(&mut self) -> (storage: &mut S)
        ensures
            *storage == old(self).log_storage(),
            final(self).log_storage() == *final(storage),
            final(self).window_size() == old(self).window_size(),
            final(self).request_limit() == old(self).request_limit(),
    {
        &mut self.storage
    }

    /// The next step of validating a request, after `event`: log the
    /// request and drop the entries older than the window, then read the
    /// log's count, then admit the request exactly when that count is at
    /// most the limit.
    pub fn next_action(&self, event: ValidationEvent) -> (action: ValidationAction)
        ensures
            action == validation_step(event, self.window_size(), self.request_limit()),
    {
        next_validation_step(event, self.size, self.max_requests)
    }
}

} // verus!
