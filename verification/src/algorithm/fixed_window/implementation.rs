//! The fixed-window limiter: it admits a request when the window that holds
//! it has seen at most `max_requests` requests.
use crate::algorithm::{next_validation_step, validation_step, ValidationAction, ValidationEvent};
use crate::time::Duration;
use vstd::prelude::*;

verus! {

/// A fixed-window limiter over a storage `S` of window counters.
#[derive(Clone)]
pub struct FixedWindow<S> {
    size: Duration,
    storage: S,
    max_requests: u64,
}

impl<S> FixedWindow<S> {
    /// The size of the limiter's windows.
    pub closed spec fn window_size(&self) -> Duration {
        self.size
    }

    /// The storage that counts the requests of each window.
    pub closed spec fn counter_storage(&self) -> S {
        self.storage
    }

    /// The number of requests that each window admits.
    pub closed spec fn request_limit(&self) -> u64 {
        self.max_requests
    }

    /// A limiter with windows of `size` that counts in `storage` and admits
    /// `max_requests` requests per window.
    pub fn new(size: Duration, storage: S, max_requests: u64) -> (limiter: Self)
        ensures
            limiter.window_size() == size,
            limiter.counter_storage() == storage,
            limiter.request_limit() == max_requests,
    {
        FixedWindow { size, storage, max_requests }
    }

    /// The size of the limiter's windows.
    pub fn size(&self) -> (size: Duration)
        ensures
            size == self.window_size(),
    {
        self.size
    }

    /// The number of requests that each window admits.
    pub fn max_requests(&self) -> (max_requests: u64)
        ensures
            max_requests == self.request_limit(),
    {
        self.max_requests
    }

    /// The storage, to record and read counts in; the window size and the
    /// limit stay as they are.
    pub fn storage_mut(&mut self) -> (storage: &mut S)
        ensures
            *storage == old(self).counter_storage(),
            final(self).counter_storage() == *final(storage),
            final(self).window_size() == old(self).window_size(),
            final(self).request_limit() == old(self).request_limit(),
    {
        &mut self.storage
    }

    /// The next step of validating a request, after `event`: record the
    /// request in its window, then read the window's count, then admit the
    /// request exactly when that count is at most the limit.
    pub fn next_action(&self, event: ValidationEvent) -> (action: ValidationAction)
        ensures
            action == validation_step(event, self.window_size(), self.request_limit()),
    {
        next_validation_step(event, self.size, self.max_requests)
    }
}

} // verus!
