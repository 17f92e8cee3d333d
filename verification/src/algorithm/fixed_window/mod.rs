//! The fixed-window algorithm: time is cut into windows of a fixed size, and
//! each window counts its requests.
pub mod implementation;
pub mod storage;

use crate::algorithm::RateLimitError;
use crate::time::Duration;
use vstd::prelude::*;

verus! {

/// A fixed-window limiter without a storage, which refuses every request.
#[derive(Clone)]
pub struct FixedWindow {
    size: Duration,
}

impl FixedWindow {
    /// The size of the limiter's windows.
    pub closed spec fn window_size(&self) -> Duration {
        self.size
    }

    /// A limiter with windows of `size`.
    pub fn new(size: Duration) -> (limiter: Self)
        ensures
            limiter.window_size() == size,
    {
        FixedWindow { size }
    }

    /// Validates a request: this limiter refuses every request.
    pub fn validate_request(self) -> (verdict: Result<bool, RateLimitError>)
        ensures
            verdict == Ok::<bool, RateLimitError>(false),
    {
        Ok(false)
    }
}

} // verus!
