//! What the rate-limiting middleware does with a limiter's verdict.
use crate::algorithm::RateLimitError;
use vstd::prelude::*;

verus! {

/// The HTTP status of the answer to a refused request: 403 Forbidden.
pub const FORBIDDEN_STATUS: u16 = 403;

/// What the middleware does with a request once the limiter has answered.
#[derive(Debug, Clone, Copy, PartialEq, Eq)]
pub enum Admission {
    /// Hand the request to the inner service and return its response.
    Forward,
    /// Answer with an empty response of status `FORBIDDEN_STATUS`.
    Forbid,
}

/// A request goes on to the inner service exactly when the limiter admitted
/// it; a refusal and a limiter error are both answered as forbidden.
pub open spec fn admission_for(verdict: Result<bool, RateLimitError>) -> Admission {
    match verdict {
        Ok(true) => Admission::Forward,
        _ => Admission::Forbid,
    }
}

/// The middleware forwards a request exactly when the limiter admitted it,
/// and answers it as forbidden otherwise, also when the limiter failed.
pub proof fn lemma_forward_only_admitted(verdict: Result<bool, RateLimitError>)
    ensures
        admission_for(verdict) == Admission::Forward <==> verdict == Ok::<bool, RateLimitError>(
            true,
        ),
        admission_for(verdict) == Admission::Forbid <==> verdict != Ok::<bool, RateLimitError>(
            true,
        ),
{
}

/// What to do with a request on the limiter's `verdict`.
pub fn admission(verdict: &Result<bool, RateLimitError>) -> (admission: Admission)
    ensures
        admission == admission_for(*verdict),
{
    match verdict {
        Ok(true) => Admission::Forward,
        Ok(false) => Admission::Forbid,
        Err(_) => Admission::Forbid,
    }
}

} // verus!
