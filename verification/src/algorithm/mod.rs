//! Rate-limiting algorithms: what they share.
pub mod fixed_window;
pub mod sliding_log;

use crate::time::Duration;
use vstd::prelude::*;

verus! {

/// The error a limiter reports when it cannot decide on a request.
#[derive(Debug, Clone, Copy, PartialEq, Eq)]
pub struct RateLimitError {}

/// A request is admitted when the count that the storage reports for it,
/// this request included, is at most the limit.
pub open spec fn admits(count: nat, max_requests: nat) -> bool {
    count <= max_requests
}

/// The number of requests admitted when the requests of one window are told
/// the counts `counts`, in the order they arrive.
pub open spec fn admitted_requests(counts: Seq<u64>, max_requests: u64) -> nat
    decreases counts.len(),
{
    if counts.len() == 0 {
        0
    } else {
        admitted_requests(counts.drop_last(), max_requests) + if admits(
            counts.last() as nat,
            max_requests as nat,
        ) {
            1nat
        } else {
            0nat
        }
    }
}

/// A count that is admitted stays admitted when it is smaller or the limit is
/// larger.
pub proof fn lemma_admission_monotone(count: nat, smaller: nat, max_requests: nat, larger_max: nat)
    requires
        admits(count, max_requests),
        smaller <= count,
        max_requests <= larger_max,
    ensures
        admits(smaller, max_requests),
        admits(count, larger_max),
{
}

/// Where each request of a window is told a count no smaller than its place in
/// the window (the first at least 1, the second at least 2, ...), as a store
/// reports when it records each request before counting, at most
/// `max_requests` of those requests are admitted.
pub proof fn lemma_admits_at_most_limit(counts: Seq<u64>, max_requests: u64)
    requires
        forall|i: int| 0 <= i < counts.len() ==> counts[i] >= i + 1,
    ensures
        admitted_requests(counts, max_requests) <= max_requests,
        admitted_requests(counts, max_requests) <= counts.len(),
    decreases counts.len(),
{
    if counts.len() > 0 {
        let rest = counts.drop_last();
        assert forall|i: int| 0 <= i < rest.len() implies rest[i] >= i + 1 by {
            assert(rest[i] == counts[i]);
        }
        lemma_admits_at_most_limit(rest, max_requests);
        assert(counts.last() == counts[counts.len() - 1]);
    }
}

/// Where each request of a window is told exactly its place in the window (the
/// first 1, the second 2, ...), as a store reports when only this limiter
/// writes to it, the first `max_requests` requests of the window are admitted and
/// every later one is refused.
pub proof fn lemma_admits_first_requests(counts: Seq<u64>, max_requests: u64)
    requires
        forall|i: int| 0 <= i < counts.len() ==> counts[i] == i + 1,
    ensures
        admitted_requests(counts, max_requests) == if counts.len() <= max_requests {
            counts.len()
        } else {
            max_requests as nat
        },
        forall|i: int|
            0 <= i < counts.len() ==> (admits(counts[i] as nat, max_requests as nat) <==> i
                < max_requests),
    decreases counts.len(),
{
    if counts.len() > 0 {
        let rest = counts.drop_last();
        assert forall|i: int| 0 <= i < rest.len() implies rest[i] == i + 1 by {
            assert(rest[i] == counts[i]);
        }
        lemma_admits_first_requests(rest, max_requests);
        assert(counts.last() == counts[counts.len() - 1]);
    }
}

/// What the storage reported to a limiter while it validates one request.
#[derive(Debug, Clone, Copy, PartialEq, Eq)]
pub enum ValidationEvent {
    /// Validation of a new request begins.
    Started,
    /// The storage recorded the request; the count it returned.
    WindowRecorded(u64),
    /// The storage reported the current count.
    CountFetched(u64),
}

/// What a limiter asks for next while it validates one request.
#[derive(Debug, Clone, Copy, PartialEq, Eq)]
pub enum ValidationAction {
    /// Record the request in the storage, for a window of this size.
    RecordWindow(Duration),
    /// Read the current count from the storage, for a window of this size.
    FetchCount(Duration),
    /// Answer the request: `Ok(true)` admits it, `Ok(false)` refuses it.
    Finish(Result<bool, RateLimitError>),
}

/// The step of validation that follows `event`, for a limiter whose window
/// has `size` and which admits `max_requests` requests: record the request,
/// then read the count, then admit exactly when the count is within the limit.
pub open spec fn validation_step(event: ValidationEvent, size: Duration, max_requests: u64) -> ValidationAction {
    match event {
        ValidationEvent::Started => ValidationAction::RecordWindow(size),
        ValidationEvent::WindowRecorded(_) => ValidationAction::FetchCount(size),
        ValidationEvent::CountFetched(count) => ValidationAction::Finish(
            Ok(admits(count as nat, max_requests as nat)),
        ),
    }
}

/// With one client, the request told count `i + 1` is answered `Ok(i <
/// max_requests)`: the first `max_requests` requests of a window are admitted,
/// the later ones refused, and none at all when the limit is zero.
pub proof fn lemma_one_client_verdicts(counts: Seq<u64>, size: Duration, max_requests: u64)
    requires
        forall|i: int| 0 <= i < counts.len() ==> counts[i] == i + 1,
    ensures
        forall|i: int|
            0 <= i < counts.len() ==> validation_step(
                ValidationEvent::CountFetched(#[trigger] counts[i]),
                size,
                max_requests,
            ) == ValidationAction::Finish(Ok::<bool, RateLimitError>(i < max_requests)),
        admitted_requests(counts, max_requests) == if counts.len() <= max_requests {
            counts.len()
        } else {
            max_requests as nat
        },
{
    lemma_admits_first_requests(counts, max_requests);
}

/// A limiter with a larger limit admits every count that one with a smaller
/// limit admits.
pub proof fn lemma_raising_limit_keeps_admission(
    count: u64,
    size: Duration,
    max_requests: u64,
    larger_max: u64,
)
    requires
        validation_step(ValidationEvent::CountFetched(count), size, max_requests)
            == ValidationAction::Finish(Ok::<bool, RateLimitError>(true)),
        max_requests <= larger_max,
    ensures
        validation_step(ValidationEvent::CountFetched(count), size, larger_max)
            == ValidationAction::Finish(Ok::<bool, RateLimitError>(true)),
{
}

/// Validation runs in a fixed order whatever the storage replies: a new
/// request is first recorded, and once the storage has recorded it, whatever
/// count the recording returned, the current count is fetched.
pub proof fn lemma_validation_records_then_fetches(
    recorded: u64,
    size: Duration,
    max_requests: u64,
)
    ensures
        validation_step(ValidationEvent::Started, size, max_requests)
            == ValidationAction::RecordWindow(size),
        validation_step(ValidationEvent::WindowRecorded(recorded), size, max_requests)
            == ValidationAction::FetchCount(size),
{
}

/// Validation refuses a request only on a fetched count above the limit, and
/// every such count is refused.
pub proof fn lemma_refusal_only_above_limit(
    event: ValidationEvent,
    size: Duration,
    max_requests: u64,
)
    ensures
        validation_step(event, size, max_requests) == ValidationAction::Finish(
            Ok::<bool, RateLimitError>(false),
        ) <==> (event matches ValidationEvent::CountFetched(count) && count > max_requests),
{
}

/// Validation admits a request only on a fetched count within the limit, and
/// every such count is admitted; it never ends in an error.
pub proof fn lemma_admission_only_within_limit(
    event: ValidationEvent,
    size: Duration,
    max_requests: u64,
)
    ensures
        validation_step(event, size, max_requests) == ValidationAction::Finish(
            Ok::<bool, RateLimitError>(true),
        ) <==> (event matches ValidationEvent::CountFetched(count) && count <= max_requests),
        !(validation_step(event, size, max_requests) matches ValidationAction::Finish(Err(_))),
{
}

/// The step of validation that follows `event`; see `validation_step`.
pub fn next_validation_step(event: ValidationEvent, size: Duration, max_requests: u64) -> (action:
    ValidationAction)
    ensures
        action == validation_step(event, size, max_requests),
{
    match event {
        ValidationEvent::Started => ValidationAction::RecordWindow(size),
        ValidationEvent::WindowRecorded(_) => ValidationAction::FetchCount(size),
        ValidationEvent::CountFetched(count) => ValidationAction::Finish(Ok(count <= max_requests)),
    }
}

/// The prefix of every key that the storages write.
pub open spec fn key_prefix() -> Seq<u8> {
    seq![('k' as u8), ('e' as u8), ('y' as u8)]
}

/// The prefix of every key that the storages write.
pub fn key_prefix_bytes() -> (prefix: Vec<u8>)
    ensures
        prefix@ == key_prefix(),
{
    let mut prefix: Vec<u8> = Vec::new();
    prefix.push('k' as u8);
    prefix.push('e' as u8);
    prefix.push('y' as u8);
    prefix
}

} // verus!
