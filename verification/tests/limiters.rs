use tower_rate_limiter_redis::algorithm::fixed_window::implementation::FixedWindow;
use tower_rate_limiter_redis::algorithm::fixed_window::FixedWindow as RefusingFixedWindow;
use tower_rate_limiter_redis::algorithm::sliding_log::implementation::SlidingWindow;
use tower_rate_limiter_redis::algorithm::{
    next_validation_step, RateLimitError, ValidationAction, ValidationEvent,
};
use tower_rate_limiter_redis::middleware::{admission, Admission, FORBIDDEN_STATUS};
use tower_rate_limiter_redis::time::Duration;
use tower_rate_limiter_redis::{PollDecision, ResponseFuture};

#[test]
fn duration_parts_and_millis() {
    let d = Duration::new(1, 1_500_000_000);
    assert_eq!(d.as_secs(), 2);
    assert_eq!(d.subsec_nanos(), 500_000_000);
    assert_eq!(d.as_millis(), 2500);
    let d = Duration::new(2, 345_999_999);
    assert_eq!(d.as_millis(), 2345);
    let d = Duration::from_secs(10);
    assert_eq!(d.as_secs(), 10);
    assert_eq!(d.subsec_nanos(), 0);
    assert_eq!(d.as_millis(), 10_000);
    assert_eq!(Duration::from_secs(u64::MAX).as_millis(), u64::MAX as u128 * 1000);
}

#[test]
fn fixed_window_keeps_its_settings() {
    let mut limiter = FixedWindow::new(Duration::from_secs(10), 7u32, 3);
    assert_eq!(limiter.size(), Duration::from_secs(10));
    assert_eq!(limiter.max_requests(), 3);
    *limiter.storage_mut() = 9;
    assert_eq!(*limiter.storage_mut(), 9);
    assert_eq!(limiter.max_requests(), 3);
}

#[test]
fn fixed_window_validation_protocol() {
    let size = Duration::from_secs(10);
    let limiter = FixedWindow::new(size, (), 3);
    assert_eq!(limiter.next_action(ValidationEvent::Started), ValidationAction::RecordWindow(size));
    assert_eq!(
        limiter.next_action(ValidationEvent::WindowRecorded(4)),
        ValidationAction::FetchCount(size)
    );
    assert_eq!(
        limiter.next_action(ValidationEvent::CountFetched(3)),
        ValidationAction::Finish(Ok(true))
    );
    assert_eq!(
        limiter.next_action(ValidationEvent::CountFetched(4)),
        ValidationAction::Finish(Ok(false))
    );
    assert_eq!(
        limiter.next_action(ValidationEvent::CountFetched(0)),
        ValidationAction::Finish(Ok(true))
    );
}

#[test]
fn sliding_window_validation_protocol() {
    let size = Duration::from_secs(5);
    let mut limiter = SlidingWindow::new(size, String::from("log"), 1);
    assert_eq!(limiter.size(), size);
    assert_eq!(limiter.max_requests(), 1);
    assert_eq!(limiter.storage_mut().as_str(), "log");
    assert_eq!(limiter.next_action(ValidationEvent::Started), ValidationAction::RecordWindow(size));
    assert_eq!(
        limiter.next_action(ValidationEvent::WindowRecorded(1)),
        ValidationAction::FetchCount(size)
    );
    assert_eq!(
        limiter.next_action(ValidationEvent::CountFetched(1)),
        ValidationAction::Finish(Ok(true))
    );
    assert_eq!(
        limiter.next_action(ValidationEvent::CountFetched(2)),
        ValidationAction::Finish(Ok(false))
    );
}

#[test]
fn zero_limit_refuses_every_count_above_zero() {
    let size = Duration::from_secs(1);
    assert_eq!(
        next_validation_step(ValidationEvent::CountFetched(1), size, 0),
        ValidationAction::Finish(Ok(false))
    );
    assert_eq!(
        next_validation_step(ValidationEvent::CountFetched(u64::MAX), size, u64::MAX),
        ValidationAction::Finish(Ok(true))
    );
}

#[test]
fn one_client_gets_first_requests_of_window() {
    let limiter = FixedWindow::new(Duration::from_secs(60), (), 3);
    let verdicts: Vec<ValidationAction> =
        (1u64..=6).map(|count| limiter.next_action(ValidationEvent::CountFetched(count))).collect();
    let admitted = verdicts.iter().filter(|a| **a == ValidationAction::Finish(Ok(true))).count();
    assert_eq!(admitted, 3);
    assert_eq!(verdicts[2], ValidationAction::Finish(Ok(true)));
    assert_eq!(verdicts[3], ValidationAction::Finish(Ok(false)));
}

#[test]
fn refusing_fixed_window_refuses() {
    let limiter = RefusingFixedWindow::new(Duration::from_secs(10));
    assert_eq!(limiter.clone().validate_request(), Ok(false));
    assert_eq!(limiter.validate_request(), Ok(false));
}

#[test]
fn middleware_forwards_only_admitted_requests() {
    assert_eq!(admission(&Ok(true)), Admission::Forward);
    assert_eq!(admission(&Ok(false)), Admission::Forbid);
    assert_eq!(admission(&Err(RateLimitError {})), Admission::Forbid);
    assert_eq!(FORBIDDEN_STATUS, 403);
}

#[test]
fn response_future_answers_at_once() {
    let future = ResponseFuture::new(41u8);
    assert_eq!(ResponseFuture::<u8>::poll_decision(), PollDecision::RespondDefault);
    assert_eq!(future.into_inner(), 41);
}

#[test]
fn sliding_log_window_admits_at_most_limit() {
    // A log kept as the sliding-log pipeline keeps it: drop the times at or
    // before the request's time less the window, add the request's time,
    // count.
    let size = Duration::from_secs(1);
    let limiter = SlidingWindow::new(size, (), 2);
    let times: [u128; 7] = [1000, 1400, 1800, 2200, 2600, 3500, 3600];
    let mut log: Vec<u128> = Vec::new();
    let mut admitted: Vec<u128> = Vec::new();
    for &t in times.iter() {
        let cutoff = t - size.as_millis();
        log.retain(|&logged| logged > cutoff);
        log.push(t);
        let action = limiter.next_action(ValidationEvent::CountFetched(log.len() as u64));
        if action == ValidationAction::Finish(Ok(true)) {
            admitted.push(t);
        }
    }
    assert_eq!(admitted, vec![1000, 1400, 3500, 3600]);
    for start in 0u128..4000 {
        let in_window =
            admitted.iter().filter(|&&t| start < t && t <= start + size.as_millis()).count();
        assert!(in_window <= 2);
    }
}

#[test]
fn one_client_with_zero_limit_is_refused() {
    let limiter = FixedWindow::new(Duration::from_secs(60), (), 0);
    for count in 1u64..=5 {
        assert_eq!(
            limiter.next_action(ValidationEvent::CountFetched(count)),
            ValidationAction::Finish(Ok(false))
        );
    }
}
