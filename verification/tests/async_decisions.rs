use core::time::Duration;
use error_rail::async_ext::{
    retry_step, span_context, validation_step, AsyncErrorPipeline, ContextFuture, FixedDelay, RetryPolicy,
    RetryResult, RetryStep, RetryTally, SpanInfo, TimeoutError, TimeoutResult, ValidationCollector,
};
use error_rail::traits::TransientError;
use error_rail::validation::Validation;
use error_rail::{ComposableError, ErrorContext};

#[derive(Debug, PartialEq)]
enum NetError {
    Timeout,
    Refused,
}

impl TransientError for NetError {
    fn is_transient(&self) -> bool {
        matches!(self, NetError::Timeout)
    }
}

#[test]
fn fixed_delay_policy_stops_at_max() {
    let mut p = FixedDelay::new(Duration::from_millis(500), 3);
    assert_eq!(p.next_delay(0), Some(Duration::from_millis(500)));
    assert_eq!(p.next_delay(2), Some(Duration::from_millis(500)));
    assert_eq!(p.next_delay(3), None);
    p.reset();
    assert_eq!(p.next_delay(1), Some(Duration::from_millis(500)));
}

#[test]
fn retry_step_success_ends() {
    let mut p = FixedDelay::new(Duration::from_millis(1), 2);
    match retry_step(&mut p, 0, Ok::<i32, NetError>(5)) {
        RetryStep::Done(Ok(v)) => assert_eq!(v, 5),
        _ => panic!("expected success"),
    }
}

#[test]
fn retry_step_permanent_error_ends_with_context() {
    let mut p = FixedDelay::new(Duration::from_millis(1), 2);
    match retry_step(&mut p, 0, Err::<i32, NetError>(NetError::Refused)) {
        RetryStep::Done(Err(e)) => {
            assert_eq!(*e.core_error(), NetError::Refused);
            assert_eq!(e.error_chain("refused"), "permanent error, no retry -> refused");
        },
        _ => panic!("expected permanent failure"),
    }
}

#[test]
fn retry_step_transient_error_waits() {
    let mut p = FixedDelay::new(Duration::from_millis(7), 2);
    match retry_step(&mut p, 1, Err::<i32, NetError>(NetError::Timeout)) {
        RetryStep::Wait { delay, next_attempt } => {
            assert_eq!(delay, Duration::from_millis(7));
            assert_eq!(next_attempt, 2);
        },
        _ => panic!("expected a wait"),
    }
}

#[test]
fn retry_step_exhausted_reports_attempts() {
    let mut p = FixedDelay::new(Duration::from_millis(7), 2);
    match retry_step(&mut p, 2, Err::<i32, NetError>(NetError::Timeout)) {
        RetryStep::Done(Err(e)) => assert_eq!(e.error_chain("timeout"), "exhausted after 3 attempts -> timeout"),
        _ => panic!("expected exhaustion"),
    }
}

#[test]
fn retry_result_flags() {
    let r = RetryResult::<i32, NetError> { result: Ok(1), attempts: 3, total_wait_time: Duration::from_millis(2) };
    assert!(r.is_ok() && !r.is_err() && r.had_retries());
    let s = RetryResult::<i32, NetError> {
        result: Err(ComposableError::new(NetError::Refused)),
        attempts: 1,
        total_wait_time: Duration::ZERO,
    };
    assert!(s.is_err() && !s.had_retries());
}

#[test]
fn timeout_result_from_outcome() {
    let ok = TimeoutResult::<i32, &str>::from_outcome(Duration::from_secs(1), Some(Ok(3)));
    assert!(ok.is_ok() && !ok.is_err() && !ok.is_timeout());
    let err = TimeoutResult::<i32, &str>::from_outcome(Duration::from_secs(1), Some(Err("bad")));
    assert!(err.is_err());
    let late = TimeoutResult::<i32, &str>::from_outcome(Duration::from_secs(2), None);
    assert!(late.is_timeout());
}

#[derive(Debug, PartialEq)]
enum OpError {
    TimedOut(Duration),
    Other,
}

impl From<TimeoutError> for OpError {
    fn from(t: TimeoutError) -> Self {
        OpError::TimedOut(t.0)
    }
}

#[test]
fn timeout_into_result_converts_timeout() {
    let late = TimeoutResult::<i32, OpError>::from_outcome(Duration::from_secs(2), None);
    let e = late.into_result().unwrap_err();
    assert_eq!(*e.core_error(), OpError::TimedOut(Duration::from_secs(2)));
    let err = TimeoutResult::<i32, OpError>::from_outcome(Duration::from_secs(2), Some(Err(OpError::Other)));
    assert_eq!(*err.into_result().unwrap_err().core_error(), OpError::Other);
    let ok = TimeoutResult::<i32, OpError>::from_outcome(Duration::from_secs(2), Some(Ok(4)));
    assert_eq!(ok.into_result().unwrap(), 4);
}

#[test]
fn timeout_error_message() {
    assert_eq!(TimeoutError(Duration::from_millis(1500)).message(), "operation timed out after 1.5s");
}

#[test]
fn context_future_completion() {
    let mut f = ContextFuture::new((), || "loading");
    assert!(!f.is_terminated(false));
    let ok = f.complete(Ok::<i32, &str>(1));
    assert_eq!(ok.unwrap(), 1);
    let err = f.complete(Err::<i32, &str>("e")).unwrap_err();
    assert_eq!(err.error_chain("e"), "loading -> e");
    assert!(f.is_terminated(false));
}

#[test]
fn async_pipeline_wraps_future() {
    let p = AsyncErrorPipeline::new(7u8).with_context_fn(|| ErrorContext::tag("io"));
    let (fut, ctx) = p.finish().into_parts();
    assert_eq!(fut, 7u8);
    assert!(ctx.is_some());
}

#[test]
fn span_context_reads_metadata() {
    let info = SpanInfo {
        name: "fetch".to_string(),
        target: "app::net".to_string(),
        level: "INFO".to_string(),
        fields: vec!["id".to_string(), "url".to_string()],
    };
    assert_eq!(span_context(Some(info)).message(), "[fetch] (target=app::net, level=INFO, fields=id, url)");
    assert_eq!(span_context(None).message(), "in unknown span");
    let bare = SpanInfo { name: "s".to_string(), target: "t".to_string(), level: "DEBUG".to_string(), fields: vec![] };
    assert_eq!(span_context(Some(bare)).message(), "[s] (target=t, level=DEBUG)");
}

#[test]
fn collector_keeps_every_error() {
    let mut c = ValidationCollector::new();
    c.push(Validation::<&str, i32>::Valid(1));
    c.push(Validation::invalid("a"));
    c.push(Validation::Valid(2));
    c.push(Validation::invalid_many(vec!["b", "c"]));
    assert_eq!(c.finish().into_errors(), Some(vec!["a", "b", "c"]));
    let mut d = ValidationCollector::new();
    d.push(Validation::<&str, i32>::Valid(1));
    d.push(Validation::Valid(2));
    assert_eq!(d.finish().into_value(), Some(vec![1, 2]));
}

#[test]
fn validation_step_continues_or_stops() {
    assert_eq!(validation_step(Validation::<&str, i32>::Valid(3)).ok(), Some(3));
    let stop = validation_step(Validation::<&str, i32>::invalid("no"));
    assert_eq!(stop.err().and_then(|v| v.into_errors()), Some(vec!["no"]));
}

#[test]
fn tally_counts_attempts_and_waits() {
    let mut t = RetryTally::new();
    assert_eq!(t.attempt(), 0);
    assert_eq!(t.total_wait(), Duration::ZERO);
    assert!(t.can_wait(Duration::from_millis(700)));
    t.record_wait(Duration::from_millis(700));
    t.record_wait(Duration::from_millis(600));
    assert_eq!(t.attempt(), 2);
    assert_eq!(t.total_wait(), Duration::from_millis(1300));
    let r = t.finish::<i32, NetError>(Ok(5));
    assert_eq!(r.attempts, 3);
    assert_eq!(r.total_wait_time, Duration::from_millis(1300));
    assert!(r.had_retries());
}

#[test]
fn tally_refuses_overflowing_wait() {
    let mut t = RetryTally::new();
    t.record_wait(Duration::new(u64::MAX, 500_000_000));
    assert!(!t.can_wait(Duration::new(0, 600_000_000)));
    assert!(t.can_wait(Duration::new(0, 400_000_000)));
    let fresh = RetryTally::new();
    assert_eq!(fresh.finish::<i32, NetError>(Err(ComposableError::new(NetError::Refused))).attempts, 1);
}
