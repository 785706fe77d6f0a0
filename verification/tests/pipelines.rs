use core::time::Duration;
use std::io::{Error, ErrorKind};
use error_rail::traits::TransientError;
use error_rail::{context, error_pipeline, ErrorContext, ErrorPipeline, LazyContext, LazyGroupContext};

#[derive(Debug, PartialEq)]
enum ApiError {
    Timeout,
    RateLimited(u64),
    NotFound,
}

impl TransientError for ApiError {
    fn is_transient(&self) -> bool {
        matches!(self, ApiError::Timeout | ApiError::RateLimited(_))
    }

    fn retry_after_hint(&self) -> Option<Duration> {
        match self {
            ApiError::RateLimited(secs) => Some(Duration::from_secs(*secs)),
            _ => None,
        }
    }
}

#[test]
fn pipeline_on_success_ignores_contexts() {
    let r = ErrorPipeline::<i32, &str>::new(Ok(5)).with_context("unused").map(|v| v + 1).finish();
    assert_eq!(r.unwrap(), 6);
}

#[test]
fn pipeline_finish_keeps_contexts_in_order() {
    let e = ErrorPipeline::<i32, &str>::new(Err("e")).with_context("first").context("second").finish().unwrap_err();
    assert_eq!(e.error_chain("e"), "second -> first -> e");
    assert_eq!(e.error_code(), None);
}

#[test]
fn lazy_contexts_only_evaluated_on_error() {
    let ok = ErrorPipeline::<i32, &str>::new(Ok(1))
        .with_context(LazyContext::new(|| -> String { panic!("not on success") }))
        .finish_boxed();
    assert_eq!(ok.unwrap(), 1);
    let e = ErrorPipeline::<i32, &str>::new(Err("e"))
        .with_context(LazyContext::new(|| format!("user {}", 7)))
        .with_context(LazyGroupContext::new(|| ErrorContext::tag("lazy")))
        .finish_boxed()
        .unwrap_err();
    assert_eq!(e.error_chain("e"), "[lazy] -> user 7 -> e");
}

#[test]
fn recover_success_discards_contexts() {
    let p = ErrorPipeline::<i32, &str>::new(Err("e")).with_context("ctx").recover(|_| Ok(3));
    assert_eq!(p.finish().unwrap(), 3);
}

#[test]
fn failed_recovery_keeps_contexts() {
    let e = ErrorPipeline::<i32, &str>::new(Err("e"))
        .with_context("ctx")
        .recover(|_| Err("e2"))
        .finish()
        .unwrap_err();
    assert_eq!(e.error_chain("e2"), "ctx -> e2");
    assert_eq!(*e.core_error(), "e2");
}

#[test]
fn fallback_and_recover_safe() {
    assert_eq!(ErrorPipeline::<i32, &str>::new(Err("e")).fallback(9).finish().unwrap(), 9);
    assert_eq!(ErrorPipeline::<usize, &str>::new(Err("abc")).recover_safe(|e| e.len()).finish().unwrap(), 3);
}

#[test]
fn map_error_keeps_contexts() {
    let e = ErrorPipeline::<i32, &str>::new(Err("abc")).with_context("c").map_error(|e| e.len()).finish().unwrap_err();
    assert_eq!(*e.core_error(), 3);
    assert_eq!(e.error_chain("3"), "c -> 3");
}

#[test]
fn and_then_and_step() {
    let r = ErrorPipeline::<i32, &str>::new(Ok(2)).and_then(|v| Ok::<i32, &str>(v * 10)).step(|v| Ok::<i32, &str>(v + 1));
    assert_eq!(r.finish().unwrap(), 21);
    let e = ErrorPipeline::<i32, &str>::new(Ok(2)).with_context("x").and_then(|_| Err::<i32, &str>("bad")).finish();
    assert_eq!(e.unwrap_err().error_chain("bad"), "bad");
}

#[test]
fn transient_classification() {
    assert!(ErrorPipeline::<i32, ApiError>::new(Err(ApiError::Timeout)).is_transient());
    assert!(!ErrorPipeline::<i32, ApiError>::new(Err(ApiError::NotFound)).is_transient());
    assert!(!ErrorPipeline::<i32, ApiError>::new(Ok(1)).is_transient());
    assert!(ApiError::NotFound.is_permanent());
    assert_eq!(ApiError::NotFound.max_retries_hint(), None);
}

#[test]
fn recover_transient_only_recovers_transient() {
    let p = ErrorPipeline::<i32, ApiError>::new(Err(ApiError::Timeout)).recover_transient(|_| Ok(1));
    assert_eq!(p.finish().unwrap(), 1);
    let q = ErrorPipeline::<i32, ApiError>::new(Err(ApiError::NotFound)).recover_transient(|_| Ok(1));
    assert_eq!(*q.finish().unwrap_err().core_error(), ApiError::NotFound);
}

#[test]
fn should_retry_and_hint() {
    assert!(ErrorPipeline::<i32, ApiError>::new(Err(ApiError::Timeout)).should_retry().is_some());
    assert!(ErrorPipeline::<i32, ApiError>::new(Err(ApiError::NotFound)).should_retry().is_none());
    let p = ErrorPipeline::<i32, ApiError>::new(Err(ApiError::RateLimited(3)));
    assert_eq!(p.retry_after_hint(), Some(Duration::from_secs(3)));
    assert_eq!(ErrorPipeline::<i32, ApiError>::new(Ok(1)).retry_after_hint(), None);
}

#[test]
fn mark_transient_if_uses_classifier() {
    let p = ErrorPipeline::<i32, u32>::new(Err(503)).mark_transient_if(|code: &u32| *code >= 500);
    assert!(p.is_transient());
    let q = ErrorPipeline::<i32, u32>::new(Err(404)).mark_transient_if(|code: &u32| *code >= 500);
    assert!(!q.is_transient());
    let e = q.finish().unwrap_err();
    assert_eq!(*e.core_error().inner(), 404);
}

#[test]
fn retry_context_records_attempt() {
    let e = ErrorPipeline::<i32, &str>::new(Err("e")).with_retry_context(3).finish().unwrap_err();
    assert_eq!(e.error_chain("e"), "(retry_attempt=3) -> e");
}

#[test]
fn retry_ops_hints() {
    let p = ErrorPipeline::<i32, &str>::new(Err("e"))
        .retry()
        .max_retries(5)
        .after_hint(Duration::from_millis(100))
        .to_error_pipeline();
    let e = p.finish().unwrap_err();
    assert_eq!(e.error_chain("e"), "(retry_after_hint=100ms) -> (max_retries_hint=5) -> e");
}

#[test]
fn retry_ops_transient() {
    let ops = ErrorPipeline::<i32, ApiError>::new(Err(ApiError::Timeout)).retry();
    assert!(ops.is_transient());
}

#[test]
fn context_module_functions() {
    let e = error_rail::with_context("core", "ctx");
    assert_eq!(e.error_chain("core"), "ctx -> core");
    let r = error_rail::with_context_result(Err::<i32, &str>("core"), "ctx");
    assert_eq!(r.unwrap_err().error_chain("core"), "ctx -> core");
    let acc = error_rail::accumulate_context("core", vec!["a", "b"]);
    assert_eq!(acc.error_chain("core"), "b -> a -> core");
    assert_eq!(error_rail::format_error_chain(&acc, "core"), "b -> a -> core");
    let extracted: Vec<String> = error_rail::extract_context(&acc).iter().map(|c| c.message()).collect();
    assert_eq!(extracted, vec!["b".to_string(), "a".to_string()]);
}

#[test]
fn legacy_context_pipeline() {
    let r = error_pipeline(Err::<i32, &str>("e")).with_context("one").with_context("two").finish();
    assert_eq!(r.unwrap_err().error_chain("e"), "two -> one -> e");
    let ok = context::ErrorPipeline::new(Ok::<i32, &str>(1)).map(|v| v + 1).finish_without_box();
    assert_eq!(ok.unwrap(), 2);
}

#[test]
fn context_fn_wraps_every_error() {
    let wrap = error_rail::context_fn::<&str, &str>("while saving");
    assert_eq!(wrap("disk full").error_chain("disk full"), "while saving -> disk full");
    assert_eq!(wrap("denied").error_chain("denied"), "while saving -> denied");
}

#[test]
fn context_accumulator_attaches_all() {
    let wrap = error_rail::context_accumulator::<&str, &str>(vec!["a", "b"]);
    assert_eq!(wrap("e").error_chain("e"), "b -> a -> e");
}

#[test]
fn io_errors_classified_by_kind() {
    assert!(Error::new(ErrorKind::TimedOut, "slow").is_transient());
    assert!(Error::new(ErrorKind::ConnectionReset, "reset").is_transient());
    assert!(Error::new(ErrorKind::WouldBlock, "later").is_transient());
    assert!(!Error::new(ErrorKind::NotFound, "gone").is_transient());
    assert!(Error::new(ErrorKind::PermissionDenied, "no").is_permanent());
    assert!(error_rail::io_transient::io_kind_transient(ErrorKind::Interrupted));
    assert!(!error_rail::io_transient::io_kind_transient(ErrorKind::BrokenPipe));
}

#[test]
fn marked_error_answers_as_its_classifier() {
    let p = ErrorPipeline::<i32, u32>::new(Err(503)).mark_transient_if(|code: &u32| *code >= 500);
    let e = p.finish().unwrap_err().into_core();
    assert_eq!((e.classifier())(e.inner()), e.is_transient());
    assert!(e.is_transient());
}
