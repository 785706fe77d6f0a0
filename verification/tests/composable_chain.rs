use error_rail::traits::{BoxedResultExt, ResultExt};
use error_rail::{ComposableError, ErrorContext, ErrorPipeline};

#[test]
fn readme_pipeline_chain() {
    let id: u64 = 42;
    let r: Result<String, Box<ComposableError<&str>>> = ErrorPipeline::new(Err::<String, &str>("db error"))
        .with_context("querying users table")
        .with_context(ErrorContext::builder().tag("db").metadata("user_id", "42").build())
        .with_context(format!("fetching user {}", id))
        .finish_boxed();
    let e = r.unwrap_err();
    assert_eq!(
        e.error_chain(e.core_error()),
        "fetching user 42 -> [db] (user_id=42) -> querying users table -> db error"
    );
}

#[test]
fn readme_ctx_boxed_chain() {
    let inner: Result<i32, Box<ComposableError<&str>>> = Err::<i32, &str>("db error").ctx("querying database");
    let outer = inner.ctx_boxed("in user service");
    let e = outer.unwrap_err();
    assert_eq!(e.error_chain("db error"), "in user service -> querying database -> db error");
}

#[test]
fn ctx_on_ok_keeps_value() {
    let r: Result<i32, Box<ComposableError<&str>>> = Ok::<i32, &str>(7).ctx("unused");
    assert_eq!(r.unwrap(), 7);
}

#[test]
fn ctx_with_runs_only_on_error() {
    let ok: Result<i32, Box<ComposableError<&str>>> =
        Ok::<i32, &str>(1).ctx_with(|| -> String { panic!("generator must not run on success") });
    assert_eq!(ok.unwrap(), 1);
    let err: Result<i32, Box<ComposableError<&str>>> =
        Err::<i32, &str>("boom").ctx_with(|| format!("user {} not found", 42));
    assert_eq!(err.unwrap_err().error_chain("boom"), "user 42 not found -> boom");
}

#[test]
fn chain_shows_code_after_core() {
    let e = ComposableError::new("database timeout").with_context("loading").set_code(504);
    assert_eq!(e.error_chain("database timeout"), "loading -> database timeout (code: 504)");
}

#[test]
fn chain_without_contexts_is_core() {
    let e = ComposableError::new("plain");
    assert_eq!(e.error_chain("plain"), "plain");
}

#[test]
fn newest_context_leads_the_chain() {
    let base = ComposableError::new("core").with_context("first");
    let before = base.error_chain("core");
    let after = base.with_context("second");
    assert_eq!(after.error_chain("core"), format!("second -> {}", before));
}

#[test]
fn context_reads_newest_first() {
    let e = ComposableError::new("e").with_context("a").with_context("b").with_context("c");
    let msgs: Vec<String> = e.context().iter().map(|c| c.message()).collect();
    assert_eq!(msgs, vec!["c".to_string(), "b".to_string(), "a".to_string()]);
    let iter_msgs: Vec<String> = e.context_iter().iter().map(|c| c.message()).collect();
    assert_eq!(iter_msgs, msgs);
}

#[test]
fn map_core_keeps_contexts_and_code() {
    let e = ComposableError::new(5u32).with_context("ctx").set_code(9);
    let m = e.map_core(|x| x * 2);
    assert_eq!(*m.core_error(), 10);
    assert_eq!(m.error_code(), Some(9));
    assert_eq!(m.error_chain("10"), "ctx -> 10 (code: 9)");
}

#[test]
fn with_code_sets_code() {
    let e = ComposableError::with_code("x", 404);
    assert_eq!(e.error_code(), Some(404));
    assert_eq!(e.into_core(), "x");
}

#[test]
fn alternate_display_cascades() {
    let e = ComposableError::new("root").with_context("outer").with_context("top");
    assert_eq!(e.display_text("root", false), "top -> outer -> root");
    assert_eq!(e.display_text("root", true), "top\n  outer\n    root");
}

#[test]
fn from_wraps_without_context() {
    let e: ComposableError<&str> = ComposableError::from("raw");
    assert_eq!(e.error_code(), None);
    assert!(e.context().is_empty());
    assert_eq!(e.into_core(), "raw");
}

#[test]
fn cow_contexts_render_as_text() {
    let borrowed: std::borrow::Cow<'static, str> = std::borrow::Cow::Borrowed("borrowed");
    let owned: std::borrow::Cow<'static, str> = std::borrow::Cow::Owned("owned".to_string());
    let e = ComposableError::new("core").with_context(borrowed).with_context(owned);
    assert_eq!(e.error_chain("core"), "owned -> borrowed -> core");
}
