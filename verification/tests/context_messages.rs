use error_rail::types::ErrorContextBuilder;
use error_rail::ErrorContext;

#[test]
fn simple_context_message_is_its_text() {
    let c = ErrorContext::new("loading configuration");
    assert_eq!(c.message(), "loading configuration");
}

#[test]
fn tag_context_message_is_bracketed() {
    assert_eq!(ErrorContext::tag("db").message(), "[db]");
}

#[test]
fn metadata_context_message_is_parenthesized_pair() {
    assert_eq!(ErrorContext::metadata("user_id", "42").message(), "(user_id=42)");
}

#[test]
fn location_context_message() {
    assert_eq!(ErrorContext::location("main.rs", 42).message(), "at main.rs:42");
}

#[test]
fn full_group_message_orders_its_parts() {
    let c = ErrorContext::builder()
        .tag("db")
        .tag("network")
        .location("main.rs", 42)
        .message("connection failed")
        .metadata("retry_count", "3")
        .metadata("host", "localhost")
        .build();
    assert_eq!(
        c.message(),
        "[db, network] at main.rs:42: connection failed (retry_count=3, host=localhost)"
    );
}

#[test]
fn group_message_without_location() {
    let c = ErrorContext::group("fetching user").tag("api").build();
    assert_eq!(c.message(), "[api] fetching user");
}

#[test]
fn empty_group_message_is_empty() {
    let c = ErrorContextBuilder::new().build();
    assert_eq!(c.message(), "");
}

#[test]
fn builder_message_replaces_earlier_message() {
    let c = ErrorContext::builder().message("first").message("second").build();
    assert_eq!(c.message(), "second");
}

#[test]
fn duplicate_context_is_equal() {
    let c = ErrorContext::builder().tag("x").metadata("k", "v").build();
    assert_eq!(c.duplicate(), c);
}
